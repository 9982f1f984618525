use clox::chunk::{Chunk, OpCode};
use clox::value::Value;
use clox::virtual_machine::{BinaryOp, Step, VM};

fn number(n: f64) -> Value {
    Value::Number(n.to_bits())
}

fn as_f64(v: Value) -> f64 {
    f64::from_bits(v.bits())
}

fn approx(a: f64, b: f64) -> bool {
    (a - b).abs() < 0.00000001
}

fn apply(op: BinaryOp, lhs: Value, rhs: Value) -> Value {
    let (l, r) = (as_f64(lhs), as_f64(rhs));
    number(match op {
        BinaryOp::Add => l + r,
        BinaryOp::Sub => l - r,
        BinaryOp::Mul => l * r,
        BinaryOp::Div => l / r,
        BinaryOp::Mod => l % r,
    })
}

/// Runs the chunk to its end, doing the float arithmetic the machine asks for.
fn drive(vm: &mut VM, chunk: &Chunk) -> Step {
    loop {
        match vm.run(chunk) {
            Step::Compute { op, lhs, rhs } => vm.push_value(apply(op, lhs, rhs)),
            other => return other,
        }
    }
}

fn binary_chunk(lhs: f64, rhs: f64, op: OpCode) -> Chunk {
    let mut chunk = Chunk::new();
    let constant = chunk.add_constants(number(lhs));
    chunk.write_opcode(OpCode::Constant(constant), 0);
    let constant = chunk.add_constants(number(rhs));
    chunk.write_opcode(OpCode::Constant(constant), 0);
    chunk.write_opcode(op, 0);
    chunk
}

#[test]
fn unary_negate() {
    let mut vm = VM::new();
    let mut chunk = Chunk::new();

    let num = 20.0;

    let constant = chunk.add_constants(number(num));
    chunk.write_opcode(OpCode::Constant(constant), 0);
    chunk.write_opcode(OpCode::Negate, 0);
    assert!(matches!(drive(&mut vm, &chunk), Step::Halted));

    assert_eq!(as_f64(vm.pop_value()), -num);
}

#[test]
fn binary_add() {
    let mut vm = VM::new();
    let lhs = 10.0;
    let rhs = 20.0;
    let chunk = binary_chunk(lhs, rhs, OpCode::Add);

    assert!(matches!(drive(&mut vm, &chunk), Step::Halted));
    assert!(approx(as_f64(vm.pop_value()), lhs + rhs));
}

#[test]
fn negate_add_return_yields_sum() {
    let mut vm = VM::new();
    let mut chunk = Chunk::new();
    let a = chunk.add_constants(number(1.2));
    chunk.write_opcode(OpCode::Constant(a), 1);
    let b = chunk.add_constants(number(42.0));
    chunk.write_opcode(OpCode::Constant(b), 1);
    chunk.write_opcode(OpCode::Negate, 1);
    chunk.write_opcode(OpCode::Add, 1);
    chunk.write_opcode(OpCode::Return, 1);

    match vm.run(&chunk) {
        Step::Compute { op, lhs, rhs } => {
            assert_eq!(op, BinaryOp::Add);
            assert_eq!(as_f64(lhs), 1.2);
            assert_eq!(as_f64(rhs), -42.0);
            vm.push_value(apply(op, lhs, rhs));
        }
        _ => panic!("expected the addition to be handed out"),
    }
    match vm.run(&chunk) {
        Step::Returned(v) => assert!(approx(as_f64(v), -40.8)),
        _ => panic!("expected a return"),
    }
    assert!(vm.stack().is_empty());
}

#[test]
fn binary_operands_in_order() {
    let cases = [
        (OpCode::Sub, BinaryOp::Sub, 7.0),
        (OpCode::Mul, BinaryOp::Mul, 30.0),
        (OpCode::Div, BinaryOp::Div, 10.0 / 3.0),
        (OpCode::Mod, BinaryOp::Mod, 1.0),
    ];
    for (opcode, expected_op, expected) in cases {
        let mut vm = VM::new();
        let chunk = binary_chunk(10.0, 3.0, opcode);
        match vm.run(&chunk) {
            Step::Compute { op, lhs, rhs } => {
                assert_eq!(op, expected_op);
                assert_eq!(as_f64(lhs), 10.0);
                assert_eq!(as_f64(rhs), 3.0);
                vm.push_value(apply(op, lhs, rhs));
            }
            _ => panic!("expected a binary operation"),
        }
        assert!(matches!(vm.run(&chunk), Step::Halted));
        assert!(approx(as_f64(vm.pop_value()), expected));
    }
}

#[test]
fn division_by_zero_follows_ieee() {
    let mut vm = VM::new();
    let chunk = binary_chunk(1.0, 0.0, OpCode::Div);
    drive(&mut vm, &chunk);
    assert_eq!(as_f64(vm.pop_value()), f64::INFINITY);
}

#[test]
fn step_by_step_execution() {
    let mut vm = VM::new();
    let mut chunk = Chunk::new();
    let k = chunk.add_constants(number(5.0));
    chunk.write_opcode(OpCode::Constant(k), 3);
    chunk.write_opcode(OpCode::Negate, 4);

    assert!(vm.can_step(&chunk));
    assert!(matches!(vm.step(&chunk), Step::Continue));
    assert_eq!(vm.stack().len(), 1);
    assert!(matches!(vm.step(&chunk), Step::Continue));
    assert_eq!(as_f64(vm.stack()[0]), -5.0);
    assert!(matches!(vm.step(&chunk), Step::Halted));
    assert!(matches!(vm.step(&chunk), Step::Halted));
}

#[test]
fn return_halts_before_later_instructions() {
    let mut vm = VM::new();
    let mut chunk = Chunk::new();
    let k = chunk.add_constants(number(2.0));
    chunk.write_opcode(OpCode::Constant(k), 0);
    chunk.write_opcode(OpCode::Return, 0);
    chunk.write_opcode(OpCode::Constant(k), 0);

    match vm.run(&chunk) {
        Step::Returned(v) => assert_eq!(as_f64(v), 2.0),
        _ => panic!("expected a return"),
    }
    assert!(matches!(vm.run(&chunk), Step::Halted));
    assert!(vm.stack().is_empty());
}

#[test]
fn empty_chunk_halts_at_once() {
    let mut vm = VM::new();
    let chunk = Chunk::new();
    assert!(matches!(vm.run(&chunk), Step::Halted));
    assert!(vm.stack().is_empty());
}

#[test]
fn stack_underflow_is_reported() {
    let mut vm = VM::new();
    let mut chunk = Chunk::new();
    chunk.write_opcode(OpCode::Negate, 0);
    assert!(!vm.can_step(&chunk));
    assert!(matches!(vm.run(&chunk), Step::StackUnderflow));

    let mut vm = VM::new();
    let mut chunk = Chunk::new();
    let k = chunk.add_constants(number(1.0));
    chunk.write_opcode(OpCode::Constant(k), 0);
    chunk.write_opcode(OpCode::Add, 0);
    assert!(matches!(vm.run(&chunk), Step::StackUnderflow));
    assert_eq!(vm.stack().len(), 1);
}

#[test]
fn negation_flips_only_the_sign() {
    assert_eq!(as_f64(number(0.0).negate()).to_bits(), (-0.0f64).to_bits());
    assert_eq!(as_f64(number(-3.5).negate()), 3.5);
    assert!(as_f64(number(f64::NAN).negate()).is_nan());
    assert_eq!(number(1.5).negate().negate().bits(), 1.5f64.to_bits());
}

#[test]
fn constants_round_trip() {
    let mut chunk = Chunk::new();
    let a = chunk.add_constants(number(1.5));
    let b = chunk.add_constants(number(-7.25));
    assert!(a < b);
    assert_eq!(as_f64(chunk.get_constant(a)), 1.5);
    assert_eq!(as_f64(chunk.get_constant(b)), -7.25);
}

#[test]
fn chunk_keeps_instructions_and_lines() {
    let mut chunk = Chunk::new();
    chunk.write_opcode(OpCode::Return, 12);
    chunk.write_opcode(OpCode::Negate, 13);
    assert_eq!(chunk.code_nb(), 2);
    assert_eq!(chunk.code(), &vec![OpCode::Return, OpCode::Negate]);
    assert_eq!(chunk.get_instruction(1), OpCode::Negate);
    assert_eq!(chunk.get_line(0), 12);
    assert_eq!(chunk.get_line(1), 13);
}
