use vstd::prelude::*;
use crate::chunk::{Chunk, OpCode};
use crate::value::{negated, Value};

verus! {

/// How an interpretation ended.
#[derive(Clone, Copy, Debug, PartialEq, Eq, Structural)]
pub enum InterpretResult {
    Success,
    CompileError,
    /// Reserved for type errors in arithmetic, which one kind of value cannot have.
    RuntimeError,
}

/// The float operation of a binary instruction.
#[derive(Clone, Copy, Debug, PartialEq, Eq, Structural)]
pub enum BinaryOp {
    Add,
    Sub,
    Mul,
    Div,
    Mod,
}

/// What one step of the machine leaves to its driver.
#[derive(Clone, Copy, Debug)]
pub enum Step {
    /// An instruction ran; step again.
    Continue,
    /// A `Return` ran and popped this value; the machine has halted.
    Returned(Value),
    /// The cursor is past the last instruction, or the machine had halted.
    Halted,
    /// A binary instruction popped its operands: the driver computes
    /// `lhs op rhs` under IEEE-754 rules and pushes the result.
    Compute { op: BinaryOp, lhs: Value, rhs: Value },
    /// The next instruction needs more operands than the stack holds; nothing
    /// was done. Only `run` reports this.
    StackUnderflow,
}

/// The machine as a mathematical value: cursor, operand stack (last element
/// on top), and whether a `Return` has halted it.
pub type VmModel = (int, Seq<Value>, bool);

/// A stack machine that runs one chunk.
pub struct VM {
    instruction_index: usize,
    stack: Vec<Value>,
    returned: bool,
}

impl View for VM {
    type V = VmModel;

    closed spec fn view(&self) -> VmModel {
        (self.instruction_index as int, self.stack@, self.returned)
    }
}

/// How many values an instruction pops.
pub open spec fn pops(op: OpCode) -> nat {
    match op {
        OpCode::Constant(_) => 0,
        OpCode::Return | OpCode::Negate => 1,
        _ => 2,
    }
}

pub open spec fn binary_kind(op: OpCode) -> BinaryOp {
    match op {
        OpCode::Sub => BinaryOp::Sub,
        OpCode::Mul => BinaryOp::Mul,
        OpCode::Div => BinaryOp::Div,
        OpCode::Mod => BinaryOp::Mod,
        _ => BinaryOp::Add,
    }
}

/// Whether the machine has halted: by a `Return`, or by running off the end.
pub open spec fn is_halted(chunk: &Chunk, m: VmModel) -> bool {
    m.2 || m.0 >= chunk.code_seq().len()
}

/// Whether the next step finds on the stack the operands it pops.
pub open spec fn step_defined(chunk: &Chunk, m: VmModel) -> bool {
    is_halted(chunk, m) || pops(chunk.code_seq()[m.0]) <= m.1.len()
}

/// One step from `m`: the next machine and what the driver is left with.
pub open spec fn step_result(chunk: &Chunk, m: VmModel) -> (VmModel, Step) {
    let (ip, stack, done) = m;
    if is_halted(chunk, m) {
        (m, Step::Halted)
    } else {
        let next = ip + 1;
        let n = stack.len() as int;
        match chunk.code_seq()[ip] {
            OpCode::Return => ((next, stack.drop_last(), true), Step::Returned(stack.last())),
            OpCode::Negate => (
                (next, stack.drop_last().push(negated(stack.last())), false),
                Step::Continue,
            ),
            OpCode::Constant(index) => (
                (next, stack.push(chunk.constants_seq()[index as int]), false),
                Step::Continue,
            ),
            op => (
                (next, stack.subrange(0, n - 2), false),
                Step::Compute { op: binary_kind(op), lhs: stack[n - 2], rhs: stack[n - 1] },
            ),
        }
    }
}

/// Steps from `m` until one leaves something to the driver: a `Compute`, a
/// return, a halt, or a stack too short for the next instruction.
pub open spec fn run_result(chunk: &Chunk, m: VmModel) -> (VmModel, Step)
    decreases chunk.code_seq().len() - m.0,
{
    if !step_defined(chunk, m) {
        (m, Step::StackUnderflow)
    } else {
        let next = step_result(chunk, m);
        if next.1 is Continue {
            run_result(chunk, next.0)
        } else {
            next
        }
    }
}

impl VM {
    pub fn new() -> (r: VM)
        ensures
            r@ == (0int, Seq::<Value>::empty(), false),
    {
        VM { instruction_index: 0, stack: Vec::with_capacity(1024), returned: false }
    }

    /// Whether `step` may run: the machine has halted, or the stack holds the
    /// operands of the next instruction.
    pub fn can_step(&self, chunk: &Chunk) -> (r: bool)
        ensures
            r == step_defined(chunk, self@),
    {
        if self.returned || self.instruction_index >= chunk.code_nb() {
            return true;
        }
        let needed: usize = match chunk.get_instruction(self.instruction_index) {
            OpCode::Constant(_) => 0,
            OpCode::Return | OpCode::Negate => 1,
            _ => 2,
        };
        needed <= self.stack.len()
    }

    /// Fetches the instruction at the cursor, moves the cursor past it, and
    /// carries it out as far as this machine can.
    pub fn step(&mut self, chunk: &Chunk) -> (r: Step)
        requires
            chunk.wf(),
            step_defined(chunk, old(self)@),
        ensures
            (final(self)@, r) == step_result(chunk, old(self)@),
    {
        if self.returned || self.instruction_index >= chunk.code_nb() {
            return Step::Halted;
        }
        let instruction = chunk.get_instruction(self.instruction_index);
        proof {
            assert(crate::chunk::operand_in_pool(
                chunk.code_seq()[self.instruction_index as int],
                chunk.constants_seq().len(),
            ));
        }
        self.instruction_index += 1;
        match instruction {
            OpCode::Return => {
                let value = self.pop_value();
                self.returned = true;
                Step::Returned(value)
            },
            OpCode::Negate => {
                let value = self.pop_value();
                self.stack.push(value.negate());
                Step::Continue
            },
            OpCode::Constant(index) => {
                let constant = chunk.get_constant(index);
                self.stack.push(constant);
                Step::Continue
            },
            OpCode::Add => self.binary_op(BinaryOp::Add),
            OpCode::Sub => self.binary_op(BinaryOp::Sub),
            OpCode::Mul => self.binary_op(BinaryOp::Mul),
            OpCode::Div => self.binary_op(BinaryOp::Div),
            OpCode::Mod => self.binary_op(BinaryOp::Mod),
        }
    }

    /// Runs instructions until one needs the driver: see `run_result`.
    pub fn run(&mut self, chunk: &Chunk) -> (r: Step)
        requires
            chunk.wf(),
        ensures
            (final(self)@, r) == run_result(chunk, old(self)@),
    {
        loop
            invariant
                chunk.wf(),
                run_result(chunk, self@) == run_result(chunk, old(self)@),
            decreases chunk.code_seq().len() - self@.0,
        {
            if !self.can_step(chunk) {
                return Step::StackUnderflow;
            }
            let step = self.step(chunk);
            match step {
                Step::Continue => {},
                _ => {
                    return step;
                },
            }
        }
    }

    /// Pops the right operand, then the left, and hands both out with `op`.
    fn binary_op(&mut self, op: BinaryOp) -> (r: Step)
        requires
            old(self).stack@.len() >= 2,
        ensures
            ({
                let s = old(self).stack@;
                let n = s.len() as int;
                &&& r == (Step::Compute { op, lhs: s[n - 2], rhs: s[n - 1] })
                &&& final(self)@ == (old(self)@.0, s.subrange(0, n - 2), old(self)@.2)
            }),
    {
        let rhs = self.pop_value();
        let lhs = self.pop_value();
        proof {
            assert(self.stack@ =~= old(self).stack@.subrange(0, old(self).stack@.len() - 2));
        }
        Step::Compute { op, lhs, rhs }
    }

    /// The offset of the instruction that the next step runs, unless the
    /// machine has halted.
    pub fn next_offset(&self, chunk: &Chunk) -> (r: Option<usize>)
        ensures
            r == (if is_halted(chunk, self@) {
                None
            } else {
                Some(self@.0 as usize)
            }),
    {
        if self.returned || self.instruction_index >= chunk.code_nb() {
            None
        } else {
            Some(self.instruction_index)
        }
    }

    /// Pushes a value: the result of a `Compute` step goes back this way.
    pub fn push_value(&mut self, value: Value)
        ensures
            final(self)@ == (old(self)@.0, old(self)@.1.push(value), old(self)@.2),
    {
        self.stack.push(value);
    }

    /// Pops the value on top of the stack.
    pub fn pop_value(&mut self) -> (r: Value)
        requires
            old(self)@.1.len() > 0,
        ensures
            r == old(self)@.1.last(),
            final(self)@ == (old(self)@.0, old(self)@.1.drop_last(), old(self)@.2),
    {
        self.stack.pop().unwrap()
    }

    /// The operand stack, bottom first.
    pub fn stack(&self) -> (r: &Vec<Value>)
        ensures
            r@ == self@.1,
    {
        &self.stack
    }
}

} // verus!
