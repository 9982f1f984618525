use vstd::prelude::*;
use crate::value::Value;

verus! {

#[derive(Clone, Copy, Debug, PartialEq, Eq, Structural)]
pub enum OpCode {
    Return,
    // unary
    Negate,
    // binary
    Add,
    Sub,
    Mul,
    Div,
    Mod,
    /// Pushes the constant at this index of the pool.
    Constant(usize),
}

/// One compiled unit: instructions, the line of each, and a pool of constants.
pub struct Chunk {
    code: Vec<OpCode>,
    constants: Vec<Value>,
    lines: Vec<usize>,
}

impl Chunk {
    pub closed spec fn code_seq(&self) -> Seq<OpCode> {
        self.code@
    }

    pub closed spec fn constants_seq(&self) -> Seq<Value> {
        self.constants@
    }

    pub closed spec fn lines_seq(&self) -> Seq<usize> {
        self.lines@
    }

    /// One line per instruction, and every constant index inside the pool.
    pub open spec fn wf(&self) -> bool {
        &&& self.lines_seq().len() == self.code_seq().len()
        &&& forall|i: int|
            0 <= i < self.code_seq().len() ==> operand_in_pool(
                #[trigger] self.code_seq()[i],
                self.constants_seq().len(),
            )
    }

    pub fn new() -> (r: Chunk)
        ensures
            r.wf(),
            r.code_seq() == Seq::<OpCode>::empty(),
            r.constants_seq() == Seq::<Value>::empty(),
            r.lines_seq() == Seq::<usize>::empty(),
    {
        Chunk { code: Vec::new(), constants: Vec::new(), lines: Vec::new() }
    }

    /// Appends an instruction and the line it came from.
    pub fn write_opcode(&mut self, byte: OpCode, line: usize)
        requires
            old(self).wf(),
            operand_in_pool(byte, old(self).constants_seq().len()),
        ensures
            final(self).wf(),
            final(self).code_seq() == old(self).code_seq().push(byte),
            final(self).lines_seq() == old(self).lines_seq().push(line),
            final(self).constants_seq() == old(self).constants_seq(),
    {
        self.code.push(byte);
        self.lines.push(line);
        assert forall|i: int| 0 <= i < self.code@.len() implies operand_in_pool(
            #[trigger] self.code@[i],
            self.constants@.len(),
        ) by {
            if i < self.code@.len() - 1 {
                assert(self.code@[i] == old(self).code@[i]);
            }
        }
    }

    /// Appends a value to the pool and returns its index, which no other
    /// constant has or will have.
    pub fn add_constants(&mut self, value: Value) -> (index: usize)
        requires
            old(self).wf(),
        ensures
            final(self).wf(),
            index == old(self).constants_seq().len(),
            final(self).constants_seq() == old(self).constants_seq().push(value),
            final(self).code_seq() == old(self).code_seq(),
            final(self).lines_seq() == old(self).lines_seq(),
    {
        self.constants.push(value);
        assert forall|i: int| 0 <= i < self.code@.len() implies operand_in_pool(
            #[trigger] self.code@[i],
            self.constants@.len(),
        ) by {
            assert(operand_in_pool(old(self).code@[i], old(self).constants@.len()));
        }
        self.constants.len() - 1
    }

    pub fn code_nb(&self) -> (r: usize)
        ensures
            r == self.code_seq().len(),
    {
        self.code.len()
    }

    pub fn code(&self) -> (r: &Vec<OpCode>)
        ensures
            r@ == self.code_seq(),
    {
        &self.code
    }

    pub fn get_instruction(&self, index: usize) -> (r: OpCode)
        requires
            index < self.code_seq().len(),
        ensures
            r == self.code_seq()[index as int],
    {
        self.code[index]
    }

    pub fn get_constant(&self, index: usize) -> (r: Value)
        requires
            index < self.constants_seq().len(),
        ensures
            r == self.constants_seq()[index as int],
    {
        self.constants[index]
    }

    pub fn get_line(&self, index: usize) -> (r: usize)
        requires
            index < self.lines_seq().len(),
        ensures
            r == self.lines_seq()[index as int],
    {
        self.lines[index]
    }
}

/// Two constants added one after the other get distinct, increasing indices,
/// and each index then resolves to the value added under it.
pub proof fn law_constant_round_trip(
    c0: Chunk,
    c1: Chunk,
    c2: Chunk,
    a: Value,
    b: Value,
    ia: usize,
    ib: usize,
)
    requires
        ia == c0.constants_seq().len(),
        c1.constants_seq() == c0.constants_seq().push(a),
        ib == c1.constants_seq().len(),
        c2.constants_seq() == c1.constants_seq().push(b),
    ensures
        ia < ib,
        ib < c2.constants_seq().len(),
        c2.constants_seq()[ia as int] == a,
        c2.constants_seq()[ib as int] == b,
{
}

/// An instruction's operand, if it has one, is an index inside a pool of
/// `pool_len` constants.
pub open spec fn operand_in_pool(op: OpCode, pool_len: nat) -> bool {
    match op {
        OpCode::Constant(index) => index < pool_len,
        _ => true,
    }
}

} // verus!
