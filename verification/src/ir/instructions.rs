use vstd::prelude::*;

use crate::ir::function_label::FunctionLabel;
use crate::ir::value::Value;

verus! {

/// The name of a built-in function or of a label.
pub type FunctionName = String;

/// The instructions of the stack bytecode.
#[derive(Debug, PartialEq)]
pub enum Instruction {
    /// Pushes a constant: `PUSH INT 10`.
    PUSH(Value),
    POP,
    /// Pushes the value of a variable slot.
    LOAD(usize),
    /// Moves the top of the stack into a variable slot.
    STORE(usize),
    GT,
    GE,
    LT,
    LE,
    EQ,
    NE,
    /// Calls a built-in function such as `ECHO`.
    CALL(FunctionName),
    JUMP(FunctionLabel),
    JUMPIF(FunctionLabel),
    ADD,
    SUB,
    MUL,
    DIV,
    MOD,
    INC,
    DEC,
    CLEAR,
    /// Marks the start of a label.
    #[allow(non_camel_case_types)]
    _FUNCTION_LABEL__(FunctionName),
}

/// An instruction as the contracts see it: a name is its characters, and a jump
/// target is the name and position of its label.
pub enum SpecInstruction {
    PUSH(Value),
    POP,
    LOAD(usize),
    STORE(usize),
    GT,
    GE,
    LT,
    LE,
    EQ,
    NE,
    CALL(Seq<char>),
    JUMP(Seq<char>, usize),
    JUMPIF(Seq<char>, usize),
    ADD,
    SUB,
    MUL,
    DIV,
    MOD,
    INC,
    DEC,
    CLEAR,
    Marker(Seq<char>),
}

impl View for Instruction {
    type V = SpecInstruction;

    open spec fn view(&self) -> SpecInstruction {
        match self {
            Instruction::PUSH(v) => SpecInstruction::PUSH(*v),
            Instruction::POP => SpecInstruction::POP,
            Instruction::LOAD(i) => SpecInstruction::LOAD(*i),
            Instruction::STORE(i) => SpecInstruction::STORE(*i),
            Instruction::GT => SpecInstruction::GT,
            Instruction::GE => SpecInstruction::GE,
            Instruction::LT => SpecInstruction::LT,
            Instruction::LE => SpecInstruction::LE,
            Instruction::EQ => SpecInstruction::EQ,
            Instruction::NE => SpecInstruction::NE,
            Instruction::CALL(f) => SpecInstruction::CALL(f@),
            Instruction::JUMP(l) => SpecInstruction::JUMP(l.spec_name(), l.spec_position()),
            Instruction::JUMPIF(l) => SpecInstruction::JUMPIF(l.spec_name(), l.spec_position()),
            Instruction::ADD => SpecInstruction::ADD,
            Instruction::SUB => SpecInstruction::SUB,
            Instruction::MUL => SpecInstruction::MUL,
            Instruction::DIV => SpecInstruction::DIV,
            Instruction::MOD => SpecInstruction::MOD,
            Instruction::INC => SpecInstruction::INC,
            Instruction::DEC => SpecInstruction::DEC,
            Instruction::CLEAR => SpecInstruction::CLEAR,
            Instruction::_FUNCTION_LABEL__(f) => SpecInstruction::Marker(f@),
        }
    }
}

impl Instruction {
    /// A copy of this instruction; a jump copies its label.
    pub fn duplicate(&self) -> (r: Instruction)
        ensures
            r@ == self@,
        decreases self,
    {
        match self {
            Instruction::PUSH(v) => Instruction::PUSH(*v),
            Instruction::POP => Instruction::POP,
            Instruction::LOAD(i) => Instruction::LOAD(*i),
            Instruction::STORE(i) => Instruction::STORE(*i),
            Instruction::GT => Instruction::GT,
            Instruction::GE => Instruction::GE,
            Instruction::LT => Instruction::LT,
            Instruction::LE => Instruction::LE,
            Instruction::EQ => Instruction::EQ,
            Instruction::NE => Instruction::NE,
            Instruction::CALL(f) => Instruction::CALL(f.clone()),
            Instruction::JUMP(l) => Instruction::JUMP(l.duplicate()),
            Instruction::JUMPIF(l) => Instruction::JUMPIF(l.duplicate()),
            Instruction::ADD => Instruction::ADD,
            Instruction::SUB => Instruction::SUB,
            Instruction::MUL => Instruction::MUL,
            Instruction::DIV => Instruction::DIV,
            Instruction::MOD => Instruction::MOD,
            Instruction::INC => Instruction::INC,
            Instruction::DEC => Instruction::DEC,
            Instruction::CLEAR => Instruction::CLEAR,
            Instruction::_FUNCTION_LABEL__(f) => Instruction::_FUNCTION_LABEL__(f.clone()),
        }
    }
}

impl Clone for Instruction {
    fn clone(&self) -> (r: Self)
        ensures
            r@ == self@,
    {
        self.duplicate()
    }
}

/// The views of a list of instructions.
pub open spec fn code_view(v: Seq<Instruction>) -> Seq<SpecInstruction> {
    v.map_values(|i: Instruction| i@)
}

} // verus!
