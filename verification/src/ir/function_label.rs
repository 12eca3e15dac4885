//! A function label: a named place in a list of instructions that jumps go to.
//!
//! A `for` loop, for instance, becomes
//! ```text
//! init:
//!     PUSH INT 0
//!     STORE 0
//!     JUMP __func__
//! func1:
//!     LOAD 0
//!     INC
//!     PUSH INT 10
//!     GE
//!     JUMPIF endif
//!     JUMP __func__
//! endif:
//! __func__:
//!     FUNCTION-BODY
//!     JUMP func1
//! ```
use vstd::prelude::*;

use crate::ir::instructions::{code_view, Instruction};
use crate::ir::variable_slot_table::Index;

verus! {

/// A label: its name, the index of the instruction that opens it, and the
/// instructions it was found in.
#[derive(Debug, PartialEq)]
pub struct FunctionLabel {
    name: String,
    position: Index,
    instructions: Vec<Instruction>,
}

/// Whether an instruction opens a label.
pub open spec fn is_label_marker(i: Instruction) -> bool {
    i is _FUNCTION_LABEL__
}

/// The name carried by a label marker.
pub open spec fn marker_name(i: Instruction) -> Seq<char> {
    match i {
        Instruction::_FUNCTION_LABEL__(name) => name@,
        _ => Seq::empty(),
    }
}

impl FunctionLabel {
    pub closed spec fn spec_name(&self) -> Seq<char> {
        self.name@
    }

    pub closed spec fn spec_position(&self) -> Index {
        self.position
    }

    pub closed spec fn spec_instructions(&self) -> Seq<Instruction> {
        self.instructions@
    }

    /// The label opened by the instruction at `index`, which must be a label marker;
    /// the label takes the marker's name. (`name` is not used.)
    pub fn new(index: Index, instructions: Vec<Instruction>, name: String) -> (r: Self)
        requires
            index < instructions@.len(),
            is_label_marker(instructions@[index as int]),
        ensures
            r.spec_name() == marker_name(instructions@[index as int]),
            r.spec_position() == index,
            r.spec_instructions() == instructions@,
    {
        let function_name = match &instructions[index] {
            Instruction::_FUNCTION_LABEL__(function_name) => function_name.clone(),
            _ => vstd::pervasive::unreached(),
        };
        Self { name: function_name, position: index, instructions: instructions }
    }

    /// A label with the given name at the given position, found in no list of
    /// instructions yet.
    pub fn at(position: Index, name: String) -> (r: Self)
        ensures
            r.spec_name() == name@,
            r.spec_position() == position,
            r.spec_instructions() == Seq::<Instruction>::empty(),
    {
        Self { name, position, instructions: Vec::new() }
    }

    /// A copy of this label, with a copy of each of its instructions.
    pub fn duplicate(&self) -> (r: Self)
        ensures
            r.spec_name() == self.spec_name(),
            r.spec_position() == self.spec_position(),
            code_view(r.spec_instructions()) == code_view(self.spec_instructions()),
        decreases self,
    {
        let mut copy: Vec<Instruction> = Vec::new();
        let mut k: usize = 0;
        while k < self.instructions.len()
            invariant
                k <= self.instructions@.len(),
                copy@.len() == k,
                forall|j: int| 0 <= j < k ==> #[trigger] copy@[j]@ == self.instructions@[j]@,
            decreases self.instructions.len() - k,
        {
            assert(decreases_to!(self => self.instructions@[k as int]));
            let i = self.instructions[k].duplicate();
            copy.push(i);
            k = k + 1;
        }
        assert(code_view(copy@) =~= code_view(self.instructions@));
        Self { name: self.name.clone(), position: self.position, instructions: copy }
    }

    /// Whether the label is named `name`.
    pub fn name_is(&self, name: &String) -> (r: bool)
        ensures
            r == (self.spec_name() == name@),
    {
        self.name == *name
    }

    /// The index of the instruction that opens the label.
    pub fn get_index(&self) -> (r: usize)
        ensures
            r == self.spec_position(),
    {
        self.position
    }
}

impl Clone for FunctionLabel {
    fn clone(&self) -> (r: Self)
        ensures
            r.spec_name() == self.spec_name(),
            r.spec_position() == self.spec_position(),
            code_view(r.spec_instructions()) == code_view(self.spec_instructions()),
    {
        self.duplicate()
    }
}

} // verus!
