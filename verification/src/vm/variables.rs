use vstd::prelude::*;

use std::collections::HashMap;

use crate::ir::value::Value;
use crate::ir::variable_slot_table::{Index, Slot, VariableTable};
use crate::vm::stack::OperationStack;

verus! {

broadcast use vstd::std_specs::hash::group_hash_axioms;

/// The variables of the bytecode machine: a value for each slot number in use.
#[derive(Debug, Clone, PartialEq)]
pub struct VariablesSlotTable {
    slots: VariableTable,
}

impl View for VariablesSlotTable {
    type V = Map<Index, Value>;

    /// The value held in each slot in use.
    closed spec fn view(&self) -> Map<Index, Value> {
        Map::new(|i: Index| self.slots.slots@.contains_key(i), |i: Index| self.slots.slots@[i].value)
    }
}

impl VariablesSlotTable {
    pub fn new() -> (r: Self)
        ensures
            r@ == Map::<Index, Value>::empty(),
    {
        let r = Self { slots: VariableTable { slots: HashMap::new() } };
        assert(r@ =~= Map::<Index, Value>::empty());
        r
    }

    /// The value in a slot that is in use.
    pub fn get_variable(&mut self, index: Index) -> (r: Value)
        requires
            old(self)@.contains_key(index),
        ensures
            r == old(self)@[index],
            final(self)@ == old(self)@,
    {
        let slot = self.slots.slots.get(&index).unwrap();
        slot.value
    }

    /// Puts a value in a slot, replacing what it held.
    pub fn set_variable(&mut self, index: Index, value: Value)
        ensures
            final(self)@ == old(self)@.insert(index, value),
    {
        let slot = Slot { value, index: index };
        self.slots.slots.insert(index, slot);
        assert(self@ =~= old(self)@.insert(index, value));
    }

    fn remove_variable(&mut self, index: Index)
        ensures
            final(self)@ == old(self)@.remove(index),
    {
        self.slots.slots.remove(&index);
        assert(self@ =~= old(self)@.remove(index));
    }

    /// `LOAD`: pushes the value of a slot onto the stack and frees the slot.
    pub fn load(&mut self, stack: &mut OperationStack, index: Index) -> (r: Value)
        requires
            old(self)@.contains_key(index),
        ensures
            r == old(self)@[index],
            final(stack).stack@ == old(stack).stack@.push(r),
            final(self)@ == old(self)@.remove(index),
    {
        let value = self.get_variable(index);
        stack.push(value);
        self.remove_variable(index);
        value
    }

    /// `STORE`: moves the top of the stack into a slot (an empty stack stores the
    /// integer zero).
    pub fn store(&mut self, stack: &mut OperationStack, index: Index)
        ensures
            old(stack).stack@.len() > 0 ==> {
                &&& final(self)@ == old(self)@.insert(index, old(stack).stack@.last())
                &&& final(stack).stack@ == old(stack).stack@.drop_last()
            },
            old(stack).stack@.len() == 0 ==> {
                &&& final(self)@ == old(self)@.insert(
                    index,
                    Value::spec_new(crate::ir::types::Type::INT),
                )
                &&& final(stack).stack@ == old(stack).stack@
            },
    {
        let value = stack.pop();
        self.set_variable(index, value);
    }
}

impl Default for VariablesSlotTable {
    fn default() -> (r: Self)
        ensures
            r@ == Map::<Index, Value>::empty(),
    {
        Self::new()
    }
}

} // verus!
