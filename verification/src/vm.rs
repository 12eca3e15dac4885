pub mod stack;
pub mod variables;

use vstd::prelude::*;

use crate::ir::value::Value;
use crate::ir::variable_slot_table::Index;

verus! {

/// `STORE` then `LOAD` of the same slot gives back the stack as it was, and the
/// table as it was but for that slot, which is left free.
pub proof fn law_load_after_store(stack: Seq<Value>, table: Map<Index, Value>, index: Index)
    requires
        stack.len() > 0,
    ensures
        ({
            let stored = table.insert(index, stack.last());
            &&& stored.contains_key(index)
            &&& stack.drop_last().push(stored[index]) == stack
            &&& stored.remove(index) == table.remove(index)
        }),
{
    let stored = table.insert(index, stack.last());
    assert(stack.drop_last().push(stored[index]) =~= stack);
    assert(stored.remove(index) =~= table.remove(index));
}

/// Popping what was just pushed gives it back and leaves the stack as it was.
pub proof fn law_pop_after_push(stack: Seq<Value>, value: Value)
    ensures
        stack.push(value).len() > 0,
        stack.push(value).last() == value,
        stack.push(value).drop_last() == stack,
{
    assert(stack.push(value).drop_last() =~= stack);
}

/// One call that changes the slot table: `set_variable` or `store` puts a value
/// in a slot, `load` frees one.
pub enum SlotStep {
    Put(Index, Value),
    Free(Index),
}

/// The slot a call changes.
pub open spec fn slot_of(step: SlotStep) -> Index {
    match step {
        SlotStep::Put(i, _) => i,
        SlotStep::Free(i) => i,
    }
}

/// The table after the calls, in order.
pub open spec fn after_slot_steps(table: Map<Index, Value>, steps: Seq<SlotStep>) -> Map<Index, Value>
    decreases steps.len(),
{
    if steps.len() == 0 {
        table
    } else {
        let t = after_slot_steps(table, steps.drop_last());
        match steps.last() {
            SlotStep::Put(i, v) => t.insert(i, v),
            SlotStep::Free(i) => t.remove(i),
        }
    }
}

/// Reading a slot gives the value last set there, whatever calls on other slots
/// come in between.
pub proof fn law_slot_keeps_last_set(
    table: Map<Index, Value>,
    index: Index,
    value: Value,
    steps: Seq<SlotStep>,
)
    requires
        forall|k: int| 0 <= k < steps.len() ==> slot_of(#[trigger] steps[k]) != index,
    ensures
        after_slot_steps(table.insert(index, value), steps).contains_key(index),
        after_slot_steps(table.insert(index, value), steps)[index] == value,
    decreases steps.len(),
{
    if steps.len() > 0 {
        assert forall|k: int| 0 <= k < steps.drop_last().len() implies slot_of(#[trigger] steps.drop_last()[k]) != index by {
            assert(steps.drop_last()[k] == steps[k]);
        }
        law_slot_keeps_last_set(table, index, value, steps.drop_last());
        assert(slot_of(steps[steps.len() - 1]) != index);
    }
}

} // verus!
