use vstd::prelude::*;

use crate::ir::types::Type;
use crate::ir::value::Value;

verus! {

/// The operand stack of the bytecode machine; its top is the last element.
#[derive(Debug)]
pub struct OperationStack {
    pub stack: Vec<Value>,
}

/// The text of a stack: its values from the bottom, each followed by `", "`, in brackets.
pub open spec fn stack_text(values: Seq<Value>) -> Seq<char> {
    seq!['['] + items_text(values) + seq![']']
}

/// The texts of the values, each followed by `", "`.
pub open spec fn items_text(values: Seq<Value>) -> Seq<char>
    decreases values.len(),
{
    if values.len() == 0 {
        Seq::empty()
    } else {
        items_text(values.drop_last()) + values.last().text() + seq![',', ' ']
    }
}

/// The comparison result that `GT` pushes: the integer 1 when the left value is
/// greater, else 0.
pub open spec fn truth_value(b: bool) -> Value {
    Value { typ: Type::INT, content: if b { 1 } else { 0 }, extend: None, length: None }
}

impl OperationStack {
    pub fn new() -> (r: Self)
        ensures
            r.stack@ == Seq::<Value>::empty(),
    {
        Self { stack: Vec::new() }
    }

    pub fn push(&mut self, value: Value)
        ensures
            final(self).stack@ == old(self).stack@.push(value),
    {
        self.stack.push(value);
    }

    /// Removes and returns the top value; an empty stack gives the integer zero.
    pub fn pop(&mut self) -> (r: Value)
        ensures
            old(self).stack@.len() > 0 ==> {
                &&& r == old(self).stack@.last()
                &&& final(self).stack@ == old(self).stack@.drop_last()
            },
            old(self).stack@.len() == 0 ==> {
                &&& r == Value::spec_new(Type::INT)
                &&& final(self).stack@ == old(self).stack@
            },
    {
        match self.stack.pop() {
            Some(v) => v,
            None => Value::default(),
        }
    }

    pub fn clear(&mut self)
        ensures
            final(self).stack@ == Seq::<Value>::empty(),
    {
        self.stack.clear();
    }

    /// Replaces the two top values by their sum (`ADD`).
    pub fn add(&mut self)
        requires
            old(self).stack@.len() >= 2,
            old(self).stack@[old(self).stack@.len() - 2].spec_add_req(old(self).stack@.last()),
        ensures
            final(self).stack@ == old(self).stack@.drop_last().drop_last().push(
                old(self).stack@[old(self).stack@.len() - 2].spec_add(old(self).stack@.last()),
            ),
    {
        let right = self.stack.pop().unwrap();
        let left = self.stack.pop().unwrap();
        self.stack.push(left + right);
    }

    /// Replaces the two top values by the lower one minus the top one (`SUB`).
    pub fn sub(&mut self)
        requires
            old(self).stack@.len() >= 2,
            old(self).stack@[old(self).stack@.len() - 2].spec_sub_req(old(self).stack@.last()),
        ensures
            final(self).stack@ == old(self).stack@.drop_last().drop_last().push(
                old(self).stack@[old(self).stack@.len() - 2].spec_sub(old(self).stack@.last()),
            ),
    {
        let right = self.stack.pop().unwrap();
        let left = self.stack.pop().unwrap();
        self.stack.push(left - right);
    }

    /// Replaces the two top integer or character values by the integer 1 when the
    /// lower one is greater than the top one, else by 0 (`GT`).
    pub fn gt(&mut self)
        requires
            old(self).stack@.len() >= 2,
            old(self).stack@[old(self).stack@.len() - 2].typ != Type::FLOAT,
            old(self).stack@.last().typ != Type::FLOAT,
        ensures
            final(self).stack@ == old(self).stack@.drop_last().drop_last().push(
                truth_value(
                    old(self).stack@[old(self).stack@.len() - 2].content > old(
                        self,
                    ).stack@.last().content,
                ),
            ),
    {
        let right = self.stack.pop().unwrap();
        let left = self.stack.pop().unwrap();
        let mut result = Value::new(Type::INT);
        if left.content > right.content {
            result.set_value(1, None, None);
        }
        self.stack.push(result);
    }

    /// The text of the stack, as `Display` writes it: `[` then each value from the
    /// bottom followed by `", "`, then `]`.
    pub fn to_display_string(&self) -> (r: String)
        requires
            forall|i: int| 0 <= i < self.stack@.len() ==> (#[trigger] self.stack@[i]).displayable(),
        ensures
            r@ == stack_text(self.stack@),
    {
        let mut out: Vec<char> = Vec::new();
        out.push('[');
        let mut k: usize = 0;
        while k < self.stack.len()
            invariant
                k <= self.stack@.len(),
                forall|i: int| 0 <= i < self.stack@.len() ==> (#[trigger] self.stack@[i]).displayable(),
                out@ == seq!['['] + items_text(self.stack@.take(k as int)),
            decreases self.stack@.len() - k,
        {
            let t = self.stack[k].display_chars();
            crate::text::append_chars(&mut out, &t);
            out.push(',');
            out.push(' ');
            assert(self.stack@.take(k + 1).drop_last() == self.stack@.take(k as int));
            k = k + 1;
        }
        assert(self.stack@.take(self.stack@.len() as int) == self.stack@);
        out.push(']');
        crate::text::string_from_chars(&out)
    }
}

impl Default for OperationStack {
    fn default() -> (r: Self)
        ensures
            r.stack@ == Seq::<Value>::empty(),
    {
        Self::new()
    }
}

/// The result of a comparison is the integer one when it holds and zero when it
/// does not, so it is non-zero exactly when the comparison holds.
pub proof fn law_truth_value(b: bool)
    ensures
        truth_value(b).typ == Type::INT,
        (truth_value(b).content != 0) == b,
        truth_value(b).content == 0 || truth_value(b).content == 1,
        truth_value(b).extend is None,
{
}

} // verus!
