use vstd::prelude::*;

use crate::ir::types::Type;
use crate::lexer::spec::{all_ascii_digits, decimal_value};
use crate::text::{i128_text, int_text, nat_text, repeat_char, u128_text};
use vstd::std_specs::ops::{AddSpecImpl, SubSpecImpl};
use vstd::std_specs::convert::FromSpecImpl;

verus! {

/// A value of the bytecode machine.
///
/// Integers and characters keep their number in `content`. A floating value is
/// kept in decimal: `content` is its integer part and `extend` the digits of its
/// fraction, which the display pads with zeros to `length` digits; `1.05` is
/// `content: 1, extend: Some(5), length: Some(2)`.
#[derive(Debug, Clone, Copy, PartialEq, Eq, Structural)]
pub struct Value {
    pub typ: Type,
    pub content: i128,
    pub extend: Option<u128>,
    pub length: Option<usize>,
}

/// The fraction length that a value keeps once it has become floating: its own,
/// or no digits if it had none.
pub open spec fn float_length(length: Option<usize>) -> Option<usize> {
    match length {
        Some(l) => Some(l),
        None => Some(0),
    }
}

impl Value {
    /// A zero of the given type; a floating zero is `0.0`, with one fraction digit.
    pub open spec fn spec_new(typ: Type) -> Value {
        if typ != Type::FLOAT {
            Value { typ, content: 0, extend: None, length: None }
        } else {
            Value { typ, content: 0, extend: Some(0), length: Some(1) }
        }
    }

    pub fn new(typ: Type) -> (r: Self)
        ensures
            r == Value::spec_new(typ),
    {
        if typ != Type::FLOAT {
            Self { typ, content: 0, extend: None, length: None }
        } else {
            Self { typ, content: 0, extend: Some(0), length: Some(1) }
        }
    }

    /// Changes the type. A value that becomes floating gets a fraction length of zero;
    /// its fraction digits are left as they were.
    /// The value after `set_type(typ)`.
    pub open spec fn spec_set_type(self, typ: Type) -> Value {
        Value {
            typ,
            length: if self.typ != Type::FLOAT && typ == Type::FLOAT {
                Some(0usize)
            } else {
                self.length
            },
            ..self
        }
    }

    /// The value after `set_value(content, extend, length)`.
    pub open spec fn spec_set_value(self, content: i128, extend: Option<u128>, length: Option<usize>) -> Value {
        Value {
            content,
            extend,
            length: if length is None && self.typ == Type::FLOAT {
                self.length
            } else {
                length
            },
            ..self
        }
    }

    pub fn set_type(&mut self, typ: Type)
        ensures
            *final(self) == old(self).spec_set_type(typ),
            final(self).typ == typ,
            final(self).content == old(self).content,
            final(self).extend == old(self).extend,
            final(self).length == (if old(self).typ != Type::FLOAT && typ == Type::FLOAT {
                Some(0usize)
            } else {
                old(self).length
            }),
    {
        if self.typ != Type::FLOAT && typ == Type::FLOAT {
            self.length = Some(0);
        }
        self.typ = typ;
    }

    /// Whether `set_value` accepts these parts for this value: an integer or a
    /// character takes no fraction, a floating value needs its fraction digits and
    /// a length (given here, or the one it already has).
    pub open spec fn accepts(self, extend: Option<u128>, length: Option<usize>) -> bool {
        if self.typ == Type::FLOAT {
            extend is Some && (length is Some || self.length is Some)
        } else {
            extend is None && length is None
        }
    }

    /// Sets the number held. A floating value that is given no length keeps its own.
    pub fn set_value(&mut self, content: i128, extend: Option<u128>, length: Option<usize>)
        requires
            old(self).accepts(extend, length),
        ensures
            *final(self) == old(self).spec_set_value(content, extend, length),
            final(self).typ == old(self).typ,
            final(self).content == content,
            final(self).extend == extend,
            final(self).length == (if length is None && old(self).typ == Type::FLOAT {
                old(self).length
            } else {
                length
            }),
    {
        let mut length = length;
        if length.is_none() && self.typ == Type::FLOAT {
            length = self.length;
        }
        self.content = content;
        self.extend = extend;
        self.length = length;
    }

    pub fn get_type(&self) -> (r: Type)
        ensures
            r == self.typ,
    {
        self.typ
    }

    /// Whether the sum of two values can be formed: the floating operands carry
    /// their fraction parts, and no part of the result overflows (counting the
    /// carry when two fractions add up to ten or more).
    pub open spec fn spec_add_req(self, rhs: Value) -> bool {
        &&& i128::MIN <= self.content + rhs.content <= i128::MAX
        &&& self.typ == Type::FLOAT ==> self.extend is Some
        &&& rhs.typ == Type::FLOAT ==> rhs.extend is Some
        &&& (self.typ == Type::FLOAT && rhs.typ == Type::FLOAT) ==> {
            &&& self.length is Some
            &&& rhs.length is Some
            &&& self.extend.unwrap() + rhs.extend.unwrap() <= u128::MAX
            &&& self.extend.unwrap() + rhs.extend.unwrap() >= 10 ==> self.content + rhs.content + 1
                <= i128::MAX
        }
    }

    /// The sum of two values. Integers and characters add to an integer. A floating
    /// operand makes the sum floating and lends it its fraction. Two floating values
    /// add their fraction digits, carrying one into the integer part when those
    /// digits reach ten, and keep the longer length.
    pub open spec fn spec_add(self, rhs: Value) -> Value {
        let sum = (self.content + rhs.content) as i128;
        if self.typ == Type::FLOAT && rhs.typ == Type::FLOAT {
            let e = self.extend.unwrap() + rhs.extend.unwrap();
            let l = if self.length.unwrap() >= rhs.length.unwrap() {
                self.length
            } else {
                rhs.length
            };
            if e < 10 {
                Value { typ: Type::FLOAT, content: sum, extend: Some(e as u128), length: l }
            } else {
                Value {
                    typ: Type::FLOAT,
                    content: (sum + 1) as i128,
                    extend: Some((e - 10) as u128),
                    length: l,
                }
            }
        } else if self.typ == Type::FLOAT {
            Value {
                typ: Type::FLOAT,
                content: sum,
                extend: self.extend,
                length: float_length(self.length),
            }
        } else if rhs.typ == Type::FLOAT {
            Value {
                typ: Type::FLOAT,
                content: sum,
                extend: rhs.extend,
                length: float_length(rhs.length),
            }
        } else {
            Value { typ: Type::INT, content: sum, extend: None, length: None }
        }
    }

    /// Whether the difference of two values can be formed.
    pub open spec fn spec_sub_req(self, rhs: Value) -> bool {
        &&& i128::MIN <= self.content - rhs.content <= i128::MAX
        &&& self.typ == Type::FLOAT ==> self.extend is Some
        &&& rhs.typ == Type::FLOAT ==> rhs.extend is Some
        &&& (self.typ == Type::FLOAT && rhs.typ == Type::FLOAT) ==> {
            &&& self.length is Some
            &&& rhs.length is Some
            &&& self.extend.unwrap() < rhs.extend.unwrap() ==> {
                &&& self.content - rhs.content + 1 <= i128::MAX
                &&& self.extend.unwrap() + 10 <= u128::MAX
                &&& rhs.extend.unwrap() <= self.extend.unwrap() + 10
            }
        }
    }

    /// The difference of two values. Integers and characters subtract to an integer,
    /// a floating operand makes the result floating and lends it its fraction. For
    /// two floating values the fraction digits are subtracted; when the left ones are
    /// smaller, ten is added to them and the integer part is increased by one.
    pub open spec fn spec_sub(self, rhs: Value) -> Value {
        let diff = (self.content - rhs.content) as i128;
        if self.typ == Type::FLOAT && rhs.typ == Type::FLOAT {
            let e1 = self.extend.unwrap();
            let e2 = rhs.extend.unwrap();
            let l = if self.length.unwrap() >= rhs.length.unwrap() {
                self.length
            } else {
                rhs.length
            };
            if e1 >= e2 {
                Value { typ: Type::FLOAT, content: diff, extend: Some((e1 - e2) as u128), length: l }
            } else {
                Value {
                    typ: Type::FLOAT,
                    content: (diff + 1) as i128,
                    extend: Some((e1 + 10 - e2) as u128),
                    length: l,
                }
            }
        } else if self.typ == Type::FLOAT {
            Value {
                typ: Type::FLOAT,
                content: diff,
                extend: self.extend,
                length: float_length(self.length),
            }
        } else if rhs.typ == Type::FLOAT {
            Value {
                typ: Type::FLOAT,
                content: diff,
                extend: rhs.extend,
                length: float_length(rhs.length),
            }
        } else {
            Value { typ: Type::INT, content: diff, extend: None, length: None }
        }
    }

    /// Subtracting what was added gives back an integer: `(a + b) - b == a` for an
    /// integer `a` and an integer or character `b`, when the sum does not overflow.
    pub proof fn law_sub_undoes_add(a: Value, b: Value)
        requires
            a.typ == Type::INT,
            a.extend is None,
            a.length is None,
            b.typ != Type::FLOAT,
            a.spec_add_req(b),
        ensures
            a.spec_add(b).spec_sub_req(b),
            a.spec_add(b).spec_sub(b) == a,
    {
    }

    /// Whether the value can be written out: an integer or a character has no
    /// fraction, and the fraction digits of a floating value fit in its length.
    pub open spec fn displayable(self) -> bool {
        if self.typ == Type::FLOAT {
            &&& self.extend is Some
            &&& self.length is Some
            &&& nat_text(self.extend.unwrap() as nat).len() <= self.length.unwrap()
        } else {
            self.extend is None
        }
    }

    /// The text of a value: a character is the character whose code is the low byte
    /// of `content`, an integer its decimal text, and a floating value its integer
    /// part, a point and its fraction digits padded with zeros on the left to `length`.
    pub open spec fn text(self) -> Seq<char> {
        if self.typ == Type::CHAR {
            seq![((self.content as u8) as char)]
        } else if self.typ == Type::INT {
            int_text(self.content as int)
        } else {
            let digits = nat_text(self.extend.unwrap() as nat);
            int_text(self.content as int) + seq!['.'] + repeat_char(
                '0',
                (self.length.unwrap() - digits.len()) as nat,
            ) + digits
        }
    }

    /// The text of the value, as `Display` writes it.
    pub fn to_display_string(&self) -> (r: String)
        requires
            self.displayable(),
        ensures
            r@ == self.text(),
    {
        crate::text::string_from_chars(&self.display_chars())
    }

    /// The characters of the value's text.
    pub fn display_chars(&self) -> (r: Vec<char>)
        requires
            self.displayable(),
        ensures
            r@ == self.text(),
    {
        match self.typ {
            Type::CHAR => {
                let ch = (self.content as u8) as char;
                let mut v: Vec<char> = Vec::new();
                v.push(ch);
                v
            },
            Type::INT => i128_text(self.content),
            Type::FLOAT => {
                let mut result = i128_text(self.content);
                result.push('.');
                let ext = self.extend.unwrap();
                let len = self.length.unwrap();
                let c = u128_text(ext);
                let pad = len - c.len();
                let ghost before = result@;
                let mut i: usize = 0;
                while i < pad
                    invariant
                        i <= pad,
                        result@ == before + repeat_char('0', i as nat),
                    decreases pad - i,
                {
                    result.push('0');
                    i = i + 1;
                }
                crate::text::append_chars(&mut result, &c);
                result
            },
        }
    }
}

impl FromSpecImpl<Type> for Value {
    open spec fn obeys_from_spec() -> bool {
        true
    }

    /// A zero of the type; a floating zero has no fraction digits.
    open spec fn from_spec(v: Type) -> Value {
        match v {
            Type::CHAR => Value { typ: v, content: 0, extend: None, length: None },
            Type::FLOAT => Value { typ: v, content: 0, extend: Some(0), length: Some(0) },
            Type::INT => Value { typ: v, content: 0, extend: None, length: None },
        }
    }
}

impl From<Type> for Value {
    fn from(value: Type) -> (r: Self) {
        match value {
            Type::CHAR => Self { typ: value, content: 0, extend: None, length: None },
            Type::FLOAT => Self { typ: value, content: 0, extend: Some(0), length: Some(0) },
            Type::INT => Self { typ: value, content: 0, extend: None, length: None },
        }
    }
}

impl Default for Value {
    /// The integer zero.
    fn default() -> (r: Self)
        ensures
            r == Value::spec_new(Type::INT),
    {
        Self::new(Type::INT)
    }
}

impl AddSpecImpl for Value {
    open spec fn obeys_add_spec() -> bool {
        true
    }

    open spec fn add_req(self, rhs: Value) -> bool {
        self.spec_add_req(rhs)
    }

    open spec fn add_spec(self, rhs: Value) -> Value {
        self.spec_add(rhs)
    }
}

impl core::ops::Add for Value {
    type Output = Self;

    fn add(self, rhs: Self) -> (r: Self::Output) {
        let mut result = Self::new(Type::CHAR);
        match self.typ {
            Type::CHAR | Type::INT => {
                if rhs.typ == Type::FLOAT {
                    result.set_type(Type::FLOAT);
                    result.set_value(self.content + rhs.content, rhs.extend, rhs.length);
                } else {
                    result.set_type(Type::INT);
                    result.set_value(self.content + rhs.content, None, None);
                }
            },
            Type::FLOAT => {
                if rhs.typ != Type::FLOAT {
                    result.set_type(Type::FLOAT);
                    result.set_value(self.content + rhs.content, self.extend, self.length);
                } else {
                    result.set_type(Type::FLOAT);
                    let e1 = self.extend.unwrap();
                    let e2 = rhs.extend.unwrap();
                    let l1 = self.length.unwrap();
                    let l2 = rhs.length.unwrap();
                    let l = if l1 >= l2 {
                        l1
                    } else {
                        l2
                    };
                    if e1 + e2 < 10 {
                        result.set_value(self.content + rhs.content, Some(e1 + e2), Some(l));
                    } else {
                        result.set_value(
                            self.content + rhs.content + 1,
                            Some(e1 + e2 - 10),
                            Some(l),
                        );
                    }
                }
            },
        }
        result
    }
}

impl SubSpecImpl for Value {
    open spec fn obeys_sub_spec() -> bool {
        true
    }

    open spec fn sub_req(self, rhs: Value) -> bool {
        self.spec_sub_req(rhs)
    }

    open spec fn sub_spec(self, rhs: Value) -> Value {
        self.spec_sub(rhs)
    }
}

impl core::ops::Sub for Value {
    type Output = Self;

    fn sub(self, rhs: Self) -> (r: Self::Output) {
        let mut result = Self::default();
        match self.typ {
            Type::CHAR | Type::INT => {
                if rhs.typ == Type::FLOAT {
                    result.set_type(Type::FLOAT);
                    result.set_value(self.content - rhs.content, rhs.extend, rhs.length);
                } else {
                    result.set_type(Type::INT);
                    result.set_value(self.content - rhs.content, None, None);
                }
            },
            Type::FLOAT => {
                if rhs.typ != Type::FLOAT {
                    result.set_type(Type::FLOAT);
                    result.set_value(self.content - rhs.content, self.extend, self.length);
                } else {
                    result.set_type(Type::FLOAT);
                    let e1 = self.extend.unwrap();
                    let e2 = rhs.extend.unwrap();
                    let l1 = self.length.unwrap();
                    let l2 = rhs.length.unwrap();
                    let l = if l1 >= l2 {
                        l1
                    } else {
                        l2
                    };
                    if e1 >= e2 {
                        result.set_value(self.content - rhs.content, Some(e1 - e2), Some(l));
                    } else {
                        result.set_value(
                            self.content - rhs.content + 1,
                            Some(e1 + 10 - e2),
                            Some(l),
                        );
                    }
                }
            },
        }
        result
    }
}

/// One call that changes a value: `set_value` or `set_type`.
pub enum ValueStep {
    SetValue(i128, Option<u128>, Option<usize>),
    SetType(Type),
}

impl Value {
    /// The value after the calls, in order.
    pub open spec fn after_steps(self, steps: Seq<ValueStep>) -> Value
        decreases steps.len(),
    {
        if steps.len() == 0 {
            self
        } else {
            let v = self.after_steps(steps.drop_last());
            match steps.last() {
                ValueStep::SetValue(c, e, l) => v.spec_set_value(c, e, l),
                ValueStep::SetType(t) => v.spec_set_type(t),
            }
        }
    }
}

/// The type given by the last `set_type` of the calls, or `t` when there is none.
pub open spec fn last_type(t: Type, steps: Seq<ValueStep>) -> Type
    decreases steps.len(),
{
    if steps.len() == 0 {
        t
    } else {
        match steps.last() {
            ValueStep::SetType(t2) => t2,
            ValueStep::SetValue(_, _, _) => last_type(t, steps.drop_last()),
        }
    }
}

/// The type a value reports is the one it was made with, or the one last set,
/// whatever values were set in between.
pub proof fn law_type_is_last_set(v: Value, steps: Seq<ValueStep>)
    ensures
        v.after_steps(steps).typ == last_type(v.typ, steps),
    decreases steps.len(),
{
    if steps.len() > 0 {
        law_type_is_last_set(v, steps.drop_last());
    }
}

/// A value whose fraction parts are there exactly when it is floating.
pub open spec fn well_shaped(v: Value) -> bool {
    (v.typ == Type::FLOAT) == (v.extend is Some && v.length is Some)
}

/// A sum is floating when an operand is, else an integer; two non-floating values
/// add to the integer of their contents (a character and an integer add to an
/// integer).
pub proof fn law_add_type(a: Value, b: Value)
    requires
        well_shaped(a),
        well_shaped(b),
        a.spec_add_req(b),
    ensures
        a.spec_add(b).typ == (if a.typ == Type::FLOAT || b.typ == Type::FLOAT {
            Type::FLOAT
        } else {
            Type::INT
        }),
        a.typ != Type::FLOAT && b.typ != Type::FLOAT ==> a.spec_add(b) == (Value {
            typ: Type::INT,
            content: (a.content + b.content) as i128,
            extend: None,
            length: None,
        }),
{
}

/// Two floating values of one fraction digit add as tenths: the sum has one
/// fraction digit, and its tenths are the sum of theirs.
pub proof fn law_add_tenths(a: Value, b: Value)
    requires
        a.typ == Type::FLOAT,
        b.typ == Type::FLOAT,
        a.length == Some(1usize),
        b.length == Some(1usize),
        a.extend matches Some(x) && x < 10,
        b.extend matches Some(y) && y < 10,
        a.spec_add_req(b),
    ensures
        ({
            let r = a.spec_add(b);
            &&& r.typ == Type::FLOAT
            &&& r.length == Some(1usize)
            &&& r.extend matches Some(z) && z < 10
            &&& r.content * 10 + r.extend.unwrap() == (a.content * 10 + a.extend.unwrap()) + (b.content
                * 10 + b.extend.unwrap())
        }),
{
}

/// When at most one operand is floating, the integer part of a sum is the sum of
/// the integer parts and that of a difference their difference; a floating
/// operand lends the result its type and its fraction.
pub proof fn law_mixed_arithmetic(a: Value, b: Value)
    requires
        !(a.typ == Type::FLOAT && b.typ == Type::FLOAT),
        well_shaped(a),
        well_shaped(b),
    ensures
        a.spec_add_req(b) ==> a.spec_add(b).content == a.content + b.content,
        a.spec_sub_req(b) ==> a.spec_sub(b).content == a.content - b.content,
        a.typ == Type::FLOAT ==> {
            &&& a.spec_add(b).typ == Type::FLOAT && a.spec_add(b).extend == a.extend
                && a.spec_add(b).length == a.length
            &&& a.spec_sub(b).typ == Type::FLOAT && a.spec_sub(b).extend == a.extend
                && a.spec_sub(b).length == a.length
        },
        b.typ == Type::FLOAT ==> {
            &&& a.spec_add(b).typ == Type::FLOAT && a.spec_add(b).extend == b.extend
                && a.spec_add(b).length == b.length
            &&& a.spec_sub(b).typ == Type::FLOAT && a.spec_sub(b).extend == b.extend
                && a.spec_sub(b).length == b.length
        },
{
}

/// Adding an integer or a character to a floating value and subtracting it again
/// gives the floating value back.
pub proof fn law_sub_undoes_add_to_float(a: Value, b: Value)
    requires
        a.typ == Type::FLOAT,
        well_shaped(a),
        b.typ != Type::FLOAT,
        a.spec_add_req(b),
    ensures
        a.spec_add(b).spec_sub_req(b),
        a.spec_add(b).spec_sub(b) == a,
{
}

/// Two floating values of one fraction digit, where the right fraction digit is
/// not the larger, subtract as tenths.
pub proof fn law_sub_tenths(a: Value, b: Value)
    requires
        a.typ == Type::FLOAT,
        b.typ == Type::FLOAT,
        a.length == Some(1usize),
        b.length == Some(1usize),
        a.extend matches Some(x) && x < 10,
        b.extend matches Some(y) && y < 10,
        b.extend.unwrap() <= a.extend.unwrap(),
        a.spec_sub_req(b),
    ensures
        ({
            let r = a.spec_sub(b);
            &&& r.typ == Type::FLOAT
            &&& r.length == Some(1usize)
            &&& r.extend matches Some(z) && z < 10
            &&& r.content * 10 + r.extend.unwrap() == (a.content * 10 + a.extend.unwrap()) - (b.content
                * 10 + b.extend.unwrap())
        }),
{
}

proof fn lemma_zeros_value(k: nat)
    ensures
        all_ascii_digits(repeat_char('0', k)),
        decimal_value(repeat_char('0', k)) == 0,
        repeat_char('0', k).len() == k,
    decreases k,
{
    if k > 0 {
        lemma_zeros_value((k - 1) as nat);
        let z = repeat_char('0', k);
        assert(z.drop_last() =~= repeat_char('0', (k - 1) as nat));
        assert forall|i: int| 0 <= i < z.len() implies '0' <= #[trigger] z[i] && z[i] <= '9' by {
            if i < k - 1 {
                assert(z[i] == repeat_char('0', (k - 1) as nat)[i]);
            }
        }
    }
}

proof fn lemma_leading_zeros(z: Seq<char>, t: Seq<char>)
    requires
        all_ascii_digits(z),
        decimal_value(z) == 0,
        all_ascii_digits(t),
    ensures
        all_ascii_digits(z + t),
        decimal_value(z + t) == decimal_value(t),
    decreases t.len(),
{
    if t.len() == 0 {
        assert(z + t =~= z);
    } else {
        assert(all_ascii_digits(t.drop_last())) by {
            assert forall|i: int| 0 <= i < t.drop_last().len() implies '0' <= #[trigger] t.drop_last()[i]
                && t.drop_last()[i] <= '9' by {
                assert(t.drop_last()[i] == t[i]);
            }
        }
        lemma_leading_zeros(z, t.drop_last());
        assert((z + t).drop_last() =~= z + t.drop_last());
        assert((z + t).last() == t.last());
    }
    assert forall|i: int| 0 <= i < (z + t).len() implies '0' <= #[trigger] (z + t)[i] && (z + t)[i] <= '9' by {
        if i < z.len() {
            assert((z + t)[i] == z[i]);
        } else {
            assert((z + t)[i] == t[i - z.len()]);
        }
    }
}

/// The text of a floating value reads back as the value: its integer digits, a
/// point, then exactly `length` fraction digits whose number is `extend`.
pub proof fn law_float_text_reads_back(v: Value)
    requires
        v.typ == Type::FLOAT,
        v.displayable(),
        v.content >= 0,
    ensures
        ({
            let t = v.text();
            let k = nat_text(v.content as nat).len();
            &&& t.len() == k + 1 + v.length.unwrap()
            &&& t[k as int] == '.'
            &&& decimal_value(t.subrange(0, k as int)) == v.content
            &&& all_ascii_digits(t.subrange(k + 1int, t.len() as int))
            &&& decimal_value(t.subrange(k + 1int, t.len() as int)) == v.extend.unwrap()
        }),
{
    let n = v.content as nat;
    let digits = nat_text(v.extend.unwrap() as nat);
    let zeros = repeat_char('0', (v.length.unwrap() - digits.len()) as nat);
    crate::lexer::spec::law_decimal_text_reads_back(n);
    crate::lexer::spec::law_decimal_text_reads_back(v.extend.unwrap() as nat);
    lemma_zeros_value((v.length.unwrap() - digits.len()) as nat);
    lemma_leading_zeros(zeros, digits);
    let t = v.text();
    let k = nat_text(n).len();
    assert(t == nat_text(n) + seq!['.'] + zeros + digits);
    assert(t.subrange(0, k as int) =~= nat_text(n));
    assert(t.subrange(k + 1int, t.len() as int) =~= zeros + digits);
}

/// The text of an integer value reads back as its number: its decimal digits,
/// after a `-` when it is negative.
pub proof fn law_int_text_reads_back(v: Value)
    requires
        v.typ == Type::INT,
    ensures
        v.content >= 0 ==> decimal_value(v.text()) == v.content && all_ascii_digits(v.text()),
        v.content < 0 ==> v.text().len() > 1 && v.text()[0] == '-' && decimal_value(v.text().drop_first())
            == -v.content,
{
    if v.content >= 0 {
        crate::lexer::spec::law_decimal_text_reads_back(v.content as nat);
    } else {
        crate::lexer::spec::law_decimal_text_reads_back((-v.content) as nat);
        crate::text::lemma_nat_text_nonempty((-v.content) as nat);
        assert(v.text().drop_first() =~= nat_text((-v.content) as nat));
    }
}

/// A new value is a zero of its type: it reports that type, holds zero, and a
/// floating zero is written `0.0`, an integer zero `0`.
pub proof fn law_new_values_are_zero(t: Type)
    ensures
        Value::spec_new(t).typ == t,
        Value::spec_new(t).content == 0,
        well_shaped(Value::spec_new(t)),
        t == Type::FLOAT ==> Value::spec_new(t).text() == seq!['0', '.', '0'],
        t == Type::INT ==> Value::spec_new(t).text() == seq!['0'],
{
    assert(repeat_char('0', 0) =~= Seq::<char>::empty());
    assert(seq!['0'] + seq!['.'] + Seq::<char>::empty() + seq!['0'] =~= seq!['0', '.', '0']);
}

} // verus!
