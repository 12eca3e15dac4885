use vstd::prelude::*;

use crate::ast::operators::{BinaryOp, UnaryOp};
use crate::lexer::types::Type;
use crate::text::{i128_text, int_text, string_from_chars};

verus! {

/// An expression. A floating constant is kept as its decimal text.
#[derive(Debug, PartialEq)]
pub enum Expr {
    Integer(i64),
    Float(String),
    Char(char),
    String(String),
    Identifier(String),
    /// `left op right`
    BinaryExp(BinaryOp, Box<Expr>, Box<Expr>),
    /// `op operand`, or `operand op` for the postfix operators
    UnaryExp(UnaryOp, Box<Expr>),
    Assign(Box<Expr>, Box<Expr>),
    CallFunction(String, Vec<Expr>),
    /// `array[index]`
    Index(Box<Expr>, Box<Expr>),
    /// `e.member`
    Member(Box<Expr>, String),
    /// `e->member`
    PointerMember(Box<Expr>, String),
    /// `condition ? then : else`
    Ternary(Box<Expr>, Box<Expr>, Box<Expr>),
    SizeOf(Type),
}

/// An expression as the contracts see it.
pub enum SpecExpr {
    Integer(i64),
    Float(Seq<char>),
    Char(char),
    String(Seq<char>),
    Identifier(Seq<char>),
    BinaryExp(BinaryOp, Box<SpecExpr>, Box<SpecExpr>),
    UnaryExp(UnaryOp, Box<SpecExpr>),
    Assign(Box<SpecExpr>, Box<SpecExpr>),
    CallFunction(Seq<char>, Seq<SpecExpr>),
    Index(Box<SpecExpr>, Box<SpecExpr>),
    Member(Box<SpecExpr>, Seq<char>),
    PointerMember(Box<SpecExpr>, Seq<char>),
    Ternary(Box<SpecExpr>, Box<SpecExpr>, Box<SpecExpr>),
    SizeOf(Type),
}

/// The view of an expression.
pub open spec fn expr_view(e: Expr) -> SpecExpr
    decreases e,
{
    match e {
        Expr::Integer(i) => SpecExpr::Integer(i),
        Expr::Float(t) => SpecExpr::Float(t@),
        Expr::Char(c) => SpecExpr::Char(c),
        Expr::String(s) => SpecExpr::String(s@),
        Expr::Identifier(s) => SpecExpr::Identifier(s@),
        Expr::BinaryExp(op, l, r) => SpecExpr::BinaryExp(
            op,
            Box::new(expr_view(*l)),
            Box::new(expr_view(*r)),
        ),
        Expr::UnaryExp(op, x) => SpecExpr::UnaryExp(op, Box::new(expr_view(*x))),
        Expr::Assign(l, r) => SpecExpr::Assign(Box::new(expr_view(*l)), Box::new(expr_view(*r))),
        Expr::CallFunction(f, args) => SpecExpr::CallFunction(f@, exprs_view(args@)),
        Expr::Index(a, i) => SpecExpr::Index(Box::new(expr_view(*a)), Box::new(expr_view(*i))),
        Expr::Member(x, m) => SpecExpr::Member(Box::new(expr_view(*x)), m@),
        Expr::PointerMember(x, m) => SpecExpr::PointerMember(Box::new(expr_view(*x)), m@),
        Expr::Ternary(c, t, f) => SpecExpr::Ternary(
            Box::new(expr_view(*c)),
            Box::new(expr_view(*t)),
            Box::new(expr_view(*f)),
        ),
        Expr::SizeOf(t) => SpecExpr::SizeOf(t),
    }
}

/// The views of a list of expressions.
pub open spec fn exprs_view(es: Seq<Expr>) -> Seq<SpecExpr>
    decreases es,
{
    if es.len() == 0 {
        Seq::empty()
    } else {
        exprs_view(es.drop_last()).push(expr_view(es.last()))
    }
}

/// The views of a list of expressions, one for each, in order.
pub proof fn lemma_exprs_view(es: Seq<Expr>)
    ensures
        exprs_view(es).len() == es.len(),
        forall|i: int| 0 <= i < es.len() ==> #[trigger] exprs_view(es)[i] == es[i]@,
    decreases es.len(),
{
    if es.len() > 0 {
        lemma_exprs_view(es.drop_last());
        assert forall|i: int| 0 <= i < es.len() implies #[trigger] exprs_view(es)[i] == es[i]@ by {
            if i < es.len() - 1 {
                assert(es.drop_last()[i] == es[i]);
            }
        }
    }
}

/// The text of an expression: a character is itself, an integer its decimal
/// text, a floating constant its decimal text; any other expression is `#`.
pub open spec fn expr_text(e: SpecExpr) -> Seq<char> {
    match e {
        SpecExpr::Char(c) => seq![c],
        SpecExpr::Float(t) => t,
        SpecExpr::Integer(i) => int_text(i as int),
        _ => seq!['#'],
    }
}

/// The type of a constant expression: `char`, `float` or `int`; `void` for any
/// other expression.
pub open spec fn expr_type(e: SpecExpr) -> Type {
    match e {
        SpecExpr::Char(_) => Type::Char,
        SpecExpr::Float(_) => Type::Float,
        SpecExpr::Integer(_) => Type::Int,
        _ => Type::Void,
    }
}

impl Expr {
    /// The text of the expression, as `Display` writes it.
    pub fn to_string(&self) -> (r: String)
        ensures
            r@ == expr_text(self@),
    {
        match self {
            Expr::Char(ch) => {
                let mut v: Vec<char> = Vec::new();
                v.push(*ch);
                string_from_chars(&v)
            },
            Expr::Float(f) => f.clone(),
            Expr::Integer(i) => string_from_chars(&i128_text(*i as i128)),
            _ => {
                let mut v: Vec<char> = Vec::new();
                v.push('#');
                string_from_chars(&v)
            },
        }
    }

    pub fn get_type_of(&self) -> (r: Type)
        ensures
            r == expr_type(self@),
    {
        match self {
            Expr::Char(_) => Type::Char,
            Expr::Float(_) => Type::Float,
            Expr::Integer(_) => Type::Int,
            _ => Type::Void,
        }
    }
}

impl View for Expr {
    type V = SpecExpr;

    open spec fn view(&self) -> SpecExpr {
        expr_view(*self)
    }
}


impl Expr {
    /// A copy of this expression, equal to it as the contracts see it.
    pub fn duplicate(&self) -> (r: Expr)
        ensures
            r@ == self@,
        decreases self,
    {
        match self {
            Expr::Integer(i) => Expr::Integer(*i),
            Expr::Float(t) => Expr::Float(t.clone()),
            Expr::Char(c) => Expr::Char(*c),
            Expr::String(s) => Expr::String(s.clone()),
            Expr::Identifier(s) => Expr::Identifier(s.clone()),
            Expr::BinaryExp(op, l, r) => Expr::BinaryExp(
                *op,
                Box::new(l.duplicate()),
                Box::new(r.duplicate()),
            ),
            Expr::UnaryExp(op, x) => Expr::UnaryExp(*op, Box::new(x.duplicate())),
            Expr::Assign(l, r) => Expr::Assign(Box::new(l.duplicate()), Box::new(r.duplicate())),
            Expr::CallFunction(f, args) => {
                let mut copy: Vec<Expr> = Vec::new();
                let mut k: usize = 0;
                while k < args.len()
                    invariant
                        k <= args@.len(),
                        copy@.len() == k,
                        forall|j: int| 0 <= j < k ==> #[trigger] copy@[j]@ == args@[j]@,
                        forall|j: int| 0 <= j < args@.len() ==> decreases_to!(self => args@[j]),
                    decreases args.len() - k,
                {
                    assert(decreases_to!(self => args@[k as int]));
                    copy.push(args[k].duplicate());
                    k = k + 1;
                }
                proof {
                    lemma_exprs_view(copy@);
                    lemma_exprs_view(args@);
                    assert(exprs_view(copy@) =~= exprs_view(args@));
                }
                Expr::CallFunction(f.clone(), copy)
            },
            Expr::Index(a, i) => Expr::Index(Box::new(a.duplicate()), Box::new(i.duplicate())),
            Expr::Member(x, m) => Expr::Member(Box::new(x.duplicate()), m.clone()),
            Expr::PointerMember(x, m) => Expr::PointerMember(Box::new(x.duplicate()), m.clone()),
            Expr::Ternary(c, t, f) => Expr::Ternary(
                Box::new(c.duplicate()),
                Box::new(t.duplicate()),
                Box::new(f.duplicate()),
            ),
            Expr::SizeOf(t) => Expr::SizeOf(t.clone()),
        }
    }
}

impl Clone for Expr {
    fn clone(&self) -> (r: Self)
        ensures
            r@ == self@,
    {
        self.duplicate()
    }
}

} // verus!
