//! What code generation produces, stated over the views of the syntax tree.
use vstd::prelude::*;

use crate::ast::declarations::{SpecDecl, SpecFunctionDecl, SpecVaribleDecl};
use crate::ast::expr::SpecExpr;
use crate::ast::operators::BinaryOp;
use crate::ast::stmt::SpecStmt;
use crate::ir::instructions::SpecInstruction;
use crate::ir::types::Type;
use crate::ir::value::Value;
use crate::ir::variable_slot_table::{Index, Slot};
use crate::lexer::spec::{all_ascii_digits, decimal_value};
use crate::lexer::types::Type as AstType;
use crate::text::first_index_of;

verus! {

/// The state of a code generator: the running index, the instructions produced so
/// far, the variables declared (name and slot, in order), the values recorded in
/// the slot table, and the functions met (name and label position, in order).
#[verifier::ext_equal]
pub struct GenState {
    pub index: Index,
    pub code: Seq<SpecInstruction>,
    pub symbols: Seq<(Seq<char>, Slot)>,
    pub table: Map<Index, Value>,
    pub functions: Seq<(Seq<char>, Index)>,
}

/// How a piece of generation ends: with a new state, with the code of an error,
/// or on an input that generation does not handle (an operator or statement with
/// no translation, a pointer variable without an initial value, a floating
/// constant whose parts do not fit, or an index that would pass `usize::MAX`).
pub enum Outcome {
    Done(GenState),
    Fail(u32),
    Unsupported,
}

impl GenState {
    /// The state of a new generator.
    pub open spec fn start() -> GenState {
        GenState {
            index: 0,
            code: Seq::empty(),
            symbols: Seq::empty(),
            table: Map::empty(),
            functions: Seq::empty(),
        }
    }

    /// The state with one more instruction.
    pub open spec fn emit(self, i: SpecInstruction) -> GenState {
        GenState { code: self.code.push(i), ..self }
    }

    /// The state with the index one higher.
    pub open spec fn bump(self) -> Outcome {
        if self.index < usize::MAX {
            Outcome::Done(GenState { index: (self.index + 1) as Index, ..self })
        } else {
            Outcome::Unsupported
        }
    }
}

/// The slot of the variable declared last under `name`.
pub open spec fn lookup(symbols: Seq<(Seq<char>, Slot)>, name: Seq<char>) -> Option<Slot>
    decreases symbols.len(),
{
    if symbols.len() == 0 {
        None
    } else if symbols.last().0 == name {
        Some(symbols.last().1)
    } else {
        lookup(symbols.drop_last(), name)
    }
}

/// Where the function `name` stands among those met, searching from the last.
pub open spec fn find_function(functions: Seq<(Seq<char>, Index)>, name: Seq<char>) -> Option<int>
    decreases functions.len(),
{
    if functions.len() == 0 {
        None
    } else if functions.last().0 == name {
        Some(functions.len() - 1)
    } else {
        find_function(functions.drop_last(), name)
    }
}

/// Records the function `name`: its label is placed at the number of functions
/// met so far, and a function met again keeps its place with the new label.
pub open spec fn register(functions: Seq<(Seq<char>, Index)>, name: Seq<char>) -> Seq<(Seq<char>, Index)> {
    let label = (name, functions.len() as Index);
    match find_function(functions, name) {
        Some(i) => functions.update(i, label),
        None => functions.push(label),
    }
}

pub open spec fn int_value(i: i64) -> Value {
    Value { typ: Type::INT, content: i as i128, extend: None, length: None }
}

pub open spec fn char_value(c: char) -> Value {
    Value { typ: Type::CHAR, content: c as i128, extend: None, length: None }
}

/// The value a variable declared without an initial value starts with: a zero
/// of the machine type of its source type; pointers have none.
pub open spec fn default_value(t: AstType) -> Option<Value> {
    if t is Pointer {
        None
    } else {
        Some(Value::spec_new(Type::of_ast(t)))
    }
}

/// The floating value written `digits.digits`: the integer part goes to
/// `content`, the fraction digits to `extend`, their count to `length`; `None`
/// when the text has no point, holds other characters, or a part does not fit.
pub open spec fn float_value(t: Seq<char>) -> Option<Value> {
    match first_index_of(t, '.', 0) {
        Some(d) => {
            let ip = t.subrange(0, d);
            let fp = t.subrange(d + 1, t.len() as int);
            if all_ascii_digits(ip) && all_ascii_digits(fp) && decimal_value(ip) <= i128::MAX
                && decimal_value(fp) <= u128::MAX {
                Some(
                    Value {
                        typ: Type::FLOAT,
                        content: decimal_value(ip) as i128,
                        extend: Some(decimal_value(fp) as u128),
                        length: Some(fp.len() as usize),
                    },
                )
            } else {
                None
            }
        },
        None => None,
    }
}

/// The instruction of a binary operator; `&&` is computed as a product. The
/// operators `||`, `&`, `|`, `^`, `<<` and `>>` have none.
pub open spec fn opcode(op: BinaryOp) -> Option<SpecInstruction> {
    match op {
        BinaryOp::Add => Some(SpecInstruction::ADD),
        BinaryOp::And => Some(SpecInstruction::MUL),
        BinaryOp::Sub => Some(SpecInstruction::SUB),
        BinaryOp::Mul => Some(SpecInstruction::MUL),
        BinaryOp::Div => Some(SpecInstruction::DIV),
        BinaryOp::Eq => Some(SpecInstruction::EQ),
        BinaryOp::Ne => Some(SpecInstruction::NE),
        BinaryOp::Gt => Some(SpecInstruction::GT),
        BinaryOp::Ge => Some(SpecInstruction::GE),
        BinaryOp::Lt => Some(SpecInstruction::LT),
        BinaryOp::Le => Some(SpecInstruction::LE),
        BinaryOp::Mod => Some(SpecInstruction::MOD),
        _ => None,
    }
}

/// Pushes the characters of a string constant, last first; each one moves the
/// index on by one before it is pushed.
pub open spec fn gen_rev_chars(st: GenState, s: Seq<char>) -> Outcome
    decreases s.len(),
{
    if s.len() == 0 {
        Outcome::Done(st)
    } else {
        match st.bump() {
            Outcome::Done(s1) => gen_rev_chars(
                s1.emit(SpecInstruction::PUSH(char_value(s.last()))),
                s.drop_last(),
            ),
            o => o,
        }
    }
}

/// The code of an expression. The index moves on by one first.
pub open spec fn gen_expr(st0: GenState, e: SpecExpr) -> Outcome
    decreases e,
{
    match st0.bump() {
        Outcome::Done(st) => match e {
            SpecExpr::Assign(lhs, rhs) => match *lhs {
                SpecExpr::Identifier(name) => match lookup(st.symbols, name) {
                    None => Outcome::Fail(2),
                    Some(slot) => match gen_expr(st, *rhs) {
                        Outcome::Done(s2) => {
                            let s3 = s2.emit(SpecInstruction::PUSH(slot.value)).emit(
                                SpecInstruction::STORE(s2.index),
                            );
                            GenState { table: s2.table.insert(s2.index, slot.value), ..s3 }.bump()
                        },
                        o => o,
                    },
                },
                _ => Outcome::Fail(3),
            },
            SpecExpr::BinaryExp(op, l, r) => match gen_expr(st, *l) {
                Outcome::Done(s1) => match gen_expr(s1, *r) {
                    Outcome::Done(s2) => match opcode(op) {
                        Some(i) => Outcome::Done(s2.emit(i)),
                        None => Outcome::Unsupported,
                    },
                    o => o,
                },
                o => o,
            },
            SpecExpr::Integer(i) => Outcome::Done(st.emit(SpecInstruction::PUSH(int_value(i)))),
            SpecExpr::Identifier(name) => match lookup(st.symbols, name) {
                None => Outcome::Fail(4),
                Some(slot) => st.emit(SpecInstruction::LOAD(slot.index)).bump(),
            },
            SpecExpr::CallFunction(name, args) => match gen_exprs(st, args) {
                Outcome::Done(s1) => Outcome::Done(
                    if name == "ECHO"@ {
                        s1.emit(SpecInstruction::CALL(name))
                    } else {
                        s1.emit(SpecInstruction::JUMP(name, s1.index))
                    },
                ),
                o => o,
            },
            SpecExpr::Char(c) => Outcome::Done(st.emit(SpecInstruction::PUSH(char_value(c)))),
            SpecExpr::Float(t) => match float_value(t) {
                Some(v) => Outcome::Done(st.emit(SpecInstruction::PUSH(v))),
                None => Outcome::Unsupported,
            },
            SpecExpr::String(s) => gen_rev_chars(st, s),
            _ => Outcome::Fail(6),
        },
        o => o,
    }
}

/// The code of a list of expressions, first to last.
pub open spec fn gen_exprs(st: GenState, es: Seq<SpecExpr>) -> Outcome
    decreases es,
{
    if es.len() == 0 {
        Outcome::Done(st)
    } else {
        match gen_expr(st, es[0]) {
            Outcome::Done(s1) => gen_exprs(s1, es.subrange(1, es.len() as int)),
            o => o,
        }
    }
}

/// The code of a variable declaration. A name already declared is refused. With
/// an initial value, its code is followed by a `STORE`; without one, the default
/// value is pushed and stored, and the name is recorded with its slot.
pub open spec fn gen_var(st0: GenState, v: SpecVaribleDecl) -> Outcome {
    if lookup(st0.symbols, v.name) is Some {
        Outcome::Fail(7)
    } else {
        match st0.bump() {
            Outcome::Done(st) => match v.init {
                Some(e) => match gen_expr(st, e) {
                    Outcome::Done(s1) => Outcome::Done(s1.emit(SpecInstruction::STORE(s1.index))),
                    o => o,
                },
                None => match default_value(v.typ) {
                    Some(dv) => {
                        let s1 = st.emit(SpecInstruction::PUSH(dv));
                        let s2 = GenState {
                            symbols: s1.symbols.push((v.name, Slot { value: dv, index: st.index })),
                            ..s1
                        };
                        Outcome::Done(s2.emit(SpecInstruction::STORE(s2.index)))
                    },
                    None => Outcome::Unsupported,
                },
            },
            o => o,
        }
    }
}

/// The code of a statement. The index moves on by one first. `if`, `while` and
/// `return` have no translation; `for`, `break` and `continue` are refused.
pub open spec fn gen_stmt(st0: GenState, s: SpecStmt) -> Outcome
    decreases s,
{
    match st0.bump() {
        Outcome::Done(st) => match s {
            SpecStmt::Block(ss) => gen_stmts(st, ss),
            SpecStmt::Expr(e) => gen_expr(st, e),
            SpecStmt::If(_, _, _) => Outcome::Unsupported,
            SpecStmt::Return(_) => Outcome::Unsupported,
            SpecStmt::While(_, _) => Outcome::Unsupported,
            SpecStmt::VaribleDecl(v) => gen_var(st, v),
            _ => Outcome::Fail(1),
        },
        o => o,
    }
}

/// The code of a list of statements, first to last.
pub open spec fn gen_stmts(st: GenState, ss: Seq<SpecStmt>) -> Outcome
    decreases ss,
{
    if ss.len() == 0 {
        Outcome::Done(st)
    } else {
        match gen_stmt(st, ss[0]) {
            Outcome::Done(s1) => gen_stmts(s1, ss.subrange(1, ss.len() as int)),
            o => o,
        }
    }
}

/// The code of a function: its label is recorded, then its body is generated.
pub open spec fn gen_function(st: GenState, f: SpecFunctionDecl) -> Outcome {
    let s1 = GenState { functions: register(st.functions, f.name), ..st };
    match f.body {
        Some(body) => gen_stmts(s1, body),
        None => Outcome::Done(s1),
    }
}

pub open spec fn gen_decl(st: GenState, d: SpecDecl) -> Outcome {
    match d {
        SpecDecl::Function(f) => gen_function(st, f),
        SpecDecl::Varible(v) => gen_var(st, v),
    }
}

/// The code of a list of declarations, first to last.
pub open spec fn gen_decls(st: GenState, ds: Seq<SpecDecl>) -> Outcome
    decreases ds.len(),
{
    if ds.len() == 0 {
        Outcome::Done(st)
    } else {
        match gen_decl(st, ds[0]) {
            Outcome::Done(s1) => gen_decls(s1, ds.subrange(1, ds.len() as int)),
            o => o,
        }
    }
}


// ---------------------------------------------------------------- code only grows

/// `b` is `a` with more code after it: the code of `a` is a prefix of that of `b`,
/// and the index has not gone back.
pub open spec fn grows(a: GenState, b: GenState) -> bool {
    a.code.is_prefix_of(b.code) && a.index <= b.index
}

/// When the outcome is a new state, it grows from `a`.
pub open spec fn grows_to(a: GenState, o: Outcome) -> bool {
    o matches Outcome::Done(b) ==> grows(a, b)
}

proof fn lemma_grows_refl(a: GenState)
    ensures
        grows(a, a),
{
    assert(a.code =~= a.code.subrange(0, a.code.len() as int));
}

proof fn lemma_grows_emit(a: GenState, i: SpecInstruction)
    ensures
        grows(a, a.emit(i)),
{
    assert(a.code =~= a.code.push(i).subrange(0, a.code.len() as int));
}

proof fn lemma_grows_trans(a: GenState, b: GenState, c: GenState)
    requires
        grows(a, b),
        grows(b, c),
    ensures
        grows(a, c),
{
    assert forall|i: int| 0 <= i < a.code.len() implies a.code[i] == c.code[i] by {
        assert(a.code[i] == b.code.subrange(0, a.code.len() as int)[i]);
        assert(b.code[i] == c.code.subrange(0, b.code.len() as int)[i]);
    }
    assert(a.code =~= c.code.subrange(0, a.code.len() as int));
}

proof fn lemma_grows_bump(a: GenState)
    ensures
        grows_to(a, a.bump()),
{
    lemma_grows_refl(a);
}

proof fn lemma_grows_rev_chars(st: GenState, s: Seq<char>)
    ensures
        grows_to(st, gen_rev_chars(st, s)),
    decreases s.len(),
{
    if s.len() > 0 {
        lemma_grows_bump(st);
        if let Outcome::Done(s1) = st.bump() {
            let s2 = s1.emit(SpecInstruction::PUSH(char_value(s.last())));
            lemma_grows_emit(s1, SpecInstruction::PUSH(char_value(s.last())));
            lemma_grows_rev_chars(s2, s.drop_last());
            if let Outcome::Done(s3) = gen_rev_chars(s2, s.drop_last()) {
                lemma_grows_trans(st, s1, s2);
                lemma_grows_trans(st, s2, s3);
            }
        }
    } else {
        lemma_grows_refl(st);
    }
}

proof fn lemma_grows_expr(st0: GenState, e: SpecExpr)
    ensures
        grows_to(st0, gen_expr(st0, e)),
    decreases e,
{
    lemma_grows_bump(st0);
    if let Outcome::Done(st) = st0.bump() {
        match e {
            SpecExpr::Assign(lhs, rhs) => {
                if let SpecExpr::Identifier(name) = *lhs {
                    if let Some(slot) = lookup(st.symbols, name) {
                        lemma_grows_expr(st, *rhs);
                        if let Outcome::Done(s2) = gen_expr(st, *rhs) {
                            let a = s2.emit(SpecInstruction::PUSH(slot.value));
                            let s3 = a.emit(SpecInstruction::STORE(s2.index));
                            let s4 = GenState { table: s2.table.insert(s2.index, slot.value), ..s3 };
                            lemma_grows_emit(s2, SpecInstruction::PUSH(slot.value));
                            lemma_grows_emit(a, SpecInstruction::STORE(s2.index));
                            lemma_grows_trans(s2, a, s3);
                            lemma_grows_trans(st, s2, s3);
                            lemma_grows_trans(st0, st, s3);
                            lemma_grows_bump(s4);
                            if let Outcome::Done(s5) = s4.bump() {
                                lemma_grows_trans(st0, s4, s5);
                            }
                        }
                    }
                }
            },
            SpecExpr::BinaryExp(op, l, r) => {
                lemma_grows_expr(st, *l);
                if let Outcome::Done(s1) = gen_expr(st, *l) {
                    lemma_grows_expr(s1, *r);
                    if let Outcome::Done(s2) = gen_expr(s1, *r) {
                        lemma_grows_trans(st0, st, s1);
                        lemma_grows_trans(st0, s1, s2);
                        if let Some(i) = opcode(op) {
                            lemma_grows_emit(s2, i);
                            lemma_grows_trans(st0, s2, s2.emit(i));
                        }
                    }
                }
            },
            SpecExpr::Identifier(name) => {
                if let Some(slot) = lookup(st.symbols, name) {
                    let a = st.emit(SpecInstruction::LOAD(slot.index));
                    lemma_grows_emit(st, SpecInstruction::LOAD(slot.index));
                    lemma_grows_trans(st0, st, a);
                    lemma_grows_bump(a);
                    if let Outcome::Done(b) = a.bump() {
                        lemma_grows_trans(st0, a, b);
                    }
                }
            },
            SpecExpr::CallFunction(name, args) => {
                lemma_grows_exprs(st, args);
                if let Outcome::Done(s1) = gen_exprs(st, args) {
                    lemma_grows_trans(st0, st, s1);
                    let i = if name == "ECHO"@ {
                        SpecInstruction::CALL(name)
                    } else {
                        SpecInstruction::JUMP(name, s1.index)
                    };
                    lemma_grows_emit(s1, i);
                    lemma_grows_trans(st0, s1, s1.emit(i));
                }
            },
            SpecExpr::String(s) => {
                lemma_grows_rev_chars(st, s);
                if let Outcome::Done(s1) = gen_rev_chars(st, s) {
                    lemma_grows_trans(st0, st, s1);
                }
            },
            SpecExpr::Integer(i) => {
                lemma_grows_emit(st, SpecInstruction::PUSH(int_value(i)));
                lemma_grows_trans(st0, st, st.emit(SpecInstruction::PUSH(int_value(i))));
            },
            SpecExpr::Char(c) => {
                lemma_grows_emit(st, SpecInstruction::PUSH(char_value(c)));
                lemma_grows_trans(st0, st, st.emit(SpecInstruction::PUSH(char_value(c))));
            },
            SpecExpr::Float(t) => {
                if let Some(v) = float_value(t) {
                    lemma_grows_emit(st, SpecInstruction::PUSH(v));
                    lemma_grows_trans(st0, st, st.emit(SpecInstruction::PUSH(v)));
                }
            },
            _ => {},
        }
    }
}

proof fn lemma_grows_exprs(st: GenState, es: Seq<SpecExpr>)
    ensures
        grows_to(st, gen_exprs(st, es)),
    decreases es,
{
    if es.len() == 0 {
        lemma_grows_refl(st);
    } else {
        lemma_grows_expr(st, es[0]);
        if let Outcome::Done(s1) = gen_expr(st, es[0]) {
            lemma_grows_exprs(s1, es.subrange(1, es.len() as int));
            if let Outcome::Done(s2) = gen_exprs(s1, es.subrange(1, es.len() as int)) {
                lemma_grows_trans(st, s1, s2);
            }
        }
    }
}

proof fn lemma_grows_var(st0: GenState, v: SpecVaribleDecl)
    ensures
        grows_to(st0, gen_var(st0, v)),
{
    lemma_grows_bump(st0);
    if lookup(st0.symbols, v.name) is None {
        if let Outcome::Done(st) = st0.bump() {
            match v.init {
                Some(e) => {
                    lemma_grows_expr(st, e);
                    if let Outcome::Done(s1) = gen_expr(st, e) {
                        lemma_grows_trans(st0, st, s1);
                        lemma_grows_emit(s1, SpecInstruction::STORE(s1.index));
                        lemma_grows_trans(st0, s1, s1.emit(SpecInstruction::STORE(s1.index)));
                    }
                },
                None => {
                    if let Some(dv) = default_value(v.typ) {
                        let s1 = st.emit(SpecInstruction::PUSH(dv));
                        let s2 = GenState {
                            symbols: s1.symbols.push((v.name, Slot { value: dv, index: st.index })),
                            ..s1
                        };
                        lemma_grows_emit(st, SpecInstruction::PUSH(dv));
                        lemma_grows_trans(st0, st, s1);
                        lemma_grows_emit(s2, SpecInstruction::STORE(s2.index));
                        lemma_grows_trans(st0, s2, s2.emit(SpecInstruction::STORE(s2.index)));
                    }
                },
            }
        }
    }
}

proof fn lemma_grows_stmt(st0: GenState, s: SpecStmt)
    ensures
        grows_to(st0, gen_stmt(st0, s)),
    decreases s,
{
    lemma_grows_bump(st0);
    if let Outcome::Done(st) = st0.bump() {
        match s {
            SpecStmt::Block(ss) => {
                lemma_grows_stmts(st, ss);
                if let Outcome::Done(s1) = gen_stmts(st, ss) {
                    lemma_grows_trans(st0, st, s1);
                }
            },
            SpecStmt::Expr(e) => {
                lemma_grows_expr(st, e);
                if let Outcome::Done(s1) = gen_expr(st, e) {
                    lemma_grows_trans(st0, st, s1);
                }
            },
            SpecStmt::VaribleDecl(v) => {
                lemma_grows_var(st, v);
                if let Outcome::Done(s1) = gen_var(st, v) {
                    lemma_grows_trans(st0, st, s1);
                }
            },
            _ => {},
        }
    }
}

proof fn lemma_grows_stmts(st: GenState, ss: Seq<SpecStmt>)
    ensures
        grows_to(st, gen_stmts(st, ss)),
    decreases ss,
{
    if ss.len() == 0 {
        lemma_grows_refl(st);
    } else {
        lemma_grows_stmt(st, ss[0]);
        if let Outcome::Done(s1) = gen_stmt(st, ss[0]) {
            lemma_grows_stmts(s1, ss.subrange(1, ss.len() as int));
            if let Outcome::Done(s2) = gen_stmts(s1, ss.subrange(1, ss.len() as int)) {
                lemma_grows_trans(st, s1, s2);
            }
        }
    }
}

/// Generation only adds code: the bytecode produced before a run of declarations
/// is kept, in front of what the run adds, and the index never goes back.
pub proof fn law_generation_keeps_code(st: GenState, ds: Seq<SpecDecl>)
    ensures
        grows_to(st, gen_decls(st, ds)),
    decreases ds.len(),
{
    if ds.len() == 0 {
        lemma_grows_refl(st);
    } else {
        let s0 = match ds[0] {
            SpecDecl::Function(f) => GenState { functions: register(st.functions, f.name), ..st },
            SpecDecl::Varible(_) => st,
        };
        match ds[0] {
            SpecDecl::Function(f) => {
                lemma_grows_refl(st);
                match f.body {
                    Some(body) => {
                        lemma_grows_stmts(s0, body);
                    },
                    None => {
                        lemma_grows_refl(s0);
                    },
                }
            },
            SpecDecl::Varible(v) => {
                lemma_grows_var(st, v);
            },
        }
        if let Outcome::Done(s1) = gen_decl(st, ds[0]) {
            law_generation_keeps_code(s1, ds.subrange(1, ds.len() as int));
            if let Outcome::Done(s2) = gen_decls(s1, ds.subrange(1, ds.len() as int)) {
                lemma_grows_trans(st, s1, s2);
            }
        }
    }
}

} // verus!

verus! {

// ---------------------------------------------------------------- what each expression ends with

/// The code of `l op r` ends with the instruction that `op` names: `+` with
/// `ADD`, `-` with `SUB`, `*` and `&&` with `MUL`, `/` with `DIV`, `%` with `MOD`,
/// and each comparison with its own; the other operators have no code.
pub proof fn law_binary_code_ends_with_its_instruction(
    st: GenState,
    op: BinaryOp,
    l: SpecExpr,
    r: SpecExpr,
)
    ensures
        gen_expr(st, SpecExpr::BinaryExp(op, Box::new(l), Box::new(r))) matches Outcome::Done(s) ==> {
            &&& s.code.len() > 0
            &&& op == BinaryOp::Add ==> s.code.last() == SpecInstruction::ADD
            &&& op == BinaryOp::Sub ==> s.code.last() == SpecInstruction::SUB
            &&& op == BinaryOp::Mul ==> s.code.last() == SpecInstruction::MUL
            &&& op == BinaryOp::And ==> s.code.last() == SpecInstruction::MUL
            &&& op == BinaryOp::Div ==> s.code.last() == SpecInstruction::DIV
            &&& op == BinaryOp::Mod ==> s.code.last() == SpecInstruction::MOD
            &&& op == BinaryOp::Eq ==> s.code.last() == SpecInstruction::EQ
            &&& op == BinaryOp::Ne ==> s.code.last() == SpecInstruction::NE
            &&& op == BinaryOp::Lt ==> s.code.last() == SpecInstruction::LT
            &&& op == BinaryOp::Le ==> s.code.last() == SpecInstruction::LE
            &&& op == BinaryOp::Gt ==> s.code.last() == SpecInstruction::GT
            &&& op == BinaryOp::Ge ==> s.code.last() == SpecInstruction::GE
            &&& op != BinaryOp::Or && op != BinaryOp::BitAnd && op != BinaryOp::BitOr
            &&& op != BinaryOp::BitXor && op != BinaryOp::Shl && op != BinaryOp::Shr
        },
{
}

/// A constant is pushed as the value it stands for: an integer as an `INT` of
/// that number, a character as a `CHAR` of its code. A variable is loaded from the
/// slot it was declared with, and a call of `ECHO` ends with `CALL ECHO`; a call
/// of any other name ends with a jump to a label of that name.
pub proof fn law_leaf_code(st: GenState, e: SpecExpr)
    ensures
        gen_expr(st, e) matches Outcome::Done(s) ==> {
            &&& e matches SpecExpr::Integer(i) ==> s.code.len() > 0 && s.code.last()
                == SpecInstruction::PUSH(
                Value { typ: Type::INT, content: i as i128, extend: None, length: None },
            )
            &&& e matches SpecExpr::Char(c) ==> s.code.len() > 0 && s.code.last()
                == SpecInstruction::PUSH(
                Value { typ: Type::CHAR, content: c as i128, extend: None, length: None },
            )
            &&& e matches SpecExpr::Identifier(name) ==> lookup(st.symbols, name) matches Some(slot)
                && s.code.len() > 0 && s.code.last() == SpecInstruction::LOAD(slot.index)
            &&& e matches SpecExpr::CallFunction(name, _) ==> s.code.len() > 0 && (if name
                == "ECHO"@ {
                s.code.last() == SpecInstruction::CALL(name)
            } else {
                s.code.last() matches SpecInstruction::JUMP(n, _) && n == name
            })
        },
{
    reveal_with_fuel(gen_rev_chars, 1);
}

} // verus!

verus! {

/// A declaration without an initial value pushes a zero of the variable's machine
/// type and stores it in a slot, and the name is then found with that very slot; a
/// name already declared is refused. Any declaration ends with a `STORE`.
pub proof fn law_declared_variable_is_stored_in_its_slot(st: GenState, v: SpecVaribleDecl)
    ensures
        gen_var(st, v) matches Outcome::Done(s) ==> {
            &&& lookup(st.symbols, v.name) is None
            &&& s.code.len() > 0 && s.code.last() is STORE
            &&& v.init is None ==> {
                &&& lookup(s.symbols, v.name) matches Some(slot) && s.code.last()
                    == SpecInstruction::STORE(slot.index) && s.code.len() >= 2 && s.code[s.code.len()
                    - 2] == SpecInstruction::PUSH(slot.value) && slot.value.typ == Type::of_ast(v.typ)
                    && slot.value.content == 0
            }
        },
{
}

/// An assignment `name = e` evaluates `e`, then pushes the slot value of `name`
/// and stores it; the table then holds that value at the stored slot.
pub proof fn law_assignment_code(st: GenState, name: Seq<char>, rhs: SpecExpr)
    ensures
        gen_expr(
            st,
            SpecExpr::Assign(Box::new(SpecExpr::Identifier(name)), Box::new(rhs)),
        ) matches Outcome::Done(s) ==> {
            &&& lookup(st.symbols, name) matches Some(slot) && s.code.len() >= 2 && s.code[s.code.len()
                - 2] == SpecInstruction::PUSH(slot.value) && (s.code.last() matches SpecInstruction::STORE(
                k,
            ) && s.table.contains_key(k) && s.table[k] == slot.value)
        },
{
}

} // verus!

verus! {

/// A floating constant written as a value displays reads back as that value: the
/// generator's reading of a floating text undoes the display of a floating value.
pub proof fn law_float_constant_reads_back(v: Value)
    requires
        v.typ == Type::FLOAT,
        v.displayable(),
        v.content >= 0,
    ensures
        float_value(v.text()) == Some(v),
{
    crate::ir::value::law_float_text_reads_back(v);
    let t = v.text();
    let k = crate::text::nat_text(v.content as nat).len() as int;
    crate::lexer::spec::law_decimal_text_reads_back(v.content as nat);
    let ip = crate::text::nat_text(v.content as nat);
    assert(t.subrange(0, k) =~= ip) by {
        assert(t == ip + seq!['.'] + crate::text::repeat_char(
            '0',
            (v.length.unwrap() - crate::text::nat_text(v.extend.unwrap() as nat).len()) as nat,
        ) + crate::text::nat_text(v.extend.unwrap() as nat));
    }
    crate::text::lemma_first_index_of(t, '.', 0);
    assert forall|j: int| 0 <= j < k implies t[j] != '.' by {
        assert(t[j] == t.subrange(0, k)[j]);
        assert('0' <= ip[j] && ip[j] <= '9');
    }
    assert(first_index_of(t, '.', 0) == Some(k));
    let fp = t.subrange(k + 1, t.len() as int);
    assert(fp.len() == v.length.unwrap());
    assert(decimal_value(fp) >= 0);
}

/// A string constant pushes each of its characters, as a `CHAR` of its code,
/// last character first.
pub proof fn law_string_constant_code(st: GenState, s: Seq<char>)
    ensures
        gen_rev_chars(st, s) matches Outcome::Done(s2) ==> {
            &&& s2.code.len() == st.code.len() + s.len()
            &&& s2.code.subrange(0, st.code.len() as int) == st.code
            &&& forall|i: int| 0 <= i < s.len() ==> #[trigger] s2.code[st.code.len() + i]
                == SpecInstruction::PUSH(
                Value {
                    typ: Type::CHAR,
                    content: s[s.len() - 1 - i] as i128,
                    extend: None,
                    length: None,
                },
            )
        },
    decreases s.len(),
{
    if s.len() == 0 {
        if let Outcome::Done(s2) = gen_rev_chars(st, s) {
            assert(s2.code.subrange(0, st.code.len() as int) =~= st.code);
        }
    } else {
        if let Outcome::Done(s1) = st.bump() {
            let c = s.last();
            let a = s1.emit(SpecInstruction::PUSH(char_value(c)));
            law_string_constant_code(a, s.drop_last());
            if let Outcome::Done(s2) = gen_rev_chars(a, s.drop_last()) {
                let n = st.code.len();
                assert(a.code.len() == n + 1);
                assert(s2.code.subrange(0, n as int) =~= st.code) by {
                    assert forall|j: int| 0 <= j < n implies s2.code[j] == st.code[j] by {
                        assert(s2.code[j] == s2.code.subrange(0, a.code.len() as int)[j]);
                        assert(a.code[j] == st.code[j]);
                    }
                }
                assert forall|i: int| 0 <= i < s.len() implies #[trigger] s2.code[n + i]
                    == SpecInstruction::PUSH(
                    Value {
                        typ: Type::CHAR,
                        content: s[s.len() - 1 - i] as i128,
                        extend: None,
                        length: None,
                    },
                ) by {
                    if i == 0 {
                        assert(s2.code[n as int] == s2.code.subrange(0, a.code.len() as int)[n as int]);
                    } else {
                        assert(s2.code[a.code.len() + (i - 1)] == s2.code[n + i]);
                        assert(s.drop_last()[s.drop_last().len() - 1 - (i - 1)] == s[s.len() - 1 - i]);
                    }
                }
            }
        }
    }
}

} // verus!
