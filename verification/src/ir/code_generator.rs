//! Turns a program's syntax tree into stack bytecode.
//!
//! For example, `int main() { echo(1 + 2); }` becomes
//! ```text
//! PUSH INT 1
//! PUSH INT 2
//! ADD
//! CALL ECHO
//! ```
pub mod error;
pub mod spec;

use vstd::prelude::*;

use crate::ast::block::Block;
use crate::ast::declarations::{decls_view, Decl, FunctionDecl, SpecDecl, VaribleDecl};
use crate::ast::expr::{exprs_view, lemma_exprs_view, Expr, SpecExpr};
use crate::ast::operators::BinaryOp;
use crate::ast::program::Program;
use crate::ast::stmt::{lemma_stmts_view, stmts_view, SpecStmt, Stmt};
use crate::ir::code_generator::error::{error_message, Error};
use crate::ir::code_generator::spec::{
    find_function, float_value, gen_decl, gen_decls, gen_expr, gen_exprs, gen_function,
    gen_rev_chars, gen_stmt, gen_stmts, gen_var, lookup, register, GenState, Outcome,
};
use crate::ir::function_label::FunctionLabel;
use crate::ir::instructions::{code_view, Instruction, SpecInstruction};
use crate::ir::types::Type;
use crate::ir::value::Value;
use crate::ir::variable_slot_table::{Index, Slot};
use crate::lexer::spec::{all_ascii_digits, decimal_value};
use crate::lexer::types::Type as AstType;
use crate::lexer::{lemma_decimal_nonneg, lemma_decimal_prefix};
use crate::text::{chars_equal_str, chars_of_string, find_char, slice_chars};
use crate::vm::variables::VariablesSlotTable;

verus! {

/// A code generator: the program it works on, a running index, the bytecode
/// produced so far, a table of slot values, the variables declared (each with
/// its slot) and the labels of the functions met.
#[derive(Debug, Clone, PartialEq)]
pub struct CodeGenerator {
    program: Program,
    index: usize,
    bytecode: Vec<Instruction>,
    slot_table: VariablesSlotTable,
    symbols: Vec<(String, Slot)>,
    functions: Vec<FunctionLabel>,
}

/// Why a piece of generation stopped.
enum Halt {
    Fail(Error),
    Unsupported,
}

/// A result of generation agrees with the outcome that the contracts give: the
/// state reached, or the error code with its message, or no translation.
spec fn settles(o: Outcome, r: Result<(), Halt>, s: GenState) -> bool {
    match r {
        Ok(_) => o == Outcome::Done(s),
        Err(Halt::Fail(e)) => o == Outcome::Fail(e.code) && e.msg@ == error_message(e.code),
        Err(Halt::Unsupported) => o is Unsupported,
    }
}

impl View for CodeGenerator {
    type V = GenState;

    closed spec fn view(&self) -> GenState {
        GenState {
            index: self.index,
            code: code_view(self.bytecode@),
            symbols: self.symbols@.map_values(|p: (String, Slot)| (p.0@, p.1)),
            table: self.slot_table@,
            functions: self.functions@.map_values(
                |l: FunctionLabel| (l.spec_name(), l.spec_position()),
            ),
        }
    }
}

impl CodeGenerator {
    /// The declarations of the program the generator works on.
    pub closed spec fn spec_program(&self) -> Seq<SpecDecl> {
        self.program@
    }

    /// A generator for `program`, with nothing produced yet.
    pub fn new(program: Program) -> (r: Self)
        ensures
            r@ == GenState::start(),
            r.spec_program() == program@,
    {
        let r = Self {
            program: program,
            index: 0,
            bytecode: Vec::new(),
            slot_table: VariablesSlotTable::new(),
            symbols: Vec::new(),
            functions: Vec::new(),
        };
        assert(r@ =~= GenState::start());
        r
    }

    fn bump(&mut self) -> (r: Result<(), Halt>)
        ensures
            settles(old(self)@.bump(), r, final(self)@),
    {
        if self.index == usize::MAX {
            return Err(Halt::Unsupported);
        }
        self.index = self.index + 1;
        assert(self@ =~= GenState { index: (old(self)@.index + 1) as Index, ..old(self)@ });
        Ok(())
    }

    fn emit(&mut self, i: Instruction)
        ensures
            final(self)@ == old(self)@.emit(i@),
    {
        let ghost v = i@;
        self.bytecode.push(i);
        assert(code_view(self.bytecode@) =~= code_view(old(self).bytecode@).push(v));
        assert(self@ =~= old(self)@.emit(v));
    }

    fn record(&mut self, index: Index, value: Value)
        ensures
            final(self)@ == (GenState { table: old(self)@.table.insert(index, value), ..old(self)@ }),
    {
        self.slot_table.set_variable(index, value);
        assert(self@ =~= GenState { table: old(self)@.table.insert(index, value), ..old(self)@ });
    }

    fn declare(&mut self, name: String, slot: Slot)
        ensures
            final(self)@ == (GenState {
                symbols: old(self)@.symbols.push((name@, slot)),
                ..old(self)@
            }),
    {
        let ghost n = name@;
        self.symbols.push((name, slot));
        assert(self@.symbols =~= old(self)@.symbols.push((n, slot)));
        assert(self@ =~= GenState { symbols: old(self)@.symbols.push((n, slot)), ..old(self)@ });
    }

    /// The slot of the variable `name`.
    fn lookup(&self, name: &String) -> (r: Option<Slot>)
        ensures
            r == lookup(self@.symbols, name@),
    {
        let ghost syms = self@.symbols;
        let mut k = self.symbols.len();
        assert(syms.take(k as int) =~= syms);
        while k > 0
            invariant
                k <= self.symbols@.len(),
                syms == self@.symbols,
                lookup(syms, name@) == lookup(syms.take(k as int), name@),
            decreases k,
        {
            let ghost t = syms.take(k as int);
            assert(t.drop_last() =~= syms.take(k - 1));
            assert(t.last() == syms[k - 1]);
            if self.symbols[k - 1].0 == *name {
                return Some(self.symbols[k - 1].1);
            }
            k = k - 1;
        }
        None
    }

    /// Where the function `name` stands among those met.
    fn find_function(&self, name: &String) -> (r: Option<usize>)
        ensures
            r matches Some(i) ==> find_function(self@.functions, name@) == Some(i as int) && i < self@.functions.len(),
            r is None ==> find_function(self@.functions, name@) is None,
    {
        let ghost fs = self@.functions;
        let mut k = self.functions.len();
        assert(fs.take(k as int) =~= fs);
        while k > 0
            invariant
                k <= self.functions@.len(),
                fs == self@.functions,
                find_function(fs, name@) == find_function(fs.take(k as int), name@),
            decreases k,
        {
            let ghost t = fs.take(k as int);
            assert(t.drop_last() =~= fs.take(k - 1));
            assert(t.last() == fs[k - 1]);
            if self.functions[k - 1].name_is(name) {
                return Some(k - 1);
            }
            k = k - 1;
        }
        None
    }

    /// Records the label of the function `name`.
    fn register(&mut self, name: &String)
        ensures
            final(self)@ == (GenState {
                functions: register(old(self)@.functions, name@),
                ..old(self)@
            }),
    {
        let label = FunctionLabel::at(self.functions.len(), name.clone());
        let ghost lv = (label.spec_name(), label.spec_position());
        match self.find_function(name) {
            Some(i) => {
                self.functions.set(i, label);
                assert(self@.functions =~= old(self)@.functions.update(i as int, lv));
            },
            None => {
                self.functions.push(label);
                assert(self@.functions =~= old(self)@.functions.push(lv));
            },
        }
        assert(self@ =~= GenState {
            functions: register(old(self)@.functions, name@),
            ..old(self)@
        });
    }
}


/// The value of a text of ASCII digits, when it is one and fits in a `u128`.
fn digits_value(t: &Vec<char>) -> (r: Option<u128>)
    ensures
        r == (if all_ascii_digits(t@) && decimal_value(t@) <= u128::MAX {
            Some(decimal_value(t@) as u128)
        } else {
            None::<u128>
        }),
{
    let mut v: u128 = 0;
    let mut k: usize = 0;
    assert(t@.take(0) =~= Seq::<char>::empty());
    while k < t.len()
        invariant
            k <= t@.len(),
            all_ascii_digits(t@.take(k as int)),
            v as int == decimal_value(t@.take(k as int)),
        decreases t.len() - k,
    {
        let c = t[k];
        if c < '0' || c > '9' {
            assert(!all_ascii_digits(t@)) by {
                assert(t@[k as int] == c);
            }
            return None;
        }
        let d: u128 = (c as u32 - 48) as u128;
        let ghost u = t@.take(k + 1);
        assert(u.drop_last() =~= t@.take(k as int));
        assert(u.last() == c);
        assert(all_ascii_digits(u)) by {
            assert forall|i: int| 0 <= i < u.len() implies '0' <= #[trigger] u[i] && u[i] <= '9' by {
                if i < k {
                    assert(u[i] == t@.take(k as int)[i]);
                }
            }
        }
        if v > (u128::MAX - d) / 10 {
            proof {
                assert(v * 10 + d > u128::MAX) by (nonlinear_arith)
                    requires
                        v > (u128::MAX - d) / 10,
                        0 <= d <= 9,
                ;
                if all_ascii_digits(t@) {
                    lemma_decimal_prefix(t@, k + 1);
                }
            }
            return None;
        }
        assert(v * 10 + d <= u128::MAX) by (nonlinear_arith)
            requires
                v <= (u128::MAX - d) / 10,
                0 <= d <= 9,
        ;
        v = v * 10 + d;
        k = k + 1;
    }
    assert(t@.take(t@.len() as int) =~= t@);
    Some(v)
}

/// The floating value that a constant's text stands for, as `float_value` says.
fn float_value_of(text: &String) -> (r: Option<Value>)
    ensures
        r == float_value(text@),
{
    let t = chars_of_string(text);
    let d = match find_char(&t, '.', 0) {
        Some(d) => d,
        None => {
            return None;
        },
    };
    proof {
        crate::text::lemma_first_index_of(t@, '.', 0);
    }
    let ip = slice_chars(&t, 0, d);
    let fp = slice_chars(&t, d + 1, t.len());
    let a = digits_value(&ip);
    let b = digits_value(&fp);
    proof {
        if all_ascii_digits(ip@) {
            lemma_decimal_nonneg(ip@);
        }
        if all_ascii_digits(fp@) {
            lemma_decimal_nonneg(fp@);
        }
    }
    match (a, b) {
        (Some(a), Some(b)) => {
            if a > i128::MAX as u128 {
                return None;
            }
            let mut v = Value::new(Type::FLOAT);
            v.set_value(a as i128, Some(b), Some(fp.len()));
            Some(v)
        },
        _ => None,
    }
}


impl CodeGenerator {
    /// Pushes the characters of a string constant, last first.
    fn generate_string(&mut self, text: &String) -> (r: Result<(), Halt>)
        ensures
            settles(gen_rev_chars(old(self)@, text@), r, final(self)@),
    {
        let chars = chars_of_string(text);
        let mut k = chars.len();
        assert(chars@.take(k as int) =~= chars@);
        while k > 0
            invariant
                k <= chars@.len(),
                gen_rev_chars(old(self)@, text@) == gen_rev_chars(self@, chars@.take(k as int)),
                chars@ == text@,
            decreases k,
        {
            let ghost t = chars@.take(k as int);
            assert(t.drop_last() =~= chars@.take(k - 1));
            assert(t.last() == chars@[k - 1]);
            let b = self.bump();
            if b.is_err() {
                return b;
            }
            let mut value = Value::new(Type::CHAR);
            value.set_value(chars[k - 1] as i128, None, None);
            self.emit(Instruction::PUSH(value));
            k = k - 1;
        }
        Ok(())
    }

    /// Generates the code of an expression.
    fn generate_expr(&mut self, expr: &Expr) -> (r: Result<(), Halt>)
        ensures
            settles(gen_expr(old(self)@, expr@), r, final(self)@),
        decreases expr,
    {
        let b = self.bump();
        if b.is_err() {
            return b;
        }
        let ghost st = self@;
        match expr {
            Expr::Assign(variable, value) => {
                assert(expr@ == SpecExpr::Assign(Box::new((**variable)@), Box::new((**value)@)));
                match &**variable {
                    Expr::Identifier(name) => {
                        assert((**variable)@ == SpecExpr::Identifier(name@));
                        let slot = match self.lookup(name) {
                            Some(slot) => slot,
                            None => {
                                return Err(Halt::Fail(Error::with_code(2)));
                            },
                        };
                        let r = self.generate_expr(value);
                        if r.is_err() {
                            return r;
                        }
                        let index = self.index;
                        self.emit(Instruction::PUSH(slot.value));
                        self.emit(Instruction::STORE(index));
                        self.record(index, slot.value);
                        self.bump()
                    },
                    _ => Err(Halt::Fail(Error::with_code(3))),
                }
            },
            Expr::BinaryExp(op, left, right) => {
                let r = self.generate_expr(left);
                if r.is_err() {
                    return r;
                }
                let r = self.generate_expr(right);
                if r.is_err() {
                    return r;
                }
                let opcode = match op {
                    BinaryOp::Add => Instruction::ADD,
                    BinaryOp::And => Instruction::MUL,
                    BinaryOp::Sub => Instruction::SUB,
                    BinaryOp::Mul => Instruction::MUL,
                    BinaryOp::Div => Instruction::DIV,
                    BinaryOp::Eq => Instruction::EQ,
                    BinaryOp::Ne => Instruction::NE,
                    BinaryOp::Gt => Instruction::GT,
                    BinaryOp::Ge => Instruction::GE,
                    BinaryOp::Lt => Instruction::LT,
                    BinaryOp::Le => Instruction::LE,
                    BinaryOp::Mod => Instruction::MOD,
                    _ => {
                        return Err(Halt::Unsupported);
                    },
                };
                self.emit(opcode);
                Ok(())
            },
            Expr::Integer(integer) => {
                let mut value = Value::new(Type::INT);
                value.set_value(*integer as i128, None, None);
                self.emit(Instruction::PUSH(value));
                Ok(())
            },
            Expr::Identifier(name) => {
                match self.lookup(name) {
                    Some(slot) => {
                        self.emit(Instruction::LOAD(slot.index));
                        self.bump()
                    },
                    None => Err(Halt::Fail(Error::with_code(4))),
                }
            },
            Expr::CallFunction(function_name, args) => {
                let ghost es = args@.map_values(|e: Expr| e@);
                assert(expr@ == SpecExpr::CallFunction(function_name@, exprs_view(args@)));
                proof {
                    lemma_exprs_view(args@);
                    assert(exprs_view(args@) =~= es);
                    assert(es.subrange(0, es.len() as int) =~= es);
                }
                assert forall|j: int| 0 <= j < args@.len() implies decreases_to!(expr => args@[j]) by {
                    assert(decreases_to!(*args => args@));
                }
                let mut k: usize = 0;
                while k < args.len()
                    invariant
                        k <= args@.len(),
                        old(self)@.bump() == Outcome::Done(st),
                        expr@ == SpecExpr::CallFunction(function_name@, es),
                        forall|j: int| 0 <= j < args@.len() ==> decreases_to!(expr => args@[j]),
                        es.len() == args@.len(),
                        forall|j: int| 0 <= j < args@.len() ==> #[trigger] es[j] == args@[j]@,
                        gen_exprs(st, es) == gen_exprs(self@, es.subrange(k as int, es.len() as int)),
                    decreases args.len() - k,
                {
                    let ghost rest = es.subrange(k as int, es.len() as int);
                    assert(rest[0] == es[k as int]);
                    assert(rest.subrange(1, rest.len() as int) =~= es.subrange(k + 1, es.len() as int));
                    assert(decreases_to!(expr => args@[k as int]));
                    let r = self.generate_expr(&args[k]);
                    if r.is_err() {
                        return r;
                    }
                    k = k + 1;
                }
                assert(es.subrange(k as int, es.len() as int) =~= Seq::<SpecExpr>::empty());
                let name_chars = chars_of_string(function_name);
                if chars_equal_str(&name_chars, "ECHO") {
                    self.emit(Instruction::CALL(function_name.clone()));
                } else {
                    let label = FunctionLabel::at(self.index, function_name.clone());
                    self.emit(Instruction::JUMP(label));
                }
                Ok(())
            },
            Expr::Char(ch) => {
                let mut value = Value::new(Type::CHAR);
                value.set_value(*ch as i128, None, None);
                self.emit(Instruction::PUSH(value));
                Ok(())
            },
            Expr::Float(text) => {
                match float_value_of(text) {
                    Some(value) => {
                        self.emit(Instruction::PUSH(value));
                        Ok(())
                    },
                    None => Err(Halt::Unsupported),
                }
            },
            Expr::String(text) => self.generate_string(text),
            _ => Err(Halt::Fail(Error::with_code(6))),
        }
    }
}


impl CodeGenerator {
    /// Generates the code of a variable declaration.
    fn generate_variable(&mut self, variable: &VaribleDecl) -> (r: Result<(), Halt>)
        ensures
            settles(gen_var(old(self)@, variable@), r, final(self)@),
    {
        if self.lookup(&variable.name).is_some() {
            return Err(Halt::Fail(Error::with_code(7)));
        }
        let b = self.bump();
        if b.is_err() {
            return b;
        }
        match &variable.init {
            Some(init) => {
                let r = self.generate_expr(init);
                if r.is_err() {
                    return r;
                }
            },
            None => {
                if let AstType::Pointer(_) = &variable.typ {
                    return Err(Halt::Unsupported);
                }
                let default_value = Value::new(Type::from(variable.typ.clone()));
                self.emit(Instruction::PUSH(default_value));
                let slot = Slot { value: default_value, index: self.index };
                self.declare(variable.name.clone(), slot);
            },
        }
        let index = self.index;
        self.emit(Instruction::STORE(index));
        Ok(())
    }

    /// Generates the code of a statement.
    fn generate_stmt(&mut self, stmt: &Stmt) -> (r: Result<(), Halt>)
        ensures
            settles(gen_stmt(old(self)@, stmt@), r, final(self)@),
        decreases stmt,
    {
        let b = self.bump();
        if b.is_err() {
            return b;
        }
        match stmt {
            Stmt::Block(block) => {
                assert(stmt@ == SpecStmt::Block(stmts_view(block.stmts@)));
                self.generate_block(block)
            },
            Stmt::Expr(expr) => self.generate_expr(expr),
            Stmt::If(_, _, _) => Err(Halt::Unsupported),
            Stmt::Return(_) => Err(Halt::Unsupported),
            Stmt::VaribleDecl(variable) => self.generate_variable(variable),
            Stmt::While(_, _) => Err(Halt::Unsupported),
            _ => Err(Halt::Fail(Error::with_code(1))),
        }
    }

    /// Generates the code of a block: its statements, first to last.
    fn generate_block(&mut self, block: &Block) -> (r: Result<(), Halt>)
        ensures
            settles(gen_stmts(old(self)@, block@), r, final(self)@),
        decreases block,
    {
        let stmts = &block.stmts;
        let ghost ss = stmts_view(stmts@);
        proof {
            lemma_stmts_view(stmts@);
            assert(ss.subrange(0, ss.len() as int) =~= ss);
        }
        assert forall|j: int| 0 <= j < stmts@.len() implies decreases_to!(block => stmts@[j]) by {
            assert(decreases_to!(*stmts => stmts@));
        }
        let mut k: usize = 0;
        while k < stmts.len()
            invariant
                k <= stmts@.len(),
                ss == stmts_view(stmts@),
                ss == block@,
                ss.len() == stmts@.len(),
                forall|j: int| 0 <= j < stmts@.len() ==> #[trigger] ss[j] == stmts@[j]@,
                forall|j: int| 0 <= j < stmts@.len() ==> decreases_to!(block => stmts@[j]),
                gen_stmts(old(self)@, ss) == gen_stmts(self@, ss.subrange(k as int, ss.len() as int)),
            decreases stmts.len() - k,
        {
            let ghost rest = ss.subrange(k as int, ss.len() as int);
            assert(rest[0] == ss[k as int]);
            assert(rest.subrange(1, rest.len() as int) =~= ss.subrange(k + 1, ss.len() as int));
            assert(decreases_to!(block => stmts@[k as int]));
            let r = self.generate_stmt(&stmts[k]);
            if r.is_err() {
                return r;
            }
            k = k + 1;
        }
        assert(ss.subrange(k as int, ss.len() as int) =~= Seq::<SpecStmt>::empty());
        Ok(())
    }

    /// Generates the code of a function: records its label, then generates its body.
    fn generate_function(&mut self, function: &FunctionDecl) -> (r: Result<(), Halt>)
        ensures
            settles(gen_function(old(self)@, function@), r, final(self)@),
    {
        self.register(&function.name);
        match &function.body {
            Some(block) => self.generate_block(block),
            None => Ok(()),
        }
    }

    fn generate_decl(&mut self, decl: &Decl) -> (r: Result<(), Halt>)
        ensures
            settles(gen_decl(old(self)@, decl@), r, final(self)@),
    {
        match decl {
            Decl::Function(function) => self.generate_function(function),
            Decl::Varible(variable) => self.generate_variable(variable),
        }
    }
}


/// A result of a whole run agrees with its outcome: the bytecode of the state
/// reached, or the error code with its message, or no translation.
spec fn run_settles(o: Outcome, r: Result<Vec<Instruction>, Halt>, s: GenState) -> bool {
    match r {
        Ok(code) => o == Outcome::Done(s) && code_view(code@) == s.code,
        Err(Halt::Fail(e)) => o == Outcome::Fail(e.code) && e.msg@ == error_message(e.code),
        Err(Halt::Unsupported) => o is Unsupported,
    }
}

impl CodeGenerator {
    /// What generating the whole program from the present state comes to.
    pub open spec fn spec_generation(&self) -> Outcome {
        gen_decls(self@, self.spec_program())
    }

    /// A copy of the bytecode produced so far.
    fn finish(&self) -> (r: Vec<Instruction>)
        ensures
            code_view(r@) == self@.code,
    {
        let mut code: Vec<Instruction> = Vec::new();
        let mut k: usize = 0;
        while k < self.bytecode.len()
            invariant
                k <= self.bytecode@.len(),
                code@.len() == k,
                forall|j: int| 0 <= j < k ==> #[trigger] code@[j]@ == self.bytecode@[j]@,
            decreases self.bytecode.len() - k,
        {
            code.push(self.bytecode[k].duplicate());
            k = k + 1;
        }
        assert(code_view(code@) =~= code_view(self.bytecode@));
        code
    }

    fn run(&mut self) -> (r: Result<Vec<Instruction>, Halt>)
        ensures
            run_settles(old(self).spec_generation(), r, final(self)@),
            final(self).spec_program() == old(self).spec_program(),
    {
        let mut decls: Vec<Decl> = Vec::new();
        std::mem::swap(&mut decls, &mut self.program.decls);
        let ghost ds = decls_view(decls@);
        assert(ds == old(self).spec_program());
        assert(ds.subrange(0, ds.len() as int) =~= ds);
        let mut k: usize = 0;
        while k < decls.len()
            invariant
                k <= decls@.len(),
                ds == decls_view(decls@),
                ds == old(self).spec_program(),
                gen_decls(old(self)@, ds) == gen_decls(self@, ds.subrange(k as int, ds.len() as int)),
            decreases decls.len() - k,
        {
            let ghost rest = ds.subrange(k as int, ds.len() as int);
            assert(rest[0] == ds[k as int]);
            assert(rest.subrange(1, rest.len() as int) =~= ds.subrange(k + 1, ds.len() as int));
            let r = self.generate_decl(&decls[k]);
            match r {
                Err(h) => {
                    std::mem::swap(&mut decls, &mut self.program.decls);
                    return Err(h);
                },
                Ok(()) => {},
            }
            k = k + 1;
        }
        assert(ds.subrange(k as int, ds.len() as int) =~= Seq::<SpecDecl>::empty());
        std::mem::swap(&mut decls, &mut self.program.decls);
        Ok(self.finish())
    }

    /// Generates the bytecode of the whole program: each declaration in order,
    /// a function by its body and a variable by its declaration. Fails with the
    /// first error met.
    pub fn generate(&mut self) -> (r: Result<Vec<Instruction>, Error>)
        requires
            !(old(self).spec_generation() is Unsupported),
        ensures
            final(self).spec_program() == old(self).spec_program(),
            old(self).spec_generation() matches Outcome::Done(s) ==> r matches Ok(code) && code_view(
                code@,
            ) == s.code && final(self)@ == s,
            old(self).spec_generation() matches Outcome::Fail(c) ==> r matches Err(e) && e.code == c
                && e.msg@ == error_message(c),
    {
        match self.run() {
            Ok(code) => Ok(code),
            Err(Halt::Fail(e)) => Err(e),
            Err(Halt::Unsupported) => {
                proof {
                    assert(false);
                }
                Err(Error::with_code(6))
            },
        }
    }

    /// Like `generate`, but answers `None` where generation has no translation
    /// for what the program holds.
    pub fn try_generate(&mut self) -> (r: Option<Result<Vec<Instruction>, Error>>)
        ensures
            final(self).spec_program() == old(self).spec_program(),
            r is None <==> old(self).spec_generation() is Unsupported,
            old(self).spec_generation() matches Outcome::Done(s) ==> r matches Some(Ok(code))
                && code_view(code@) == s.code && final(self)@ == s,
            old(self).spec_generation() matches Outcome::Fail(c) ==> r matches Some(Err(e)) && e.code
                == c && e.msg@ == error_message(c),
    {
        match self.run() {
            Ok(code) => Some(Ok(code)),
            Err(Halt::Fail(e)) => Some(Err(e)),
            Err(Halt::Unsupported) => None,
        }
    }
}

} // verus!
