pub mod keywords;
pub mod literalvalue;
pub mod operators;
pub mod spec;
pub mod symbols;
pub mod types;

use vstd::prelude::*;

use crate::chars::{char_alphabetic, char_numeric, is_alphabetic, is_alphanumeric, is_numeric, is_whitespace};
use crate::lexer::keywords::Keyword;
use crate::lexer::literalvalue::{Literal, SpecLiteral};
use crate::lexer::operators::Operator;
use crate::lexer::spec::{
    advance, advance_to, all_ascii_digits, char_at, decimal_value, digits_end, keyword_of,
    lex_from, next_token, number_end, op_token, parse_i64, spec_tokens, start, string_body,
    unescape, word_end, ws_end, LexState, SpecToken, SpecTokenType,
};
use crate::lexer::symbols::Symbol;
use crate::lexer::types::Type;
use crate::text::{chars_equal_str, chars_of, slice_chars, string_from_chars};

verus! {

/// The kind of a token.
#[derive(Debug, PartialEq)]
pub enum TokenType {
    Keyword(Keyword),
    Type(Type),
    Constant(Literal),
    Identifer(String),
    Symbol(Symbol),
    Operater(Operator),
    /// The end of the source.
    EOF,
}

impl View for TokenType {
    type V = SpecTokenType;

    open spec fn view(&self) -> SpecTokenType {
        match self {
            TokenType::Keyword(k) => SpecTokenType::Keyword(*k),
            TokenType::Type(t) => SpecTokenType::Type(*t),
            TokenType::Constant(l) => SpecTokenType::Constant(l@),
            TokenType::Identifer(s) => SpecTokenType::Identifer(s@),
            TokenType::Symbol(y) => SpecTokenType::Symbol(*y),
            TokenType::Operater(o) => SpecTokenType::Operater(*o),
            TokenType::EOF => SpecTokenType::EOF,
        }
    }
}

impl TokenType {
    /// A copy of this token kind.
    pub fn duplicate(&self) -> (r: TokenType)
        ensures
            r == *self,
    {
        match self {
            TokenType::Keyword(k) => TokenType::Keyword(*k),
            TokenType::Type(t) => TokenType::Type(t.duplicate()),
            TokenType::Constant(l) => TokenType::Constant(l.duplicate()),
            TokenType::Identifer(s) => TokenType::Identifer(s.clone()),
            TokenType::Symbol(y) => TokenType::Symbol(*y),
            TokenType::Operater(o) => TokenType::Operater(*o),
            TokenType::EOF => TokenType::EOF,
        }
    }
}

impl Clone for TokenType {
    fn clone(&self) -> (r: TokenType)
        ensures
            r == *self,
    {
        self.duplicate()
    }
}

/// A token: its kind, and the line and column where the lexer stood once it had read it.
#[derive(Debug, PartialEq)]
pub struct Token {
    typ: TokenType,
    line: usize,
    column: usize,
}

impl View for Token {
    type V = SpecToken;

    closed spec fn view(&self) -> SpecToken {
        SpecToken { typ: self.typ@, line: self.line as int, column: self.column as int }
    }
}

impl Clone for Token {
    fn clone(&self) -> (r: Token)
        ensures
            r@ == self@,
    {
        Token { typ: self.typ.duplicate(), line: self.line, column: self.column }
    }
}

impl Token {
    pub fn get_token_type(&self) -> (r: TokenType)
        ensures
            r@ == self@.typ,
    {
        self.typ.duplicate()
    }

    pub fn get_line(&self) -> (r: usize)
        ensures
            r as int == self@.line,
    {
        self.line
    }

    pub fn get_column(&self) -> (r: usize)
        ensures
            r as int == self@.column,
    {
        self.column
    }
}

/// The views of a list of tokens.
pub open spec fn token_views(ts: Seq<Token>) -> Seq<SpecToken> {
    ts.map_values(|t: Token| t@)
}

/// A lexer over the characters of a source.
#[derive(Debug, Clone, PartialEq)]
pub struct Lexer {
    source: Vec<char>,
    position: usize,
    current: char,
    line: usize,
    column: usize,
}

proof fn lemma_advance_to(s: Seq<char>, st: LexState, q: int)
    requires
        st.pos <= q,
        1 <= st.line <= st.pos + 1,
        1 <= st.column <= st.pos + 1,
    ensures
        advance_to(s, st, q).pos == q,
        1 <= advance_to(s, st, q).line <= q + 1,
        1 <= advance_to(s, st, q).column <= q + 1,
    decreases q - st.pos,
{
    if st.pos < q {
        lemma_advance_to(s, advance(s, st), q);
    }
}

proof fn lemma_advance_to_trans(s: Seq<char>, st: LexState, q1: int, q2: int)
    requires
        st.pos <= q1 <= q2,
    ensures
        advance_to(s, advance_to(s, st, q1), q2) == advance_to(s, st, q2),
    decreases q1 - st.pos,
{
    if st.pos < q1 {
        lemma_advance_to_trans(s, advance(s, st), q1, q2);
    }
}

proof fn lemma_ws_end(s: Seq<char>, p: int)
    ensures
        p <= ws_end(s, p),
        ws_end(s, p) <= p || ws_end(s, p) <= s.len(),
    decreases s.len() - p,
{
    if p < s.len() && crate::chars::spec_is_whitespace(char_at(s, p)) {
        lemma_ws_end(s, p + 1);
    }
}

proof fn lemma_advance_to_step(s: Seq<char>, st: LexState, q: int)
    requires
        st.pos <= q,
    ensures
        advance_to(s, st, q + 1) == advance(s, advance_to(s, st, q)),
    decreases q - st.pos,
{
    if st.pos < q {
        lemma_advance_to_step(s, advance(s, st), q);
    } else {
        reveal_with_fuel(advance_to, 2);
        assert(advance(s, st).pos == q + 1);
    }
}

/// The character that a backslash followed by `c` stands for.
fn unescape_char(c: char) -> (r: char)
    ensures
        r == unescape(c),
{
    match c {
        'n' => '\n',
        't' => '\t',
        'r' => '\r',
        '0' => '\0',
        _ => c,
    }
}

pub proof fn lemma_decimal_nonneg(t: Seq<char>)
    requires
        all_ascii_digits(t),
    ensures
        decimal_value(t) >= 0,
    decreases t.len(),
{
    if t.len() > 0 {
        assert(all_ascii_digits(t.drop_last())) by {
            assert forall|i: int| 0 <= i < t.drop_last().len() implies '0' <= #[trigger] t.drop_last()[i] && t.drop_last()[i] <= '9' by {
                assert(t.drop_last()[i] == t[i]);
            }
        }
        lemma_decimal_nonneg(t.drop_last());
        assert('0' <= t[t.len() - 1]);
    }
}

pub proof fn lemma_decimal_prefix(t: Seq<char>, k: int)
    requires
        all_ascii_digits(t),
        0 <= k <= t.len(),
    ensures
        decimal_value(t.take(k)) <= decimal_value(t),
    decreases t.len() - k,
{
    if k < t.len() {
        let u = t.take(k + 1);
        assert(all_ascii_digits(u)) by {
            assert forall|i: int| 0 <= i < u.len() implies '0' <= #[trigger] u[i] && u[i] <= '9' by {
                assert(u[i] == t[i]);
            }
        }
        assert(u.drop_last() =~= t.take(k));
        lemma_decimal_nonneg(t.take(k));
        assert('0' <= u[u.len() - 1]);
        lemma_decimal_prefix(t, k + 1);
    } else {
        assert(t.take(k) =~= t);
    }
}

/// The integer of a number text, as `parse_i64` says.
fn parse_i64_chars(t: &Vec<char>) -> (r: i64)
    ensures
        r == parse_i64(t@),
{
    if t.len() == 0 {
        return 0;
    }
    let mut v: i64 = 0;
    let mut k: usize = 0;
    assert(t@.take(0) =~= Seq::<char>::empty());
    while k < t.len()
        invariant
            k <= t@.len(),
            t@.len() > 0,
            all_ascii_digits(t@.take(k as int)),
            v as int == decimal_value(t@.take(k as int)),
            0 <= v,
        decreases t.len() - k,
    {
        let c = t[k];
        if c < '0' || c > '9' {
            assert(!all_ascii_digits(t@)) by {
                assert(t@[k as int] == c);
            }
            return 0;
        }
        let d: i64 = (c as u32 - 48) as i64;
        let ghost u = t@.take(k + 1);
        assert(u.drop_last() =~= t@.take(k as int));
        assert(u.last() == c);
        assert(all_ascii_digits(u)) by {
            assert forall|i: int| 0 <= i < u.len() implies '0' <= #[trigger] u[i] && u[i] <= '9' by {
                if i < k {
                    assert(u[i] == t@.take(k as int)[i]);
                }
            }
        }
        if v > (i64::MAX - d) / 10 {
            proof {
                assert(v * 10 + d > i64::MAX) by (nonlinear_arith)
                    requires
                        v > (i64::MAX - d) / 10,
                        0 <= d <= 9,
                ;
                if all_ascii_digits(t@) {
                    lemma_decimal_prefix(t@, k + 1);
                }
            }
            return 0;
        }
        assert(v * 10 + d <= i64::MAX) by (nonlinear_arith)
            requires
                v <= (i64::MAX - d) / 10,
                0 <= d <= 9,
                0 <= v,
        ;
        v = v * 10 + d;
        k = k + 1;
    }
    assert(t@.take(t@.len() as int) =~= t@);
    v
}

impl Lexer {
    /// The source characters.
    pub closed spec fn spec_source(&self) -> Seq<char> {
        self.source@
    }

    /// Where the lexer stands.
    pub closed spec fn spec_state(&self) -> LexState {
        LexState { pos: self.position as int, line: self.line as int, column: self.column as int }
    }

    /// The current character is the one at the position; the position is at most
    /// a few steps past the end; line and column are counted from 1 and cannot
    /// exceed the number of characters read; the counters cannot overflow.
    pub closed spec fn wf(&self) -> bool {
        &&& self.current == char_at(self.source@, self.position as int)
        &&& self.position <= self.source@.len() + 4
        &&& 1 <= self.line <= self.position + 1
        &&& 1 <= self.column <= self.position + 1
        &&& self.source@.len() + 8 <= usize::MAX
    }

    /// A lexer at the first character of the source, on line 1, column 1.
    pub fn new(source: &str) -> (r: Self)
        requires
            source@.len() + 8 <= usize::MAX,
        ensures
            r.wf(),
            r.spec_source() == source@,
            r.spec_state() == start(),
    {
        let chars = chars_of(source);
        let first = if chars.len() > 0 {
            chars[0]
        } else {
            '\0'
        };
        Self { source: chars, position: 0, current: first, line: 1, column: 1 }
    }

    /// Moves one character forward (`advance`).
    fn go_to_next(&mut self)
        requires
            old(self).wf(),
            old(self).position <= old(self).source@.len() + 3,
        ensures
            final(self).wf(),
            final(self).spec_source() == old(self).spec_source(),
            final(self).spec_state() == advance(old(self).spec_source(), old(self).spec_state()),
    {
        if self.current == '\n' {
            self.line = self.line + 1;
            self.column = 1;
        } else {
            self.column = self.column + 1;
        }
        self.position = self.position + 1;
        self.current = if self.position < self.source.len() {
            self.source[self.position]
        } else {
            '\0'
        };
    }

    fn generate_token(&self, typ: TokenType) -> (r: Token)
        ensures
            r@ == (SpecToken {
                typ: typ@,
                line: self.spec_state().line,
                column: self.spec_state().column,
            }),
    {
        Token { typ: typ, line: self.line, column: self.column }
    }

    /// The character after the current one (`'\0'` past the end).
    fn peek(&self) -> (r: char)
        requires
            self.wf(),
        ensures
            r == char_at(self.spec_source(), self.spec_state().pos + 1),
    {
        if self.position + 1 < self.source.len() {
            self.source[self.position + 1]
        } else {
            '\0'
        }
    }

    /// Moves forward to index `q`.
    fn go_to(&mut self, q: usize)
        requires
            old(self).wf(),
            old(self).position <= q <= old(self).source@.len() + 4,
        ensures
            final(self).wf(),
            final(self).spec_source() == old(self).spec_source(),
            final(self).spec_state() == advance_to(
                old(self).spec_source(),
                old(self).spec_state(),
                q as int,
            ),
    {
        while self.position < q
            invariant
                self.wf(),
                self.spec_source() == old(self).spec_source(),
                old(self).position <= self.position <= q <= self.source@.len() + 4,
                advance_to(self.spec_source(), old(self).spec_state(), q as int) == advance_to(
                    self.spec_source(),
                    self.spec_state(),
                    q as int,
                ),
            decreases q - self.position,
        {
            let ghost here = self.spec_state();
            self.go_to_next();
            proof {
                lemma_advance_to(self.spec_source(), here, q as int);
                assert(advance_to(self.spec_source(), here, q as int) == advance_to(
                    self.spec_source(),
                    advance(self.spec_source(), here),
                    q as int,
                ));
            }
        }
    }

    fn skip_whitespace(&mut self)
        requires
            old(self).wf(),
        ensures
            final(self).wf(),
            final(self).spec_source() == old(self).spec_source(),
            final(self).spec_state() == advance_to(
                old(self).spec_source(),
                old(self).spec_state(),
                ws_end(old(self).spec_source(), old(self).spec_state().pos),
            ),
    {
        let ghost s = self.spec_source();
        let ghost st = self.spec_state();
        while self.position < self.source.len() && is_whitespace(self.current)
            invariant
                self.wf(),
                self.spec_source() == s,
                st.pos <= self.position,
                ws_end(s, st.pos) == ws_end(s, self.position as int),
                advance_to(s, st, self.position as int) == self.spec_state(),
            decreases self.source.len() - self.position,
        {
            let ghost here = self.spec_state();
            self.go_to_next();
            proof {
                lemma_advance_to_step(s, st, here.pos);
            }
        }
    }

    /// Reads a word starting at the current character: a type name, a keyword or
    /// an identifier (`keyword_of`).
    fn read_word(&mut self) -> (r: TokenType)
        requires
            old(self).wf(),
            old(self).position < old(self).source@.len(),
            crate::chars::is_word_char(old(self).current),
        ensures
            final(self).wf(),
            final(self).spec_source() == old(self).spec_source(),
            final(self).position > old(self).position,
            r@ == keyword_of(
                old(self).spec_source().subrange(
                    old(self).position as int,
                    word_end(old(self).spec_source(), old(self).position as int),
                ),
            ),
            final(self).spec_state() == advance_to(
                old(self).spec_source(),
                old(self).spec_state(),
                word_end(old(self).spec_source(), old(self).position as int),
            ),
    {
        let ghost s = self.spec_source();
        let ghost st = self.spec_state();
        let start = self.position;
        while self.position < self.source.len() && (is_alphanumeric(self.current)
            || self.current == '_')
            invariant
                self.wf(),
                self.spec_source() == s,
                start <= self.position <= s.len(),
                st.pos == start,
                word_end(s, start as int) == word_end(s, self.position as int),
                advance_to(s, st, self.position as int) == self.spec_state(),
            decreases self.source.len() - self.position,
        {
            let ghost here = self.spec_state();
            self.go_to_next();
            proof {
                lemma_advance_to_step(s, st, here.pos);
            }
        }
        proof {
            if self.position == start {
                assert(word_end(s, start as int) > start);
            }
        }
        let word = slice_chars(&self.source, start, self.position);
        if chars_equal_str(&word, "int") {
            TokenType::Type(Type::Int)
        } else if chars_equal_str(&word, "char") {
            TokenType::Type(Type::Char)
        } else if chars_equal_str(&word, "float") {
            TokenType::Type(Type::Float)
        } else if chars_equal_str(&word, "double") {
            TokenType::Type(Type::Double)
        } else if chars_equal_str(&word, "short") {
            TokenType::Type(Type::Short)
        } else if chars_equal_str(&word, "long") {
            TokenType::Type(Type::Long)
        } else if chars_equal_str(&word, "void") {
            TokenType::Type(Type::Noreturn)
        } else if chars_equal_str(&word, "Noreturn") {
            TokenType::Type(Type::Noreturn)
        } else if chars_equal_str(&word, "if") {
            TokenType::Keyword(Keyword::If)
        } else if chars_equal_str(&word, "else") {
            TokenType::Keyword(Keyword::Else)
        } else if chars_equal_str(&word, "for") {
            TokenType::Keyword(Keyword::For)
        } else if chars_equal_str(&word, "while") {
            TokenType::Keyword(Keyword::While)
        } else if chars_equal_str(&word, "do") {
            TokenType::Keyword(Keyword::Do)
        } else if chars_equal_str(&word, "return") {
            TokenType::Keyword(Keyword::Return)
        } else if chars_equal_str(&word, "break") {
            TokenType::Keyword(Keyword::Break)
        } else if chars_equal_str(&word, "continue") {
            TokenType::Keyword(Keyword::Continue)
        } else if chars_equal_str(&word, "switch") {
            TokenType::Keyword(Keyword::Switch)
        } else if chars_equal_str(&word, "case") {
            TokenType::Keyword(Keyword::Case)
        } else if chars_equal_str(&word, "default") {
            TokenType::Keyword(Keyword::Default)
        } else if chars_equal_str(&word, "goto") {
            TokenType::Keyword(Keyword::Goto)
        } else if chars_equal_str(&word, "sizeof") {
            TokenType::Keyword(Keyword::Sizeof)
        } else if chars_equal_str(&word, "function") {
            TokenType::Keyword(Keyword::Function)
        } else {
            TokenType::Identifer(string_from_chars(&word))
        }
    }

    /// Moves past the number characters from the current one.
    fn skip_digits(&mut self)
        requires
            old(self).wf(),
            old(self).position <= old(self).source@.len(),
        ensures
            final(self).wf(),
            final(self).spec_source() == old(self).spec_source(),
            final(self).position as int == digits_end(
                old(self).spec_source(),
                old(self).position as int,
            ),
            final(self).position <= final(self).source@.len(),
            old(self).position < old(self).source@.len() && char_numeric(old(self).current)
                ==> final(self).position > old(self).position,
            final(self).position >= old(self).position,
            final(self).spec_state() == advance_to(
                old(self).spec_source(),
                old(self).spec_state(),
                final(self).position as int,
            ),
    {
        let ghost s = self.spec_source();
        let ghost st = self.spec_state();
        while self.position < self.source.len() && is_numeric(self.current)
            invariant
                self.wf(),
                self.spec_source() == s,
                st.pos <= self.position <= s.len(),
                digits_end(s, st.pos) == digits_end(s, self.position as int),
                advance_to(s, st, self.position as int) == self.spec_state(),
            decreases self.source.len() - self.position,
        {
            let ghost here = self.spec_state();
            self.go_to_next();
            proof {
                lemma_advance_to_step(s, st, here.pos);
            }
        }
    }

    /// Reads a decimal number: an integer, or, when a point and a digit follow the
    /// digits, a floating constant kept as its text (`number_end`).
    fn read_number(&mut self) -> (r: TokenType)
        requires
            old(self).wf(),
            old(self).position < old(self).source@.len(),
            char_numeric(old(self).current),
        ensures
            final(self).wf(),
            final(self).spec_source() == old(self).spec_source(),
            final(self).position > old(self).position,
            ({
                let s = old(self).spec_source();
                let p0 = old(self).position as int;
                let (q, is_float) = number_end(s, p0);
                &&& r@ == (if is_float {
                    SpecTokenType::Constant(SpecLiteral::Float(s.subrange(p0, q)))
                } else {
                    SpecTokenType::Constant(SpecLiteral::Interage(parse_i64(s.subrange(p0, q))))
                })
                &&& final(self).spec_state() == advance_to(s, old(self).spec_state(), q)
            }),
    {
        let ghost s = self.spec_source();
        let ghost st = self.spec_state();
        let start = self.position;
        let mut is_float = false;
        self.skip_digits();
        let ghost q1 = self.position as int;
        assert(q1 > start);
        if self.current == '.' && is_numeric(self.peek()) {
            is_float = true;
            let ghost here = self.spec_state();
            self.go_to_next();
            proof {
                lemma_advance_to_step(s, st, here.pos);
            }
            let ghost mid = self.spec_state();
            self.skip_digits();
            proof {
                lemma_advance_to_trans(s, st, mid.pos, self.position as int);
            }
        }
        let text = slice_chars(&self.source, start, self.position);
        if is_float {
            TokenType::Constant(Literal::Float(string_from_chars(&text)))
        } else {
            TokenType::Constant(Literal::Interage(parse_i64_chars(&text)))
        }
    }

    /// Reads a string literal; the current character is its opening `"`. Escapes are
    /// replaced (`unescape`); the literal ends at the next `"` or at the end.
    fn read_string(&mut self) -> (r: TokenType)
        requires
            old(self).wf(),
            old(self).position < old(self).source@.len(),
            old(self).current == '"',
        ensures
            final(self).wf(),
            final(self).spec_source() == old(self).spec_source(),
            final(self).position > old(self).position,
            ({
                let s = old(self).spec_source();
                let (body, q) = string_body(s, old(self).position + 1);
                &&& r@ == SpecTokenType::Constant(SpecLiteral::String(body))
                &&& final(self).spec_state() == advance_to(s, old(self).spec_state(), q + 1)
            }),
    {
        let ghost s = self.spec_source();
        let ghost st = self.spec_state();
        let ghost p0 = st.pos;
        self.go_to_next();
        proof {
            reveal_with_fuel(advance_to, 2);
        }
        let mut result: Vec<char> = Vec::new();
        assert(string_body(s, p0 + 1) == (result@ + string_body(s, p0 + 1).0, string_body(
            s,
            p0 + 1,
        ).1));
        while self.current != '"' && self.current != '\0'
            invariant
                self.wf(),
                self.spec_source() == s,
                p0 + 1 <= self.position <= s.len() + 1,
                st.pos == p0,
                string_body(s, p0 + 1) == (result@ + string_body(s, self.position as int).0,
                string_body(s, self.position as int).1),
                advance_to(s, st, self.position as int) == self.spec_state(),
            decreases s.len() + 2 - self.position,
        {
            let ghost here = self.spec_state();
            let ghost before = result@;
            if self.current == '\\' {
                self.go_to_next();
                proof {
                    lemma_advance_to_step(s, st, here.pos);
                }
                result.push(unescape_char(self.current));
            } else {
                result.push(self.current);
            }
            let ghost mid = self.spec_state();
            self.go_to_next();
            proof {
                lemma_advance_to_step(s, st, mid.pos);
                let rest = string_body(s, self.position as int);
                assert(before + (seq![result@.last()] + rest.0) =~= result@ + rest.0);
            }
        }
        let ghost last = self.spec_state();
        self.go_to_next();
        proof {
            lemma_advance_to_step(s, st, last.pos);
            assert(result@ + Seq::<char>::empty() =~= result@);
        }
        TokenType::Constant(Literal::String(string_from_chars(&result)))
    }

    /// Reads a character literal; the current character is its opening `'`. The
    /// lexer moves past the character (or escape) and one more character.
    fn read_char(&mut self) -> (r: TokenType)
        requires
            old(self).wf(),
            old(self).position < old(self).source@.len(),
            old(self).current == '\'',
        ensures
            final(self).wf(),
            final(self).spec_source() == old(self).spec_source(),
            final(self).position > old(self).position,
            ({
                let s = old(self).spec_source();
                let p0 = old(self).position as int;
                let c1 = char_at(s, p0 + 1);
                if c1 == '\\' {
                    &&& r@ == SpecTokenType::Constant(SpecLiteral::Char(unescape(char_at(s, p0 + 2))))
                    &&& final(self).spec_state() == advance_to(s, old(self).spec_state(), p0 + 4)
                } else {
                    &&& r@ == SpecTokenType::Constant(SpecLiteral::Char(c1))
                    &&& final(self).spec_state() == advance_to(s, old(self).spec_state(), p0 + 3)
                }
            }),
    {
        let ghost s = self.spec_source();
        let ghost st = self.spec_state();
        self.go_to_next();
        proof {
            lemma_advance_to_step(s, st, st.pos);
            reveal_with_fuel(advance_to, 1);
        }
        let ch = if self.current == '\\' {
            let ghost h = self.spec_state();
            self.go_to_next();
            proof {
                lemma_advance_to_step(s, st, h.pos);
            }
            unescape_char(self.current)
        } else {
            self.current
        };
        let ghost h1 = self.spec_state();
        self.go_to_next();
        proof {
            lemma_advance_to_step(s, st, h1.pos);
        }
        let ghost h2 = self.spec_state();
        self.go_to_next();
        proof {
            lemma_advance_to_step(s, st, h2.pos);
        }
        TokenType::Constant(Literal::Char(ch))
    }


    /// One step forward, within two characters of `p0`, keeping the state equal to
    /// `advance_to` from where the lexer stood at `p0`.
    fn step_within(&mut self, Ghost(p0): Ghost<LexState>)
        requires
            old(self).wf(),
            p0.pos <= old(self).position <= p0.pos + 1,
            p0.pos < old(self).source@.len(),
            old(self).spec_state() == advance_to(old(self).spec_source(), p0, old(self).position as int),
        ensures
            final(self).wf(),
            final(self).spec_source() == old(self).spec_source(),
            final(self).position == old(self).position + 1,
            final(self).spec_state() == advance_to(final(self).spec_source(), p0, final(self).position as int),
    {
        let ghost here = self.spec_state();
        self.go_to_next();
        proof {
            lemma_advance_to_step(self.spec_source(), p0, here.pos);
        }
    }

    /// Whether `c` starts an operator or a symbol, whatever follows it.
    fn starts_operator(c: char) -> (r: bool)
        ensures
            forall|n: char| r == (op_token(c, n) is Some),
    {
        match c {
            '+' | '-' | '*' | '/' | '%' | '=' | '!' | '<' | '>' | '&' | '|' | '.' | '^' | '~' | '('
            | ')' | '{' | '}' | '[' | ']' | ';' | ',' | ':' => true,
            _ => false,
        }
    }

    /// Reads an operator or a symbol (`op_token`); the current character must
    /// start one.
    fn read_operator_or_symbol(&mut self) -> (r: TokenType)
        requires
            old(self).wf(),
            old(self).position < old(self).source@.len(),
            op_token(old(self).current, char_at(old(self).spec_source(), old(self).position + 1)) is Some,
        ensures
            final(self).wf(),
            final(self).spec_source() == old(self).spec_source(),
            ({
                let s = old(self).spec_source();
                let p0 = old(self).position as int;
                op_token(old(self).current, char_at(s, p0 + 1)) matches Some((t, n)) && {
                    &&& r@ == t
                    &&& final(self).spec_state() == advance_to(s, old(self).spec_state(), p0 + n)
                    &&& final(self).position > old(self).position
                }
            }),
    {
        let ghost p0 = self.spec_state();
        proof {
            reveal_with_fuel(advance_to, 1);
        }
        let ch = self.current;
        match ch {
            '+' => {
                self.step_within(Ghost(p0));
                match self.current {
                    '+' => {
                        self.step_within(Ghost(p0));
                        TokenType::Operater(Operator::PlusPlus)
                    },
                    '=' => {
                        self.step_within(Ghost(p0));
                        TokenType::Operater(Operator::PlusAssign)
                    },
                    _ => TokenType::Operater(Operator::Plus),
                }
            },
            '-' => {
                self.step_within(Ghost(p0));
                match self.current {
                    '-' => {
                        self.step_within(Ghost(p0));
                        TokenType::Operater(Operator::MinusMinus)
                    },
                    '=' => {
                        self.step_within(Ghost(p0));
                        TokenType::Operater(Operator::MinusAssign)
                    },
                    '>' => {
                        self.step_within(Ghost(p0));
                        TokenType::Operater(Operator::Arrow)
                    },
                    _ => TokenType::Operater(Operator::Minus),
                }
            },
            '*' => {
                self.step_within(Ghost(p0));
                match self.current {
                    '=' => {
                        self.step_within(Ghost(p0));
                        TokenType::Operater(Operator::StarAssign)
                    },
                    _ => TokenType::Operater(Operator::Star),
                }
            },
            '/' => {
                self.step_within(Ghost(p0));
                match self.current {
                    '=' => {
                        self.step_within(Ghost(p0));
                        TokenType::Operater(Operator::SlashAssign)
                    },
                    _ => TokenType::Operater(Operator::Slash),
                }
            },
            '%' => {
                self.step_within(Ghost(p0));
                match self.current {
                    '=' => {
                        self.step_within(Ghost(p0));
                        TokenType::Operater(Operator::PercentAssign)
                    },
                    _ => TokenType::Operater(Operator::Percent),
                }
            },
            '=' => {
                self.step_within(Ghost(p0));
                match self.current {
                    '=' => {
                        self.step_within(Ghost(p0));
                        TokenType::Operater(Operator::Eq)
                    },
                    _ => TokenType::Operater(Operator::Assign),
                }
            },
            '!' => {
                self.step_within(Ghost(p0));
                match self.current {
                    '=' => {
                        self.step_within(Ghost(p0));
                        TokenType::Operater(Operator::Neq)
                    },
                    _ => TokenType::Operater(Operator::LogicNot),
                }
            },
            '<' => {
                self.step_within(Ghost(p0));
                match self.current {
                    '=' => {
                        self.step_within(Ghost(p0));
                        TokenType::Operater(Operator::Le)
                    },
                    '<' => {
                        self.step_within(Ghost(p0));
                        TokenType::Operater(Operator::Shl)
                    },
                    _ => TokenType::Operater(Operator::Lt),
                }
            },
            '>' => {
                self.step_within(Ghost(p0));
                match self.current {
                    '=' => {
                        self.step_within(Ghost(p0));
                        TokenType::Operater(Operator::Ge)
                    },
                    '>' => {
                        self.step_within(Ghost(p0));
                        TokenType::Operater(Operator::Shr)
                    },
                    _ => TokenType::Operater(Operator::Gt),
                }
            },
            '&' => {
                self.step_within(Ghost(p0));
                match self.current {
                    '&' => {
                        self.step_within(Ghost(p0));
                        TokenType::Operater(Operator::LogicAnd)
                    },
                    _ => TokenType::Operater(Operator::And),
                }
            },
            '|' => {
                self.step_within(Ghost(p0));
                match self.current {
                    '|' => {
                        self.step_within(Ghost(p0));
                        TokenType::Operater(Operator::LogicOr)
                    },
                    _ => TokenType::Operater(Operator::Or),
                }
            },
            '.' => {
                self.step_within(Ghost(p0));
                TokenType::Operater(Operator::Dot)
            },
            '^' => {
                self.step_within(Ghost(p0));
                match self.current {
                    '=' => {
                        self.step_within(Ghost(p0));
                        TokenType::Operater(Operator::XorAssign)
                    },
                    _ => TokenType::Operater(Operator::Xor),
                }
            },
            '~' => {
                self.step_within(Ghost(p0));
                TokenType::Operater(Operator::Tilde)
            },
            '(' => {
                self.step_within(Ghost(p0));
                TokenType::Symbol(Symbol::LParen)
            },
            ')' => {
                self.step_within(Ghost(p0));
                TokenType::Symbol(Symbol::RParen)
            },
            '{' => {
                self.step_within(Ghost(p0));
                TokenType::Symbol(Symbol::LBrace)
            },
            '}' => {
                self.step_within(Ghost(p0));
                TokenType::Symbol(Symbol::RBrace)
            },
            '[' => {
                self.step_within(Ghost(p0));
                TokenType::Symbol(Symbol::LBracket)
            },
            ']' => {
                self.step_within(Ghost(p0));
                TokenType::Symbol(Symbol::RBracket)
            },
            ';' => {
                self.step_within(Ghost(p0));
                TokenType::Symbol(Symbol::Semicolon)
            },
            ',' => {
                self.step_within(Ghost(p0));
                TokenType::Symbol(Symbol::Comma)
            },
            ':' => {
                self.step_within(Ghost(p0));
                TokenType::Symbol(Symbol::Colon)
            },
            _ => vstd::pervasive::unreached(),
        }
    }


    /// Reads the next token after whitespace (`next_token`); `None` when the next
    /// character starts no token.
    pub fn try_next_token(&mut self) -> (r: Option<Token>)
        requires
            old(self).wf(),
        ensures
            final(self).wf(),
            final(self).spec_source() == old(self).spec_source(),
            match next_token(old(self).spec_source(), old(self).spec_state()) {
                Some((t, st2)) => {
                    &&& r matches Some(tok) && tok@ == (SpecToken {
                        typ: t,
                        line: st2.line,
                        column: st2.column,
                    })
                    &&& final(self).spec_state() == st2
                    &&& !(t is EOF) ==> final(self).spec_state().pos > old(self).spec_state().pos
                },
                None => r is None,
            },
    {
        let ghost s = self.spec_source();
        let ghost st = self.spec_state();
        self.skip_whitespace();
        let ghost st0 = self.spec_state();
        proof {
            lemma_ws_end(s, st.pos);
            lemma_advance_to(s, st, ws_end(s, st.pos));
        }
        let typ = if self.current == '\0' {
            TokenType::EOF
        } else if is_alphabetic(self.current) || self.current == '_' {
            self.read_word()
        } else if is_numeric(self.current) {
            self.read_number()
        } else if self.current == '"' {
            self.read_string()
        } else if self.current == '\'' {
            self.read_char()
        } else if Self::starts_operator(self.current) {
            self.read_operator_or_symbol()
        } else {
            return None;
        };
        Some(self.generate_token(typ))
    }

    /// Reads the next token after whitespace (`next_token`). The next character
    /// must start a token.
    pub fn get_next_token(&mut self) -> (r: Token)
        requires
            old(self).wf(),
            next_token(old(self).spec_source(), old(self).spec_state()) is Some,
        ensures
            final(self).wf(),
            final(self).spec_source() == old(self).spec_source(),
            next_token(old(self).spec_source(), old(self).spec_state()) matches Some((t, st2))
                && r@ == (SpecToken { typ: t, line: st2.line, column: st2.column })
                && final(self).spec_state() == st2,
    {
        match self.try_next_token() {
            Some(t) => t,
            None => vstd::pervasive::unreached(),
        }
    }

}

/// Joins a known first part of the tokens to the rest, if there is one.
pub open spec fn opt_concat(a: Seq<SpecToken>, o: Option<Seq<SpecToken>>) -> Option<Seq<SpecToken>> {
    match o {
        Some(x) => Some(a + x),
        None => None,
    }
}

/// All tokens from where the lexer stands, up to and including the end-of-file
/// token (`lex_from`); `None` when some character starts no token.
pub fn try_get_tokens(lexer: &mut Lexer) -> (r: Option<Vec<Token>>)
    requires
        old(lexer).wf(),
    ensures
        final(lexer).wf(),
        match lex_from(old(lexer).spec_source(), old(lexer).spec_state()) {
            Some(ts) => r matches Some(v) && token_views(v@) == ts,
            None => r is None,
        },
{
    let ghost s = lexer.spec_source();
    let ghost st = lexer.spec_state();
    let mut tokens: Vec<Token> = Vec::new();
    assert(token_views(tokens@) =~= Seq::<SpecToken>::empty());
    proof {
        if let Some(x) = lex_from(s, st) {
            assert(Seq::<SpecToken>::empty() + x =~= x);
        }
    }
    loop
        invariant
            lexer.wf(),
            lexer.spec_source() == s,
            s == old(lexer).spec_source(),
            st == old(lexer).spec_state(),
            lex_from(s, st) == opt_concat(token_views(tokens@), lex_from(s, lexer.spec_state())),
        decreases s.len() + 5 - lexer.spec_state().pos,
    {
        let ghost here = lexer.spec_state();
        let ghost before = token_views(tokens@);
        match lexer.try_next_token() {
            None => {
                return None;
            },
            Some(token) => {
                let eof = match &token.typ {
                    TokenType::EOF => true,
                    _ => false,
                };
                let ghost tv = token@;
                tokens.push(token);
                assert(token_views(tokens@) =~= before.push(tv));
                if eof {
                    assert(before + seq![tv] =~= token_views(tokens@));
                    return Some(tokens);
                }
                proof {
                    if let Some(x) = lex_from(s, lexer.spec_state()) {
                        assert(before + (seq![tv] + x) =~= token_views(tokens@) + x);
                    }
                }
            },
        }
    }
}

/// All tokens from where the lexer stands, up to and including the end-of-file
/// token (`lex_from`). Every character must start a token.
pub fn get_tokens(lexer: &mut Lexer) -> (r: Result<Vec<Token>, ()>)
    requires
        old(lexer).wf(),
        lex_from(old(lexer).spec_source(), old(lexer).spec_state()) is Some,
    ensures
        final(lexer).wf(),
        r matches Ok(v) && Some(token_views(v@)) == lex_from(
            old(lexer).spec_source(),
            old(lexer).spec_state(),
        ),
{
    match try_get_tokens(lexer) {
        Some(v) => Ok(v),
        None => vstd::pervasive::unreached(),
    }
}

} // verus!
