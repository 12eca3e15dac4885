//! What the lexer computes, stated over the characters of the source.
use vstd::prelude::*;

use crate::chars::{char_alphabetic, char_numeric, is_word_char, spec_is_whitespace};
use crate::lexer::keywords::Keyword;
use crate::lexer::literalvalue::SpecLiteral;
use crate::lexer::operators::Operator;
use crate::lexer::symbols::Symbol;
use crate::lexer::types::Type;

verus! {

/// A token kind as the contracts see it.
pub enum SpecTokenType {
    Keyword(Keyword),
    Type(Type),
    Constant(SpecLiteral),
    Identifer(Seq<char>),
    Symbol(Symbol),
    Operater(Operator),
    EOF,
}

/// A token as the contracts see it: its kind and the line and column where the
/// lexer stood once it had read it.
pub struct SpecToken {
    pub typ: SpecTokenType,
    pub line: int,
    pub column: int,
}

/// Where the lexer stands: the index of its current character, and the line and
/// column of that character (both counted from 1).
pub struct LexState {
    pub pos: int,
    pub line: int,
    pub column: int,
}

/// The character at `p`, or `'\0'` past either end.
pub open spec fn char_at(s: Seq<char>, p: int) -> char {
    if 0 <= p < s.len() {
        s[p]
    } else {
        '\0'
    }
}

/// One step forward: past a newline the line grows and the column is 1 again,
/// past another character the column grows.
pub open spec fn advance(s: Seq<char>, st: LexState) -> LexState {
    if char_at(s, st.pos) == '\n' {
        LexState { pos: st.pos + 1, line: st.line + 1, column: 1 }
    } else {
        LexState { pos: st.pos + 1, line: st.line, column: st.column + 1 }
    }
}

/// Steps forward until the index is `q`.
pub open spec fn advance_to(s: Seq<char>, st: LexState, q: int) -> LexState
    decreases q - st.pos,
{
    if st.pos >= q {
        st
    } else {
        advance_to(s, advance(s, st), q)
    }
}

/// The first index at or after `p` that is past the end or not whitespace.
pub open spec fn ws_end(s: Seq<char>, p: int) -> int
    decreases s.len() - p,
{
    if p < s.len() && spec_is_whitespace(char_at(s, p)) {
        ws_end(s, p + 1)
    } else {
        p
    }
}

/// The first index at or after `p` that is past the end or not a letter, number or `_`.
pub open spec fn word_end(s: Seq<char>, p: int) -> int
    decreases s.len() - p,
{
    if p < s.len() && is_word_char(char_at(s, p)) {
        word_end(s, p + 1)
    } else {
        p
    }
}

/// The first index at or after `p` that is past the end or not a number character.
pub open spec fn digits_end(s: Seq<char>, p: int) -> int
    decreases s.len() - p,
{
    if p < s.len() && char_numeric(char_at(s, p)) {
        digits_end(s, p + 1)
    } else {
        p
    }
}

/// The end of a number that starts at `p`, and whether it has a fraction: digits,
/// then, when a point is followed by a digit, the point and more digits.
pub open spec fn number_end(s: Seq<char>, p: int) -> (int, bool) {
    let q1 = digits_end(s, p);
    if char_at(s, q1) == '.' && char_numeric(char_at(s, q1 + 1)) {
        (digits_end(s, q1 + 1), true)
    } else {
        (q1, false)
    }
}

/// The value of a text of ASCII digits.
pub open spec fn decimal_value(t: Seq<char>) -> int
    decreases t.len(),
{
    if t.len() == 0 {
        0
    } else {
        decimal_value(t.drop_last()) * 10 + (t.last() as int - 48)
    }
}

pub open spec fn all_ascii_digits(t: Seq<char>) -> bool {
    forall|i: int| 0 <= i < t.len() ==> '0' <= #[trigger] t[i] && t[i] <= '9'
}

/// The integer that a number text stands for, as `str::parse::<i64>().unwrap_or(0)`
/// gives it: its value when it is ASCII digits whose value fits, else 0.
pub open spec fn parse_i64(t: Seq<char>) -> i64 {
    if t.len() > 0 && all_ascii_digits(t) && decimal_value(t) <= i64::MAX {
        decimal_value(t) as i64
    } else {
        0
    }
}

/// What a backslash followed by `c` stands for inside a string or character
/// literal: `\n`, `\t`, `\r` and `\0` are control characters, any other character
/// (such as `\\`, `\"` or `\'`) stands for itself.
pub open spec fn unescape(c: char) -> char {
    if c == 'n' {
        '\n'
    } else if c == 't' {
        '\t'
    } else if c == 'r' {
        '\r'
    } else if c == '0' {
        '\0'
    } else {
        c
    }
}

/// The characters of a string literal whose body starts at `p`, and the index of
/// the `"` (or the end) that stops it.
pub open spec fn string_body(s: Seq<char>, p: int) -> (Seq<char>, int)
    decreases s.len() + 2 - p,
{
    let c = char_at(s, p);
    if c == '"' || c == '\0' {
        (Seq::empty(), p)
    } else if c == '\\' {
        let rest = string_body(s, p + 2);
        (seq![unescape(char_at(s, p + 1))] + rest.0, rest.1)
    } else {
        let rest = string_body(s, p + 1);
        (seq![c] + rest.0, rest.1)
    }
}

/// The token kind of a word: a type name, a keyword, or else an identifier.
/// (`void` and `Noreturn` both name the `Noreturn` type.)
pub open spec fn keyword_of(w: Seq<char>) -> SpecTokenType {
    if w == "int"@ {
        SpecTokenType::Type(Type::Int)
    } else if w == "char"@ {
        SpecTokenType::Type(Type::Char)
    } else if w == "float"@ {
        SpecTokenType::Type(Type::Float)
    } else if w == "double"@ {
        SpecTokenType::Type(Type::Double)
    } else if w == "short"@ {
        SpecTokenType::Type(Type::Short)
    } else if w == "long"@ {
        SpecTokenType::Type(Type::Long)
    } else if w == "void"@ {
        SpecTokenType::Type(Type::Noreturn)
    } else if w == "Noreturn"@ {
        SpecTokenType::Type(Type::Noreturn)
    } else if w == "if"@ {
        SpecTokenType::Keyword(Keyword::If)
    } else if w == "else"@ {
        SpecTokenType::Keyword(Keyword::Else)
    } else if w == "for"@ {
        SpecTokenType::Keyword(Keyword::For)
    } else if w == "while"@ {
        SpecTokenType::Keyword(Keyword::While)
    } else if w == "do"@ {
        SpecTokenType::Keyword(Keyword::Do)
    } else if w == "return"@ {
        SpecTokenType::Keyword(Keyword::Return)
    } else if w == "break"@ {
        SpecTokenType::Keyword(Keyword::Break)
    } else if w == "continue"@ {
        SpecTokenType::Keyword(Keyword::Continue)
    } else if w == "switch"@ {
        SpecTokenType::Keyword(Keyword::Switch)
    } else if w == "case"@ {
        SpecTokenType::Keyword(Keyword::Case)
    } else if w == "default"@ {
        SpecTokenType::Keyword(Keyword::Default)
    } else if w == "goto"@ {
        SpecTokenType::Keyword(Keyword::Goto)
    } else if w == "sizeof"@ {
        SpecTokenType::Keyword(Keyword::Sizeof)
    } else if w == "function"@ {
        SpecTokenType::Keyword(Keyword::Function)
    } else {
        SpecTokenType::Identifer(w)
    }
}

pub open spec fn op(o: Operator, n: int) -> Option<(SpecTokenType, int)> {
    Some((SpecTokenType::Operater(o), n))
}

pub open spec fn sym(y: Symbol) -> Option<(SpecTokenType, int)> {
    Some((SpecTokenType::Symbol(y), 1))
}

/// The operator or symbol that starts with `c`, followed by `n`, and how many
/// characters it takes; `None` for a character that starts none. Two-character
/// operators are taken whenever their second character follows.
pub open spec fn op_token(c: char, n: char) -> Option<(SpecTokenType, int)> {
    if c == '+' {
        if n == '+' { op(Operator::PlusPlus, 2) } else if n == '=' { op(Operator::PlusAssign, 2) } else { op(Operator::Plus, 1) }
    } else if c == '-' {
        if n == '-' { op(Operator::MinusMinus, 2) } else if n == '=' { op(Operator::MinusAssign, 2) } else if n == '>' { op(Operator::Arrow, 2) } else { op(Operator::Minus, 1) }
    } else if c == '*' {
        if n == '=' { op(Operator::StarAssign, 2) } else { op(Operator::Star, 1) }
    } else if c == '/' {
        if n == '=' { op(Operator::SlashAssign, 2) } else { op(Operator::Slash, 1) }
    } else if c == '%' {
        if n == '=' { op(Operator::PercentAssign, 2) } else { op(Operator::Percent, 1) }
    } else if c == '=' {
        if n == '=' { op(Operator::Eq, 2) } else { op(Operator::Assign, 1) }
    } else if c == '!' {
        if n == '=' { op(Operator::Neq, 2) } else { op(Operator::LogicNot, 1) }
    } else if c == '<' {
        if n == '=' { op(Operator::Le, 2) } else if n == '<' { op(Operator::Shl, 2) } else { op(Operator::Lt, 1) }
    } else if c == '>' {
        if n == '=' { op(Operator::Ge, 2) } else if n == '>' { op(Operator::Shr, 2) } else { op(Operator::Gt, 1) }
    } else if c == '&' {
        if n == '&' { op(Operator::LogicAnd, 2) } else { op(Operator::And, 1) }
    } else if c == '|' {
        if n == '|' { op(Operator::LogicOr, 2) } else { op(Operator::Or, 1) }
    } else if c == '.' {
        op(Operator::Dot, 1)
    } else if c == '^' {
        if n == '=' { op(Operator::XorAssign, 2) } else { op(Operator::Xor, 1) }
    } else if c == '~' {
        op(Operator::Tilde, 1)
    } else if c == '(' {
        sym(Symbol::LParen)
    } else if c == ')' {
        sym(Symbol::RParen)
    } else if c == '{' {
        sym(Symbol::LBrace)
    } else if c == '}' {
        sym(Symbol::RBrace)
    } else if c == '[' {
        sym(Symbol::LBracket)
    } else if c == ']' {
        sym(Symbol::RBracket)
    } else if c == ';' {
        sym(Symbol::Semicolon)
    } else if c == ',' {
        sym(Symbol::Comma)
    } else if c == ':' {
        sym(Symbol::Colon)
    } else {
        None
    }
}

/// The next token after whitespace, and where the lexer then stands; `None` when
/// the next character starts no token.
pub open spec fn next_token(s: Seq<char>, st: LexState) -> Option<(SpecTokenType, LexState)> {
    let p0 = ws_end(s, st.pos);
    let st0 = advance_to(s, st, p0);
    let c = char_at(s, p0);
    if c == '\0' {
        Some((SpecTokenType::EOF, st0))
    } else if char_alphabetic(c) || c == '_' {
        let q = word_end(s, p0);
        Some((keyword_of(s.subrange(p0, q)), advance_to(s, st0, q)))
    } else if char_numeric(c) {
        let (q, is_float) = number_end(s, p0);
        let text = s.subrange(p0, q);
        Some(
            (
                if is_float {
                    SpecTokenType::Constant(SpecLiteral::Float(text))
                } else {
                    SpecTokenType::Constant(SpecLiteral::Interage(parse_i64(text)))
                },
                advance_to(s, st0, q),
            ),
        )
    } else if c == '"' {
        let (body, q) = string_body(s, p0 + 1);
        Some((SpecTokenType::Constant(SpecLiteral::String(body)), advance_to(s, st0, q + 1)))
    } else if c == '\'' {
        let c1 = char_at(s, p0 + 1);
        if c1 == '\\' {
            Some(
                (
                    SpecTokenType::Constant(SpecLiteral::Char(unescape(char_at(s, p0 + 2)))),
                    advance_to(s, st0, p0 + 4),
                ),
            )
        } else {
            Some((SpecTokenType::Constant(SpecLiteral::Char(c1)), advance_to(s, st0, p0 + 3)))
        }
    } else {
        match op_token(c, char_at(s, p0 + 1)) {
            Some((t, n)) => Some((t, advance_to(s, st0, p0 + n))),
            None => None,
        }
    }
}

/// The tokens from where the lexer stands up to and including the end-of-file
/// token; `None` when some character starts no token.
pub open spec fn lex_from(s: Seq<char>, st: LexState) -> Option<Seq<SpecToken>>
    decreases s.len() + 5 - st.pos,
{
    match next_token(s, st) {
        None => None,
        Some((t, st2)) => {
            let tok = SpecToken { typ: t, line: st2.line, column: st2.column };
            if t is EOF {
                Some(seq![tok])
            } else if st.pos < st2.pos <= s.len() + 4 {
                match lex_from(s, st2) {
                    Some(rest) => Some(seq![tok] + rest),
                    None => None,
                }
            } else {
                None
            }
        },
    }
}

/// The state a lexer starts in.
pub open spec fn start() -> LexState {
    LexState { pos: 0, line: 1, column: 1 }
}

/// The tokens of a whole source, ending with the end-of-file token.
pub open spec fn spec_tokens(s: Seq<char>) -> Option<Seq<SpecToken>> {
    lex_from(s, start())
}

} // verus!

verus! {

/// The tokens of a source end with the end-of-file token, and it is the only one:
/// the lexer stops at the first end of file.
pub proof fn law_tokens_end_with_eof(s: Seq<char>, st: LexState)
    ensures
        lex_from(s, st) matches Some(ts) ==> {
            &&& ts.len() > 0
            &&& ts.last().typ is EOF
            &&& forall|i: int| 0 <= i < ts.len() - 1 ==> !(#[trigger] ts[i].typ is EOF)
        },
    decreases s.len() + 5 - st.pos,
{
    match next_token(s, st) {
        None => {},
        Some((t, st2)) => {
            if !(t is EOF) && st.pos < st2.pos <= s.len() + 4 {
                law_tokens_end_with_eof(s, st2);
                let tok = SpecToken { typ: t, line: st2.line, column: st2.column };
                if let Some(rest) = lex_from(s, st2) {
                    let ts = seq![tok] + rest;
                    assert forall|i: int| 0 <= i < ts.len() - 1 implies !(#[trigger] ts[i].typ is EOF) by {
                        if i > 0 {
                            assert(ts[i] == rest[i - 1]);
                        }
                    }
                    assert(ts.last() == rest.last());
                }
            }
        },
    }
}

} // verus!

verus! {

// ---------------------------------------------------------------- spellings

/// How each operator is written.
pub open spec fn operator_text(o: Operator) -> Seq<char> {
    match o {
        Operator::Plus => seq!['+'],
        Operator::Minus => seq!['-'],
        Operator::Star => seq!['*'],
        Operator::Slash => seq!['/'],
        Operator::Percent => seq!['%'],
        Operator::PlusPlus => seq!['+', '+'],
        Operator::MinusMinus => seq!['-', '-'],
        Operator::Assign => seq!['='],
        Operator::PlusAssign => seq!['+', '='],
        Operator::MinusAssign => seq!['-', '='],
        Operator::StarAssign => seq!['*', '='],
        Operator::SlashAssign => seq!['/', '='],
        Operator::PercentAssign => seq!['%', '='],
        Operator::XorAssign => seq!['^', '='],
        Operator::Eq => seq!['=', '='],
        Operator::Neq => seq!['!', '='],
        Operator::Lt => seq!['<'],
        Operator::Gt => seq!['>'],
        Operator::Le => seq!['<', '='],
        Operator::Ge => seq!['>', '='],
        Operator::LogicAnd => seq!['&', '&'],
        Operator::LogicOr => seq!['|', '|'],
        Operator::LogicNot => seq!['!'],
        Operator::And => seq!['&'],
        Operator::Or => seq!['|'],
        Operator::Xor => seq!['^'],
        Operator::Tilde => seq!['~'],
        Operator::Shl => seq!['<', '<'],
        Operator::Shr => seq!['>', '>'],
        Operator::Arrow => seq!['-', '>'],
        Operator::Dot => seq!['.'],
    }
}

/// How each symbol is written.
pub open spec fn symbol_char(y: Symbol) -> char {
    match y {
        Symbol::LParen => '(',
        Symbol::RParen => ')',
        Symbol::LBrace => '{',
        Symbol::RBrace => '}',
        Symbol::LBracket => '[',
        Symbol::RBracket => ']',
        Symbol::Semicolon => ';',
        Symbol::Comma => ',',
        Symbol::Colon => ':',
    }
}

/// The characters the lexer takes for an operator or symbol at `c`, `n`: the
/// text of the token it gives.
pub proof fn law_operator_token_is_its_text(c: char, n: char)
    ensures
        op_token(c, n) matches Some((SpecTokenType::Operater(o), k)) ==> seq![c, n].subrange(0, k)
            == operator_text(o),
        op_token(c, n) matches Some((SpecTokenType::Symbol(y), k)) ==> k == 1 && c == symbol_char(y),
        op_token(c, n) matches Some((t, _)) ==> t is Operater || t is Symbol,
{
    let s = seq![c, n];
    assert(s.subrange(0, 1) =~= seq![c]);
    assert(s.subrange(0, 2) =~= seq![c, n]);
}

/// Each operator's text, followed by a space, is read back as that operator,
/// taking the whole text; so different texts never give the same operator.
pub proof fn law_operator_text_is_read_back(o: Operator)
    ensures
        operator_text(o).len() == 1 ==> op_token(operator_text(o)[0], ' ') == Some(
            (SpecTokenType::Operater(o), 1int),
        ),
        operator_text(o).len() == 2 ==> op_token(operator_text(o)[0], operator_text(o)[1]) == Some(
            (SpecTokenType::Operater(o), 2int),
        ),
        1 <= operator_text(o).len() <= 2,
{
}

/// Each symbol's character is read back as that symbol.
pub proof fn law_symbol_char_is_read_back(y: Symbol, n: char)
    ensures
        op_token(symbol_char(y), n) == Some((SpecTokenType::Symbol(y), 1int)),
{
}

/// How each keyword is written.
pub open spec fn keyword_text(k: Keyword) -> Seq<char> {
    match k {
        Keyword::If => "if"@,
        Keyword::Else => "else"@,
        Keyword::For => "for"@,
        Keyword::While => "while"@,
        Keyword::Do => "do"@,
        Keyword::Return => "return"@,
        Keyword::Break => "break"@,
        Keyword::Continue => "continue"@,
        Keyword::Switch => "switch"@,
        Keyword::Case => "case"@,
        Keyword::Default => "default"@,
        Keyword::Goto => "goto"@,
        Keyword::Sizeof => "sizeof"@,
        Keyword::Struct => "struct"@,
        Keyword::Typedef => "typedef"@,
        Keyword::Function => "function"@,
    }
}

/// Whether `w` names the type `t`; `void` and `Noreturn` both name `Noreturn`.
pub open spec fn names_type(w: Seq<char>, t: Type) -> bool {
    match t {
        Type::Int => w == "int"@,
        Type::Char => w == "char"@,
        Type::Float => w == "float"@,
        Type::Double => w == "double"@,
        Type::Short => w == "short"@,
        Type::Long => w == "long"@,
        Type::Noreturn => w == "void"@ || w == "Noreturn"@,
        _ => false,
    }
}

/// A word read as a keyword is that keyword's text, a word read as a type names
/// that type, and any other word stays an identifier with its own text.
pub proof fn law_word_kind_is_its_text(w: Seq<char>)
    ensures
        keyword_of(w) matches SpecTokenType::Keyword(k) ==> w == keyword_text(k),
        keyword_of(w) matches SpecTokenType::Type(t) ==> names_type(w, t),
        keyword_of(w) matches SpecTokenType::Identifer(x) ==> x == w,
        keyword_of(w) is Keyword || keyword_of(w) is Type || keyword_of(w) is Identifer,
{
}

} // verus!

verus! {

/// Reading back the decimal text of a number gives the number: the lexer's
/// digits and the decimal text of the display agree.
pub proof fn law_decimal_text_reads_back(n: nat)
    ensures
        all_ascii_digits(crate::text::nat_text(n)),
        decimal_value(crate::text::nat_text(n)) == n,
        n <= i64::MAX ==> parse_i64(crate::text::nat_text(n)) == n,
    decreases n,
{
    let t = crate::text::nat_text(n);
    crate::text::lemma_nat_text_nonempty(n);
    let d = n % 10;
    assert(crate::text::digit_char(d) as int == 48 + d);
    if n < 10 {
        assert(t.drop_last() =~= Seq::<char>::empty());
        assert(t.last() as int - 48 == n);
        assert(decimal_value(t.drop_last()) == 0);
        assert(decimal_value(t) == decimal_value(t.drop_last()) * 10 + (t.last() as int - 48));
    } else {
        law_decimal_text_reads_back(n / 10);
        let u = crate::text::nat_text(n / 10);
        assert(t.drop_last() =~= u);
        assert(t.last() == crate::text::digit_char(n % 10));
        assert(t.last() as int - 48 == n % 10);
        assert(n == (n / 10) * 10 + n % 10) by (nonlinear_arith);
        assert(decimal_value(t.drop_last()) == n / 10);
        assert(decimal_value(t) == decimal_value(t.drop_last()) * 10 + (t.last() as int - 48));
        assert forall|i: int| 0 <= i < t.len() implies '0' <= #[trigger] t[i] && t[i] <= '9' by {
            if i < t.len() - 1 {
                assert(t[i] == u[i]);
            }
        }
    }
}

} // verus!

verus! {

/// The letter that stands for a control character after a backslash.
pub open spec fn escape_letter(c: char) -> Option<char> {
    if c == '\n' {
        Some('n')
    } else if c == '\t' {
        Some('t')
    } else if c == '\r' {
        Some('r')
    } else if c == '\0' {
        Some('0')
    } else {
        None
    }
}

/// A backslash and the letter of a control character give that character back,
/// and a backslash before any other character keeps it as it is.
pub proof fn law_escapes(c: char)
    ensures
        escape_letter(c) matches Some(l) ==> unescape(l) == c,
        !(c == 'n' || c == 't' || c == 'r' || c == '0') ==> unescape(c) == c,
{
}

} // verus!

verus! {

/// Moving forward over a stretch of the source raises the line by the number of
/// newlines in it; over a stretch without a newline the column grows by its length.
pub proof fn law_positions_count_lines(s: Seq<char>, st: LexState, q: int)
    requires
        0 <= st.pos <= q <= s.len(),
    ensures
        advance_to(s, st, q).pos == q,
        advance_to(s, st, q).line == st.line + crate::text::count_char(s.subrange(st.pos, q), '\n'),
        crate::text::count_char(s.subrange(st.pos, q), '\n') == 0 ==> advance_to(s, st, q).column
            == st.column + (q - st.pos),
    decreases q - st.pos,
{
    let sub = s.subrange(st.pos, q);
    if st.pos < q {
        let st2 = advance(s, st);
        law_positions_count_lines(s, st2, q);
        let c = s[st.pos];
        let rest = s.subrange(st.pos + 1, q);
        assert(sub =~= seq![c] + rest);
        crate::text::lemma_count_char_concat(seq![c], rest, '\n');
        let one = seq![c];
        assert(one.drop_last() =~= Seq::<char>::empty());
        assert(crate::text::count_char(one.drop_last(), '\n') == 0);
        assert(one.last() == c);
        assert(crate::text::count_char(one, '\n') == if c == '\n' { 1nat } else { 0nat });
    } else {
        assert(sub =~= Seq::<char>::empty());
    }
}

} // verus!
