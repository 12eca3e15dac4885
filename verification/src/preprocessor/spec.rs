//! What the preprocessor computes, stated over character sequences.
use vstd::prelude::*;

use crate::chars::{is_word_char, spec_is_whitespace};
use crate::preprocessor::{IfState, PreprocessError};
use crate::text::{
    count_char, first_index_of, lemma_count_char_concat, lemma_first_index_of, repeat_char,
};

verus! {

/// A macro as the contracts see it.
pub enum SpecMacro {
    Object(Seq<char>),
    Function(Seq<Seq<char>>, Seq<char>),
}

/// The macro table: names and definitions, in the order they were first defined.
pub type MacroTable = Seq<(Seq<char>, SpecMacro)>;

// ---------------------------------------------------------------- comments

pub open spec fn opt_prepend(a: Seq<char>, o: Option<Seq<char>>) -> Option<Seq<char>> {
    match o {
        Some(x) => Some(a + x),
        None => None,
    }
}

/// The index of the `/` that closes a block comment, searching from `k`: the first
/// `j >= k` with `*` just before it.
pub open spec fn close_from(s: Seq<char>, k: int) -> Option<int>
    decreases s.len() - k,
{
    if k < 1 || k >= s.len() {
        None
    } else if s[k - 1] == '*' && s[k] == '/' {
        Some(k)
    } else {
        close_from(s, k + 1)
    }
}

pub proof fn lemma_close_from(s: Seq<char>, k: int)
    requires
        1 <= k,
    ensures
        close_from(s, k) matches Some(j) ==> k <= j < s.len() && s[j - 1] == '*' && s[j] == '/',
    decreases s.len() - k,
{
    if k < s.len() && !(s[k - 1] == '*' && s[k] == '/') {
        lemma_close_from(s, k + 1);
    }
}

/// What a block comment is replaced by: as many newlines as it spans, or one
/// space when it spans none.
pub open spec fn block_fill(n: nat) -> Seq<char> {
    if n == 0 {
        seq![' ']
    } else {
        repeat_char('\n', n)
    }
}

/// The text from index `i` on with its comments removed, or `None` when a block
/// comment is never closed. A line comment `//...` goes with the newline that ends
/// it, which stays; a block comment `/*...*/` becomes its newlines or a space.
pub open spec fn strip_from(s: Seq<char>, i: int) -> Option<Seq<char>>
    decreases s.len() - i,
{
    if i < 0 || i >= s.len() {
        Some(Seq::empty())
    } else if s[i] == '/' && i + 1 < s.len() && s[i + 1] == '/' {
        match first_index_of(s, '\n', i + 2) {
            Some(k) => {
                proof {
                    lemma_first_index_of(s, '\n', i + 2);
                }
                opt_prepend(seq!['\n'], strip_from(s, k + 1))
            },
            None => Some(Seq::empty()),
        }
    } else if s[i] == '/' && i + 1 < s.len() && s[i + 1] == '*' {
        match close_from(s, i + 3) {
            Some(k) => {
                proof {
                    lemma_close_from(s, i + 3);
                }
                opt_prepend(
                    block_fill(count_char(s.subrange(i + 2, k), '\n')),
                    strip_from(s, k + 1),
                )
            },
            None => None,
        }
    } else {
        opt_prepend(seq![s[i]], strip_from(s, i + 1))
    }
}

// ---------------------------------------------------------------- lines and words

/// A line without the carriage return of a `\r\n` ending.
pub open spec fn strip_cr(l: Seq<char>) -> Seq<char> {
    if l.len() > 0 && l.last() == '\r' {
        l.drop_last()
    } else {
        l
    }
}

/// The lines of `s` from index `i`, as `str::lines` splits them: at `\n` or
/// `\r\n`, with no empty line after a final line ending.
pub open spec fn lines_from(s: Seq<char>, i: int) -> Seq<Seq<char>>
    decreases s.len() - i,
{
    if i < 0 || i >= s.len() {
        Seq::empty()
    } else {
        match first_index_of(s, '\n', i) {
            Some(k) => {
                proof {
                    lemma_first_index_of(s, '\n', i);
                }
                seq![strip_cr(s.subrange(i, k))] + lines_from(s, k + 1)
            },
            None => seq![s.subrange(i, s.len() as int)],
        }
    }
}

pub open spec fn spec_lines(s: Seq<char>) -> Seq<Seq<char>> {
    lines_from(s, 0)
}

/// The first index at or after `i` that is not whitespace (or the length).
pub open spec fn skip_ws(s: Seq<char>, i: int) -> int
    decreases s.len() - i,
{
    if i >= s.len() {
        s.len() as int
    } else if spec_is_whitespace(s[i]) {
        skip_ws(s, i + 1)
    } else {
        i
    }
}

/// The first index at or after `i` that is whitespace (or the length).
pub open spec fn skip_nonws(s: Seq<char>, i: int) -> int
    decreases s.len() - i,
{
    if i >= s.len() {
        s.len() as int
    } else if !spec_is_whitespace(s[i]) {
        skip_nonws(s, i + 1)
    } else {
        i
    }
}

pub proof fn lemma_skip_ws(s: Seq<char>, i: int)
    requires
        0 <= i <= s.len(),
    ensures
        i <= skip_ws(s, i) <= s.len(),
        skip_ws(s, i) < s.len() ==> !spec_is_whitespace(s[skip_ws(s, i)]),
        forall|j: int| i <= j < skip_ws(s, i) ==> spec_is_whitespace(s[j]),
    decreases s.len() - i,
{
    if i < s.len() && spec_is_whitespace(s[i]) {
        lemma_skip_ws(s, i + 1);
    }
}

pub proof fn lemma_skip_nonws(s: Seq<char>, i: int)
    requires
        0 <= i <= s.len(),
    ensures
        i <= skip_nonws(s, i) <= s.len(),
        skip_nonws(s, i) < s.len() ==> spec_is_whitespace(s[skip_nonws(s, i)]),
        forall|j: int| i <= j < skip_nonws(s, i) ==> !spec_is_whitespace(s[j]),
    decreases s.len() - i,
{
    if i < s.len() && !spec_is_whitespace(s[i]) {
        lemma_skip_nonws(s, i + 1);
    }
}

/// The words of `s` from index `i`, as `str::split_whitespace` splits them: the
/// maximal runs of characters that are not whitespace.
pub open spec fn words_from(s: Seq<char>, i: int) -> Seq<Seq<char>>
    decreases s.len() - i,
{
    if i < 0 || i >= s.len() {
        Seq::empty()
    } else {
        let a = skip_ws(s, i);
        if a >= s.len() {
            Seq::empty()
        } else {
            let b = skip_nonws(s, a);
            proof {
                lemma_skip_ws(s, i);
                lemma_skip_nonws(s, a);
            }
            seq![s.subrange(a, b)] + words_from(s, b)
        }
    }
}

pub open spec fn spec_words(s: Seq<char>) -> Seq<Seq<char>> {
    words_from(s, 0)
}

/// The text without its leading whitespace (`str::trim_start`).
pub open spec fn trim_start(s: Seq<char>) -> Seq<char> {
    s.subrange(skip_ws(s, 0), s.len() as int)
}

/// The words joined with single spaces.
pub open spec fn join_words(ws: Seq<Seq<char>>) -> Seq<char>
    decreases ws.len(),
{
    if ws.len() == 0 {
        Seq::empty()
    } else if ws.len() == 1 {
        ws[0]
    } else {
        join_words(ws.drop_last()) + seq![' '] + ws.last()
    }
}

// ---------------------------------------------------------------- macro expansion

/// The end of the run of word characters that starts at or before `i`.
pub open spec fn word_end(t: Seq<char>, i: int) -> int
    decreases t.len() - i,
{
    if i >= t.len() {
        t.len() as int
    } else if is_word_char(t[i]) {
        word_end(t, i + 1)
    } else {
        i
    }
}

pub proof fn lemma_word_end(t: Seq<char>, i: int)
    requires
        0 <= i <= t.len(),
    ensures
        i <= word_end(t, i) <= t.len(),
        word_end(t, i) < t.len() ==> !is_word_char(t[word_end(t, i)]),
        forall|j: int| i <= j < word_end(t, i) ==> is_word_char(t[j]),
    decreases t.len() - i,
{
    if i < t.len() && is_word_char(t[i]) {
        lemma_word_end(t, i + 1);
    }
}

/// The text from index `i` with every whole word equal to `name` replaced by
/// `value`; a word is a maximal run of letters, numbers and `_`.
pub open spec fn replace_from(t: Seq<char>, i: int, name: Seq<char>, value: Seq<char>) -> Seq<
    char,
>
    decreases t.len() - i,
{
    if i < 0 || i >= t.len() {
        Seq::empty()
    } else if is_word_char(t[i]) {
        let j = word_end(t, i + 1);
        proof {
            lemma_word_end(t, i + 1);
        }
        let w = t.subrange(i, j);
        (if w == name {
            value
        } else {
            w
        }) + replace_from(t, j, name, value)
    } else {
        seq![t[i]] + replace_from(t, i + 1, name, value)
    }
}

pub open spec fn replace_word(t: Seq<char>, name: Seq<char>, value: Seq<char>) -> Seq<char> {
    replace_from(t, 0, name, value)
}

/// A line after every object macro of the table, in table order, has replaced
/// its name; function macros change nothing.
pub open spec fn expand_with(line: Seq<char>, ms: MacroTable) -> Seq<char>
    decreases ms.len(),
{
    if ms.len() == 0 {
        line
    } else {
        let prev = expand_with(line, ms.drop_last());
        match ms.last().1 {
            SpecMacro::Object(v) => replace_word(prev, ms.last().0, v),
            SpecMacro::Function(_, _) => prev,
        }
    }
}

// ---------------------------------------------------------------- the macro table

pub open spec fn name_index_from(ms: MacroTable, name: Seq<char>, i: int) -> Option<int>
    decreases ms.len() - i,
{
    if i < 0 || i >= ms.len() {
        None
    } else if ms[i].0 == name {
        Some(i)
    } else {
        name_index_from(ms, name, i + 1)
    }
}

/// Where the table holds `name`.
pub open spec fn name_index(ms: MacroTable, name: Seq<char>) -> Option<int> {
    name_index_from(ms, name, 0)
}

pub open spec fn has_macro(ms: MacroTable, name: Seq<char>) -> bool {
    name_index(ms, name) is Some
}

/// The table after `#define name value`: the definition replaces an earlier one
/// of the same name, or is added at the end.
pub open spec fn define(ms: MacroTable, name: Seq<char>, value: Seq<char>) -> MacroTable {
    match name_index(ms, name) {
        Some(i) => ms.update(i, (name, SpecMacro::Object(value))),
        None => ms.push((name, SpecMacro::Object(value))),
    }
}

/// The table after `#undef name`.
pub open spec fn undefine(ms: MacroTable, name: Seq<char>) -> MacroTable {
    match name_index(ms, name) {
        Some(i) => ms.remove(i),
        None => ms,
    }
}

/// No name occurs twice in the table.
pub open spec fn distinct_names(ms: MacroTable) -> bool {
    forall|i: int, j: int| 0 <= i < ms.len() && 0 <= j < ms.len() && i != j ==> ms[i].0 != ms[j].0
}

// ---------------------------------------------------------------- conditionals

/// Lines are kept only while every open conditional is taking its branch.
pub open spec fn taking(ifs: Seq<IfState>) -> bool {
    forall|i: int| 0 <= i < ifs.len() ==> ifs[i] == IfState::Taking
}

/// The state of a conditional after `#elif` or `#else`: a branch that was taken is
/// done, a skipped one is now taken.
pub open spec fn next_branch(s: IfState) -> IfState {
    match s {
        IfState::Taking => IfState::Done,
        IfState::Skipping => IfState::Taking,
        IfState::Done => IfState::Done,
    }
}

/// The state of a conditional after `n` more `#elif`/`#else` lines.
pub open spec fn nth_branch(s: IfState, n: nat) -> IfState
    decreases n,
{
    if n == 0 {
        s
    } else {
        next_branch(nth_branch(s, (n - 1) as nat))
    }
}

proof fn lemma_done_after_taken(s: IfState, i: nat, j: nat)
    requires
        i < j,
        nth_branch(s, i) != IfState::Skipping,
    ensures
        nth_branch(s, j) == IfState::Done,
    decreases j,
{
    if j > i + 1 {
        lemma_done_after_taken(s, i, (j - 1) as nat);
    }
}

/// Of the branches of one `#ifdef`/`#ifndef` chain, at most one is taken: once a
/// branch was taken (or skipped past), every later `#elif`/`#else` branch is dropped.
pub proof fn law_one_branch_taken(s: IfState, i: nat, j: nat)
    requires
        i < j,
    ensures
        !(nth_branch(s, i) == IfState::Taking && nth_branch(s, j) == IfState::Taking),
{
    if nth_branch(s, i) == IfState::Taking {
        lemma_done_after_taken(s, i, j);
    }
}

// ---------------------------------------------------------------- processing

/// What the preprocessor has built so far: its macro table, its open
/// conditionals, its output, and how many included texts it has used.
pub struct PreState {
    pub macros: MacroTable,
    pub ifs: Seq<IfState>,
    pub out: Seq<char>,
    pub used: nat,
}

/// The effect of a directive line whose words are `ws`. `#include` with a path
/// appends the next included text, whatever the conditionals say; `#define` and
/// `#ifdef`/`#ifndef` act whatever they say too; `#undef` acts only while lines
/// are taken; `#if` and unknown directives are errors.
pub open spec fn directive(st: PreState, ws: Seq<Seq<char>>, included: Seq<Seq<char>>) -> Result<
    PreState,
    PreprocessError,
> {
    let d = ws[0];
    if d == "#include"@ {
        if ws.len() >= 2 {
            Ok(
                PreState {
                    macros: st.macros,
                    ifs: st.ifs,
                    out: st.out + included[st.used as int],
                    used: st.used + 1,
                },
            )
        } else {
            Ok(st)
        }
    } else if d == "#define"@ {
        if ws.len() >= 2 {
            Ok(
                PreState {
                    macros: define(st.macros, ws[1], join_words(ws.skip(2))),
                    ifs: st.ifs,
                    out: st.out,
                    used: st.used,
                },
            )
        } else {
            Ok(st)
        }
    } else if d == "#ifdef"@ {
        let cond = ws.len() >= 2 && has_macro(st.macros, ws[1]);
        Ok(
            PreState {
                macros: st.macros,
                ifs: st.ifs.push(
                    if cond {
                        IfState::Taking
                    } else {
                        IfState::Skipping
                    },
                ),
                out: st.out,
                used: st.used,
            },
        )
    } else if d == "#if"@ {
        Err(PreprocessError::UnsupportedIf)
    } else if d == "#ifndef"@ {
        let cond = !(ws.len() >= 2) || !has_macro(st.macros, ws[1]);
        Ok(
            PreState {
                macros: st.macros,
                ifs: st.ifs.push(
                    if cond {
                        IfState::Taking
                    } else {
                        IfState::Skipping
                    },
                ),
                out: st.out,
                used: st.used,
            },
        )
    } else if d == "#endif"@ {
        if st.ifs.len() == 0 {
            Err(PreprocessError::EndifWithoutIf)
        } else {
            Ok(PreState { macros: st.macros, ifs: st.ifs.drop_last(), out: st.out, used: st.used })
        }
    } else if d == "#elif"@ {
        if st.ifs.len() == 0 {
            Err(PreprocessError::ElifWithoutIf)
        } else {
            Ok(
                PreState {
                    macros: st.macros,
                    ifs: st.ifs.update(st.ifs.len() - 1, next_branch(st.ifs.last())),
                    out: st.out,
                    used: st.used,
                },
            )
        }
    } else if d == "#else"@ {
        if st.ifs.len() == 0 {
            Err(PreprocessError::ElseWithoutIf)
        } else {
            Ok(
                PreState {
                    macros: st.macros,
                    ifs: st.ifs.update(st.ifs.len() - 1, next_branch(st.ifs.last())),
                    out: st.out,
                    used: st.used,
                },
            )
        }
    } else if d == "#undef"@ {
        if taking(st.ifs) {
            if ws.len() >= 2 {
                Ok(
                    PreState {
                        macros: undefine(st.macros, ws[1]),
                        ifs: st.ifs,
                        out: st.out,
                        used: st.used,
                    },
                )
            } else {
                Err(PreprocessError::UndefWithoutName)
            }
        } else {
            Ok(st)
        }
    } else {
        Err(PreprocessError::UnknownDirective)
    }
}

/// Whether a line is a directive: its first character after leading whitespace is `#`.
pub open spec fn is_directive(line: Seq<char>) -> bool {
    let t = trim_start(line);
    t.len() > 0 && t[0] == '#'
}

/// The effect of one line: a directive acts; another line, while lines are taken,
/// is appended with its macros expanded and a newline.
pub open spec fn line_step(st: PreState, line: Seq<char>, included: Seq<Seq<char>>) -> Result<
    PreState,
    PreprocessError,
> {
    if is_directive(line) {
        directive(st, spec_words(trim_start(line)), included)
    } else if taking(st.ifs) {
        Ok(
            PreState {
                macros: st.macros,
                ifs: st.ifs,
                out: st.out + expand_with(line, st.macros) + seq!['\n'],
                used: st.used,
            },
        )
    } else {
        Ok(st)
    }
}

/// The state after the lines, in order; the first error stops.
pub open spec fn run_lines(st: PreState, lines: Seq<Seq<char>>, included: Seq<Seq<char>>) -> Result<
    PreState,
    PreprocessError,
>
    decreases lines.len(),
{
    if lines.len() == 0 {
        Ok(st)
    } else {
        match run_lines(st, lines.drop_last(), included) {
            Ok(s1) => line_step(s1, lines.last(), included),
            Err(e) => Err(e),
        }
    }
}

/// The state after the whole source: comments removed, then every line processed;
/// a conditional still open at the end is an error.
pub open spec fn spec_process(
    source: Seq<char>,
    macros: MacroTable,
    ifs: Seq<IfState>,
    included: Seq<Seq<char>>,
) -> Result<PreState, PreprocessError> {
    match strip_from(source, 0) {
        None => Err(PreprocessError::UnterminatedComment),
        Some(t) => match run_lines(
            PreState { macros, ifs, out: Seq::empty(), used: 0 },
            spec_lines(t),
            included,
        ) {
            Err(e) => Err(e),
            Ok(st) => if st.ifs.len() > 0 {
                Err(PreprocessError::UnterminatedIf)
            } else {
                Ok(st)
            },
        },
    }
}

// ---------------------------------------------------------------- includes

/// A path without the quotes and angle brackets around it (`trim_matches`).
pub open spec fn is_quote(c: char) -> bool {
    c == '"' || c == '<' || c == '>'
}

pub open spec fn lead_quotes(s: Seq<char>, i: int) -> int
    decreases s.len() - i,
{
    if i >= s.len() {
        s.len() as int
    } else if is_quote(s[i]) {
        lead_quotes(s, i + 1)
    } else {
        i
    }
}

pub open spec fn trail_quotes(s: Seq<char>, j: int, lo: int) -> int
    decreases j - lo,
{
    if j <= lo {
        lo
    } else if is_quote(s[j - 1]) {
        trail_quotes(s, j - 1, lo)
    } else {
        j
    }
}

pub open spec fn trim_quotes(s: Seq<char>) -> Seq<char> {
    let a = lead_quotes(s, 0);
    s.subrange(a, trail_quotes(s, s.len() as int, a))
}

/// Whether a line is an `#include` with a path.
pub open spec fn is_include_line(line: Seq<char>) -> bool {
    let ws = spec_words(trim_start(line));
    is_directive(line) && ws.len() >= 2 && ws[0] == "#include"@
}

/// The paths of the `#include` lines, in order.
pub open spec fn paths_of(lines: Seq<Seq<char>>) -> Seq<Seq<char>>
    decreases lines.len(),
{
    if lines.len() == 0 {
        Seq::empty()
    } else {
        paths_of(lines.drop_last()) + if is_include_line(lines.last()) {
            seq![trim_quotes(spec_words(trim_start(lines.last()))[1])]
        } else {
            Seq::<Seq<char>>::empty()
        }
    }
}

/// The paths that a source includes, once its comments are removed.
pub open spec fn spec_include_paths(source: Seq<char>) -> Seq<Seq<char>> {
    match strip_from(source, 0) {
        Some(t) => paths_of(spec_lines(t)),
        None => Seq::empty(),
    }
}

// ---------------------------------------------------------------- laws

proof fn lemma_count_absent(x: Seq<char>, c: char)
    requires
        forall|j: int| 0 <= j < x.len() ==> x[j] != c,
    ensures
        count_char(x, c) == 0,
    decreases x.len(),
{
    if x.len() > 0 {
        lemma_count_absent(x.drop_last(), c);
    }
}

proof fn lemma_count_single(d: char, c: char)
    ensures
        count_char(seq![d], c) == (if d == c {
            1nat
        } else {
            0nat
        }),
{
    reveal_with_fuel(count_char, 2);
    assert(seq![d].drop_last() =~= Seq::<char>::empty());
}

proof fn lemma_count_repeat(n: nat, c: char)
    ensures
        count_char(repeat_char(c, n), c) == n,
    decreases n,
{
    if n > 0 {
        lemma_count_repeat((n - 1) as nat, c);
        assert(repeat_char(c, n).drop_last() == repeat_char(c, (n - 1) as nat));
    }
}

proof fn lemma_strip_from_newlines(s: Seq<char>, i: int)
    requires
        0 <= i <= s.len(),
    ensures
        strip_from(s, i) matches Some(t) ==> count_char(t, '\n') == count_char(
            s.subrange(i, s.len() as int),
            '\n',
        ),
    decreases s.len() - i,
{
    let rest = s.subrange(i, s.len() as int);
    if i == s.len() {
        assert(rest =~= Seq::<char>::empty());
    } else if s[i] == '/' && i + 1 < s.len() && s[i + 1] == '/' {
        lemma_first_index_of(s, '\n', i + 2);
        match first_index_of(s, '\n', i + 2) {
            Some(k) => {
                lemma_strip_from_newlines(s, k + 1);
                let head = s.subrange(i, k);
                let tail = s.subrange(k + 1, s.len() as int);
                assert(rest =~= head + seq!['\n'] + tail);
                lemma_count_absent(head, '\n');
                lemma_count_char_concat(head, seq!['\n'], '\n');
                lemma_count_char_concat(head + seq!['\n'], tail, '\n');
                if let Some(t2) = strip_from(s, k + 1) {
                    lemma_count_char_concat(seq!['\n'], t2, '\n');
                }
                lemma_count_single('\n', '\n');
            },
            None => {
                lemma_count_absent(rest, '\n');
                assert(count_char(Seq::<char>::empty(), '\n') == 0);
            },
        }
    } else if s[i] == '/' && i + 1 < s.len() && s[i + 1] == '*' {
        lemma_close_from(s, i + 3);
        match close_from(s, i + 3) {
            Some(k) => {
                lemma_strip_from_newlines(s, k + 1);
                let open = s.subrange(i, i + 2);
                let body = s.subrange(i + 2, k);
                let close = s.subrange(k, k + 1);
                let tail = s.subrange(k + 1, s.len() as int);
                assert(rest =~= open + body + close + tail);
                lemma_count_absent(open, '\n');
                lemma_count_absent(close, '\n');
                lemma_count_char_concat(open, body, '\n');
                lemma_count_char_concat(open + body, close, '\n');
                lemma_count_char_concat(open + body + close, tail, '\n');
                let n = count_char(body, '\n');
                if n == 0 {
                    lemma_count_single(' ', '\n');
                } else {
                    lemma_count_repeat(n, '\n');
                }
                if let Some(t2) = strip_from(s, k + 1) {
                    lemma_count_char_concat(block_fill(n), t2, '\n');
                }
            },
            None => {},
        }
    } else {
        lemma_strip_from_newlines(s, i + 1);
        let tail = s.subrange(i + 1, s.len() as int);
        assert(rest =~= seq![s[i]] + tail);
        lemma_count_char_concat(seq![s[i]], tail, '\n');
        lemma_count_single(s[i], '\n');
        if let Some(t2) = strip_from(s, i + 1) {
            lemma_count_char_concat(seq![s[i]], t2, '\n');
        }
    }
}

/// Removing comments keeps the number of lines: a line comment keeps the newline
/// that ends it, and a block comment is replaced by the newlines it spans.
pub proof fn law_comment_removal_keeps_newlines(s: Seq<char>)
    ensures
        strip_from(s, 0) matches Some(t) ==> count_char(t, '\n') == count_char(s, '\n'),
{
    lemma_strip_from_newlines(s, 0);
    assert(s.subrange(0, s.len() as int) =~= s);
}

} // verus!

verus! {

// ---------------------------------------------------------------- laws of comment removal

/// No comment opener `//` or `/*` occurs in `t`.
pub open spec fn no_comment_opener(t: Seq<char>) -> bool {
    forall|k: int| 0 <= k < t.len() - 1 ==> !(#[trigger] t[k] == '/' && (t[k + 1] == '/' || t[k + 1] == '*'))
}

/// A comment starts at `i`.
pub open spec fn starts_comment(s: Seq<char>, i: int) -> bool {
    s[i] == '/' && i + 1 < s.len() && (s[i + 1] == '/' || s[i + 1] == '*')
}

proof fn lemma_no_opener_join(a: Seq<char>, b: Seq<char>)
    requires
        no_comment_opener(a),
        no_comment_opener(b),
        a.len() > 0 && a.last() == '/' ==> b.len() == 0 || (b[0] != '/' && b[0] != '*'),
    ensures
        no_comment_opener(a + b),
{
    let t = a + b;
    assert forall|k: int| 0 <= k < t.len() - 1 implies !(#[trigger] t[k] == '/' && (t[k + 1] == '/' || t[k + 1] == '*')) by {
        if k < a.len() - 1 {
            assert(t[k] == a[k] && t[k + 1] == a[k + 1]);
        } else if k == a.len() - 1 {
            assert(t[k] == a.last());
            if b.len() > 0 {
                assert(t[k + 1] == b[0]);
            }
        } else {
            assert(t[k] == b[k - a.len()] && t[k + 1] == b[k + 1 - a.len()]);
        }
    }
}

proof fn lemma_fill_no_opener(n: nat)
    ensures
        no_comment_opener(block_fill(n)),
        forall|k: int| 0 <= k < block_fill(n).len() ==> #[trigger] block_fill(n)[k] != '/',
    decreases n,
{
    if n > 0 {
        lemma_repeat_char(n);
    }
}

proof fn lemma_repeat_char(n: nat)
    ensures
        repeat_char('\n', n).len() == n,
        forall|k: int| 0 <= k < n ==> #[trigger] repeat_char('\n', n)[k] == '\n',
    decreases n,
{
    if n > 0 {
        lemma_repeat_char((n - 1) as nat);
        let r = repeat_char('\n', n);
        assert forall|k: int| 0 <= k < n implies #[trigger] r[k] == '\n' by {
            if k < n - 1 {
                assert(r[k] == repeat_char('\n', (n - 1) as nat)[k]);
            }
        }
    }
}

proof fn lemma_strip_no_opener(s: Seq<char>, i: int)
    requires
        0 <= i,
    ensures
        strip_from(s, i) matches Some(t) ==> {
            &&& no_comment_opener(t)
            &&& (i < s.len() && !starts_comment(s, i)) ==> t.len() > 0 && t[0] == s[i]
        },
    decreases s.len() - i,
{
    if i < s.len() {
        if s[i] == '/' && i + 1 < s.len() && s[i + 1] == '/' {
            if let Some(k) = first_index_of(s, '\n', i + 2) {
                lemma_first_index_of(s, '\n', i + 2);
                lemma_strip_no_opener(s, k + 1);
                if let Some(r) = strip_from(s, k + 1) {
                    lemma_no_opener_join(seq!['\n'], r);
                }
            }
        } else if s[i] == '/' && i + 1 < s.len() && s[i + 1] == '*' {
            if let Some(k) = close_from(s, i + 3) {
                lemma_close_from(s, i + 3);
                lemma_strip_no_opener(s, k + 1);
                let f = block_fill(count_char(s.subrange(i + 2, k), '\n'));
                lemma_fill_no_opener(count_char(s.subrange(i + 2, k), '\n'));
                if let Some(r) = strip_from(s, k + 1) {
                    if f.len() > 0 {
                        assert(f.last() == f[f.len() - 1]);
                    }
                    lemma_no_opener_join(f, r);
                }
            }
        } else {
            lemma_strip_no_opener(s, i + 1);
            if let Some(r) = strip_from(s, i + 1) {
                if i + 1 < s.len() && s[i] == '/' {
                    assert(!starts_comment(s, i + 1));
                }
                lemma_no_opener_join(seq![s[i]], r);
                assert((seq![s[i]] + r)[0] == s[i]);
            }
        }
    }
}

/// Comment removal leaves no comment behind: the text it gives holds neither `//`
/// nor `/*`.
pub proof fn law_comment_removal_leaves_no_comment(s: Seq<char>)
    ensures
        strip_from(s, 0) matches Some(t) ==> no_comment_opener(t),
{
    lemma_strip_no_opener(s, 0);
}

// ---------------------------------------------------------------- laws of replacement

/// A whole word starts at `i`: a word character with none just before it.
pub open spec fn is_word_start(t: Seq<char>, i: int) -> bool {
    0 <= i < t.len() && is_word_char(t[i]) && (i == 0 || !is_word_char(t[i - 1]))
}

proof fn lemma_replace_unchanged(t: Seq<char>, i: int, name: Seq<char>, value: Seq<char>)
    requires
        0 <= i <= t.len(),
        i == 0 || i == t.len() || !is_word_char(t[i - 1]) || !is_word_char(t[i]),
        value == name || forall|k: int| #[trigger] is_word_start(t, k) ==> t.subrange(k, word_end(t, k)) != name,
    ensures
        replace_from(t, i, name, value) == t.subrange(i, t.len() as int),
    decreases t.len() - i,
{
    if i < t.len() {
        if is_word_char(t[i]) {
            let j = word_end(t, i + 1);
            lemma_word_end(t, i + 1);
            assert(word_end(t, i) == j);
            assert(is_word_start(t, i));
            if j < t.len() {
                assert(!is_word_char(t[j]));
            }
            lemma_replace_unchanged(t, j, name, value);
            assert(t.subrange(i, j) + t.subrange(j, t.len() as int) =~= t.subrange(i, t.len() as int));
        } else {
            lemma_replace_unchanged(t, i + 1, name, value);
            assert(seq![t[i]] + t.subrange(i + 1, t.len() as int) =~= t.subrange(i, t.len() as int));
        }
    } else {
        assert(t.subrange(i, t.len() as int) =~= Seq::<char>::empty());
    }
}

/// Replacing a name leaves the text as it was when the name is replaced by itself,
/// or when no whole word of the text is the name.
pub proof fn law_replace_word_unchanged(t: Seq<char>, name: Seq<char>, value: Seq<char>)
    requires
        value == name || forall|k: int| #[trigger] is_word_start(t, k) ==> t.subrange(k, word_end(t, k)) != name,
    ensures
        replace_word(t, name, value) == t,
{
    lemma_replace_unchanged(t, 0, name, value);
    assert(t.subrange(0, t.len() as int) =~= t);
}

} // verus!

verus! {

// ---------------------------------------------------------------- a plain source

/// Lines, each ended by a newline.
pub open spec fn lines_text(ls: Seq<Seq<char>>) -> Seq<char>
    decreases ls.len(),
{
    if ls.len() == 0 {
        Seq::empty()
    } else {
        lines_text(ls.drop_last()) + ls.last() + seq!['\n']
    }
}

proof fn lemma_strip_plain(s: Seq<char>, i: int)
    requires
        0 <= i <= s.len(),
        forall|k: int| 0 <= k < s.len() ==> s[k] != '/',
    ensures
        strip_from(s, i) == Some(s.subrange(i, s.len() as int)),
    decreases s.len() - i,
{
    if i < s.len() {
        lemma_strip_plain(s, i + 1);
        assert(seq![s[i]] + s.subrange(i + 1, s.len() as int) =~= s.subrange(i, s.len() as int));
    } else {
        assert(s.subrange(i, s.len() as int) =~= Seq::<char>::empty());
    }
}

proof fn lemma_run_plain(ls: Seq<Seq<char>>, included: Seq<Seq<char>>)
    requires
        forall|k: int| 0 <= k < ls.len() ==> !is_directive(#[trigger] ls[k]),
    ensures
        run_lines(
            PreState { macros: Seq::empty(), ifs: Seq::empty(), out: Seq::empty(), used: 0 },
            ls,
            included,
        ) == Ok::<PreState, PreprocessError>(
            PreState { macros: Seq::empty(), ifs: Seq::empty(), out: lines_text(ls), used: 0 },
        ),
    decreases ls.len(),
{
    if ls.len() > 0 {
        assert forall|k: int| 0 <= k < ls.drop_last().len() implies !is_directive(#[trigger] ls.drop_last()[k]) by {
            assert(ls.drop_last()[k] == ls[k]);
        }
        lemma_run_plain(ls.drop_last(), included);
        assert(!is_directive(ls[ls.len() - 1]));
        assert(taking(Seq::<IfState>::empty()));
    }
}

/// A source with no `/` and no directive line comes out as its lines, each
/// ended by a newline, with no macro defined and no conditional open.
pub proof fn law_plain_source_kept(s: Seq<char>, included: Seq<Seq<char>>)
    requires
        forall|k: int| 0 <= k < s.len() ==> s[k] != '/',
        forall|k: int| 0 <= k < spec_lines(s).len() ==> !is_directive(#[trigger] spec_lines(s)[k]),
    ensures
        spec_process(s, Seq::empty(), Seq::empty(), included) == Ok::<PreState, PreprocessError>(
            PreState {
                macros: Seq::empty(),
                ifs: Seq::empty(),
                out: lines_text(spec_lines(s)),
                used: 0,
            },
        ),
{
    lemma_strip_plain(s, 0);
    assert(s.subrange(0, s.len() as int) =~= s);
    lemma_run_plain(spec_lines(s), included);
}

} // verus!

verus! {

// ---------------------------------------------------------------- what each directive does

/// `#ifdef N` opens a conditional that takes its branch exactly when `N` is
/// defined, and `#ifndef N` one that takes it exactly when `N` is not; `#define N`
/// leaves `N` defined and `#undef N` (while lines are taken) leaves it undefined;
/// `#endif` closes the innermost conditional, and `#else`/`#elif` take their
/// branch exactly when the innermost conditional was skipping. None of them
/// writes any output, but `#include` appends the next included text.
pub proof fn law_directives(st: PreState, ws: Seq<Seq<char>>, included: Seq<Seq<char>>)
    requires
        ws.len() >= 2,
        distinct_names(st.macros),
    ensures
        ws[0] == "#ifdef"@ ==> directive(st, ws, included) == Ok::<PreState, PreprocessError>(
            PreState {
                ifs: st.ifs.push(
                    if has_macro(st.macros, ws[1]) {
                        IfState::Taking
                    } else {
                        IfState::Skipping
                    },
                ),
                ..st
            },
        ),
        ws[0] == "#ifndef"@ ==> directive(st, ws, included) == Ok::<PreState, PreprocessError>(
            PreState {
                ifs: st.ifs.push(
                    if has_macro(st.macros, ws[1]) {
                        IfState::Skipping
                    } else {
                        IfState::Taking
                    },
                ),
                ..st
            },
        ),
        ws[0] == "#define"@ ==> (directive(st, ws, included) matches Ok(s2) && has_macro(
            s2.macros,
            ws[1],
        ) && s2.ifs == st.ifs && s2.out == st.out),
        ws[0] == "#undef"@ && taking(st.ifs) ==> (directive(st, ws, included) matches Ok(s2)
            && !has_macro(s2.macros, ws[1]) && s2.ifs == st.ifs && s2.out == st.out),
        ws[0] == "#endif"@ && st.ifs.len() > 0 ==> directive(st, ws, included) == Ok::<
            PreState,
            PreprocessError,
        >(PreState { ifs: st.ifs.drop_last(), ..st }),
        ws[0] == "#include"@ ==> directive(st, ws, included) == Ok::<PreState, PreprocessError>(
            PreState { out: st.out + included[st.used as int], used: st.used + 1, ..st },
        ),
        (ws[0] == "#else"@ || ws[0] == "#elif"@) && st.ifs.len() > 0 ==> (directive(
            st,
            ws,
            included,
        ) matches Ok(s2) && s2.ifs.len() == st.ifs.len() && s2.ifs.drop_last() == st.ifs.drop_last()
            && (s2.ifs.last() == IfState::Taking) == (st.ifs.last() == IfState::Skipping)
            && s2.macros == st.macros && s2.out == st.out),
{
    reveal_strlit("#include");
    reveal_strlit("#define");
    reveal_strlit("#ifdef");
    reveal_strlit("#if");
    reveal_strlit("#ifndef");
    reveal_strlit("#endif");
    reveal_strlit("#elif");
    reveal_strlit("#else");
    reveal_strlit("#undef");
    assert("#ifdef"@[2] != "#include"@[2] && "#ifdef"@[2] != "#define"@[2]);
    assert("#ifndef"@[2] != "#include"@[2] && "#ifndef"@[2] != "#define"@[2]);
    assert("#ifndef"@.len() != "#ifdef"@.len() && "#ifndef"@.len() != "#if"@.len());
    assert("#define"@[1] != "#include"@[1]);
    assert("#undef"@[1] != "#include"@[1] && "#undef"@[1] != "#define"@[1] && "#undef"@[1]
        != "#ifdef"@[1] && "#undef"@[1] != "#endif"@[1] && "#undef"@[1] != "#elif"@[1]
        && "#undef"@[1] != "#else"@[1]);
    assert("#undef"@[1] != "#if"@[1] && "#undef"@[1] != "#ifndef"@[1]);
    assert("#else"@[1] != "#include"@[1] && "#else"@[1] != "#define"@[1] && "#else"@[1]
        != "#ifdef"@[1] && "#else"@[1] != "#if"@[1] && "#else"@[1] != "#ifndef"@[1]);
    assert("#elif"@[1] != "#include"@[1] && "#elif"@[1] != "#define"@[1] && "#elif"@[1]
        != "#ifdef"@[1] && "#elif"@[1] != "#if"@[1] && "#elif"@[1] != "#ifndef"@[1]);
    assert("#else"@.len() != "#endif"@.len() && "#elif"@.len() != "#endif"@.len());
    assert("#else"@[3] != "#elif"@[3]);
    assert("#endif"@[1] != "#include"@[1] && "#endif"@[1] != "#define"@[1] && "#endif"@[1]
        != "#ifdef"@[1] && "#endif"@[1] != "#if"@[1] && "#endif"@[1] != "#ifndef"@[1]);
    crate::preprocessor::law_define_then_defined(st.macros, ws[1], join_words(ws.skip(2)));
    crate::preprocessor::law_undefine_removes(st.macros, ws[1]);
}

/// A line that is no directive is dropped while a conditional is skipping, and
/// kept (with its macros expanded and a newline) while every one is taking.
pub proof fn law_lines_follow_the_conditionals(st: PreState, line: Seq<char>, included: Seq<Seq<char>>)
    requires
        !is_directive(line),
    ensures
        !taking(st.ifs) ==> line_step(st, line, included) == Ok::<PreState, PreprocessError>(st),
        taking(st.ifs) ==> (line_step(st, line, included) matches Ok(s2) && s2.out == st.out
            + expand_with(line, st.macros) + seq!['\n'] && s2.macros == st.macros && s2.ifs == st.ifs),
{
}

/// A text that is the name itself, as one whole word, is replaced by the value.
pub proof fn law_replace_word_replaces_the_name(name: Seq<char>, value: Seq<char>)
    requires
        name.len() > 0,
        forall|i: int| 0 <= i < name.len() ==> is_word_char(#[trigger] name[i]),
    ensures
        replace_word(name, name, value) == value,
{
    lemma_word_end(name, 1);
    let j = word_end(name, 1);
    if j < name.len() {
        assert(is_word_char(name[j]));
    }
    assert(j == name.len());
    assert(name.subrange(0, j) =~= name);
    assert(replace_from(name, j, name, value) =~= Seq::<char>::empty());
    assert(value + Seq::<char>::empty() =~= value);
}

/// Expanding with one object macro replaces its name as a whole word; a function
/// macro changes nothing; and an empty table leaves the line as it is.
pub proof fn law_expand_with_one_macro(line: Seq<char>, name: Seq<char>, m: SpecMacro)
    ensures
        expand_with(line, Seq::empty()) == line,
        m matches SpecMacro::Object(v) ==> expand_with(line, seq![(name, m)]) == replace_word(
            line,
            name,
            v,
        ),
        m is Function ==> expand_with(line, seq![(name, m)]) == line,
{
    let t = seq![(name, m)];
    assert(t.drop_last() =~= Seq::<(Seq<char>, SpecMacro)>::empty());
    assert(expand_with(line, t.drop_last()) == line);
    assert(t.last() == (name, m));
}

/// An include guard met a second time: after `#define N ...`, the lines between
/// `#ifndef N` and its `#endif` are dropped and nothing is written.
pub proof fn law_defined_name_skips_its_ifndef(
    st: PreState,
    name: Seq<char>,
    rest: Seq<Seq<char>>,
    line: Seq<char>,
    included: Seq<Seq<char>>,
)
    requires
        distinct_names(st.macros),
        !is_directive(line),
    ensures
        directive(st, seq!["#define"@, name] + rest, included) matches Ok(s1) ==> (directive(
            s1,
            seq!["#ifndef"@, name],
            included,
        ) matches Ok(s2) && !taking(s2.ifs) && line_step(s2, line, included) == Ok::<
            PreState,
            PreprocessError,
        >(s2) && s2.out == st.out),
{
    let ws = seq!["#define"@, name] + rest;
    assert(ws[0] == "#define"@ && ws[1] == name);
    law_directives(st, ws, included);
    if let Ok(s1) = directive(st, ws, included) {
        crate::preprocessor::law_define_then_defined(st.macros, name, join_words(ws.skip(2)));
        let w2 = seq!["#ifndef"@, name];
        law_directives(s1, w2, included);
        if let Ok(s2) = directive(s1, w2, included) {
            assert(s2.ifs.last() == IfState::Skipping);
            assert(!taking(s2.ifs)) by {
                assert(s2.ifs[s2.ifs.len() - 1] != IfState::Taking);
            }
            law_lines_follow_the_conditionals(s2, line, included);
        }
    }
}

} // verus!
