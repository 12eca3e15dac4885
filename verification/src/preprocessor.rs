pub mod spec;

use vstd::prelude::*;

use crate::chars::{is_alphanumeric, is_whitespace, spec_is_whitespace};
use crate::preprocessor::spec::{
    close_from, define, directive, distinct_names, expand_with, has_macro,
    is_directive, is_include_line, is_quote, join_words, lead_quotes, lemma_close_from,
    lemma_skip_nonws, lemma_skip_ws, lemma_word_end, line_step, lines_from, name_index, name_index_from,
    next_branch, opt_prepend, paths_of, replace_from, replace_word, run_lines, skip_nonws,
    skip_ws, spec_include_paths, spec_lines, spec_process, spec_words, strip_from, taking,
    trail_quotes, trim_quotes, trim_start, undefine, word_end, words_from, MacroTable, PreState,
    SpecMacro,
};
use crate::text::{
    append_chars, chars_equal, chars_equal_str, chars_of, chars_of_string, count_char,
    count_char_range, find_char, first_index_of, lemma_first_index_of, repeat_char, slice_chars,
    string_from_chars,
};

verus! {

/// The state of one open `#ifdef`/`#ifndef`.
#[derive(Debug, Clone, Copy, PartialEq, Eq, Structural)]
pub enum IfState {
    /// Its current branch is kept.
    Taking,
    /// Its current branch is dropped, and a later branch may be taken.
    Skipping,
    /// A branch was taken; the rest are dropped.
    Done,
}

/// Why a source cannot be preprocessed.
#[derive(Debug, Clone, Copy, PartialEq, Eq, Structural)]
pub enum PreprocessError {
    /// A `/*` comment has no `*/`.
    UnterminatedComment,
    /// `#if` is not supported.
    UnsupportedIf,
    /// A line starts with `#` but names no known directive.
    UnknownDirective,
    /// `#undef` without a name, while lines are taken.
    UndefWithoutName,
    ElifWithoutIf,
    ElseWithoutIf,
    EndifWithoutIf,
    /// An `#ifdef`/`#ifndef` is still open at the end of the source.
    UnterminatedIf,
}

/// A macro definition: an object macro is replaced by its text; a function macro
/// has parameters and a body.
#[derive(Debug, Clone, PartialEq)]
pub enum Macro {
    Object(String),
    Function(Vec<String>, String),
}

impl View for Macro {
    type V = SpecMacro;

    open spec fn view(&self) -> SpecMacro {
        match self {
            Macro::Object(v) => SpecMacro::Object(v@),
            Macro::Function(ps, b) => SpecMacro::Function(ps@.map_values(|p: String| p@), b@),
        }
    }
}

/// The texts of a list of character vectors.
pub open spec fn texts(v: Seq<Vec<char>>) -> Seq<Seq<char>> {
    v.map_values(|l: Vec<char>| l@)
}

/// The texts of a list of strings.
pub open spec fn string_texts(v: Seq<String>) -> Seq<Seq<char>> {
    v.map_values(|l: String| l@)
}

pub open spec fn table_view(ms: Seq<(Vec<char>, Macro)>) -> MacroTable {
    ms.map_values(|e: (Vec<char>, Macro)| (e.0@, e.1@))
}

/// A C preprocessor for the source it was made with: removes comments, keeps or
/// drops lines by `#ifdef`/`#ifndef`/`#elif`/`#else`/`#endif`, records `#define`
/// and `#undef`, expands object macros, and splices in included files.
///
/// The macro table holds each name once, in the order the names were first defined.
#[derive(Debug, Clone, PartialEq)]
pub struct Preprocessor {
    source: String,
    macros: Vec<(Vec<char>, Macro)>,
    if_state: Vec<IfState>,
}

proof fn lemma_opt_prepend_assoc(a: Seq<char>, b: Seq<char>, o: Option<Seq<char>>)
    ensures
        opt_prepend(a, opt_prepend(b, o)) == opt_prepend(a + b, o),
{
    if let Some(x) = o {
        assert((a + b) + x =~= a + (b + x));
    }
}

proof fn lemma_texts_push(v: Seq<Vec<char>>, l: Vec<char>)
    ensures
        texts(v.push(l)) == texts(v).push(l@),
{
    assert(texts(v.push(l)) =~= texts(v).push(l@));
}

/// Finds the `/` that closes a block comment whose body starts at `from`.
fn find_close(s: &Vec<char>, from: usize) -> (r: Option<usize>)
    requires
        1 <= from,
    ensures
        r matches Some(k) ==> close_from(s@, from + 1) == Some(k as int),
        r is None ==> close_from(s@, from + 1) is None,
{
    let mut j = from;
    while j < s.len() && j + 1 < s.len()
        invariant
            1 <= from <= j,
            close_from(s@, from + 1) == close_from(s@, j + 1),
        decreases s.len() - j,
    {
        if s[j] == '*' && s[j + 1] == '/' {
            return Some(j + 1);
        }
        j = j + 1;
    }
    None
}

/// The text with its comments removed (see `strip_from`), or `None` when a block
/// comment is not closed.
pub fn try_remove_comments(s: &Vec<char>) -> (r: Option<Vec<char>>)
    ensures
        r matches Some(v) ==> strip_from(s@, 0) == Some(v@),
        r is None ==> strip_from(s@, 0) is None,
{
    let mut out: Vec<char> = Vec::new();
    let mut i: usize = 0;
    assert(out@ + Seq::<char>::empty() =~= Seq::<char>::empty()) by {};
    proof {
        if let Some(x) = strip_from(s@, 0) {
            assert(Seq::<char>::empty() + x =~= x);
        }
    }
    while i < s.len()
        invariant
            i <= s.len(),
            strip_from(s@, 0) == opt_prepend(out@, strip_from(s@, i as int)),
        decreases s.len() - i,
    {
        let ghost before = out@;
        if s[i] == '/' && i + 1 < s.len() && s[i + 1] == '/' {
            match find_char(s, '\n', i + 2) {
                Some(k) => {
                    proof {
                        lemma_first_index_of(s@, '\n', i + 2);
                        lemma_opt_prepend_assoc(before, seq!['\n'], strip_from(s@, k + 1));
                    }
                    out.push('\n');
                    i = k + 1;
                },
                None => {
                    proof {
                        assert(out@ + Seq::<char>::empty() =~= out@);
                    }
                    return Some(out);
                },
            }
        } else if s[i] == '/' && i + 1 < s.len() && s[i + 1] == '*' {
            match find_close(s, i + 2) {
                Some(k) => {
                    proof {
                        lemma_close_from(s@, i + 3);
                    }
                    let n = count_char_range(s, '\n', i + 2, k);
                    if n == 0 {
                        out.push(' ');
                    } else {
                        let mut m: usize = 0;
                        while m < n
                            invariant
                                m <= n,
                                out@ == before + repeat_char('\n', m as nat),
                            decreases n - m,
                        {
                            out.push('\n');
                            m = m + 1;
                        }
                    }
                    proof {
                        lemma_opt_prepend_assoc(
                            before,
                            crate::preprocessor::spec::block_fill(n as nat),
                            strip_from(s@, k + 1),
                        );
                    }
                    i = k + 1;
                },
                None => {
                    return None;
                },
            }
        } else {
            proof {
                lemma_opt_prepend_assoc(before, seq![s@[i as int]], strip_from(s@, i + 1));
            }
            out.push(s[i]);
            i = i + 1;
        }
    }
    proof {
        assert(out@ + Seq::<char>::empty() =~= out@);
    }
    Some(out)
}

/// The text with its comments removed (see `strip_from`); every block comment
/// must be closed.
pub fn remove_comments(s: &Vec<char>) -> (r: Vec<char>)
    requires
        strip_from(s@, 0) is Some,
    ensures
        strip_from(s@, 0) == Some(r@),
{
    match try_remove_comments(s) {
        Some(t) => t,
        None => vstd::pervasive::unreached(),
    }
}

/// The lines of a text, as `str::lines` gives them.
pub fn split_lines(s: &Vec<char>) -> (r: Vec<Vec<char>>)
    ensures
        texts(r@) == spec_lines(s@),
{
    let mut r: Vec<Vec<char>> = Vec::new();
    let mut i: usize = 0;
    assert(texts(r@) + spec_lines(s@) =~= spec_lines(s@));
    while i < s.len()
        invariant
            i <= s.len(),
            spec_lines(s@) == texts(r@) + lines_from(s@, i as int),
        decreases s.len() - i,
    {
        let ghost before = texts(r@);
        match find_char(s, '\n', i) {
            Some(k) => {
                proof {
                    lemma_first_index_of(s@, '\n', i as int);
                }
                let mut line = slice_chars(s, i, k);
                if line.len() > 0 && line[line.len() - 1] == '\r' {
                    line.pop();
                }
                proof {
                    lemma_texts_push(r@, line);
                }
                r.push(line);
                i = k + 1;
                assert(before + (seq![line@] + lines_from(s@, i as int)) =~= texts(r@)
                    + lines_from(s@, i as int));
            },
            None => {
                let line = slice_chars(s, i, s.len());
                proof {
                    lemma_texts_push(r@, line);
                }
                r.push(line);
                i = s.len();
                assert(before + seq![line@] =~= texts(r@) + lines_from(s@, i as int));
            },
        }
    }
    assert(texts(r@) + lines_from(s@, i as int) =~= texts(r@));
    r
}

/// The first index at or after `i` that is not whitespace.
fn skip_ws_exec(s: &Vec<char>, i: usize) -> (r: usize)
    requires
        i <= s@.len(),
    ensures
        r == skip_ws(s@, i as int),
{
    let mut j = i;
    while j < s.len() && is_whitespace(s[j])
        invariant
            i <= j <= s@.len(),
            skip_ws(s@, i as int) == skip_ws(s@, j as int),
        decreases s.len() - j,
    {
        j = j + 1;
    }
    j
}

/// The first index at or after `i` that is whitespace.
fn skip_nonws_exec(s: &Vec<char>, i: usize) -> (r: usize)
    requires
        i <= s@.len(),
    ensures
        r == skip_nonws(s@, i as int),
{
    let mut j = i;
    while j < s.len() && !is_whitespace(s[j])
        invariant
            i <= j <= s@.len(),
            skip_nonws(s@, i as int) == skip_nonws(s@, j as int),
        decreases s.len() - j,
    {
        j = j + 1;
    }
    j
}

/// The text without its leading whitespace.
pub fn trim_start_chars(s: &Vec<char>) -> (r: Vec<char>)
    ensures
        r@ == trim_start(s@),
{
    let a = skip_ws_exec(s, 0);
    proof {
        lemma_skip_ws(s@, 0);
    }
    slice_chars(s, a, s.len())
}

/// The whitespace-separated words of a text.
pub fn split_words(s: &Vec<char>) -> (r: Vec<Vec<char>>)
    ensures
        texts(r@) == spec_words(s@),
{
    let mut r: Vec<Vec<char>> = Vec::new();
    let mut i: usize = 0;
    assert(texts(r@) + spec_words(s@) =~= spec_words(s@));
    while i < s.len()
        invariant
            i <= s.len(),
            spec_words(s@) == texts(r@) + words_from(s@, i as int),
        decreases s.len() - i,
    {
        let ghost before = texts(r@);
        let a = skip_ws_exec(s, i);
        proof {
            lemma_skip_ws(s@, i as int);
        }
        if a >= s.len() {
            assert(texts(r@) + words_from(s@, i as int) =~= texts(r@));
            return r;
        }
        let b = skip_nonws_exec(s, a);
        proof {
            lemma_skip_nonws(s@, a as int);
        }
        let w = slice_chars(s, a, b);
        proof {
            lemma_texts_push(r@, w);
        }
        r.push(w);
        i = b;
        assert(before + (seq![w@] + words_from(s@, i as int)) =~= texts(r@) + words_from(
            s@,
            i as int,
        ));
    }
    assert(texts(r@) + words_from(s@, i as int) =~= texts(r@));
    r
}

/// The words from index `from` on, joined with single spaces.
fn join_from(ws: &Vec<Vec<char>>, from: usize) -> (r: Vec<char>)
    requires
        from <= ws@.len(),
    ensures
        r@ == join_words(texts(ws@).skip(from as int)),
{
    let mut r: Vec<char> = Vec::new();
    let mut k = from;
    assert(texts(ws@).subrange(from as int, from as int) =~= Seq::<Seq<char>>::empty());
    while k < ws.len()
        invariant
            from <= k <= ws@.len(),
            r@ == join_words(texts(ws@).subrange(from as int, k as int)),
        decreases ws.len() - k,
    {
        let ghost part = texts(ws@).subrange(from as int, k + 1);
        assert(part.drop_last() =~= texts(ws@).subrange(from as int, k as int));
        assert(part.last() == ws@[k as int]@);
        if k > from {
            r.push(' ');
        }
        append_chars(&mut r, &ws[k]);
        proof {
            if k == from {
                assert(part.len() == 1);
                assert(Seq::<char>::empty() + ws@[k as int]@ =~= ws@[k as int]@);
            }
        }
        k = k + 1;
    }
    assert(texts(ws@).subrange(from as int, ws@.len() as int) =~= texts(ws@).skip(from as int));
    r
}

/// The end of the run of word characters from `i`.
fn word_end_exec(t: &Vec<char>, i: usize) -> (r: usize)
    requires
        i <= t@.len(),
    ensures
        r == word_end(t@, i as int),
{
    let mut j = i;
    while j < t.len() && (is_alphanumeric(t[j]) || t[j] == '_')
        invariant
            i <= j <= t@.len(),
            word_end(t@, i as int) == word_end(t@, j as int),
        decreases t.len() - j,
    {
        j = j + 1;
    }
    j
}

/// The text with every whole word equal to `name` replaced by `value`.
pub fn replace_word_chars(t: &Vec<char>, name: &Vec<char>, value: &Vec<char>) -> (r: Vec<char>)
    ensures
        r@ == replace_word(t@, name@, value@),
{
    let mut r: Vec<char> = Vec::new();
    let mut i: usize = 0;
    assert(r@ + replace_from(t@, 0, name@, value@) =~= replace_from(t@, 0, name@, value@));
    while i < t.len()
        invariant
            i <= t@.len(),
            replace_word(t@, name@, value@) == r@ + replace_from(t@, i as int, name@, value@),
        decreases t.len() - i,
    {
        let ghost before = r@;
        let c = t[i];
        if is_alphanumeric(c) || c == '_' {
            let j = word_end_exec(t, i + 1);
            proof {
                lemma_word_end(t@, i + 1);
            }
            let w = slice_chars(t, i, j);
            if chars_equal(&w, name) {
                append_chars(&mut r, value);
            } else {
                append_chars(&mut r, &w);
            }
            i = j;
            assert(before + ((if w@ == name@ {
                value@
            } else {
                w@
            }) + replace_from(t@, i as int, name@, value@)) =~= r@ + replace_from(
                t@,
                i as int,
                name@,
                value@,
            ));
        } else {
            r.push(c);
            i = i + 1;
            assert(before + (seq![c] + replace_from(t@, i as int, name@, value@)) =~= r@
                + replace_from(t@, i as int, name@, value@));
        }
    }
    assert(r@ + replace_from(t@, i as int, name@, value@) =~= r@);
    r
}

/// A path without the quotes and angle brackets around it.
fn trim_quotes_chars(w: &Vec<char>) -> (r: Vec<char>)
    ensures
        r@ == trim_quotes(w@),
{
    let mut a: usize = 0;
    while a < w.len() && (w[a] == '"' || w[a] == '<' || w[a] == '>')
        invariant
            a <= w@.len(),
            lead_quotes(w@, 0) == lead_quotes(w@, a as int),
        decreases w.len() - a,
    {
        a = a + 1;
    }
    let mut b: usize = w.len();
    while b > a && (w[b - 1] == '"' || w[b - 1] == '<' || w[b - 1] == '>')
        invariant
            a <= b <= w@.len(),
            trail_quotes(w@, w@.len() as int, a as int) == trail_quotes(w@, b as int, a as int),
        decreases b - a,
    {
        b = b - 1;
    }
    slice_chars(w, a, b)
}

/// The state that a preprocessor starts its lines from.
pub open spec fn start_state(macros: MacroTable, ifs: Seq<IfState>, out: Seq<char>, used: nat) -> PreState {
    PreState { macros, ifs, out, used }
}

proof fn lemma_name_index_from(ms: MacroTable, name: Seq<char>, i: int)
    requires
        0 <= i,
    ensures
        name_index_from(ms, name, i) matches Some(k) ==> i <= k < ms.len() && ms[k].0 == name,
        name_index_from(ms, name, i) is None ==> forall|j: int| i <= j < ms.len() ==> ms[j].0 != name,
    decreases ms.len() - i,
{
    if i < ms.len() && ms[i].0 != name {
        lemma_name_index_from(ms, name, i + 1);
    }
}


/// After `#define name value` the name is defined, and the table still holds no
/// name twice.
pub proof fn law_define_then_defined(ms: MacroTable, name: Seq<char>, value: Seq<char>)
    requires
        distinct_names(ms),
    ensures
        has_macro(define(ms, name, value), name),
        distinct_names(define(ms, name, value)),
{
    lemma_name_index_from(ms, name, 0);
    let d = define(ms, name, value);
    lemma_name_index_from(d, name, 0);
    match name_index(ms, name) {
        Some(i) => {
            assert(d[i].0 == name);
        },
        None => {
            assert(d[ms.len() as int].0 == name);
        },
    }
}

/// After `#undef name` the name is no longer defined, and the table still holds
/// no name twice.
pub proof fn law_undefine_removes(ms: MacroTable, name: Seq<char>)
    requires
        distinct_names(ms),
    ensures
        !has_macro(undefine(ms, name), name),
        distinct_names(undefine(ms, name)),
{
    lemma_name_index_from(ms, name, 0);
    let u = undefine(ms, name);
    lemma_name_index_from(u, name, 0);
    match name_index(ms, name) {
        Some(i) => {
            assert forall|j: int| 0 <= j < u.len() implies u[j].0 != name by {
                if j < i {
                    assert(u[j] == ms[j]);
                } else {
                    assert(u[j] == ms[j + 1]);
                }
            }
        },
        None => {},
    }
}

/// `#undef` of a name that a `#define` has just added gives back the table as it
/// was before the definition.
pub proof fn law_undef_undoes_define(ms: MacroTable, name: Seq<char>, value: Seq<char>)
    requires
        !has_macro(ms, name),
    ensures
        undefine(define(ms, name, value), name) == ms,
{
    lemma_name_index_from(ms, name, 0);
    let d = define(ms, name, value);
    assert(d == ms.push((name, SpecMacro::Object(value))));
    lemma_name_index_from(d, name, 0);
    assert forall|j: int| 0 <= j < ms.len() implies d[j].0 != name by {
        assert(d[j] == ms[j]);
    }
    assert(d[ms.len() as int].0 == name);
    assert(name_index(d, name) == Some(ms.len() as int));
    assert(d.remove(ms.len() as int) =~= ms);
}

proof fn lemma_paths_prefix(ls: Seq<Seq<char>>, k: int)
    requires
        0 <= k <= ls.len(),
    ensures
        paths_of(ls.take(k)).len() <= paths_of(ls).len(),
    decreases ls.len() - k,
{
    if k < ls.len() {
        lemma_paths_prefix(ls, k + 1);
        assert(ls.take(k + 1).drop_last() =~= ls.take(k));
    } else {
        assert(ls.take(k) =~= ls);
    }
}

proof fn lemma_run_lines_err(st: PreState, ls: Seq<Seq<char>>, k: int, inc: Seq<Seq<char>>)
    requires
        0 <= k <= ls.len(),
        run_lines(st, ls.take(k), inc) is Err,
    ensures
        run_lines(st, ls, inc) == run_lines(st, ls.take(k), inc),
    decreases ls.len() - k,
{
    if k < ls.len() {
        assert(ls.take(k + 1).drop_last() =~= ls.take(k));
        lemma_run_lines_err(st, ls, k + 1, inc);
    } else {
        assert(ls.take(k) =~= ls);
    }
}

impl Preprocessor {
    /// The source text (after `preprocess`, its result).
    pub closed spec fn spec_source(&self) -> Seq<char> {
        self.source@
    }

    /// The macro table.
    pub closed spec fn spec_macros(&self) -> MacroTable {
        table_view(self.macros@)
    }

    /// The open conditionals, innermost last.
    pub closed spec fn spec_ifs(&self) -> Seq<IfState> {
        self.if_state@
    }

    /// No macro name occurs twice.
    pub open spec fn wf(&self) -> bool {
        distinct_names(self.spec_macros())
    }

    pub fn new(source: &str) -> (r: Self)
        ensures
            r.spec_source() == source@,
            r.spec_macros() == Seq::<(Seq<char>, SpecMacro)>::empty(),
            r.spec_ifs() == Seq::<IfState>::empty(),
            r.wf(),
    {
        let r = Self { source: source.to_owned(), macros: Vec::new(), if_state: Vec::new() };
        assert(r.spec_macros() =~= Seq::<(Seq<char>, SpecMacro)>::empty());
        r
    }

    /// Whether lines are kept: every open conditional is taking its branch.
    fn is_taking(&self) -> (r: bool)
        ensures
            r == taking(self.spec_ifs()),
    {
        let mut k: usize = 0;
        while k < self.if_state.len()
            invariant
                k <= self.if_state@.len(),
                forall|j: int| 0 <= j < k ==> self.if_state@[j] == IfState::Taking,
            decreases self.if_state.len() - k,
        {
            if self.if_state[k] != IfState::Taking {
                return false;
            }
            k = k + 1;
        }
        true
    }

    /// Where the macro table holds `name`.
    fn find_macro(&self, name: &Vec<char>) -> (r: Option<usize>)
        ensures
            r matches Some(i) ==> name_index(self.spec_macros(), name@) == Some(i as int),
            r is None ==> name_index(self.spec_macros(), name@) is None,
    {
        let mut k: usize = 0;
        while k < self.macros.len()
            invariant
                k <= self.macros@.len(),
                name_index(self.spec_macros(), name@) == name_index_from(
                    self.spec_macros(),
                    name@,
                    k as int,
                ),
            decreases self.macros.len() - k,
        {
            if chars_equal(&self.macros[k].0, name) {
                return Some(k);
            }
            k = k + 1;
        }
        None
    }

    /// A line with the object macros expanded, in table order.
    fn expand_macros(&self, line: &Vec<char>) -> (r: Vec<char>)
        ensures
            r@ == expand_with(line@, self.spec_macros()),
    {
        let mut r = slice_chars(line, 0, line.len());
        assert(line@.subrange(0, line@.len() as int) =~= line@);
        let mut k: usize = 0;
        assert(self.spec_macros().take(0) =~= Seq::<(Seq<char>, SpecMacro)>::empty());
        while k < self.macros.len()
            invariant
                k <= self.macros@.len(),
                r@ == expand_with(line@, self.spec_macros().take(k as int)),
            decreases self.macros.len() - k,
        {
            let ghost part = self.spec_macros().take(k + 1);
            assert(part.drop_last() =~= self.spec_macros().take(k as int));
            assert(part.last() == (self.macros@[k as int].0@, self.macros@[k as int].1@));
            match &self.macros[k].1 {
                Macro::Object(v) => {
                    let vc = chars_of_string(v);
                    r = replace_word_chars(&r, &self.macros[k].0, &vc);
                },
                Macro::Function(_, _) => {},
            }
            k = k + 1;
        }
        assert(self.spec_macros().take(self.macros@.len() as int) =~= self.spec_macros());
        r
    }

    /// `#define`: `parts` are the words after the directive; the first is the name,
    /// the others, joined by spaces, the replacement text.
    fn handle_define(&mut self, ws: &Vec<Vec<char>>)
        requires
            old(self).wf(),
            ws@.len() >= 1,
        ensures
            final(self).wf(),
            final(self).spec_ifs() == old(self).spec_ifs(),
            final(self).spec_source() == old(self).spec_source(),
            final(self).spec_macros() == (if ws@.len() >= 2 {
                define(old(self).spec_macros(), ws@[1]@, join_words(texts(ws@).skip(2)))
            } else {
                old(self).spec_macros()
            }),
    {
        if ws.len() < 2 {
            return;
        }
        let name = slice_chars(&ws[1], 0, ws[1].len());
        assert(ws@[1]@.subrange(0, ws@[1]@.len() as int) =~= ws@[1]@);
        let value = join_from(ws, 2);
        let value_string = string_from_chars(&value);
        let ghost ms = old(self).spec_macros();
        match self.find_macro(&name) {
            Some(i) => {
                proof {
                    lemma_name_index_from(ms, name@, 0);
                }
                self.macros.set(i, (name, Macro::Object(value_string)));
                assert(self.spec_macros() =~= ms.update(
                    i as int,
                    (name@, SpecMacro::Object(value@)),
                ));
            },
            None => {
                proof {
                    lemma_name_index_from(ms, name@, 0);
                }
                self.macros.push((name, Macro::Object(value_string)));
                assert(self.spec_macros() =~= ms.push((name@, SpecMacro::Object(value@))));
            },
        }
    }

    /// `#undef name`: forgets the macro.
    fn handle_undef(&mut self, name: &Vec<char>)
        requires
            old(self).wf(),
        ensures
            final(self).wf(),
            final(self).spec_ifs() == old(self).spec_ifs(),
            final(self).spec_source() == old(self).spec_source(),
            final(self).spec_macros() == undefine(old(self).spec_macros(), name@),
    {
        let ghost ms = old(self).spec_macros();
        match self.find_macro(name) {
            Some(i) => {
                proof {
                    lemma_name_index_from(ms, name@, 0);
                }
                self.macros.remove(i);
                assert(self.spec_macros() =~= ms.remove(i as int));
                assert forall|a: int, b: int|
                    0 <= a < self.spec_macros().len() && 0 <= b < self.spec_macros().len() && a
                        != b implies self.spec_macros()[a].0 != self.spec_macros()[b].0 by {
                    let a2 = if a < i { a } else { a + 1 };
                    let b2 = if b < i { b } else { b + 1 };
                    assert(self.spec_macros()[a] == ms[a2]);
                    assert(self.spec_macros()[b] == ms[b2]);
                }
            },
            None => {},
        }
    }

    /// Opens a conditional, taking its first branch when `condition` holds.
    fn push_if_state(&mut self, condition: bool)
        ensures
            final(self).spec_ifs() == old(self).spec_ifs().push(
                if condition {
                    IfState::Taking
                } else {
                    IfState::Skipping
                },
            ),
            final(self).spec_macros() == old(self).spec_macros(),
            final(self).spec_source() == old(self).spec_source(),
    {
        let state = if condition {
            IfState::Taking
        } else {
            IfState::Skipping
        };
        self.if_state.push(state);
    }

    /// `#elif`: moves the innermost conditional to its next branch.
    fn handle_elif(&mut self)
        requires
            old(self).spec_ifs().len() > 0,
        ensures
            final(self).spec_ifs() == old(self).spec_ifs().update(
                old(self).spec_ifs().len() - 1,
                next_branch(old(self).spec_ifs().last()),
            ),
            final(self).spec_macros() == old(self).spec_macros(),
            final(self).spec_source() == old(self).spec_source(),
    {
        let n = self.if_state.len();
        let next = match self.if_state[n - 1] {
            IfState::Taking => IfState::Done,
            IfState::Skipping => IfState::Taking,
            IfState::Done => IfState::Done,
        };
        self.if_state.set(n - 1, next);
    }

    /// `#else`: moves the innermost conditional to its next branch.
    fn handle_else(&mut self)
        requires
            old(self).spec_ifs().len() > 0,
        ensures
            final(self).spec_ifs() == old(self).spec_ifs().update(
                old(self).spec_ifs().len() - 1,
                next_branch(old(self).spec_ifs().last()),
            ),
            final(self).spec_macros() == old(self).spec_macros(),
            final(self).spec_source() == old(self).spec_source(),
    {
        let n = self.if_state.len();
        let next = match self.if_state[n - 1] {
            IfState::Taking => IfState::Done,
            IfState::Skipping => IfState::Taking,
            IfState::Done => IfState::Done,
        };
        self.if_state.set(n - 1, next);
    }

    /// `#endif`: closes the innermost conditional.
    fn handle_endif(&mut self)
        requires
            old(self).spec_ifs().len() > 0,
        ensures
            final(self).spec_ifs() == old(self).spec_ifs().drop_last(),
            final(self).spec_macros() == old(self).spec_macros(),
            final(self).spec_source() == old(self).spec_source(),
    {
        self.if_state.pop();
    }

    /// The error that the directive line `t` (which starts with `#`) meets, as
    /// `directive` says, or `None` when it can act: an unknown directive, `#if`,
    /// `#endif`/`#elif`/`#else` with no conditional open, and `#undef` without a
    /// name while lines are taken.
    fn directive_error(&self, t: &Vec<char>, Ghost(st): Ghost<PreState>, Ghost(incs): Ghost<Seq<Seq<char>>>) -> (r: Option<PreprocessError>)
        requires
            t@.len() > 0,
            t@[0] == '#',
            st.macros == self.spec_macros(),
            st.ifs == self.spec_ifs(),
        ensures
            match directive(st, spec_words(t@), incs) {
                Ok(_) => r is None,
                Err(e) => r == Some(e),
            },
    {
        let ws = split_words(t);
        proof {
            lemma_skip_ws(t@, 0);
            lemma_skip_nonws(t@, 0);
            assert(skip_ws(t@, 0) == 0);
        }
        assert(ws@.len() >= 1);
        assert(texts(ws@).len() == ws@.len());
        assert(texts(ws@)[0] == ws@[0]@);
        let d = &ws[0];
        if chars_equal_str(d, "#include") || chars_equal_str(d, "#define") || chars_equal_str(
            d,
            "#ifdef",
        ) {
            None
        } else if chars_equal_str(d, "#if") {
            Some(PreprocessError::UnsupportedIf)
        } else if chars_equal_str(d, "#ifndef") {
            None
        } else if chars_equal_str(d, "#endif") {
            if self.if_state.len() == 0 {
                Some(PreprocessError::EndifWithoutIf)
            } else {
                None
            }
        } else if chars_equal_str(d, "#elif") {
            if self.if_state.len() == 0 {
                Some(PreprocessError::ElifWithoutIf)
            } else {
                None
            }
        } else if chars_equal_str(d, "#else") {
            if self.if_state.len() == 0 {
                Some(PreprocessError::ElseWithoutIf)
            } else {
                None
            }
        } else if chars_equal_str(d, "#undef") {
            if self.is_taking() && ws.len() < 2 {
                Some(PreprocessError::UndefWithoutName)
            } else {
                None
            }
        } else {
            Some(PreprocessError::UnknownDirective)
        }
    }

    /// A directive line (`t` starts with `#`) that meets no error: acts as
    /// `directive` says; an `#include` appends the next of the `included` texts.
    fn handle_macros(
        &mut self,
        t: &Vec<char>,
        result: &mut Vec<char>,
        included: &Vec<String>,
        used: &mut usize,
    )
        requires
            old(self).wf(),
            t@.len() > 0,
            t@[0] == '#',
            (spec_words(t@).len() >= 2 && spec_words(t@)[0] == "#include"@) ==> *old(used)
                < included@.len(),
            directive(
                start_state(
                    old(self).spec_macros(),
                    old(self).spec_ifs(),
                    old(result)@,
                    *old(used) as nat,
                ),
                spec_words(t@),
                string_texts(included@),
            ) is Ok,
        ensures
            final(self).wf(),
            final(self).spec_source() == old(self).spec_source(),
            match directive(
                start_state(
                    old(self).spec_macros(),
                    old(self).spec_ifs(),
                    old(result)@,
                    *old(used) as nat,
                ),
                spec_words(t@),
                string_texts(included@),
            ) {
                Ok(s2) => {
                    &&& final(self).spec_macros() == s2.macros
                    &&& final(self).spec_ifs() == s2.ifs
                    &&& final(result)@ == s2.out
                    &&& *final(used) as nat == s2.used
                },
                Err(_) => false,
            },
    {
        let ws = split_words(t);
        proof {
            lemma_skip_ws(t@, 0);
            lemma_skip_nonws(t@, 0);
            assert(skip_ws(t@, 0) == 0);
        }
        assert(ws@.len() >= 1);
        assert(texts(ws@).len() == ws@.len());
        assert(texts(ws@)[0] == ws@[0]@);
        assert(ws@.len() >= 2 ==> texts(ws@)[1] == ws@[1]@);
        let d = &ws[0];
        if chars_equal_str(d, "#include") {
            if ws.len() >= 2 {
                assert(spec_words(t@)[0] == "#include"@);
                let u = *used;
                let n = included.len();
                assert(u < n);
                let text = chars_of_string(&included[u]);
                append_chars(result, &text);
                *used = u + 1;
            }
        } else if chars_equal_str(d, "#define") {
            self.handle_define(&ws);
        } else if chars_equal_str(d, "#ifdef") {
            let condition = ws.len() >= 2 && self.find_macro(&ws[1]).is_some();
            self.push_if_state(condition);
        } else if chars_equal_str(d, "#ifndef") {
            let condition = ws.len() < 2 || self.find_macro(&ws[1]).is_none();
            self.push_if_state(condition);
        } else if chars_equal_str(d, "#endif") {
            self.handle_endif();
        } else if chars_equal_str(d, "#elif") {
            self.handle_elif();
        } else if chars_equal_str(d, "#else") {
            self.handle_else();
        } else if chars_equal_str(d, "#undef") {
            if self.is_taking() {
                self.handle_undef(&ws[1]);
            }
        }
    }

    /// Runs the lines of a comment-free text, as `run_lines` says, then requires
    /// every conditional to be closed.
    fn try_process_macros(&mut self, text: &Vec<char>, included: &Vec<String>) -> (r: Result<
        Vec<char>,
        PreprocessError,
    >)
        requires
            old(self).wf(),
            paths_of(spec_lines(text@)).len() <= included@.len(),
        ensures
            final(self).wf(),
            final(self).spec_source() == old(self).spec_source(),
            match run_lines(
                start_state(old(self).spec_macros(), old(self).spec_ifs(), Seq::empty(), 0),
                spec_lines(text@),
                string_texts(included@),
            ) {
                Ok(st) => if st.ifs.len() > 0 {
                    r == Err::<Vec<char>, PreprocessError>(PreprocessError::UnterminatedIf)
                } else {
                    &&& r matches Ok(v) && v@ == st.out
                    &&& final(self).spec_macros() == st.macros
                    &&& final(self).spec_ifs() == st.ifs
                },
                Err(e) => r == Err::<Vec<char>, PreprocessError>(e),
            },
    {
        let lines = split_lines(text);
        let ghost ls = texts(lines@);
        let ghost incs = string_texts(included@);
        let ghost init = start_state(self.spec_macros(), self.spec_ifs(), Seq::empty(), 0);
        let mut result: Vec<char> = Vec::new();
        let mut used: usize = 0;
        let mut i: usize = 0;
        assert(ls.take(0) =~= Seq::<Seq<char>>::empty());
        while i < lines.len()
            invariant
                i <= lines@.len(),
                ls == texts(lines@),
                ls == spec_lines(text@),
                incs == string_texts(included@),
                init == start_state(old(self).spec_macros(), old(self).spec_ifs(), Seq::empty(), 0),
                self.wf(),
                self.spec_source() == old(self).spec_source(),
                run_lines(init, ls.take(i as int), incs) == Ok::<PreState, PreprocessError>(
                    start_state(self.spec_macros(), self.spec_ifs(), result@, used as nat),
                ),
                used as nat == paths_of(ls.take(i as int)).len(),
                paths_of(ls).len() <= included@.len(),
            decreases lines.len() - i,
        {
            let ghost prefix = ls.take(i + 1);
            assert(prefix.drop_last() =~= ls.take(i as int));
            assert(prefix.last() == lines@[i as int]@);
            proof {
                lemma_paths_prefix(ls, i + 1);
            }
            let line = &lines[i];
            let trimmed = trim_start_chars(line);
            let ghost s1 = start_state(self.spec_macros(), self.spec_ifs(), result@, used as nat);
            assert(run_lines(init, prefix, incs) == line_step(s1, line@, incs));
            if trimmed.len() > 0 && trimmed[0] == '#' {
                assert(is_directive(line@));
                match self.directive_error(&trimmed, Ghost(s1), Ghost(incs)) {
                    None => {
                        self.handle_macros(&trimmed, &mut result, included, &mut used);
                    },
                    Some(e) => {
                        assert(trimmed@ == trim_start(line@));
                        assert(line_step(s1, line@, incs) == Err::<PreState, PreprocessError>(e));
                        assert(run_lines(init, prefix, incs) == Err::<PreState, PreprocessError>(e));
                        proof {
                            lemma_run_lines_err(init, ls, i + 1, incs);
                        }
                        assert(run_lines(init, ls, incs) == Err::<PreState, PreprocessError>(e));
                        return Err(e);
                    },
                }
            } else if self.is_taking() {
                assert(!is_directive(line@));
                let expanded = self.expand_macros(line);
                let ghost r0 = result@;
                append_chars(&mut result, &expanded);
                result.push('\n');
                assert(result@ =~= r0 + expanded@ + seq!['\n']);
                assert(!is_include_line(line@));
            } else {
                assert(!is_directive(line@));
                assert(!is_include_line(line@));
            }
            assert(paths_of(prefix).len() == used as nat);
            i = i + 1;
        }
        assert(ls.take(lines@.len() as int) =~= ls);
        if self.if_state.len() > 0 {
            return Err(PreprocessError::UnterminatedIf);
        }
        Ok(result)
    }

    /// Runs the lines of a comment-free text, as `run_lines` says; no line may meet
    /// an error, and every conditional must be closed at the end.
    fn process_macros(&mut self, text: &Vec<char>, included: &Vec<String>) -> (r: Vec<char>)
        requires
            old(self).wf(),
            paths_of(spec_lines(text@)).len() <= included@.len(),
            run_lines(
                start_state(old(self).spec_macros(), old(self).spec_ifs(), Seq::empty(), 0),
                spec_lines(text@),
                string_texts(included@),
            ) matches Ok(st) && st.ifs.len() == 0,
        ensures
            final(self).wf(),
            final(self).spec_source() == old(self).spec_source(),
            run_lines(
                start_state(old(self).spec_macros(), old(self).spec_ifs(), Seq::empty(), 0),
                spec_lines(text@),
                string_texts(included@),
            ) matches Ok(st) && {
                &&& r@ == st.out
                &&& final(self).spec_macros() == st.macros
                &&& final(self).spec_ifs() == st.ifs
            },
    {
        match self.try_process_macros(text, included) {
            Ok(v) => v,
            Err(_) => vstd::pervasive::unreached(),
        }
    }

    /// Preprocesses the source, as `spec_process` says, or tells why it cannot be.
    /// `included` holds, for each path of `include_paths`, in order, the
    /// preprocessed text of that file.
    pub fn try_preprocess(&mut self, included: &Vec<String>) -> (r: Result<(), PreprocessError>)
        requires
            old(self).wf(),
            included@.len() == spec_include_paths(old(self).spec_source()).len(),
        ensures
            final(self).wf(),
            match spec_process(
                old(self).spec_source(),
                old(self).spec_macros(),
                old(self).spec_ifs(),
                string_texts(included@),
            ) {
                Ok(st) => {
                    &&& r is Ok
                    &&& final(self).spec_source() == st.out
                    &&& final(self).spec_macros() == st.macros
                    &&& final(self).spec_ifs() == st.ifs
                },
                Err(e) => r == Err::<(), PreprocessError>(e),
            },
    {
        let s = chars_of_string(&self.source);
        match try_remove_comments(&s) {
            None => Err(PreprocessError::UnterminatedComment),
            Some(t) => {
                match self.try_process_macros(&t, included) {
                    Ok(out) => {
                        self.source = string_from_chars(&out);
                        Ok(())
                    },
                    Err(e) => Err(e),
                }
            },
        }
    }

    /// Preprocesses the source and returns the result, which becomes the source.
    /// `included` holds, for each path of `include_paths`, in order, the preprocessed
    /// text of that file.
    pub fn preprocess(&mut self, included: &Vec<String>) -> (r: &str)
        requires
            old(self).wf(),
            included@.len() == spec_include_paths(old(self).spec_source()).len(),
            spec_process(
                old(self).spec_source(),
                old(self).spec_macros(),
                old(self).spec_ifs(),
                string_texts(included@),
            ) is Ok,
        ensures
            final(self).wf(),
            r@ == final(self).spec_source(),
            spec_process(
                old(self).spec_source(),
                old(self).spec_macros(),
                old(self).spec_ifs(),
                string_texts(included@),
            ) matches Ok(st) && {
                &&& r@ == st.out
                &&& final(self).spec_macros() == st.macros
                &&& final(self).spec_ifs() == st.ifs
            },
    {
        let s = chars_of_string(&self.source);
        let t = remove_comments(&s);
        let out = self.process_macros(&t, included);
        self.source = string_from_chars(&out);
        self.source.as_str()
    }

    /// The paths of the `#include` directives of the source, in order, without their
    /// quotes or angle brackets.
    pub fn include_paths(&self) -> (r: Vec<String>)
        ensures
            string_texts(r@) == spec_include_paths(self.spec_source()),
    {
        let mut r: Vec<String> = Vec::new();
        let s = chars_of_string(&self.source);
        let t = match try_remove_comments(&s) {
            Some(t) => t,
            None => {
                assert(string_texts(r@) =~= Seq::<Seq<char>>::empty());
                return r;
            },
        };
        let lines = split_lines(&t);
        let ghost ls = texts(lines@);
        let mut i: usize = 0;
        assert(ls.take(0) =~= Seq::<Seq<char>>::empty());
        assert(string_texts(r@) =~= Seq::<Seq<char>>::empty());
        while i < lines.len()
            invariant
                i <= lines@.len(),
                ls == texts(lines@),
                string_texts(r@) == paths_of(ls.take(i as int)),
            decreases lines.len() - i,
        {
            let ghost prefix = ls.take(i + 1);
            assert(prefix.drop_last() =~= ls.take(i as int));
            assert(prefix.last() == lines@[i as int]@);
            let trimmed = trim_start_chars(&lines[i]);
            if trimmed.len() > 0 && trimmed[0] == '#' {
                let ws = split_words(&trimmed);
                if ws.len() >= 2 && chars_equal_str(&ws[0], "#include") {
                    let path = trim_quotes_chars(&ws[1]);
                    let p = string_from_chars(&path);
                    let ghost before = string_texts(r@);
                    r.push(p);
                    assert(string_texts(r@) =~= before.push(path@));
                }
            }
            i = i + 1;
        }
        assert(ls.take(lines@.len() as int) =~= ls);
        r
    }
}

} // verus!
