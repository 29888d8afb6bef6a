//! Production-source hygiene budgets for Faber workspace crates.
//!
//! Scans non-test Rust sources for banned patterns (`.unwrap()`, `panic!(`, and
//! similar) and structural test-boundary violations. Directory walking and file
//! reading happen at the caller; this module decides which files count, blanks
//! out comments and literals, counts patterns, and judges the counts.

use vstd::prelude::*;
use crate::paths::{
    components, ends_with_components, extension_of, file_name, file_name_of, path_components,
    path_ends_with, render, render_parts, stem, stem_of, Component, PathPart, extension,
};
use crate::text::{
    chars_eq, chars_of, contains, contains_seq, count_occurrences, decimal,
    decimal_string, ends_with, lemma_occurrences_from_bound, occurrences, push_char, string_of,
    sub_chars,
};

verus! {

broadcast use vstd::string::group_string_axioms;

/// Lexer state of the source scrubber.
#[derive(Clone, Copy, PartialEq, Eq, Structural)]
pub enum ScrubState {
    /// Ordinary code.
    Code,
    /// Inside a lifetime name that follows a `'`.
    Lifetime,
    /// Inside a `//` comment.
    LineComment,
    /// Inside a `/* */` comment.
    BlockComment,
    /// Inside a `"` string literal.
    Str,
    /// Inside a `'` character literal.
    CharLit,
}

/// First character of a lifetime name.
pub open spec fn is_lifetime_start(c: char) -> bool {
    ('a' <= c && c <= 'z') || ('A' <= c && c <= 'Z') || c == '_'
}

/// Later characters of a lifetime name.
pub open spec fn is_lifetime_continue(c: char) -> bool {
    is_lifetime_start(c) || ('0' <= c && c <= '9')
}

/// The quote at `i` is followed by one character and a closing quote: it opens
/// a character literal such as `'x'`, not a lifetime.
pub open spec fn closes_char_literal(s: Seq<char>, i: int) -> bool {
    i + 2 < s.len() && s[i + 2] == '\''
}

/// Termination rank of a state: a lifetime may hand the current character back
/// to the code state without consuming it.
pub open spec fn state_rank(state: ScrubState) -> int {
    if state == ScrubState::Lifetime {
        1
    } else {
        0
    }
}

/// Scrubbed output for the input suffix starting at `i`, when the scrubber is in
/// `state` at that point.
pub open spec fn scrub_from(s: Seq<char>, i: int, state: ScrubState) -> Seq<char>
    decreases s.len() - i, state_rank(state),
{
    if i < 0 || i >= s.len() {
        Seq::empty()
    } else {
        let ch = s[i];
        let has_next = i + 1 < s.len();
        match state {
            ScrubState::Code => {
                if ch == '/' && has_next && s[i + 1] == '/' {
                    seq![' ', ' '] + scrub_from(s, i + 2, ScrubState::LineComment)
                } else if ch == '/' && has_next && s[i + 1] == '*' {
                    seq![' ', ' '] + scrub_from(s, i + 2, ScrubState::BlockComment)
                } else if ch == '"' {
                    seq![' '] + scrub_from(s, i + 1, ScrubState::Str)
                } else if ch == '\'' {
                    if has_next && is_lifetime_start(s[i + 1]) && !closes_char_literal(s, i) {
                        seq![' '] + scrub_from(s, i + 1, ScrubState::Lifetime)
                    } else if has_next {
                        seq![' '] + scrub_from(s, i + 1, ScrubState::CharLit)
                    } else {
                        seq![' ']
                    }
                } else {
                    seq![ch] + scrub_from(s, i + 1, ScrubState::Code)
                }
            },
            ScrubState::Lifetime => {
                if is_lifetime_continue(ch) {
                    seq![' '] + scrub_from(s, i + 1, ScrubState::Lifetime)
                } else {
                    scrub_from(s, i, ScrubState::Code)
                }
            },
            ScrubState::LineComment => {
                if ch == '\n' {
                    seq!['\n'] + scrub_from(s, i + 1, ScrubState::Code)
                } else {
                    seq![' '] + scrub_from(s, i + 1, ScrubState::LineComment)
                }
            },
            ScrubState::BlockComment => {
                if ch == '*' && has_next && s[i + 1] == '/' {
                    seq![' ', ' '] + scrub_from(s, i + 2, ScrubState::Code)
                } else if ch == '\n' {
                    seq!['\n'] + scrub_from(s, i + 1, ScrubState::BlockComment)
                } else {
                    seq![' '] + scrub_from(s, i + 1, ScrubState::BlockComment)
                }
            },
            ScrubState::Str | ScrubState::CharLit => {
                let quote = if state == ScrubState::Str {
                    '"'
                } else {
                    '\''
                };
                if ch == '\\' {
                    if has_next {
                        seq![' ', if s[i + 1] == '\n' {
                            '\n'
                        } else {
                            ' '
                        }] + scrub_from(s, i + 2, state)
                    } else {
                        seq![' ']
                    }
                } else if ch == quote {
                    seq![' '] + scrub_from(s, i + 1, ScrubState::Code)
                } else if ch == '\n' {
                    seq!['\n'] + scrub_from(s, i + 1, state)
                } else {
                    seq![' '] + scrub_from(s, i + 1, state)
                }
            },
        }
    }
}

/// The scrubbed form of a whole source text.
pub open spec fn scrubbed(s: Seq<char>) -> Seq<char> {
    scrub_from(s, 0, ScrubState::Code)
}

/// An output character either repeats the input character or blanks it; a
/// line break is never blanked.
pub open spec fn keeps_or_blanks(out: char, input: char) -> bool {
    out == input || (out == ' ' && input != '\n')
}

/// Scrubbing maps the suffix from `i` character for character.
pub proof fn lemma_scrub_from_shape(s: Seq<char>, i: int, state: ScrubState)
    requires
        0 <= i <= s.len(),
    ensures
        scrub_from(s, i, state).len() == s.len() - i,
        forall|j: int|
            0 <= j < s.len() - i ==> keeps_or_blanks(
                #[trigger] scrub_from(s, i, state)[j],
                s[i + j],
            ),
    decreases s.len() - i, state_rank(state),
{
    if i < s.len() {
        let ch = s[i];
        let has_next = i + 1 < s.len();
        match state {
            ScrubState::Code => {
                if ch == '/' && has_next && (s[i + 1] == '/' || s[i + 1] == '*') {
                    let st = if s[i + 1] == '/' {
                        ScrubState::LineComment
                    } else {
                        ScrubState::BlockComment
                    };
                    lemma_scrub_from_shape(s, i + 2, st);
                } else if ch == '"' {
                    lemma_scrub_from_shape(s, i + 1, ScrubState::Str);
                } else if ch == '\'' {
                    if has_next && is_lifetime_start(s[i + 1]) && !closes_char_literal(s, i) {
                        lemma_scrub_from_shape(s, i + 1, ScrubState::Lifetime);
                    } else if has_next {
                        lemma_scrub_from_shape(s, i + 1, ScrubState::CharLit);
                    }
                } else {
                    lemma_scrub_from_shape(s, i + 1, ScrubState::Code);
                }
            },
            ScrubState::Lifetime => {
                if is_lifetime_continue(ch) {
                    lemma_scrub_from_shape(s, i + 1, ScrubState::Lifetime);
                } else {
                    lemma_scrub_from_shape(s, i, ScrubState::Code);
                }
            },
            ScrubState::LineComment => {
                if ch == '\n' {
                    lemma_scrub_from_shape(s, i + 1, ScrubState::Code);
                } else {
                    lemma_scrub_from_shape(s, i + 1, ScrubState::LineComment);
                }
            },
            ScrubState::BlockComment => {
                if ch == '*' && has_next && s[i + 1] == '/' {
                    lemma_scrub_from_shape(s, i + 2, ScrubState::Code);
                } else {
                    lemma_scrub_from_shape(s, i + 1, ScrubState::BlockComment);
                }
            },
            ScrubState::Str | ScrubState::CharLit => {
                let quote = if state == ScrubState::Str {
                    '"'
                } else {
                    '\''
                };
                if ch == '\\' {
                    if has_next {
                        lemma_scrub_from_shape(s, i + 2, state);
                    }
                } else if ch == quote {
                    lemma_scrub_from_shape(s, i + 1, ScrubState::Code);
                } else {
                    lemma_scrub_from_shape(s, i + 1, state);
                }
            },
        }
    }
}

/// Scrubbing keeps the text's length and line structure: every output
/// character is the input character or a blank, and line breaks stay put.
pub proof fn lemma_scrub_preserves_layout(s: Seq<char>)
    ensures
        scrubbed(s).len() == s.len(),
        forall|j: int| 0 <= j < s.len() ==> keeps_or_blanks(#[trigger] scrubbed(s)[j], s[j]),
        forall|j: int| 0 <= j < s.len() ==> (#[trigger] scrubbed(s)[j] == '\n' <==> s[j] == '\n'),
{
    lemma_scrub_from_shape(s, 0, ScrubState::Code);
    assert forall|j: int| 0 <= j < s.len() implies (#[trigger] scrubbed(s)[j] == '\n' <==> s[j]
        == '\n') by {
        assert(keeps_or_blanks(scrub_from(s, 0, ScrubState::Code)[j], s[0 + j]));
    }
}

/// A character of code that starts no comment, string, char literal or
/// lifetime.
pub open spec fn is_plain_code(c: char) -> bool {
    c != '/' && c != '"' && c != '\''
}

/// Every character of `t` is plain code.
pub open spec fn plain_code(t: Seq<char>) -> bool {
    forall|j: int| 0 <= j < t.len() ==> is_plain_code(#[trigger] t[j])
}

/// `t` is the inside of a string literal: no unescaped `"`, and every `\`
/// escapes the character after it.
pub open spec fn string_body(t: Seq<char>) -> bool
    decreases t.len(),
{
    if t.len() == 0 {
        true
    } else if t[0] == '\\' {
        t.len() >= 2 && string_body(t.skip(2))
    } else {
        t[0] != '"' && string_body(t.skip(1))
    }
}

/// `t` with every character blanked but its line breaks.
pub open spec fn blanked(t: Seq<char>) -> Seq<char> {
    t.map_values(|c: char| if c == '\n' { '\n' } else { ' ' })
}

proof fn lemma_code_run(s: Seq<char>, i: int, j: int)
    requires
        0 <= i <= j <= s.len(),
        forall|k: int| i <= k < j ==> is_plain_code(#[trigger] s[k]),
    ensures
        scrub_from(s, i, ScrubState::Code) == s.subrange(i, j) + scrub_from(s, j, ScrubState::Code),
    decreases j - i,
{
    if i < j {
        assert(is_plain_code(s[i]));
        lemma_code_run(s, i + 1, j);
        assert(s.subrange(i, j) =~= seq![s[i]] + s.subrange(i + 1, j));
    } else {
        assert(s.subrange(i, j) =~= Seq::<char>::empty());
    }
}

proof fn lemma_string_run(s: Seq<char>, i: int, j: int)
    requires
        0 <= i <= j < s.len(),
        string_body(s.subrange(i, j)),
        s[j] == '"',
    ensures
        scrub_from(s, i, ScrubState::Str) == blanked(s.subrange(i, j)) + seq![' '] + scrub_from(
            s,
            j + 1,
            ScrubState::Code,
        ),
    decreases j - i,
{
    let t = s.subrange(i, j);
    if i == j {
        assert(blanked(t) =~= Seq::<char>::empty());
    } else {
        assert(t[0] == s[i]);
        if s[i] == '\\' {
            assert(t.skip(2) =~= s.subrange(i + 2, j));
            lemma_string_run(s, i + 2, j);
            assert(blanked(t) =~= seq![' ', if s[i + 1] == '\n' { '\n' } else { ' ' }] + blanked(
                s.subrange(i + 2, j),
            ));
        } else {
            assert(t.skip(1) =~= s.subrange(i + 1, j));
            lemma_string_run(s, i + 1, j);
            assert(blanked(t) =~= seq![if s[i] == '\n' { '\n' } else { ' ' }] + blanked(
                s.subrange(i + 1, j),
            ));
        }
    }
}

/// A string literal is blanked whole and the code around it is kept: for
/// code `c` and `d` that hold no comment, string, char literal or lifetime,
/// and a literal body `b` (every `\` escaping the next character, so an
/// escaped quote never ends the literal), scrubbing `c"b"d` gives `c`, the
/// literal blanked (line breaks kept), then `d` unchanged.
pub proof fn lemma_string_literal_blanked(c: Seq<char>, b: Seq<char>, d: Seq<char>)
    requires
        plain_code(c),
        string_body(b),
        plain_code(d),
    ensures
        scrubbed(c + seq!['"'] + b + seq!['"'] + d) == c + seq![' '] + blanked(b) + seq![' '] + d,
{
    let s = c + seq!['"'] + b + seq!['"'] + d;
    let n = c.len() as int;
    let m = b.len() as int;
    assert forall|k: int| 0 <= k < n implies is_plain_code(#[trigger] s[k]) by {
        assert(s[k] == c[k]);
    }
    lemma_code_run(s, 0, n);
    assert(s[n] == '"');
    assert(s.subrange(n + 1, n + 1 + m) =~= b);
    assert(s[n + 1 + m] == '"');
    lemma_string_run(s, n + 1, n + 1 + m);
    assert forall|k: int| n + 2 + m <= k < s.len() implies is_plain_code(#[trigger] s[k]) by {
        assert(s[k] == d[k - n - 2 - m]);
    }
    lemma_code_run(s, n + 2 + m, s.len() as int);
    assert(s.subrange(0, n) =~= c);
    assert(s.subrange(n + 2 + m, s.len() as int) =~= d);
    assert(scrub_from(s, s.len() as int, ScrubState::Code) =~= Seq::<char>::empty());
    assert(scrubbed(s) =~= c + seq![' '] + blanked(b) + seq![' '] + d);
}

/// A character literal is blanked whole and the code around it is kept, with
/// or without an escape: scrubbing `c'x'd` (for `x` neither `\\` nor `'`)
/// gives `c`, three blanks, then `d`, and scrubbing `c'\\x'd` (for any `x`, a
/// quote included) gives `c`, four blanks, then `d`; a line break stays one.
pub proof fn lemma_char_literal_blanked(c: Seq<char>, x: char, d: Seq<char>)
    requires
        plain_code(c),
        plain_code(d),
    ensures
        x != '\\' && x != '\'' ==> scrubbed(c + seq!['\'', x, '\''] + d) == c + seq![
            ' ',
            if x == '\n' { '\n' } else { ' ' },
            ' ',
        ] + d,
        scrubbed(c + seq!['\'', '\\', x, '\''] + d) == c + seq![
            ' ',
            ' ',
            if x == '\n' { '\n' } else { ' ' },
            ' ',
        ] + d,
{
    let n = c.len() as int;
    let bl = if x == '\n' { '\n' } else { ' ' };
    if x != '\\' && x != '\'' {
        let s = c + seq!['\'', x, '\''] + d;
        assert forall|k: int| 0 <= k < n implies is_plain_code(#[trigger] s[k]) by {
            assert(s[k] == c[k]);
        }
        lemma_code_run(s, 0, n);
        assert forall|k: int| n + 3 <= k < s.len() implies is_plain_code(#[trigger] s[k]) by {
            assert(s[k] == d[k - n - 3]);
        }
        lemma_code_run(s, n + 3, s.len() as int);
        assert(s[n] == '\'' && s[n + 1] == x && s[n + 2] == '\'');
        assert(closes_char_literal(s, n));
        assert(scrub_from(s, n + 2, ScrubState::CharLit) == seq![' '] + scrub_from(
            s,
            n + 3,
            ScrubState::Code,
        ));
        assert(scrub_from(s, n + 1, ScrubState::CharLit) == seq![bl] + scrub_from(
            s,
            n + 2,
            ScrubState::CharLit,
        ));
        assert(s.subrange(0, n) =~= c);
        assert(s.subrange(n + 3, s.len() as int) =~= d);
        assert(scrub_from(s, s.len() as int, ScrubState::Code) =~= Seq::<char>::empty());
        assert(scrubbed(s) =~= c + seq![' ', bl, ' '] + d);
    }
    let s = c + seq!['\'', '\\', x, '\''] + d;
    assert forall|k: int| 0 <= k < n implies is_plain_code(#[trigger] s[k]) by {
        assert(s[k] == c[k]);
    }
    lemma_code_run(s, 0, n);
    assert forall|k: int| n + 4 <= k < s.len() implies is_plain_code(#[trigger] s[k]) by {
        assert(s[k] == d[k - n - 4]);
    }
    lemma_code_run(s, n + 4, s.len() as int);
    assert(s[n] == '\'' && s[n + 1] == '\\' && s[n + 2] == x && s[n + 3] == '\'');
    assert(scrub_from(s, n + 3, ScrubState::CharLit) == seq![' '] + scrub_from(
        s,
        n + 4,
        ScrubState::Code,
    ));
    assert(scrub_from(s, n + 1, ScrubState::CharLit) == seq![' ', bl] + scrub_from(
        s,
        n + 3,
        ScrubState::CharLit,
    ));
    assert(s.subrange(0, n) =~= c);
    assert(s.subrange(n + 4, s.len() as int) =~= d);
    assert(scrub_from(s, s.len() as int, ScrubState::Code) =~= Seq::<char>::empty());
    assert(scrubbed(s) =~= c + seq![' ', ' ', bl, ' '] + d);
}

fn is_lifetime_start_exec(c: char) -> (b: bool)
    ensures
        b == is_lifetime_start(c),
{
    ('a' <= c && c <= 'z') || ('A' <= c && c <= 'Z') || c == '_'
}

fn is_lifetime_continue_exec(c: char) -> (b: bool)
    ensures
        b == is_lifetime_continue(c),
{
    is_lifetime_start_exec(c) || ('0' <= c && c <= '9')
}

/// Replace comments, strings, char literals, and lifetimes with spaces.
///
/// Preserves newlines so line-oriented counting stays accurate.
pub fn scrub_rust_source(source: &str) -> (out: String)
    ensures
        out@ == scrubbed(source@),
        out@.len() == source@.len(),
        forall|j: int|
            0 <= j < source@.len() ==> keeps_or_blanks(#[trigger] out@[j], source@[j]),
        forall|j: int| 0 <= j < source@.len() ==> (#[trigger] out@[j] == '\n' <==> source@[j] == '\n'),
{
    let s = chars_of(source);
    let n = s.len();
    let mut out = String::new();
    let mut i: usize = 0;
    let mut state = ScrubState::Code;
    while i < n
        invariant
            n == s@.len(),
            i <= n,
            out@ + scrub_from(s@, i as int, state) == scrubbed(s@),
        decreases n - i, state_rank(state),
    {
        let ch = s[i];
        let has_next = i + 1 < n;
        let ghost prev = out@;
        match state {
            ScrubState::Code => {
                if ch == '/' && has_next && s[i + 1] == '/' {
                    push_char(&mut out, ' ');
                    push_char(&mut out, ' ');
                    i = i + 2;
                    state = ScrubState::LineComment;
                    assert(out@ == prev + seq![' ', ' ']);
                } else if ch == '/' && has_next && s[i + 1] == '*' {
                    push_char(&mut out, ' ');
                    push_char(&mut out, ' ');
                    i = i + 2;
                    state = ScrubState::BlockComment;
                    assert(out@ == prev + seq![' ', ' ']);
                } else if ch == '"' {
                    push_char(&mut out, ' ');
                    i = i + 1;
                    state = ScrubState::Str;
                } else if ch == '\'' {
                    push_char(&mut out, ' ');
                    let closes = n - i > 2 && s[i + 2] == '\'';
                    if has_next && is_lifetime_start_exec(s[i + 1]) && !closes {
                        state = ScrubState::Lifetime;
                    } else if has_next {
                        state = ScrubState::CharLit;
                    }
                    i = i + 1;
                } else {
                    push_char(&mut out, ch);
                    i = i + 1;
                }
            },
            ScrubState::Lifetime => {
                if is_lifetime_continue_exec(ch) {
                    push_char(&mut out, ' ');
                    i = i + 1;
                } else {
                    state = ScrubState::Code;
                }
            },
            ScrubState::LineComment => {
                if ch == '\n' {
                    push_char(&mut out, '\n');
                    state = ScrubState::Code;
                } else {
                    push_char(&mut out, ' ');
                }
                i = i + 1;
            },
            ScrubState::BlockComment => {
                if ch == '*' && has_next && s[i + 1] == '/' {
                    push_char(&mut out, ' ');
                    push_char(&mut out, ' ');
                    i = i + 2;
                    state = ScrubState::Code;
                    assert(out@ == prev + seq![' ', ' ']);
                } else if ch == '\n' {
                    push_char(&mut out, '\n');
                    i = i + 1;
                } else {
                    push_char(&mut out, ' ');
                    i = i + 1;
                }
            },
            ScrubState::Str | ScrubState::CharLit => {
                let quote = if state == ScrubState::Str {
                    '"'
                } else {
                    '\''
                };
                if ch == '\\' {
                    push_char(&mut out, ' ');
                    if has_next {
                        let escaped = s[i + 1];
                        push_char(
                            &mut out,
                            if escaped == '\n' {
                                '\n'
                            } else {
                                ' '
                            },
                        );
                        i = i + 2;
                    } else {
                        i = i + 1;
                    }
                } else if ch == quote {
                    push_char(&mut out, ' ');
                    state = ScrubState::Code;
                    i = i + 1;
                } else if ch == '\n' {
                    push_char(&mut out, '\n');
                    i = i + 1;
                } else {
                    push_char(&mut out, ' ');
                    i = i + 1;
                }
            },
        }
    }
    proof {
        lemma_scrub_preserves_layout(s@);
    }
    out
}

/// Monotonic ceilings for banned production patterns.
#[derive(Clone, Copy)]
pub struct Budgets {
    pub unwrap: usize,
    pub expect: usize,
    pub panic: usize,
    pub unreachable: usize,
    pub todo: usize,
    pub unimplemented: usize,
    pub let_underscore: usize,
    pub inline_test_modules: usize,
    pub test_attr_in_production: usize,
}

/// Observed production-only counts from one scan pass.
#[derive(Clone, Copy, PartialEq, Eq, Structural)]
pub struct Counts {
    pub unwrap: usize,
    pub expect: usize,
    pub panic: usize,
    pub unreachable: usize,
    pub todo: usize,
    pub unimplemented: usize,
    pub let_underscore: usize,
    pub inline_test_modules: usize,
    pub test_attr_in_production: usize,
}

impl Default for Counts {
    fn default() -> (c: Self)
        ensures
            c == (Counts {
                unwrap: 0,
                expect: 0,
                panic: 0,
                unreachable: 0,
                todo: 0,
                unimplemented: 0,
                let_underscore: 0,
                inline_test_modules: 0,
                test_attr_in_production: 0,
            }),
    {
        Counts {
            unwrap: 0,
            expect: 0,
            panic: 0,
            unreachable: 0,
            todo: 0,
            unimplemented: 0,
            let_underscore: 0,
            inline_test_modules: 0,
            test_attr_in_production: 0,
        }
    }
}

/// Scanner configuration for one crate integration test.
#[derive(Debug)]
pub struct ScanConfig {
    pub source_roots: Vec<String>,
    pub exclude_path_suffixes: Vec<String>,
    pub subtract_self_expect: bool,
}

/// One production source file with its scrubbed text.
#[derive(Debug)]
pub struct SourceFile {
    pub path: String,
    pub content: String,
    pub scrubbed: String,
}

/// Number of (possibly overlapping) occurrences of `needle` in `haystack`.
pub fn count_substring(haystack: &str, needle: &str) -> (n: usize)
    requires
        haystack@.len() < usize::MAX,
    ensures
        n == occurrences(haystack@, needle@),
{
    let h = chars_of(haystack);
    let k = chars_of(needle);
    count_occurrences(&h, &k)
}

/// Count of `.expect(` calls, optionally not counting `self.expect(`.
pub open spec fn expect_count(haystack: Seq<char>, subtract_self_expect: bool) -> nat {
    let all = occurrences(haystack, ".expect("@);
    if subtract_self_expect {
        let own = occurrences(haystack, "self.expect("@);
        if own <= all {
            (all - own) as nat
        } else {
            0
        }
    } else {
        all
    }
}

/// Number of `.expect(` calls; with `subtract_self_expect`, calls of the form
/// `self.expect(` are not counted (never going below zero).
pub fn count_expect(haystack: &str, subtract_self_expect: bool) -> (n: usize)
    requires
        haystack@.len() < usize::MAX,
    ensures
        n == expect_count(haystack@, subtract_self_expect),
{
    let count = count_substring(haystack, ".expect(");
    if subtract_self_expect {
        count.saturating_sub(count_substring(haystack, "self.expect("))
    } else {
        count
    }
}

/// Index just past the line that starts at `i`: the next `\n`, or the end.
pub open spec fn line_end(s: Seq<char>, i: int) -> int
    decreases s.len() - i,
{
    if i >= s.len() {
        s.len() as int
    } else if s[i] == '\n' {
        i
    } else {
        line_end(s, i + 1)
    }
}

pub proof fn lemma_line_end(s: Seq<char>, i: int)
    requires
        0 <= i <= s.len(),
    ensures
        i <= line_end(s, i) <= s.len(),
        line_end(s, i) < s.len() ==> s[line_end(s, i)] == '\n',
        forall|j: int| i <= j < line_end(s, i) ==> s[j] != '\n',
    decreases s.len() - i,
{
    if i < s.len() && s[i] != '\n' {
        lemma_line_end(s, i + 1);
    }
}

/// Number of lines of `s`, from index `i` on, that contain `needle`. Lines are
/// separated by `\n`; a final line break does not start another line.
pub open spec fn lines_containing_from(s: Seq<char>, needle: Seq<char>, i: int) -> nat
    decreases s.len() + 1 - i,
{
    if i < 0 || i >= s.len() {
        0
    } else {
        let e = line_end(s, i);
        (if contains_seq(s.subrange(i, e), needle) {
            1nat
        } else {
            0nat
        }) + if i <= e && e <= s.len() {
            lines_containing_from(s, needle, e + 1)
        } else {
            0
        }
    }
}

/// Number of lines of `s` that contain `needle`.
pub open spec fn lines_containing(s: Seq<char>, needle: Seq<char>) -> nat {
    lines_containing_from(s, needle, 0)
}

proof fn lemma_lines_containing_bound(s: Seq<char>, needle: Seq<char>, i: int)
    requires
        0 <= i <= s.len() + 1,
    ensures
        lines_containing_from(s, needle, i) <= s.len() + 1 - i,
    decreases s.len() + 1 - i,
{
    if i < s.len() {
        lemma_line_end(s, i);
        lemma_lines_containing_bound(s, needle, line_end(s, i) + 1);
    }
}

/// Number of lines that contain `let _ =` (a line counts once however many
/// times the pattern appears on it).
pub fn count_let_underscore(haystack: &str) -> (n: usize)
    requires
        haystack@.len() < usize::MAX,
    ensures
        n == lines_containing(haystack@, "let _ ="@),
{
    let s = chars_of(haystack);
    let needle = chars_of("let _ =");
    let mut n: usize = 0;
    let mut i: usize = 0;
    proof {
        lemma_lines_containing_bound(s@, needle@, 0);
    }
    while i < s.len()
        invariant
            i <= s.len() + 1,
            n + lines_containing_from(s@, needle@, i as int) == lines_containing(s@, needle@),
            lines_containing(s@, needle@) <= s.len() + 1,
            s.len() < usize::MAX,
        decreases s.len() + 1 - i,
    {
        let mut e = i;
        while e < s.len() && s[e] != '\n'
            invariant
                i <= e <= s.len(),
                line_end(s@, i as int) == line_end(s@, e as int),
            decreases s.len() - e,
        {
            e = e + 1;
        }
        proof {
            lemma_line_end(s@, i as int);
            lemma_lines_containing_bound(s@, needle@, e + 1);
        }
        let line = sub_chars(&s, i, e);
        if contains(&line, &needle) {
            n = n + 1;
        }
        i = e + 1;
    }
    n
}

/// Sum of `f` over the files.
pub open spec fn sum_over(files: Seq<SourceFile>, f: spec_fn(SourceFile) -> nat) -> nat
    decreases files.len(),
{
    if files.len() == 0 {
        0
    } else {
        sum_over(files.drop_last(), f) + f(files.last())
    }
}

/// A sum of a pointwise smaller quantity is smaller.
pub proof fn lemma_sum_over_le(
    files: Seq<SourceFile>,
    f: spec_fn(SourceFile) -> nat,
    g: spec_fn(SourceFile) -> nat,
)
    requires
        forall|x: SourceFile| #[trigger] f(x) <= g(x),
    ensures
        sum_over(files, f) <= sum_over(files, g),
    decreases files.len(),
{
    if files.len() > 0 {
        lemma_sum_over_le(files.drop_last(), f, g);
    }
}

/// The scanning weight of a file: one more than its scrubbed length, which
/// bounds every count taken from it.
pub open spec fn file_weight(f: SourceFile) -> nat {
    f.scrubbed@.len() + 1
}

pub open spec fn unwrap_in(f: SourceFile) -> nat {
    occurrences(f.scrubbed@, ".unwrap()"@)
}

pub open spec fn expect_in(f: SourceFile, subtract: bool) -> nat {
    expect_count(f.scrubbed@, subtract)
}

pub open spec fn panic_in(f: SourceFile) -> nat {
    occurrences(f.scrubbed@, "panic!("@)
}

pub open spec fn unreachable_in(f: SourceFile) -> nat {
    occurrences(f.scrubbed@, "unreachable!("@)
}

pub open spec fn todo_in(f: SourceFile) -> nat {
    occurrences(f.scrubbed@, "todo!("@)
}

pub open spec fn unimplemented_in(f: SourceFile) -> nat {
    occurrences(f.scrubbed@, "unimplemented!("@)
}

pub open spec fn let_underscore_in(f: SourceFile) -> nat {
    lines_containing(f.scrubbed@, "let _ ="@)
}

/// A file with an inline `#[cfg(test)]` `mod tests {` block.
pub open spec fn inline_tests_in(f: SourceFile) -> nat {
    if contains_seq(f.scrubbed@, "#[cfg(test)]"@) && contains_seq(f.scrubbed@, "mod tests {"@) {
        1
    } else {
        0
    }
}

/// A file with a `#[test]` attribute.
pub open spec fn test_attr_in(f: SourceFile) -> nat {
    if contains_seq(f.scrubbed@, "#[test]"@) {
        1
    } else {
        0
    }
}

/// The counts of one scan over `files`.
pub open spec fn budget_counts(files: Seq<SourceFile>, subtract_self_expect: bool) -> Counts {
    Counts {
        unwrap: sum_over(files, |f: SourceFile| unwrap_in(f)) as usize,
        expect: sum_over(files, |f: SourceFile| expect_in(f, subtract_self_expect)) as usize,
        panic: sum_over(files, |f: SourceFile| panic_in(f)) as usize,
        unreachable: sum_over(files, |f: SourceFile| unreachable_in(f)) as usize,
        todo: sum_over(files, |f: SourceFile| todo_in(f)) as usize,
        unimplemented: sum_over(files, |f: SourceFile| unimplemented_in(f)) as usize,
        let_underscore: sum_over(files, |f: SourceFile| let_underscore_in(f)) as usize,
        inline_test_modules: sum_over(files, |f: SourceFile| inline_tests_in(f)) as usize,
        test_attr_in_production: sum_over(files, |f: SourceFile| test_attr_in(f)) as usize,
    }
}

proof fn lemma_counts_bounded(f: SourceFile, subtract: bool)
    ensures
        unwrap_in(f) <= file_weight(f),
        expect_in(f, subtract) <= file_weight(f),
        panic_in(f) <= file_weight(f),
        unreachable_in(f) <= file_weight(f),
        todo_in(f) <= file_weight(f),
        unimplemented_in(f) <= file_weight(f),
        let_underscore_in(f) <= file_weight(f),
        inline_tests_in(f) <= file_weight(f),
        test_attr_in(f) <= file_weight(f),
{
    let s = f.scrubbed@;
    lemma_occurrences_from_bound(s, ".unwrap()"@, 0);
    lemma_occurrences_from_bound(s, ".expect("@, 0);
    lemma_occurrences_from_bound(s, "panic!("@, 0);
    lemma_occurrences_from_bound(s, "unreachable!("@, 0);
    lemma_occurrences_from_bound(s, "todo!("@, 0);
    lemma_occurrences_from_bound(s, "unimplemented!("@, 0);
    lemma_lines_containing_bound(s, "let _ ="@, 0);
}

/// Count banned patterns in scrubbed production sources.
///
/// Tracks `.unwrap()`, `.expect(`, `panic!(`, `unreachable!(`, `todo!(`,
/// `unimplemented!(`, `let _ =`, inline `#[cfg(test)] mod tests {` blocks,
/// and `#[test]` attributes.
pub fn count_budgets(files: &[SourceFile], subtract_self_expect: bool) -> (counts: Counts)
    requires
        sum_over(files@, |f: SourceFile| file_weight(f)) <= usize::MAX,
    ensures
        counts == budget_counts(files@, subtract_self_expect),
{
    let ghost w = |f: SourceFile| file_weight(f);
    let mut counts = Counts::default();
    let mut i: usize = 0;
    while i < files.len()
        invariant
            i <= files.len(),
            sum_over(files@, w) <= usize::MAX,
            forall|x: SourceFile| #[trigger] w(x) == file_weight(x),
            counts == budget_counts(files@.take(i as int), subtract_self_expect),
        decreases files.len() - i,
    {
        let file = &files[i];
        let ghost prefix = files@.take(i as int);
        let ghost next = files@.take(i + 1);
        proof {
            assert(next.drop_last() =~= prefix);
            assert(next.last() == *file);
            lemma_sum_prefix_le(files@, w, i + 1);
        }
        let text = file.scrubbed.as_str();
        proof {
            lemma_weight_le_sum(files@, w, i as int);
            assert(files@[i as int] == *file);
            assert(w(*file) == file_weight(*file));
            assert(text@.len() < usize::MAX);
        }
        let unwrap = count_substring(text, ".unwrap()");
        let expect = count_expect(text, subtract_self_expect);
        let panic = count_substring(text, "panic!(");
        let unreachable = count_substring(text, "unreachable!(");
        let todo = count_substring(text, "todo!(");
        let unimplemented = count_substring(text, "unimplemented!(");
        let let_underscore = count_let_underscore(text);
        let chars = chars_of(text);
        let inline_tests = contains(&chars, &chars_of("#[cfg(test)]")) && contains(
            &chars,
            &chars_of("mod tests {"),
        );
        let test_attr = contains(&chars, &chars_of("#[test]"));
        proof {
            lemma_each_sum_bounded(next, subtract_self_expect, w);
        }
        counts.unwrap = counts.unwrap + unwrap;
        counts.expect = counts.expect + expect;
        counts.panic = counts.panic + panic;
        counts.unreachable = counts.unreachable + unreachable;
        counts.todo = counts.todo + todo;
        counts.unimplemented = counts.unimplemented + unimplemented;
        counts.let_underscore = counts.let_underscore + let_underscore;
        if inline_tests {
            counts.inline_test_modules = counts.inline_test_modules + 1;
        }
        if test_attr {
            counts.test_attr_in_production = counts.test_attr_in_production + 1;
        }
        i = i + 1;
    }
    assert(files@.take(files.len() as int) =~= files@);
    counts
}

proof fn lemma_sum_prefix_le(files: Seq<SourceFile>, f: spec_fn(SourceFile) -> nat, k: int)
    requires
        0 <= k <= files.len(),
    ensures
        sum_over(files.take(k), f) <= sum_over(files, f),
    decreases files.len() - k,
{
    if k < files.len() {
        lemma_sum_prefix_le(files, f, k + 1);
        assert(files.take(k + 1).drop_last() =~= files.take(k));
    } else {
        assert(files.take(k) =~= files);
    }
}

proof fn lemma_weight_le_sum(files: Seq<SourceFile>, f: spec_fn(SourceFile) -> nat, i: int)
    requires
        0 <= i < files.len(),
    ensures
        f(files[i]) <= sum_over(files, f),
{
    lemma_sum_prefix_le(files, f, i + 1);
    assert(files.take(i + 1).drop_last() =~= files.take(i));
    assert(files.take(i + 1).last() == files[i]);
}

proof fn lemma_each_sum_bounded(
    files: Seq<SourceFile>,
    subtract: bool,
    w: spec_fn(SourceFile) -> nat,
)
    requires
        forall|x: SourceFile| #[trigger] w(x) == file_weight(x),
    ensures
        sum_over(files, |f: SourceFile| unwrap_in(f)) <= sum_over(files, w),
        sum_over(files, |f: SourceFile| expect_in(f, subtract)) <= sum_over(files, w),
        sum_over(files, |f: SourceFile| panic_in(f)) <= sum_over(files, w),
        sum_over(files, |f: SourceFile| unreachable_in(f)) <= sum_over(files, w),
        sum_over(files, |f: SourceFile| todo_in(f)) <= sum_over(files, w),
        sum_over(files, |f: SourceFile| unimplemented_in(f)) <= sum_over(files, w),
        sum_over(files, |f: SourceFile| let_underscore_in(f)) <= sum_over(files, w),
        sum_over(files, |f: SourceFile| inline_tests_in(f)) <= sum_over(files, w),
        sum_over(files, |f: SourceFile| test_attr_in(f)) <= sum_over(files, w),
{
    assert forall|x: SourceFile| unwrap_in(x) <= w(x) by {
        lemma_counts_bounded(x, subtract);
    }
    assert forall|x: SourceFile| expect_in(x, subtract) <= w(x) by {
        lemma_counts_bounded(x, subtract);
    }
    assert forall|x: SourceFile| panic_in(x) <= w(x) by {
        lemma_counts_bounded(x, subtract);
    }
    assert forall|x: SourceFile| unreachable_in(x) <= w(x) by {
        lemma_counts_bounded(x, subtract);
    }
    assert forall|x: SourceFile| todo_in(x) <= w(x) by {
        lemma_counts_bounded(x, subtract);
    }
    assert forall|x: SourceFile| unimplemented_in(x) <= w(x) by {
        lemma_counts_bounded(x, subtract);
    }
    assert forall|x: SourceFile| let_underscore_in(x) <= w(x) by {
        lemma_counts_bounded(x, subtract);
    }
    assert forall|x: SourceFile| inline_tests_in(x) <= w(x) by {
        lemma_counts_bounded(x, subtract);
    }
    assert forall|x: SourceFile| test_attr_in(x) <= w(x) by {
        lemma_counts_bounded(x, subtract);
    }
    lemma_sum_over_le(files, |f: SourceFile| unwrap_in(f), w);
    lemma_sum_over_le(files, |f: SourceFile| expect_in(f, subtract), w);
    lemma_sum_over_le(files, |f: SourceFile| panic_in(f), w);
    lemma_sum_over_le(files, |f: SourceFile| unreachable_in(f), w);
    lemma_sum_over_le(files, |f: SourceFile| todo_in(f), w);
    lemma_sum_over_le(files, |f: SourceFile| unimplemented_in(f), w);
    lemma_sum_over_le(files, |f: SourceFile| let_underscore_in(f), w);
    lemma_sum_over_le(files, |f: SourceFile| inline_tests_in(f), w);
    lemma_sum_over_le(files, |f: SourceFile| test_attr_in(f), w);
}

/// The message reported when `observed` exceeds `budget` for pattern `name`.
pub open spec fn budget_message(name: Seq<char>, observed: nat, budget: nat) -> Seq<char> {
    name + " budget exceeded: found "@ + decimal(observed) + ", max "@ + decimal(budget) + "."@
}

/// Check one observed count against its ceiling.
pub fn assert_budget(name: &str, observed: usize, budget: usize) -> (r: Result<(), String>)
    ensures
        observed <= budget ==> r is Ok,
        observed > budget ==> (r matches Err(m) && m@ == budget_message(
            name@,
            observed as nat,
            budget as nat,
        )),
{
    if observed <= budget {
        return Ok(());
    }
    let mut m = name.to_owned();
    m.append(" budget exceeded: found ");
    m.append(decimal_string(observed).as_str());
    m.append(", max ");
    m.append(decimal_string(budget).as_str());
    m.append(".");
    Err(m)
}

/// The budget checks, in the order they are reported.
pub open spec fn budget_rows(c: Counts, b: Budgets) -> Seq<(Seq<char>, usize, usize)> {
    seq![
        (".unwrap()"@, c.unwrap, b.unwrap),
        (".expect("@, c.expect, b.expect),
        ("panic!("@, c.panic, b.panic),
        ("unreachable!("@, c.unreachable, b.unreachable),
        ("todo!("@, c.todo, b.todo),
        ("unimplemented!("@, c.unimplemented, b.unimplemented),
        ("let _ ="@, c.let_underscore, b.let_underscore),
        ("inline #[cfg(test)] mod tests {"@, c.inline_test_modules, b.inline_test_modules),
        ("#[test] in production files"@, c.test_attr_in_production, b.test_attr_in_production),
    ]
}

/// Outcome of the checks from row `i` on: the message of the first exceeded
/// ceiling, if any.
pub open spec fn first_violation(rows: Seq<(Seq<char>, usize, usize)>, i: int) -> Option<
    Seq<char>,
>
    decreases rows.len() - i,
{
    if i < 0 || i >= rows.len() {
        None
    } else if rows[i].1 > rows[i].2 {
        Some(budget_message(rows[i].0, rows[i].1 as nat, rows[i].2 as nat))
    } else {
        first_violation(rows, i + 1)
    }
}

/// Check every observed count against its ceiling; the first exceeded ceiling
/// (in the order `.unwrap()`, `.expect(`, `panic!(`, `unreachable!(`, `todo!(`,
/// `unimplemented!(`, `let _ =`, inline test modules, `#[test]` attributes) is
/// reported.
pub fn assert_budgets(counts: Counts, budgets: Budgets) -> (r: Result<(), String>)
    ensures
        match first_violation(budget_rows(counts, budgets), 0) {
            None => r is Ok,
            Some(m) => r matches Err(e) && e@ == m,
        },
{
    let ghost rows = budget_rows(counts, budgets);
    assert(rows.len() == 9);
    assert(first_violation(rows, 9) is None);
    assert(rows[0] == (".unwrap()"@, counts.unwrap, budgets.unwrap));
    let r = assert_budget(".unwrap()", counts.unwrap, budgets.unwrap);
    if r.is_err() {
        return r;
    }
    assert(first_violation(rows, 0) == first_violation(rows, 1));
    assert(rows[1] == (".expect("@, counts.expect, budgets.expect));
    let r = assert_budget(".expect(", counts.expect, budgets.expect);
    if r.is_err() {
        return r;
    }
    assert(first_violation(rows, 1) == first_violation(rows, 2));
    assert(rows[2] == ("panic!("@, counts.panic, budgets.panic));
    let r = assert_budget("panic!(", counts.panic, budgets.panic);
    if r.is_err() {
        return r;
    }
    assert(first_violation(rows, 2) == first_violation(rows, 3));
    assert(rows[3] == ("unreachable!("@, counts.unreachable, budgets.unreachable));
    let r = assert_budget("unreachable!(", counts.unreachable, budgets.unreachable);
    if r.is_err() {
        return r;
    }
    assert(first_violation(rows, 3) == first_violation(rows, 4));
    assert(rows[4] == ("todo!("@, counts.todo, budgets.todo));
    let r = assert_budget("todo!(", counts.todo, budgets.todo);
    if r.is_err() {
        return r;
    }
    assert(first_violation(rows, 4) == first_violation(rows, 5));
    assert(rows[5] == ("unimplemented!("@, counts.unimplemented, budgets.unimplemented));
    let r = assert_budget("unimplemented!(", counts.unimplemented, budgets.unimplemented);
    if r.is_err() {
        return r;
    }
    assert(first_violation(rows, 5) == first_violation(rows, 6));
    assert(rows[6] == ("let _ ="@, counts.let_underscore, budgets.let_underscore));
    let r = assert_budget("let _ =", counts.let_underscore, budgets.let_underscore);
    if r.is_err() {
        return r;
    }
    assert(first_violation(rows, 6) == first_violation(rows, 7));
    assert(rows[7] == ("inline #[cfg(test)] mod tests {"@, counts.inline_test_modules, budgets.inline_test_modules));
    let r = assert_budget("inline #[cfg(test)] mod tests {", counts.inline_test_modules, budgets.inline_test_modules);
    if r.is_err() {
        return r;
    }
    assert(first_violation(rows, 7) == first_violation(rows, 8));
    assert(rows[8] == ("#[test] in production files"@, counts.test_attr_in_production, budgets.test_attr_in_production));
    let r = assert_budget("#[test] in production files", counts.test_attr_in_production, budgets.test_attr_in_production);
    if r.is_err() {
        return r;
    }
    assert(first_violation(rows, 8) == first_violation(rows, 9));
    Ok(())
}

/// The path is a test-support file or lies under a `test_support` directory.
pub open spec fn is_test_support(p: Seq<char>) -> bool {
    file_name(p) == Some("test_support.rs"@) || exists|j: int|
        0 <= j < components(p).len() && components(p)[j] == Component::Normal("test_support"@)
}

/// Whether `path` is a test-support file (`test_support.rs`) or lies under a
/// `test_support` directory.
pub fn is_test_support_path(path: &str) -> (b: bool)
    ensures
        b == is_test_support(path@),
{
    let p = chars_of(path);
    let support_file = chars_of("test_support.rs");
    let support_dir = chars_of("test_support");
    let named = match file_name_of(&p) {
        Some(name) => chars_eq(&name, &support_file),
        None => false,
    };
    if named {
        return true;
    }
    let cs = path_components(&p);
    let ghost m = cs@.map_values(|c: PathPart| c@);
    let mut i: usize = 0;
    while i < cs.len()
        invariant
            i <= cs.len(),
            m == cs@.map_values(|c: PathPart| c@),
            m == components(p@),
            p@ == path@,
            support_dir@ == "test_support"@,
            forall|j: int| 0 <= j < i ==> m[j] != Component::Normal("test_support"@),
        decreases cs.len() - i,
    {
        assert(m[i as int] == cs@[i as int]@);
        match &cs[i] {
            PathPart::Normal(name) => {
                if chars_eq(name, &support_dir) {
                    assert(m[i as int] == Component::Normal("test_support"@));
                    return true;
                }
            },
            _ => {},
        }
        i = i + 1;
    }
    false
}

/// The conventional companion test file of a source file: its stem with
/// `_test.rs` appended, in the same directory.
pub open spec fn companion_of(p: Seq<char>) -> Option<Seq<char>> {
    match file_name(p) {
        Some(name) => Some(
            render(
                components(p).drop_last().push(Component::Normal(stem_of(name) + "_test.rs"@)),
            ),
        ),
        None => None,
    }
}

/// Path of the companion `_test.rs` file for a source file; `None` when the
/// path names no file.
pub fn companion_test_path(path: &str) -> (r: Option<String>)
    ensures
        match r {
            Some(c) => companion_of(path@) == Some(c@),
            None => companion_of(path@) is None,
        },
{
    let p = chars_of(path);
    match file_name_of(&p) {
        None => None,
        Some(name) => {
            let mut new_name = stem(&name);
            let suffix = chars_of("_test.rs");
            let mut k: usize = 0;
            let ghost base = new_name@;
            while k < suffix.len()
                invariant
                    k <= suffix.len(),
                    new_name@ == base + suffix@.take(k as int),
                decreases suffix.len() - k,
            {
                new_name.push(suffix[k]);
                k = k + 1;
                assert(new_name@ =~= base + suffix@.take(k as int));
            }
            assert(suffix@.take(suffix@.len() as int) =~= suffix@);
            let mut cs = path_components(&p);
            let ghost before = cs@;
            let _ = cs.pop();
            cs.push(PathPart::Normal(new_name));
            assert(cs@.map_values(|c: PathPart| c@) =~= components(p@).drop_last().push(
                Component::Normal(stem_of(name@) + "_test.rs"@),
            ));
            Some(string_of(&render_parts(&cs)))
        },
    }
}

/// Directories that the scan does not descend into: those named `tests`.
pub fn is_skipped_directory(path: &str) -> (b: bool)
    ensures
        b == (file_name(path@) == Some("tests"@)),
{
    let p = chars_of(path);
    match file_name_of(&p) {
        Some(name) => chars_eq(&name, &chars_of("tests")),
        None => false,
    }
}

/// The path is one of the excluded suffixes.
pub open spec fn is_excluded(p: Seq<char>, excludes: Seq<Seq<char>>) -> bool {
    exists|k: int| 0 <= k < excludes.len() && ends_with_components(p, #[trigger] excludes[k])
}

/// A file that counts as production source: a `.rs` file whose name does not
/// end in `_test.rs` or `.test.rs`, outside any test-support location, and
/// not matching an excluded path suffix.
pub open spec fn is_production(p: Seq<char>, excludes: Seq<Seq<char>>) -> bool {
    match file_name(p) {
        Some(name) => {
            &&& extension_of(name) == Some("rs"@)
            &&& !ends_with(name, "_test.rs"@)
            &&& !ends_with(name, ".test.rs"@)
            &&& !is_test_support(p)
            &&& !is_excluded(p, excludes)
        },
        None => false,
    }
}

/// The excluded suffixes of a configuration, as text.
pub open spec fn exclude_views(config: &ScanConfig) -> Seq<Seq<char>> {
    config.exclude_path_suffixes@.map_values(|s: String| s@)
}

fn ends_with_chars(hay: &Vec<char>, suffix: &Vec<char>) -> (b: bool)
    ensures
        b == ends_with(hay@, suffix@),
{
    if suffix.len() > hay.len() {
        return false;
    }
    let r = crate::text::matches_at(hay, suffix, hay.len() - suffix.len());
    r
}

/// Whether the file at `path` counts as production source for `config`.
pub fn is_production_source(path: &str, config: &ScanConfig) -> (b: bool)
    ensures
        b == is_production(path@, exclude_views(config)),
{
    let p = chars_of(path);
    let name = match file_name_of(&p) {
        Some(name) => name,
        None => return false,
    };
    let is_rs = match extension(&name) {
        Some(ext) => chars_eq(&ext, &chars_of("rs")),
        None => false,
    };
    if !is_rs {
        return false;
    }
    if ends_with_chars(&name, &chars_of("_test.rs")) || ends_with_chars(&name, &chars_of(".test.rs")) {
        return false;
    }
    if is_test_support_path(path) {
        return false;
    }
    let ghost ex = exclude_views(config);
    let mut k: usize = 0;
    while k < config.exclude_path_suffixes.len()
        invariant
            k <= config.exclude_path_suffixes.len(),
            ex == exclude_views(config),
            p@ == path@,
            file_name(path@) == Some(name@),
            extension_of(name@) == Some("rs"@),
            !ends_with(name@, "_test.rs"@),
            !ends_with(name@, ".test.rs"@),
            !is_test_support(path@),
            forall|j: int| 0 <= j < k ==> !ends_with_components(p@, #[trigger] ex[j]),
        decreases config.exclude_path_suffixes.len() - k,
    {
        let suffix = chars_of(config.exclude_path_suffixes[k].as_str());
        if path_ends_with(&p, &suffix) {
            assert(ex[k as int] == suffix@);
            return false;
        }
        k = k + 1;
    }
    true
}

/// Production files among `candidates` (path and contents), each with its
/// scrubbed text, in order.
pub open spec fn production_files(
    candidates: Seq<(String, String)>,
    excludes: Seq<Seq<char>>,
) -> Seq<(Seq<char>, Seq<char>, Seq<char>)>
    decreases candidates.len(),
{
    if candidates.len() == 0 {
        Seq::empty()
    } else {
        let prev = production_files(candidates.drop_last(), excludes);
        let (path, content) = candidates.last();
        if is_production(path@, excludes) {
            prev.push((path@, content@, scrubbed(content@)))
        } else {
            prev
        }
    }
}

/// View of a source file as (path, contents, scrubbed contents).
pub open spec fn source_view(f: SourceFile) -> (Seq<char>, Seq<char>, Seq<char>) {
    (f.path@, f.content@, f.scrubbed@)
}

/// Keep the production sources among the files found under the configured
/// source roots (each given with its contents) and scrub each one.
pub fn collect_production_files(config: &ScanConfig, candidates: Vec<(String, String)>) -> (files:
    Vec<SourceFile>)
    ensures
        files@.map_values(|f: SourceFile| source_view(f)) == production_files(
            candidates@,
            exclude_views(config),
        ),
{
    let mut files: Vec<SourceFile> = Vec::new();
    let mut i: usize = 0;
    while i < candidates.len()
        invariant
            i <= candidates.len(),
            files@.map_values(|f: SourceFile| source_view(f)) == production_files(
                candidates@.take(i as int),
                exclude_views(config),
            ),
        decreases candidates.len() - i,
    {
        let ghost before = files@;
        let path = &candidates[i].0;
        let content = &candidates[i].1;
        proof {
            assert(candidates@.take(i + 1).drop_last() =~= candidates@.take(i as int));
            assert(candidates@.take(i + 1).last() == candidates@[i as int]);
        }
        if is_production_source(path.as_str(), config) {
            let scrubbed_text = scrub_rust_source(content.as_str());
            files.push(
                SourceFile { path: path.clone(), content: content.clone(), scrubbed: scrubbed_text },
            );
            assert(files@.map_values(|f: SourceFile| source_view(f)) =~= before.map_values(
                |f: SourceFile| source_view(f),
            ).push((path@, content@, scrubbed(content@))));
        }
        i = i + 1;
    }
    assert(candidates@.take(candidates.len() as int) =~= candidates@);
    files
}

/// The module declaration that ties a source file to its companion test file.
pub open spec fn convention_text(companion_name: Seq<char>) -> Seq<char> {
    "#[cfg(test)]\n#[path = \""@ + companion_name + "\"]\nmod tests;"@
}

/// The convention failure of one file, given the companion files that exist.
pub open spec fn convention_failure(f: SourceFile, existing: Seq<Seq<char>>) -> Option<Seq<char>> {
    match (companion_of(f.path@), file_name(f.path@)) {
        (Some(companion), Some(name)) => {
            let expected = convention_text(stem_of(name) + "_test.rs"@);
            if existing.contains(companion) && !contains_seq(f.content@, expected) {
                Some(
                    f.path@ + " has companion test "@ + companion
                        + ", but is missing the repo convention:\n"@ + expected,
                )
            } else {
                None
            }
        },
        _ => None,
    }
}

/// The first convention failure among `files` from index `i` on.
pub open spec fn first_convention_failure(
    files: Seq<SourceFile>,
    existing: Seq<Seq<char>>,
    i: int,
) -> Option<Seq<char>>
    decreases files.len() - i,
{
    if i < 0 || i >= files.len() {
        None
    } else {
        match convention_failure(files[i], existing) {
            Some(m) => Some(m),
            None => first_convention_failure(files, existing, i + 1),
        }
    }
}

/// Verify that every source file whose companion `_test.rs` file exists (the
/// companions that exist are listed in `existing_companions`) declares it via
/// the `#[cfg(test)] #[path = "..."] mod tests;` convention; the first file
/// that does not is reported.
pub fn assert_companion_tests_use_cfg_path_module_convention(
    files: &[SourceFile],
    existing_companions: &Vec<String>,
) -> (r: Result<(), String>)
    ensures
        match first_convention_failure(
            files@,
            existing_companions@.map_values(|s: String| s@),
            0,
        ) {
            None => r is Ok,
            Some(m) => r matches Err(e) && e@ == m,
        },
{
    let ghost existing = existing_companions@.map_values(|s: String| s@);
    let mut i: usize = 0;
    while i < files.len()
        invariant
            i <= files.len(),
            existing == existing_companions@.map_values(|s: String| s@),
            first_convention_failure(files@, existing, 0) == first_convention_failure(
                files@,
                existing,
                i as int,
            ),
        decreases files.len() - i,
    {
        let file = &files[i];
        let p = chars_of(file.path.as_str());
        let companion = companion_test_path(file.path.as_str());
        let name = file_name_of(&p);
        match (companion, name) {
            (Some(companion), Some(name)) => {
                let mut found = false;
                let mut k: usize = 0;
                while k < existing_companions.len()
                    invariant
                        k <= existing_companions.len(),
                        existing == existing_companions@.map_values(|s: String| s@),
                        found == exists|j: int| 0 <= j < k && existing[j] == companion@,
                    decreases existing_companions.len() - k,
                {
                    assert(existing[k as int] == existing_companions@[k as int]@);
                    if existing_companions[k] == companion {
                        found = true;
                    }
                    k = k + 1;
                }
                if found {
                    let mut companion_name = stem(&name);
                    let mut t = string_of(&companion_name);
                    t.append("_test.rs");
                    let mut expected = "#[cfg(test)]\n#[path = \"".to_owned();
                    expected.append(t.as_str());
                    expected.append("\"]\nmod tests;");
                    let content = chars_of(file.content.as_str());
                    if !contains(&content, &chars_of(expected.as_str())) {
                        let mut m = file.path.clone();
                        m.append(" has companion test ");
                        m.append(companion.as_str());
                        m.append(", but is missing the repo convention:\n");
                        m.append(expected.as_str());
                        assert(existing.contains(companion@));
                        return Err(m);
                    }
                }
                proof {
                    if !found {
                        assert(!existing.contains(companion@));
                    }
                }
            },
            _ => {},
        }
        i = i + 1;
    }
    Ok(())
}

} // verus!
