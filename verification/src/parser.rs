//! The expression parser.
//!
//! A keybind expression is a non-empty, `+`-joined sequence of terms with
//! no trailing separator:
//!
//! ```text
//! expr := term ('+' term)*
//! term := name | '[' int ']' | '{' tag '}' | char_literal | int
//! ```
//!
//! A name is an ASCII identifier; an integer literal is decimal. A bare
//! integer is a *name* term (looked up among the registry's integer
//! aliases), while only a bracketed integer is a raw, unresolved keycode.
//! A character literal is `'c'` for a single character, or `'\''` / `'\\'`
//! for the two escapes. The parser classifies token shape only; registry
//! and catalog resolution happen when the expression is lowered.
//!
//! The grammar is pinned by the spec functions [`spec_term`],
//! [`spec_terms`] and [`spec_parse`], and [`ParsedKeybind::parse`] is
//! proved to return exactly their verdict, errors included.

use vstd::prelude::*;
use vstd::string::*;

use crate::diag::ErrorView;
use crate::diag::GrammarKind;
use crate::diag::KeybindError;
use crate::diag::Span;
use crate::registry::IdentView;
use crate::text::all_digits;
use crate::text::digit_value;
use crate::text::digits_value;
use crate::text::is_digit_char;
use crate::text::is_ident_cont_char;
use crate::text::is_ident_start_char;
use crate::text::lemma_digits_value_prefix_le;

verus! {

/// The shapes a *name* term can take: a bare identifier, a bare decimal
/// integer, or a character literal. All three are resolved through the
/// registry, each against its own alias type.
#[derive(Debug, Clone)]
pub enum ParsedKeyDisc {
    /// A bare decimal integer, e.g. the `1` in `Ctrl+1`.
    LitInt(u32),
    /// A character literal, e.g. `';'`.
    LitChar(char),
    /// A bare identifier, e.g. `Ctrl`.
    Ident(String),
}

impl View for ParsedKeyDisc {
    // The shape of a name term is the shape of a registry alias spelling,
    // so the two share one ghost form.
    type V = IdentView;

    open spec fn view(&self) -> IdentView {
        match self {
            ParsedKeyDisc::LitInt(v) => IdentView::LitInt(*v),
            ParsedKeyDisc::LitChar(c) => IdentView::LitChar(*c),
            ParsedKeyDisc::Ident(s) => IdentView::Ident(s@),
        }
    }
}

/// One parsed term of a keybind expression, with the character span it
/// was read from.
#[derive(Debug, Clone)]
pub enum ParsedKey {
    /// A name to be resolved in the registry.
    Name(ParsedKeyDisc, Span),
    /// A raw keycode, written `[code]`, bypassing the registry.
    Code(u32, Span),
    /// A key-parameter tag, written `{tag}`, to be resolved in the
    /// catalog.
    Parameter(String, Span),
}

/// Ghost shape of a [`ParsedKey`].
pub enum ParsedKeyView {
    /// View of [`ParsedKey::Name`].
    Name(IdentView, Span),
    /// View of [`ParsedKey::Code`].
    Code(u32, Span),
    /// View of [`ParsedKey::Parameter`].
    Parameter(Seq<char>, Span),
}

impl View for ParsedKey {
    type V = ParsedKeyView;

    open spec fn view(&self) -> ParsedKeyView {
        match self {
            ParsedKey::Name(d, sp) => ParsedKeyView::Name(d@, *sp),
            ParsedKey::Code(v, sp) => ParsedKeyView::Code(*v, *sp),
            ParsedKey::Parameter(t, sp) => ParsedKeyView::Parameter(t@, *sp),
        }
    }
}

/// A parsed keybind expression: the ordered, non-empty sequence of terms.
/// Order is significant and duplicates are kept.
#[derive(Debug, Clone)]
pub struct ParsedKeybind(pub Vec<ParsedKey>);

impl View for ParsedKeybind {
    type V = Seq<ParsedKeyView>;

    open spec fn view(&self) -> Seq<ParsedKeyView> {
        self.0@.map_values(|k: ParsedKey| k@)
    }
}

/// End of the run of identifier characters starting at `i`.
pub open spec fn scan_cont(s: Seq<char>, i: int) -> int
    decreases s.len() - i,
{
    if 0 <= i < s.len() && is_ident_cont_char(s[i]) {
        scan_cont(s, i + 1)
    } else {
        i
    }
}

/// End of the run of decimal digits starting at `i`.
pub open spec fn scan_digits(s: Seq<char>, i: int) -> int
    decreases s.len() - i,
{
    if 0 <= i < s.len() && is_digit_char(s[i]) {
        scan_digits(s, i + 1)
    } else {
        i
    }
}

/// What a run scan returns: an in-bounds end, identifier characters up to
/// it, and none at it.
pub proof fn lemma_scan_cont(s: Seq<char>, i: int)
    requires
        0 <= i <= s.len(),
    ensures
        i <= scan_cont(s, i) <= s.len(),
        forall|k: int| i <= k < scan_cont(s, i) ==> is_ident_cont_char(#[trigger] s[k]),
        scan_cont(s, i) < s.len() ==> !is_ident_cont_char(s[scan_cont(s, i)]),
    decreases s.len() - i,
{
    if i < s.len() && is_ident_cont_char(s[i]) {
        lemma_scan_cont(s, i + 1);
    }
}

/// What a digit-run scan returns, as [`lemma_scan_cont`] for digits.
pub proof fn lemma_scan_digits(s: Seq<char>, i: int)
    requires
        0 <= i <= s.len(),
    ensures
        i <= scan_digits(s, i) <= s.len(),
        forall|k: int| i <= k < scan_digits(s, i) ==> is_digit_char(#[trigger] s[k]),
        scan_digits(s, i) < s.len() ==> !is_digit_char(s[scan_digits(s, i)]),
    decreases s.len() - i,
{
    if i < s.len() && is_digit_char(s[i]) {
        lemma_scan_digits(s, i + 1);
    }
}

/// Verdict on a `[code]` term starting at `i` (where `s[i] == '['`):
/// the brackets must hold a non-empty decimal run whose value fits a
/// keycode.
pub open spec fn spec_code_term(s: Seq<char>, i: int) -> Result<(ParsedKeyView, int), ErrorView> {
    let j = scan_digits(s, i + 1);
    if j == i + 1 {
        Err(spec_grammar_err(i, j + 1, s.len() as int, GrammarKind::BadCodeTerm))
    } else if j >= s.len() || s[j] != ']' {
        Err(spec_grammar_err(i, j + 1, s.len() as int, GrammarKind::BadCodeTerm))
    } else if digits_value(s.subrange(i + 1, j)) > u32::MAX {
        Err(spec_grammar_err(i + 1, j, s.len() as int, GrammarKind::CodeOverflow))
    } else {
        Ok(
            (
                ParsedKeyView::Code(
                    digits_value(s.subrange(i + 1, j)) as u32,
                    Span { start: i as usize, end: (j + 1) as usize },
                ),
                j + 1,
            ),
        )
    }
}

/// Verdict on a `{tag}` term starting at `i` (where `s[i] == '{'`): the
/// braces must hold an identifier.
pub open spec fn spec_param_term(s: Seq<char>, i: int) -> Result<(ParsedKeyView, int), ErrorView> {
    let j = scan_cont(s, i + 1);
    if j == i + 1 || !is_ident_start_char(s[i + 1]) {
        Err(spec_grammar_err(i, j + 1, s.len() as int, GrammarKind::BadParameterTerm))
    } else if j >= s.len() || s[j] != '}' {
        Err(spec_grammar_err(i, j + 1, s.len() as int, GrammarKind::BadParameterTerm))
    } else {
        Ok(
            (
                ParsedKeyView::Parameter(
                    s.subrange(i + 1, j),
                    Span { start: i as usize, end: (j + 1) as usize },
                ),
                j + 1,
            ),
        )
    }
}

/// Verdict on a character-literal term starting at `i` (where
/// `s[i] == '\''`): either a single plain character or one of the two
/// escapes `\\` and `\'`, closed by a quote.
pub open spec fn spec_char_term(s: Seq<char>, i: int) -> Result<(ParsedKeyView, int), ErrorView> {
    if i + 1 < s.len() && s[i + 1] == '\\' {
        if i + 3 < s.len() && (s[i + 2] == '\\' || s[i + 2] == '\'') && s[i + 3] == '\'' {
            Ok(
                (
                    ParsedKeyView::Name(
                        IdentView::LitChar(s[i + 2]),
                        Span { start: i as usize, end: (i + 4) as usize },
                    ),
                    i + 4,
                ),
            )
        } else {
            Err(spec_grammar_err(i, i + 4, s.len() as int, GrammarKind::BadCharLiteral))
        }
    } else if i + 2 < s.len() && s[i + 1] != '\'' && s[i + 2] == '\'' {
        Ok(
            (
                ParsedKeyView::Name(
                    IdentView::LitChar(s[i + 1]),
                    Span { start: i as usize, end: (i + 3) as usize },
                ),
                i + 3,
            ),
        )
    } else {
        Err(spec_grammar_err(i, i + 3, s.len() as int, GrammarKind::BadCharLiteral))
    }
}

/// A grammar error over `start..end`, clipped to the text's length.
pub open spec fn spec_grammar_err(start: int, end: int, len: int, kind: GrammarKind) -> ErrorView {
    ErrorView::Grammar {
        span: Span {
            start: start as usize,
            end: (if end <= len {
                end
            } else {
                len
            }) as usize,
        },
        kind: kind,
    }
}

/// Verdict on the single term starting at `i`: which shape it has, the
/// term's value and span, and the index just past it; or the grammar
/// error the spot produces.
pub open spec fn spec_term(s: Seq<char>, i: int) -> Result<(ParsedKeyView, int), ErrorView> {
    if i >= s.len() {
        Err(spec_grammar_err(i, i, s.len() as int, GrammarKind::ExpectedTerm))
    } else {
        let c = s[i];
        if c == '[' {
            spec_code_term(s, i)
        } else if c == '{' {
            spec_param_term(s, i)
        } else if c == '\'' {
            spec_char_term(s, i)
        } else if is_digit_char(c) {
            let j = scan_digits(s, i);
            if digits_value(s.subrange(i, j)) > u32::MAX {
                Err(spec_grammar_err(i, j, s.len() as int, GrammarKind::CodeOverflow))
            } else {
                Ok(
                    (
                        ParsedKeyView::Name(
                            IdentView::LitInt(digits_value(s.subrange(i, j)) as u32),
                            Span { start: i as usize, end: j as usize },
                        ),
                        j,
                    ),
                )
            }
        } else if is_ident_start_char(c) {
            let j = scan_cont(s, i);
            Ok(
                (
                    ParsedKeyView::Name(
                        IdentView::Ident(s.subrange(i, j)),
                        Span { start: i as usize, end: j as usize },
                    ),
                    j,
                ),
            )
        } else {
            Err(spec_grammar_err(i, i + 1, s.len() as int, GrammarKind::UnknownToken))
        }
    }
}

/// A successful term parse always makes progress and stays in bounds.
pub proof fn lemma_spec_term_advances(s: Seq<char>, i: int)
    requires
        0 <= i <= s.len(),
    ensures
        spec_term(s, i) matches Ok((t, j)) ==> i < j <= s.len(),
{
    if i < s.len() {
        lemma_scan_digits(s, i);
        lemma_scan_cont(s, i);
        lemma_scan_digits(s, i + 1);
        lemma_scan_cont(s, i + 1);
    }
}

/// Verdict on the `+`-separated term list starting at `i`: the terms in
/// order, or the first grammar error.
pub open spec fn spec_terms(s: Seq<char>, i: int) -> Result<Seq<ParsedKeyView>, ErrorView>
    decreases s.len() - i,
{
    match spec_term(s, i) {
        Err(e) => Err(e),
        Ok((t, j)) => if j == s.len() {
            Ok(seq![t])
        } else if !(i < j && j < s.len()) {
            Err(spec_grammar_err(j, j + 1, s.len() as int, GrammarKind::ExpectedSeparator))
        } else if s[j] == '+' {
            match spec_terms(s, j + 1) {
                Err(e) => Err(e),
                Ok(rest) => Ok(seq![t] + rest),
            }
        } else {
            Err(spec_grammar_err(j, j + 1, s.len() as int, GrammarKind::ExpectedSeparator))
        },
    }
}

/// Verdict of the whole grammar on an expression text: the term sequence,
/// or the error. An empty text is rejected outright.
pub open spec fn spec_parse(s: Seq<char>) -> Result<Seq<ParsedKeyView>, ErrorView> {
    if s.len() == 0 {
        Err(ErrorView::Grammar { span: Span { start: 0, end: 0 }, kind: GrammarKind::EmptyExpression })
    } else {
        spec_terms(s, 0)
    }
}

/// Whether `c` is a decimal digit.
fn digit_char(c: char) -> (r: bool)
    ensures
        r == is_digit_char(c),
{
    let u = c as u32;
    48 <= u && u <= 57
}

/// Whether `c` can begin an identifier.
fn ident_start_char(c: char) -> (r: bool)
    ensures
        r == is_ident_start_char(c),
{
    let u = c as u32;
    (65 <= u && u <= 90) || (97 <= u && u <= 122) || u == 95
}

/// Whether `c` can continue an identifier.
fn ident_cont_char(c: char) -> (r: bool)
    ensures
        r == is_ident_cont_char(c),
{
    ident_start_char(c) || digit_char(c)
}

/// Walks to the end of the identifier-character run starting at `i`.
fn scan_cont_from(s: &str, i: usize) -> (r: usize)
    requires
        i <= s@.len(),
    ensures
        r as int == scan_cont(s@, i as int),
        i <= r <= s@.len(),
    decreases s@.len() - i,
{
    let n = s.unicode_len();
    if i < n {
        let c = s.get_char(i);
        if ident_cont_char(c) {
            return scan_cont_from(s, i + 1);
        }
    }
    i
}

/// Walks to the end of the decimal-digit run starting at `i`.
fn scan_digits_from(s: &str, i: usize) -> (r: usize)
    requires
        i <= s@.len(),
    ensures
        r as int == scan_digits(s@, i as int),
        i <= r <= s@.len(),
    decreases s@.len() - i,
{
    let n = s.unicode_len();
    if i < n {
        let c = s.get_char(i);
        if digit_char(c) {
            return scan_digits_from(s, i + 1);
        }
    }
    i
}

/// Reads the decimal run `s[i..j]` as a keycode; `None` exactly when the
/// denoted number does not fit.
fn digits_to_code(s: &str, i: usize, j: usize) -> (r: Option<u32>)
    requires
        i <= j <= s@.len(),
        forall|k: int| i <= k < j ==> is_digit_char(#[trigger] s@[k]),
    ensures
        match r {
            Some(v) => v as int == digits_value(s@.subrange(i as int, j as int)),
            None => digits_value(s@.subrange(i as int, j as int)) > u32::MAX,
        },
{
    let mut v: u32 = 0;
    let mut k: usize = i;
    while k < j
        invariant
            i <= k <= j <= s@.len(),
            forall|m: int| i <= m < j ==> is_digit_char(#[trigger] s@[m]),
            v as int == digits_value(s@.subrange(i as int, k as int)),
        decreases j - k,
    {
        let c = s.get_char(k);
        let d = (c as u32) - 48;
        proof {
            assert(is_digit_char(s@[k as int]));
            assert(d == digit_value(s@[k as int]));
        }
        if v > u32::MAX / 10 || (v == u32::MAX / 10 && d > u32::MAX % 10) {
            proof {
                let full = s@.subrange(i as int, j as int);
                let part = s@.subrange(i as int, k as int + 1);
                assert(part.drop_last() =~= s@.subrange(i as int, k as int));
                assert(part.last() == s@[k as int]);
                assert(digits_value(part) == v as int * 10 + d);
                assert(digits_value(part) > u32::MAX);
                assert(all_digits(full));
                lemma_digits_value_prefix_le(full, k as int + 1 - i);
                assert(full.subrange(0, k as int + 1 - i) =~= part);
            }
            return None;
        }
        let next = v * 10 + d;
        proof {
            let part = s@.subrange(i as int, k as int + 1);
            assert(part.drop_last() =~= s@.subrange(i as int, k as int));
            assert(part.last() == s@[k as int]);
            assert(digits_value(part) == v as int * 10 + d);
        }
        v = next;
        k += 1;
    }
    Some(v)
}

/// Parses the single term starting at `i`; returns exactly the verdict of
/// [`spec_term`], and on success advances past the term.
fn parse_term(s: &str, i: usize) -> (r: Result<(ParsedKey, usize), KeybindError>)
    requires
        i <= s@.len(),
    ensures
        match spec_term(s@, i as int) {
            Ok((tv, jv)) => {
                &&& r matches Ok((t, j)) && t@ == tv && j as int == jv
                &&& i < jv <= s@.len()
            },
            Err(ev) => r matches Err(e) && e@ == ev,
        },
{
    proof {
        lemma_spec_term_advances(s@, i as int);
    }
    let n = s.unicode_len();
    if i >= n {
        return Err(grammar_err(i, i, n, GrammarKind::ExpectedTerm));
    }
    let c = s.get_char(i);
    if c == '[' {
        let j = scan_digits_from(s, i + 1);
        if j == i + 1 {
            return Err(grammar_err_next(i, j, n, GrammarKind::BadCodeTerm));
        }
        if j >= n || s.get_char(j) != ']' {
            return Err(grammar_err_next(i, j, n, GrammarKind::BadCodeTerm));
        }
        proof {
            lemma_scan_digits(s@, i as int + 1);
        }
        match digits_to_code(s, i + 1, j) {
            Some(v) => Ok((ParsedKey::Code(v, Span::new(i, j + 1)), j + 1)),
            None => Err(grammar_err(i + 1, j, n, GrammarKind::CodeOverflow)),
        }
    } else if c == '{' {
        let j = scan_cont_from(s, i + 1);
        if j == i + 1 || !ident_start_char(s.get_char(i + 1)) {
            return Err(grammar_err_next(i, j, n, GrammarKind::BadParameterTerm));
        }
        if j >= n || s.get_char(j) != '}' {
            return Err(grammar_err_next(i, j, n, GrammarKind::BadParameterTerm));
        }
        let tag = s.substring_char(i + 1, j).to_owned();
        Ok((ParsedKey::Parameter(tag, Span::new(i, j + 1)), j + 1))
    } else if c == '\'' {
        if n - i > 1 && s.get_char(i + 1) == '\\' {
            if n - i > 3 {
                let esc = s.get_char(i + 2);
                if (esc == '\\' || esc == '\'') && s.get_char(i + 3) == '\'' {
                    return Ok(
                        (
                            ParsedKey::Name(ParsedKeyDisc::LitChar(esc), Span::new(i, i + 4)),
                            i + 4,
                        ),
                    );
                }
            }
            Err(grammar_err_sat(i, 4, n, GrammarKind::BadCharLiteral))
        } else if n - i > 2 && s.get_char(i + 1) != '\'' && s.get_char(i + 2) == '\'' {
            Ok(
                (
                    ParsedKey::Name(ParsedKeyDisc::LitChar(s.get_char(i + 1)), Span::new(i, i + 3)),
                    i + 3,
                ),
            )
        } else {
            Err(grammar_err_sat(i, 3, n, GrammarKind::BadCharLiteral))
        }
    } else if digit_char(c) {
        let j = scan_digits_from(s, i);
        proof {
            lemma_scan_digits(s@, i as int);
        }
        match digits_to_code(s, i, j) {
            Some(v) => Ok(
                (ParsedKey::Name(ParsedKeyDisc::LitInt(v), Span::new(i, j)), j),
            ),
            None => Err(grammar_err(i, j, n, GrammarKind::CodeOverflow)),
        }
    } else if ident_start_char(c) {
        let j = scan_cont_from(s, i);
        let name = s.substring_char(i, j).to_owned();
        Ok((ParsedKey::Name(ParsedKeyDisc::Ident(name), Span::new(i, j)), j))
    } else {
        Err(grammar_err(i, i + 1, n, GrammarKind::UnknownToken))
    }
}

/// Builds a grammar error over `start..end`, clipped to the text length
/// `n`. Caller guarantees `end` does not overflow.
fn grammar_err(start: usize, end: usize, n: usize, kind: GrammarKind) -> (r: KeybindError)
    ensures
        r@ == spec_grammar_err(start as int, end as int, n as int, kind),
{
    let e = if end <= n {
        end
    } else {
        n
    };
    KeybindError::Grammar { span: Span::new(start, e), kind }
}

/// As [`grammar_err`], for the end `j + 1`, phrased so that the addition
/// cannot overflow when `j` sits at the very end of the text.
fn grammar_err_next(start: usize, j: usize, n: usize, kind: GrammarKind) -> (r: KeybindError)
    requires
        j <= n,
    ensures
        r@ == spec_grammar_err(start as int, j as int + 1, n as int, kind),
{
    let e = if j < n {
        j + 1
    } else {
        n
    };
    KeybindError::Grammar { span: Span::new(start, e), kind }
}

/// As [`grammar_err`], for an end given as an offset from `start`, so
/// that the addition cannot overflow even near the end of the text.
fn grammar_err_sat(start: usize, offset: usize, n: usize, kind: GrammarKind) -> (r: KeybindError)
    requires
        start <= n,
        offset <= 4,
    ensures
        r@ == spec_grammar_err(start as int, start as int + offset as int, n as int, kind),
{
    let e = if n - start > offset {
        start + offset
    } else {
        n
    };
    KeybindError::Grammar { span: Span::new(start, e), kind }
}

/// Parses the `+`-separated term list starting at `i`; returns exactly
/// the verdict of [`spec_terms`].
fn parse_terms(s: &str, i: usize) -> (r: Result<Vec<ParsedKey>, KeybindError>)
    requires
        i <= s@.len(),
    ensures
        match spec_terms(s@, i as int) {
            Ok(tsv) => r matches Ok(ts) && ts@.map_values(|k: ParsedKey| k@) == tsv,
            Err(ev) => r matches Err(e) && e@ == ev,
        },
    decreases s@.len() - i,
{
    let n = s.unicode_len();
    let (t, j) = match parse_term(s, i) {
        Ok(tj) => tj,
        Err(e) => {
            return Err(e);
        },
    };
    if j == n {
        let mut out: Vec<ParsedKey> = Vec::new();
        out.push(t);
        proof {
            assert(out@.map_values(|k: ParsedKey| k@) =~= spec_terms(s@, i as int)->Ok_0);
        }
        Ok(out)
    } else if s.get_char(j) == '+' {
        match parse_terms(s, j + 1) {
            Ok(mut rest) => {
                rest.insert(0, t);
                proof {
                    assert(rest@.map_values(|k: ParsedKey| k@) =~= spec_terms(s@, i as int)->Ok_0);
                }
                Ok(rest)
            },
            Err(e) => Err(e),
        }
    } else {
        Err(grammar_err(j, j + 1, n, GrammarKind::ExpectedSeparator))
    }
}

impl ParsedKeybind {
    /// Parses a whole keybind expression. Returns the term sequence the
    /// grammar assigns to the text, or its first grammar error; an empty
    /// text is rejected.
    pub fn parse(text: &str) -> (r: Result<ParsedKeybind, KeybindError>)
        ensures
            match spec_parse(text@) {
                Ok(tsv) => r matches Ok(kb) && kb@ == tsv,
                Err(ev) => r matches Err(e) && e@ == ev,
            },
    {
        let n = text.unicode_len();
        if n == 0 {
            return Err(
                KeybindError::Grammar {
                    span: Span::new(0, 0),
                    kind: GrammarKind::EmptyExpression,
                },
            );
        }
        match parse_terms(text, 0) {
            Ok(ts) => Ok(ParsedKeybind(ts)),
            Err(e) => Err(e),
        }
    }

    /// The parsed terms, in declaration order.
    pub fn terms(&self) -> (r: &Vec<ParsedKey>)
        ensures
            r@.map_values(|k: ParsedKey| k@) == self@,
    {
        &self.0
    }
}

} // verus!
