//! Structured diagnostics.
//!
//! Every failure of parsing, resolution or validation is reported as a
//! [`KeybindError`] carrying the character span of the offending token in
//! the original declaration text. Stages that can detect several mistakes
//! independently return all of them together, never just the first.

use vstd::prelude::*;

use crate::registry::IdentView;
use crate::registry::KeyIdentifier;

verus! {

/// A half-open character range `start..end` into the declaration text.
#[derive(Debug, Clone, Copy, PartialEq, Eq, Structural)]
pub struct Span {
    /// Index of the first character of the region.
    pub start: usize,
    /// Index one past the last character of the region.
    pub end: usize,
}

impl Span {
    /// Builds the span `start..end`.
    pub fn new(start: usize, end: usize) -> (r: Span)
        ensures
            r == (Span { start, end }),
    {
        Span { start, end }
    }
}

/// The ways one term of an expression can be textually malformed.
#[derive(Debug, Clone, Copy, PartialEq, Eq, Structural)]
pub enum GrammarKind {
    /// The whole expression is empty: it must hold at least one term.
    EmptyExpression,
    /// A term was expected here and none begins here (for instance after a
    /// trailing `+`).
    ExpectedTerm,
    /// A `+` separator or the end of the expression was expected here.
    ExpectedSeparator,
    /// `[...]` must hold a decimal integer literal, e.g. `[11]` or `[111]`.
    BadCodeTerm,
    /// `{...}` must hold a parameter tag identifier, e.g. `{d}` or `{f}`.
    BadParameterTerm,
    /// A character literal must be `'c'`, `'\''` or `'\\'`.
    BadCharLiteral,
    /// The integer literal does not fit a keycode.
    CodeOverflow,
    /// No term shape (name, `[code]`, `{tag}`, char or int literal) begins
    /// with this character.
    UnknownToken,
}

/// One structured error, with the span it should be surfaced at.
///
/// The taxonomy follows the stages: grammar errors from parsing, unknown
/// aliases and unknown parameter tags from resolution, and the three
/// arity-correspondence failures plus type mismatches from validation.
#[derive(Debug, Clone)]
pub enum KeybindError {
    /// Malformed expression text; fatal to the whole parse.
    Grammar {
        /// Offending region of the expression text.
        span: Span,
        /// Which shape requirement the region breaks.
        kind: GrammarKind,
    },
    /// A name, char or int term did not resolve in the registry. Carries
    /// the literal spelling that failed to resolve.
    UnknownAlias {
        /// Region of the unresolved term.
        span: Span,
        /// The spelling that no registry entry owns.
        spelling: KeyIdentifier,
    },
    /// A `{tag}` term's tag is not in the key-parameter catalog. All
    /// occurrences across one expression are reported, not just the first.
    UnknownParameterTag {
        /// Region of the `{tag}` term.
        span: Span,
        /// The unknown tag.
        tag: String,
    },
    /// The expression uses parameter terms but the callback declares no
    /// extra arguments at all.
    ArityMismatch {
        /// Number of `{tag}` terms the expression uses.
        needed: usize,
    },
    /// A declared extra argument beyond the expression's parameter terms;
    /// one error per excess argument.
    ExcessParameter {
        /// Region of the excess argument's declaration.
        span: Span,
        /// Declared name of the excess argument.
        name: String,
    },
    /// A parameter term with no corresponding declared argument; one error
    /// per missing position.
    MissingParameter {
        /// Position of the parameter term among the `{tag}` terms.
        position: usize,
        /// The tag a declared argument was expected to carry.
        tag: String,
    },
    /// A declared argument whose type name differs from its positional tag.
    TypeCorrespondence {
        /// Region of the argument's declaration.
        span: Span,
        /// The tag of the same-index parameter term.
        expected: String,
        /// The declared type name actually found.
        actual: String,
    },
}

/// Ghost shape of a [`KeybindError`], with text as character sequences.
pub enum ErrorView {
    /// View of [`KeybindError::Grammar`].
    Grammar { span: Span, kind: GrammarKind },
    /// View of [`KeybindError::UnknownAlias`].
    UnknownAlias { span: Span, spelling: IdentView },
    /// View of [`KeybindError::UnknownParameterTag`].
    UnknownParameterTag { span: Span, tag: Seq<char> },
    /// View of [`KeybindError::ArityMismatch`].
    ArityMismatch { needed: usize },
    /// View of [`KeybindError::ExcessParameter`].
    ExcessParameter { span: Span, name: Seq<char> },
    /// View of [`KeybindError::MissingParameter`].
    MissingParameter { position: usize, tag: Seq<char> },
    /// View of [`KeybindError::TypeCorrespondence`].
    TypeCorrespondence { span: Span, expected: Seq<char>, actual: Seq<char> },
}

impl View for KeybindError {
    type V = ErrorView;

    open spec fn view(&self) -> ErrorView {
        match self {
            KeybindError::Grammar { span, kind } => ErrorView::Grammar {
                span: *span,
                kind: *kind,
            },
            KeybindError::UnknownAlias { span, spelling } => ErrorView::UnknownAlias {
                span: *span,
                spelling: spelling@,
            },
            KeybindError::UnknownParameterTag { span, tag } => ErrorView::UnknownParameterTag {
                span: *span,
                tag: tag@,
            },
            KeybindError::ArityMismatch { needed } => ErrorView::ArityMismatch {
                needed: *needed,
            },
            KeybindError::ExcessParameter { span, name } => ErrorView::ExcessParameter {
                span: *span,
                name: name@,
            },
            KeybindError::MissingParameter { position, tag } => ErrorView::MissingParameter {
                position: *position,
                tag: tag@,
            },
            KeybindError::TypeCorrespondence { span, expected, actual } => ErrorView::TypeCorrespondence {
                span: *span,
                expected: expected@,
                actual: actual@,
            },
        }
    }
}

} // verus!
