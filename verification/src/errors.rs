//! The closed error taxonomy of one test run.
//!
//! Errors accumulate into one ordered list per test; nothing
//! short-circuits on the first mismatch.

use vstd::prelude::*;
use crate::span::{Span, Spanned};
use crate::pattern::{Pattern, PatternView};
use crate::message::{Message, MessageView, msgs_view};
use crate::config::CommandData;

verus! {

/// One discrepancy found while checking a test.
#[derive(Debug)]
#[allow(inconsistent_fields)]
pub enum Error {
    /// Normalized output did not match the stored baseline.
    OutputDiffers {
        path: String,
        actual: Vec<u8>,
        expected: Vec<u8>,
        bless_command: Option<String>,
    },
    /// An expected pattern never matched a diagnostic.
    PatternNotFound { pattern: Spanned<Pattern>, expected_line: Option<usize> },
    /// An expected diagnostic code never matched a diagnostic.
    CodeNotFound { code: Spanned<String>, expected_line: Option<usize> },
    /// Diagnostics were present with no corresponding annotation,
    /// grouped by source location; `path` is `None` for messages not
    /// tied to a known line of the tested file.
    ErrorsWithoutPattern { path: Option<Spanned<String>>, msgs: Vec<Message> },
    /// An error-match directive was present although the mode forbids
    /// any.
    PatternFoundInPassTest { mode: Span, span: Span },
    /// The mode requires at least one error-match directive and none
    /// was found.
    NoPatternsFound,
    /// An auxiliary build failed.
    Aux { path: String, errors: Vec<Error>, line: usize },
}

/// The mathematical shape of an error. Nested auxiliary errors are
/// abstracted to their count; the functions that wrap them state the
/// nesting directly on the values.
#[allow(inconsistent_fields)]
pub ghost enum ErrorView {
    OutputDiffers {
        path: Seq<char>,
        actual: Seq<u8>,
        expected: Seq<u8>,
        bless_command: Option<Seq<char>>,
    },
    PatternNotFound { pattern: PatternView, pattern_span: Span, expected_line: Option<usize> },
    CodeNotFound { code: Seq<char>, code_span: Span, expected_line: Option<usize> },
    ErrorsWithoutPattern { path: Option<(Seq<char>, Span)>, msgs: Seq<MessageView> },
    PatternFoundInPassTest { mode: Span, span: Span },
    NoPatternsFound,
    Aux { path: Seq<char>, nested: nat, line: usize },
}

impl View for Error {
    type V = ErrorView;

    open spec fn view(&self) -> ErrorView {
        match self {
            Error::OutputDiffers { path, actual, expected, bless_command } => {
                ErrorView::OutputDiffers {
                    path: path@,
                    actual: actual@,
                    expected: expected@,
                    bless_command: match bless_command {
                        Some(b) => Some(b@),
                        None => None,
                    },
                }
            },
            Error::PatternNotFound { pattern, expected_line } => ErrorView::PatternNotFound {
                pattern: pattern.data@,
                pattern_span: pattern.span,
                expected_line: *expected_line,
            },
            Error::CodeNotFound { code, expected_line } => ErrorView::CodeNotFound {
                code: code.data@,
                code_span: code.span,
                expected_line: *expected_line,
            },
            Error::ErrorsWithoutPattern { path, msgs } => ErrorView::ErrorsWithoutPattern {
                path: match path {
                    Some(p) => Some((p.data@, p.span)),
                    None => None,
                },
                msgs: msgs_view(msgs@),
            },
            Error::PatternFoundInPassTest { mode, span } => ErrorView::PatternFoundInPassTest {
                mode: *mode,
                span: *span,
            },
            Error::NoPatternsFound => ErrorView::NoPatternsFound,
            Error::Aux { path, errors, line } => ErrorView::Aux {
                path: path@,
                nested: errors@.len() as nat,
                line: *line,
            },
        }
    }
}

/// The views of an error list.
pub open spec fn errs_view(s: Seq<Error>) -> Seq<ErrorView> {
    s.map_values(|e: Error| e@)
}

/// Taking views commutes with concatenation.
pub proof fn lemma_errs_view_concat(a: Seq<Error>, b: Seq<Error>)
    ensures
        errs_view(a + b) =~= errs_view(a) + errs_view(b),
{
    assert forall|i: int| 0 <= i < a.len() + b.len() implies errs_view(a + b)[i] == (errs_view(a)
        + errs_view(b))[i] by {
        if i < a.len() {
            assert((a + b)[i] == a[i]);
        } else {
            assert((a + b)[i] == b[i - a.len()]);
        }
    }
}

/// A test failure: the command that ran, every accumulated error, and
/// the captured output for post-mortem display.
#[derive(Debug)]
pub struct Errored {
    pub command: CommandData,
    pub errors: Vec<Error>,
    pub stderr: Vec<u8>,
    pub stdout: Vec<u8>,
}

} // verus!
