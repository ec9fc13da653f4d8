//! Expected-error patterns: a plain substring or a regular expression.

use vstd::prelude::*;
use crate::rex::{regex_ok, regex_match_of, regex_is_valid, regex_matches};
use crate::text::{is_substring, contains_sub};

verus! {

#[derive(Debug)]
enum PatternKind {
    SubString(String),
    Regex(String),
}

/// The mathematical shape of a pattern: its kind and text.
pub ghost enum PatternView {
    SubString(Seq<char>),
    Regex(Seq<char>),
}

/// A textual expectation to hold against a diagnostic message. A regex
/// pattern can only be built from text the regex engine accepts, so
/// matching never fails.
#[derive(Debug)]
pub struct Pattern {
    kind: PatternKind,
}

/// Whether a pattern matches a message text.
pub open spec fn pattern_view_matches(p: PatternView, text: Seq<char>) -> bool {
    match p {
        PatternView::SubString(s) => is_substring(s, text),
        PatternView::Regex(r) => regex_match_of(r, text),
    }
}

impl View for Pattern {
    type V = PatternView;

    closed spec fn view(&self) -> PatternView {
        match self.kind {
            PatternKind::SubString(s) => PatternView::SubString(s@),
            PatternKind::Regex(r) => PatternView::Regex(r@),
        }
    }
}

impl Pattern {
    #[verifier::type_invariant]
    closed spec fn inv(self) -> bool {
        match self.kind {
            PatternKind::SubString(_) => true,
            PatternKind::Regex(r) => regex_ok(r@),
        }
    }

    /// A pattern that asks for `text` as a substring.
    pub fn sub_string(text: String) -> (p: Pattern)
        ensures
            p@ == PatternView::SubString(text@),
    {
        Pattern { kind: PatternKind::SubString(text) }
    }

    /// A pattern that asks for a regex match; refused when the regex
    /// engine does not accept `source`.
    pub fn regex(source: String) -> (p: Option<Pattern>)
        ensures
            match p {
                Some(pat) => pat@ == PatternView::Regex(source@) && regex_ok(source@),
                None => !regex_ok(source@),
            },
    {
        if regex_is_valid(source.as_str()) {
            Some(Pattern { kind: PatternKind::Regex(source) })
        } else {
            None
        }
    }

    /// Whether this pattern matches the given message text.
    pub fn matches_text(&self, text: &str) -> (r: bool)
        ensures
            r == pattern_view_matches(self@, text@),
    {
        match &self.kind {
            PatternKind::SubString(s) => contains_sub(text, s.as_str()),
            PatternKind::Regex(r) => {
                proof {
                    use_type_invariant(self);
                }
                regex_matches(r.as_str(), text)
            },
        }
    }
}

impl Clone for Pattern {
    fn clone(&self) -> (r: Self)
        ensures
            r == *self,
    {
        proof {
            use_type_invariant(self);
        }
        match &self.kind {
            PatternKind::SubString(s) => Pattern { kind: PatternKind::SubString(s.clone()) },
            PatternKind::Regex(r) => Pattern { kind: PatternKind::Regex(r.clone()) },
        }
    }
}

} // verus!
