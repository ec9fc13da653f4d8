//! The annotation matcher's mathematical model: how directives consume
//! diagnostic messages, which errors each step raises, and in what
//! order. The executable matcher in `per_test_config` is proved to
//! produce exactly these errors.

use vstd::prelude::*;
use crate::level::{Level, level_rank};
use crate::span::Span;
use crate::pattern::{Pattern, PatternView, pattern_view_matches};
use crate::message::{Message, MessageView, msgs_view};
use crate::errors::ErrorView;
use crate::comments::{ErrorMatch, ErrorMatchKind, Revisioned};
use crate::span::Spanned;
use crate::text::{find_idx, code_matches, lemma_find_idx_at};

verus! {

/// The shape of a line-anchored directive.
pub ghost enum ErrorMatchKindView {
    Pattern { pattern: PatternView, span: Span, level: Level },
    Code { code: Seq<char>, span: Span },
}

/// The shape of an expected-diagnostic directive.
pub ghost struct ErrorMatchView {
    pub kind: ErrorMatchKindView,
    pub line: usize,
}

impl View for ErrorMatch {
    type V = ErrorMatchView;

    open spec fn view(&self) -> ErrorMatchView {
        ErrorMatchView {
            kind: match self.kind {
                ErrorMatchKind::Pattern { pattern, level } => ErrorMatchKindView::Pattern {
                    pattern: pattern.data@,
                    span: pattern.span,
                    level: level,
                },
                ErrorMatchKind::Code(code) => ErrorMatchKindView::Code {
                    code: code.data@,
                    span: code.span,
                },
            },
            line: self.line,
        }
    }
}

/// The views of a directive list.
pub open spec fn dirs_view(s: Seq<ErrorMatch>) -> Seq<ErrorMatchView> {
    s.map_values(|d: ErrorMatch| d@)
}

/// The views of a foreign-file pattern list.
pub open spec fn foreign_view(s: Seq<Spanned<Pattern>>) -> Seq<(PatternView, Span)> {
    s.map_values(|p: Spanned<Pattern>| (p.data@, p.span))
}

/// The span a directive's kind was written at.
pub open spec fn kind_span(k: ErrorMatchKindView) -> Span {
    match k {
        ErrorMatchKindView::Pattern { span, .. } => span,
        ErrorMatchKindView::Code { span, .. } => span,
    }
}

/// What a foreign-file pattern asks of a message.
pub open spec fn foreign_pred(p: PatternView) -> spec_fn(MessageView) -> bool {
    |m: MessageView| pattern_view_matches(p, m.message)
}

/// What a line-anchored pattern directive asks of a message.
pub open spec fn line_pattern_pred(p: PatternView, level: Level) -> spec_fn(MessageView) -> bool {
    |m: MessageView| pattern_view_matches(p, m.message) && m.level == level
}

/// What a diagnostic-code directive asks of a message: an error-level
/// message whose code, less the configured prefix, is the expected one.
pub open spec fn code_pred(prefix: Seq<char>, code: Seq<char>) -> spec_fn(MessageView) -> bool {
    |m: MessageView| m.level == Level::Error && m.code is Some && code_matches(
        m.code->0,
        prefix,
        code,
    )
}

/// Outcome of resolving the foreign-file patterns: the messages left
/// over, and the errors raised, in directive order.
pub ghost struct ForeignOutcome {
    pub remaining: Seq<MessageView>,
    pub errors: Seq<ErrorView>,
}

/// Resolve one foreign-file pattern against the unknown-line messages:
/// consume the first match, or raise `PatternNotFound` with no line.
pub open spec fn foreign_one(p: (PatternView, Span), msgs: Seq<MessageView>) -> ForeignOutcome {
    match find_idx(msgs, foreign_pred(p.0)) {
        Some(i) => ForeignOutcome { remaining: msgs.remove(i), errors: Seq::empty() },
        None => ForeignOutcome {
            remaining: msgs,
            errors: seq![
                ErrorView::PatternNotFound {
                    pattern: p.0,
                    pattern_span: p.1,
                    expected_line: None,
                },
            ],
        },
    }
}

/// Resolve all foreign-file patterns, in directive order.
pub open spec fn foreign_step(pats: Seq<(PatternView, Span)>, msgs: Seq<MessageView>) -> ForeignOutcome
    decreases pats.len(),
{
    if pats.len() == 0 {
        ForeignOutcome { remaining: msgs, errors: Seq::empty() }
    } else {
        let first = foreign_one(pats[0], msgs);
        let rest = foreign_step(pats.drop_first(), first.remaining);
        ForeignOutcome { remaining: rest.remaining, errors: first.errors + rest.errors }
    }
}

/// Outcome of one line-anchored directive: the buckets after any
/// consumption, and the errors raised.
pub ghost struct StepOutcome {
    pub buckets: Seq<Seq<MessageView>>,
    pub errors: Seq<ErrorView>,
}

/// The error a directive raises when nothing matched it.
pub open spec fn not_found_error(d: ErrorMatchView, prefix: Seq<char>) -> ErrorView {
    match d.kind {
        ErrorMatchKindView::Pattern { pattern, span, .. } => ErrorView::PatternNotFound {
            pattern: pattern,
            pattern_span: span,
            expected_line: Some(d.line),
        },
        ErrorMatchKindView::Code { code, span } => ErrorView::CodeNotFound {
            code: prefix + code,
            code_span: span,
            expected_line: Some(d.line),
        },
    }
}

/// Resolve one line-anchored directive: consume the first matching
/// message of the expected line's bucket, or raise its error.
pub open spec fn dir_one(d: ErrorMatchView, buckets: Seq<Seq<MessageView>>, prefix: Seq<char>) -> StepOutcome {
    if 0 <= d.line < buckets.len() {
        let b = buckets[d.line as int];
        let found = match d.kind {
            ErrorMatchKindView::Pattern { pattern, level, .. } => find_idx(
                b,
                line_pattern_pred(pattern, level),
            ),
            ErrorMatchKindView::Code { code, .. } => find_idx(b, code_pred(prefix, code)),
        };
        match found {
            Some(i) => StepOutcome {
                buckets: buckets.update(d.line as int, b.remove(i)),
                errors: Seq::empty(),
            },
            None => StepOutcome { buckets: buckets, errors: seq![not_found_error(d, prefix)] },
        }
    } else {
        StepOutcome { buckets: buckets, errors: seq![not_found_error(d, prefix)] }
    }
}

/// How one directive lowers the least severity seen on a pattern
/// directive; code directives do not take part.
pub open spec fn dir_lowest(k: ErrorMatchKindView, lowest: Level) -> Level {
    match k {
        ErrorMatchKindView::Pattern { level, .. } => if level_rank(lowest) > level_rank(level) {
            level
        } else {
            lowest
        },
        ErrorMatchKindView::Code { .. } => lowest,
    }
}

/// Outcome of resolving all line-anchored directives.
pub ghost struct DirsOutcome {
    pub buckets: Seq<Seq<MessageView>>,
    pub errors: Seq<ErrorView>,
    pub lowest: Level,
}

/// Resolve all line-anchored directives, in directive order, tracking
/// the least severity any pattern directive asked for.
pub open spec fn dirs_step(
    dirs: Seq<ErrorMatchView>,
    buckets: Seq<Seq<MessageView>>,
    prefix: Seq<char>,
    lowest: Level,
) -> DirsOutcome
    decreases dirs.len(),
{
    if dirs.len() == 0 {
        DirsOutcome { buckets, errors: Seq::empty(), lowest }
    } else {
        let low1 = dir_lowest(dirs[0].kind, lowest);
        let first = dir_one(dirs[0], buckets, prefix);
        let rest = dirs_step(dirs.drop_first(), first.buckets, prefix, low1);
        DirsOutcome {
            buckets: rest.buckets,
            errors: first.errors + rest.errors,
            lowest: rest.lowest,
        }
    }
}

/// The messages at or above the given severity.
pub open spec fn keep_at_least(msgs: Seq<MessageView>, min: Level) -> Seq<MessageView> {
    msgs.filter(|m: MessageView| level_rank(m.level) >= level_rank(min))
}

/// The unexpected-diagnostics error for the unknown-line group, if any
/// message of sufficient severity is left.
pub open spec fn unknown_errors(unknown: Seq<MessageView>, min: Level) -> Seq<ErrorView> {
    if keep_at_least(unknown, min).len() > 0 {
        seq![
            ErrorView::ErrorsWithoutPattern { path: None, msgs: keep_at_least(unknown, min) },
        ]
    } else {
        Seq::empty()
    }
}

/// One unexpected-diagnostics error per line whose bucket still holds a
/// message of sufficient severity, in line order.
pub open spec fn line_errors(path: Seq<char>, buckets: Seq<Seq<MessageView>>, min: Level) -> Seq<
    ErrorView,
>
    decreases buckets.len(),
{
    if buckets.len() == 0 {
        Seq::empty()
    } else {
        line_errors(path, buckets.drop_last(), min) + (if keep_at_least(
            buckets.last(),
            min,
        ).len() > 0 {
            seq![
                ErrorView::ErrorsWithoutPattern {
                    path: Some((path, crate::span::line_span((buckets.len() - 1) as usize))),
                    msgs: keep_at_least(buckets.last(), min),
                },
            ]
        } else {
            Seq::empty()
        })
    }
}

/// All exhaustiveness errors: the unknown-line group first, then the
/// per-line groups.
pub open spec fn exhaustive_errors(
    path: Seq<char>,
    buckets: Seq<Seq<MessageView>>,
    unknown: Seq<MessageView>,
    min: Level,
) -> Seq<ErrorView> {
    unknown_errors(unknown, min) + line_errors(path, buckets, min)
}

/// The span of the last error-match directive processed, if any:
/// line-anchored directives run after foreign-file patterns.
pub open spec fn seen_span(pats: Seq<(PatternView, Span)>, dirs: Seq<ErrorMatchView>) -> Option<
    Span,
> {
    if dirs.len() > 0 {
        Some(kind_span(dirs.last().kind))
    } else if pats.len() > 0 {
        Some(pats.last().1)
    } else {
        None
    }
}

/// The mode cross-check errors: a `Pass` or `Panic` test must not
/// carry any error-match directive, and a `Fail` test that requires
/// patterns must carry one.
pub open spec fn mode_errors(mode: crate::message::Mode, mode_span: Span, seen: Option<Span>) -> Seq<
    ErrorView,
> {
    match (mode, seen) {
        (crate::message::Mode::Pass, Some(s)) => seq![
            ErrorView::PatternFoundInPassTest { mode: mode_span, span: s },
        ],
        (crate::message::Mode::Panic, Some(s)) => seq![
            ErrorView::PatternFoundInPassTest { mode: mode_span, span: s },
        ],
        (crate::message::Mode::Fail { require_patterns: true }, None) => seq![
            ErrorView::NoPatternsFound,
        ],
        _ => Seq::empty(),
    }
}

/// The options a per-revision setting takes over the applicable
/// revision groups, in order: used to resolve settings that may be
/// given at most once.
pub open spec fn some_options<T>(revs: Seq<Revisioned>, f: spec_fn(Revisioned) -> Option<T>) -> Seq<
    T,
>
    decreases revs.len(),
{
    if revs.len() == 0 {
        Seq::empty()
    } else {
        some_options(revs.drop_last(), f) + (match f(revs.last()) {
            Some(x) => seq![x],
            None => Seq::empty(),
        })
    }
}

/// The diagnostic-code-prefix settings, in order.
pub open spec fn prefix_options(revs: Seq<Revisioned>) -> Seq<Spanned<String>> {
    some_options(revs, |r: Revisioned| r.diagnostic_code_prefix)
}

/// The explicit minimum-annotation-severity settings, in order.
pub open spec fn level_options(revs: Seq<Revisioned>) -> Seq<Spanned<Level>> {
    some_options(revs, |r: Revisioned| r.require_annotations_for_level)
}

/// The mode settings, in order.
pub open spec fn mode_options(revs: Seq<Revisioned>) -> Seq<Spanned<crate::message::Mode>> {
    some_options(revs, |r: Revisioned| r.mode)
}

/// The custom flags stored under one name, over the applicable
/// revision groups, in order.
pub open spec fn custom_options(revs: Seq<Revisioned>, name: Seq<char>) -> Seq<
    Spanned<crate::comments::CustomFlag>,
> {
    some_options(revs, |r: Revisioned| crate::comments::custom_lookup(r.custom@, name))
}

/// The span and argument views of a custom-flag list.
pub open spec fn flags_view(s: Seq<Spanned<crate::comments::CustomFlag>>) -> Seq<
    (Span, Seq<Seq<char>>),
> {
    s.map_values(
        |f: Spanned<crate::comments::CustomFlag>|
            (f.span, crate::comments::args_view(f.data.args@)),
    )
}

/// The resolved diagnostic-code prefix.
pub open spec fn resolved_prefix(revs: Seq<Revisioned>) -> Seq<char> {
    if prefix_options(revs).len() > 0 {
        prefix_options(revs)[0].data@
    } else {
        Seq::empty()
    }
}

/// The whole matcher's output: the errors of the four steps, in the
/// order they are raised. Exhaustiveness is skipped in `Yolo` mode.
pub open spec fn annotation_errors(
    pats: Seq<(PatternView, Span)>,
    dirs: Seq<ErrorMatchView>,
    buckets: Seq<Seq<MessageView>>,
    unknown: Seq<MessageView>,
    prefix: Seq<char>,
    override_level: Option<Level>,
    mode: crate::message::Mode,
    mode_span: Span,
    path: Seq<char>,
) -> Seq<ErrorView> {
    let f = foreign_step(pats, unknown);
    let d = dirs_step(dirs, buckets, prefix, Level::Error);
    let min = match override_level {
        Some(l) => l,
        None => d.lowest,
    };
    f.errors + d.errors + (if mode is Yolo {
        Seq::empty()
    } else {
        exhaustive_errors(path, d.buckets, f.remaining, min)
    }) + mode_errors(mode, mode_span, seen_span(pats, dirs))
}

/// Taking one view commutes with removing one message.
pub proof fn lemma_msgs_view_remove(s: Seq<Message>, i: int)
    requires
        0 <= i < s.len(),
    ensures
        msgs_view(s.remove(i)) =~= msgs_view(s).remove(i),
{
    assert forall|t: int| 0 <= t < s.remove(i).len() implies msgs_view(s.remove(i))[t]
        == msgs_view(s).remove(i)[t] by {
        if t < i {
            assert(s.remove(i)[t] == s[t]);
        } else {
            assert(s.remove(i)[t] == s[t + 1]);
        }
    }
}

/// Search the unknown-line messages for the first one a foreign-file
/// pattern matches.
pub fn find_foreign(msgs: &Vec<Message>, pat: &Pattern) -> (r: Option<usize>)
    ensures
        find_idx(msgs_view(msgs@), foreign_pred(pat@)) == (match r {
            Some(i) => Some(i as int),
            None => None::<int>,
        }),
        r matches Some(i) ==> i < msgs@.len(),
{
    let mut j: usize = 0;
    while j < msgs.len()
        invariant
            j <= msgs@.len(),
            forall|t: int| 0 <= t < j ==> !(foreign_pred(pat@)(msgs_view(msgs@)[t])),
        decreases msgs.len() - j,
    {
        if pat.matches_text(msgs[j].message.as_str()) {
            proof {
                assert(foreign_pred(pat@)(msgs_view(msgs@)[j as int]));
                lemma_find_idx_at(msgs_view(msgs@), foreign_pred(pat@), j as int);
            }
            return Some(j);
        }
        j += 1;
    }
    proof {
        lemma_find_idx_at(msgs_view(msgs@), foreign_pred(pat@), msgs@.len() as int);
    }
    None
}

/// Search a line's bucket for the first message a pattern directive
/// matches at the expected severity.
pub fn find_line_pattern(msgs: &Vec<Message>, pat: &Pattern, level: Level) -> (r: Option<usize>)
    ensures
        find_idx(msgs_view(msgs@), line_pattern_pred(pat@, level)) == (match r {
            Some(i) => Some(i as int),
            None => None::<int>,
        }),
        r matches Some(i) ==> i < msgs@.len(),
{
    let mut j: usize = 0;
    while j < msgs.len()
        invariant
            j <= msgs@.len(),
            forall|t: int| 0 <= t < j ==> !(line_pattern_pred(pat@, level)(msgs_view(msgs@)[t])),
        decreases msgs.len() - j,
    {
        if msgs[j].level == level && pat.matches_text(msgs[j].message.as_str()) {
            proof {
                assert(line_pattern_pred(pat@, level)(msgs_view(msgs@)[j as int]));
                lemma_find_idx_at(msgs_view(msgs@), line_pattern_pred(pat@, level), j as int);
            }
            return Some(j);
        }
        j += 1;
    }
    proof {
        lemma_find_idx_at(msgs_view(msgs@), line_pattern_pred(pat@, level), msgs@.len() as int);
    }
    None
}

/// Search a line's bucket for the first error-level message whose
/// code, less the prefix, is the expected one.
pub fn find_line_code(msgs: &Vec<Message>, prefix: &String, code: &String) -> (r: Option<usize>)
    ensures
        find_idx(msgs_view(msgs@), code_pred(prefix@, code@)) == (match r {
            Some(i) => Some(i as int),
            None => None::<int>,
        }),
        r matches Some(i) ==> i < msgs@.len(),
{
    let mut j: usize = 0;
    while j < msgs.len()
        invariant
            j <= msgs@.len(),
            forall|t: int| 0 <= t < j ==> !(code_pred(prefix@, code@)(msgs_view(msgs@)[t])),
        decreases msgs.len() - j,
    {
        let hit: bool = match &msgs[j].code {
            Some(c) => {
                msgs[j].level == Level::Error && crate::text::strip_prefix_matches(
                    c.as_str(),
                    prefix.as_str(),
                    code.as_str(),
                )
            },
            None => false,
        };
        if hit {
            proof {
                assert(code_pred(prefix@, code@)(msgs_view(msgs@)[j as int]));
                lemma_find_idx_at(msgs_view(msgs@), code_pred(prefix@, code@), j as int);
            }
            return Some(j);
        }
        proof {
            assert(!(code_pred(prefix@, code@)(msgs_view(msgs@)[j as int])));
        }
        j += 1;
    }
    proof {
        lemma_find_idx_at(msgs_view(msgs@), code_pred(prefix@, code@), msgs@.len() as int);
    }
    None
}

/// Keep the messages at or above the given severity.
pub fn filter_at_least(msgs: &Vec<Message>, min: Level) -> (r: Vec<Message>)
    ensures
        msgs_view(r@) == keep_at_least(msgs_view(msgs@), min),
{
    let ghost pred = |m: MessageView| level_rank(m.level) >= level_rank(min);
    let mut r: Vec<Message> = Vec::new();
    let mut i: usize = 0;
    while i < msgs.len()
        invariant
            i <= msgs@.len(),
            msgs_view(r@) == msgs_view(msgs@).subrange(0, i as int).filter(pred),
            pred == (|m: MessageView| level_rank(m.level) >= level_rank(min)),
        decreases msgs.len() - i,
    {
        proof {
            assert(msgs_view(msgs@).subrange(0, i + 1).drop_last() =~= msgs_view(
                msgs@,
            ).subrange(0, i as int));
            reveal(Seq::filter);
        }
        if msgs[i].level.at_least(min) {
            let m = msgs[i].clone();
            let ghost old_r = r@;
            r.push(m);
            proof {
                assert(msgs_view(r@) =~= msgs_view(old_r).push(msgs@[i as int]@));
            }
        } else {
            proof {
                assert(msgs_view(r@) =~= msgs_view(msgs@).subrange(0, i + 1).filter(pred));
            }
        }
        i += 1;
    }
    proof {
        assert(msgs_view(msgs@).subrange(0, msgs@.len() as int) =~= msgs_view(msgs@));
    }
    r
}

} // verus!
