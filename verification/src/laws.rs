//! Laws of the matcher and the reconciler, stated and proved over the
//! same models the executable functions are specified with.

use vstd::prelude::*;
use crate::level::Level;
use crate::span::{Span, line_span};
use crate::pattern::PatternView;
use crate::message::{Mode, MessageView};
use crate::errors::ErrorView;
use crate::config::OutputConflictHandling;
use crate::matcher::{
    ErrorMatchView, ErrorMatchKindView, foreign_step, dirs_step, mode_errors, seen_span,
    annotation_errors, exhaustive_errors, line_errors, unknown_errors, keep_at_least, dir_one,
    not_found_error, line_pattern_pred, code_pred,
};
use crate::per_test_config::{reconcile_errors, reconcile_action, ActionView, baseline_bytes};
use crate::text::{find_idx, lemma_find_idx_at};

verus! {

/// In a `Pass` or `Panic` test, the presence of any error-match
/// directive — foreign-file or line-anchored — always raises
/// `PatternFoundInPassTest`, with the mode's span and the span of the
/// last directive.
pub proof fn lemma_pass_mode_reports_directives(
    pats: Seq<(PatternView, Span)>,
    dirs: Seq<ErrorMatchView>,
    buckets: Seq<Seq<MessageView>>,
    unknown: Seq<MessageView>,
    prefix: Seq<char>,
    override_level: Option<Level>,
    mode: Mode,
    mode_span: Span,
    path: Seq<char>,
)
    requires
        mode == Mode::Pass || mode == Mode::Panic,
        pats.len() + dirs.len() > 0,
    ensures
        seen_span(pats, dirs) is Some,
        annotation_errors(pats, dirs, buckets, unknown, prefix, override_level, mode, mode_span, path).last()
            == (ErrorView::PatternFoundInPassTest {
            mode: mode_span,
            span: seen_span(pats, dirs)->0,
        }),
        annotation_errors(pats, dirs, buckets, unknown, prefix, override_level, mode, mode_span, path).len()
            >= 1,
{
    let m = mode_errors(mode, mode_span, seen_span(pats, dirs));
    assert(m =~= seq![
        ErrorView::PatternFoundInPassTest { mode: mode_span, span: seen_span(pats, dirs)->0 },
    ]);
}

/// In a `Fail` test that requires patterns, the absence of every
/// error-match directive always raises `NoPatternsFound`.
pub proof fn lemma_fail_requires_patterns(
    buckets: Seq<Seq<MessageView>>,
    unknown: Seq<MessageView>,
    prefix: Seq<char>,
    override_level: Option<Level>,
    mode_span: Span,
    path: Seq<char>,
)
    ensures
        ({
            let pats = Seq::<(PatternView, Span)>::empty();
            let dirs = Seq::<ErrorMatchView>::empty();
            let out = annotation_errors(
                pats,
                dirs,
                buckets,
                unknown,
                prefix,
                override_level,
                Mode::Fail { require_patterns: true },
                mode_span,
                path,
            );
            out.len() >= 1 && out.last() == ErrorView::NoPatternsFound
        }),
{
    let pats = Seq::<(PatternView, Span)>::empty();
    let dirs = Seq::<ErrorMatchView>::empty();
    assert(seen_span(pats, dirs) is None);
    let m = mode_errors(
        Mode::Fail { require_patterns: true },
        mode_span,
        seen_span(pats, dirs),
    );
    assert(m =~= seq![ErrorView::NoPatternsFound]);
}

/// How many unexpected-diagnostics entries of a list point at one
/// line of the tested file.
pub open spec fn count_line_group(errs: Seq<ErrorView>, path: Seq<char>, l: usize) -> int
    decreases errs.len(),
{
    if errs.len() == 0 {
        0
    } else {
        count_line_group(errs.drop_last(), path, l) + (match errs.last() {
            ErrorView::ErrorsWithoutPattern { path: Some(p), .. } => if p == (path, line_span(l)) {
                1int
            } else {
                0int
            },
            _ => 0int,
        })
    }
}

/// How many unexpected-diagnostics entries of a list belong to the
/// "no location" group.
pub open spec fn count_unknown_group(errs: Seq<ErrorView>) -> int
    decreases errs.len(),
{
    if errs.len() == 0 {
        0
    } else {
        count_unknown_group(errs.drop_last()) + (match errs.last() {
            ErrorView::ErrorsWithoutPattern { path: None, .. } => 1int,
            _ => 0int,
        })
    }
}

proof fn lemma_line_errors_counts(
    path: Seq<char>,
    buckets: Seq<Seq<MessageView>>,
    min: Level,
    l: usize,
)
    requires
        buckets.len() <= usize::MAX,
    ensures
        count_line_group(line_errors(path, buckets, min), path, l) == (if l < buckets.len()
            && keep_at_least(buckets[l as int], min).len() > 0 {
            1int
        } else {
            0int
        }),
        count_unknown_group(line_errors(path, buckets, min)) == 0,
        (l < buckets.len() && keep_at_least(buckets[l as int], min).len() > 0)
            ==> line_errors(path, buckets, min).contains(
            ErrorView::ErrorsWithoutPattern {
                path: Some((path, line_span(l))),
                msgs: keep_at_least(buckets[l as int], min),
            },
        ),
    decreases buckets.len(),
{
    if buckets.len() == 0 {
    } else {
        lemma_line_errors_counts(path, buckets.drop_last(), min, l);
        let pre = line_errors(path, buckets.drop_last(), min);
        let whole = line_errors(path, buckets, min);
        let lastline = (buckets.len() - 1) as usize;
        if l < buckets.len() - 1 {
            assert(buckets.drop_last()[l as int] == buckets[l as int]);
        }
        if keep_at_least(buckets.last(), min).len() > 0 {
            let entry = ErrorView::ErrorsWithoutPattern {
                path: Some((path, line_span(lastline))),
                msgs: keep_at_least(buckets.last(), min),
            };
            assert(whole =~= pre.push(entry));
            assert(whole.drop_last() =~= pre);
            if l < buckets.len() && keep_at_least(buckets[l as int], min).len() > 0 {
                assert(whole[whole.len() - 1] == entry);
                if l == lastline {
                    assert(whole.contains(entry));
                } else {
                    let prev = ErrorView::ErrorsWithoutPattern {
                        path: Some((path, line_span(l))),
                        msgs: keep_at_least(buckets[l as int], min),
                    };
                    assert(buckets.drop_last()[l as int] == buckets[l as int]);
                    assert(pre.contains(prev));
                    let w = choose|i: int| 0 <= i < pre.len() && pre[i] == prev;
                    assert(whole[w] == prev);
                    assert(whole.contains(prev));
                }
            }
        } else {
            assert(whole =~= pre + Seq::<ErrorView>::empty());
            assert(whole =~= pre);
            if l < buckets.len() - 1 {
                assert(buckets.drop_last()[l as int] == buckets[l as int]);
            }
        }
    }
}

/// Every diagnostic left over at or above the required severity is
/// reported exactly once per location: one entry for the unknown-line
/// group, and one entry per line with leftovers, carrying exactly the
/// leftover messages of that line.
pub proof fn lemma_exhaustive_exactly_one(
    path: Seq<char>,
    buckets: Seq<Seq<MessageView>>,
    unknown: Seq<MessageView>,
    min: Level,
    l: usize,
)
    requires
        buckets.len() <= usize::MAX,
    ensures
        count_line_group(exhaustive_errors(path, buckets, unknown, min), path, l) == (if l
            < buckets.len() && keep_at_least(buckets[l as int], min).len() > 0 {
            1int
        } else {
            0int
        }),
        count_unknown_group(exhaustive_errors(path, buckets, unknown, min)) == (if keep_at_least(
            unknown,
            min,
        ).len() > 0 {
            1int
        } else {
            0int
        }),
        (l < buckets.len() && keep_at_least(buckets[l as int], min).len() > 0)
            ==> exhaustive_errors(path, buckets, unknown, min).contains(
            ErrorView::ErrorsWithoutPattern {
                path: Some((path, line_span(l))),
                msgs: keep_at_least(buckets[l as int], min),
            },
        ),
        keep_at_least(unknown, min).len() > 0 ==> exhaustive_errors(
            path,
            buckets,
            unknown,
            min,
        ).contains(
            ErrorView::ErrorsWithoutPattern { path: None, msgs: keep_at_least(unknown, min) },
        ),
{
    lemma_line_errors_counts(path, buckets, min, l);
    let le = line_errors(path, buckets, min);
    let whole = exhaustive_errors(path, buckets, unknown, min);
    let ue = unknown_errors(unknown, min);
    lemma_count_concat(ue, le, path, l);
    if keep_at_least(unknown, min).len() > 0 {
        let head = ErrorView::ErrorsWithoutPattern { path: None, msgs: keep_at_least(unknown, min) };
        assert(ue =~= seq![head]);
        assert(ue.drop_last() =~= Seq::<ErrorView>::empty());
        assert(count_unknown_group(ue.drop_last()) == 0);
        assert(count_unknown_group(ue) == 1);
        assert(count_line_group(ue.drop_last(), path, l) == 0);
        assert(count_line_group(ue, path, l) == 0);
    } else {
        assert(ue =~= Seq::<ErrorView>::empty());
        assert(count_unknown_group(ue) == 0);
        assert(count_line_group(ue, path, l) == 0);
    }
    if keep_at_least(unknown, min).len() > 0 {
        assert(whole[0] == ErrorView::ErrorsWithoutPattern {
            path: None,
            msgs: keep_at_least(unknown, min),
        });
        assert(whole.contains(whole[0]));
    }
    if l < buckets.len() && keep_at_least(buckets[l as int], min).len() > 0 {
        let entry = ErrorView::ErrorsWithoutPattern {
            path: Some((path, line_span(l))),
            msgs: keep_at_least(buckets[l as int], min),
        };
        let w = choose|i: int| 0 <= i < le.len() && le[i] == entry;
        assert(whole[unknown_errors(unknown, min).len() + w] == entry);
        assert(whole.contains(entry));
    }
}

proof fn lemma_count_concat(a: Seq<ErrorView>, b: Seq<ErrorView>, path: Seq<char>, l: usize)
    ensures
        count_line_group(a + b, path, l) == count_line_group(a, path, l) + count_line_group(
            b,
            path,
            l,
        ),
        count_unknown_group(a + b) == count_unknown_group(a) + count_unknown_group(b),
    decreases b.len(),
{
    if b.len() == 0 {
        assert(a + b =~= a);
    } else {
        lemma_count_concat(a, b.drop_last(), path, l);
        assert((a + b).drop_last() =~= a + b.drop_last());
        assert((a + b).last() == b.last());
    }
}

/// What a line-anchored directive asks of a message, by kind.
pub open spec fn dir_pred(d: ErrorMatchView, prefix: Seq<char>) -> spec_fn(MessageView) -> bool {
    match d.kind {
        ErrorMatchKindView::Pattern { pattern, level, .. } => line_pattern_pred(pattern, level),
        ErrorMatchKindView::Code { code, .. } => code_pred(prefix, code),
    }
}

/// Matching is at most once: when exactly one message of the expected
/// line satisfies a directive, running that directive twice consumes
/// the message once and reports the second directive as unmatched.
pub proof fn lemma_match_at_most_once(
    d: ErrorMatchView,
    buckets: Seq<Seq<MessageView>>,
    prefix: Seq<char>,
    lowest: Level,
    t: int,
)
    requires
        0 <= d.line < buckets.len(),
        0 <= t < buckets[d.line as int].len(),
        dir_pred(d, prefix)(buckets[d.line as int][t]),
        forall|u: int| 0 <= u < buckets[d.line as int].len() && u != t ==> !(dir_pred(d, prefix)(
            buckets[d.line as int][u],
        )),
    ensures
        dirs_step(seq![d, d], buckets, prefix, lowest).errors == seq![not_found_error(d, prefix)],
{
    let b = buckets[d.line as int];
    let pred = dir_pred(d, prefix);
    lemma_find_idx_at(b, pred, t);
    let b2 = b.remove(t);
    assert forall|u: int| 0 <= u < b2.len() implies !(pred(b2[u])) by {
        if u < t {
            assert(b2[u] == b[u]);
        } else {
            assert(b2[u] == b[u + 1]);
        }
    }
    lemma_find_idx_at(b2, pred, b2.len() as int);
    let two = seq![d, d];
    assert(two.drop_first() =~= seq![d]);
    assert(seq![d].drop_first() =~= Seq::<ErrorMatchView>::empty());
    let after1 = dir_one(d, buckets, prefix);
    match d.kind {
        ErrorMatchKindView::Pattern { pattern, level, .. } => {
            assert(find_idx(b, line_pattern_pred(pattern, level)) == Some(t));
            assert(after1.buckets == buckets.update(d.line as int, b2));
            assert(find_idx(b2, line_pattern_pred(pattern, level)) is None);
        },
        ErrorMatchKindView::Code { code, .. } => {
            assert(find_idx(b, code_pred(prefix, code)) == Some(t));
            assert(after1.buckets == buckets.update(d.line as int, b2));
            assert(find_idx(b2, code_pred(prefix, code)) is None);
        },
    }
    let after2 = dir_one(d, after1.buckets, prefix);
    assert(after2.errors =~= seq![not_found_error(d, prefix)]);
    let low1 = crate::matcher::dir_lowest(d.kind, lowest);
    let mid = dirs_step(seq![d], after1.buckets, prefix, low1);
    assert(seq![d][0] == d);
    assert(two[0] == d);
    let low2 = crate::matcher::dir_lowest(d.kind, low1);
    assert(dirs_step(Seq::<ErrorMatchView>::empty(), after2.buckets, prefix, low2).errors
        =~= Seq::<ErrorView>::empty());
    assert(mid.errors =~= after2.errors + Seq::<ErrorView>::empty());
    assert(dirs_step(two, buckets, prefix, lowest).errors =~= after1.errors + mid.errors);
    assert(dirs_step(two, buckets, prefix, lowest).errors =~= seq![not_found_error(d, prefix)]);
}

/// What happens to the baseline file when the reconciler's action is
/// carried out.
pub open spec fn apply_action(a: ActionView, baseline: Option<Seq<u8>>) -> Option<Seq<u8>> {
    match a {
        ActionView::Write(v) => Some(v),
        ActionView::Delete => None,
        ActionView::Keep => baseline,
    }
}

/// Blessing and then re-checking unchanged output never reports a
/// baseline mismatch: the round trip is clean.
pub proof fn lemma_bless_then_error_round_trip(
    normalized: Seq<u8>,
    baseline: Option<Seq<u8>>,
    path: Seq<char>,
    bless_command: Option<Seq<char>>,
)
    ensures
        ({
            let act = reconcile_action(OutputConflictHandling::Bless, normalized);
            let stored = apply_action(act, baseline);
            reconcile_errors(OutputConflictHandling::Error, normalized, stored, path, bless_command)
                == Seq::<ErrorView>::empty()
        }),
{
    let act = reconcile_action(OutputConflictHandling::Bless, normalized);
    let stored = apply_action(act, baseline);
    if normalized.len() == 0 {
        assert(baseline_bytes(stored) =~= normalized);
    }
}

/// Blessing an empty output stream removes any stored baseline rather
/// than writing an empty file.
pub proof fn lemma_bless_empty_removes_baseline(normalized: Seq<u8>)
    requires
        normalized.len() == 0,
    ensures
        reconcile_action(OutputConflictHandling::Bless, normalized) == ActionView::Delete,
{
}

proof fn lemma_counts_zero_without_unexpected(s: Seq<ErrorView>, path: Seq<char>, l: usize)
    requires
        forall|i: int| 0 <= i < s.len() ==> !(s[i] is ErrorsWithoutPattern),
    ensures
        count_line_group(s, path, l) == 0,
        count_unknown_group(s) == 0,
    decreases s.len(),
{
    if s.len() > 0 {
        assert(forall|i: int| 0 <= i < s.len() - 1 ==> s.drop_last()[i] == s[i]);
        lemma_counts_zero_without_unexpected(s.drop_last(), path, l);
    }
}

proof fn lemma_dirs_step_preserves_len(
    dirs: Seq<ErrorMatchView>,
    buckets: Seq<Seq<MessageView>>,
    prefix: Seq<char>,
    lowest: Level,
)
    ensures
        dirs_step(dirs, buckets, prefix, lowest).buckets.len() == buckets.len(),
    decreases dirs.len(),
{
    if dirs.len() > 0 {
        let first = dir_one(dirs[0], buckets, prefix);
        lemma_dirs_step_preserves_len(
            dirs.drop_first(),
            first.buckets,
            prefix,
            crate::matcher::dir_lowest(dirs[0].kind, lowest),
        );
    }
}

/// Outside `Yolo` mode, the matcher's whole output holds exactly one
/// unexpected-diagnostics entry per location that still carries a
/// message at or above the effective required level: one for each such
/// line, and one for the unknown-line group.
pub proof fn lemma_matcher_reports_each_location_once(
    pats: Seq<(PatternView, Span)>,
    dirs: Seq<ErrorMatchView>,
    buckets: Seq<Seq<MessageView>>,
    unknown: Seq<MessageView>,
    prefix: Seq<char>,
    override_level: Option<Level>,
    mode: Mode,
    mode_span: Span,
    path: Seq<char>,
    l: usize,
)
    requires
        !(mode is Yolo),
        buckets.len() <= usize::MAX,
    ensures
        ({
            let f = foreign_step(pats, unknown);
            let d = dirs_step(dirs, buckets, prefix, Level::Error);
            let min = match override_level {
                Some(lv) => lv,
                None => d.lowest,
            };
            let out = annotation_errors(
                pats,
                dirs,
                buckets,
                unknown,
                prefix,
                override_level,
                mode,
                mode_span,
                path,
            );
            &&& count_line_group(out, path, l) == (if l < d.buckets.len() && keep_at_least(
                d.buckets[l as int],
                min,
            ).len() > 0 {
                1int
            } else {
                0int
            })
            &&& count_unknown_group(out) == (if keep_at_least(f.remaining, min).len() > 0 {
                1int
            } else {
                0int
            })
        }),
{
    let f = foreign_step(pats, unknown);
    let d = dirs_step(dirs, buckets, prefix, Level::Error);
    let min = match override_level {
        Some(lv) => lv,
        None => d.lowest,
    };
    let m = mode_errors(mode, mode_span, seen_span(pats, dirs));
    let x = exhaustive_errors(path, d.buckets, f.remaining, min);
    lemma_foreign_errors_only_not_found(pats, unknown);
    lemma_dirs_errors_only_not_found(dirs, buckets, prefix, Level::Error);
    lemma_dirs_step_preserves_len(dirs, buckets, prefix, Level::Error);
    lemma_counts_zero_without_unexpected(f.errors, path, l);
    lemma_counts_zero_without_unexpected(d.errors, path, l);
    assert(forall|i: int| 0 <= i < m.len() ==> !(m[i] is ErrorsWithoutPattern));
    lemma_counts_zero_without_unexpected(m, path, l);
    lemma_exhaustive_exactly_one(path, d.buckets, f.remaining, min, l);
    lemma_count_concat(f.errors, d.errors, path, l);
    lemma_count_concat(f.errors + d.errors, x, path, l);
    lemma_count_concat(f.errors + d.errors + x, m, path, l);
    let out = annotation_errors(
        pats,
        dirs,
        buckets,
        unknown,
        prefix,
        override_level,
        mode,
        mode_span,
        path,
    );
    assert(out == f.errors + d.errors + x + m);
}

proof fn lemma_foreign_errors_only_not_found(pats: Seq<(PatternView, Span)>, msgs: Seq<MessageView>)
    ensures
        forall|i: int| 0 <= i < foreign_step(pats, msgs).errors.len() ==> foreign_step(
            pats,
            msgs,
        ).errors[i] is PatternNotFound,
    decreases pats.len(),
{
    if pats.len() == 0 {
    } else {
        let first = crate::matcher::foreign_one(pats[0], msgs);
        lemma_foreign_errors_only_not_found(pats.drop_first(), first.remaining);
    }
}

proof fn lemma_dirs_errors_only_not_found(
    dirs: Seq<ErrorMatchView>,
    buckets: Seq<Seq<MessageView>>,
    prefix: Seq<char>,
    lowest: Level,
)
    ensures
        forall|i: int|
            0 <= i < dirs_step(dirs, buckets, prefix, lowest).errors.len() ==> (dirs_step(
                dirs,
                buckets,
                prefix,
                lowest,
            ).errors[i] is PatternNotFound || dirs_step(
                dirs,
                buckets,
                prefix,
                lowest,
            ).errors[i] is CodeNotFound),
    decreases dirs.len(),
{
    if dirs.len() == 0 {
    } else {
        let first = dir_one(dirs[0], buckets, prefix);
        lemma_dirs_errors_only_not_found(
            dirs.drop_first(),
            first.buckets,
            prefix,
            crate::matcher::dir_lowest(dirs[0].kind, lowest),
        );
    }
}

/// In `Yolo` mode exhaustiveness is skipped entirely: whatever
/// unmatched diagnostics remain, no unexpected-diagnostics error is
/// ever raised.
pub proof fn lemma_yolo_skips_exhaustiveness(
    pats: Seq<(PatternView, Span)>,
    dirs: Seq<ErrorMatchView>,
    buckets: Seq<Seq<MessageView>>,
    unknown: Seq<MessageView>,
    prefix: Seq<char>,
    override_level: Option<Level>,
    mode_span: Span,
    path: Seq<char>,
)
    ensures
        forall|i: int|
            0 <= i < annotation_errors(
                pats,
                dirs,
                buckets,
                unknown,
                prefix,
                override_level,
                Mode::Yolo,
                mode_span,
                path,
            ).len() ==> !(annotation_errors(
                pats,
                dirs,
                buckets,
                unknown,
                prefix,
                override_level,
                Mode::Yolo,
                mode_span,
                path,
            )[i] is ErrorsWithoutPattern),
{
    lemma_foreign_errors_only_not_found(pats, unknown);
    lemma_dirs_errors_only_not_found(dirs, buckets, prefix, Level::Error);
    let f = foreign_step(pats, unknown);
    let d = dirs_step(dirs, buckets, prefix, Level::Error);
    let m = mode_errors(Mode::Yolo, mode_span, seen_span(pats, dirs));
    assert(m =~= Seq::<ErrorView>::empty());
    let out = annotation_errors(
        pats,
        dirs,
        buckets,
        unknown,
        prefix,
        override_level,
        Mode::Yolo,
        mode_span,
        path,
    );
    assert(out =~= f.errors + d.errors + Seq::<ErrorView>::empty() + m);
    assert forall|i: int| 0 <= i < out.len() implies !(out[i] is ErrorsWithoutPattern) by {
        if i < f.errors.len() {
            assert(out[i] == f.errors[i]);
        } else {
            assert(out[i] == d.errors[i - f.errors.len()]);
        }
    }
}

} // verus!
