//! All information needed to run a single test, and the per-test
//! pipeline: command construction, output reconciliation and
//! annotation matching.

use vstd::prelude::*;
use vstd::string::StringExecFns;
use crate::config::{Config, CommandData, OutputConflictHandling, OutputKind, BaselineAction};
use crate::comments::{
    Comments, Revisioned, ErrorMatch, ErrorMatchKind, NormalizeRule, CustomFlag,
    applicable_revs, revs_of, args_view, envs_view, rules_view, all_compile_flags, all_env_vars,
    all_aux_builds, all_foreign_patterns, all_error_matches, all_norm_stderr, all_norm_stdout,
    flag_args, all_custom_args, any_bitwidth, custom_lookup, clone_strings,
};
use crate::span::{Span, Spanned};
use crate::pattern::Pattern;
use crate::level::{Level, level_rank};
use crate::message::{Message, Mode, msgs_view, buckets_view};
use crate::errors::{Error, Errored, ErrorView, errs_view};
use crate::matcher::{
    foreign_view, dirs_view, foreign_step, dirs_step, exhaustive_errors, mode_errors, seen_span,
    prefix_options, level_options, mode_options, resolved_prefix, foreign_one,
    dir_one, dir_lowest, find_foreign, find_line_pattern, find_line_code, filter_at_least,
    kind_span, custom_options, flags_view,
    annotation_errors, lemma_msgs_view_remove, ErrorMatchKindView, ErrorMatchView,
};
use crate::path_ops::{with_ext, with_extension, parent, parent_of, strip_path_prefix,
    strip_prefix_path, path_join, join};
use crate::rex::bytes_replace_all_of;
use crate::text::bytes_eq;

verus! {

/// All information needed to run a single test.
#[derive(Debug)]
pub struct TestConfig {
    /// The generic config for all tests.
    pub config: Config,
    /// The active revision; empty means "no revision".
    pub revision: String,
    /// The annotation store of the tested file.
    pub comments: Comments,
    /// The path to the current file.
    pub path: String,
    /// The path to the folder where to look for aux files.
    pub aux_dir: String,
}

/// The extension for one output kind: the kind alone without a
/// revision, else the revision, a dot, and the kind.
pub open spec fn extension_spec(rev: Seq<char>, ext: Seq<char>) -> Seq<char> {
    if rev.len() == 0 {
        ext
    } else {
        rev + seq!['.'] + ext
    }
}

/// The name of an output kind, as used in baseline extensions.
pub open spec fn kind_text(kind: OutputKind) -> Seq<char> {
    match kind {
        OutputKind::Stderr => "stderr"@,
        OutputKind::Stdout => "stdout"@,
        OutputKind::Fixed => "fixed"@,
    }
}

/// Substitution rules applied in order, each over the whole text.
pub open spec fn normalize_seq(rules: Seq<(Seq<char>, Seq<u8>)>, text: Seq<u8>) -> Seq<u8>
    decreases rules.len(),
{
    if rules.len() == 0 {
        text
    } else {
        normalize_seq(rules.drop_first(), bytes_replace_all_of(rules[0].0, text, rules[0].1))
    }
}

/// The stored baseline's bytes; a missing file reads as empty.
pub open spec fn baseline_bytes(b: Option<Seq<u8>>) -> Seq<u8> {
    match b {
        Some(x) => x,
        None => Seq::empty(),
    }
}

/// The error the reconciler raises: under the `Error` policy, a
/// mismatch between the normalized output and the baseline.
pub open spec fn reconcile_errors(
    policy: OutputConflictHandling,
    normalized: Seq<u8>,
    baseline: Option<Seq<u8>>,
    path: Seq<char>,
    bless_command: Option<Seq<char>>,
) -> Seq<ErrorView> {
    if policy == OutputConflictHandling::Error && normalized != baseline_bytes(baseline) {
        seq![
            ErrorView::OutputDiffers {
                path: path,
                actual: normalized,
                expected: baseline_bytes(baseline),
                bless_command: bless_command,
            },
        ]
    } else {
        Seq::empty()
    }
}

/// The shape of a baseline action.
pub ghost enum ActionView {
    Write(Seq<u8>),
    Delete,
    Keep,
}

impl View for BaselineAction {
    type V = ActionView;

    open spec fn view(&self) -> ActionView {
        match self {
            BaselineAction::Write(v) => ActionView::Write(v@),
            BaselineAction::Delete => ActionView::Delete,
            BaselineAction::Keep => ActionView::Keep,
        }
    }
}

/// What the reconciler asks of the baseline file: under `Bless`, write
/// the normalized output, deleting the file when the output is empty;
/// under the other policies, leave it alone.
pub open spec fn reconcile_action(policy: OutputConflictHandling, normalized: Seq<u8>) -> ActionView {
    match policy {
        OutputConflictHandling::Bless => if normalized.len() == 0 {
            ActionView::Delete
        } else {
            ActionView::Write(normalized)
        },
        _ => ActionView::Keep,
    }
}

/// The view of an optional string.
pub open spec fn opt_chars(s: Option<String>) -> Option<Seq<char>> {
    match s {
        Some(x) => Some(x@),
        None => None,
    }
}

/// The view of optional bytes.
pub open spec fn opt_bytes(b: Option<Vec<u8>>) -> Option<Seq<u8>> {
    match b {
        Some(x) => Some(x@),
        None => None,
    }
}

/// The name of an output kind.
pub fn kind_str(kind: OutputKind) -> (r: &'static str)
    ensures
        r@ == kind_text(kind),
{
    match kind {
        OutputKind::Stderr => "stderr",
        OutputKind::Stdout => "stdout",
        OutputKind::Fixed => "fixed",
    }
}

/// The `--cfg` argument a non-empty revision adds.
pub open spec fn cfg_part(rev: Seq<char>) -> Seq<Seq<char>> {
    if rev.len() == 0 {
        Seq::empty()
    } else {
        seq!["--cfg="@ + rev]
    }
}

/// The `--target` arguments, present only when the configured target
/// differs from the host.
pub open spec fn target_part(c: Config) -> Seq<Seq<char>> {
    if crate::config::needs_target_flag(c.target, c.host@) {
        seq!["--target"@, c.target->0@]
    } else {
        Seq::empty()
    }
}

impl TestConfig {
    /// The revision groups that apply to this test, in order.
    pub open spec fn revs(self) -> Seq<Revisioned> {
        applicable_revs(self.comments.entries@, self.revision@)
    }

    /// The baseline path for one output kind, as text.
    pub open spec fn output_path_spec(self, kind: OutputKind) -> Seq<char> {
        let ext = extension_spec(self.revision@, kind_text(kind));
        if any_bitwidth(self.revs()) {
            with_ext(self.path@, self.config.pointer_width@ + "bit."@ + ext)
        } else {
            with_ext(self.path@, ext)
        }
    }

    /// The substitution rules for one output kind; machine-applied
    /// suggestion snapshots are never normalized.
    pub open spec fn norm_rules_for(self, kind: OutputKind) -> Seq<(Seq<char>, Seq<u8>)> {
        match kind {
            OutputKind::Fixed => Seq::empty(),
            OutputKind::Stderr => rules_view(all_norm_stderr(self.revs())),
            OutputKind::Stdout => rules_view(all_norm_stdout(self.revs())),
        }
    }

    /// All comments that apply to the current test.
    pub fn comments(&self) -> (r: Vec<&Revisioned>)
        ensures
            revs_of(r@) == self.revs(),
    {
        let ghost es = self.comments.entries@;
        let mut r: Vec<&Revisioned> = Vec::new();
        let mut i: usize = 0;
        while i < self.comments.entries.len()
            invariant
                es == self.comments.entries@,
                i <= es.len(),
                revs_of(r@) == applicable_revs(es.take(i as int), self.revision@),
            decreases self.comments.entries.len() - i,
        {
            let e = &self.comments.entries[i];
            proof {
                assert(es.take(i + 1).drop_last() =~= es.take(i as int));
                assert(es.take(i + 1).last() == es[i as int]);
            }
            let ghost old_r = r@;
            if Comments::applies(e, self.revision.as_str()) {
                r.push(&e.data);
                proof {
                    assert(revs_of(r@) =~= revs_of(old_r).push(es[i as int].data));
                    assert(revs_of(r@) =~= applicable_revs(es.take(i + 1), self.revision@));
                }
            } else {
                proof {
                    assert(revs_of(r@) =~= applicable_revs(es.take(i + 1), self.revision@));
                }
            }
            i += 1;
        }
        proof {
            assert(es.take(es.len() as int) =~= es);
        }
        r
    }

    /// Create a file extension that includes the current revision if
    /// necessary.
    pub fn extension(&self, extension: &str) -> (r: String)
        ensures
            r@ == extension_spec(self.revision@, extension@),
    {
        if self.revision.as_str().is_empty() {
            extension.to_owned()
        } else {
            let mut r = self.revision.clone();
            r.push('.');
            r.append(extension);
            proof {
                assert(r@ =~= self.revision@ + seq!['.'] + extension@);
            }
            r
        }
    }

    /// Whether any applicable revision group asks for per-pointer-width
    /// baseline naming.
    fn any_bitwidth_exec(&self) -> (r: bool)
        ensures
            r == any_bitwidth(self.revs()),
    {
        let rv = self.comments();
        let ghost rs = revs_of(rv@);
        let mut i: usize = 0;
        while i < rv.len()
            invariant
                rs == revs_of(rv@),
                rs == self.revs(),
                i <= rs.len(),
                forall|j: int| 0 <= j < i ==> !rs[j].stderr_per_bitwidth,
            decreases rv.len() - i,
        {
            if rv[i].stderr_per_bitwidth {
                proof {
                    assert(rs[i as int].stderr_per_bitwidth);
                }
                return true;
            }
            i += 1;
        }
        false
    }

    /// The baseline path for one output kind.
    pub fn output_path(&self, kind: OutputKind) -> (r: String)
        ensures
            r@ == self.output_path_spec(kind),
    {
        let ks = kind_str(kind);
        let ext = self.extension(ks);
        if self.any_bitwidth_exec() {
            let mut pw = self.config.pointer_width.clone();
            pw.append("bit.");
            pw.append(ext.as_str());
            proof {
                assert(pw@ =~= self.config.pointer_width@ + "bit."@ + extension_spec(
                    self.revision@,
                    kind_text(kind),
                ));
            }
            with_extension(self.path.as_str(), pw.as_str())
        } else {
            with_extension(self.path.as_str(), ext.as_str())
        }
    }

    /// Collect the substitution rules for one output kind, in order.
    fn collect_norm(&self, kind: OutputKind) -> (out: Vec<NormalizeRule>)
        requires
            kind != OutputKind::Fixed,
        ensures
            rules_view(out@) == self.norm_rules_for(kind),
    {
        let rv = self.comments();
        let ghost rs = revs_of(rv@);
        let mut out: Vec<NormalizeRule> = Vec::new();
        let mut k: usize = 0;
        while k < rv.len()
            invariant
                kind != OutputKind::Fixed,
                rs == revs_of(rv@),
                rs == self.revs(),
                k <= rs.len(),
                rules_view(out@) == (match kind {
                    OutputKind::Stderr => rules_view(all_norm_stderr(rs.take(k as int))),
                    _ => rules_view(all_norm_stdout(rs.take(k as int))),
                }),
            decreases rv.len() - k,
        {
            let r = rv[k];
            let inner: &Vec<NormalizeRule> = match kind {
                OutputKind::Stderr => &r.normalize_stderr,
                _ => &r.normalize_stdout,
            };
            let mut j: usize = 0;
            while j < inner.len()
                invariant
                    kind != OutputKind::Fixed,
                    rs == revs_of(rv@),
                    rs == self.revs(),
                    k < rs.len(),
                    r == rv@[k as int],
                    inner == (match kind {
                        OutputKind::Stderr => &rv@[k as int].normalize_stderr,
                        _ => &rv@[k as int].normalize_stdout,
                    }),
                    j <= inner@.len(),
                    rules_view(out@) == (match kind {
                        OutputKind::Stderr => rules_view(all_norm_stderr(rs.take(k as int))),
                        _ => rules_view(all_norm_stdout(rs.take(k as int))),
                    }) + rules_view(inner@.subrange(0, j as int)),
                decreases inner.len() - j,
            {
                let ghost old_out = out@;
                out.push(inner[j].clone());
                proof {
                    assert(rules_view(out@) =~= rules_view(old_out).push(
                        (inner@[j as int].from_view(), inner@[j as int].to_view()),
                    ));
                    assert(rules_view(inner@.subrange(0, j + 1)) =~= rules_view(
                        inner@.subrange(0, j as int),
                    ).push((inner@[j as int].from_view(), inner@[j as int].to_view())));
                }
                j += 1;
            }
            proof {
                assert(rs.take(k + 1).drop_last() =~= rs.take(k as int));
                assert(rs.take(k + 1).last() == rs[k as int]);
                assert(inner@.subrange(0, inner@.len() as int) =~= inner@);
                match kind {
                    OutputKind::Stderr => {
                        assert(rules_view(all_norm_stderr(rs.take(k + 1))) =~= rules_view(
                            all_norm_stderr(rs.take(k as int)),
                        ) + rules_view(rs[k as int].normalize_stderr@));
                        assert(rules_view(out@) =~= rules_view(all_norm_stderr(rs.take(k + 1))));
                    },
                    _ => {
                        assert(rules_view(all_norm_stdout(rs.take(k + 1))) =~= rules_view(
                            all_norm_stdout(rs.take(k as int)),
                        ) + rules_view(rs[k as int].normalize_stdout@));
                        assert(rules_view(out@) =~= rules_view(all_norm_stdout(rs.take(k + 1))));
                    },
                }
            }
            k += 1;
        }
        proof {
            assert(rs.take(rs.len() as int) =~= rs);
        }
        out
    }

    /// Normalize captured output by every applicable substitution rule,
    /// in order.
    pub fn normalize(&self, text: &Vec<u8>, kind: OutputKind) -> (r: Vec<u8>)
        ensures
            r@ == normalize_seq(self.norm_rules_for(kind), text@),
    {
        let mut cur = crate::comments::clone_bytes(text);
        if matches!(kind, OutputKind::Fixed) {
            return cur;
        }
        proof {
            assert(kind != OutputKind::Fixed);
        }
        let rules = self.collect_norm(kind);
        let ghost rvw = rules_view(rules@);
        let ghost t0 = text@;
        proof {
            assert(rvw.skip(0) =~= rvw);
        }
        let mut k: usize = 0;
        while k < rules.len()
            invariant
                rvw == rules_view(rules@),
                k <= rvw.len(),
                normalize_seq(rvw, t0) == normalize_seq(rvw.skip(k as int), cur@),
            decreases rules.len() - k,
        {
            proof {
                assert(rvw.skip(k as int).drop_first() =~= rvw.skip(k + 1));
                assert(rvw.skip(k as int)[0] == rvw[k as int]);
            }
            let next = rules[k].apply(&cur);
            cur = next;
            k += 1;
        }
        proof {
            assert(rvw.skip(rvw.len() as int) =~= Seq::<(Seq<char>, Seq<u8>)>::empty());
        }
        cur
    }

    /// Reconcile one output stream against its baseline: normalize,
    /// then compare, overwrite or ignore per the configured policy.
    /// The baseline file's content is handed in (`None` when the file
    /// is absent) and the returned action says what must happen to it.
    pub fn check_output(
        &self,
        output: &Vec<u8>,
        errors: &mut Vec<Error>,
        kind: OutputKind,
        baseline: Option<Vec<u8>>,
    ) -> (r: (String, BaselineAction))
        ensures
            r.0@ == self.output_path_spec(kind),
            errs_view(final(errors)@) == errs_view(old(errors)@) + reconcile_errors(
                self.config.output_conflict_handling,
                normalize_seq(self.norm_rules_for(kind), output@),
                opt_bytes(baseline),
                self.output_path_spec(kind),
                opt_chars(self.config.bless_command),
            ),
            r.1@ == reconcile_action(
                self.config.output_conflict_handling,
                normalize_seq(self.norm_rules_for(kind), output@),
            ),
    {
        let normalized = self.normalize(output, kind);
        let path = self.output_path(kind);
        let ghost before = errors@;
        let action: BaselineAction = match self.config.output_conflict_handling {
            OutputConflictHandling::Error => {
                let expected: Vec<u8> = match baseline {
                    Some(b) => b,
                    None => Vec::new(),
                };
                if !bytes_eq(normalized.as_slice(), expected.as_slice()) {
                    let bless = match &self.config.bless_command {
                        Some(s) => Some(s.clone()),
                        None => None,
                    };
                    let ghost old_errs = errors@;
                    errors.push(
                        Error::OutputDiffers {
                            path: path.clone(),
                            actual: normalized,
                            expected,
                            bless_command: bless,
                        },
                    );
                    proof {
                        assert(errs_view(errors@) =~= errs_view(old_errs).push(
                            errors@.last()@,
                        ));
                        assert(errs_view(errors@) =~= errs_view(before) + reconcile_errors(
                            self.config.output_conflict_handling,
                            normalize_seq(self.norm_rules_for(kind), output@),
                            opt_bytes(baseline),
                            self.output_path_spec(kind),
                            opt_chars(self.config.bless_command),
                        ));
                    }
                }
                BaselineAction::Keep
            },
            OutputConflictHandling::Bless => {
                if normalized.is_empty() {
                    BaselineAction::Delete
                } else {
                    BaselineAction::Write(normalized)
                }
            },
            OutputConflictHandling::Ignore => BaselineAction::Keep,
        };
        proof {
            if errors@ == before {
                assert(errs_view(errors@) =~= errs_view(before) + Seq::<ErrorView>::empty());
            }
        }
        (path, action)
    }

    /// Check both output streams against their baselines: standard
    /// error first, then standard output.
    pub fn check_test_output(
        &self,
        errors: &mut Vec<Error>,
        stdout: &Vec<u8>,
        stderr: &Vec<u8>,
        stdout_baseline: Option<Vec<u8>>,
        stderr_baseline: Option<Vec<u8>>,
    ) -> (r: ((String, BaselineAction), (String, BaselineAction)))
        ensures
            r.0.0@ == self.output_path_spec(OutputKind::Stderr),
            r.1.0@ == self.output_path_spec(OutputKind::Stdout),
            errs_view(final(errors)@) == errs_view(old(errors)@) + reconcile_errors(
                self.config.output_conflict_handling,
                normalize_seq(self.norm_rules_for(OutputKind::Stderr), stderr@),
                opt_bytes(stderr_baseline),
                self.output_path_spec(OutputKind::Stderr),
                opt_chars(self.config.bless_command),
            ) + reconcile_errors(
                self.config.output_conflict_handling,
                normalize_seq(self.norm_rules_for(OutputKind::Stdout), stdout@),
                opt_bytes(stdout_baseline),
                self.output_path_spec(OutputKind::Stdout),
                opt_chars(self.config.bless_command),
            ),
            r.0.1@ == reconcile_action(
                self.config.output_conflict_handling,
                normalize_seq(self.norm_rules_for(OutputKind::Stderr), stderr@),
            ),
            r.1.1@ == reconcile_action(
                self.config.output_conflict_handling,
                normalize_seq(self.norm_rules_for(OutputKind::Stdout), stdout@),
            ),
    {
        let a = self.check_output(stderr, errors, OutputKind::Stderr, stderr_baseline);
        let b = self.check_output(stdout, errors, OutputKind::Stdout, stdout_baseline);
        (a, b)
    }

    /// Put build artifacts into a separate directory per tested path so
    /// that auxiliary files of the same name from different directories
    /// do not collide. Must run once, before the first build.
    pub fn patch_out_dir(&mut self)
        ensures
            final(self).config.out_dir@ == path_join(
                old(self).config.out_dir@,
                strip_prefix_path(parent_of(old(self).path@), old(self).config.out_dir@),
            ),
            final(self).config == (Config {
                out_dir: final(self).config.out_dir,
                ..old(self).config
            }),
            final(self).revision == old(self).revision,
            final(self).comments == old(self).comments,
            final(self).path == old(self).path,
            final(self).aux_dir == old(self).aux_dir,
    {
        let par = parent(self.path.as_str());
        let relative = strip_path_prefix(par.as_str(), self.config.out_dir.as_str());
        let joined = join(self.config.out_dir.as_str(), relative.as_str());
        self.config.out_dir = joined;
    }

    /// Collect the foreign-file patterns of every applicable revision
    /// group, in directive order.
    fn collect_foreign(&self) -> (out: Vec<Spanned<Pattern>>)
        ensures
            out@ == all_foreign_patterns(self.revs()),
    {
        let rv = self.comments();
        let ghost rs = revs_of(rv@);
        let mut out: Vec<Spanned<Pattern>> = Vec::new();
        let mut k: usize = 0;
        while k < rv.len()
            invariant
                rs == revs_of(rv@),
                rs == self.revs(),
                k <= rs.len(),
                out@ == all_foreign_patterns(rs.take(k as int)),
            decreases rv.len() - k,
        {
            let r = rv[k];
            let mut j: usize = 0;
            while j < r.error_in_other_files.len()
                invariant
                    rs == revs_of(rv@),
                    k < rs.len(),
                    r == rv@[k as int],
                    j <= r.error_in_other_files@.len(),
                    out@ == all_foreign_patterns(rs.take(k as int))
                        + r.error_in_other_files@.subrange(0, j as int),
                decreases r.error_in_other_files.len() - j,
            {
                out.push(r.error_in_other_files[j].clone());
                proof {
                    assert(out@ =~= all_foreign_patterns(rs.take(k as int))
                        + r.error_in_other_files@.subrange(0, j + 1));
                }
                j += 1;
            }
            proof {
                assert(rs.take(k + 1).drop_last() =~= rs.take(k as int));
                assert(rs.take(k + 1).last() == rs[k as int]);
                assert(r.error_in_other_files@.subrange(
                    0,
                    r.error_in_other_files@.len() as int,
                ) =~= r.error_in_other_files@);
                assert(out@ =~= all_foreign_patterns(rs.take(k + 1)));
            }
            k += 1;
        }
        proof {
            assert(rs.take(rs.len() as int) =~= rs);
        }
        out
    }

    /// Collect the line-anchored directives of every applicable
    /// revision group, in directive order.
    fn collect_matches(&self) -> (out: Vec<ErrorMatch>)
        ensures
            out@ == all_error_matches(self.revs()),
    {
        let rv = self.comments();
        let ghost rs = revs_of(rv@);
        let mut out: Vec<ErrorMatch> = Vec::new();
        let mut k: usize = 0;
        while k < rv.len()
            invariant
                rs == revs_of(rv@),
                rs == self.revs(),
                k <= rs.len(),
                out@ == all_error_matches(rs.take(k as int)),
            decreases rv.len() - k,
        {
            let r = rv[k];
            let mut j: usize = 0;
            while j < r.error_matches.len()
                invariant
                    rs == revs_of(rv@),
                    k < rs.len(),
                    r == rv@[k as int],
                    j <= r.error_matches@.len(),
                    out@ == all_error_matches(rs.take(k as int)) + r.error_matches@.subrange(
                        0,
                        j as int,
                    ),
                decreases r.error_matches.len() - j,
            {
                out.push(r.error_matches[j].clone());
                proof {
                    assert(out@ =~= all_error_matches(rs.take(k as int))
                        + r.error_matches@.subrange(0, j + 1));
                }
                j += 1;
            }
            proof {
                assert(rs.take(k + 1).drop_last() =~= rs.take(k as int));
                assert(rs.take(k + 1).last() == rs[k as int]);
                assert(r.error_matches@.subrange(0, r.error_matches@.len() as int)
                    =~= r.error_matches@);
                assert(out@ =~= all_error_matches(rs.take(k + 1)));
            }
            k += 1;
        }
        proof {
            assert(rs.take(rs.len() as int) =~= rs);
        }
        out
    }

    /// Collect the auxiliary-file references of every applicable
    /// revision group, in directive order.
    pub fn aux_builds(&self) -> (out: Vec<Spanned<String>>)
        ensures
            out@ == all_aux_builds(self.revs()),
    {
        let rv = self.comments();
        let ghost rs = revs_of(rv@);
        let mut out: Vec<Spanned<String>> = Vec::new();
        let mut k: usize = 0;
        while k < rv.len()
            invariant
                rs == revs_of(rv@),
                rs == self.revs(),
                k <= rs.len(),
                out@ == all_aux_builds(rs.take(k as int)),
            decreases rv.len() - k,
        {
            let r = rv[k];
            let mut j: usize = 0;
            while j < r.aux_builds.len()
                invariant
                    rs == revs_of(rv@),
                    k < rs.len(),
                    r == rv@[k as int],
                    j <= r.aux_builds@.len(),
                    out@ == all_aux_builds(rs.take(k as int)) + r.aux_builds@.subrange(
                        0,
                        j as int,
                    ),
                decreases r.aux_builds.len() - j,
            {
                out.push(r.aux_builds[j].clone());
                proof {
                    assert(out@ =~= all_aux_builds(rs.take(k as int)) + r.aux_builds@.subrange(
                        0,
                        j + 1,
                    ));
                }
                j += 1;
            }
            proof {
                assert(rs.take(k + 1).drop_last() =~= rs.take(k as int));
                assert(rs.take(k + 1).last() == rs[k as int]);
                assert(r.aux_builds@.subrange(0, r.aux_builds@.len() as int) =~= r.aux_builds@);
                assert(out@ =~= all_aux_builds(rs.take(k + 1)));
            }
            k += 1;
        }
        proof {
            assert(rs.take(rs.len() as int) =~= rs);
        }
        out
    }

    /// Push the compile-flag tokens of every applicable revision group
    /// onto the argument list, in directive order.
    fn push_compile_flags(&self, args: &mut Vec<String>)
        ensures
            final(args)@ == old(args)@ + all_compile_flags(self.revs()),
    {
        let rv = self.comments();
        let ghost rs = revs_of(rv@);
        let ghost a0 = args@;
        let mut k: usize = 0;
        while k < rv.len()
            invariant
                rs == revs_of(rv@),
                rs == self.revs(),
                k <= rs.len(),
                args@ == a0 + all_compile_flags(rs.take(k as int)),
            decreases rv.len() - k,
        {
            let r = rv[k];
            let mut j: usize = 0;
            while j < r.compile_flags.len()
                invariant
                    rs == revs_of(rv@),
                    k < rs.len(),
                    r == rv@[k as int],
                    j <= r.compile_flags@.len(),
                    args@ == a0 + all_compile_flags(rs.take(k as int))
                        + r.compile_flags@.subrange(0, j as int),
                decreases r.compile_flags.len() - j,
            {
                args.push(r.compile_flags[j].clone());
                proof {
                    assert(args@ =~= a0 + all_compile_flags(rs.take(k as int))
                        + r.compile_flags@.subrange(0, j + 1));
                }
                j += 1;
            }
            proof {
                assert(rs.take(k + 1).drop_last() =~= rs.take(k as int));
                assert(rs.take(k + 1).last() == rs[k as int]);
                assert(r.compile_flags@.subrange(0, r.compile_flags@.len() as int)
                    =~= r.compile_flags@);
                assert(args@ =~= a0 + all_compile_flags(rs.take(k + 1)));
            }
            k += 1;
        }
        proof {
            assert(rs.take(rs.len() as int) =~= rs);
        }
    }

    /// Apply every applicable custom flag's command-line contribution,
    /// in revision order and, within one revision, insertion order.
    pub fn apply_custom(&self, cmd: &mut CommandData)
        ensures
            final(cmd).program == old(cmd).program,
            final(cmd).envs == old(cmd).envs,
            final(cmd).args@ == old(cmd).args@ + all_custom_args(self.revs()),
    {
        let rv = self.comments();
        let ghost rs = revs_of(rv@);
        let ghost a0 = cmd.args@;
        let mut k: usize = 0;
        while k < rv.len()
            invariant
                rs == revs_of(rv@),
                rs == self.revs(),
                k <= rs.len(),
                cmd.program == old(cmd).program,
                cmd.envs == old(cmd).envs,
                a0 == old(cmd).args@,
                cmd.args@ == a0 + all_custom_args(rs.take(k as int)),
            decreases rv.len() - k,
        {
            let r = rv[k];
            let mut j: usize = 0;
            while j < r.custom.len()
                invariant
                    rs == revs_of(rv@),
                    k < rs.len(),
                    r == rv@[k as int],
                    j <= r.custom@.len(),
                    cmd.program == old(cmd).program,
                    cmd.envs == old(cmd).envs,
                    a0 == old(cmd).args@,
                    cmd.args@ == a0 + all_custom_args(rs.take(k as int)) + flag_args(
                        r.custom@.subrange(0, j as int),
                    ),
                decreases r.custom.len() - j,
            {
                let fl: &Vec<String> = &r.custom[j].1.data.args;
                let mut t: usize = 0;
                while t < fl.len()
                    invariant
                        rs == revs_of(rv@),
                        k < rs.len(),
                        r == rv@[k as int],
                        j < r.custom@.len(),
                        fl == &rv@[k as int].custom@[j as int].1.data.args,
                        t <= fl@.len(),
                        cmd.program == old(cmd).program,
                        cmd.envs == old(cmd).envs,
                        a0 == old(cmd).args@,
                        cmd.args@ == a0 + all_custom_args(rs.take(k as int)) + flag_args(
                            r.custom@.subrange(0, j as int),
                        ) + fl@.subrange(0, t as int),
                    decreases fl.len() - t,
                {
                    cmd.args.push(fl[t].clone());
                    proof {
                        assert(cmd.args@ =~= a0 + all_custom_args(rs.take(k as int)) + flag_args(
                            r.custom@.subrange(0, j as int),
                        ) + fl@.subrange(0, t + 1));
                    }
                    t += 1;
                }
                proof {
                    assert(r.custom@.subrange(0, j + 1).drop_last() =~= r.custom@.subrange(
                        0,
                        j as int,
                    ));
                    assert(r.custom@.subrange(0, j + 1).last() == r.custom@[j as int]);
                    assert(fl@.subrange(0, fl@.len() as int) =~= fl@);
                    assert(cmd.args@ =~= a0 + all_custom_args(rs.take(k as int)) + flag_args(
                        r.custom@.subrange(0, j + 1),
                    ));
                }
                j += 1;
            }
            proof {
                assert(rs.take(k + 1).drop_last() =~= rs.take(k as int));
                assert(rs.take(k + 1).last() == rs[k as int]);
                assert(r.custom@.subrange(0, r.custom@.len() as int) =~= r.custom@);
                assert(cmd.args@ =~= a0 + all_custom_args(rs.take(k + 1)));
            }
            k += 1;
        }
        proof {
            assert(rs.take(rs.len() as int) =~= rs);
        }
    }

    /// Push every applicable environment entry, in directive order.
    /// A later entry for the same name overwrites an earlier one when
    /// the command is spawned.
    fn push_env_vars(&self, envs: &mut Vec<(String, String)>)
        ensures
            final(envs)@ == old(envs)@ + all_env_vars(self.revs()),
    {
        let rv = self.comments();
        let ghost rs = revs_of(rv@);
        let ghost a0 = envs@;
        let mut k: usize = 0;
        while k < rv.len()
            invariant
                rs == revs_of(rv@),
                rs == self.revs(),
                k <= rs.len(),
                a0 == old(envs)@,
                envs@ == a0 + all_env_vars(rs.take(k as int)),
            decreases rv.len() - k,
        {
            let r = rv[k];
            let mut j: usize = 0;
            while j < r.env_vars.len()
                invariant
                    rs == revs_of(rv@),
                    k < rs.len(),
                    r == rv@[k as int],
                    j <= r.env_vars@.len(),
                    a0 == old(envs)@,
                    envs@ == a0 + all_env_vars(rs.take(k as int)) + r.env_vars@.subrange(
                        0,
                        j as int,
                    ),
                decreases r.env_vars.len() - j,
            {
                let pair = (r.env_vars[j].0.clone(), r.env_vars[j].1.clone());
                envs.push(pair);
                proof {
                    assert(envs@ =~= a0 + all_env_vars(rs.take(k as int)) + r.env_vars@.subrange(
                        0,
                        j + 1,
                    ));
                }
                j += 1;
            }
            proof {
                assert(rs.take(k + 1).drop_last() =~= rs.take(k as int));
                assert(rs.take(k + 1).last() == rs[k as int]);
                assert(r.env_vars@.subrange(0, r.env_vars@.len() as int) =~= r.env_vars@);
                assert(envs@ =~= a0 + all_env_vars(rs.take(k + 1)));
            }
            k += 1;
        }
        proof {
            assert(rs.take(rs.len() as int) =~= rs);
        }
    }

    /// Assemble the external-process command for this test: the base
    /// invocation, the auxiliary-build arguments, the tested file, the
    /// revision configuration flag, every compile flag, every custom
    /// flag contribution, a target flag only when the target differs
    /// from the host, and every environment entry.
    pub fn build_command(&self, extra_args: Vec<String>) -> (r: CommandData)
        ensures
            r.program@ == self.config.program@,
            args_view(r.args@) == args_view(self.config.program_args@) + args_view(extra_args@)
                + seq![self.path@] + cfg_part(self.revision@) + args_view(
                all_compile_flags(self.revs()),
            ) + args_view(all_custom_args(self.revs())) + target_part(self.config),
            envs_view(r.envs@) == envs_view(all_env_vars(self.revs())),
    {
        let mut args: Vec<String> = clone_strings(&self.config.program_args);
        let mut i: usize = 0;
        while i < extra_args.len()
            invariant
                i <= extra_args@.len(),
                args@ == self.config.program_args@ + extra_args@.subrange(0, i as int),
            decreases extra_args.len() - i,
        {
            args.push(extra_args[i].clone());
            proof {
                assert(args@ =~= self.config.program_args@ + extra_args@.subrange(0, i + 1));
            }
            i += 1;
        }
        proof {
            assert(extra_args@.subrange(0, extra_args@.len() as int) =~= extra_args@);
        }
        args.push(self.path.clone());
        if !self.revision.as_str().is_empty() {
            let mut c: String = "--cfg=".to_owned();
            c.append(self.revision.as_str());
            args.push(c);
        }
        self.push_compile_flags(&mut args);
        let mut cmd = CommandData { program: self.config.program.clone(), args, envs: Vec::new() };
        self.apply_custom(&mut cmd);
        match &self.config.target {
            Some(target) => {
                if !crate::text::str_eq(target.as_str(), self.config.host.as_str()) {
                    cmd.args.push("--target".to_owned());
                    cmd.args.push(target.clone());
                } else {
                    proof {
                        assert(target_part(self.config) =~= Seq::<Seq<char>>::empty());
                    }
                }
            },
            None => {
                proof {
                    assert(target_part(self.config) =~= Seq::<Seq<char>>::empty());
                }
            },
        }
        self.push_env_vars(&mut cmd.envs);
        proof {
            assert(args_view(cmd.args@) =~= args_view(self.config.program_args@) + args_view(
                extra_args@,
            ) + seq![self.path@] + cfg_part(self.revision@) + args_view(
                all_compile_flags(self.revs()),
            ) + args_view(all_custom_args(self.revs())) + target_part(self.config));
            assert(envs_view(cmd.envs@) =~= envs_view(all_env_vars(self.revs())));
        }
        cmd
    }

    /// Collect the diagnostic-code-prefix settings of the applicable
    /// revision groups, in order.
    fn collect_prefix_options(&self) -> (out: Vec<Spanned<String>>)
        ensures
            out@ == prefix_options(self.revs()),
    {
        let rv = self.comments();
        let ghost rs = revs_of(rv@);
        let mut out: Vec<Spanned<String>> = Vec::new();
        let mut k: usize = 0;
        while k < rv.len()
            invariant
                rs == revs_of(rv@),
                rs == self.revs(),
                k <= rs.len(),
                out@ == prefix_options(rs.take(k as int)),
            decreases rv.len() - k,
        {
            let r = rv[k];
            proof {
                assert(rs.take(k + 1).drop_last() =~= rs.take(k as int));
                assert(rs.take(k + 1).last() == rs[k as int]);
            }
            match &r.diagnostic_code_prefix {
                Some(sp) => {
                    out.push(sp.clone());
                    proof {
                        assert(out@ =~= prefix_options(rs.take(k + 1)));
                    }
                },
                None => {
                    proof {
                        assert(out@ =~= prefix_options(rs.take(k + 1)));
                    }
                },
            }
            k += 1;
        }
        proof {
            assert(rs.take(rs.len() as int) =~= rs);
        }
        out
    }

    /// Collect the explicit minimum-annotation-severity settings.
    fn collect_level_options(&self) -> (out: Vec<Spanned<Level>>)
        ensures
            out@ == level_options(self.revs()),
    {
        let rv = self.comments();
        let ghost rs = revs_of(rv@);
        let mut out: Vec<Spanned<Level>> = Vec::new();
        let mut k: usize = 0;
        while k < rv.len()
            invariant
                rs == revs_of(rv@),
                rs == self.revs(),
                k <= rs.len(),
                out@ == level_options(rs.take(k as int)),
            decreases rv.len() - k,
        {
            let r = rv[k];
            proof {
                assert(rs.take(k + 1).drop_last() =~= rs.take(k as int));
                assert(rs.take(k + 1).last() == rs[k as int]);
            }
            match &r.require_annotations_for_level {
                Some(sp) => {
                    out.push(sp.clone());
                    proof {
                        assert(out@ =~= level_options(rs.take(k + 1)));
                    }
                },
                None => {
                    proof {
                        assert(out@ =~= level_options(rs.take(k + 1)));
                    }
                },
            }
            k += 1;
        }
        proof {
            assert(rs.take(rs.len() as int) =~= rs);
        }
        out
    }

    /// Collect the mode settings of the applicable revision groups.
    fn collect_mode_options(&self) -> (out: Vec<Spanned<Mode>>)
        ensures
            out@ == mode_options(self.revs()),
    {
        let rv = self.comments();
        let ghost rs = revs_of(rv@);
        let mut out: Vec<Spanned<Mode>> = Vec::new();
        let mut k: usize = 0;
        while k < rv.len()
            invariant
                rs == revs_of(rv@),
                rs == self.revs(),
                k <= rs.len(),
                out@ == mode_options(rs.take(k as int)),
            decreases rv.len() - k,
        {
            let r = rv[k];
            proof {
                assert(rs.take(k + 1).drop_last() =~= rs.take(k as int));
                assert(rs.take(k + 1).last() == rs[k as int]);
            }
            match &r.mode {
                Some(sp) => {
                    out.push(sp.clone());
                    proof {
                        assert(out@ =~= mode_options(rs.take(k + 1)));
                    }
                },
                None => {
                    proof {
                        assert(out@ =~= mode_options(rs.take(k + 1)));
                    }
                },
            }
            k += 1;
        }
        proof {
            assert(rs.take(rs.len() as int) =~= rs);
        }
        out
    }

    /// The configured diagnostic-code prefix: at most one revision
    /// group may set it.
    fn find_one_prefix(&self) -> (r: Result<Option<Spanned<String>>, Errored>)
        ensures
            (prefix_options(self.revs()).len() >= 2) == (r is Err),
            r matches Ok(o) ==> (match o {
                Some(sp) => prefix_options(self.revs()).len() == 1 && sp == prefix_options(
                    self.revs(),
                )[0],
                None => prefix_options(self.revs()).len() == 0,
            }),
            r matches Err(e) ==> e.errors@.len() == 0 && e.stderr@.len() == 0 && e.stdout@.len()
                == 0,
    {
        let mut opts = self.collect_prefix_options();
        if opts.len() >= 2 {
            Err(errored_message("multiple diagnostic_code_prefix annotations"))
        } else if opts.len() == 1 {
            let sp = opts.remove(0);
            Ok(Some(sp))
        } else {
            Ok(None)
        }
    }

    /// The explicit minimum-annotation-severity setting: at most one
    /// revision group may set it.
    fn find_one_level(&self) -> (r: Result<Option<Spanned<Level>>, Errored>)
        ensures
            (level_options(self.revs()).len() >= 2) == (r is Err),
            r matches Ok(o) ==> (match o {
                Some(sp) => level_options(self.revs()).len() == 1 && sp == level_options(
                    self.revs(),
                )[0],
                None => level_options(self.revs()).len() == 0,
            }),
            r matches Err(e) ==> e.errors@.len() == 0 && e.stderr@.len() == 0 && e.stdout@.len()
                == 0,
    {
        let mut opts = self.collect_level_options();
        if opts.len() >= 2 {
            Err(errored_message("multiple require_annotations_for_level annotations"))
        } else if opts.len() == 1 {
            let sp = opts.remove(0);
            Ok(Some(sp))
        } else {
            Ok(None)
        }
    }

    /// The test's mode after applying all comments: exactly one
    /// revision group must set it.
    pub fn mode(&self) -> (r: Result<Spanned<Mode>, Errored>)
        ensures
            (mode_options(self.revs()).len() == 1) == (r is Ok),
            r matches Ok(m) ==> m == mode_options(self.revs())[0],
            r matches Err(e) ==> e.errors@.len() == 0 && e.stderr@.len() == 0 && e.stdout@.len()
                == 0,
    {
        let mut opts = self.collect_mode_options();
        if opts.len() >= 2 {
            Err(errored_message("multiple mode annotations"))
        } else if opts.len() == 1 {
            let sp = opts.remove(0);
            Ok(sp)
        } else {
            Err(errored_message("no mode set"))
        }
    }

    /// The custom flag stored under `arg`, if any: at most one
    /// revision group may set it.
    pub fn find_one_custom(&self, arg: &str) -> (r: Result<Option<Spanned<CustomFlag>>, Errored>)
        ensures
            (custom_options(self.revs(), arg@).len() >= 2) == (r is Err),
            r matches Ok(o) ==> (match o {
                Some(f) => custom_options(self.revs(), arg@).len() == 1 && f.span
                    == custom_options(self.revs(), arg@)[0].span && args_view(f.data.args@)
                    == args_view(custom_options(self.revs(), arg@)[0].data.args@),
                None => custom_options(self.revs(), arg@).len() == 0,
            }),
            r matches Err(e) ==> e.errors@.len() == 0 && e.stderr@.len() == 0 && e.stdout@.len()
                == 0,
    {
        let rv = self.comments();
        let ghost rs = revs_of(rv@);
        let mut out: Vec<Spanned<CustomFlag>> = Vec::new();
        let mut k: usize = 0;
        while k < rv.len()
            invariant
                rs == revs_of(rv@),
                rs == self.revs(),
                k <= rs.len(),
                flags_view(out@) == flags_view(custom_options(rs.take(k as int), arg@)),
                out@.len() == custom_options(rs.take(k as int), arg@).len(),
            decreases rv.len() - k,
        {
            let r = rv[k];
            proof {
                assert(rs.take(k + 1).drop_last() =~= rs.take(k as int));
                assert(rs.take(k + 1).last() == rs[k as int]);
            }
            let ghost old_out = out@;
            match lookup_custom(&r.custom, arg) {
                Some(t) => {
                    out.push(r.custom[t].1.clone());
                    proof {
                        assert(flags_view(out@) =~= flags_view(old_out).push(
                            (
                                r.custom@[t as int].1.span,
                                args_view(r.custom@[t as int].1.data.args@),
                            ),
                        ));
                        assert(flags_view(custom_options(rs.take(k + 1), arg@)) =~= flags_view(
                            custom_options(rs.take(k as int), arg@),
                        ).push(
                            (
                                r.custom@[t as int].1.span,
                                args_view(r.custom@[t as int].1.data.args@),
                            ),
                        ));
                    }
                },
                None => {
                    proof {
                        assert(custom_options(rs.take(k + 1), arg@) =~= custom_options(
                            rs.take(k as int),
                            arg@,
                        ));
                    }
                },
            }
            k += 1;
        }
        proof {
            assert(rs.take(rs.len() as int) =~= rs);
        }
        if out.len() >= 2 {
            Err(errored_message("multiple custom flag annotations"))
        } else if out.len() == 1 {
            let ghost out_before = out@;
            let f = out.remove(0);
            proof {
                assert(flags_view(out_before)[0] == (f.span, args_view(f.data.args@)));
                assert(flags_view(custom_options(rs, arg@))[0] == (
                    custom_options(rs, arg@)[0].span,
                    args_view(custom_options(rs, arg@)[0].data.args@),
                ));
            }
            Ok(Some(f))
        } else {
            Ok(None)
        }
    }
}

/// The index of the first custom flag stored under `name`, if any.
fn lookup_custom(c: &Vec<(String, Spanned<CustomFlag>)>, name: &str) -> (r: Option<usize>)
    ensures
        match r {
            Some(t) => t < c@.len() && custom_lookup(c@, name@) == Some(c@[t as int].1),
            None => custom_lookup(c@, name@) is None,
        },
{
    let mut t: usize = 0;
    while t < c.len()
        invariant
            t <= c@.len(),
            forall|j: int| 0 <= j < t ==> c@[j].0@ != name@,
        decreases c.len() - t,
    {
        if crate::text::str_eq(c[t].0.as_str(), name) {
            proof {
                crate::comments::lemma_custom_lookup_at(c@, name@, t as int);
            }
            return Some(t);
        }
        t += 1;
    }
    proof {
        crate::comments::lemma_custom_lookup_at(c@, name@, c@.len() as int);
    }
    None
}

/// Resolve the foreign-file patterns against the unknown-line
/// messages, consuming each first match and recording a
/// `PatternNotFound` for each miss. Returns the span of the last
/// pattern processed, if any.
fn run_foreign(
    pats: &Vec<Spanned<Pattern>>,
    unknown: &mut Vec<Message>,
    errors: &mut Vec<Error>,
) -> (seen: Option<Span>)
    ensures
        final(errors)@.len() >= old(errors)@.len(),
        final(errors)@.subrange(0, old(errors)@.len() as int) == old(errors)@,
        foreign_step(foreign_view(pats@), msgs_view(old(unknown)@)).remaining == msgs_view(
            final(unknown)@,
        ),
        foreign_step(foreign_view(pats@), msgs_view(old(unknown)@)).errors == errs_view(
            final(errors)@.skip(old(errors)@.len() as int),
        ),
        seen == seen_span(foreign_view(pats@), Seq::<ErrorMatchView>::empty()),
{
    let ghost pv = foreign_view(pats@);
    let ghost u0 = msgs_view(unknown@);
    let ghost e0 = errors@;
    let mut seen: Option<Span> = None;
    proof {
        assert(pv.skip(0) =~= pv);
        assert(errors@.skip(e0.len() as int) =~= Seq::<Error>::empty());
        assert(errs_view(Seq::<Error>::empty()) =~= Seq::<ErrorView>::empty());
        assert(errors@.subrange(0, e0.len() as int) =~= e0);
    }
    let mut k: usize = 0;
    while k < pats.len()
        invariant
            pv == foreign_view(pats@),
            k <= pats@.len(),
            errors@.len() >= e0.len(),
            errors@.subrange(0, e0.len() as int) == e0,
            foreign_step(pv, u0).remaining == foreign_step(
                pv.skip(k as int),
                msgs_view(unknown@),
            ).remaining,
            foreign_step(pv, u0).errors == errs_view(errors@.skip(e0.len() as int))
                + foreign_step(pv.skip(k as int), msgs_view(unknown@)).errors,
            seen == seen_span(pv.take(k as int), Seq::<ErrorMatchView>::empty()),
        decreases pats.len() - k,
    {
        proof {
            assert(pv.skip(k as int).drop_first() =~= pv.skip(k + 1));
            assert(pv.skip(k as int)[0] == pv[k as int]);
            assert(pv.take(k + 1).last() == pv[k as int]);
        }
        let p = &pats[k];
        seen = Some(p.span());
        let ghost cur_u = msgs_view(unknown@);
        match find_foreign(&unknown, &p.data) {
            Some(i) => {
                let ghost before = unknown@;
                unknown.remove(i);
                proof {
                    lemma_msgs_view_remove(before, i as int);
                    assert(msgs_view(unknown@) =~= cur_u.remove(i as int));
                    assert(foreign_one(pv[k as int], cur_u).remaining == msgs_view(unknown@));
                    assert(foreign_one(pv[k as int], cur_u).errors =~= Seq::<ErrorView>::empty());
                    assert(errs_view(errors@.skip(e0.len() as int)) + (foreign_one(
                        pv[k as int],
                        cur_u,
                    ).errors + foreign_step(pv.skip(k + 1), msgs_view(unknown@)).errors)
                        =~= errs_view(errors@.skip(e0.len() as int)) + foreign_step(
                        pv.skip(k + 1),
                        msgs_view(unknown@),
                    ).errors);
                }
            },
            None => {
                let ghost oe = errors@;
                errors.push(Error::PatternNotFound { pattern: p.clone(), expected_line: None });
                proof {
                    assert(errors@.subrange(0, e0.len() as int) =~= e0);
                    assert(errors@.skip(e0.len() as int) =~= oe.skip(e0.len() as int).push(
                        errors@[errors@.len() - 1],
                    ));
                    assert(errs_view(errors@.skip(e0.len() as int)) =~= errs_view(
                        oe.skip(e0.len() as int),
                    ).push(errors@[errors@.len() - 1]@));
                    assert(foreign_one(pv[k as int], cur_u).errors =~= seq![
                        errors@[errors@.len() - 1]@,
                    ]);
                    assert(errs_view(oe.skip(e0.len() as int)) + (foreign_one(
                        pv[k as int],
                        cur_u,
                    ).errors + foreign_step(pv.skip(k + 1), cur_u).errors) =~= errs_view(
                        errors@.skip(e0.len() as int),
                    ) + foreign_step(pv.skip(k + 1), cur_u).errors);
                }
            },
        }
        k += 1;
    }
    proof {
        assert(pv.skip(pv.len() as int) =~= Seq::<(crate::pattern::PatternView, Span)>::empty());
        assert(pv.take(pv.len() as int) =~= pv);
    }
    seen
}

/// Resolve the line-anchored directives, consuming each first match
/// from its line bucket and recording the directive's error on a
/// miss. Tracks the least severity any pattern directive asked for
/// and the span of the last directive processed.
#[verifier::rlimit(100)]
fn run_dirs(
    dirs_vec: &Vec<ErrorMatch>,
    prefix: &String,
    messages: &mut Vec<Vec<Message>>,
    errors: &mut Vec<Error>,
    seen0: Option<Span>,
) -> (r: (Level, Option<Span>))
    ensures
        final(errors)@.len() >= old(errors)@.len(),
        final(errors)@.subrange(0, old(errors)@.len() as int) == old(errors)@,
        dirs_step(
            dirs_view(dirs_vec@),
            buckets_view(old(messages)@),
            prefix@,
            Level::Error,
        ).buckets == buckets_view(final(messages)@),
        dirs_step(dirs_view(dirs_vec@), buckets_view(old(messages)@), prefix@, Level::Error).errors
            == errs_view(final(errors)@.skip(old(errors)@.len() as int)),
        dirs_step(dirs_view(dirs_vec@), buckets_view(old(messages)@), prefix@, Level::Error).lowest
            == r.0,
        r.1 == (if dirs_view(dirs_vec@).len() > 0 {
            Some(kind_span(dirs_view(dirs_vec@).last().kind))
        } else {
            seen0
        }),
{
    let ghost dv = dirs_view(dirs_vec@);
    let ghost b0 = buckets_view(messages@);
    let ghost e1 = errors@;
    let ghost pfx = prefix@;
    let mut lowest: Level = Level::Error;
    let mut seen: Option<Span> = seen0;
    proof {
        assert(dv.skip(0) =~= dv);
        assert(errors@.skip(e1.len() as int) =~= Seq::<Error>::empty());
        assert(errs_view(Seq::<Error>::empty()) =~= Seq::<ErrorView>::empty());
        assert(errors@.subrange(0, e1.len() as int) =~= e1);
    }
    let mut k2: usize = 0;
    while k2 < dirs_vec.len()
        invariant
            dv == dirs_view(dirs_vec@),
            pfx == prefix@,
            k2 <= dv.len(),
            errors@.len() >= e1.len(),
            errors@.subrange(0, e1.len() as int) == e1,
            dirs_step(dv, b0, pfx, Level::Error).buckets == dirs_step(
                dv.skip(k2 as int),
                buckets_view(messages@),
                pfx,
                lowest,
            ).buckets,
            dirs_step(dv, b0, pfx, Level::Error).errors == errs_view(
                errors@.skip(e1.len() as int),
            ) + dirs_step(dv.skip(k2 as int), buckets_view(messages@), pfx, lowest).errors,
            dirs_step(dv, b0, pfx, Level::Error).lowest == dirs_step(
                dv.skip(k2 as int),
                buckets_view(messages@),
                pfx,
                lowest,
            ).lowest,
            seen == (if k2 > 0 {
                Some(kind_span(dv[k2 - 1].kind))
            } else {
                seen0
            }),
        decreases dirs_vec.len() - k2,
    {
        proof {
            assert(dv.skip(k2 as int).drop_first() =~= dv.skip(k2 + 1));
            assert(dv.skip(k2 as int)[0] == dv[k2 as int]);
        }
        let d = &dirs_vec[k2];
        match &d.kind {
            ErrorMatchKind::Pattern { pattern, level } => {
                seen = Some(pattern.span());
                lowest = lowest.min_with(*level);
            },
            ErrorMatchKind::Code(code) => {
                seen = Some(code.span());
            },
        }
        let ghost curb = buckets_view(messages@);
        let line = d.line;
        let mut handled: bool = false;
        if line < messages.len() {
            let found = match &d.kind {
                ErrorMatchKind::Pattern { pattern, level } => {
                    find_line_pattern(&messages[line], &pattern.data, *level)
                },
                ErrorMatchKind::Code(code) => {
                    find_line_code(&messages[line], &prefix, &code.data)
                },
            };
            match found {
                Some(i) => {
                    let ghost bucket_before = messages@[line as int]@;
                    let b = &mut messages[line];
                    b.remove(i);
                    handled = true;
                    proof {
                        lemma_msgs_view_remove(bucket_before, i as int);
                        assert(buckets_view(messages@) =~= curb.update(
                            line as int,
                            curb[line as int].remove(i as int),
                        ));
                        assert(dir_one(dv[k2 as int], curb, pfx).buckets == buckets_view(
                            messages@,
                        ));
                        assert(dir_one(dv[k2 as int], curb, pfx).errors
                            =~= Seq::<ErrorView>::empty());
                    }
                },
                None => {},
            }
        }
        if !handled {
            let err: Error = match &d.kind {
                ErrorMatchKind::Pattern { pattern, level } => Error::PatternNotFound {
                    pattern: pattern.clone(),
                    expected_line: Some(line),
                },
                ErrorMatchKind::Code(code) => {
                    let mut full = prefix.clone();
                    full.append(code.data.as_str());
                    Error::CodeNotFound {
                        code: Spanned::new(full, code.span()),
                        expected_line: Some(line),
                    }
                },
            };
            let ghost oe = errors@;
            errors.push(err);
            proof {
                assert(errors@.subrange(0, e1.len() as int) =~= e1);
                assert(errors@.skip(e1.len() as int) =~= oe.skip(e1.len() as int).push(
                    errors@[errors@.len() - 1],
                ));
                assert(errs_view(errors@.skip(e1.len() as int)) =~= errs_view(
                    oe.skip(e1.len() as int),
                ).push(errors@[errors@.len() - 1]@));
                assert(dir_one(dv[k2 as int], curb, pfx).buckets == curb);
                assert(dir_one(dv[k2 as int], curb, pfx).errors =~= seq![
                    errors@[errors@.len() - 1]@,
                ]);
                assert(errs_view(oe.skip(e1.len() as int)) + (dir_one(
                    dv[k2 as int],
                    curb,
                    pfx,
                ).errors + dirs_step(dv.skip(k2 + 1), curb, pfx, dir_lowest(
                    dv[k2 as int].kind,
                    lowest,
                )).errors) =~= errs_view(errors@.skip(e1.len() as int)) + dirs_step(
                    dv.skip(k2 + 1),
                    curb,
                    pfx,
                    dir_lowest(dv[k2 as int].kind, lowest),
                ).errors);
            }
        }
        k2 += 1;
    }
    proof {
        assert(dv.skip(dv.len() as int) =~= Seq::<ErrorMatchView>::empty());
    }
    (lowest, seen)
}

/// Flag every remaining message at or above the required severity:
/// one error for the unknown-line group, then one per line bucket.
fn run_exhaustive(
    path: &String,
    messages: &Vec<Vec<Message>>,
    unknown: &Vec<Message>,
    required: Level,
    errors: &mut Vec<Error>,
)
    ensures
        final(errors)@.len() >= old(errors)@.len(),
        final(errors)@.subrange(0, old(errors)@.len() as int) == old(errors)@,
        errs_view(final(errors)@.skip(old(errors)@.len() as int)) == exhaustive_errors(
            path@,
            buckets_view(messages@),
            msgs_view(unknown@),
            required,
        ),
{
    let ghost e2 = errors@;
    let filtered_unknown = filter_at_least(unknown, required);
    if filtered_unknown.len() > 0 {
        errors.push(Error::ErrorsWithoutPattern { path: None, msgs: filtered_unknown });
    }
    proof {
        assert(errors@.subrange(0, e2.len() as int) =~= e2);
        assert(errs_view(errors@.skip(e2.len() as int)) =~= crate::matcher::unknown_errors(
            msgs_view(unknown@),
            required,
        ));
    }
    let ghost e3 = errors@;
    let mut line: usize = 0;
    while line < messages.len()
        invariant
            line <= messages@.len(),
            errors@.len() >= e3.len(),
            errors@.subrange(0, e3.len() as int) == e3,
            errs_view(errors@.skip(e3.len() as int)) == crate::matcher::line_errors(
                path@,
                buckets_view(messages@).take(line as int),
                required,
            ),
        decreases messages.len() - line,
    {
        proof {
            assert(buckets_view(messages@).take(line + 1).drop_last() =~= buckets_view(
                messages@,
            ).take(line as int));
            assert(buckets_view(messages@).take(line + 1).last() == buckets_view(
                messages@,
            )[line as int]);
        }
        let filtered = filter_at_least(&messages[line], required);
        if filtered.len() > 0 {
            let ghost oe = errors@;
            errors.push(
                Error::ErrorsWithoutPattern {
                    path: Some(Spanned::new(path.clone(), Span::for_line(line))),
                    msgs: filtered,
                },
            );
            proof {
                assert(errors@.subrange(0, e3.len() as int) =~= e3);
                assert(errors@.skip(e3.len() as int) =~= oe.skip(e3.len() as int).push(
                    errors@[errors@.len() - 1],
                ));
                assert(errs_view(errors@.skip(e3.len() as int)) =~= errs_view(
                    oe.skip(e3.len() as int),
                ).push(errors@[errors@.len() - 1]@));
                assert(errs_view(errors@.skip(e3.len() as int))
                    =~= crate::matcher::line_errors(
                    path@,
                    buckets_view(messages@).take(line + 1),
                    required,
                ));
            }
        } else {
            proof {
                assert(errs_view(errors@.skip(e3.len() as int))
                    =~= crate::matcher::line_errors(
                    path@,
                    buckets_view(messages@).take(line + 1),
                    required,
                ));
            }
        }
        line += 1;
    }
    proof {
        assert(buckets_view(messages@).take(messages@.len() as int) =~= buckets_view(messages@));
        assert(errors@.skip(e2.len() as int) =~= errors@.subrange(
            e2.len() as int,
            e3.len() as int,
        ) + errors@.skip(e3.len() as int));
        assert(errors@.subrange(e2.len() as int, e3.len() as int) =~= e3.skip(e2.len() as int));
        assert(errs_view(errors@.skip(e2.len() as int)) =~= errs_view(e3.skip(e2.len() as int))
            + errs_view(errors@.skip(e3.len() as int)));
        assert(errors@.subrange(0, e2.len() as int) =~= e2);
    }
}

impl TestConfig {
    /// Check error annotations in the source against the diagnostic
    /// stream: resolve foreign-file patterns, then line-anchored
    /// directives, then flag unexpected leftovers (unless in `Yolo`
    /// mode), then cross-check the mode. Matched messages are consumed
    /// so each diagnostic satisfies at most one directive.
    #[verifier::rlimit(100)]
    #[verifier::spinoff_prover]
    pub fn check_annotations(
        &self,
        messages: Vec<Vec<Message>>,
        messages_from_unknown_file_or_line: Vec<Message>,
        errors: &mut Vec<Error>,
    ) -> (r: Result<(), Errored>)
        requires
            messages@.len() > 0 ==> messages@[0]@.len() == 0,
        ensures
            ({
                let revs = self.revs();
                let pats = foreign_view(all_foreign_patterns(revs));
                let dirs = dirs_view(all_error_matches(revs));
                let u0 = msgs_view(messages_from_unknown_file_or_line@);
                let b0 = buckets_view(messages@);
                let f = foreign_step(pats, u0);
                let d = dirs_step(dirs, b0, resolved_prefix(revs), Level::Error);
                let over = (if level_options(revs).len() > 0 {
                    Some(level_options(revs)[0].data)
                } else {
                    None
                });
                &&& (prefix_options(revs).len() >= 2 ==> r is Err && errs_view(final(errors)@)
                    == errs_view(old(errors)@) + f.errors)
                &&& (prefix_options(revs).len() < 2 && level_options(revs).len() >= 2 ==> r is Err
                    && errs_view(final(errors)@) == errs_view(old(errors)@) + f.errors + d.errors)
                &&& (prefix_options(revs).len() < 2 && level_options(revs).len() < 2
                    && mode_options(revs).len() != 1 ==> r is Err && errs_view(final(errors)@)
                    == errs_view(old(errors)@) + f.errors + d.errors)
                &&& (prefix_options(revs).len() < 2 && level_options(revs).len() < 2
                    && mode_options(revs).len() == 1 ==> r is Ok && errs_view(final(errors)@)
                    == errs_view(old(errors)@) + annotation_errors(
                    pats,
                    dirs,
                    b0,
                    u0,
                    resolved_prefix(revs),
                    over,
                    mode_options(revs)[0].data,
                    mode_options(revs)[0].span,
                    self.path@,
                ))
                &&& (r matches Err(e) ==> e.errors@.len() == 0)
            }),
    {
        let ghost revsg = self.revs();
        let pats = self.collect_foreign();
        let ghost pv = foreign_view(pats@);
        let mut unknown = messages_from_unknown_file_or_line;
        let ghost u0 = msgs_view(unknown@);
        let ghost e0 = errors@;

        let seen0 = run_foreign(&pats, &mut unknown, errors);

        let prefix: String = match self.find_one_prefix() {
            Ok(Some(sp)) => sp.data,
            Ok(None) => String::new(),
            Err(e) => {
                proof {
                    assert(errors@.skip(e0.len() as int) =~= errors@.subrange(
                        e0.len() as int,
                        errors@.len() as int,
                    ));
                    assert(errs_view(errors@) =~= errs_view(e0) + errs_view(
                        errors@.skip(e0.len() as int),
                    ));
                }
                return Err(e);
            },
        };
        proof {
            assert(prefix@ == resolved_prefix(revsg));
        }

        let dirs_vec = self.collect_matches();
        let ghost dv = dirs_view(dirs_vec@);
        let mut messages = messages;
        let ghost b0 = buckets_view(messages@);
        let ghost e1 = errors@;

        let (lowest, seen) = run_dirs(&dirs_vec, &prefix, &mut messages, errors, seen0);
        proof {
            assert(seen == seen_span(pv, dv));
            assert(errs_view(errors@) =~= errs_view(e0) + errs_view(e1.skip(e0.len() as int))
                + errs_view(errors@.skip(e1.len() as int))) by {
                assert(errors@ =~= e1 + errors@.skip(e1.len() as int));
                assert(e1 =~= e0 + e1.skip(e0.len() as int));
                crate::errors::lemma_errs_view_concat(e1, errors@.skip(e1.len() as int));
                crate::errors::lemma_errs_view_concat(e0, e1.skip(e0.len() as int));
            }
        }

        let required: Level = match self.find_one_level() {
            Ok(Some(sp)) => sp.data,
            Ok(None) => lowest,
            Err(e) => {
                return Err(e);
            },
        };

        let mode_sp: Spanned<Mode> = match self.mode() {
            Ok(m) => m,
            Err(e) => {
                return Err(e);
            },
        };

        let ghost e2 = errors@;
        if !matches!(mode_sp.data, Mode::Yolo) {
            run_exhaustive(&self.path, &messages, &unknown, required, errors);
        }
        let ghost e4 = errors@;

        match (mode_sp.data, seen) {
            (Mode::Pass, Some(span)) => {
                errors.push(Error::PatternFoundInPassTest { mode: mode_sp.span, span });
            },
            (Mode::Panic, Some(span)) => {
                errors.push(Error::PatternFoundInPassTest { mode: mode_sp.span, span });
            },
            (Mode::Fail { require_patterns: true }, None) => {
                errors.push(Error::NoPatternsFound);
            },
            _ => {},
        }
        proof {
            assert(errors@.subrange(0, e4.len() as int) =~= e4);
            assert(errs_view(errors@.skip(e4.len() as int)) =~= mode_errors(
                mode_sp.data,
                mode_sp.span,
                seen,
            ));
            let f = foreign_step(pv, u0);
            let dd = dirs_step(dv, b0, prefix@, Level::Error);
            let over = (if level_options(revsg).len() > 0 {
                Some(level_options(revsg)[0].data)
            } else {
                None
            });
            let minv = (match over {
                Some(l) => l,
                None => dd.lowest,
            });
            assert(required == minv);
            let x = (if mode_sp.data is Yolo {
                Seq::<ErrorView>::empty()
            } else {
                exhaustive_errors(self.path@, dd.buckets, f.remaining, minv)
            });
            assert(errs_view(e4.skip(e2.len() as int)) =~= x) by {
                if mode_sp.data is Yolo {
                    assert(e4 =~= e2);
                    assert(e4.skip(e2.len() as int) =~= Seq::<Error>::empty());
                    assert(errs_view(Seq::<Error>::empty()) =~= Seq::<ErrorView>::empty());
                }
            }
            assert(errs_view(errors@) =~= errs_view(e0) + errs_view(e1.skip(e0.len() as int))
                + errs_view(e2.skip(e1.len() as int)) + errs_view(e4.skip(e2.len() as int))
                + errs_view(errors@.skip(e4.len() as int))) by {
                assert(errors@ =~= e4 + errors@.skip(e4.len() as int));
                assert(e4 =~= e2 + e4.skip(e2.len() as int));
                assert(e2 =~= e1 + e2.skip(e1.len() as int));
                assert(e1 =~= e0 + e1.skip(e0.len() as int));
                crate::errors::lemma_errs_view_concat(e4, errors@.skip(e4.len() as int));
                crate::errors::lemma_errs_view_concat(e2, e4.skip(e2.len() as int));
                crate::errors::lemma_errs_view_concat(e1, e2.skip(e1.len() as int));
                crate::errors::lemma_errs_view_concat(e0, e1.skip(e0.len() as int));
            }
            assert(errs_view(errors@) =~= errs_view(e0) + annotation_errors(
                pv,
                dv,
                b0,
                u0,
                resolved_prefix(revsg),
                over,
                mode_options(revsg)[0].data,
                mode_options(revsg)[0].span,
                self.path@,
            ));
        }
        Ok(())
    }
}

impl TestConfig {
    /// Check one finished invocation: reconcile both output streams
    /// against their baselines, then match annotations against the
    /// diagnostic stream. Success is returned exactly when no error
    /// accumulated; a failure carries every error found together with
    /// the captured output.
    #[verifier::rlimit(100)]
    pub fn check_test_result(
        &self,
        command: CommandData,
        stdout: Vec<u8>,
        stderr: Vec<u8>,
        messages: Vec<Vec<Message>>,
        messages_from_unknown_file_or_line: Vec<Message>,
        stdout_baseline: Option<Vec<u8>>,
        stderr_baseline: Option<Vec<u8>>,
    ) -> (r: Result<(CommandData, (String, BaselineAction), (String, BaselineAction)), Errored>)
        requires
            messages@.len() > 0 ==> messages@[0]@.len() == 0,
        ensures
            ({
                let revs = self.revs();
                let pats = foreign_view(all_foreign_patterns(revs));
                let dirs = dirs_view(all_error_matches(revs));
                let over = (if level_options(revs).len() > 0 {
                    Some(level_options(revs)[0].data)
                } else {
                    None
                });
                let settings_ok = mode_options(revs).len() == 1 && prefix_options(revs).len() < 2
                    && level_options(revs).len() < 2;
                let full = reconcile_errors(
                    self.config.output_conflict_handling,
                    normalize_seq(self.norm_rules_for(OutputKind::Stderr), stderr@),
                    opt_bytes(stderr_baseline),
                    self.output_path_spec(OutputKind::Stderr),
                    opt_chars(self.config.bless_command),
                ) + reconcile_errors(
                    self.config.output_conflict_handling,
                    normalize_seq(self.norm_rules_for(OutputKind::Stdout), stdout@),
                    opt_bytes(stdout_baseline),
                    self.output_path_spec(OutputKind::Stdout),
                    opt_chars(self.config.bless_command),
                ) + annotation_errors(
                    pats,
                    dirs,
                    buckets_view(messages@),
                    msgs_view(messages_from_unknown_file_or_line@),
                    resolved_prefix(revs),
                    over,
                    mode_options(revs)[0].data,
                    mode_options(revs)[0].span,
                    self.path@,
                );
                &&& (!settings_ok ==> r is Err && (r matches Err(e) ==> e.errors@.len() == 0))
                &&& (settings_ok ==> ((r is Ok) == (full.len() == 0)))
                &&& (settings_ok && r is Err ==> (r matches Err(e) ==> errs_view(e.errors@)
                    == full && e.command == command && e.stderr@ == stderr@ && e.stdout@
                    == stdout@))
                &&& (r matches Ok(ok) ==> ok.0 == command && ok.1.0@ == self.output_path_spec(
                    OutputKind::Stderr,
                ) && ok.2.0@ == self.output_path_spec(OutputKind::Stdout) && ok.1.1@
                    == reconcile_action(
                    self.config.output_conflict_handling,
                    normalize_seq(self.norm_rules_for(OutputKind::Stderr), stderr@),
                ) && ok.2.1@ == reconcile_action(
                    self.config.output_conflict_handling,
                    normalize_seq(self.norm_rules_for(OutputKind::Stdout), stdout@),
                ))
            }),
    {
        let mode_probe = self.mode();
        match mode_probe {
            Ok(_) => {},
            Err(e) => {
                return Err(e);
            },
        }
        let mut errors: Vec<Error> = Vec::new();
        let (stderr_res, stdout_res) = self.check_test_output(
            &mut errors,
            &stdout,
            &stderr,
            stdout_baseline,
            stderr_baseline,
        );
        let ghost ec = errors@;
        match self.check_annotations(messages, messages_from_unknown_file_or_line, &mut errors) {
            Ok(_) => {},
            Err(e) => {
                return Err(e);
            },
        }
        proof {
            assert(errs_view(Seq::<Error>::empty()) =~= Seq::<ErrorView>::empty());
            assert(Seq::<ErrorView>::empty() + errs_view(ec) =~= errs_view(ec));
        }
        if errors.is_empty() {
            Ok((command, stderr_res, stdout_res))
        } else {
            Err(Errored { command, errors, stderr, stdout })
        }
    }
}

/// A failure that carries only a message, for misconfigured
/// annotations.
fn errored_message(msg: &str) -> (r: Errored)
    ensures
        r.errors@.len() == 0,
        r.stderr@.len() == 0,
        r.stdout@.len() == 0,
{
    Errored {
        command: CommandData { program: msg.to_owned(), args: Vec::new(), envs: Vec::new() },
        errors: Vec::new(),
        stderr: Vec::new(),
        stdout: Vec::new(),
    }
}

/// Resolve an auxiliary-file reference against the auxiliary
/// directory; a leading `..` resolves against that directory's parent.
pub fn aux_file_path(aux: &str, aux_dir: &str) -> (r: String)
    ensures
        r@ == (if crate::path_ops::starts_dot_dot(aux@) {
            path_join(parent_of(aux_dir@), aux@)
        } else {
            path_join(aux_dir@, aux@)
        }),
{
    if crate::path_ops::is_dot_dot(aux) {
        let p = parent(aux_dir);
        join(p.as_str(), aux)
    } else {
        join(aux_dir, aux)
    }
}

/// Wrap an auxiliary build failure: the caller sees one `Aux` error
/// carrying the offending path, the owning line and the nested errors,
/// with the captured output kept.
pub fn wrap_aux_error(aux_file: String, line: usize, e: Errored) -> (r: Errored)
    ensures
        r.command == e.command,
        r.stderr == e.stderr,
        r.stdout == e.stdout,
        r.errors@.len() == 1,
        r.errors@[0] == (Error::Aux { path: aux_file, errors: e.errors, line }),
{
    Errored {
        command: e.command,
        errors: vec![Error::Aux { path: aux_file, errors: e.errors, line }],
        stderr: e.stderr,
        stdout: e.stdout,
    }
}

} // verus!
