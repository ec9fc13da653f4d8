//! The per-file annotation store: directives grouped by revision, and
//! the union of everything that applies to one test run.

use vstd::prelude::*;
use crate::span::{Span, Spanned};
use crate::pattern::Pattern;
use crate::level::Level;
use crate::message::Mode;
use crate::rex::{bytes_regex_ok, bytes_regex_is_valid, bytes_replace_all, bytes_replace_all_of};

verus! {

/// One expected-diagnostic directive: how to match, and the 1-indexed
/// line the diagnostic must appear at.
#[derive(Debug)]
pub struct ErrorMatch {
    pub kind: ErrorMatchKind,
    pub line: usize,
}

/// How an expected diagnostic is recognised: by pattern and severity,
/// or by diagnostic code.
#[derive(Debug)]
pub enum ErrorMatchKind {
    Pattern { pattern: Spanned<Pattern>, level: Level },
    Code(Spanned<String>),
}

/// One text-substitution rule for captured output. The pattern can
/// only be built from text the regex engine accepts.
#[derive(Debug)]
pub struct NormalizeRule {
    from: String,
    to: Vec<u8>,
}

impl NormalizeRule {
    #[verifier::type_invariant]
    closed spec fn type_inv(self) -> bool {
        bytes_regex_ok(self.from@)
    }

    /// The rule's pattern text.
    pub closed spec fn from_view(self) -> Seq<char> {
        self.from@
    }

    /// The rule's replacement bytes.
    pub closed spec fn to_view(self) -> Seq<u8> {
        self.to@
    }

    /// A substitution rule; refused when the regex engine does not
    /// accept `from`.
    pub fn new(from: String, to: Vec<u8>) -> (r: Option<NormalizeRule>)
        ensures
            match r {
                Some(rule) => rule.from_view() == from@ && rule.to_view() == to@
                    && bytes_regex_ok(from@),
                None => !bytes_regex_ok(from@),
            },
    {
        if bytes_regex_is_valid(from.as_str()) {
            Some(NormalizeRule { from, to })
        } else {
            None
        }
    }

    /// Apply this rule everywhere in `text`.
    pub fn apply(&self, text: &Vec<u8>) -> (r: Vec<u8>)
        ensures
            r@ == bytes_replace_all_of(self.from_view(), text@, self.to_view()),
    {
        proof {
            use_type_invariant(self);
        }
        bytes_replace_all(self.from.as_str(), text, &self.to)
    }
}

impl Clone for NormalizeRule {
    fn clone(&self) -> (r: Self)
        ensures
            r.from_view() == self.from_view(),
            r.to_view() == self.to_view(),
    {
        proof {
            use_type_invariant(self);
        }
        NormalizeRule { from: self.from.clone(), to: clone_bytes(&self.to) }
    }
}

/// A clone of a byte vector, element for element.
pub fn clone_bytes(v: &Vec<u8>) -> (r: Vec<u8>)
    ensures
        r@ == v@,
{
    let mut r: Vec<u8> = Vec::new();
    let mut i: usize = 0;
    while i < v.len()
        invariant
            i <= v@.len(),
            r@ == v@.subrange(0, i as int),
        decreases v.len() - i,
    {
        r.push(v[i]);
        proof {
            assert(r@ =~= v@.subrange(0, i + 1 as int));
        }
        i += 1;
    }
    proof {
        assert(r@ =~= v@);
    }
    r
}

/// A named custom flag instance: its contribution to the command line.
#[derive(Debug)]
pub struct CustomFlag {
    pub args: Vec<String>,
}

impl Clone for CustomFlag {
    fn clone(&self) -> (r: Self)
        ensures
            r.args@ == self.args@,
    {
        CustomFlag { args: clone_strings(&self.args) }
    }
}

/// A clone of a string vector, element for element.
pub fn clone_strings(v: &Vec<String>) -> (r: Vec<String>)
    ensures
        r@ == v@,
{
    let mut r: Vec<String> = Vec::new();
    let mut i: usize = 0;
    while i < v.len()
        invariant
            i <= v@.len(),
            r@ == v@.subrange(0, i as int),
        decreases v.len() - i,
    {
        r.push(v[i].clone());
        proof {
            assert(r@ =~= v@.subrange(0, i + 1 as int));
        }
        i += 1;
    }
    proof {
        assert(r@ =~= v@);
    }
    r
}

impl Clone for Spanned<String> {
    fn clone(&self) -> (r: Self)
        ensures
            r == *self,
    {
        Spanned { data: self.data.clone(), span: self.span }
    }
}

impl Clone for Spanned<Pattern> {
    fn clone(&self) -> (r: Self)
        ensures
            r == *self,
    {
        Spanned { data: self.data.clone(), span: self.span }
    }
}

impl Clone for Spanned<Level> {
    fn clone(&self) -> (r: Self)
        ensures
            r == *self,
    {
        Spanned { data: self.data, span: self.span }
    }
}

impl Clone for Spanned<Mode> {
    fn clone(&self) -> (r: Self)
        ensures
            r == *self,
    {
        Spanned { data: self.data, span: self.span }
    }
}

impl Clone for Spanned<CustomFlag> {
    fn clone(&self) -> (r: Self)
        ensures
            r.data.args@ == self.data.args@,
            r.span == self.span,
    {
        Spanned { data: self.data.clone(), span: self.span }
    }
}

impl Clone for ErrorMatchKind {
    fn clone(&self) -> (r: Self)
        ensures
            r == *self,
    {
        match self {
            ErrorMatchKind::Pattern { pattern, level } => ErrorMatchKind::Pattern {
                pattern: pattern.clone(),
                level: *level,
            },
            ErrorMatchKind::Code(code) => ErrorMatchKind::Code(code.clone()),
        }
    }
}

impl Clone for ErrorMatch {
    fn clone(&self) -> (r: Self)
        ensures
            r == *self,
    {
        ErrorMatch { kind: self.kind.clone(), line: self.line }
    }
}

/// All directives of one revision group.
#[derive(Debug)]
pub struct Revisioned {
    /// Extra compile-flag tokens, in directive order.
    pub compile_flags: Vec<String>,
    /// Environment variables to set, in directive order.
    pub env_vars: Vec<(String, String)>,
    /// Auxiliary files this test depends on, each with the line of the
    /// directive for error attribution.
    pub aux_builds: Vec<Spanned<String>>,
    /// Patterns expected to match diagnostics from other files or
    /// unknown lines.
    pub error_in_other_files: Vec<Spanned<Pattern>>,
    /// Line-anchored expected-diagnostic directives.
    pub error_matches: Vec<ErrorMatch>,
    /// Substitution rules for captured standard error.
    pub normalize_stderr: Vec<NormalizeRule>,
    /// Substitution rules for captured standard output.
    pub normalize_stdout: Vec<NormalizeRule>,
    /// A prefix stripped from actual diagnostic codes before comparing.
    pub diagnostic_code_prefix: Option<Spanned<String>>,
    /// The minimum severity that must carry an annotation, when set.
    pub require_annotations_for_level: Option<Spanned<Level>>,
    /// The test mode, when set.
    pub mode: Option<Spanned<Mode>>,
    /// Name baselines per pointer width.
    pub stderr_per_bitwidth: bool,
    /// Custom flag instances, keyed by name, in insertion order.
    pub custom: Vec<(String, Spanned<CustomFlag>)>,
}

/// One revision group: the revision names it applies to (empty means
/// "all revisions") and its directives.
#[derive(Debug)]
pub struct CommentsEntry {
    pub revisions: Vec<String>,
    pub data: Revisioned,
}

/// The whole annotation store of one test file.
#[derive(Debug)]
pub struct Comments {
    pub entries: Vec<CommentsEntry>,
}

/// Whether a revision group applies to the given revision.
pub open spec fn entry_applies(e: CommentsEntry, revision: Seq<char>) -> bool {
    e.revisions@.len() == 0 || exists|i: int|
        0 <= i < e.revisions@.len() && e.revisions@[i]@ == revision
}

/// The revision groups that apply to `revision`, in order.
pub open spec fn applicable_revs(entries: Seq<CommentsEntry>, revision: Seq<char>) -> Seq<
    Revisioned,
>
    decreases entries.len(),
{
    if entries.len() == 0 {
        Seq::empty()
    } else {
        applicable_revs(entries.drop_last(), revision) + (if entry_applies(
            entries.last(),
            revision,
        ) {
            seq![entries.last().data]
        } else {
            Seq::empty()
        })
    }
}

/// The values behind a sequence of revision-group references.
pub open spec fn revs_of(rs: Seq<&Revisioned>) -> Seq<Revisioned> {
    rs.map_values(|p: &Revisioned| *p)
}

/// The character views of a string sequence.
pub open spec fn args_view(s: Seq<String>) -> Seq<Seq<char>> {
    s.map_values(|x: String| x@)
}

/// The character views of an environment list.
pub open spec fn envs_view(s: Seq<(String, String)>) -> Seq<(Seq<char>, Seq<char>)> {
    s.map_values(|e: (String, String)| (e.0@, e.1@))
}

/// The pattern and replacement views of a rule list.
pub open spec fn rules_view(s: Seq<NormalizeRule>) -> Seq<(Seq<char>, Seq<u8>)> {
    s.map_values(|r: NormalizeRule| (r.from_view(), r.to_view()))
}

/// All compile-flag tokens of the given revision groups, in order.
pub open spec fn all_compile_flags(revs: Seq<Revisioned>) -> Seq<String>
    decreases revs.len(),
{
    if revs.len() == 0 {
        Seq::empty()
    } else {
        all_compile_flags(revs.drop_last()) + revs.last().compile_flags@
    }
}

/// All environment entries of the given revision groups, in order.
pub open spec fn all_env_vars(revs: Seq<Revisioned>) -> Seq<(String, String)>
    decreases revs.len(),
{
    if revs.len() == 0 {
        Seq::empty()
    } else {
        all_env_vars(revs.drop_last()) + revs.last().env_vars@
    }
}

/// All auxiliary-file references of the given revision groups, in order.
pub open spec fn all_aux_builds(revs: Seq<Revisioned>) -> Seq<Spanned<String>>
    decreases revs.len(),
{
    if revs.len() == 0 {
        Seq::empty()
    } else {
        all_aux_builds(revs.drop_last()) + revs.last().aux_builds@
    }
}

/// All foreign-file patterns of the given revision groups, in order.
pub open spec fn all_foreign_patterns(revs: Seq<Revisioned>) -> Seq<Spanned<Pattern>>
    decreases revs.len(),
{
    if revs.len() == 0 {
        Seq::empty()
    } else {
        all_foreign_patterns(revs.drop_last()) + revs.last().error_in_other_files@
    }
}

/// All line-anchored directives of the given revision groups, in order.
pub open spec fn all_error_matches(revs: Seq<Revisioned>) -> Seq<ErrorMatch>
    decreases revs.len(),
{
    if revs.len() == 0 {
        Seq::empty()
    } else {
        all_error_matches(revs.drop_last()) + revs.last().error_matches@
    }
}

/// All standard-error substitution rules, in order.
pub open spec fn all_norm_stderr(revs: Seq<Revisioned>) -> Seq<NormalizeRule>
    decreases revs.len(),
{
    if revs.len() == 0 {
        Seq::empty()
    } else {
        all_norm_stderr(revs.drop_last()) + revs.last().normalize_stderr@
    }
}

/// All standard-output substitution rules, in order.
pub open spec fn all_norm_stdout(revs: Seq<Revisioned>) -> Seq<NormalizeRule>
    decreases revs.len(),
{
    if revs.len() == 0 {
        Seq::empty()
    } else {
        all_norm_stdout(revs.drop_last()) + revs.last().normalize_stdout@
    }
}

/// The command-line contributions of a revision group's custom flags,
/// in insertion order.
pub open spec fn flag_args(c: Seq<(String, Spanned<CustomFlag>)>) -> Seq<String>
    decreases c.len(),
{
    if c.len() == 0 {
        Seq::empty()
    } else {
        flag_args(c.drop_last()) + c.last().1.data.args@
    }
}

/// All custom-flag contributions of the given revision groups, applied
/// in revision order.
pub open spec fn all_custom_args(revs: Seq<Revisioned>) -> Seq<String>
    decreases revs.len(),
{
    if revs.len() == 0 {
        Seq::empty()
    } else {
        all_custom_args(revs.drop_last()) + flag_args(revs.last().custom@)
    }
}

/// Whether any applicable revision group asks for per-pointer-width
/// baseline naming.
pub open spec fn any_bitwidth(revs: Seq<Revisioned>) -> bool {
    exists|i: int| 0 <= i < revs.len() && revs[i].stderr_per_bitwidth
}

/// The first custom flag stored under `name`, if any.
pub open spec fn custom_lookup(c: Seq<(String, Spanned<CustomFlag>)>, name: Seq<char>) -> Option<
    Spanned<CustomFlag>,
>
    decreases c.len(),
{
    if c.len() == 0 {
        None
    } else if c[0].0@ == name {
        Some(c[0].1)
    } else {
        custom_lookup(c.drop_first(), name)
    }
}

/// A scan that saw no hit before `t`, and a hit at `t` if `t` is in
/// range, pins down `custom_lookup`.
pub proof fn lemma_custom_lookup_at(c: Seq<(String, Spanned<CustomFlag>)>, name: Seq<char>, t: int)
    requires
        0 <= t <= c.len(),
        forall|j: int| 0 <= j < t ==> c[j].0@ != name,
        t < c.len() ==> c[t].0@ == name,
    ensures
        custom_lookup(c, name) == (if t == c.len() {
            None::<Spanned<CustomFlag>>
        } else {
            Some(c[t].1)
        }),
    decreases c.len(),
{
    if c.len() == 0 {
    } else if c[0].0@ == name {
        assert(t == 0);
    } else {
        assert(forall|j: int| 0 <= j < t - 1 ==> c.drop_first()[j] == c[j + 1] && c.drop_first()[j].0@
            != name);
        lemma_custom_lookup_at(c.drop_first(), name, t - 1);
    }
}

impl Comments {
    /// Whether one revision group applies to `revision`.
    pub fn applies(e: &CommentsEntry, revision: &str) -> (r: bool)
        ensures
            r == entry_applies(*e, revision@),
    {
        if e.revisions.len() == 0 {
            return true;
        }
        let mut i: usize = 0;
        while i < e.revisions.len()
            invariant
                i <= e.revisions@.len(),
                forall|j: int| 0 <= j < i ==> e.revisions@[j]@ != revision@,
            decreases e.revisions.len() - i,
        {
            if crate::text::str_eq(e.revisions[i].as_str(), revision) {
                return true;
            }
            i += 1;
        }
        false
    }
}

} // verus!
