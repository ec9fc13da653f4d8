use ui_test_core::comments::{
    Comments, CommentsEntry, CustomFlag, ErrorMatch, ErrorMatchKind, Revisioned,
};
use ui_test_core::config::{Config, OutputConflictHandling};
use ui_test_core::errors::Error;
use ui_test_core::level::Level;
use ui_test_core::message::{Message, Mode};
use ui_test_core::pattern::Pattern;
use ui_test_core::per_test_config::TestConfig;
use ui_test_core::span::{Span, Spanned};

fn base_config() -> Config {
    Config {
        program: "rustc".to_string(),
        program_args: vec!["--error-format=json".to_string()],
        out_dir: "target/out".to_string(),
        target: None,
        host: "x86_64-unknown-linux-gnu".to_string(),
        pointer_width: "64".to_string(),
        bless_command: Some("cargo test -- -- --bless".to_string()),
        output_conflict_handling: OutputConflictHandling::Error,
    }
}

fn empty_revisioned() -> Revisioned {
    Revisioned {
        compile_flags: vec![],
        env_vars: vec![],
        aux_builds: vec![],
        error_in_other_files: vec![],
        error_matches: vec![],
        normalize_stderr: vec![],
        normalize_stdout: vec![],
        diagnostic_code_prefix: None,
        require_annotations_for_level: None,
        mode: Some(Spanned::new(Mode::Fail { require_patterns: false }, Span::for_line(1))),
        stderr_per_bitwidth: false,
        custom: vec![],
    }
}

fn config_with(rev: Revisioned) -> TestConfig {
    TestConfig {
        config: base_config(),
        revision: String::new(),
        comments: Comments { entries: vec![CommentsEntry { revisions: vec![], data: rev }] },
        path: "suite/case.rs".to_string(),
        aux_dir: "suite/auxiliary".to_string(),
    }
}

fn message(level: Level, code: Option<&str>, text: &str) -> Message {
    Message::new(level, code.map(|c| c.to_string()), text.to_string())
}

fn buckets(n: usize) -> Vec<Vec<Message>> {
    let mut v = Vec::new();
    for _ in 0..n {
        v.push(Vec::new());
    }
    v
}

#[test]
fn pattern_on_expected_line_is_consumed() {
    // An error-level message holding the expected substring at the
    // expected line satisfies the directive; nothing is reported.
    let mut rev = empty_revisioned();
    rev.error_matches.push(ErrorMatch {
        kind: ErrorMatchKind::Pattern {
            pattern: Spanned::new(
                Pattern::sub_string("cannot find value".to_string()),
                Span::for_line(5),
            ),
            level: Level::Error,
        },
        line: 5,
    });
    let tc = config_with(rev);
    let mut msgs = buckets(6);
    msgs[5].push(message(
        Level::Error,
        Some("E0425"),
        "cannot find value `x` in this scope",
    ));
    let mut errors = Vec::new();
    let r = tc.check_annotations(msgs, vec![], &mut errors);
    assert!(r.is_ok());
    assert!(errors.is_empty());
}

#[test]
fn code_directive_with_prefix_matches() {
    // A code directive matches an error-level message whose code,
    // after stripping the configured prefix, equals the expected code.
    let mut rev = empty_revisioned();
    rev.diagnostic_code_prefix = Some(Spanned::new("rustc::".to_string(), Span::for_line(1)));
    rev.error_matches.push(ErrorMatch {
        kind: ErrorMatchKind::Code(Spanned::new("E0412".to_string(), Span::for_line(3))),
        line: 3,
    });
    let tc = config_with(rev);
    let mut msgs = buckets(4);
    msgs[3].push(message(Level::Error, Some("rustc::E0412"), "cannot find type"));
    let mut errors = Vec::new();
    let r = tc.check_annotations(msgs, vec![], &mut errors);
    assert!(r.is_ok());
    assert!(errors.is_empty());
}

#[test]
fn pass_mode_rejects_any_directive() {
    // A Pass test carrying a pattern directive reports the
    // contradiction, with both spans populated.
    let mut rev = empty_revisioned();
    rev.mode = Some(Spanned::new(Mode::Pass, Span::for_line(1)));
    rev.error_matches.push(ErrorMatch {
        kind: ErrorMatchKind::Pattern {
            pattern: Spanned::new(Pattern::sub_string("anything".to_string()), Span::for_line(7)),
            level: Level::Error,
        },
        line: 7,
    });
    let tc = config_with(rev);
    let mut errors = Vec::new();
    let r = tc.check_annotations(buckets(1), vec![], &mut errors);
    assert!(r.is_ok());
    let found = errors.iter().any(|e| match e {
        Error::PatternFoundInPassTest { mode, span } => {
            mode.line_start == 1 && span.line_start == 7
        },
        _ => false,
    });
    assert!(found);
}

#[test]
fn panic_mode_rejects_any_directive() {
    let mut rev = empty_revisioned();
    rev.mode = Some(Spanned::new(Mode::Panic, Span::for_line(2)));
    rev.error_in_other_files.push(Spanned::new(
        Pattern::sub_string("boom".to_string()),
        Span::for_line(4),
    ));
    let tc = config_with(rev);
    let mut errors = Vec::new();
    let r = tc.check_annotations(
        buckets(1),
        vec![message(Level::Error, None, "boom happened")],
        &mut errors,
    );
    assert!(r.is_ok());
    assert!(errors.iter().any(|e| matches!(e, Error::PatternFoundInPassTest { .. })));
}

#[test]
fn fail_requiring_patterns_without_any_reports_none_found() {
    let mut rev = empty_revisioned();
    rev.mode = Some(Spanned::new(Mode::Fail { require_patterns: true }, Span::for_line(1)));
    let tc = config_with(rev);
    let mut errors = Vec::new();
    let r = tc.check_annotations(buckets(1), vec![], &mut errors);
    assert!(r.is_ok());
    assert!(errors.iter().any(|e| matches!(e, Error::NoPatternsFound)));
}

#[test]
fn yolo_mode_skips_exhaustiveness() {
    // Unmatched high-severity diagnostics raise nothing in Yolo mode.
    let mut rev = empty_revisioned();
    rev.mode = Some(Spanned::new(Mode::Yolo, Span::for_line(1)));
    let tc = config_with(rev);
    let mut msgs = buckets(3);
    msgs[2].push(message(Level::Error, None, "completely unexpected"));
    let mut errors = Vec::new();
    let r = tc.check_annotations(
        msgs,
        vec![message(Level::Error, None, "also unexpected")],
        &mut errors,
    );
    assert!(r.is_ok());
    assert!(!errors.iter().any(|e| matches!(e, Error::ErrorsWithoutPattern { .. })));
    assert!(errors.is_empty());
}

#[test]
fn unmatched_diagnostics_reported_per_location() {
    // One ErrorsWithoutPattern for the unknown-line group and one per
    // populated line.
    let rev = empty_revisioned();
    let tc = config_with(rev);
    let mut msgs = buckets(4);
    msgs[2].push(message(Level::Error, None, "line two problem"));
    msgs[3].push(message(Level::Error, None, "line three problem"));
    let mut errors = Vec::new();
    let r = tc.check_annotations(
        msgs,
        vec![message(Level::Error, None, "stray")],
        &mut errors,
    );
    assert!(r.is_ok());
    let unknown_groups = errors
        .iter()
        .filter(|e| matches!(e, Error::ErrorsWithoutPattern { path: None, .. }))
        .count();
    let line_groups: Vec<usize> = errors
        .iter()
        .filter_map(|e| match e {
            Error::ErrorsWithoutPattern { path: Some(p), .. } => Some(p.span.line_start),
            _ => None,
        })
        .collect();
    assert_eq!(unknown_groups, 1);
    assert_eq!(line_groups, vec![2, 3]);
}

#[test]
fn warnings_below_required_level_are_ignored() {
    // The default required level is Error when no pattern directive
    // lowered it; a leftover warning raises nothing.
    let rev = empty_revisioned();
    let tc = config_with(rev);
    let mut msgs = buckets(2);
    msgs[1].push(message(Level::Warn, None, "just a warning"));
    let mut errors = Vec::new();
    let r = tc.check_annotations(msgs, vec![], &mut errors);
    assert!(r.is_ok());
    assert!(errors.is_empty());
}

#[test]
fn warn_directive_lowers_required_level() {
    // A warn-level pattern directive makes other warnings reportable.
    let mut rev = empty_revisioned();
    rev.error_matches.push(ErrorMatch {
        kind: ErrorMatchKind::Pattern {
            pattern: Spanned::new(Pattern::sub_string("first".to_string()), Span::for_line(1)),
            level: Level::Warn,
        },
        line: 1,
    });
    let tc = config_with(rev);
    let mut msgs = buckets(3);
    msgs[1].push(message(Level::Warn, None, "first warning"));
    msgs[2].push(message(Level::Warn, None, "second warning"));
    let mut errors = Vec::new();
    let r = tc.check_annotations(msgs, vec![], &mut errors);
    assert!(r.is_ok());
    assert!(errors.iter().any(|e| matches!(
        e,
        Error::ErrorsWithoutPattern { path: Some(p), .. } if p.span.line_start == 2
    )));
}

#[test]
fn matching_is_at_most_once() {
    // Two identical directives against one matching message: one is
    // satisfied, the other reports PatternNotFound.
    let mut rev = empty_revisioned();
    for _ in 0..2 {
        rev.error_matches.push(ErrorMatch {
            kind: ErrorMatchKind::Pattern {
                pattern: Spanned::new(
                    Pattern::sub_string("duplicate".to_string()),
                    Span::for_line(1),
                ),
                level: Level::Error,
            },
            line: 1,
        });
    }
    let tc = config_with(rev);
    let mut msgs = buckets(2);
    msgs[1].push(message(Level::Error, None, "duplicate diagnostics"));
    let mut errors = Vec::new();
    let r = tc.check_annotations(msgs, vec![], &mut errors);
    assert!(r.is_ok());
    assert_eq!(errors.len(), 1);
    assert!(matches!(
        &errors[0],
        Error::PatternNotFound { expected_line: Some(1), .. }
    ));
}

#[test]
fn code_not_found_renders_prefix() {
    let mut rev = empty_revisioned();
    rev.diagnostic_code_prefix = Some(Spanned::new("rustc::".to_string(), Span::for_line(1)));
    rev.error_matches.push(ErrorMatch {
        kind: ErrorMatchKind::Code(Spanned::new("E0999".to_string(), Span::for_line(2))),
        line: 2,
    });
    let tc = config_with(rev);
    let mut errors = Vec::new();
    let r = tc.check_annotations(buckets(3), vec![], &mut errors);
    assert!(r.is_ok());
    assert_eq!(errors.len(), 1);
    match &errors[0] {
        Error::CodeNotFound { code, expected_line } => {
            assert_eq!(code.data, "rustc::E0999");
            assert_eq!(*expected_line, Some(2));
        },
        other => panic!("unexpected error {:?}", other),
    }
}

#[test]
fn foreign_file_pattern_consumes_unknown_line_message() {
    let mut rev = empty_revisioned();
    rev.error_in_other_files.push(Spanned::new(
        Pattern::sub_string("other file".to_string()),
        Span::for_line(1),
    ));
    let tc = config_with(rev);
    let mut errors = Vec::new();
    let r = tc.check_annotations(
        buckets(1),
        vec![message(Level::Error, None, "error in other file somewhere")],
        &mut errors,
    );
    assert!(r.is_ok());
    assert!(errors.is_empty());
}

#[test]
fn regex_pattern_matches_by_regex_rules() {
    let p = Pattern::regex("^val.e$".to_string()).expect("regex accepted");
    assert!(p.matches_text("value"));
    assert!(!p.matches_text("value and more"));
    assert!(Pattern::regex("(".to_string()).is_none());
}

#[test]
fn two_revision_groups_may_not_both_set_the_mode() {
    let rev_a = empty_revisioned();
    let rev_b = empty_revisioned();
    let tc = TestConfig {
        config: base_config(),
        revision: String::new(),
        comments: Comments {
            entries: vec![
                CommentsEntry { revisions: vec![], data: rev_a },
                CommentsEntry { revisions: vec![], data: rev_b },
            ],
        },
        path: "suite/case.rs".to_string(),
        aux_dir: "suite/auxiliary".to_string(),
    };
    assert!(tc.mode().is_err());
    let mut errors = Vec::new();
    assert!(tc.check_annotations(buckets(1), vec![], &mut errors).is_err());
}

#[test]
fn no_mode_set_is_an_error() {
    let mut rev = empty_revisioned();
    rev.mode = None;
    let tc = config_with(rev);
    assert!(tc.mode().is_err());
}

#[test]
fn directives_of_other_revisions_do_not_apply() {
    let mut rev = empty_revisioned();
    rev.error_matches.push(ErrorMatch {
        kind: ErrorMatchKind::Pattern {
            pattern: Spanned::new(Pattern::sub_string("only-foo".to_string()), Span::for_line(1)),
            level: Level::Error,
        },
        line: 1,
    });
    let mut base = empty_revisioned();
    base.mode = Some(Spanned::new(Mode::Fail { require_patterns: false }, Span::for_line(1)));
    let tc = TestConfig {
        config: base_config(),
        revision: "bar".to_string(),
        comments: Comments {
            entries: vec![
                CommentsEntry { revisions: vec![], data: base },
                CommentsEntry { revisions: vec!["foo".to_string()], data: rev },
            ],
        },
        path: "suite/case.rs".to_string(),
        aux_dir: "suite/auxiliary".to_string(),
    };
    let mut errors = Vec::new();
    let r = tc.check_annotations(buckets(1), vec![], &mut errors);
    assert!(r.is_ok());
    assert!(errors.is_empty());
}

#[test]
fn find_one_custom_returns_the_single_instance() {
    let mut rev = empty_revisioned();
    rev.custom.push((
        "edition".to_string(),
        Spanned::new(CustomFlag { args: vec!["--edition=2021".to_string()] }, Span::for_line(9)),
    ));
    let tc = config_with(rev);
    let found = tc.find_one_custom("edition").expect("no conflict");
    let flag = found.expect("present");
    assert_eq!(flag.span.line_start, 9);
    assert_eq!(flag.data.args, vec!["--edition=2021".to_string()]);
    assert!(tc.find_one_custom("absent").expect("no conflict").is_none());
}

#[test]
fn directives_of_the_active_revision_apply() {
    let mut rev = empty_revisioned();
    rev.error_matches.push(ErrorMatch {
        kind: ErrorMatchKind::Pattern {
            pattern: Spanned::new(Pattern::sub_string("only-foo".to_string()), Span::for_line(1)),
            level: Level::Error,
        },
        line: 1,
    });
    rev.mode = None;
    let mut base = empty_revisioned();
    base.mode = Some(Spanned::new(Mode::Fail { require_patterns: true }, Span::for_line(1)));
    let tc = TestConfig {
        config: base_config(),
        revision: "foo".to_string(),
        comments: Comments {
            entries: vec![
                CommentsEntry { revisions: vec![], data: base },
                CommentsEntry { revisions: vec!["foo".to_string()], data: rev },
            ],
        },
        path: "suite/case.rs".to_string(),
        aux_dir: "suite/auxiliary".to_string(),
    };
    let mut msgs = vec![Vec::new(), vec![message(Level::Error, None, "only-foo diagnostics")]];
    let mut errors = Vec::new();
    let r = tc.check_annotations(msgs.drain(..).collect(), vec![], &mut errors);
    assert!(r.is_ok());
    // The directive matched, so the require-patterns check is satisfied
    // and the message is consumed.
    assert!(errors.is_empty());
}
