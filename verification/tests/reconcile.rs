use ui_test_core::comments::{
    Comments, CommentsEntry, CustomFlag, NormalizeRule, Revisioned,
};
use ui_test_core::config::{Config, OutputConflictHandling, OutputKind, BaselineAction};
use ui_test_core::errors::{Error, Errored};
use ui_test_core::config::CommandData;
use ui_test_core::message::Mode;
use ui_test_core::per_test_config::{TestConfig, aux_file_path, wrap_aux_error};
use ui_test_core::span::{Span, Spanned};

fn plain_config(handling: OutputConflictHandling) -> Config {
    Config {
        program: "rustc".to_string(),
        program_args: vec![],
        out_dir: "target/out".to_string(),
        target: None,
        host: "x86_64-unknown-linux-gnu".to_string(),
        pointer_width: "64".to_string(),
        bless_command: None,
        output_conflict_handling: handling,
    }
}

fn plain_revisioned() -> Revisioned {
    Revisioned {
        compile_flags: vec![],
        env_vars: vec![],
        aux_builds: vec![],
        error_in_other_files: vec![],
        error_matches: vec![],
        normalize_stderr: vec![],
        normalize_stdout: vec![],
        diagnostic_code_prefix: None,
        require_annotations_for_level: None,
        mode: Some(Spanned::new(Mode::Fail { require_patterns: false }, Span::for_line(1))),
        stderr_per_bitwidth: false,
        custom: vec![],
    }
}

fn test_config(handling: OutputConflictHandling, rev: Revisioned, revision: &str) -> TestConfig {
    TestConfig {
        config: plain_config(handling),
        revision: revision.to_string(),
        comments: Comments { entries: vec![CommentsEntry { revisions: vec![], data: rev }] },
        path: "suite/case.rs".to_string(),
        aux_dir: "suite/auxiliary".to_string(),
    }
}

#[test]
fn extension_without_revision_is_the_kind_alone() {
    let tc = test_config(OutputConflictHandling::Error, plain_revisioned(), "");
    assert_eq!(tc.extension("stderr"), "stderr");
}

#[test]
fn extension_with_revision_prepends_it() {
    let tc = test_config(OutputConflictHandling::Error, plain_revisioned(), "opt");
    assert_eq!(tc.extension("stderr"), "opt.stderr");
}

#[test]
fn output_path_replaces_the_file_extension() {
    let tc = test_config(OutputConflictHandling::Error, plain_revisioned(), "");
    assert_eq!(tc.output_path(OutputKind::Stderr), "suite/case.stderr");
    let tc2 = test_config(OutputConflictHandling::Error, plain_revisioned(), "opt");
    assert_eq!(tc2.output_path(OutputKind::Stdout), "suite/case.opt.stdout");
}

#[test]
fn output_path_honours_pointer_width() {
    let mut rev = plain_revisioned();
    rev.stderr_per_bitwidth = true;
    let tc = test_config(OutputConflictHandling::Error, rev, "");
    assert_eq!(tc.output_path(OutputKind::Stderr), "suite/case.64bit.stderr");
}

#[test]
fn normalization_applies_rules_in_order() {
    let mut rev = plain_revisioned();
    rev.normalize_stderr.push(
        NormalizeRule::new("[0-9]+".to_string(), b"N".to_vec()).expect("regex accepted"),
    );
    rev.normalize_stderr.push(
        NormalizeRule::new("N/N".to_string(), b"D".to_vec()).expect("regex accepted"),
    );
    let tc = test_config(OutputConflictHandling::Error, rev, "");
    let out = tc.normalize(&b"at 10/20 and 3".to_vec(), OutputKind::Stderr);
    assert_eq!(out, b"at D and N".to_vec());
}

#[test]
fn fixed_output_is_never_normalized() {
    let mut rev = plain_revisioned();
    rev.normalize_stderr.push(
        NormalizeRule::new("x".to_string(), b"y".to_vec()).expect("regex accepted"),
    );
    let tc = test_config(OutputConflictHandling::Error, rev, "");
    let out = tc.normalize(&b"xxx".to_vec(), OutputKind::Fixed);
    assert_eq!(out, b"xxx".to_vec());
}

#[test]
fn invalid_normalization_rule_is_refused() {
    assert!(NormalizeRule::new("(".to_string(), b"y".to_vec()).is_none());
}

#[test]
fn error_policy_reports_baseline_mismatch() {
    let tc = test_config(OutputConflictHandling::Error, plain_revisioned(), "");
    let mut errors = Vec::new();
    let (path, action) = tc.check_output(
        &b"actual bytes".to_vec(),
        &mut errors,
        OutputKind::Stderr,
        Some(b"expected bytes".to_vec()),
    );
    assert_eq!(path, "suite/case.stderr");
    assert!(matches!(action, BaselineAction::Keep));
    assert_eq!(errors.len(), 1);
    match &errors[0] {
        Error::OutputDiffers { path, actual, expected, .. } => {
            assert_eq!(path, "suite/case.stderr");
            assert_eq!(actual, &b"actual bytes".to_vec());
            assert_eq!(expected, &b"expected bytes".to_vec());
        },
        other => panic!("unexpected error {:?}", other),
    }
}

#[test]
fn error_policy_treats_missing_baseline_as_empty() {
    let tc = test_config(OutputConflictHandling::Error, plain_revisioned(), "");
    let mut errors = Vec::new();
    tc.check_output(&Vec::new(), &mut errors, OutputKind::Stdout, None);
    assert!(errors.is_empty());
}

#[test]
fn bless_then_error_round_trip_is_clean() {
    // Blessing writes the normalized output; re-checking the same
    // output against the written baseline reports nothing.
    let bless = test_config(OutputConflictHandling::Bless, plain_revisioned(), "");
    let mut errors = Vec::new();
    let (_, action) = bless.check_output(
        &b"stable output".to_vec(),
        &mut errors,
        OutputKind::Stderr,
        None,
    );
    assert!(errors.is_empty());
    let written = match action {
        BaselineAction::Write(bytes) => bytes,
        other => panic!("expected a write, got {:?}", other),
    };
    let check = test_config(OutputConflictHandling::Error, plain_revisioned(), "");
    let mut errors2 = Vec::new();
    check.check_output(
        &b"stable output".to_vec(),
        &mut errors2,
        OutputKind::Stderr,
        Some(written),
    );
    assert!(errors2.is_empty());
}

#[test]
fn blessing_empty_output_deletes_the_baseline() {
    let tc = test_config(OutputConflictHandling::Bless, plain_revisioned(), "");
    let mut errors = Vec::new();
    let (_, action) = tc.check_output(
        &Vec::new(),
        &mut errors,
        OutputKind::Stderr,
        Some(b"old baseline".to_vec()),
    );
    assert!(errors.is_empty());
    assert!(matches!(action, BaselineAction::Delete));
}

#[test]
fn ignore_policy_reports_nothing() {
    let tc = test_config(OutputConflictHandling::Ignore, plain_revisioned(), "");
    let mut errors = Vec::new();
    let (_, action) = tc.check_output(
        &b"whatever".to_vec(),
        &mut errors,
        OutputKind::Stderr,
        Some(b"different".to_vec()),
    );
    assert!(errors.is_empty());
    assert!(matches!(action, BaselineAction::Keep));
}

#[test]
fn build_command_assembles_every_part_in_order() {
    let mut rev = plain_revisioned();
    rev.compile_flags.push("--crate-type=lib".to_string());
    rev.env_vars.push(("RUST_BACKTRACE".to_string(), "1".to_string()));
    rev.custom.push((
        "edition".to_string(),
        Spanned::new(CustomFlag { args: vec!["--edition=2021".to_string()] }, Span::for_line(1)),
    ));
    let mut tc = test_config(OutputConflictHandling::Error, rev, "opt");
    tc.config.target = Some("wasm32-unknown-unknown".to_string());
    let cmd = tc.build_command(vec!["--extern=dep.rlib".to_string()]);
    assert_eq!(cmd.program, "rustc");
    assert_eq!(
        cmd.args,
        vec![
            "--extern=dep.rlib".to_string(),
            "suite/case.rs".to_string(),
            "--cfg=opt".to_string(),
            "--crate-type=lib".to_string(),
            "--edition=2021".to_string(),
            "--target".to_string(),
            "wasm32-unknown-unknown".to_string(),
        ]
    );
    assert_eq!(cmd.envs, vec![("RUST_BACKTRACE".to_string(), "1".to_string())]);
}

#[test]
fn target_flag_is_omitted_when_it_matches_the_host() {
    let mut tc = test_config(OutputConflictHandling::Error, plain_revisioned(), "");
    tc.config.target = Some(tc.config.host.clone());
    let cmd = tc.build_command(vec![]);
    assert!(!cmd.args.contains(&"--target".to_string()));
}

#[test]
fn patch_out_dir_separates_tests_by_directory() {
    let mut tc = test_config(OutputConflictHandling::Error, plain_revisioned(), "");
    tc.patch_out_dir();
    assert_eq!(tc.config.out_dir, "target/out/suite");
}

#[test]
fn aux_paths_resolve_against_the_aux_directory() {
    assert_eq!(aux_file_path("helper.rs", "suite/auxiliary"), "suite/auxiliary/helper.rs");
    assert_eq!(aux_file_path("../shared.rs", "suite/auxiliary"), "suite/../shared.rs");
}

#[test]
fn aux_failures_wrap_the_nested_errors() {
    let inner = Errored {
        command: CommandData { program: "rustc".to_string(), args: vec![], envs: vec![] },
        errors: vec![Error::NoPatternsFound],
        stderr: b"boom".to_vec(),
        stdout: vec![],
    };
    let wrapped = wrap_aux_error("suite/auxiliary/helper.rs".to_string(), 12, inner);
    assert_eq!(wrapped.stderr, b"boom".to_vec());
    assert_eq!(wrapped.errors.len(), 1);
    match &wrapped.errors[0] {
        Error::Aux { path, errors, line } => {
            assert_eq!(path, "suite/auxiliary/helper.rs");
            assert_eq!(*line, 12);
            assert_eq!(errors.len(), 1);
        },
        other => panic!("unexpected error {:?}", other),
    }
}

#[test]
fn check_test_result_bundles_all_errors() {
    let tc = test_config(OutputConflictHandling::Error, plain_revisioned(), "");
    let cmd = CommandData { program: "rustc".to_string(), args: vec![], envs: vec![] };
    let r = tc.check_test_result(
        cmd,
        b"unexpected stdout".to_vec(),
        vec![],
        vec![],
        vec![],
        None,
        None,
    );
    let errored = match r {
        Err(e) => e,
        Ok(_) => panic!("expected a failure"),
    };
    assert_eq!(errored.stdout, b"unexpected stdout".to_vec());
    assert_eq!(errored.errors.len(), 1);
    assert!(matches!(errored.errors[0], Error::OutputDiffers { .. }));
}

#[test]
fn check_test_result_passes_a_clean_run() {
    let tc = test_config(OutputConflictHandling::Ignore, plain_revisioned(), "");
    let cmd = CommandData { program: "rustc".to_string(), args: vec![], envs: vec![] };
    let r = tc.check_test_result(cmd, vec![], vec![], vec![], vec![], None, None);
    assert!(r.is_ok());
}
