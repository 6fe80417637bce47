use rusty_tools::ToolError;
use rusty_tools::runner::DrainOutcome;
use rusty_tools::runner::ExecResult;
use rusty_tools::runner::WaitOutcome;
use rusty_tools::runner::exec_result_json;
use rusty_tools::runner::finish_run;
use rusty_tools::runner::plan_invocation;

#[test]
fn timeout_always_yields_timed_out() {
    let r = finish_run(
        WaitOutcome::TimedOut,
        DrainOutcome::Collected(b"partial".to_vec()),
        DrainOutcome::Collected(Vec::new()),
        5000,
    );
    assert!(matches!(r, Err(ToolError::TimedOut)));
}

#[test]
fn normal_exit_keeps_code_and_streams() {
    let r = finish_run(
        WaitOutcome::Exited(Some(3)),
        DrainOutcome::Collected(b"out text".to_vec()),
        DrainOutcome::Collected(b"err text".to_vec()),
        42,
    )
    .unwrap();
    assert_eq!(r.status, 3);
    assert_eq!(r.stdout, "out text");
    assert_eq!(r.stderr, "err text");
    assert_eq!(r.duration_ms, 42);
}

#[test]
fn signal_exit_maps_to_sentinel() {
    let r = finish_run(
        WaitOutcome::Exited(None),
        DrainOutcome::Collected(Vec::new()),
        DrainOutcome::Collected(Vec::new()),
        1,
    )
    .unwrap();
    assert_eq!(r.status, -1);
}

#[test]
fn failed_drain_fails_the_call() {
    let r = finish_run(
        WaitOutcome::Exited(Some(0)),
        DrainOutcome::Failed,
        DrainOutcome::Collected(Vec::new()),
        1,
    );
    assert!(matches!(r, Err(ToolError::DrainFailed)));
}

#[test]
fn invalid_bytes_decode_with_replacement() {
    let r = finish_run(
        WaitOutcome::Exited(Some(0)),
        DrainOutcome::Collected(vec![0xff, 0xfe]),
        DrainOutcome::Collected(Vec::new()),
        1,
    )
    .unwrap();
    assert_eq!(r.stdout, "\u{FFFD}\u{FFFD}");
}

#[test]
fn payload_json_is_exact() {
    let r = ExecResult {
        stdout: "ok \"x\"\n".to_string(),
        stderr: "".to_string(),
        status: 0,
        duration_ms: 12,
    };
    let s = exec_result_json(&r);
    assert_eq!(
        s,
        "{\"status\":0,\"success\":true,\"stdout\":\"ok \\\"x\\\"\\n\",\"stderr\":\"\",\"duration_ms\":12}"
    );
}

#[test]
fn payload_json_negative_status_and_controls() {
    let r = ExecResult {
        stdout: "a\\b\u{1}".to_string(),
        stderr: "\t".to_string(),
        status: -1,
        duration_ms: 0,
    };
    let s = exec_result_json(&r);
    assert_eq!(
        s,
        "{\"status\":-1,\"success\":false,\"stdout\":\"a\\\\b\\u0001\",\"stderr\":\"\\t\",\"duration_ms\":0}"
    );
}

#[test]
fn catalog_knows_the_formatter() {
    let p = plan_invocation("cargo_fmt").unwrap();
    assert_eq!(p.args, vec!["fmt".to_string(), "--".to_string(), "--emit=stdout".to_string()]);
    assert_eq!(p.timeout_ms, None);
}

#[test]
fn catalog_knows_the_linter() {
    let p = plan_invocation("cargo_clippy").unwrap();
    assert_eq!(
        p.args,
        vec!["clippy".to_string(), "--".to_string(), "-D".to_string(), "warnings".to_string()]
    );
    assert_eq!(p.timeout_ms, Some(30000));
}

#[test]
fn catalog_refuses_unknown_names() {
    assert!(plan_invocation("cargo_yolo").is_none());
    assert!(plan_invocation("").is_none());
}

#[test]
fn catalog_covers_every_workspace_operation() {
    for name in [
        "cargo_fmt",
        "cargo_clippy",
        "cargo_check",
        "cargo_fix",
        "cargo_audit",
        "cargo_test",
        "cargo_build",
        "cargo_tree",
        "cargo_doc",
        "rust_analyzer",
    ] {
        assert!(plan_invocation(name).is_some());
    }
}
