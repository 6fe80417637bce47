use rusty_tools::PersistenceMode;
use rusty_tools::ToolError;
use rusty_tools::runner::ExecResult;
use rusty_tools::server::PersistOutcome;
use rusty_tools::server::RustyToolsServer;
use rusty_tools::server::ValidationError;
use rusty_tools::server::validate_rust_code;

fn sample_result(status: i32, stderr: &str) -> ExecResult {
    ExecResult {
        stdout: "compiled".to_string(),
        stderr: stderr.to_string(),
        status,
        duration_ms: 7,
    }
}

#[test]
fn persistence_isolation_without_store() {
    let mut server = RustyToolsServer::new(PersistenceMode::Disabled);
    let result = sample_result(2, "error[E0308]: mismatched types\n");
    let reply = server.finish_execution("cargo_check", &result, true);
    assert_eq!(reply.status, 2);
    assert!(!reply.success);
    assert!(matches!(reply.persistence, PersistOutcome::Unavailable));
    assert_eq!(
        reply.payload_json,
        "{\"status\":2,\"success\":false,\"stdout\":\"compiled\",\"stderr\":\"error[E0308]: mismatched types\\n\",\"duration_ms\":7}"
    );
}

#[test]
fn store_errors_without_store_reports_unavailable() {
    let mut server = RustyToolsServer::new(PersistenceMode::Disabled);
    let result = sample_result(0, "");
    let r = server.store_analysis_with_errors("cargo_check", &result, true);
    assert!(matches!(r, Err(ToolError::PersistenceUnavailable)));
}

#[test]
fn no_persistence_requested_means_none_attempted() {
    let mut server = RustyToolsServer::new(PersistenceMode::Disabled);
    let result = sample_result(0, "");
    let reply = server.finish_execution("cargo_check", &result, false);
    assert!(matches!(reply.persistence, PersistOutcome::NotRequested));
    assert!(reply.success);
}

#[test]
fn persisted_execution_records_analysis_and_diagnostics() {
    let dir = tempfile::tempdir().unwrap();
    let path = dir.path().join("records.db").to_str().unwrap().to_string();
    let mut server = RustyToolsServer::new(PersistenceMode::Path(path));
    let result = sample_result(1, "error[E0308]: mismatched types\nwarning: unused variable\n");
    let reply = server.finish_execution("cargo_check", &result, true);
    assert_eq!(reply.status, 1);
    assert!(matches!(reply.persistence, PersistOutcome::Stored));
    let db = server.db.as_ref().unwrap();
    let stats = db.get_stats().unwrap();
    assert_eq!(stats.total_analyses, 1);
    assert_eq!(stats.total_errors, 2);
    assert_eq!(stats.active_todos, 0);
    let history = db.get_error_history(None, None).unwrap();
    assert_eq!(history[0].error_code.as_deref(), Some("WARNING"));
    assert_eq!(history[1].error_code.as_deref(), Some("E0308"));
    assert_eq!(history[1].tool, "cargo_check");
}

#[test]
fn lint_runs_also_store_todos() {
    let dir = tempfile::tempdir().unwrap();
    let path = dir.path().join("records.db").to_str().unwrap().to_string();
    let mut server = RustyToolsServer::new(PersistenceMode::Path(path));
    let stderr = "warning: needless return #[warn(clippy::needless_return)]\nhelp: remove it\n";
    let result = sample_result(0, stderr);
    let reply = server.finish_execution("cargo_clippy", &result, true);
    assert!(matches!(reply.persistence, PersistOutcome::Stored));
    let db = server.db.as_ref().unwrap();
    let todos = db.get_todos(false).unwrap();
    assert_eq!(todos.len(), 2);
    assert_eq!(todos[0].source, "clippy_help");
    assert_eq!(todos[0].description, "remove it");
    assert_eq!(todos[1].source, "clippy");
}

#[test]
fn non_lint_runs_store_no_todos() {
    let dir = tempfile::tempdir().unwrap();
    let path = dir.path().join("records.db").to_str().unwrap().to_string();
    let mut server = RustyToolsServer::new(PersistenceMode::Path(path));
    let stderr = "warning: needless return #[warn(clippy::needless_return)]\n";
    let result = sample_result(0, stderr);
    server.finish_execution("cargo_check", &result, true);
    let db = server.db.as_ref().unwrap();
    assert_eq!(db.get_todos(true).unwrap().len(), 0);
}

#[test]
fn validation_rejects_blank_code() {
    let banned: Vec<String> = Vec::new();
    let r = validate_rust_code("   \n\t", &banned);
    assert!(matches!(r, Err(ValidationError::EmptyCode)));
}

#[test]
fn validation_names_the_first_banned_fragment() {
    let banned = vec!["abc".to_string(), "def".to_string()];
    let r = validate_rust_code("x def y", &banned);
    assert!(matches!(r, Err(ValidationError::Banned(1))));
    let r2 = validate_rust_code("abc def", &banned);
    assert!(matches!(r2, Err(ValidationError::Banned(0))));
}

#[test]
fn validation_accepts_clean_code() {
    let banned = vec!["abc".to_string()];
    assert!(validate_rust_code("fn main() {}", &banned).is_ok());
}
