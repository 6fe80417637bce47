use rusty_tools::PersistenceMode;
use rusty_tools::ToolError;
use rusty_tools::store::Database;

fn temp_db_path(dir: &tempfile::TempDir) -> String {
    dir.path().join("records.db").to_str().unwrap().to_string()
}

fn open_db(path: &str) -> Database {
    Database::new(PersistenceMode::Path(path.to_string()))
        .unwrap()
        .unwrap()
}

#[test]
fn disabled_mode_yields_no_store() {
    let r = Database::new(PersistenceMode::Disabled).unwrap();
    assert!(r.is_none());
}

#[test]
fn initialization_twice_never_errors_and_keeps_one_table_each() {
    let dir = tempfile::tempdir().unwrap();
    let path = temp_db_path(&dir);
    let first = Database::new(PersistenceMode::Path(path.clone()));
    assert!(matches!(first, Ok(Some(_))));
    drop(first);
    let second = Database::new(PersistenceMode::Path(path.clone()));
    assert!(matches!(second, Ok(Some(_))));
    drop(second);
    let conn = rusqlite::Connection::open(&path).unwrap();
    for table in ["analyses", "errors", "todos"] {
        let count: i64 = conn
            .query_row(
                "SELECT COUNT(*) FROM sqlite_master WHERE type = 'table' AND name = ?1",
                (table,),
                |row| row.get(0),
            )
            .unwrap();
        assert_eq!(count, 1, "{} must exist exactly once", table);
    }
}

#[test]
fn initialization_keeps_existing_rows() {
    let dir = tempfile::tempdir().unwrap();
    let path = temp_db_path(&dir);
    let mut db = open_db(&path);
    db.store_analysis("cargo_check", "{}", true, None).unwrap();
    drop(db);
    let db2 = open_db(&path);
    let stats = db2.get_stats().unwrap();
    assert_eq!(stats.total_analyses, 1);
}

#[test]
fn analysis_ids_grow() {
    let dir = tempfile::tempdir().unwrap();
    let mut db = open_db(&temp_db_path(&dir));
    let a = db.store_analysis("cargo_check", "{}", true, None).unwrap();
    let b = db.store_analysis("cargo_build", "{}", false, Some("m.rs")).unwrap();
    assert!(b > a);
}

#[test]
fn orphaned_error_is_refused_and_not_inserted() {
    let dir = tempfile::tempdir().unwrap();
    let mut db = open_db(&temp_db_path(&dir));
    let r = db.store_error(12345, Some("E0308"), "mismatched types", None, None, None);
    assert!(matches!(r, Err(ToolError::ForeignKeyViolation)));
    let stats = db.get_stats().unwrap();
    assert_eq!(stats.total_errors, 0);
    let history = db.get_error_history(None, None).unwrap();
    assert_eq!(history.len(), 0);
}

#[test]
fn error_against_existing_analysis_is_kept() {
    let dir = tempfile::tempdir().unwrap();
    let mut db = open_db(&temp_db_path(&dir));
    let id = db.store_analysis("cargo_check", "{}", false, None).unwrap();
    db.store_error(id, Some("E0308"), "mismatched types", Some("src/main.rs"), Some(3), None)
        .unwrap();
    let history = db.get_error_history(None, None).unwrap();
    assert_eq!(history.len(), 1);
    let rec = &history[0];
    assert_eq!(rec.error_code.as_deref(), Some("E0308"));
    assert_eq!(rec.message, "mismatched types");
    assert_eq!(rec.file.as_deref(), Some("src/main.rs"));
    assert_eq!(rec.line, Some(3));
    assert_eq!(rec.tool, "cargo_check");
}

#[test]
fn history_default_limit_is_ten_newest_first() {
    let dir = tempfile::tempdir().unwrap();
    let mut db = open_db(&temp_db_path(&dir));
    let id = db.store_analysis("cargo_check", "{}", false, None).unwrap();
    for k in 0..15 {
        let msg = format!("problem {}", k);
        db.store_error(id, Some("E0308"), &msg, None, None, None).unwrap();
    }
    let history = db.get_error_history(None, None).unwrap();
    assert_eq!(history.len(), 10);
    assert_eq!(history[0].message, "problem 14");
    assert_eq!(history[9].message, "problem 5");
}

#[test]
fn history_honors_code_filter_and_explicit_limit() {
    let dir = tempfile::tempdir().unwrap();
    let mut db = open_db(&temp_db_path(&dir));
    let id = db.store_analysis("cargo_check", "{}", false, None).unwrap();
    db.store_error(id, Some("E0308"), "first", None, None, None).unwrap();
    db.store_error(id, Some("E0599"), "second", None, None, None).unwrap();
    db.store_error(id, Some("E0308"), "third", None, None, None).unwrap();
    let filtered = db.get_error_history(Some("E0308"), None).unwrap();
    assert_eq!(filtered.len(), 2);
    assert_eq!(filtered[0].message, "third");
    assert_eq!(filtered[1].message, "first");
    let limited = db.get_error_history(None, Some(1)).unwrap();
    assert_eq!(limited.len(), 1);
    assert_eq!(limited[0].message, "third");
}

#[test]
fn todos_filter_and_order() {
    let dir = tempfile::tempdir().unwrap();
    let mut db = open_db(&temp_db_path(&dir));
    db.store_todo("clippy", "first reminder", None, None).unwrap();
    db.store_todo("clippy_help", "second reminder", Some("a.rs"), Some(2)).unwrap();
    db.store_todo("clippy", "third reminder", None, None).unwrap();
    let open = db.get_todos(false).unwrap();
    assert_eq!(open.len(), 3);
    assert_eq!(open[0].description, "third reminder");
    assert_eq!(open[2].description, "first reminder");
    let target = open[1].id;
    db.mark_todo_completed(target).unwrap();
    let open_after = db.get_todos(false).unwrap();
    assert_eq!(open_after.len(), 2);
    assert!(open_after.iter().all(|t| t.id != target));
    let all = db.get_todos(true).unwrap();
    assert_eq!(all.len(), 3);
    assert!(all.iter().any(|t| t.id == target && t.completed));
}

#[test]
fn marking_a_missing_todo_is_no_error() {
    let dir = tempfile::tempdir().unwrap();
    let mut db = open_db(&temp_db_path(&dir));
    db.mark_todo_completed(999).unwrap();
    let stats = db.get_stats().unwrap();
    assert_eq!(stats.active_todos, 0);
    assert_eq!(stats.completed_todos, 0);
}

#[test]
fn stats_count_all_four_kinds() {
    let dir = tempfile::tempdir().unwrap();
    let mut db = open_db(&temp_db_path(&dir));
    let id = db.store_analysis("cargo_check", "{}", true, None).unwrap();
    db.store_error(id, None, "m", None, None, None).unwrap();
    db.store_error(id, Some("E1"), "n", None, None, None).unwrap();
    db.store_todo("clippy", "open one", None, None).unwrap();
    db.store_todo("clippy", "done one", None, None).unwrap();
    let todos = db.get_todos(false).unwrap();
    let done_id = todos.iter().find(|t| t.description == "done one").unwrap().id;
    db.mark_todo_completed(done_id).unwrap();
    let stats = db.get_stats().unwrap();
    assert_eq!(stats.total_analyses, 1);
    assert_eq!(stats.total_errors, 2);
    assert_eq!(stats.active_todos, 1);
    assert_eq!(stats.completed_todos, 1);
}

#[test]
fn trim_keeps_newest_analyses_and_their_errors() {
    let dir = tempfile::tempdir().unwrap();
    let mut db = open_db(&temp_db_path(&dir));
    let mut ids = Vec::new();
    for k in 0..5 {
        let tool = format!("tool{}", k);
        let id = db.store_analysis(&tool, "{}", true, None).unwrap();
        let msg = format!("err{}", k);
        db.store_error(id, None, &msg, None, None, None).unwrap();
        ids.push(id);
    }
    db.store_todo("clippy", "survivor", None, None).unwrap();
    db.cleanup_old_data(2).unwrap();
    let stats = db.get_stats().unwrap();
    assert_eq!(stats.total_analyses, 2);
    assert_eq!(stats.total_errors, 2);
    assert_eq!(stats.active_todos, 1);
    let history = db.get_error_history(None, None).unwrap();
    assert_eq!(history.len(), 2);
    assert_eq!(history[0].message, "err4");
    assert_eq!(history[1].message, "err3");
}

#[test]
fn trim_to_zero_empties_analyses_and_errors() {
    let dir = tempfile::tempdir().unwrap();
    let mut db = open_db(&temp_db_path(&dir));
    let id = db.store_analysis("cargo_check", "{}", true, None).unwrap();
    db.store_error(id, None, "gone", None, None, None).unwrap();
    db.store_todo("clippy", "stays", None, None).unwrap();
    db.cleanup_old_data(0).unwrap();
    let stats = db.get_stats().unwrap();
    assert_eq!(stats.total_analyses, 0);
    assert_eq!(stats.total_errors, 0);
    assert_eq!(stats.active_todos, 1);
}
