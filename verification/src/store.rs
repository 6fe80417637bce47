use vstd::prelude::*;
use crate::PersistenceMode;
use crate::ToolError;
use crate::text::str_eq;

verus! {

// ---------------------------------------------------------------------------
// Record shapes, and their mathematical views.
// ---------------------------------------------------------------------------

/// One stored analysis, as the analyses table holds it.
#[derive(Debug)]
pub struct AnalysisRow {
    pub id: i64,
    pub timestamp: String,
    pub file_path: Option<String>,
    pub tool: String,
    pub full_output: String,
    pub success: bool,
}

pub struct AnalysisRowV {
    pub id: i64,
    pub timestamp: Seq<char>,
    pub file_path: Option<Seq<char>>,
    pub tool: Seq<char>,
    pub full_output: Seq<char>,
    pub success: bool,
}

/// One stored diagnostic, as the errors table holds it.
#[derive(Debug)]
pub struct ErrorRow {
    pub id: i64,
    pub analysis_id: i64,
    pub error_code: Option<String>,
    pub message: String,
    pub file: Option<String>,
    pub line: Option<i32>,
    pub suggestion: Option<String>,
    pub timestamp: String,
}

pub struct ErrorRowV {
    pub id: i64,
    pub analysis_id: i64,
    pub error_code: Option<Seq<char>>,
    pub message: Seq<char>,
    pub file: Option<Seq<char>>,
    pub line: Option<i32>,
    pub suggestion: Option<Seq<char>>,
    pub timestamp: Seq<char>,
}

/// One stored diagnostic as history queries answer it: the row joined with
/// the name of the tool whose run produced it.
#[derive(Debug)]
pub struct ErrorRecord {
    pub id: i64,
    pub error_code: Option<String>,
    pub message: String,
    pub file: Option<String>,
    pub line: Option<i32>,
    pub suggestion: Option<String>,
    pub timestamp: String,
    pub tool: String,
}

pub struct ErrorRecordV {
    pub id: i64,
    pub error_code: Option<Seq<char>>,
    pub message: Seq<char>,
    pub file: Option<Seq<char>>,
    pub line: Option<i32>,
    pub suggestion: Option<Seq<char>>,
    pub timestamp: Seq<char>,
    pub tool: Seq<char>,
}

/// One stored reminder.
#[derive(Debug)]
pub struct TodoRecord {
    pub id: i64,
    pub source: String,
    pub description: String,
    pub file_path: Option<String>,
    pub line_number: Option<i32>,
    pub completed: bool,
    pub created_at: String,
}

pub struct TodoRecordV {
    pub id: i64,
    pub source: Seq<char>,
    pub description: Seq<char>,
    pub file_path: Option<Seq<char>>,
    pub line_number: Option<i32>,
    pub completed: bool,
    pub created_at: Seq<char>,
}

/// The four aggregate counts.
#[derive(Debug, PartialEq, Eq, Structural)]
pub struct DatabaseStats {
    pub total_analyses: usize,
    pub total_errors: usize,
    pub active_todos: usize,
    pub completed_todos: usize,
}

pub open spec fn opt_str_view(o: Option<String>) -> Option<Seq<char>> {
    match o {
        Some(s) => Some(s@),
        None => None,
    }
}

pub open spec fn opt_ref_view(o: Option<&str>) -> Option<Seq<char>> {
    match o {
        Some(s) => Some(s@),
        None => None,
    }
}

impl View for AnalysisRow {
    type V = AnalysisRowV;

    open spec fn view(&self) -> AnalysisRowV {
        AnalysisRowV {
            id: self.id,
            timestamp: self.timestamp@,
            file_path: opt_str_view(self.file_path),
            tool: self.tool@,
            full_output: self.full_output@,
            success: self.success,
        }
    }
}

impl DeepView for AnalysisRow {
    type V = AnalysisRowV;

    open spec fn deep_view(&self) -> AnalysisRowV {
        self.view()
    }
}

impl View for ErrorRow {
    type V = ErrorRowV;

    open spec fn view(&self) -> ErrorRowV {
        ErrorRowV {
            id: self.id,
            analysis_id: self.analysis_id,
            error_code: opt_str_view(self.error_code),
            message: self.message@,
            file: opt_str_view(self.file),
            line: self.line,
            suggestion: opt_str_view(self.suggestion),
            timestamp: self.timestamp@,
        }
    }
}

impl DeepView for ErrorRow {
    type V = ErrorRowV;

    open spec fn deep_view(&self) -> ErrorRowV {
        self.view()
    }
}

impl View for ErrorRecord {
    type V = ErrorRecordV;

    open spec fn view(&self) -> ErrorRecordV {
        ErrorRecordV {
            id: self.id,
            error_code: opt_str_view(self.error_code),
            message: self.message@,
            file: opt_str_view(self.file),
            line: self.line,
            suggestion: opt_str_view(self.suggestion),
            timestamp: self.timestamp@,
            tool: self.tool@,
        }
    }
}

impl DeepView for ErrorRecord {
    type V = ErrorRecordV;

    open spec fn deep_view(&self) -> ErrorRecordV {
        self.view()
    }
}

impl View for TodoRecord {
    type V = TodoRecordV;

    open spec fn view(&self) -> TodoRecordV {
        TodoRecordV {
            id: self.id,
            source: self.source@,
            description: self.description@,
            file_path: opt_str_view(self.file_path),
            line_number: self.line_number,
            completed: self.completed,
            created_at: self.created_at@,
        }
    }
}

impl DeepView for TodoRecord {
    type V = TodoRecordV;

    open spec fn deep_view(&self) -> TodoRecordV {
        self.view()
    }
}

// ---------------------------------------------------------------------------
// The storage engine, behind trusted declarations. The model of an open
// connection is what its three tables hold, each as a sequence of rows in
// ascending id order, plus whether the schema objects are in place. The
// table names are read in the shapes `create_schema_objects` declares
// below (in particular `id INTEGER PRIMARY KEY AUTOINCREMENT`): that is
// where the id clauses of the wrappers come from, and every connection
// this library hands out has gone through `create_schema_objects`. A
// foreign database file that happens to hold a same-named table of
// another shape is outside that reading.
// ---------------------------------------------------------------------------

#[verifier::external_type_specification]
#[verifier::external_body]
pub struct ExConnection(rusqlite::Connection);

#[verifier::external_type_specification]
#[verifier::external_body]
pub struct ExSqliteError(rusqlite::Error);

/// The rows of the analyses table, in ascending id order.
pub uninterp spec fn db_analyses(c: rusqlite::Connection) -> Seq<AnalysisRowV>;

/// The rows of the errors table, in ascending id order.
pub uninterp spec fn db_errors(c: rusqlite::Connection) -> Seq<ErrorRowV>;

/// The rows of the todos table, in ascending id order.
pub uninterp spec fn db_todos(c: rusqlite::Connection) -> Seq<TodoRecordV>;

/// The three tables exist, with the shapes this library declares.
pub uninterp spec fn db_schema_ready(c: rusqlite::Connection) -> bool;

/// Relies on rusqlite's Connection::open: opens the SQLite database file at
/// the path, creating it when missing. What the file already held is not
/// known here, so nothing is said of the contents.
#[verifier::external_body]
fn open_connection(path: &str) -> (r: Result<rusqlite::Connection, rusqlite::Error>) {
    rusqlite::Connection::open(path)
}

/// Relies on rusqlite's Connection::execute running CREATE TABLE IF NOT
/// EXISTS: a missing table is created empty, a present one is left exactly
/// as it is, so no statement here ever touches a row.
#[verifier::external_body]
fn create_schema_objects(c: &mut rusqlite::Connection) -> (r: Result<(), rusqlite::Error>)
    ensures
        r is Ok ==> db_schema_ready(*final(c)),
        db_schema_ready(*old(c)) ==> db_schema_ready(*final(c)),
        db_analyses(*final(c)) == db_analyses(*old(c)),
        db_errors(*final(c)) == db_errors(*old(c)),
        db_todos(*final(c)) == db_todos(*old(c)),
{
    c.execute(
        "CREATE TABLE IF NOT EXISTS analyses (id INTEGER PRIMARY KEY AUTOINCREMENT, timestamp DATETIME DEFAULT CURRENT_TIMESTAMP, file_path TEXT, tool TEXT NOT NULL, full_output TEXT NOT NULL, success BOOLEAN NOT NULL)",
        (),
    )?;
    c.execute(
        "CREATE TABLE IF NOT EXISTS errors (id INTEGER PRIMARY KEY AUTOINCREMENT, analysis_id INTEGER NOT NULL, error_code TEXT, message TEXT NOT NULL, file TEXT, line INTEGER, suggestion TEXT, timestamp DATETIME DEFAULT CURRENT_TIMESTAMP, FOREIGN KEY (analysis_id) REFERENCES analyses (id))",
        (),
    )?;
    c.execute(
        "CREATE TABLE IF NOT EXISTS todos (id INTEGER PRIMARY KEY AUTOINCREMENT, created_at DATETIME DEFAULT CURRENT_TIMESTAMP, source TEXT NOT NULL, description TEXT NOT NULL, file_path TEXT, line_number INTEGER, completed INTEGER DEFAULT 0)",
        (),
    )?;
    Ok(())
}

/// The given fields of a freshly inserted analysis row; its id and
/// timestamp are the store's to choose.
pub open spec fn analysis_row_matches(
    row: AnalysisRowV,
    id: i64,
    tool: Seq<char>,
    full_output: Seq<char>,
    success: bool,
    file_path: Option<Seq<char>>,
) -> bool {
    row.id == id && row.tool == tool && row.full_output == full_output && row.success == success
        && row.file_path == file_path
}

/// Relies on rusqlite's Connection::execute running one INSERT, and
/// last_insert_rowid: the INSERT appends exactly one row, SQLite assigns
/// it a rowid above every id ever used in the table (AUTOINCREMENT) and
/// fills its timestamp, and a failed statement changes nothing.
#[verifier::external_body]
fn insert_analysis(
    c: &mut rusqlite::Connection,
    tool: &str,
    full_output: &str,
    success: bool,
    file_path: Option<&str>,
) -> (r: Result<i64, rusqlite::Error>)
    ensures
        r matches Ok(id) ==> db_analyses(*final(c)).len() == db_analyses(*old(c)).len() + 1
            && db_analyses(*final(c)).take(db_analyses(*old(c)).len() as int) == db_analyses(
            *old(c),
        ) && analysis_row_matches(
            db_analyses(*final(c)).last(),
            id,
            tool@,
            full_output@,
            success,
            opt_ref_view(file_path),
        ) && (forall|k: int|
            0 <= k < db_analyses(*old(c)).len() ==> db_analyses(*old(c))[k].id < id),
        r is Err ==> db_analyses(*final(c)) == db_analyses(*old(c)),
        db_errors(*final(c)) == db_errors(*old(c)),
        db_todos(*final(c)) == db_todos(*old(c)),
        db_schema_ready(*final(c)) == db_schema_ready(*old(c)),
{
    let n = c.execute(
        "INSERT INTO analyses (tool, full_output, success, file_path) VALUES (?1, ?2, ?3, ?4)",
        (tool, full_output, success, file_path),
    );
    match n {
        Ok(_) => Ok(c.last_insert_rowid()),
        Err(e) => Err(e),
    }
}

/// The given fields of a freshly inserted error row; its id and timestamp
/// are the store's to choose.
pub open spec fn error_row_matches(
    row: ErrorRowV,
    analysis_id: i64,
    error_code: Option<Seq<char>>,
    message: Seq<char>,
    file: Option<Seq<char>>,
    line: Option<i32>,
    suggestion: Option<Seq<char>>,
) -> bool {
    row.analysis_id == analysis_id && row.error_code == error_code && row.message == message
        && row.file == file && row.line == line && row.suggestion == suggestion
}

/// Relies on rusqlite's Connection::execute running one INSERT: it appends
/// exactly one row at the end (AUTOINCREMENT keeps ids ascending), SQLite
/// fills id and timestamp, and a failed statement changes nothing.
#[verifier::external_body]
fn insert_error(
    c: &mut rusqlite::Connection,
    analysis_id: i64,
    error_code: Option<&str>,
    message: &str,
    file: Option<&str>,
    line: Option<i32>,
    suggestion: Option<&str>,
) -> (r: Result<(), rusqlite::Error>)
    ensures
        r is Ok ==> db_errors(*final(c)).len() == db_errors(*old(c)).len() + 1 && db_errors(
            *final(c),
        ).take(db_errors(*old(c)).len() as int) == db_errors(*old(c)) && error_row_matches(
            db_errors(*final(c)).last(),
            analysis_id,
            opt_ref_view(error_code),
            message@,
            opt_ref_view(file),
            line,
            opt_ref_view(suggestion),
        ),
        r is Err ==> db_errors(*final(c)) == db_errors(*old(c)),
        db_analyses(*final(c)) == db_analyses(*old(c)),
        db_todos(*final(c)) == db_todos(*old(c)),
        db_schema_ready(*final(c)) == db_schema_ready(*old(c)),
{
    let n = c.execute(
        "INSERT INTO errors (analysis_id, error_code, message, file, line, suggestion) VALUES (?1, ?2, ?3, ?4, ?5, ?6)",
        (analysis_id, error_code, message, file, line, suggestion),
    );
    match n {
        Ok(_) => Ok(()),
        Err(e) => Err(e),
    }
}

/// The given fields of a freshly inserted todo row; its id and creation
/// time are the store's to choose, and it starts out open.
pub open spec fn todo_row_matches(
    row: TodoRecordV,
    source: Seq<char>,
    description: Seq<char>,
    file_path: Option<Seq<char>>,
    line_number: Option<i32>,
) -> bool {
    row.source == source && row.description == description && row.file_path == file_path
        && row.line_number == line_number && row.completed == false
}

/// Relies on rusqlite's Connection::execute running one INSERT: it appends
/// exactly one row at the end (AUTOINCREMENT keeps ids ascending), SQLite
/// fills id and created_at, completed defaults to 0, and a failed
/// statement changes nothing.
#[verifier::external_body]
fn insert_todo(
    c: &mut rusqlite::Connection,
    source: &str,
    description: &str,
    file_path: Option<&str>,
    line_number: Option<i32>,
) -> (r: Result<(), rusqlite::Error>)
    ensures
        r is Ok ==> db_todos(*final(c)).len() == db_todos(*old(c)).len() + 1 && db_todos(
            *final(c),
        ).take(db_todos(*old(c)).len() as int) == db_todos(*old(c)) && todo_row_matches(
            db_todos(*final(c)).last(),
            source@,
            description@,
            opt_ref_view(file_path),
            line_number,
        ),
        r is Err ==> db_todos(*final(c)) == db_todos(*old(c)),
        db_analyses(*final(c)) == db_analyses(*old(c)),
        db_errors(*final(c)) == db_errors(*old(c)),
        db_schema_ready(*final(c)) == db_schema_ready(*old(c)),
{
    let n = c.execute(
        "INSERT INTO todos (source, description, file_path, line_number) VALUES (?1, ?2, ?3, ?4)",
        (source, description, file_path, line_number),
    );
    match n {
        Ok(_) => Ok(()),
        Err(e) => Err(e),
    }
}

/// Relies on rusqlite's prepare and query_map running one SELECT with
/// ORDER BY id ASC: every row of the analyses table, in ascending id
/// order; ids are unique, being the table's INTEGER PRIMARY KEY.
#[verifier::external_body]
fn select_analyses(c: &rusqlite::Connection) -> (r: Result<Vec<AnalysisRow>, rusqlite::Error>)
    ensures
        r matches Ok(v) ==> v.deep_view() == db_analyses(*c) && (forall|k1: int, k2: int|
            0 <= k1 < k2 < db_analyses(*c).len() ==> db_analyses(*c)[k1].id < db_analyses(
                *c,
            )[k2].id),
{
    let mut stmt = c.prepare("SELECT id, timestamp, file_path, tool, full_output, success FROM analyses ORDER BY id ASC")?;
    let rows = stmt.query_map((), |row| {
        Ok(AnalysisRow {
            id: row.get(0)?,
            timestamp: row.get(1)?,
            file_path: row.get(2)?,
            tool: row.get(3)?,
            full_output: row.get(4)?,
            success: row.get(5)?,
        })
    })?;
    rows.collect()
}

/// Relies on rusqlite's prepare and query_map running one SELECT with
/// ORDER BY id ASC: every row of the errors table, in ascending id order.
#[verifier::external_body]
fn select_errors(c: &rusqlite::Connection) -> (r: Result<Vec<ErrorRow>, rusqlite::Error>)
    ensures
        r matches Ok(v) ==> v.deep_view() == db_errors(*c),
{
    let mut stmt = c.prepare("SELECT id, analysis_id, error_code, message, file, line, suggestion, timestamp FROM errors ORDER BY id ASC")?;
    let rows = stmt.query_map((), |row| {
        Ok(ErrorRow {
            id: row.get(0)?,
            analysis_id: row.get(1)?,
            error_code: row.get(2)?,
            message: row.get(3)?,
            file: row.get(4)?,
            line: row.get(5)?,
            suggestion: row.get(6)?,
            timestamp: row.get(7)?,
        })
    })?;
    rows.collect()
}

/// Relies on rusqlite's prepare and query_map running one SELECT with
/// ORDER BY id ASC: every row of the todos table, in ascending id order.
#[verifier::external_body]
fn select_todos(c: &rusqlite::Connection) -> (r: Result<Vec<TodoRecord>, rusqlite::Error>)
    ensures
        r matches Ok(v) ==> v.deep_view() == db_todos(*c),
{
    let mut stmt = c.prepare("SELECT id, source, description, file_path, line_number, completed, created_at FROM todos ORDER BY id ASC")?;
    let rows = stmt.query_map((), |row| {
        Ok(TodoRecord {
            id: row.get(0)?,
            source: row.get(1)?,
            description: row.get(2)?,
            file_path: row.get(3)?,
            line_number: row.get(4)?,
            completed: row.get::<_, i32>(5)? != 0,
            created_at: row.get(6)?,
        })
    })?;
    rows.collect()
}

/// The row, completed when it is the named one.
pub open spec fn mark_completed_row(t: TodoRecordV, id: i64) -> TodoRecordV {
    if t.id == id {
        TodoRecordV {
            id: t.id,
            source: t.source,
            description: t.description,
            file_path: t.file_path,
            line_number: t.line_number,
            completed: true,
            created_at: t.created_at,
        }
    } else {
        t
    }
}

/// Every row, with the named one (wherever it stands) marked completed.
pub open spec fn todos_marked(s: Seq<TodoRecordV>, id: i64) -> Seq<TodoRecordV>
    decreases s.len(),
{
    if s.len() == 0 {
        seq![]
    } else {
        todos_marked(s.drop_last(), id).push(mark_completed_row(s.last(), id))
    }
}

/// Relies on rusqlite's Connection::execute running one UPDATE: it sets
/// completed on exactly the rows whose id matches (none, when the id names
/// no row), and a failed statement changes nothing.
#[verifier::external_body]
fn update_todo_completed(c: &mut rusqlite::Connection, todo_id: i64) -> (r: Result<
    (),
    rusqlite::Error,
>)
    ensures
        r is Ok ==> db_todos(*final(c)) == todos_marked(db_todos(*old(c)), todo_id),
        r is Err ==> db_todos(*final(c)) == db_todos(*old(c)),
        db_analyses(*final(c)) == db_analyses(*old(c)),
        db_errors(*final(c)) == db_errors(*old(c)),
        db_schema_ready(*final(c)) == db_schema_ready(*old(c)),
{
    let n = c.execute("UPDATE todos SET completed = 1 WHERE id = ?1", (todo_id,));
    match n {
        Ok(_) => Ok(()),
        Err(e) => Err(e),
    }
}

/// The error rows that point at or above the cutoff analysis id, in order.
pub open spec fn errors_at_or_above(s: Seq<ErrorRowV>, cutoff: i64) -> Seq<ErrorRowV>
    decreases s.len(),
{
    if s.len() == 0 {
        seq![]
    } else if s.last().analysis_id >= cutoff {
        errors_at_or_above(s.drop_last(), cutoff).push(s.last())
    } else {
        errors_at_or_above(s.drop_last(), cutoff)
    }
}

/// The analysis rows at or above the cutoff id, in order.
pub open spec fn analyses_at_or_above(s: Seq<AnalysisRowV>, cutoff: i64) -> Seq<AnalysisRowV>
    decreases s.len(),
{
    if s.len() == 0 {
        seq![]
    } else if s.last().id >= cutoff {
        analyses_at_or_above(s.drop_last(), cutoff).push(s.last())
    } else {
        analyses_at_or_above(s.drop_last(), cutoff)
    }
}

/// Relies on rusqlite's Connection::execute running one DELETE: exactly
/// the error rows below the cutoff analysis id go, in one atomic
/// statement; a failed statement changes nothing.
#[verifier::external_body]
fn delete_errors_below(c: &mut rusqlite::Connection, cutoff: i64) -> (r: Result<
    (),
    rusqlite::Error,
>)
    ensures
        r is Ok ==> db_errors(*final(c)) == errors_at_or_above(db_errors(*old(c)), cutoff),
        r is Err ==> db_errors(*final(c)) == db_errors(*old(c)),
        db_analyses(*final(c)) == db_analyses(*old(c)),
        db_todos(*final(c)) == db_todos(*old(c)),
        db_schema_ready(*final(c)) == db_schema_ready(*old(c)),
{
    let n = c.execute("DELETE FROM errors WHERE analysis_id < ?1", (cutoff,));
    match n {
        Ok(_) => Ok(()),
        Err(e) => Err(e),
    }
}

/// Relies on rusqlite's Connection::execute running one unconditional
/// DELETE: every error row goes, in one atomic statement; a failed
/// statement changes nothing.
#[verifier::external_body]
fn delete_all_errors(c: &mut rusqlite::Connection) -> (r: Result<(), rusqlite::Error>)
    ensures
        r is Ok ==> db_errors(*final(c)) == Seq::<ErrorRowV>::empty(),
        r is Err ==> db_errors(*final(c)) == db_errors(*old(c)),
        db_analyses(*final(c)) == db_analyses(*old(c)),
        db_todos(*final(c)) == db_todos(*old(c)),
        db_schema_ready(*final(c)) == db_schema_ready(*old(c)),
{
    let n = c.execute("DELETE FROM errors", ());
    match n {
        Ok(_) => Ok(()),
        Err(e) => Err(e),
    }
}

/// Relies on rusqlite's Connection::execute running one unconditional
/// DELETE: every analysis row goes, in one atomic statement; a failed
/// statement changes nothing.
#[verifier::external_body]
fn delete_all_analyses(c: &mut rusqlite::Connection) -> (r: Result<(), rusqlite::Error>)
    ensures
        r is Ok ==> db_analyses(*final(c)) == Seq::<AnalysisRowV>::empty(),
        r is Err ==> db_analyses(*final(c)) == db_analyses(*old(c)),
        db_errors(*final(c)) == db_errors(*old(c)),
        db_todos(*final(c)) == db_todos(*old(c)),
        db_schema_ready(*final(c)) == db_schema_ready(*old(c)),
{
    let n = c.execute("DELETE FROM analyses", ());
    match n {
        Ok(_) => Ok(()),
        Err(e) => Err(e),
    }
}

/// Relies on rusqlite's Connection::execute running one DELETE: exactly
/// the analysis rows below the cutoff id go, in one atomic statement; a
/// failed statement changes nothing.
#[verifier::external_body]
fn delete_analyses_below(c: &mut rusqlite::Connection, cutoff: i64) -> (r: Result<
    (),
    rusqlite::Error,
>)
    ensures
        r is Ok ==> db_analyses(*final(c)) == analyses_at_or_above(db_analyses(*old(c)), cutoff),
        r is Err ==> db_analyses(*final(c)) == db_analyses(*old(c)),
        db_errors(*final(c)) == db_errors(*old(c)),
        db_todos(*final(c)) == db_todos(*old(c)),
        db_schema_ready(*final(c)) == db_schema_ready(*old(c)),
{
    let n = c.execute("DELETE FROM analyses WHERE id < ?1", (cutoff,));
    match n {
        Ok(_) => Ok(()),
        Err(e) => Err(e),
    }
}

// ---------------------------------------------------------------------------
// The verified store.
// ---------------------------------------------------------------------------

/// Some row of `analyses` carries this id.
pub open spec fn has_analysis(analyses: Seq<AnalysisRowV>, id: i64) -> bool {
    exists|j: int| 0 <= j < analyses.len() && #[trigger] analyses[j].id == id
}

/// The tool of the first analysis carrying this id.
pub open spec fn tool_of(analyses: Seq<AnalysisRowV>, id: i64) -> Seq<char>
    decreases analyses.len(),
{
    if analyses.len() == 0 {
        Seq::empty()
    } else if analyses.first().id == id {
        analyses.first().tool
    } else {
        tool_of(analyses.drop_first(), id)
    }
}

/// The error row carries this code; no filter when no code is asked for.
pub open spec fn code_matches(e: ErrorRowV, code: Option<Seq<char>>) -> bool {
    match code {
        Some(cs) => e.error_code == Some(cs),
        None => true,
    }
}

/// The row stands in the history answer: its code fits the filter and its
/// analysis exists (an orphaned row never joins).
pub open spec fn keep_error_row(e: ErrorRowV, analyses: Seq<AnalysisRowV>, code: Option<
    Seq<char>,
>) -> bool {
    code_matches(e, code) && has_analysis(analyses, e.analysis_id)
}

/// The error row joined with the tool name of its analysis.
pub open spec fn joined_record(e: ErrorRowV, analyses: Seq<AnalysisRowV>) -> ErrorRecordV {
    ErrorRecordV {
        id: e.id,
        error_code: e.error_code,
        message: e.message,
        file: e.file,
        line: e.line,
        suggestion: e.suggestion,
        timestamp: e.timestamp,
        tool: tool_of(analyses, e.analysis_id),
    }
}

/// Every error that fits, joined with its tool, newest first.
pub open spec fn rev_join(
    errors: Seq<ErrorRowV>,
    analyses: Seq<AnalysisRowV>,
    code: Option<Seq<char>>,
) -> Seq<ErrorRecordV>
    decreases errors.len(),
{
    if errors.len() == 0 {
        seq![]
    } else if keep_error_row(errors.last(), analyses, code) {
        seq![joined_record(errors.last(), analyses)] + rev_join(errors.drop_last(), analyses, code)
    } else {
        rev_join(errors.drop_last(), analyses, code)
    }
}

pub open spec fn cap_int(n: int, m: int) -> int {
    if n <= m {
        n
    } else {
        m
    }
}

/// The limit that applies: the caller's, or ten.
pub open spec fn eff_limit(limit: Option<usize>) -> int {
    match limit {
        Some(l) => l as int,
        None => 10,
    }
}

/// The history answer: matching errors joined with their tool, newest
/// first, capped at the limit.
pub open spec fn history_spec(
    errors: Seq<ErrorRowV>,
    analyses: Seq<AnalysisRowV>,
    code: Option<Seq<char>>,
    limit: Option<usize>,
) -> Seq<ErrorRecordV> {
    rev_join(errors, analyses, code).take(
        cap_int(eff_limit(limit), rev_join(errors, analyses, code).len() as int),
    )
}

/// The todos answer: newest first, open ones only unless completed ones
/// are asked for.
pub open spec fn rev_todos(s: Seq<TodoRecordV>, show_completed: bool) -> Seq<TodoRecordV>
    decreases s.len(),
{
    if s.len() == 0 {
        seq![]
    } else if show_completed || !s.last().completed {
        seq![s.last()] + rev_todos(s.drop_last(), show_completed)
    } else {
        rev_todos(s.drop_last(), show_completed)
    }
}

/// How many todos stand open.
pub open spec fn count_open(s: Seq<TodoRecordV>) -> int
    decreases s.len(),
{
    if s.len() == 0 {
        0
    } else {
        count_open(s.drop_last()) + if s.last().completed {
            0int
        } else {
            1int
        }
    }
}

/// How many todos are completed.
pub open spec fn count_done(s: Seq<TodoRecordV>) -> int
    decreases s.len(),
{
    if s.len() == 0 {
        0
    } else {
        count_done(s.drop_last()) + if s.last().completed {
            1int
        } else {
            0int
        }
    }
}

/// Every error row points at an analysis that exists.
pub open spec fn ref_integrity_of(analyses: Seq<AnalysisRowV>, errors: Seq<ErrorRowV>) -> bool {
    forall|k: int| 0 <= k < errors.len() ==> has_analysis(analyses, #[trigger] errors[k].analysis_id)
}

/// The append-only record store: analyses, their derived errors, and
/// todos, in one SQLite database.
pub struct Database {
    conn: rusqlite::Connection,
}

impl Database {
    /// The analyses on record, oldest first.
    pub closed spec fn analyses(&self) -> Seq<AnalysisRowV> {
        db_analyses(self.conn)
    }

    /// The errors on record, oldest first.
    pub closed spec fn errors(&self) -> Seq<ErrorRowV> {
        db_errors(self.conn)
    }

    /// The todos on record, oldest first.
    pub closed spec fn todos(&self) -> Seq<TodoRecordV> {
        db_todos(self.conn)
    }

    /// The schema objects are in place.
    pub closed spec fn schema_ok(&self) -> bool {
        db_schema_ready(self.conn)
    }

    /// Every error on record points at an analysis on record.
    pub open spec fn ref_integrity(&self) -> bool {
        ref_integrity_of(self.analyses(), self.errors())
    }

    /// Open the store behind `mode`: no store at all when persistence is
    /// disabled, else the database file with its schema made ready.
    pub fn new(mode: PersistenceMode) -> (r: Result<Option<Database>, ToolError>)
        ensures
            mode is Disabled ==> (r matches Ok(o) && o is None),
            mode is Path ==> (r matches Ok(o) ==> o is Some),
            r matches Ok(o) ==> (o matches Some(db) ==> db.schema_ok()),
            r matches Err(e) ==> e is StorageError,
    {
        match mode {
            PersistenceMode::Disabled => Ok(None),
            PersistenceMode::Path(path) => {
                match open_connection(path.as_str()) {
                    Ok(conn) => {
                        let mut db = Database { conn };
                        match db.init_schema() {
                            Ok(()) => Ok(Some(db)),
                            Err(e) => Err(e),
                        }
                    },
                    Err(_) => Err(ToolError::StorageError),
                }
            },
        }
    }

    /// Create the schema objects. Tables already present are left exactly
    /// as they are: running this twice changes nothing the second time,
    /// and no run ever drops a row.
    pub fn init_schema(&mut self) -> (r: Result<(), ToolError>)
        ensures
            r is Ok ==> final(self).schema_ok(),
            old(self).schema_ok() ==> final(self).schema_ok(),
            final(self).analyses() == old(self).analyses(),
            final(self).errors() == old(self).errors(),
            final(self).todos() == old(self).todos(),
            r matches Err(e) ==> e is StorageError,
    {
        match create_schema_objects(&mut self.conn) {
            Ok(()) => Ok(()),
            Err(_) => Err(ToolError::StorageError),
        }
    }

    /// Record one analysis. The new row goes at the end and its identifier
    /// stands above every one handed out before; nothing else moves.
    pub fn store_analysis(
        &mut self,
        tool: &str,
        full_output: &str,
        success: bool,
        file_path: Option<&str>,
    ) -> (r: Result<i64, ToolError>)
        ensures
            r matches Ok(id) ==> final(self).analyses().len() == old(self).analyses().len() + 1
                && final(self).analyses().take(old(self).analyses().len() as int) == old(self).analyses() && analysis_row_matches(
                final(self).analyses().last(),
                id,
                tool@,
                full_output@,
                success,
                opt_ref_view(file_path),
            ) && (forall|k: int|
                0 <= k < old(self).analyses().len() ==> old(self).analyses()[k].id < id),
            r is Err ==> final(self).analyses() == old(self).analyses(),
            r matches Err(e) ==> e is StorageError,
            final(self).errors() == old(self).errors(),
            final(self).todos() == old(self).todos(),
            final(self).schema_ok() == old(self).schema_ok(),
            old(self).ref_integrity() ==> final(self).ref_integrity(),
    {
        let r = insert_analysis(&mut self.conn, tool, full_output, success, file_path);
        match r {
            Ok(id) => {
                proof {
                    if old(self).ref_integrity() {
                        let olda = old(self).analyses();
                        let newa = self.analyses();
                        assert forall|k: int| 0 <= k < self.errors().len() implies has_analysis(
                            newa,
                            #[trigger] self.errors()[k].analysis_id,
                        ) by {
                            let eid = self.errors()[k].analysis_id;
                            assert(has_analysis(olda, eid));
                            let j = choose|j: int| 0 <= j < olda.len() && #[trigger] olda[j].id
                                == eid;
                            assert(newa.take(olda.len() as int)[j] == newa[j]);
                            assert(newa[j].id == eid);
                        }
                    }
                }
                Ok(id)
            },
            Err(_) => Err(ToolError::StorageError),
        }
    }

    /// Record one diagnostic against an existing analysis. An identifier
    /// that names no analysis inserts nothing and is refused as a
    /// foreign-key violation; only a storage fault is ever reported
    /// otherwise.
    pub fn store_error(
        &mut self,
        analysis_id: i64,
        error_code: Option<&str>,
        message: &str,
        file: Option<&str>,
        line: Option<i32>,
        suggestion: Option<&str>,
    ) -> (r: Result<(), ToolError>)
        ensures
            r is Ok ==> has_analysis(old(self).analyses(), analysis_id),
            r matches Err(e) ==> final(self).errors() == old(self).errors() && (e
                is ForeignKeyViolation || e is StorageError),
            r matches Err(e) ==> (e is ForeignKeyViolation ==> !has_analysis(
                old(self).analyses(),
                analysis_id,
            )),
            !has_analysis(old(self).analyses(), analysis_id) ==> r is Err,
            has_analysis(old(self).analyses(), analysis_id) ==> (r matches Err(e) ==> e
                is StorageError),
            r is Ok ==> final(self).errors().len() == old(self).errors().len() + 1 && final(self).errors().take(old(self).errors().len() as int) == old(self).errors()
                && error_row_matches(
                final(self).errors().last(),
                analysis_id,
                opt_ref_view(error_code),
                message@,
                opt_ref_view(file),
                line,
                opt_ref_view(suggestion),
            ),
            final(self).analyses() == old(self).analyses(),
            final(self).todos() == old(self).todos(),
            final(self).schema_ok() == old(self).schema_ok(),
            old(self).ref_integrity() ==> final(self).ref_integrity(),
    {
        let rows = match select_analyses(&self.conn) {
            Ok(v) => v,
            Err(_) => {
                return Err(ToolError::StorageError);
            },
        };
        if !vec_has_analysis_id(&rows, analysis_id) {
            return Err(ToolError::ForeignKeyViolation);
        }
        let r = insert_error(
            &mut self.conn,
            analysis_id,
            error_code,
            message,
            file,
            line,
            suggestion,
        );
        match r {
            Ok(()) => {
                proof {
                    if old(self).ref_integrity() {
                        let olde = old(self).errors();
                        let newe = self.errors();
                        assert forall|k: int| 0 <= k < newe.len() implies has_analysis(
                            self.analyses(),
                            #[trigger] newe[k].analysis_id,
                        ) by {
                            if k < olde.len() {
                                assert(newe.take(olde.len() as int)[k] == newe[k]);
                                assert(olde[k] == newe[k]);
                            } else {
                                assert(newe[k] == newe.last());
                            }
                        }
                    }
                }
                Ok(())
            },
            Err(_) => Err(ToolError::StorageError),
        }
    }

    /// Record one reminder; it starts out open and nothing else moves.
    pub fn store_todo(
        &mut self,
        source: &str,
        description: &str,
        file_path: Option<&str>,
        line_number: Option<i32>,
    ) -> (r: Result<(), ToolError>)
        ensures
            r is Ok ==> final(self).todos().len() == old(self).todos().len() + 1 && final(self).todos().take(old(self).todos().len() as int) == old(self).todos()
                && todo_row_matches(
                final(self).todos().last(),
                source@,
                description@,
                opt_ref_view(file_path),
                line_number,
            ),
            r is Err ==> final(self).todos() == old(self).todos(),
            r matches Err(e) ==> e is StorageError,
            final(self).analyses() == old(self).analyses(),
            final(self).errors() == old(self).errors(),
            final(self).schema_ok() == old(self).schema_ok(),
            old(self).ref_integrity() ==> final(self).ref_integrity(),
    {
        match insert_todo(&mut self.conn, source, description, file_path, line_number) {
            Ok(()) => Ok(()),
            Err(_) => Err(ToolError::StorageError),
        }
    }

    /// Answer the history query: stored errors joined with the tool that
    /// produced them, newest first, optionally filtered to one code, at
    /// most `limit` of them (ten when none is given).
    pub fn get_error_history(&self, error_code: Option<&str>, limit: Option<usize>) -> (r: Result<
        Vec<ErrorRecord>,
        ToolError,
    >)
        ensures
            r matches Ok(v) ==> v.deep_view() == history_spec(
                self.errors(),
                self.analyses(),
                opt_ref_view(error_code),
                limit,
            ),
            r matches Err(e) ==> e is StorageError,
    {
        let analyses = match select_analyses(&self.conn) {
            Ok(v) => v,
            Err(_) => {
                return Err(ToolError::StorageError);
            },
        };
        let mut errors = match select_errors(&self.conn) {
            Ok(v) => v,
            Err(_) => {
                return Err(ToolError::StorageError);
            },
        };
        let ghost cv = opt_ref_view(error_code);
        let ghost av = self.analyses();
        let mut out: Vec<ErrorRecord> = Vec::new();
        proof {
            assert(out.deep_view() =~= Seq::<ErrorRecordV>::empty());
            assert(Seq::<ErrorRecordV>::empty() + rev_join(errors.deep_view(), av, cv) =~= rev_join(
                errors.deep_view(),
                av,
                cv,
            ));
        }
        loop
            invariant
                av == self.analyses(),
                cv == opt_ref_view(error_code),
                analyses.deep_view() == av,
                rev_join(self.errors(), av, cv) == out.deep_view() + rev_join(
                    errors.deep_view(),
                    av,
                    cv,
                ),
            ensures
                errors@.len() == 0,
            decreases errors@.len(),
        {
            let ghost before = errors.deep_view();
            let ghost prev = out.deep_view();
            match errors.pop() {
                None => {
                    break ;
                },
                Some(row) => {
                    proof {
                        assert(errors.deep_view() =~= before.drop_last());
                        assert(row.deep_view() == before.last());
                    }
                    let codeok = match (error_code, &row.error_code) {
                        (None, _) => true,
                        (Some(c), Some(rc)) => str_eq(c, rc.as_str()),
                        (Some(_), None) => false,
                    };
                    proof {
                        assert(codeok == code_matches(before.last(), cv));
                    }
                    if codeok {
                        match tool_for(&analyses, row.analysis_id) {
                            Some(t) => {
                                let rec = ErrorRecord {
                                    id: row.id,
                                    error_code: row.error_code,
                                    message: row.message,
                                    file: row.file,
                                    line: row.line,
                                    suggestion: row.suggestion,
                                    timestamp: row.timestamp,
                                    tool: t,
                                };
                                proof {
                                    assert(keep_error_row(before.last(), av, cv));
                                    assert(rec.deep_view() == joined_record(before.last(), av));
                                }
                                out.push(rec);
                                proof {
                                    assert(rev_join(before, av, cv) == seq![
                                        joined_record(before.last(), av),
                                    ] + rev_join(before.drop_last(), av, cv));
                                    assert(out.deep_view() =~= prev + seq![rec.deep_view()]);
                                    assert((prev + seq![rec.deep_view()]) + rev_join(
                                        before.drop_last(),
                                        av,
                                        cv,
                                    ) =~= prev + (seq![rec.deep_view()] + rev_join(
                                        before.drop_last(),
                                        av,
                                        cv,
                                    )));
                                }
                            },
                            None => {
                                proof {
                                    assert(!keep_error_row(before.last(), av, cv));
                                    assert(rev_join(before, av, cv) == rev_join(
                                        before.drop_last(),
                                        av,
                                        cv,
                                    ));
                                }
                            },
                        }
                    } else {
                        proof {
                            assert(!keep_error_row(before.last(), av, cv));
                            assert(rev_join(before, av, cv) == rev_join(
                                before.drop_last(),
                                av,
                                cv,
                            ));
                        }
                    }
                },
            }
        }
        proof {
            assert(errors.deep_view() =~= Seq::<ErrorRowV>::empty());
            assert(rev_join(Seq::<ErrorRowV>::empty(), av, cv) =~= Seq::<ErrorRecordV>::empty());
            assert(out.deep_view() + Seq::<ErrorRecordV>::empty() =~= out.deep_view());
            assert(out.deep_view() == rev_join(self.errors(), av, cv));
        }
        let lim: usize = match limit {
            Some(l) => l,
            None => 10,
        };
        let ghost whole = out.deep_view();
        out.truncate(lim);
        proof {
            let rj = rev_join(self.errors(), av, cv);
            if lim as int <= rj.len() {
                assert(out.deep_view() =~= rj.take(lim as int));
            } else {
                assert(out.deep_view() =~= whole);
                assert(rj.take(cap_int(eff_limit(limit), rj.len() as int)) =~= rj);
            }
        }
        Ok(out)
    }

    /// Answer the todo query: reminders newest first, open ones only
    /// unless completed ones are asked for.
    pub fn get_todos(&self, show_completed: bool) -> (r: Result<Vec<TodoRecord>, ToolError>)
        ensures
            r matches Ok(v) ==> v.deep_view() == rev_todos(self.todos(), show_completed),
            r matches Err(e) ==> e is StorageError,
    {
        let mut todos = match select_todos(&self.conn) {
            Ok(v) => v,
            Err(_) => {
                return Err(ToolError::StorageError);
            },
        };
        let mut out: Vec<TodoRecord> = Vec::new();
        proof {
            assert(out.deep_view() =~= Seq::<TodoRecordV>::empty());
            assert(Seq::<TodoRecordV>::empty() + rev_todos(todos.deep_view(), show_completed)
                =~= rev_todos(todos.deep_view(), show_completed));
        }
        loop
            invariant
                rev_todos(self.todos(), show_completed) == out.deep_view() + rev_todos(
                    todos.deep_view(),
                    show_completed,
                ),
            ensures
                todos@.len() == 0,
            decreases todos@.len(),
        {
            let ghost before = todos.deep_view();
            let ghost prev = out.deep_view();
            match todos.pop() {
                None => {
                    break ;
                },
                Some(row) => {
                    proof {
                        assert(todos.deep_view() =~= before.drop_last());
                        assert(row.deep_view() == before.last());
                    }
                    if show_completed || !row.completed {
                        proof {
                            assert(rev_todos(before, show_completed) == seq![before.last()]
                                + rev_todos(before.drop_last(), show_completed));
                        }
                        out.push(row);
                        proof {
                            assert(out.deep_view() =~= prev + seq![before.last()]);
                            assert((prev + seq![before.last()]) + rev_todos(
                                before.drop_last(),
                                show_completed,
                            ) =~= prev + (seq![before.last()] + rev_todos(
                                before.drop_last(),
                                show_completed,
                            )));
                        }
                    } else {
                        proof {
                            assert(rev_todos(before, show_completed) == rev_todos(
                                before.drop_last(),
                                show_completed,
                            ));
                        }
                    }
                },
            }
        }
        proof {
            assert(todos.deep_view() =~= Seq::<TodoRecordV>::empty());
            assert(rev_todos(Seq::<TodoRecordV>::empty(), show_completed) =~= Seq::<
                TodoRecordV,
            >::empty());
            assert(out.deep_view() + Seq::<TodoRecordV>::empty() =~= out.deep_view());
        }
        Ok(out)
    }

    /// The four aggregate counts, computed from what is on record.
    pub fn get_stats(&self) -> (r: Result<DatabaseStats, ToolError>)
        ensures
            r matches Ok(s) ==> s.total_analyses == self.analyses().len() && s.total_errors
                == self.errors().len() && s.active_todos == count_open(self.todos())
                && s.completed_todos == count_done(self.todos()),
            r matches Err(e) ==> e is StorageError,
    {
        let analyses = match select_analyses(&self.conn) {
            Ok(v) => v,
            Err(_) => {
                return Err(ToolError::StorageError);
            },
        };
        let errors = match select_errors(&self.conn) {
            Ok(v) => v,
            Err(_) => {
                return Err(ToolError::StorageError);
            },
        };
        let todos = match select_todos(&self.conn) {
            Ok(v) => v,
            Err(_) => {
                return Err(ToolError::StorageError);
            },
        };
        let n = todos.len();
        let mut open_count: usize = 0;
        let mut done_count: usize = 0;
        let mut i: usize = 0;
        proof {
            assert(todos.deep_view().take(0) =~= Seq::<TodoRecordV>::empty());
        }
        while i < n
            invariant
                i <= n,
                n == todos@.len(),
                todos.deep_view() == self.todos(),
                open_count + done_count == i,
                open_count == count_open(todos.deep_view().take(i as int)),
                done_count == count_done(todos.deep_view().take(i as int)),
            decreases n - i,
        {
            let ghost tv = todos.deep_view();
            proof {
                assert(tv.take(i + 1).drop_last() =~= tv.take(i as int));
                assert(tv.take(i + 1).last() == tv[i as int]);
                assert(tv[i as int] == todos@[i as int].deep_view());
            }
            if todos[i].completed {
                done_count += 1;
            } else {
                open_count += 1;
            }
            i += 1;
        }
        proof {
            assert(todos.deep_view().take(n as int) =~= todos.deep_view());
        }
        Ok(
            DatabaseStats {
                total_analyses: analyses.len(),
                total_errors: errors.len(),
                active_todos: open_count,
                completed_todos: done_count,
            },
        )
    }

    /// Keep only the newest `keep_analyses` analyses; the errors of the
    /// dropped ones go with them, and todos are never touched.
    pub fn cleanup_old_data(&mut self, keep_analyses: usize) -> (r: Result<(), ToolError>)
        ensures
            r is Ok && keep_analyses >= old(self).analyses().len() ==> final(self).analyses()
                == old(self).analyses() && final(self).errors() == old(self).errors(),
            r is Ok && keep_analyses == 0 && old(self).analyses().len() > 0 ==> final(self).analyses() == Seq::<AnalysisRowV>::empty() && final(self).errors() == Seq::<
                ErrorRowV,
            >::empty(),
            r is Ok && 0 < keep_analyses < old(self).analyses().len() ==> final(self).analyses()
                == analyses_at_or_above(
                old(self).analyses(),
                trim_cutoff(old(self).analyses(), keep_analyses as int),
            ) && final(self).errors() == errors_at_or_above(
                old(self).errors(),
                trim_cutoff(old(self).analyses(), keep_analyses as int),
            ),
            r is Err ==> final(self).analyses() == old(self).analyses(),
            r is Err ==> final(self).errors() == old(self).errors() || (keep_analyses == 0 && old(self).analyses().len() > 0 && final(self).errors() == Seq::<ErrorRowV>::empty()) || (0
                < keep_analyses < old(self).analyses().len() && final(self).errors()
                == errors_at_or_above(
                old(self).errors(),
                trim_cutoff(old(self).analyses(), keep_analyses as int),
            )),
            final(self).todos() == old(self).todos(),
            final(self).schema_ok() == old(self).schema_ok(),
            r matches Err(e) ==> e is StorageError,
            old(self).ref_integrity() ==> final(self).ref_integrity(),
    {
        let rows = match select_analyses(&self.conn) {
            Ok(v) => v,
            Err(_) => {
                return Err(ToolError::StorageError);
            },
        };
        let n = rows.len();
        if keep_analyses >= n {
            return Ok(());
        }
        if keep_analyses == 0 {
            match delete_all_errors(&mut self.conn) {
                Ok(()) => {},
                Err(_) => {
                    return Err(ToolError::StorageError);
                },
            }
            match delete_all_analyses(&mut self.conn) {
                Ok(()) => {},
                Err(_) => {
                    return Err(ToolError::StorageError);
                },
            }
            return Ok(());
        }
        let cutoff = rows[n - keep_analyses].id;
        proof {
            assert(rows.deep_view()[n - keep_analyses] == rows@[n - keep_analyses].deep_view());
            assert(cutoff == trim_cutoff(old(self).analyses(), keep_analyses as int));
        }
        match delete_errors_below(&mut self.conn, cutoff) {
            Ok(()) => {},
            Err(_) => {
                return Err(ToolError::StorageError);
            },
        }
        match delete_analyses_below(&mut self.conn, cutoff) {
            Ok(()) => {},
            Err(_) => {
                proof {
                    lemma_trimmed_integrity_same_analyses(
                        old(self).analyses(),
                        old(self).errors(),
                        cutoff,
                    );
                }
                return Err(ToolError::StorageError);
            },
        }
        proof {
            if old(self).ref_integrity() {
                lemma_trimmed_integrity(old(self).analyses(), old(self).errors(), cutoff);
            }
        }
        Ok(())
    }

    /// Mark one reminder completed; an id that names no reminder changes
    /// nothing and is no error.
    pub fn mark_todo_completed(&mut self, todo_id: i64) -> (r: Result<(), ToolError>)
        ensures
            r is Ok ==> final(self).todos() == todos_marked(old(self).todos(), todo_id),
            r is Err ==> final(self).todos() == old(self).todos(),
            r matches Err(e) ==> e is StorageError,
            final(self).analyses() == old(self).analyses(),
            final(self).errors() == old(self).errors(),
            final(self).schema_ok() == old(self).schema_ok(),
            old(self).ref_integrity() ==> final(self).ref_integrity(),
    {
        match update_todo_completed(&mut self.conn, todo_id) {
            Ok(()) => Ok(()),
            Err(_) => Err(ToolError::StorageError),
        }
    }
}

/// The id of the oldest analysis that a trim to `keep` newest would keep.
pub open spec fn trim_cutoff(analyses: Seq<AnalysisRowV>, keep: int) -> i64 {
    analyses[analyses.len() - keep].id
}

/// The tool name of the first stored analysis carrying this id, if any.
fn tool_for(rows: &Vec<AnalysisRow>, id: i64) -> (r: Option<String>)
    ensures
        (r is Some) == has_analysis(rows.deep_view(), id),
        r matches Some(t) ==> t@ == tool_of(rows.deep_view(), id),
{
    let ghost dv = rows.deep_view();
    let n = rows.len();
    let mut i: usize = 0;
    proof {
        assert(dv.skip(0) =~= dv);
    }
    while i < n
        invariant
            i <= n,
            n == rows@.len(),
            dv == rows.deep_view(),
            forall|k: int| 0 <= k < i ==> #[trigger] dv[k].id != id,
            tool_of(dv, id) == tool_of(dv.skip(i as int), id),
        decreases n - i,
    {
        proof {
            assert(dv.skip(i as int).first() == dv[i as int]);
            assert(dv[i as int] == rows@[i as int].deep_view());
        }
        if rows[i].id == id {
            proof {
                assert(tool_of(dv.skip(i as int), id) == dv[i as int].tool);
                assert(dv[i as int].id == id);
            }
            return Some(rows[i].tool.clone());
        }
        proof {
            assert(dv.skip(i as int).drop_first() =~= dv.skip(i + 1));
            assert(tool_of(dv.skip(i as int), id) == tool_of(dv.skip(i + 1), id));
        }
        i += 1;
    }
    proof {
        assert(!has_analysis(dv, id));
    }
    None
}

/// Every row the error trim keeps was on record before, and points at or
/// above the cutoff.
proof fn lemma_errors_kept(s: Seq<ErrorRowV>, cutoff: i64)
    ensures
        forall|k: int|
            0 <= k < errors_at_or_above(s, cutoff).len() ==> s.contains(
                #[trigger] errors_at_or_above(s, cutoff)[k],
            ) && errors_at_or_above(s, cutoff)[k].analysis_id >= cutoff,
    decreases s.len(),
{
    if s.len() > 0 {
        lemma_errors_kept(s.drop_last(), cutoff);
        let sub = errors_at_or_above(s.drop_last(), cutoff);
        let whole = errors_at_or_above(s, cutoff);
        assert forall|k: int| 0 <= k < whole.len() implies s.contains(#[trigger] whole[k])
            && whole[k].analysis_id >= cutoff by {
            if s.last().analysis_id >= cutoff && k == whole.len() - 1 {
                assert(whole[k] == s.last());
                assert(s[s.len() - 1] == s.last());
            } else {
                assert(whole[k] == sub[k]);
                assert(s.drop_last().contains(sub[k]));
                let j = choose|j: int| 0 <= j < s.drop_last().len() && s.drop_last()[j] == sub[k];
                assert(s[j] == sub[k]);
            }
        }
    }
}

/// An analysis at or above the cutoff survives the analysis trim.
proof fn lemma_analyses_kept_contains(s: Seq<AnalysisRowV>, cutoff: i64, j: int)
    requires
        0 <= j < s.len(),
        s[j].id >= cutoff,
    ensures
        has_analysis(analyses_at_or_above(s, cutoff), s[j].id),
    decreases s.len(),
{
    let whole = analyses_at_or_above(s, cutoff);
    if j == s.len() - 1 {
        assert(whole[whole.len() - 1].id == s[j].id);
    } else {
        assert(s.drop_last()[j] == s[j]);
        lemma_analyses_kept_contains(s.drop_last(), cutoff, j);
        let sub = analyses_at_or_above(s.drop_last(), cutoff);
        let w = choose|w: int| 0 <= w < sub.len() && #[trigger] sub[w].id == s[j].id;
        assert(whole[w] == sub[w]);
        assert(whole[w].id == s[j].id);
    }
}

/// A trim of the errors alone keeps referential integrity: what stays
/// pointed at an analysis before and still does.
proof fn lemma_trimmed_integrity_same_analyses(
    analyses: Seq<AnalysisRowV>,
    errors: Seq<ErrorRowV>,
    cutoff: i64,
)
    ensures
        ref_integrity_of(analyses, errors) ==> ref_integrity_of(
            analyses,
            errors_at_or_above(errors, cutoff),
        ),
{
    if ref_integrity_of(analyses, errors) {
        lemma_errors_kept(errors, cutoff);
        let kept = errors_at_or_above(errors, cutoff);
        assert forall|k: int| 0 <= k < kept.len() implies has_analysis(
            analyses,
            #[trigger] kept[k].analysis_id,
        ) by {
            assert(errors.contains(kept[k]));
            let j = choose|j: int| 0 <= j < errors.len() && errors[j] == kept[k];
            assert(has_analysis(analyses, errors[j].analysis_id));
        }
    }
}

/// A full trim keeps referential integrity: every surviving error points
/// at or above the cutoff, and its analysis survives with it.
proof fn lemma_trimmed_integrity(
    analyses: Seq<AnalysisRowV>,
    errors: Seq<ErrorRowV>,
    cutoff: i64,
)
    requires
        ref_integrity_of(analyses, errors),
    ensures
        ref_integrity_of(
            analyses_at_or_above(analyses, cutoff),
            errors_at_or_above(errors, cutoff),
        ),
{
    lemma_errors_kept(errors, cutoff);
    let kept = errors_at_or_above(errors, cutoff);
    assert forall|k: int| 0 <= k < kept.len() implies has_analysis(
        analyses_at_or_above(analyses, cutoff),
        #[trigger] kept[k].analysis_id,
    ) by {
        assert(errors.contains(kept[k]));
        let j = choose|j: int| 0 <= j < errors.len() && errors[j] == kept[k];
        assert(has_analysis(analyses, errors[j].analysis_id));
        let p = choose|p: int|
            0 <= p < analyses.len() && #[trigger] analyses[p].id == errors[j].analysis_id;
        lemma_analyses_kept_contains(analyses, cutoff, p);
    }
}

/// Whether some row of `rows` carries this analysis id.
fn vec_has_analysis_id(rows: &Vec<AnalysisRow>, id: i64) -> (r: bool)
    ensures
        r == has_analysis(rows.deep_view(), id),
{
    let n = rows.len();
    let mut i: usize = 0;
    while i < n
        invariant
            i <= n,
            n == rows@.len(),
            forall|k: int| 0 <= k < i ==> #[trigger] rows.deep_view()[k].id != id,
        decreases n - i,
    {
        if rows[i].id == id {
            proof {
                assert(rows.deep_view()[i as int].id == id);
            }
            return true;
        }
        i += 1;
    }
    false
}

} // verus!
