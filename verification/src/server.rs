use vstd::prelude::*;
use crate::PersistenceMode;
use crate::ToolError;
use crate::extract::DiagView;
use crate::extract::TodoItemView;
use crate::extract::diagnostics_spec;
use crate::extract::clippy_todos_spec;
use crate::extract::extract_diagnostics;
use crate::extract::extract_clippy_todos;
use crate::runner::ExecResult;
use crate::runner::exec_result_json;
use crate::runner::exec_result_json_spec;
use crate::store::AnalysisRowV;
use crate::store::Database;
use crate::store::ErrorRowV;
use crate::store::TodoRecordV;
use crate::store::analysis_row_matches;
use crate::store::error_row_matches;
use crate::store::todo_row_matches;
use crate::store::has_analysis;
use crate::text::find_from;
use crate::text::trim_spec;
use crate::text::contains_sub;
use crate::text::trim_str;
use crate::text::str_eq;
use vstd::string::StrSliceExecFns;

verus! {

/// How the persistence side of one call went. It stands beside the tool
/// result, never in place of it.
#[derive(Debug)]
pub enum PersistOutcome {
    /// The caller did not ask for persistence.
    NotRequested,
    /// The analysis and its derived records are on record.
    Stored,
    /// Persistence was asked for, but no store is available.
    Unavailable,
    /// The store is there but writing to it failed.
    Failed,
}

/// The reply for one execution call: the tool's status, the success flag,
/// the JSON payload, and the persistence side-condition.
#[derive(Debug)]
pub struct ToolReply {
    pub status: i32,
    pub success: bool,
    pub payload_json: String,
    pub persistence: PersistOutcome,
}

/// A stored error row carries exactly the fields of this diagnostic,
/// against this analysis.
pub open spec fn row_is_diag(row: ErrorRowV, analysis_id: i64, d: DiagView) -> bool {
    error_row_matches(row, analysis_id, d.code, d.message, d.file, d.line, d.suggestion)
}

/// A stored todo row carries exactly the fields of this reminder.
pub open spec fn row_is_todo(row: TodoRecordV, t: TodoItemView) -> bool {
    todo_row_matches(row, t.source, t.description, None, None)
}

/// What any attempt at the recording pass leaves behind, fault or not:
/// every old row stays put; at most the one pinned analysis row is added;
/// whatever error and todo rows were added are the front rows of the
/// pass, in pass order, against the new analysis; and only the lint tool
/// ever adds todos.
pub open spec fn partial_pass_effect(
    a0: Seq<AnalysisRowV>,
    a1: Seq<AnalysisRowV>,
    e0: Seq<ErrorRowV>,
    e1: Seq<ErrorRowV>,
    t0: Seq<TodoRecordV>,
    t1: Seq<TodoRecordV>,
    tool: Seq<char>,
    payload: Seq<char>,
    success: bool,
    ds: Seq<DiagView>,
    ts: Seq<TodoItemView>,
) -> bool {
    &&& (a1 == a0 || (a1.len() == a0.len() + 1 && a1.take(a0.len() as int) == a0
        && analysis_row_matches(a1.last(), a1.last().id, tool, payload, success, None)))
    &&& e0.len() <= e1.len() <= e0.len() + ds.len()
    &&& e1.take(e0.len() as int) == e0
    &&& (forall|k: int|
        e0.len() <= k < e1.len() ==> row_is_diag(#[trigger] e1[k], a1.last().id, ds[k - e0.len()]))
    &&& t0.len() <= t1.len() <= t0.len() + ts.len()
    &&& t1.take(t0.len() as int) == t0
    &&& (forall|k: int|
        t0.len() <= k < t1.len() ==> row_is_todo(#[trigger] t1[k], ts[k - t0.len()]))
    &&& (tool != "cargo_clippy"@ ==> t1 == t0)
}

/// A pass that touched nothing meets the partial-effect bound.
proof fn lemma_unchanged_pass_effect(
    a: Seq<AnalysisRowV>,
    e: Seq<ErrorRowV>,
    t: Seq<TodoRecordV>,
    tool: Seq<char>,
    payload: Seq<char>,
    success: bool,
    ds: Seq<DiagView>,
    ts: Seq<TodoItemView>,
)
    ensures
        partial_pass_effect(a, a, e, e, t, t, tool, payload, success, ds, ts),
{
    assert(e.take(e.len() as int) =~= e);
    assert(t.take(t.len() as int) =~= t);
}

/// Record one finished execution in the store: the analysis itself (its
/// payload being the JSON reply), then one error row per diagnostic drawn
/// from its stderr, and, for the lint tool, one todo per lint reminder.
fn record_execution(db: &mut Database, tool: &str, result: &ExecResult) -> (r: Result<
    (),
    ToolError,
>)
    ensures
        r matches Err(e) ==> e is StorageError,
        r is Ok ==> final(db).analyses().len() == old(db).analyses().len() + 1 && final(db).analyses().take(old(db).analyses().len() as int) == old(db).analyses()
            && analysis_row_matches(
            final(db).analyses().last(),
            final(db).analyses().last().id,
            tool@,
            exec_result_json_spec(*result),
            result.status == 0,
            None,
        ),
        r is Ok ==> final(db).errors().len() == old(db).errors().len() + diagnostics_spec(
            result.stderr@,
        ).len() && final(db).errors().take(old(db).errors().len() as int) == old(db).errors() && (
        forall|k: int|
            0 <= k < diagnostics_spec(result.stderr@).len() ==> row_is_diag(
                #[trigger] final(db).errors()[old(db).errors().len() + k],
                final(db).analyses().last().id,
                diagnostics_spec(result.stderr@)[k],
            )),
        r is Ok && tool@ == "cargo_clippy"@ ==> final(db).todos().len() == old(db).todos().len()
            + clippy_todos_spec(result.stderr@).len() && final(db).todos().take(
            old(db).todos().len() as int,
        ) == old(db).todos() && (forall|k: int|
            0 <= k < clippy_todos_spec(result.stderr@).len() ==> row_is_todo(
                #[trigger] final(db).todos()[old(db).todos().len() + k],
                clippy_todos_spec(result.stderr@)[k],
            )),
        r is Ok && tool@ != "cargo_clippy"@ ==> final(db).todos() == old(db).todos(),
        partial_pass_effect(
            old(db).analyses(),
            final(db).analyses(),
            old(db).errors(),
            final(db).errors(),
            old(db).todos(),
            final(db).todos(),
            tool@,
            exec_result_json_spec(*result),
            result.status == 0,
            diagnostics_spec(result.stderr@),
            clippy_todos_spec(result.stderr@),
        ),
        old(db).ref_integrity() ==> final(db).ref_integrity(),
{
    let payload = exec_result_json(result);
    let is_clippy = str_eq(tool, "cargo_clippy");
    let analysis_id = match db.store_analysis(tool, payload.as_str(), result.status == 0, None) {
        Ok(id) => id,
        Err(_) => {
            proof {
                assert(db.errors().take(db.errors().len() as int) =~= db.errors());
                assert(db.todos().take(db.todos().len() as int) =~= db.todos());
            }
            return Err(ToolError::StorageError);
        },
    };
    let diags = extract_diagnostics(result.stderr.as_str());
    let ghost ds = diagnostics_spec(result.stderr@);
    let ghost e0 = db.errors();
    let ghost a1 = db.analyses();
    proof {
        assert(a1.last().id == analysis_id);
        assert(has_analysis(a1, analysis_id));
    }
    let n = diags.len();
    let mut i: usize = 0;
    while i < n
        invariant
            i <= n,
            n == diags@.len(),
            diags.deep_view() == ds,
            ds == diagnostics_spec(result.stderr@),
            db.analyses() == a1,
            db.todos() == old(db).todos(),
            e0 == old(db).errors(),
            a1.len() == old(db).analyses().len() + 1,
            a1.take(old(db).analyses().len() as int) == old(db).analyses(),
            analysis_row_matches(a1.last(), analysis_id, tool@, payload@, result.status == 0, None),
            payload@ == exec_result_json_spec(*result),
            a1.last().id == analysis_id,
            has_analysis(a1, analysis_id),
            db.errors().len() == e0.len() + i,
            db.errors().take(e0.len() as int) == e0,
            forall|k: int|
                0 <= k < i ==> row_is_diag(#[trigger] db.errors()[e0.len() + k], analysis_id, ds[k]),
            old(db).ref_integrity() ==> db.ref_integrity(),
        decreases n - i,
    {
        let ghost eprev = db.errors();
        let d = &diags[i];
        let r = db.store_error(
            analysis_id,
            match &d.code {
                Some(c) => Some(c.as_str()),
                None => None,
            },
            d.message.as_str(),
            match &d.file {
                Some(f) => Some(f.as_str()),
                None => None,
            },
            d.line,
            match &d.suggestion {
                Some(s) => Some(s.as_str()),
                None => None,
            },
        );
        match r {
            Ok(()) => {},
            Err(_) => {
                proof {
                    assert(db.todos().take(db.todos().len() as int) =~= db.todos());
                    assert forall|k: int|
                        old(db).errors().len() <= k < db.errors().len() implies row_is_diag(
                        #[trigger] db.errors()[k],
                        db.analyses().last().id,
                        diagnostics_spec(result.stderr@)[k - old(db).errors().len()],
                    ) by {
                        assert(row_is_diag(
                            db.errors()[e0.len() + (k - e0.len())],
                            analysis_id,
                            ds[k - e0.len()],
                        ));
                    }
                }
                return Err(ToolError::StorageError);
            },
        }
        proof {
            assert(diags@[i as int].deep_view() == ds[i as int]);
            assert(row_is_diag(db.errors().last(), analysis_id, ds[i as int]));
            assert(db.errors().take(e0.len() as int) =~= e0);
            assert forall|k: int| 0 <= k < i + 1 implies row_is_diag(
                #[trigger] db.errors()[e0.len() + k],
                analysis_id,
                ds[k],
            ) by {
                if k < i {
                    assert(db.errors().take(eprev.len() as int)[e0.len() + k] == db.errors()[e0.len()
                        + k]);
                    assert(eprev[e0.len() + k] == db.errors()[e0.len() + k]);
                } else {
                    assert(db.errors()[e0.len() + k] == db.errors().last());
                }
            }
        }
        i += 1;
    }
    if is_clippy {
        let todos = extract_clippy_todos(result.stderr.as_str());
        let ghost ts = clippy_todos_spec(result.stderr@);
        let ghost t0 = db.todos();
        let m = todos.len();
        let mut j: usize = 0;
        while j < m
            invariant
                j <= m,
                m == todos@.len(),
                todos.deep_view() == ts,
                ts == clippy_todos_spec(result.stderr@),
                ds == diagnostics_spec(result.stderr@),
                tool@ == "cargo_clippy"@,
                db.analyses() == a1,
                t0 == old(db).todos(),
                e0 == old(db).errors(),
                a1.len() == old(db).analyses().len() + 1,
                a1.take(old(db).analyses().len() as int) == old(db).analyses(),
                analysis_row_matches(
                    a1.last(),
                    analysis_id,
                    tool@,
                    payload@,
                    result.status == 0,
                    None,
                ),
                payload@ == exec_result_json_spec(*result),
                a1.last().id == analysis_id,
                db.errors().len() == e0.len() + ds.len(),
                db.errors().take(e0.len() as int) == e0,
                forall|k: int|
                    0 <= k < ds.len() ==> row_is_diag(
                        #[trigger] db.errors()[e0.len() + k],
                        analysis_id,
                        ds[k],
                    ),
                db.todos().len() == t0.len() + j,
                db.todos().take(t0.len() as int) == t0,
                forall|k: int|
                    0 <= k < j ==> row_is_todo(#[trigger] db.todos()[t0.len() + k], ts[k]),
                old(db).ref_integrity() ==> db.ref_integrity(),
            decreases m - j,
        {
            let ghost tprev = db.todos();
            let t = &todos[j];
            let r = db.store_todo(t.source.as_str(), t.description.as_str(), None, None);
            match r {
                Ok(()) => {},
                Err(_) => {
                    proof {
                        assert forall|k: int|
                            old(db).errors().len() <= k < db.errors().len() implies row_is_diag(
                            #[trigger] db.errors()[k],
                            db.analyses().last().id,
                            diagnostics_spec(result.stderr@)[k - old(db).errors().len()],
                        ) by {
                            assert(row_is_diag(
                                db.errors()[e0.len() + (k - e0.len())],
                                analysis_id,
                                ds[k - e0.len()],
                            ));
                        }
                        assert forall|k: int|
                            old(db).todos().len() <= k < db.todos().len() implies row_is_todo(
                            #[trigger] db.todos()[k],
                            clippy_todos_spec(result.stderr@)[k - old(db).todos().len()],
                        ) by {
                            assert(row_is_todo(
                                db.todos()[t0.len() + (k - t0.len())],
                                ts[k - t0.len()],
                            ));
                        }
                    }
                    return Err(ToolError::StorageError);
                },
            }
            proof {
                assert(todos@[j as int].deep_view() == ts[j as int]);
                assert(row_is_todo(db.todos().last(), ts[j as int]));
                assert(db.todos().take(t0.len() as int) =~= t0);
                assert forall|k: int| 0 <= k < j + 1 implies row_is_todo(
                    #[trigger] db.todos()[t0.len() + k],
                    ts[k],
                ) by {
                    if k < j {
                        assert(db.todos().take(tprev.len() as int)[t0.len() + k] == db.todos()[t0.len()
                            + k]);
                        assert(tprev[t0.len() + k] == db.todos()[t0.len() + k]);
                    } else {
                        assert(db.todos()[t0.len() + k] == db.todos().last());
                    }
                }
            }
            j += 1;
        }
        proof {
            assert forall|k: int|
                old(db).todos().len() <= k < db.todos().len() implies row_is_todo(
                #[trigger] db.todos()[k],
                clippy_todos_spec(result.stderr@)[k - old(db).todos().len()],
            ) by {
                assert(row_is_todo(db.todos()[t0.len() + (k - t0.len())], ts[k - t0.len()]));
            }
        }
    }
    proof {
        assert(db.todos().take(db.todos().len() as int) =~= db.todos());
        assert forall|k: int|
            old(db).errors().len() <= k < db.errors().len() implies row_is_diag(
            #[trigger] db.errors()[k],
            db.analyses().last().id,
            diagnostics_spec(result.stderr@)[k - old(db).errors().len()],
        ) by {
            assert(row_is_diag(
                db.errors()[e0.len() + (k - e0.len())],
                analysis_id,
                ds[k - e0.len()],
            ));
        }
    }
    Ok(())
}

/// The dispatcher core. The store is handed in at construction; its
/// absence is a value, not a scattered null check.
pub struct RustyToolsServer {
    pub db: Option<Database>,
}

impl RustyToolsServer {
    /// A store is attached.
    pub open spec fn has_store(&self) -> bool {
        self.db is Some
    }

    /// The analyses the attached store holds; empty without one.
    pub open spec fn store_analyses(&self) -> Seq<AnalysisRowV> {
        match self.db {
            Some(db) => db.analyses(),
            None => Seq::empty(),
        }
    }

    /// The errors the attached store holds; empty without one.
    pub open spec fn store_errors(&self) -> Seq<ErrorRowV> {
        match self.db {
            Some(db) => db.errors(),
            None => Seq::empty(),
        }
    }

    /// The todos the attached store holds; empty without one.
    pub open spec fn store_todos(&self) -> Seq<TodoRecordV> {
        match self.db {
            Some(db) => db.todos(),
            None => Seq::empty(),
        }
    }

    /// Every stored error points at a stored analysis.
    pub open spec fn store_ref_integrity(&self) -> bool {
        match self.db {
            Some(db) => db.ref_integrity(),
            None => true,
        }
    }

    /// Stand the server up. A store is attached only when the mode names a
    /// path and the store there opened with its schema made ready; a store
    /// that cannot be opened leaves persistence disabled, and never stops
    /// the server.
    pub fn new(mode: PersistenceMode) -> (r: RustyToolsServer)
        ensures
            mode is Disabled ==> !r.has_store(),
            r.has_store() ==> mode is Path,
            r.db matches Some(db) ==> db.schema_ok(),
    {
        match Database::new(mode) {
            Ok(Some(db)) => RustyToolsServer { db: Some(db) },
            _ => RustyToolsServer { db: None },
        }
    }

    /// Record one finished execution when asked to. Without a store this
    /// reports `PersistenceUnavailable` and changes nothing; it never
    /// touches the execution result.
    pub fn store_analysis_with_errors(
        &mut self,
        tool: &str,
        result: &ExecResult,
        persist: bool,
    ) -> (r: Result<(), ToolError>)
        ensures
            final(self).has_store() == old(self).has_store(),
            !persist ==> r is Ok && final(self).store_analyses() == old(self).store_analyses()
                && final(self).store_errors() == old(self).store_errors() && final(self).store_todos() == old(self).store_todos(),
            persist && !old(self).has_store() ==> (r matches Err(e) && e
                is PersistenceUnavailable) && final(self).store_analyses() == old(self).store_analyses() && final(self).store_errors() == old(self).store_errors() && final(self).store_todos() == old(self).store_todos(),
            old(self).has_store() ==> (r matches Err(e) ==> e is StorageError),
            r is Ok && persist ==> final(self).store_analyses().len() == old(self).store_analyses().len() + 1 && final(self).store_analyses().take(
                old(self).store_analyses().len() as int,
            ) == old(self).store_analyses() && analysis_row_matches(
                final(self).store_analyses().last(),
                final(self).store_analyses().last().id,
                tool@,
                exec_result_json_spec(*result),
                result.status == 0,
                None,
            ),
            r is Ok && persist ==> final(self).store_errors().len() == old(self).store_errors().len() + diagnostics_spec(result.stderr@).len() && final(self).store_errors().take(old(self).store_errors().len() as int) == old(self).store_errors() && (forall|k: int|
                0 <= k < diagnostics_spec(result.stderr@).len() ==> row_is_diag(
                    #[trigger] final(self).store_errors()[old(self).store_errors().len() + k],
                    final(self).store_analyses().last().id,
                    diagnostics_spec(result.stderr@)[k],
                )),
            r is Ok && persist && tool@ == "cargo_clippy"@ ==> final(self).store_todos().len()
                == old(self).store_todos().len() + clippy_todos_spec(result.stderr@).len() && final(self).store_todos().take(old(self).store_todos().len() as int) == old(self).store_todos()
                && (forall|k: int|
                0 <= k < clippy_todos_spec(result.stderr@).len() ==> row_is_todo(
                    #[trigger] final(self).store_todos()[old(self).store_todos().len() + k],
                    clippy_todos_spec(result.stderr@)[k],
                )),
            r is Ok && persist && tool@ != "cargo_clippy"@ ==> final(self).store_todos() == old(self).store_todos(),
            partial_pass_effect(
                old(self).store_analyses(),
                final(self).store_analyses(),
                old(self).store_errors(),
                final(self).store_errors(),
                old(self).store_todos(),
                final(self).store_todos(),
                tool@,
                exec_result_json_spec(*result),
                result.status == 0,
                diagnostics_spec(result.stderr@),
                clippy_todos_spec(result.stderr@),
            ),
            old(self).store_ref_integrity() ==> final(self).store_ref_integrity(),
    {
        if !persist {
            proof {
                lemma_unchanged_pass_effect(
                    self.store_analyses(),
                    self.store_errors(),
                    self.store_todos(),
                    tool@,
                    exec_result_json_spec(*result),
                    result.status == 0,
                    diagnostics_spec(result.stderr@),
                    clippy_todos_spec(result.stderr@),
                );
            }
            return Ok(());
        }
        match &mut self.db {
            None => {
                proof {
                    lemma_unchanged_pass_effect(
                        self.store_analyses(),
                        self.store_errors(),
                        self.store_todos(),
                        tool@,
                        exec_result_json_spec(*result),
                        result.status == 0,
                        diagnostics_spec(result.stderr@),
                        clippy_todos_spec(result.stderr@),
                    );
                }
                Err(ToolError::PersistenceUnavailable)
            },
            Some(db) => record_execution(db, tool, result),
        }
    }

    /// Shape the reply for one finished execution and, when asked, record
    /// it. The tool's own result always comes back untouched: whatever
    /// persistence does is reported beside it, never in place of it.
    pub fn finish_execution(&mut self, tool: &str, result: &ExecResult, persist: bool) -> (r:
        ToolReply)
        ensures
            r.status == result.status,
            r.success == (result.status == 0),
            r.payload_json@ == exec_result_json_spec(*result),
            (r.persistence is NotRequested) == !persist,
            persist && !old(self).has_store() ==> r.persistence is Unavailable,
            persist && old(self).has_store() ==> (r.persistence is Stored || r.persistence
                is Failed),
            final(self).has_store() == old(self).has_store(),
            partial_pass_effect(
                old(self).store_analyses(),
                final(self).store_analyses(),
                old(self).store_errors(),
                final(self).store_errors(),
                old(self).store_todos(),
                final(self).store_todos(),
                tool@,
                exec_result_json_spec(*result),
                result.status == 0,
                diagnostics_spec(result.stderr@),
                clippy_todos_spec(result.stderr@),
            ),
            old(self).store_ref_integrity() ==> final(self).store_ref_integrity(),
    {
        let payload = exec_result_json(result);
        let persistence = if !persist {
            proof {
                lemma_unchanged_pass_effect(
                    self.store_analyses(),
                    self.store_errors(),
                    self.store_todos(),
                    tool@,
                    exec_result_json_spec(*result),
                    result.status == 0,
                    diagnostics_spec(result.stderr@),
                    clippy_todos_spec(result.stderr@),
                );
            }
            PersistOutcome::NotRequested
        } else {
            match self.store_analysis_with_errors(tool, result, persist) {
                Ok(()) => PersistOutcome::Stored,
                Err(ToolError::PersistenceUnavailable) => PersistOutcome::Unavailable,
                Err(_) => PersistOutcome::Failed,
            }
        };
        ToolReply {
            status: result.status,
            success: result.status == 0,
            payload_json: payload,
            persistence,
        }
    }
}

/// Why source text was turned away at the door.
#[derive(Debug)]
pub enum ValidationError {
    /// Nothing but blanks.
    EmptyCode,
    /// The text holds the forbidden fragment at this position of the list.
    Banned(usize),
}

/// Turn source text away when it is blank or holds one of the forbidden
/// fragments; the first fragment found, in list order, names the refusal.
pub fn validate_rust_code(code: &str, banned: &Vec<String>) -> (r: Result<(), ValidationError>)
    ensures
        trim_spec(code@).len() == 0 ==> (r matches Err(e) && e is EmptyCode),
        trim_spec(code@).len() > 0 ==> ((r is Ok) == (forall|p: int|
            0 <= p < banned@.len() ==> find_from(code@, #[trigger] banned.deep_view()[p], 0)
                is None)),
        r matches Err(e) ==> (e matches ValidationError::Banned(i) ==> i < banned@.len()
            && find_from(code@, banned.deep_view()[i as int], 0) is Some && (forall|p: int|
            0 <= p < i ==> find_from(code@, #[trigger] banned.deep_view()[p], 0) is None)),
{
    let t = trim_str(code);
    if t.unicode_len() == 0 {
        return Err(ValidationError::EmptyCode);
    }
    let n = banned.len();
    let mut i: usize = 0;
    while i < n
        invariant
            i <= n,
            n == banned@.len(),
            trim_spec(code@).len() > 0,
            forall|p: int|
                0 <= p < i ==> find_from(code@, #[trigger] banned.deep_view()[p], 0) is None,
        decreases n - i,
    {
        if contains_sub(code, banned[i].as_str()) {
            proof {
                assert(banned.deep_view()[i as int] == banned@[i as int]@);
            }
            return Err(ValidationError::Banned(i));
        }
        proof {
            assert(banned.deep_view()[i as int] == banned@[i as int]@);
        }
        i += 1;
    }
    Ok(())
}

} // verus!
