use vstd::prelude::*;
use vstd::string::*;
use crate::ToolError;
use crate::json::append_bool;
use crate::json::append_dec_i64;
use crate::json::append_dec_u128;
use crate::json::append_json_string;
use crate::json::bool_str;
use crate::json::dec_int;
use crate::json::dec_nat;
use crate::json::json_string;
use crate::text::str_eq;

verus! {

/// What one tool invocation produced: both streams as best-effort text,
/// the exit status (or -1 for abnormal termination), and the wall-clock
/// duration in milliseconds.
#[derive(Debug)]
pub struct ExecResult {
    pub stdout: String,
    pub stderr: String,
    pub status: i32,
    pub duration_ms: u128,
}

/// How the wait for the child process ended: a normal exit with its status
/// code (`None` when the process was terminated by a signal), or the
/// deadline passed and the process was forcibly killed and reaped.
pub enum WaitOutcome {
    Exited(Option<i32>),
    TimedOut,
}

/// How draining one output stream to end-of-input ended.
pub enum DrainOutcome {
    Collected(Vec<u8>),
    Failed,
}

/// Name for what std's `String::from_utf8_lossy` returns: best-effort text
/// that depends on the bytes alone.
pub uninterp spec fn lossy_decode(bytes: Seq<u8>) -> Seq<char>;

/// Relies on String::from_utf8_lossy from std: decodes any bytes to text,
/// replacing invalid sequences, never failing; no bytes give no text.
#[verifier::external_body]
fn decode_lossy(bytes: &Vec<u8>) -> (r: String)
    ensures
        r@ == lossy_decode(bytes@),
        bytes@.len() == 0 ==> r@.len() == 0,
{
    String::from_utf8_lossy(bytes).to_string()
}

/// Exit status mapping: a normal exit keeps its code, abnormal termination
/// becomes the sentinel -1.
pub open spec fn exit_code_spec(code: Option<i32>) -> i32 {
    match code {
        Some(c) => c,
        None => -1i32,
    }
}

/// Assemble the outcome of one run, once the wait is over and both drains
/// are done. A timeout always yields `TimedOut` and discards the drains;
/// a failed drain fails the call; otherwise both streams are decoded as
/// best-effort text and the status is mapped.
pub fn finish_run(wait: WaitOutcome, out: DrainOutcome, err: DrainOutcome, duration_ms: u128) -> (r:
    Result<ExecResult, ToolError>)
    ensures
        (wait is TimedOut) == (r matches Err(e) && e is TimedOut),
        wait is Exited && (out is Failed || err is Failed) ==> (r matches Err(e)
            && e is DrainFailed),
        wait matches WaitOutcome::Exited(c) ==> (out matches DrainOutcome::Collected(ob) ==> (err
            matches DrainOutcome::Collected(eb) ==> (r matches Ok(res) && res.status
            == exit_code_spec(c) && res.stdout@ == lossy_decode(ob@) && res.stderr@
            == lossy_decode(eb@) && res.duration_ms == duration_ms))),
{
    match wait {
        WaitOutcome::TimedOut => Err(ToolError::TimedOut),
        WaitOutcome::Exited(code) => {
            match (out, err) {
                (DrainOutcome::Collected(ob), DrainOutcome::Collected(eb)) => {
                    let stdout = decode_lossy(&ob);
                    let stderr = decode_lossy(&eb);
                    let status: i32 = match code {
                        Some(c) => c,
                        None => -1,
                    };
                    Ok(ExecResult { stdout, stderr, status, duration_ms })
                },
                _ => Err(ToolError::DrainFailed),
            }
        },
    }
}

/// The reply payload for one execution, as one JSON object: status,
/// success flag (status zero), both streams, duration.
pub open spec fn exec_result_json_spec(r: ExecResult) -> Seq<char> {
    "{\"status\":"@ + dec_int(r.status as int) + ",\"success\":"@ + bool_str(r.status == 0)
        + ",\"stdout\":"@ + json_string(r.stdout@) + ",\"stderr\":"@ + json_string(r.stderr@)
        + ",\"duration_ms\":"@ + dec_nat(r.duration_ms as nat) + "}"@
}

/// Write the reply payload for one execution.
pub fn exec_result_json(r: &ExecResult) -> (s: String)
    ensures
        s@ == exec_result_json_spec(*r),
{
    let mut out = String::new();
    out.append("{\"status\":");
    append_dec_i64(&mut out, r.status as i64);
    out.append(",\"success\":");
    append_bool(&mut out, r.status == 0);
    out.append(",\"stdout\":");
    append_json_string(&mut out, r.stdout.as_str());
    out.append(",\"stderr\":");
    append_json_string(&mut out, r.stderr.as_str());
    out.append(",\"duration_ms\":");
    append_dec_u128(&mut out, r.duration_ms);
    out.append("}");
    proof {
        assert(out@ =~= exec_result_json_spec(*r));
    }
    out
}

/// How one named operation runs: the arguments handed to the toolchain
/// command, and the deadline in milliseconds, if one applies.
pub struct ToolPlan {
    pub args: Vec<String>,
    pub timeout_ms: Option<u64>,
}

/// The fixed catalog of workspace operations: for each operation name, the
/// toolchain arguments and the timeout.
pub open spec fn plan_spec(name: Seq<char>) -> Option<(Seq<Seq<char>>, Option<u64>)> {
    if name == "cargo_fmt"@ {
        Some((seq!["fmt"@, "--"@, "--emit=stdout"@], None))
    } else if name == "cargo_clippy"@ {
        Some((seq!["clippy"@, "--"@, "-D"@, "warnings"@], Some(30000u64)))
    } else if name == "cargo_check"@ {
        Some((seq!["check"@], Some(30000u64)))
    } else if name == "cargo_fix"@ {
        Some((seq!["fix"@, "--allow-dirty"@], Some(60000u64)))
    } else if name == "cargo_audit"@ {
        Some((seq!["audit"@], Some(60000u64)))
    } else if name == "cargo_test"@ {
        Some((seq!["test"@], Some(60000u64)))
    } else if name == "cargo_build"@ {
        Some((seq!["build"@], Some(60000u64)))
    } else if name == "cargo_tree"@ {
        Some((seq!["tree"@], Some(30000u64)))
    } else if name == "cargo_doc"@ {
        Some((seq!["doc"@], Some(60000u64)))
    } else if name == "rust_analyzer"@ {
        Some((seq!["check"@, "--message-format=json"@], Some(30000u64)))
    } else {
        None
    }
}

fn plan_of(args: Vec<String>, timeout_ms: Option<u64>) -> (r: ToolPlan)
    ensures
        r.args == args,
        r.timeout_ms == timeout_ms,
{
    ToolPlan { args, timeout_ms }
}

/// Look one operation name up in the catalog.
pub fn plan_invocation(name: &str) -> (r: Option<ToolPlan>)
    ensures
        (r is Some) == (plan_spec(name@) is Some),
        r matches Some(p) ==> plan_spec(name@) == Some((p.args.deep_view(), p.timeout_ms)),
{
    if str_eq(name, "cargo_fmt") {
        let mut v: Vec<String> = Vec::new();
        v.push("fmt".to_owned());
        v.push("--".to_owned());
        v.push("--emit=stdout".to_owned());
        proof {
            assert(v.deep_view() =~= seq!["fmt"@, "--"@, "--emit=stdout"@]);
        }
        Some(plan_of(v, None))
    } else if str_eq(name, "cargo_clippy") {
        let mut v: Vec<String> = Vec::new();
        v.push("clippy".to_owned());
        v.push("--".to_owned());
        v.push("-D".to_owned());
        v.push("warnings".to_owned());
        proof {
            assert(v.deep_view() =~= seq!["clippy"@, "--"@, "-D"@, "warnings"@]);
        }
        Some(plan_of(v, Some(30000u64)))
    } else if str_eq(name, "cargo_check") {
        let mut v: Vec<String> = Vec::new();
        v.push("check".to_owned());
        proof {
            assert(v.deep_view() =~= seq!["check"@]);
        }
        Some(plan_of(v, Some(30000u64)))
    } else if str_eq(name, "cargo_fix") {
        let mut v: Vec<String> = Vec::new();
        v.push("fix".to_owned());
        v.push("--allow-dirty".to_owned());
        proof {
            assert(v.deep_view() =~= seq!["fix"@, "--allow-dirty"@]);
        }
        Some(plan_of(v, Some(60000u64)))
    } else if str_eq(name, "cargo_audit") {
        let mut v: Vec<String> = Vec::new();
        v.push("audit".to_owned());
        proof {
            assert(v.deep_view() =~= seq!["audit"@]);
        }
        Some(plan_of(v, Some(60000u64)))
    } else if str_eq(name, "cargo_test") {
        let mut v: Vec<String> = Vec::new();
        v.push("test".to_owned());
        proof {
            assert(v.deep_view() =~= seq!["test"@]);
        }
        Some(plan_of(v, Some(60000u64)))
    } else if str_eq(name, "cargo_build") {
        let mut v: Vec<String> = Vec::new();
        v.push("build".to_owned());
        proof {
            assert(v.deep_view() =~= seq!["build"@]);
        }
        Some(plan_of(v, Some(60000u64)))
    } else if str_eq(name, "cargo_tree") {
        let mut v: Vec<String> = Vec::new();
        v.push("tree".to_owned());
        proof {
            assert(v.deep_view() =~= seq!["tree"@]);
        }
        Some(plan_of(v, Some(30000u64)))
    } else if str_eq(name, "cargo_doc") {
        let mut v: Vec<String> = Vec::new();
        v.push("doc".to_owned());
        proof {
            assert(v.deep_view() =~= seq!["doc"@]);
        }
        Some(plan_of(v, Some(60000u64)))
    } else if str_eq(name, "rust_analyzer") {
        let mut v: Vec<String> = Vec::new();
        v.push("check".to_owned());
        v.push("--message-format=json".to_owned());
        proof {
            assert(v.deep_view() =~= seq!["check"@, "--message-format=json"@]);
        }
        Some(plan_of(v, Some(30000u64)))
    } else {
        None
    }
}

} // verus!
