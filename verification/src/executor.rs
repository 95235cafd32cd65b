//! The request executor's decisions: admission, input validation, and what
//! one execution returns.
//!
//! The foreign calls of an execution — begin capture, register variables,
//! run, end capture — are the embedding host's to make, serialized under its
//! exclusive lock. Everything decidable from plain values is decided here:
//! whether a script path can be represented to the engine at all, and what
//! the captured bytes mean once the engine has reported success or failure.

use vstd::prelude::*;
use vstd::utf8::encode_utf8;
use crate::response::{parsed_from, PhpResponse};

verus! {

/// Why one execution failed. The runtime as a whole stays usable: every
/// variant is returned to the caller of that one request.
#[derive(Debug, Clone)]
pub enum ExecError {
    /// Execution was asked for outside the runtime's valid window: before
    /// initialization, after a failed start, or after shutdown.
    NotInitialized,
    /// The script path cannot be represented in the form the engine
    /// requires.
    InvalidScriptPath,
    /// The engine reported failure running a script file. Whatever output
    /// it still produced — often a diagnostic page — is kept, parsed, not
    /// discarded.
    ExecutionFailed { response: PhpResponse },
    /// The engine reported failure evaluating inline code; as above, its
    /// output is kept.
    EvalFailed { response: PhpResponse },
}

/// What one execution runs: a script file by path, or inline source text.
#[derive(Debug, Clone)]
pub enum ScriptSource {
    File { path: String },
    Inline { code: String },
}

/// One request's worth of input, built by the serving layer and consumed by
/// one execution: the script, the three variable tables the engine exposes
/// to it, and the raw request body.
#[derive(Debug, Clone)]
pub struct ExecutionRequest {
    /// The script to run.
    pub script: ScriptSource,
    /// Server-environment variables, names unique.
    pub server_vars: Vec<(String, String)>,
    /// Query variables, names unique.
    pub query_vars: Vec<(String, String)>,
    /// Posted-form variables, names unique.
    pub form_vars: Vec<(String, String)>,
    /// The raw request body, possibly empty.
    pub body: Vec<u8>,
}

/// No NUL byte anywhere: the engine takes its strings NUL-terminated, so
/// only such byte sequences can be handed to it.
pub open spec fn nul_free(s: Seq<u8>) -> bool {
    forall|i: int| 0 <= i < s.len() ==> s[i] != 0
}

/// Whether a script path is representable to the engine: its UTF-8 bytes
/// hold no embedded NUL. A path that is not representable is rejected before
/// any foreign call.
pub fn check_script_path(path: &str) -> (r: Result<(), ExecError>)
    ensures
        r is Ok <==> nul_free(encode_utf8(path@)),
        r is Err ==> r == Err::<(), ExecError>(ExecError::InvalidScriptPath),
{
    let b = path.as_bytes();
    let n: usize = b.len();
    let mut i: usize = 0;
    while i < n
        invariant
            n == b@.len(),
            i <= n,
            b@ == encode_utf8(path@),
            forall|k: int| 0 <= k < i ==> b@[k] != 0,
        decreases n - i,
    {
        if b[i] == 0 {
            return Err(ExecError::InvalidScriptPath);
        }
        i += 1;
    }
    Ok(())
}

/// Whether the script reference can be represented to the engine: the path
/// of a file, and equally the source text of inline code, go to the engine
/// NUL-terminated, so either is rejected when its bytes hold a NUL.
pub fn check_script_source(script: &ScriptSource) -> (r: Result<(), ExecError>)
    ensures
        r is Ok <==> match script {
            ScriptSource::File { path } => nul_free(encode_utf8(path@)),
            ScriptSource::Inline { code } => nul_free(encode_utf8(code@)),
        },
        r is Err ==> r == Err::<(), ExecError>(ExecError::InvalidScriptPath),
{
    match script {
        ScriptSource::File { path } => check_script_path(path.as_str()),
        ScriptSource::Inline { code } => check_script_path(code.as_str()),
    }
}

/// What one execution returns, given whether the engine reported success
/// and the bytes captured while it ran.
///
/// On success, the parsed response. On engine-reported failure, the error
/// variant of the script kind — `ExecutionFailed` for a file, `EvalFailed`
/// for inline code — still carrying the parsed response: a failed script
/// may have produced partial output that the caller must see.
pub fn conclude_execution(script: &ScriptSource, engine_ok: bool, captured: &[u8]) -> (r: Result<
    PhpResponse,
    ExecError,
>)
    ensures
        engine_ok ==> (r matches Ok(resp) && parsed_from(resp, captured@)),
        !engine_ok && (script matches ScriptSource::File { .. }) ==> (r matches Err(e) && (
        e matches ExecError::ExecutionFailed { response } && parsed_from(response, captured@))),
        !engine_ok && (script matches ScriptSource::Inline { .. }) ==> (r matches Err(e) && (
        e matches ExecError::EvalFailed { response } && parsed_from(response, captured@))),
{
    let response = PhpResponse::from_raw_output(captured);
    if engine_ok {
        Ok(response)
    } else {
        match script {
            ScriptSource::File { .. } => Err(ExecError::ExecutionFailed { response }),
            ScriptSource::Inline { .. } => Err(ExecError::EvalFailed { response }),
        }
    }
}

} // verus!
