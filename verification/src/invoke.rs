//! Planning one run of the external tool, and the captured result of a run.
//!
//! The library never starts a process itself. It plans a `ToolInvocation`
//! whose argument vector is handed to the child process verbatim — never to a
//! command shell — and the driver reports what happened back as a
//! `ToolResult`, with both output streams bounded.

use vstd::prelude::*;

use crate::error::CoreError;
use crate::session::{spec_file_path, valid_filename, FileSession};
use crate::text::str_eq;
use vstd::string::StringExecFns;

verus! {

/// The most bytes kept of each captured output stream.
pub const MAX_CAPTURE_BYTES: usize = 1048576;

/// The fixed program allowlist: the only external program this pipeline may
/// start.
pub open spec fn allowed_program(p: Seq<char>) -> bool {
    p == "ffmpeg"@
}

/// Checks `allowed_program` on real input.
pub fn is_allowed_program(p: &str) -> (r: bool)
    ensures
        r == allowed_program(p@),
{
    str_eq(p, "ffmpeg")
}

/// One run of an external program: started directly as a child process, with
/// this exact argument vector and working directory, never through a shell.
pub struct ToolInvocation {
    pub program: String,
    pub args: Vec<String>,
    pub workdir: String,
}

/// What a finished run produced: the exit code (`None` when the process was
/// ended by a signal), and both captured streams, each bounded by
/// `MAX_CAPTURE_BYTES` with a note when truncation happened. The exit code
/// is not interpreted here: some tools leave useful output behind even when
/// they exit nonzero, so that judgement belongs to the caller.
pub struct ToolResult {
    pub code: Option<i32>,
    pub stdout: Vec<u8>,
    pub stderr: Vec<u8>,
    pub stdout_truncated: bool,
    pub stderr_truncated: bool,
}

/// A captured stream, bounded at `MAX_CAPTURE_BYTES`.
pub open spec fn spec_capped(b: Seq<u8>) -> Seq<u8> {
    if b.len() <= MAX_CAPTURE_BYTES {
        b
    } else {
        b.take(MAX_CAPTURE_BYTES as int)
    }
}

/// Bounds one captured stream, reporting whether anything was cut off.
pub fn cap_capture(bytes: Vec<u8>) -> (r: (Vec<u8>, bool))
    ensures
        r.0@ == spec_capped(bytes@),
        r.1 == (bytes@.len() > MAX_CAPTURE_BYTES),
{
    let mut bytes = bytes;
    if bytes.len() > MAX_CAPTURE_BYTES {
        bytes.truncate(MAX_CAPTURE_BYTES);
        proof {
            assert(bytes@ =~= spec_capped(bytes@));
        }
        (bytes, true)
    } else {
        (bytes, false)
    }
}

impl ToolResult {
    /// Captures a finished run, bounding both streams.
    pub fn new(code: Option<i32>, stdout: Vec<u8>, stderr: Vec<u8>) -> (r: Self)
        ensures
            r.code == code,
            r.stdout@ == spec_capped(stdout@),
            r.stdout_truncated == (stdout@.len() > MAX_CAPTURE_BYTES),
            r.stderr@ == spec_capped(stderr@),
            r.stderr_truncated == (stderr@.len() > MAX_CAPTURE_BYTES),
    {
        let (out, out_cut) = cap_capture(stdout);
        let (err, err_cut) = cap_capture(stderr);
        ToolResult {
            code,
            stdout: out,
            stderr: err,
            stdout_truncated: out_cut,
            stderr_truncated: err_cut,
        }
    }
}

/// The filename the tool is asked to produce for a requested output type:
/// `output.<type>`. The type is accepted only when the whole composed name
/// is again a single path segment, so a hostile type string cannot steer the
/// output path anywhere else.
pub fn output_filename(file_type: &str) -> (r: Result<String, CoreError>)
    ensures
        valid_filename("output."@ + file_type@) ==> (r matches Ok(s) && s@ == "output."@
            + file_type@),
        !valid_filename("output."@ + file_type@) ==> r == Err::<String, CoreError>(
            CoreError::InvalidFilename,
        ),
    {
    let mut s = String::from_str("output.");
    s.append(file_type);
    if crate::session::is_valid_filename(s.as_str()) {
        Ok(s)
    } else {
        Err(CoreError::InvalidFilename)
    }
}

/// Plans one tool run inside a session. The argument vector has the fixed
/// shape `[-i, <input path>, ...extra..., <output path>]`; the extra tokens
/// come from the argument builder and are passed through verbatim, one child
/// process argument per token. The program must be on the allowlist, and
/// both filenames must be single path segments, so both paths lie directly
/// inside the session root.
pub fn plan_invocation(
    session: &FileSession,
    program: &str,
    input_name: &str,
    extra: Vec<String>,
    output_name: &str,
) -> (r: Result<ToolInvocation, CoreError>)
    ensures
        !allowed_program(program@) ==> r == Err::<ToolInvocation, CoreError>(
            CoreError::SpawnFailed,
        ),
        allowed_program(program@) && !(valid_filename(input_name@) && valid_filename(output_name@))
            ==> r == Err::<ToolInvocation, CoreError>(CoreError::InvalidFilename),
        allowed_program(program@) && valid_filename(input_name@) && valid_filename(output_name@)
            ==> (r matches Ok(t)
            && t.program@ == program@
            && t.workdir@ == session.spec_root()
            && t.args@.len() == extra@.len() + 3
            && t.args@[0]@ == "-i"@
            && t.args@[1]@ == spec_file_path(session.spec_root(), input_name@)
            && (forall|i: int|
                0 <= i < extra@.len() ==> #[trigger] t.args@[i + 2]@ == extra@[i]@)
            && t.args@[t.args@.len() - 1]@ == spec_file_path(session.spec_root(), output_name@)),
{
    if !is_allowed_program(program) {
        return Err(CoreError::SpawnFailed);
    }
    let input_path = match session.file_path(input_name) {
        Ok(p) => p,
        Err(e) => {
            return Err(e);
        },
    };
    let output_path = match session.file_path(output_name) {
        Ok(p) => p,
        Err(e) => {
            return Err(e);
        },
    };
    let mut extra = extra;
    let ghost extra_view = extra@;
    let mut args: Vec<String> = Vec::new();
    args.push(String::from_str("-i"));
    args.push(input_path);
    args.append(&mut extra);
    args.push(output_path);
    proof {
        assert forall|i: int| 0 <= i < extra_view.len() implies #[trigger] args@[i + 2]@
            == extra_view[i]@ by {
        }
    }
    Ok(ToolInvocation { program: String::from_str(program), args, workdir: session.path().clone() })
}

} // verus!
