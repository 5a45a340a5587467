//! Assembling the response: zero or one transformed file, plus diagnostics,
//! as an ordered list of payloads that is never empty.

use vstd::prelude::*;

use crate::invoke::ToolResult;
use crate::text::copy_bytes;
use vstd::string::StringExecFns;

verus! {

/// Delivery priority of a primary output payload.
pub const PRIMARY_PRIORITY: u8 = 1;

/// Delivery priority of the diagnostic payload.
pub const DIAGNOSTICS_PRIORITY: u8 = 2;

/// One attachment to deliver: a name, its content, and its priority.
pub struct Payload {
    pub name: String,
    pub bytes: Vec<u8>,
    pub priority: u8,
}

/// `p` is exactly the payload with this name, content and priority.
pub open spec fn payload_is(p: Payload, name: Seq<char>, bytes: Seq<u8>, priority: u8) -> bool {
    &&& p.name@ == name
    &&& p.bytes@ == bytes
    &&& p.priority == priority
}

/// The name under which the diagnostic payload is delivered.
pub fn diagnostics_filename() -> (r: String)
    ensures
        r@ == "ffmpeg_output.txt"@,
{
    String::from_str("ffmpeg_output.txt")
}

/// The combined diagnostic bytes of a run: standard output, a separating
/// newline when standard output is non-empty, then standard error.
pub open spec fn spec_diagnostics(stdout: Seq<u8>, stderr: Seq<u8>) -> Seq<u8> {
    if stdout.len() > 0 {
        stdout + seq![10u8] + stderr
    } else {
        stderr
    }
}

/// Builds the diagnostic payload content from a finished run.
pub fn get_output_as_buffer(result: &ToolResult) -> (r: Vec<u8>)
    ensures
        r@ == spec_diagnostics(result.stdout@, result.stderr@),
{
    let mut buffer = copy_bytes(&result.stdout);
    if buffer.len() > 0 {
        buffer.push(10u8);
    }
    buffer.extend_from_slice(result.stderr.as_slice());
    proof {
        assert(buffer@ =~= spec_diagnostics(result.stdout@, result.stderr@));
    }
    buffer
}

/// The shape of one response. Making the three cases explicit keeps an empty
/// response impossible by construction: every case carries at least one
/// payload.
pub enum ResponseOutcome {
    /// The tool produced a file and diagnostics were not requested.
    PrimaryOnly(Payload),
    /// The tool produced a file and diagnostics were requested as well.
    PrimaryWithDiagnostics(Payload, Payload),
    /// No file was produced, so the diagnostics are all there is to show.
    DiagnosticsOnly(Payload),
}

/// Decides the response shape. The primary output, when present, becomes a
/// payload at priority 1; the diagnostic payload, at priority 2, is included
/// when it was asked for or when there is nothing else to show.
pub fn classify(
    primary: Option<(String, Vec<u8>)>,
    diagnostics: Vec<u8>,
    force_diagnostics: bool,
) -> (r: ResponseOutcome)
    ensures
        primary matches Some(p) ==> {
            if force_diagnostics {
                r matches ResponseOutcome::PrimaryWithDiagnostics(a, d) && payload_is(
                    a,
                    p.0@,
                    p.1@,
                    PRIMARY_PRIORITY,
                ) && payload_is(d, "ffmpeg_output.txt"@, diagnostics@, DIAGNOSTICS_PRIORITY)
            } else {
                r matches ResponseOutcome::PrimaryOnly(a) && payload_is(
                    a,
                    p.0@,
                    p.1@,
                    PRIMARY_PRIORITY,
                )
            }
        },
        primary is None ==> (r matches ResponseOutcome::DiagnosticsOnly(d) && payload_is(
            d,
            "ffmpeg_output.txt"@,
            diagnostics@,
            DIAGNOSTICS_PRIORITY,
        )),
{
    match primary {
        Some((name, bytes)) => {
            let a = Payload { name, bytes, priority: PRIMARY_PRIORITY };
            if force_diagnostics {
                let d = Payload {
                    name: diagnostics_filename(),
                    bytes: diagnostics,
                    priority: DIAGNOSTICS_PRIORITY,
                };
                ResponseOutcome::PrimaryWithDiagnostics(a, d)
            } else {
                ResponseOutcome::PrimaryOnly(a)
            }
        },
        None => {
            let d = Payload {
                name: diagnostics_filename(),
                bytes: diagnostics,
                priority: DIAGNOSTICS_PRIORITY,
            };
            ResponseOutcome::DiagnosticsOnly(d)
        },
    }
}

/// Renders an outcome as the ordered payload list: primary first, then
/// diagnostics. Every outcome yields at least one payload.
pub fn into_payloads(outcome: ResponseOutcome) -> (r: Vec<Payload>)
    ensures
        r@.len() >= 1,
        outcome matches ResponseOutcome::PrimaryOnly(a) ==> (r@.len() == 1 && r@[0] == a),
        outcome matches ResponseOutcome::PrimaryWithDiagnostics(a, d) ==> (r@.len() == 2 && r@[0]
            == a && r@[1] == d),
        outcome matches ResponseOutcome::DiagnosticsOnly(d) ==> (r@.len() == 1 && r@[0] == d),
{
    let mut r: Vec<Payload> = Vec::new();
    match outcome {
        ResponseOutcome::PrimaryOnly(a) => {
            r.push(a);
        },
        ResponseOutcome::PrimaryWithDiagnostics(a, d) => {
            r.push(a);
            r.push(d);
        },
        ResponseOutcome::DiagnosticsOnly(d) => {
            r.push(d);
        },
    }
    r
}

/// Assembles the response payloads. A primary output is delivered first at
/// priority 1; the diagnostic payload is delivered at priority 2 when it was
/// requested or when no primary output exists. The list is never empty, and
/// priorities never decrease along it.
pub fn package(
    primary: Option<(String, Vec<u8>)>,
    diagnostics: Vec<u8>,
    force_diagnostics: bool,
) -> (r: Vec<Payload>)
    ensures
        r@.len() >= 1,
        forall|i: int, j: int|
            0 <= i <= j < r@.len() ==> #[trigger] r@[i].priority <= #[trigger] r@[j].priority,
        primary matches Some(p) ==> {
            if force_diagnostics {
                r@.len() == 2 && payload_is(r@[0], p.0@, p.1@, PRIMARY_PRIORITY) && payload_is(
                    r@[1],
                    "ffmpeg_output.txt"@,
                    diagnostics@,
                    DIAGNOSTICS_PRIORITY,
                )
            } else {
                r@.len() == 1 && payload_is(r@[0], p.0@, p.1@, PRIMARY_PRIORITY)
            }
        },
        primary is None ==> (r@.len() == 1 && payload_is(
            r@[0],
            "ffmpeg_output.txt"@,
            diagnostics@,
            DIAGNOSTICS_PRIORITY,
        )),
{
    into_payloads(classify(primary, diagnostics, force_diagnostics))
}

/// Packages everything one tool run has to deliver: the output file read
/// back from the session, when the tool produced one, as the primary
/// payload, and the run's combined diagnostics when they were requested or
/// when no output file exists.
pub fn package_tool_response(
    output_name: String,
    read_back: Option<Vec<u8>>,
    result: &ToolResult,
    show_output: bool,
) -> (r: Vec<Payload>)
    ensures
        r@.len() >= 1,
        read_back matches Some(b) ==> {
            if show_output {
                r@.len() == 2 && payload_is(r@[0], output_name@, b@, PRIMARY_PRIORITY)
                    && payload_is(
                    r@[1],
                    "ffmpeg_output.txt"@,
                    spec_diagnostics(result.stdout@, result.stderr@),
                    DIAGNOSTICS_PRIORITY,
                )
            } else {
                r@.len() == 1 && payload_is(r@[0], output_name@, b@, PRIMARY_PRIORITY)
            }
        },
        read_back is None ==> (r@.len() == 1 && payload_is(
            r@[0],
            "ffmpeg_output.txt"@,
            spec_diagnostics(result.stdout@, result.stderr@),
            DIAGNOSTICS_PRIORITY,
        )),
{
    let diagnostics = get_output_as_buffer(result);
    let primary = match read_back {
        Some(b) => Some((output_name, b)),
        None => None,
    };
    package(primary, diagnostics, show_output)
}

/// True exactly when there is nothing at all to show: no primary output and
/// empty diagnostics. Upstream surfaces this as an error instead of
/// delivering a zero-byte attachment.
pub fn produced_nothing(primary: &Option<(String, Vec<u8>)>, diagnostics: &Vec<u8>) -> (r: bool)
    ensures
        r == (primary is None && diagnostics@.len() == 0),
{
    match primary {
        None => diagnostics.len() == 0,
        Some(_) => false,
    }
}

} // verus!
