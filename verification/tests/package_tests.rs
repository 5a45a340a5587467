use hoshi::error::CoreError;
use hoshi::invoke::{
    cap_capture, is_allowed_program, output_filename, plan_invocation, ToolResult,
    MAX_CAPTURE_BYTES,
};
use hoshi::package::{
    diagnostics_filename, get_output_as_buffer, package, package_tool_response, produced_nothing,
};
use hoshi::session::FileSession;

#[test]
fn package_primary_without_diagnostics() {
    let payloads = package(
        Some(("output.png".to_string(), vec![1, 2, 3])),
        vec![9, 9],
        false,
    );
    assert_eq!(payloads.len(), 1);
    assert_eq!(payloads[0].name, "output.png");
    assert_eq!(payloads[0].bytes, vec![1, 2, 3]);
    assert_eq!(payloads[0].priority, 1);
}

#[test]
fn package_without_primary_is_diagnostics_only() {
    for force in [false, true] {
        let payloads = package(None, vec![9, 9], force);
        assert_eq!(payloads.len(), 1);
        assert_eq!(payloads[0].name, "ffmpeg_output.txt");
        assert_eq!(payloads[0].bytes, vec![9, 9]);
        assert_eq!(payloads[0].priority, 2);
    }
}

#[test]
fn package_primary_and_forced_diagnostics() {
    let payloads = package(
        Some(("output.gif".to_string(), vec![1])),
        vec![2],
        true,
    );
    assert_eq!(payloads.len(), 2);
    assert_eq!(payloads[0].name, "output.gif");
    assert_eq!(payloads[0].priority, 1);
    assert_eq!(payloads[1].name, "ffmpeg_output.txt");
    assert_eq!(payloads[1].bytes, vec![2]);
    assert_eq!(payloads[1].priority, 2);
}

#[test]
fn diagnostics_join_stdout_and_stderr_with_newline() {
    let result = ToolResult::new(Some(1), b"out".to_vec(), b"err".to_vec());
    assert_eq!(get_output_as_buffer(&result), b"out\nerr".to_vec());
    let result = ToolResult::new(Some(1), vec![], b"err".to_vec());
    assert_eq!(get_output_as_buffer(&result), b"err".to_vec());
    let result = ToolResult::new(Some(1), b"out".to_vec(), vec![]);
    assert_eq!(get_output_as_buffer(&result), b"out\n".to_vec());
}

#[test]
fn captures_are_bounded_and_truncation_is_noted() {
    let long = vec![7u8; MAX_CAPTURE_BYTES + 5];
    let (kept, cut) = cap_capture(long);
    assert_eq!(kept.len(), MAX_CAPTURE_BYTES);
    assert!(cut);
    let (kept, cut) = cap_capture(vec![7u8; 3]);
    assert_eq!(kept.len(), 3);
    assert!(!cut);
    let result = ToolResult::new(None, vec![1u8; MAX_CAPTURE_BYTES + 1], vec![2u8; 4]);
    assert!(result.stdout_truncated);
    assert!(!result.stderr_truncated);
    assert_eq!(result.stdout.len(), MAX_CAPTURE_BYTES);
    assert_eq!(result.code, None);
}

#[test]
fn package_tool_response_mirrors_the_run() {
    let result = ToolResult::new(Some(0), b"log".to_vec(), vec![]);
    let payloads = package_tool_response(
        "output.gif".to_string(),
        Some(vec![5, 5]),
        &result,
        false,
    );
    assert_eq!(payloads.len(), 1);
    assert_eq!(payloads[0].name, "output.gif");

    let payloads = package_tool_response("output.gif".to_string(), None, &result, false);
    assert_eq!(payloads.len(), 1);
    assert_eq!(payloads[0].name, "ffmpeg_output.txt");
    assert_eq!(payloads[0].bytes, b"log\n".to_vec());
    assert_eq!(payloads[0].priority, 2);
}

#[test]
fn produced_nothing_needs_empty_diagnostics_and_no_primary() {
    assert!(produced_nothing(&None, &vec![]));
    assert!(!produced_nothing(&None, &vec![1]));
    assert!(!produced_nothing(&Some(("a".to_string(), vec![])), &vec![]));
    assert_eq!(diagnostics_filename(), "ffmpeg_output.txt");
}

#[test]
fn plan_invocation_has_the_fixed_argument_shape() {
    let session = FileSession::new(String::from("/work/session"));
    let extra = vec!["-vf".to_string(), "scale=100:-1".to_string()];
    let plan = plan_invocation(&session, "ffmpeg", "input.png", extra, "output.gif").unwrap();
    assert_eq!(plan.program, "ffmpeg");
    assert_eq!(plan.workdir, "/work/session");
    assert_eq!(
        plan.args,
        vec![
            "-i".to_string(),
            "/work/session/input.png".to_string(),
            "-vf".to_string(),
            "scale=100:-1".to_string(),
            "/work/session/output.gif".to_string(),
        ]
    );
}

#[test]
fn plan_invocation_rejects_unlisted_programs() {
    let session = FileSession::new(String::from("/work/session"));
    let r = plan_invocation(&session, "magick", "input.png", vec![], "output.gif");
    assert!(matches!(r, Err(CoreError::SpawnFailed)));
    assert!(is_allowed_program("ffmpeg"));
    assert!(!is_allowed_program("ffmpeg2"));
}

#[test]
fn plan_invocation_rejects_traversing_filenames() {
    let session = FileSession::new(String::from("/work/session"));
    let r = plan_invocation(&session, "ffmpeg", "../input.png", vec![], "output.gif");
    assert!(matches!(r, Err(CoreError::InvalidFilename)));
    let r = plan_invocation(&session, "ffmpeg", "input.png", vec![], "a/output.gif");
    assert!(matches!(r, Err(CoreError::InvalidFilename)));
}

#[test]
fn output_filename_appends_the_type() {
    assert_eq!(output_filename("gif").unwrap(), "output.gif");
    assert!(matches!(output_filename("gif/../x"), Err(CoreError::InvalidFilename)));
    assert!(matches!(output_filename(".gif"), Err(CoreError::InvalidFilename)));
    assert_eq!(output_filename("").unwrap(), "output.");
}
