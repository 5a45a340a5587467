//! Tests that run the session against a real scratch directory: a driver
//! loop performs each planned write, run and removal with tokio, exactly as
//! the application around the library does.

use hoshi::error::CoreError;
use hoshi::invoke::{plan_invocation, ToolResult};
use hoshi::package::package_tool_response;
use hoshi::session::FileSession;

fn rt() -> tokio::runtime::Runtime {
    tokio::runtime::Builder::new_multi_thread()
        .enable_all()
        .build()
        .unwrap()
}

#[test]
fn end_to_end_stub_tool_round_trips() {
    rt().block_on(async {
        let dir = tempfile::tempdir().unwrap();
        let root = dir.path().to_str().unwrap().to_string();
        let mut session = FileSession::new(root.clone());

        let payload_bytes = vec![1u8, 2, 3, 250, 0, 127];
        let write = session.add_file("input.png", payload_bytes.clone()).unwrap();
        tokio::fs::write(&write.path, &write.bytes).await.unwrap();

        // The plan names the paths; a stub tool copies input to output
        // unchanged in place of the real media tool.
        let plan =
            plan_invocation(&session, "ffmpeg", "input.png", vec![], "output.png").unwrap();
        let input_path = plan.args[1].clone();
        let output_path = plan.args[plan.args.len() - 1].clone();
        let out = tokio::process::Command::new("cp")
            .arg(&input_path)
            .arg(&output_path)
            .current_dir(&plan.workdir)
            .output()
            .await
            .unwrap();
        let result = ToolResult::new(out.status.code(), out.stdout, out.stderr);
        assert_eq!(result.code, Some(0));

        let produced = tokio::fs::read(&output_path).await.unwrap();
        session.record_file("output.png", produced).unwrap();
        let read_back = session.read_file("output.png").unwrap();
        assert_eq!(read_back, payload_bytes);

        let payloads =
            package_tool_response("output.png".to_string(), Some(read_back), &result, false);
        assert_eq!(payloads.len(), 1);
        assert_eq!(payloads[0].name, "output.png");
        assert_eq!(payloads[0].bytes, payload_bytes);
        assert_eq!(payloads[0].priority, 1);
    });
}

#[test]
fn close_removes_the_session_root_from_disk() {
    rt().block_on(async {
        let dir = tempfile::tempdir().unwrap();
        let root = dir.path().to_str().unwrap().to_string();
        let mut session = FileSession::new(root.clone());

        let write = session.add_file("input.png", vec![1, 2, 3]).unwrap();
        tokio::fs::write(&write.path, &write.bytes).await.unwrap();

        let removal = session.close();
        assert_eq!(removal.path, root);
        tokio::fs::remove_dir_all(&removal.path).await.unwrap();

        assert!(tokio::fs::read(format!("{root}/input.png")).await.is_err());
        assert!(tokio::fs::metadata(&root).await.is_err());
        assert!(matches!(session.read_file("input.png"), Err(CoreError::NotFound)));
    });
}

#[test]
fn concurrent_sessions_stay_isolated() {
    rt().block_on(async {
        let mut handles = Vec::new();
        for i in 0..8u8 {
            handles.push(tokio::spawn(async move {
                let dir = tempfile::tempdir().unwrap();
                let root = dir.path().to_str().unwrap().to_string();
                let mut session = FileSession::new(root.clone());
                let bytes = vec![i; 16];
                let write = session.add_file("input.png", bytes.clone()).unwrap();
                tokio::fs::write(&write.path, &write.bytes).await.unwrap();
                let on_disk =
                    tokio::fs::read(session.file_path("input.png").unwrap()).await.unwrap();
                assert_eq!(on_disk, bytes);
                assert_eq!(session.read_file("input.png").unwrap(), bytes);
                root
            }));
        }
        let mut roots: Vec<String> = Vec::new();
        for h in handles {
            roots.push(h.await.unwrap());
        }
        for a in 0..roots.len() {
            for b in 0..a {
                assert_ne!(roots[a], roots[b]);
            }
        }
    });
}
