use watchr::output::{render_output, CommandOutcome, OutputLine, Stream};

fn lines(v: Vec<OutputLine>) -> Vec<(Stream, String)> {
    v.into_iter().map(|l| (l.stream, l.text)).collect()
}

#[test]
fn success_reports_trimmed_stdout() {
    let outcome = CommandOutcome::Finished {
        success: true,
        code: Some(0),
        stdout: b"  all good\n".to_vec(),
        stderr: b"warning".to_vec(),
    };
    assert_eq!(
        lines(render_output("cargo test", Some("tests"), &outcome)),
        vec![
            (Stream::Stdout, "[tests]".to_string()),
            (Stream::Stdout, "$ cargo test".to_string()),
            (Stream::Stdout, "✓ success".to_string()),
            (Stream::Stdout, "all good".to_string()),
        ]
    );
}

#[test]
fn success_without_output() {
    let outcome = CommandOutcome::Finished {
        success: true,
        code: Some(0),
        stdout: b"\n \n".to_vec(),
        stderr: vec![],
    };
    assert_eq!(
        lines(render_output("true", None, &outcome)),
        vec![
            (Stream::Stdout, "$ true".to_string()),
            (Stream::Stdout, "✓ success".to_string()),
            (Stream::Stdout, "(no output)".to_string()),
        ]
    );
}

#[test]
fn failure_reports_exit_code_and_stderr() {
    let outcome = CommandOutcome::Finished {
        success: false,
        code: Some(101),
        stdout: b"ignored".to_vec(),
        stderr: b"error: boom\n".to_vec(),
    };
    assert_eq!(
        lines(render_output("cargo build", None, &outcome)),
        vec![
            (Stream::Stdout, "$ cargo build".to_string()),
            (Stream::Stdout, "✗ failed (exit code 101)".to_string()),
            (Stream::Stderr, "error: boom".to_string()),
        ]
    );
}

#[test]
fn failure_by_signal_without_stderr() {
    let outcome = CommandOutcome::Finished {
        success: false,
        code: None,
        stdout: vec![],
        stderr: vec![],
    };
    assert_eq!(
        lines(render_output("sleep 10", Some("s"), &outcome)),
        vec![
            (Stream::Stdout, "[s]".to_string()),
            (Stream::Stdout, "$ sleep 10".to_string()),
            (Stream::Stdout, "✗ failed (terminated)".to_string()),
            (Stream::Stderr, "(no output)".to_string()),
        ]
    );
}

#[test]
fn negative_exit_code_and_invalid_utf8() {
    let outcome = CommandOutcome::Finished {
        success: false,
        code: Some(-2),
        stdout: vec![],
        stderr: vec![0x66, 0xff, 0x6f],
    };
    assert_eq!(
        lines(render_output("x", None, &outcome)),
        vec![
            (Stream::Stdout, "$ x".to_string()),
            (Stream::Stdout, "✗ failed (exit code -2)".to_string()),
            (Stream::Stderr, "f\u{fffd}o".to_string()),
        ]
    );
}

#[test]
fn spawn_failure_is_reported() {
    let outcome = CommandOutcome::SpawnFailed {
        reason: "No such file or directory (os error 2)".to_string(),
    };
    assert_eq!(
        lines(render_output("sh -c x", None, &outcome)),
        vec![
            (Stream::Stdout, "$ sh -c x".to_string()),
            (
                Stream::Stdout,
                "✗ failed to spawn: No such file or directory (os error 2)".to_string()
            ),
        ]
    );
}
