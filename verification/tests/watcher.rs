use tempfile::TempDir;
use watchr::watcher::{
    handle_events, next_action, shell_command, should_trigger, EventBatch, LoopAction, WatchEvent,
    SHUTDOWN_MESSAGE,
};

/// A temporary tree holding `src/main.rs`, and that file's path.
fn tree_with_main_rs() -> (TempDir, String) {
    let tmp_dir = TempDir::new().unwrap();
    let src = tempfile::Builder::new()
        .prefix("src")
        .rand_bytes(0)
        .disable_cleanup(true)
        .tempdir_in(tmp_dir.path())
        .unwrap();
    let file = tempfile::Builder::new()
        .prefix("main.rs")
        .rand_bytes(0)
        .disable_cleanup(true)
        .tempfile_in(src.path())
        .unwrap();
    let path = file.path().to_str().unwrap().to_string();
    (tmp_dir, path)
}

/// One modify event on `path`, or an error batch.
fn create_debounced_event_result(error: bool, path: &str) -> EventBatch {
    if error {
        return Err(vec!["custom".to_string()]);
    }
    Ok(vec![vec![path.to_string()]])
}

#[test]
fn watcher_test_handle_events_no_ext() {
    let result = create_debounced_event_result(false, "src/main.rs");
    let event = handle_events(result, None, None, "pwd".to_string());
    assert!(matches!(event, Some(WatchEvent::Command { .. })));
}

#[test]
fn watcher_test_handle_event_matching_ext() {
    let (_tmp, main_rs) = tree_with_main_rs();
    let result = create_debounced_event_result(false, &main_rs);
    let event = handle_events(result, None, Some(vec!["rs".to_string()]), "pwd".to_string());
    assert!(matches!(event, Some(WatchEvent::Command { .. })));
}

#[test]
fn watcher_test_handle_event_no_matching_ext() {
    let (_tmp, main_rs) = tree_with_main_rs();
    let result = create_debounced_event_result(false, &main_rs);
    let event = handle_events(result, None, Some(vec!["txt".to_string()]), "pwd".to_string());
    assert!(event.is_none());
}

#[test]
fn test_hand_event_error_result() {
    let result = create_debounced_event_result(true, "src/main.rs");
    let event = handle_events(result, None, None, "pwd".to_string());
    assert!(event.is_none());
}

#[test]
fn debounce_test_handle_events_no_ext() {
    let result = create_debounced_event_result(false, "src/main.rs");
    let event = handle_events(result, None, None, "pwd".to_string());
    assert!(matches!(event, Some(WatchEvent::Command { .. })));
}

#[test]
fn test_handle_events_name_in_emitted_watch_event() {
    let result = create_debounced_event_result(false, "src/main.rs");
    let event = handle_events(result, Some("test".to_string()), None, "pwd".to_string());
    assert!(matches!(
        event,
        Some(WatchEvent::Command { name: Some(ref n), .. }) if n == "test"
    ));
}

#[test]
fn debounce_test_handle_event_matching_ext() {
    let (_tmp, main_rs) = tree_with_main_rs();
    let result = create_debounced_event_result(false, &main_rs);
    let event = handle_events(result, None, Some(vec!["rs".to_string()]), "pwd".to_string());
    assert!(matches!(event, Some(WatchEvent::Command { .. })));
}

#[test]
fn debounce_test_handle_event_no_matching_ext() {
    let (_tmp, main_rs) = tree_with_main_rs();
    let result = create_debounced_event_result(false, &main_rs);
    let event = handle_events(result, None, Some(vec!["txt".to_string()]), "pwd".to_string());
    assert!(event.is_none());
}

#[test]
fn test_handle_event_error_result() {
    let result = create_debounced_event_result(true, "src/main.rs");
    let event = handle_events(result, None, None, "pwd".to_string());
    assert!(event.is_none());
}

#[test]
fn emitted_command_carries_command_and_name() {
    let result = create_debounced_event_result(false, "anything");
    match handle_events(result, Some("lint".to_string()), None, "cargo clippy".to_string()) {
        Some(WatchEvent::Command { cmd, name }) => {
            assert_eq!(cmd, "cargo clippy");
            assert_eq!(name, Some("lint".to_string()));
        }
        other => panic!("unexpected {:?}", other),
    }
}

#[test]
fn no_filter_triggers_even_on_an_empty_batch() {
    let event = handle_events(Ok(vec![]), None, None, "pwd".to_string());
    assert!(matches!(event, Some(WatchEvent::Command { .. })));
}

#[test]
fn filter_ignores_paths_that_are_not_files() {
    let tmp_dir = TempDir::new().unwrap();
    let dir = tempfile::Builder::new()
        .prefix("looks_like.rs")
        .rand_bytes(0)
        .disable_cleanup(true)
        .tempdir_in(tmp_dir.path())
        .unwrap();
    let dir = dir.path().to_path_buf();
    let result = Ok(vec![vec![dir.to_str().unwrap().to_string()]]);
    let event = handle_events(result, None, Some(vec!["rs".to_string()]), "pwd".to_string());
    assert!(event.is_none());
}

#[test]
fn filter_finds_a_match_in_a_later_event() {
    let (_tmp, main_rs) = tree_with_main_rs();
    let result = Ok(vec![
        vec!["missing.txt".to_string()],
        vec!["also/missing".to_string(), main_rs],
    ]);
    let event = handle_events(result, None, Some(vec!["md".to_string(), "rs".to_string()]), "pwd".to_string());
    assert!(matches!(event, Some(WatchEvent::Command { .. })));
}

#[test]
fn should_trigger_follows_the_file_answers() {
    let paths = vec!["src/main.rs".to_string(), "notes.txt".to_string()];
    let rs = Some(vec!["rs".to_string()]);
    assert!(should_trigger(&paths, &vec![true, false], &rs));
    assert!(!should_trigger(&paths, &vec![false, true], &rs));
    assert!(!should_trigger(&paths, &vec![true, true], &Some(vec!["md".to_string()])));
    assert!(should_trigger(&paths, &vec![false, false], &None));
    assert!(!should_trigger(&paths, &vec![true, true], &Some(vec![])));
    assert!(!should_trigger(&vec![".rs".to_string()], &vec![true], &rs));
}

#[test]
fn wider_filter_keeps_a_trigger() {
    let paths = vec!["a/b.toml".to_string()];
    let is_file = vec![true];
    let narrow = Some(vec!["toml".to_string()]);
    let wide = Some(vec!["rs".to_string(), "toml".to_string()]);
    assert!(should_trigger(&paths, &is_file, &narrow));
    assert!(should_trigger(&paths, &is_file, &wide));
}

#[test]
fn loop_runs_commands_and_stops_on_shutdown_or_close() {
    let run = next_action(Some(WatchEvent::Command {
        cmd: "cargo test".to_string(),
        name: Some("tests".to_string()),
    }));
    match run {
        LoopAction::Run { cmd, name } => {
            assert_eq!(cmd, "cargo test");
            assert_eq!(name, Some("tests".to_string()));
        }
        other => panic!("unexpected {:?}", other),
    }
    assert!(matches!(
        next_action(Some(WatchEvent::Shutdown)),
        LoopAction::Stop { graceful: true }
    ));
    assert!(matches!(next_action(None), LoopAction::Stop { graceful: false }));
    assert_eq!(SHUTDOWN_MESSAGE, "Shutting down gracefully...");
}

#[test]
fn commands_run_through_the_shell() {
    let (program, args) = shell_command("cargo clippy && cargo fmt");
    assert_eq!(program, "sh");
    assert_eq!(args, vec!["-c".to_string(), "cargo clippy && cargo fmt".to_string()]);
}

#[test]
fn dotted_filter_never_matches() {
    let (_tmp, main_rs) = tree_with_main_rs();
    let result = create_debounced_event_result(false, &main_rs);
    let event = handle_events(result, None, Some(vec![".rs".to_string()]), "pwd".to_string());
    assert!(event.is_none());
}

#[test]
fn loop_runs_commands_in_order_until_the_first_stop() {
    let received = vec![
        Some(WatchEvent::Command { cmd: "a".to_string(), name: None }),
        Some(WatchEvent::Command { cmd: "b".to_string(), name: Some("n".to_string()) }),
        Some(WatchEvent::Shutdown),
        Some(WatchEvent::Command { cmd: "never".to_string(), name: None }),
    ];
    let mut ran = Vec::new();
    let mut stopped = None;
    for event in received {
        match next_action(event) {
            LoopAction::Run { cmd, .. } => ran.push(cmd),
            LoopAction::Stop { graceful } => {
                stopped = Some(graceful);
                break;
            }
        }
    }
    assert_eq!(ran, vec!["a".to_string(), "b".to_string()]);
    assert_eq!(stopped, Some(true));
}
