use tempfile::TempDir;
use watchr::cli::{CliError, Commands};
use watchr::config::{default_debounce_ms, WatchrConfig};
use watchr::entry::WatchrEntry;
use watchr::setup::{
    choose_config_source, collect_dirs, first_not_dir, resolve_config_source, validate_config,
    ConfigSource, SetupError,
};

fn entry(dirs: Vec<String>) -> WatchrEntry {
    WatchrEntry {
        name: None,
        dirs,
        ext: None,
        command: "pwd".to_string(),
    }
}

#[test]
fn default_debounce_is_500() {
    assert_eq!(default_debounce_ms(), 500);
}

#[test]
fn file_wins_over_inline_entry() {
    let res = choose_config_source(Some("a/.watchr.toml".to_string()), Some(entry(vec!["src".to_string()])));
    assert!(matches!(res, Ok(ConfigSource::File(ref p)) if p == "a/.watchr.toml"));
}

#[test]
fn inline_entry_gets_default_debounce() {
    let res = choose_config_source(None, Some(entry(vec!["src".to_string()])));
    match res {
        Ok(ConfigSource::Inline(c)) => {
            assert_eq!(c.debounce_ms, 500);
            assert_eq!(c.entries.len(), 1);
            assert_eq!(c.entries[0].dirs, vec!["src".to_string()]);
        }
        other => panic!("unexpected {:?}", other),
    }
}

#[test]
fn nothing_to_watch() {
    assert!(matches!(
        choose_config_source(None, None),
        Err(SetupError::NoWatcherEntriesProvided)
    ));
}

#[test]
fn explicit_config_is_used_as_given() {
    let command = Commands::Watch {
        dir: Some("src".to_string()),
        ext: None,
        cmd: Some("make".to_string()),
        config: Some("/etc/watchr.toml".to_string()),
    };
    let res = resolve_config_source(&command, "/nonexistent");
    assert!(matches!(res, Ok(ConfigSource::File(ref p)) if p == "/etc/watchr.toml"));
}

#[test]
fn malformed_flags_are_refused_first() {
    let command = Commands::Watch {
        dir: Some("src".to_string()),
        ext: None,
        cmd: None,
        config: Some("/etc/watchr.toml".to_string()),
    };
    assert!(matches!(
        resolve_config_source(&command, "/"),
        Err(SetupError::Cli(CliError::MalformedEntry))
    ));
}

#[test]
fn search_finds_file_before_inline_entry() {
    let tmp_dir = TempDir::new().unwrap();
    let path = tmp_dir.path();
    let _file = tempfile::Builder::new()
        .prefix(".watchr.toml")
        .rand_bytes(0)
        .tempfile_in(path)
        .unwrap();
    let command = Commands::Watch {
        dir: Some("src".to_string()),
        ext: None,
        cmd: Some("make".to_string()),
        config: None,
    };
    let res = resolve_config_source(&command, path.to_str().unwrap());
    let expected = path.join(".watchr.toml");
    assert!(matches!(res, Ok(ConfigSource::File(ref p)) if p == expected.to_str().unwrap()));
}

#[test]
fn empty_config_is_refused() {
    let config = WatchrConfig { debounce_ms: 500, entries: vec![] };
    assert!(matches!(
        validate_config(config),
        Err(SetupError::NoWatcherEntriesProvided)
    ));
}

#[test]
fn first_missing_directory_is_reported() {
    let tmp_dir = TempDir::new().unwrap();
    let good = tmp_dir.path().to_str().unwrap().to_string();
    let missing1 = tmp_dir.path().join("missing1").to_str().unwrap().to_string();
    let missing2 = tmp_dir.path().join("missing2").to_str().unwrap().to_string();
    let config = WatchrConfig {
        debounce_ms: 300,
        entries: vec![entry(vec![good.clone()]), entry(vec![good.clone(), missing1.clone(), missing2])],
    };
    assert!(matches!(validate_config(config), Err(SetupError::DirNotFound(ref d)) if *d == missing1));
}

#[test]
fn valid_config_is_kept() {
    let tmp_dir = TempDir::new().unwrap();
    let good = tmp_dir.path().to_str().unwrap().to_string();
    let config = WatchrConfig { debounce_ms: 300, entries: vec![entry(vec![good.clone()])] };
    let config = validate_config(config).unwrap();
    assert_eq!(config.debounce_ms, 300);
    assert_eq!(config.entries[0].dirs, vec![good]);
}

#[test]
fn directories_are_collected_in_order() {
    let entries = vec![
        entry(vec!["a".to_string(), "b".to_string()]),
        entry(vec![]),
        entry(vec!["c".to_string()]),
    ];
    assert_eq!(collect_dirs(&entries), vec!["a", "b", "c"]);
}

#[test]
fn first_not_dir_takes_the_first_false_answer() {
    let dirs = vec!["a".to_string(), "b".to_string(), "c".to_string()];
    assert_eq!(first_not_dir(&dirs, &vec![true, false, false]), Some("b".to_string()));
    assert_eq!(first_not_dir(&dirs, &vec![false]), Some("a".to_string()));
    assert_eq!(first_not_dir(&dirs, &vec![true, true, true]), None);
    assert_eq!(first_not_dir(&dirs, &vec![true]), None);
}

#[test]
fn entries_without_directories_are_accepted() {
    let config = WatchrConfig { debounce_ms: 500, entries: vec![entry(vec![])] };
    assert!(validate_config(config).is_ok());
}
