use std::io::Write;
use tempfile::TempDir;
use watchr::init::{prepare_init, InitError, DEFAULT_CONFIG_TEMPLATE};

#[test]
fn init_test_happy_path() {
    let tmp_dir = TempDir::new().unwrap();
    let path = tmp_dir.path();

    let target = prepare_init(path.to_str().unwrap()).unwrap();

    // the template goes to `.watchr.toml` in the directory, which
    // `prepare_init` only reads about: writing it is the program's part
    let config_path = path.join(".watchr.toml");
    assert_eq!(target, config_path.to_str().unwrap());
    assert!(!config_path.exists());
}

#[test]
fn test_already_exists() {
    let tmp_dir = TempDir::new().unwrap();
    let path = tmp_dir.path();
    let mut file = tempfile::Builder::new()
        .prefix(".watchr.toml")
        .rand_bytes(0)
        .disable_cleanup(true)
        .tempfile_in(path)
        .unwrap();
    file.write_all(b"debounce_ms = 500\n").unwrap();

    let res = prepare_init(path.to_str().unwrap());

    assert!(matches!(res, Err(InitError::FileAlreadyExists)));
}

#[test]
fn template_names_the_default_debounce() {
    assert!(DEFAULT_CONFIG_TEMPLATE.contains("debounce_ms = 500"));
    assert!(DEFAULT_CONFIG_TEMPLATE.starts_with("\n# watchr configuration file\n"));
    assert!(DEFAULT_CONFIG_TEMPLATE.ends_with("# command = \"cargo clippy\"\n"));
}
