use std::path::{Path, PathBuf};
use tempfile::TempDir;
use watchr::resolver::{
    config_candidates, config_search_dirs, find_config_file, first_existing, ResolverError,
    CONFIG_FILE_NAME,
};

fn text(p: &Path) -> String {
    p.to_str().unwrap().to_string()
}


/// Creates an empty file `name` in `dir`, left in place until `dir` goes.
fn create_file(dir: &Path, name: &str) -> PathBuf {
    tempfile::Builder::new()
        .prefix(name)
        .rand_bytes(0)
        .disable_cleanup(true)
        .tempfile_in(dir)
        .unwrap()
        .path()
        .to_path_buf()
}

/// Creates a directory `name` in `dir`, left in place until `dir` goes.
fn create_dir(dir: &Path, name: &str) -> PathBuf {
    tempfile::Builder::new()
        .prefix(name)
        .rand_bytes(0)
        .disable_cleanup(true)
        .tempdir_in(dir)
        .unwrap()
        .path()
        .to_path_buf()
}

#[test]
fn test_config_file_present() {
    let tmp_dir = TempDir::new().unwrap();
    let path = tmp_dir.path();
    let file_path = create_file(path, ".watchr.toml");

    let result = find_config_file(&text(path)).unwrap();

    assert_eq!(result, text(&file_path))
}

#[test]
fn test_config_file_absent() {
    let tmp_dir = TempDir::new().unwrap();
    let path = tmp_dir.path();

    let result = find_config_file(&text(path));
    assert!(matches!(result, Err(ResolverError::NotFound)))
}

#[test]
fn test_config_file_present_in_parent() {
    let tmp_dir = TempDir::new().unwrap();
    let path = tmp_dir.path();
    let conf_path = create_file(path, ".watchr.toml");

    let sub_dir = create_dir(&create_dir(&create_dir(path, "subdir"), "subdir1"), "subdir2");

    let result = find_config_file(&text(&sub_dir)).unwrap();
    assert_eq!(result, text(&conf_path));
}

#[test]
fn nearest_config_file_wins() {
    let tmp_dir = TempDir::new().unwrap();
    let path = tmp_dir.path();
    create_file(path, ".watchr.toml");
    let a = create_dir(path, "a");
    let inner = create_dir(&a, "b");
    create_file(&a, ".watchr.toml");

    let result = find_config_file(&text(&inner)).unwrap();
    assert_eq!(result, text(&path.join("a/.watchr.toml")));
}

#[test]
fn search_walks_up_to_the_root() {
    let dirs = config_search_dirs("/home/user/project");
    assert_eq!(dirs, vec!["/home/user/project", "/home/user", "/home", "/"]);
    let dirs = config_search_dirs("project/src");
    assert_eq!(dirs, vec!["project/src", "project", ""]);
    let dirs = config_search_dirs("");
    assert_eq!(dirs, vec![""]);
}

#[test]
fn config_file_name_is_watchr_toml() {
    assert_eq!(CONFIG_FILE_NAME, ".watchr.toml");
}

#[test]
fn first_existing_takes_the_first_true_answer() {
    let cands = vec!["a/b/.watchr.toml".to_string(), "a/.watchr.toml".to_string(), "/.watchr.toml".to_string()];
    assert_eq!(first_existing(&cands, &vec![false, true, true]).unwrap(), "a/.watchr.toml");
    assert_eq!(first_existing(&cands, &vec![true]).unwrap(), "a/b/.watchr.toml");
    assert!(matches!(first_existing(&cands, &vec![false, false, false]), Err(ResolverError::NotFound)));
    assert!(matches!(first_existing(&cands, &vec![false]), Err(ResolverError::NotFound)));
    assert!(matches!(first_existing(&cands, &vec![]), Err(ResolverError::NotFound)));
}

#[test]
fn candidates_follow_the_search_dirs() {
    assert_eq!(
        config_candidates("/home/user"),
        vec!["/home/user/.watchr.toml", "/home/.watchr.toml", "/.watchr.toml"]
    );
    assert_eq!(config_candidates("proj"), vec!["proj/.watchr.toml", ".watchr.toml"]);
}

#[test]
fn search_from_a_file_ends_as_from_its_directory() {
    let tmp_dir = TempDir::new().unwrap();
    let path = tmp_dir.path();
    let conf_path = create_file(path, ".watchr.toml");
    let sub_dir = create_dir(path, "sub");
    let file = create_file(&sub_dir, "notes.txt");

    assert_eq!(find_config_file(&text(&file)).unwrap(), text(&conf_path));
    assert_eq!(
        find_config_file(&text(&file)).unwrap(),
        find_config_file(&text(&sub_dir)).unwrap()
    );
    let dirs = config_search_dirs(&text(&file));
    assert_eq!(dirs[1..].to_vec(), config_search_dirs(&text(&sub_dir)));
}
