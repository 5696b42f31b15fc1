use std::path::Path;

use bnvr::paths::{
    active_kernel_file, active_plugin_file, bnvr_home, db_file, join_path, kernel_binary_path,
    kernel_version_dir, kernels_dir, log_dir, overwrite_dir, pid_file, plugin_dir, plugin_entry, plugin_python,
    plugin_venv, validate_component,
};

const HOME: &str = "/home/user/.bnvr";

fn file_name(p: &str) -> String {
    Path::new(p).file_name().unwrap().to_string_lossy().into_owned()
}

fn parent_ends_with(p: &str, last: &str) -> bool {
    Path::new(p).parent().unwrap().ends_with(last)
}

#[test]
fn paths_test_pid_file_name() {
    let path = pid_file(HOME);
    assert_eq!(file_name(&path), "bnvr.pid");
    assert!(parent_ends_with(&path, ".bnvr"));
}

#[test]
fn paths_test_db_file_name() {
    let path = db_file(HOME);
    assert_eq!(file_name(&path), "bnvr.db");
}

#[test]
fn paths_test_log_dir_name() {
    let path = log_dir(HOME);
    assert_eq!(file_name(&path), "logs");
    assert!(parent_ends_with(&path, ".bnvr"));
}

#[test]
fn test_kernels_dir_name() {
    let path = kernels_dir(HOME);
    assert_eq!(file_name(&path), "kernels");
    assert!(parent_ends_with(&path, ".bnvr"));
}

#[test]
fn test_active_kernel_file_name() {
    let path = active_kernel_file(HOME);
    assert_eq!(file_name(&path), ".active");
    assert!(parent_ends_with(&path, "kernels"));
}

#[test]
fn test_kernel_version_dir() {
    let path = kernel_version_dir(HOME, "v1.19.27");
    assert_eq!(file_name(&path), "v1.19.27");
    assert!(parent_ends_with(&path, "kernels"));
}

#[test]
fn test_kernel_binary_path() {
    let windows = kernel_binary_path(HOME, "v1.19.27", true);
    assert_eq!(file_name(&windows), "mihomo.exe");
    let other = kernel_binary_path(HOME, "v1.19.27", false);
    assert_eq!(file_name(&other), "mihomo");
}

#[test]
fn test_overwrite_dir_name() {
    let path = overwrite_dir(HOME);
    assert_eq!(file_name(&path), "overwrite");
    assert!(parent_ends_with(&path, ".bnvr"));
}

#[test]
fn test_active_plugin_file_name() {
    let path = active_plugin_file(HOME);
    assert_eq!(file_name(&path), ".active");
    assert!(parent_ends_with(&path, "overwrite"));
}

#[test]
fn test_plugin_dir() {
    let path = plugin_dir(HOME, "my-plugin");
    assert_eq!(file_name(&path), "my-plugin");
    assert!(parent_ends_with(&path, "overwrite"));
}

#[test]
fn test_plugin_venv() {
    let path = plugin_venv(HOME, "my-plugin");
    assert_eq!(file_name(&path), ".venv");
    assert!(parent_ends_with(&path, "my-plugin"));
}

#[test]
fn test_plugin_python_path() {
    let windows = plugin_python(HOME, "my-plugin", true);
    assert!(Path::new(&windows).ends_with(Path::new("Scripts").join("python.exe")));
    let other = plugin_python(HOME, "my-plugin", false);
    assert!(Path::new(&other).ends_with("bin/python"));
}

#[test]
fn test_plugin_entry_name() {
    let path = plugin_entry(HOME, "my-plugin");
    assert_eq!(file_name(&path), "overwrite.py");
    assert!(parent_ends_with(&path, "my-plugin"));
}

#[test]
fn paths_test_bnvr_home_ends_with_dot_bnvr() {
    let home = bnvr_home(None).expect("a home directory");
    assert!(Path::new(&home).ends_with(".bnvr"));
    assert_eq!(bnvr_home(Some("/srv/bnvr")).unwrap(), "/srv/bnvr");
}

#[test]
fn daemon_home_is_dot_bnvr() {
    let home = bnvr::daemon::paths::bnvr_home().expect("a home directory");
    assert!(Path::new(&home).ends_with(".bnvr"));
}

#[test]
fn test_pid_file_name() {
    let path = bnvr::daemon::paths::pid_file().expect("a home directory");
    assert_eq!(file_name(&path), "bnvr.pid");
    assert!(parent_ends_with(&path, ".bnvr"));
}

#[test]
fn test_db_file_name() {
    let path = bnvr::daemon::paths::db_file().expect("a home directory");
    assert_eq!(file_name(&path), "bnvr.db");
}

#[test]
fn test_log_dir_name() {
    let path = bnvr::daemon::paths::log_dir().expect("a home directory");
    assert_eq!(file_name(&path), "logs");
    assert!(parent_ends_with(&path, ".bnvr"));
}

#[test]
fn join_adds_one_separator() {
    assert_eq!(join_path("/a", "b"), "/a/b");
    assert_eq!(join_path("/a/", "b"), "/a/b");
    assert_eq!(join_path("", "b"), "b");
}

#[test]
fn validate_component_rejects_path_tricks() {
    for bad in ["", ".", "..", "../escape", "a/b", "a\\b"] {
        let err = validate_component(bad, "username").unwrap_err();
        assert_eq!(err.message(), format!("invalid username: {bad}"));
    }
    assert!(validate_component("valid-plugin", "username").is_ok());
    assert!(validate_component("..a", "username").is_ok());
}

#[test]
fn daemon_home_below_user_home() {
    let home = bnvr::daemon::paths::home_below(Some("/home/ada".to_string()));
    assert_eq!(home.as_deref(), Some("/home/ada/.bnvr"));
    assert!(bnvr::daemon::paths::home_below(None).is_none());
}

#[test]
fn daemon_files_below_user_home() {
    assert_eq!(bnvr::daemon::paths::file_below(Some("/home/ada".to_string()), "bnvr.pid").as_deref(), Some("/home/ada/.bnvr/bnvr.pid"));
    assert_eq!(bnvr::daemon::paths::file_below(Some("/home/ada/".to_string()), "bnvr.db").as_deref(), Some("/home/ada/.bnvr/bnvr.db"));
    assert_eq!(bnvr::daemon::paths::file_below(Some("/home/ada".to_string()), "logs").as_deref(), Some("/home/ada/.bnvr/logs"));
    assert!(bnvr::daemon::paths::file_below(None, "logs").is_none());
}

#[test]
fn program_home_from_setting_or_user_home() {
    assert_eq!(bnvr::paths::home_or(Some("/custom"), Some("/home/ada".to_string())).as_deref(), Some("/custom"));
    assert_eq!(bnvr::paths::home_or(Some("/custom"), None).as_deref(), Some("/custom"));
    assert_eq!(bnvr::paths::home_or(None, Some("/home/ada".to_string())).as_deref(), Some("/home/ada/.bnvr"));
    assert!(bnvr::paths::home_or(None, None).is_none());
}
