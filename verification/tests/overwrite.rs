use bnvr::overwrite::bridge::{
    check_exit, check_hook_files, check_response, hook_files, hook_output, hook_request, hook_timed_out, HookError,
};
use bnvr::overwrite::crud::{
    check_add, check_remove, clone_failure, get_active, init, list, mark_updated, new_meta, pull_timeout_message,
    pull_timeout_secs, remote_url, removal_clears_active, set_active, update_action, PluginEntry, PluginError,
    PluginKind, PluginMeta, UpdateAction, ENTRY_TEMPLATE,
};
use bnvr::overwrite::git::{git_result, run_git, run_git_active, GitError};

fn entry(name: &str, is_dir: bool, has_entry: bool) -> PluginEntry {
    PluginEntry { name: name.to_string(), is_dir, meta: None, has_venv: false, has_entry }
}

#[test]
fn test_init_creates_plugin_structure() {
    let meta = init("test-plugin", false, 1700).unwrap();
    assert_eq!(meta.kind, PluginKind::Local);
    assert_eq!(meta.link, "");
    assert_eq!(meta.created_at, 1700);
    assert!(meta.updated_at.is_none());
    assert!(ENTRY_TEMPLATE.contains("def preprocess(config):"));
}

#[test]
fn test_init_duplicate_fails() {
    let result = init("test-plugin", true, 0);
    assert!(result.is_err());
    assert!(result.unwrap_err().message().contains("already exists"));
}

#[test]
fn test_init_rejects_invalid_plugin_names_without_escape() {
    for name in ["", ".", "..", "../escape", "a/b", "a\\b"] {
        let result = init(name, false, 0);
        assert!(result.is_err());
        assert!(matches!(result.unwrap_err(), PluginError::Invalid(_)));
    }
}

#[test]
fn test_init_accepts_hyphenated_plugin_name() {
    assert!(init("valid-plugin", false, 0).is_ok());
}

#[test]
fn test_overwrite_py_contains_all_hooks() {
    for hook in ["preprocess", "postprocess", "on_node_switch", "on_network_dropped"] {
        assert!(ENTRY_TEMPLATE.contains(&format!("def {hook}(")));
    }
}

#[test]
fn test_list_empty() {
    let plugins = list(Vec::new(), None);
    assert!(plugins.is_empty());
}

#[test]
fn test_list_plugins() {
    let entries = vec![
        entry("plugin-b", true, false),
        entry("plugin-a", true, true),
        entry(".active", false, false),
    ];
    let plugins = list(entries, get_active(Some("plugin-b")).as_deref());
    assert_eq!(plugins.len(), 2);
    assert_eq!(plugins[0].name, "plugin-a");
    assert!(plugins[0].has_entry);
    assert_eq!(plugins[1].name, "plugin-b");
    assert!(plugins[1].active);
}

#[test]
fn list_uses_recorded_kind() {
    let mut remote = entry("r", true, true);
    remote.meta = Some(new_meta(PluginKind::Remote, "https://example.com/r.git", 5, None, Some("10s")));
    let plugins = list(vec![remote, entry(".hidden", true, true)], None);
    assert_eq!(plugins.len(), 1);
    assert_eq!(plugins[0].kind, PluginKind::Remote);
    assert_eq!(plugins[0].meta.as_ref().unwrap().timeout.as_deref(), Some("10s"));
}

#[test]
fn test_set_active() {
    assert!(set_active("test-plugin", true).is_ok());
    assert_eq!(get_active(Some("test-plugin\n")).unwrap(), "test-plugin");
}

#[test]
fn test_set_active_missing_fails() {
    let result = set_active("missing", false);
    assert!(result.is_err());
    assert!(result.unwrap_err().message().contains("not found"));
}

#[test]
fn add_checks_in_order() {
    assert!(matches!(check_add("a/b", Some("1h"), None, true), Err(PluginError::Invalid(_))));
    assert!(matches!(check_add("p", Some("1h"), None, true), Err(PluginError::Duration(_))));
    assert_eq!(check_add("p", None, None, true).unwrap_err().message(), "plugin already exists: p");
    assert_eq!(check_add("p", Some("10s"), Some("1m"), false).unwrap(), true);
    assert_eq!(check_add("p", None, Some("1m"), false).unwrap(), false);
}

#[test]
fn remote_links_resolve() {
    assert_eq!(remote_url("owner/plugin"), "https://github.com/owner/plugin");
    assert_eq!(remote_url("https://git.example.com/p.git"), "https://git.example.com/p.git");
    assert_eq!(remote_url(&remote_url("owner/plugin")), "https://github.com/owner/plugin");
}

#[test]
fn clone_failure_trims_output() {
    assert_eq!(clone_failure("  fatal: repository not found\n").message(), "git clone failed: fatal: repository not found");
    assert_eq!(PluginError::GitMissing.message(), "git not found; install git to use remote plugins");
}

#[test]
fn update_decisions() {
    let local = new_meta(PluginKind::Local, "/src", 1, None, None);
    assert_eq!(update_action(&local, true).unwrap_err().message(), "local plugins cannot be updated via Git");
    let mut remote = new_meta(PluginKind::Remote, "https://github.com/o/p", 1, None, Some("45s"));
    assert!(matches!(update_action(&remote, false), Ok(UpdateAction::Clone(l)) if l == "https://github.com/o/p"));
    assert!(matches!(update_action(&remote, true), Ok(UpdateAction::Pull(45))));
    remote.timeout = Some("bogus".into());
    assert!(matches!(update_action(&remote, true), Ok(UpdateAction::Pull(30))));
    assert_eq!(pull_timeout_secs(None), 30);
    assert_eq!(pull_timeout_message(30), "git pull timed out after 30s");
    mark_updated(&mut remote, 99);
    assert_eq!(remote.updated_at, Some(99));
    assert_eq!(remote.created_at, 1);
}

#[test]
fn remove_decisions() {
    assert!(check_remove("p", true).is_ok());
    assert_eq!(check_remove("p", false).unwrap_err().message(), "plugin not found: p");
    assert!(removal_clears_active(Some("p"), "p"));
    assert!(!removal_clears_active(Some("q"), "p"));
    assert!(!removal_clears_active(None, "p"));
}

#[test]
fn test_run_git_plugin_not_found() {
    let result = run_git("/home/u/.bnvr", "nonexistent", false);
    assert!(result.is_err());
    assert!(result.unwrap_err().message().contains("not found"));
    assert_eq!(run_git("/home/u/.bnvr", "p", true).unwrap(), "/home/u/.bnvr/overwrite/p");
}

#[test]
fn test_run_git_active_no_plugin() {
    let result = run_git_active(None);
    assert!(result.is_err());
    assert!(result.unwrap_err().message().contains("no active plugin"));
    assert_eq!(run_git_active(Some("p".into())).unwrap(), "p");
}

#[test]
fn git_output_is_combined() {
    assert_eq!(git_result("On branch main\n", "", true, Some(0)).unwrap(), "On branch main\n");
    assert_eq!(git_result("out", "err", true, Some(0)).unwrap(), "out\nerr");
    assert_eq!(git_result("", "err", true, Some(0)).unwrap(), "err");
    let err = git_result("", "fatal: bad", false, Some(128)).unwrap_err();
    assert_eq!(err.message(), "git exited with code 128: fatal: bad");
    let err = git_result("", "", false, None).unwrap_err();
    assert!(matches!(err, GitError::Failed { code: -1, .. }));
}

#[test]
fn hook_checks() {
    let files = hook_files("/h", "p", false);
    assert_eq!(files.python, "/h/overwrite/p/.venv/bin/python");
    assert_eq!(files.entry, "/h/overwrite/p/overwrite.py");
    let err = check_hook_files("nonexistent", &files, false, false).unwrap_err();
    assert!(err.message().contains("not found"));
    assert_eq!(
        err.message(),
        "python not found for plugin 'nonexistent'; run `bnvr overwrite init nonexistent` first"
    );
    assert_eq!(
        check_hook_files("p", &files, true, false).unwrap_err().message(),
        "entry point not found: /h/overwrite/p/overwrite.py"
    );
    assert!(check_hook_files("p", &files, true, true).is_ok());
    assert_eq!(hook_timed_out("preprocess").message(), "hook 'preprocess' timed out after 3s");
    assert_eq!(
        check_exit("preprocess", false, Some(1), " boom \n").unwrap_err().message(),
        "hook 'preprocess' failed (exit 1): boom"
    );
    assert!(check_exit("preprocess", true, Some(0), "").is_ok());
    assert!(matches!(
        check_response("x", Some("unknown hook: x".into())),
        Err(HookError::Returned { .. })
    ));
    assert_eq!(
        check_response("x", Some("something went wrong".into())).unwrap_err().message(),
        "hook 'x' returned error: something went wrong"
    );
    assert!(check_response("x", None).is_ok());
}

#[test]
fn plugin_meta_fields() {
    let meta: PluginMeta = new_meta(PluginKind::Remote, "l", 3, Some("1d"), None);
    assert_eq!(meta.auto_sync.as_deref(), Some("1d"));
    assert!(meta.timeout.is_none());
}

#[test]
fn hook_request_frames_json() {
    assert_eq!(hook_request("on_load", "{\"a\":1}", None), "{\"hook\":\"on_load\",\"config\":{\"a\":1}}");
    assert_eq!(
        hook_request("x\"y\\z\n\u{1}", "null", Some("[1]")),
        "{\"hook\":\"x\\\"y\\\\z\\n\\u0001\",\"config\":null,\"extra\":[1]}"
    );
    let hook = "h\u{1f}\t\u{8}\u{c}\r/é";
    let framed = hook_request(hook, "{}", None);
    let parsed: serde_json::Value = serde_json::from_str(&framed).unwrap();
    assert_eq!(parsed["hook"], hook);
    assert_eq!(framed, format!("{{\"hook\":{},\"config\":{{}}}}", serde_json::to_string(hook).unwrap()));
}

#[test]
fn hook_output_reads_trimmed_stdout_after_success() {
    assert_eq!(hook_output("h", true, Some(0), "", "  {\"config\":1}\n").unwrap(), "{\"config\":1}");
    let err = hook_output("h", false, Some(2), " boom \n", "ignored").unwrap_err();
    assert_eq!(err.message(), "hook 'h' failed (exit 2): boom");
    assert_eq!(hook_output("h", false, None, "", "").unwrap_err().message(), "hook 'h' failed (exit -1): ");
}
