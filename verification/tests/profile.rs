use bnvr::profile::crud::{
    activate, add, age_since, del, secs_or_zero, effective_config, get, get_active, is_active, list, refresh_active_config, resolve,
    set_active, ProfileEntry, ProfileError, ProfileKind, ProfileMeta, RawRead,
};
use bnvr::profile::merge::{check_merge_request, merged_meta, MergeRequestError};
use bnvr::profile::sync::{response_config, sync_targets, sync_url, SyncAllResult, SyncResult};

fn remote_meta(url: &str) -> ProfileMeta {
    add("x", url, None, false, 10).unwrap()
}

fn listed(name: &str, meta: Option<ProfileMeta>) -> ProfileEntry {
    ProfileEntry { name: name.to_string(), is_dir: true, meta, has_raw: false, has_processed: false }
}

#[test]
fn test_add_get_roundtrip() {
    let meta = add("alpha", "http://example.com/a.yml", Some("ua/1"), false, 100).unwrap();
    let info = get("alpha", true, Ok(meta), None, false, false).unwrap();
    assert_eq!(info.name, "alpha");
    assert_eq!(info.meta.kind, ProfileKind::Remote);
    assert_eq!(info.meta.url.as_deref(), Some("http://example.com/a.yml"));
    assert_eq!(info.meta.user_agent.as_deref(), Some("ua/1"));
    assert!(!info.has_raw);
}

#[test]
fn test_duplicate_add_rejected() {
    let err = add("alpha", "http://example.com/b.yml", None, true, 0).unwrap_err();
    assert_eq!(err.message(), "profile already exists: alpha");
}

#[test]
fn test_del_clears_active() {
    assert!(del("alpha", true).is_ok());
    assert!(is_active(get_active(Some("alpha\n")).as_deref(), "alpha"));
    assert!(!is_active(get_active(Some("beta")).as_deref(), "alpha"));
}

#[test]
fn test_del_removes_directory_and_clears_active() {
    assert_eq!(del("gone", false).unwrap_err().message(), "profile not found: gone");
    assert!(is_active(Some("gone"), "gone"));
}

#[test]
fn test_list_sorts_and_skips_dotfiles() {
    let entries = vec![
        listed("beta", Some(remote_meta("http://example.com/b.yml"))),
        listed("alpha", Some(remote_meta("http://example.com/a.yml"))),
        listed(".hidden", Some(remote_meta("http://example.com/h.yml"))),
        listed("broken", None),
    ];
    let profiles = list(entries, Some("beta"));
    assert_eq!(profiles.len(), 2);
    assert_eq!(profiles[0].name, "alpha");
    assert_eq!(profiles[1].name, "beta");
    assert!(profiles[1].active && !profiles[0].active);
}

#[test]
fn test_effective_config_prefers_processed() {
    let c = effective_config("alpha", Some("proxies: [processed]\n".into()), RawRead::Content("proxies: []\n".into()));
    assert_eq!(c.unwrap(), "proxies: [processed]\n");
    let c = effective_config("alpha", None, RawRead::Content("proxies: []\n".into()));
    assert_eq!(c.unwrap(), "proxies: []\n");
    let err = effective_config("alpha", None, RawRead::Missing).unwrap_err();
    assert_eq!(err.message(), "no config stored for profile alpha (run `bnvr profile sync` first)");
}

#[test]
fn test_resolve_errors_with_no_active_profile() {
    let err = resolve(None, None).unwrap_err();
    assert_eq!(err.message(), "no active profile (run `bnvr profile use <name>`)");
    assert_eq!(resolve(Some("a"), Some("b".into())).unwrap(), "a");
    assert_eq!(resolve(None, Some("b".into())).unwrap(), "b");
}

#[test]
fn test_activate_writes_config_yaml() {
    assert_eq!(activate("/h/.bnvr", "alpha", true).unwrap(), "/h/.bnvr/config.yaml");
    assert!(matches!(activate("/h/.bnvr", "alpha", false), Err(ProfileError::NotFound(_))));
    assert!(set_active("../x", true).is_err());
}

#[test]
fn get_reports_bad_meta() {
    let err = get("alpha", true, Err("expected value at line 1".into()), None, false, false).unwrap_err();
    assert_eq!(err.message(), "invalid meta.json for profile alpha: expected value at line 1");
    assert_eq!(get("alpha", false, Err(String::new()), None, false, false).unwrap_err().message(), "profile not found: alpha");
}

#[test]
fn refresh_only_for_active() {
    assert!(refresh_active_config("a", Some("a")));
    assert!(!refresh_active_config("a", Some("b")));
    assert!(!refresh_active_config("a", None));
}

#[test]
fn ages() {
    assert_eq!(age_since(100, 41), "59s");
    assert_eq!(age_since(100, 100), "0s");
    assert_eq!(age_since(4000, 400), "1h");
    assert_eq!(age_since(7200, 0), "2h");
    assert_eq!(age_since(200000, 0), "2d");
    assert_eq!(age_since(0, 5), "0s");
    assert_eq!(age_since(180, 0), "3m");
}

#[test]
fn merge_request_checks() {
    let one = vec!["a".to_string()];
    assert_eq!(check_merge_request(&one, None).unwrap_err().message(), "merge needs at least two profiles");
    let dup = vec!["a".to_string(), "b".to_string(), "a".to_string()];
    assert_eq!(check_merge_request(&dup, None).unwrap_err().message(), "duplicate source: a");
    let two = vec!["a".to_string(), "b".to_string()];
    assert_eq!(check_merge_request(&two, None).unwrap(), "a+b");
    assert_eq!(check_merge_request(&two, Some("all")).unwrap(), "all");
    assert!(matches!(check_merge_request(&two, Some("a")), Err(MergeRequestError::IntoSource(_))));
    assert!(matches!(check_merge_request(&two, Some("x/y")), Err(MergeRequestError::Invalid(_))));
}

#[test]
fn test_sync_rejects_non_yaml_body() {
    assert_eq!(response_config("").unwrap_err().message(), "empty response from subscription URL");
    assert_eq!(response_config("\u{feff}\u{feff}proxies: []").unwrap(), "proxies: []");
    assert_eq!(response_config("a\u{feff}").unwrap(), "a\u{feff}");
}

#[test]
fn test_sync_all_empty() {
    let results = SyncAllResult::new();
    assert!(results.synced.is_empty());
    assert!(results.failed.is_empty());
    assert!(sync_targets(&Vec::new()).is_empty());
}

#[test]
fn test_sync_all_returns_successes_and_failures() {
    let mut merged = listed("m", Some(merged_meta(&vec!["a".into(), "b".into()], 1, 2)));
    merged.has_raw = true;
    let profiles = list(
        vec![
            listed("good", Some(remote_meta("http://127.0.0.1/good"))),
            listed("bad", Some(remote_meta("http://127.0.0.1/bad"))),
            merged,
        ],
        None,
    );
    assert_eq!(sync_targets(&profiles), vec!["bad".to_string(), "good".to_string()]);
    let mut results = SyncAllResult::new();
    results.record_failure("bad".into(), "HTTP 500 Internal Server Error from http://127.0.0.1/bad".into());
    results.record_success(SyncResult { name: "good".into(), bytes: 11, path: "/p".into() });
    assert_eq!(results.synced.len(), 1);
    assert_eq!(results.synced[0].name, "good");
    assert_eq!(results.failed.len(), 1);
    assert_eq!(results.failed[0].name, "bad");
    assert!(results.failed[0].error.contains("HTTP 500"));
}

#[test]
fn test_sync_one_not_found() {
    let err = get("nonexistent", false, Err(String::new()), None, false, false).unwrap_err();
    assert!(err.message().contains("not found"));
    let info = get("m", true, Ok(merged_meta(&vec!["a".into(), "b".into()], 1, 2)), None, false, false).unwrap();
    assert_eq!(sync_url(&info).unwrap_err().message(), "profile m has no url");
}

#[test]
fn clock_reading_before_epoch_counts_as_zero() {
    assert_eq!(secs_or_zero(Some(1_700_000_000)), 1_700_000_000);
    assert_eq!(secs_or_zero(None), 0);
}
