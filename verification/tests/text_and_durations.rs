use bnvr::profile::diff::{line_diff, DiffKind};
use bnvr::text::{
    contains_text, ends_with_text, i32_string, parse_u32, same_text, split_char, trimmed,
};
use bnvr::utilities::{effective_auto_sync_duration, parse_duration, validate_auto_sync_timeout, AmountError, DurationError};

#[test]
fn test_parse_duration_units() {
    assert_eq!(parse_duration("1s").unwrap(), 1);
    assert_eq!(parse_duration("2m").unwrap(), 120);
    assert_eq!(parse_duration("3d").unwrap(), 259200);
    assert_eq!(parse_duration("1y").unwrap(), 31536000);
}

#[test]
fn test_parse_duration_rejects_invalid_input() {
    for value in ["", "10", "0s", "-1s", "1h"] {
        assert!(parse_duration(value).is_err(), "{value} should fail");
    }
}

#[test]
fn test_effective_auto_sync_clamps_to_timeout() {
    assert_eq!(effective_auto_sync_duration("10s", Some("30s")).unwrap(), 30);
}

#[test]
fn test_parse_duration_public_units() {
    assert_eq!(parse_duration("1s").unwrap(), 1);
    assert_eq!(parse_duration("2m").unwrap(), 120);
    assert_eq!(parse_duration("1d").unwrap(), 86400);
    assert!(parse_duration("1h").is_err());
}

#[test]
fn parse_duration_error_variants() {
    assert_eq!(parse_duration("10").unwrap_err().message(), "invalid duration: 10");
    assert_eq!(parse_duration("xs").unwrap_err().message(), "cannot parse integer from empty string");
    assert_eq!(parse_duration("1.5m").unwrap_err().message(), "invalid digit found in string");
    assert_eq!(parse_duration("+s").unwrap_err().message(), "invalid digit found in string");
    assert_eq!(parse_duration("+7s").unwrap(), 7);
    assert_eq!(
        parse_duration("99999999999999999999s").unwrap_err().message(),
        "number too large to fit in target type"
    );
    assert_eq!(parse_duration("99999999999999999999xs").unwrap_err(), DurationError::Number(AmountError::PosOverflow));
    assert_eq!(parse_duration("5h").unwrap_err().message(), "invalid duration suffix: h");
    assert!(matches!(parse_duration("0s"), Err(DurationError::Invalid(_))));
    assert_eq!(parse_duration(" 5m").unwrap(), 300);
    assert_eq!(parse_duration("5m ").unwrap_err().message(), "invalid duration: 5m ");
    assert_eq!(parse_duration("99999999999999999y").unwrap(), u64::MAX);
}

#[test]
fn effective_auto_sync_keeps_longer_interval() {
    assert_eq!(effective_auto_sync_duration("1d", Some("30s")).unwrap(), 86400);
    assert_eq!(effective_auto_sync_duration("1m", None).unwrap(), 60);
    assert!(effective_auto_sync_duration("1m", Some("bad")).is_err());
}

#[test]
fn auto_sync_timeout_warning() {
    assert_eq!(validate_auto_sync_timeout(Some("10s"), Some("30s")).unwrap(), true);
    assert_eq!(validate_auto_sync_timeout(Some("1m"), Some("30s")).unwrap(), false);
    assert_eq!(validate_auto_sync_timeout(None, Some("30s")).unwrap(), false);
    assert!(validate_auto_sync_timeout(Some("1h"), None).is_err());
}

#[test]
fn test_line_diff_identical() {
    let diff = line_diff("a\nb\nc", "a\nb\nc");
    assert_eq!(diff.len(), 3);
    assert!(diff.iter().all(|d| d.kind == DiffKind::Unchanged));
}

#[test]
fn test_line_diff_completely_different() {
    let diff = line_diff("a\nb", "x\ny");
    assert!(diff.iter().all(|d| d.kind != DiffKind::Unchanged));
}

#[test]
fn test_line_diff_empty_old() {
    let diff = line_diff("", "a\nb");
    assert_eq!(diff.len(), 2);
    assert!(diff.iter().all(|d| d.kind == DiffKind::Added));
}

#[test]
fn test_line_diff_empty_new() {
    let diff = line_diff("a\nb", "");
    assert_eq!(diff.len(), 2);
    assert!(diff.iter().all(|d| d.kind == DiffKind::Removed));
}

#[test]
fn test_line_diff_addition() {
    let diff = line_diff("a\nc", "a\nb\nc");
    assert_eq!(diff.len(), 3);
    assert_eq!(diff[0].kind, DiffKind::Unchanged);
    assert_eq!(diff[1].kind, DiffKind::Added);
    assert_eq!(diff[2].kind, DiffKind::Unchanged);
}

#[test]
fn test_line_diff_removal() {
    let diff = line_diff("a\nb\nc", "a\nc");
    assert_eq!(diff.len(), 3);
    assert_eq!(diff[0].kind, DiffKind::Unchanged);
    assert_eq!(diff[1].kind, DiffKind::Removed);
    assert_eq!(diff[2].kind, DiffKind::Unchanged);
}

#[test]
fn line_diff_sides_rebuild_both_texts() {
    let diff = line_diff("x\ny\nz", "y\nw\nz\nq");
    let old: Vec<&str> =
        diff.iter().filter(|d| d.kind != DiffKind::Added).map(|d| d.content.as_str()).collect();
    let new: Vec<&str> =
        diff.iter().filter(|d| d.kind != DiffKind::Removed).map(|d| d.content.as_str()).collect();
    assert_eq!(old, vec!["x", "y", "z"]);
    assert_eq!(new, vec!["y", "w", "z", "q"]);
}

#[test]
fn text_helpers() {
    assert!(contains_text("a://b", "://"));
    assert!(!contains_text("ab", "abc"));
    assert!(contains_text("abc", ""));
    assert!(ends_with_text("mihomo.exe", ".exe"));
    assert!(same_text("x", "x") && !same_text("x", "y"));
    assert_eq!(parse_u32(&"4294967295".chars().collect::<Vec<_>>()), Some(u32::MAX));
    assert_eq!(parse_u32(&"4294967296".chars().collect::<Vec<_>>()), None);
    assert_eq!(parse_u32(&"+7".chars().collect::<Vec<_>>()), Some(7));
    assert_eq!(trimmed("  a b \n"), "a b");
    assert_eq!(i32_string(-1), "-1");
    assert_eq!(i32_string(128), "128");
    assert_eq!(split_char("a.b..c", '.'), vec!["a", "b", "", "c"]);
    assert_eq!(split_char("", '.'), vec![""]);
}

#[test]
fn duration_amount_may_end_in_unicode_space() {
    assert_eq!(parse_duration("5\u{3000}m").unwrap(), 300);
    assert_eq!(parse_duration("\u{a0}2d").unwrap(), 172800);
    assert_eq!(parse_duration("3éd").unwrap_err().message(), "invalid duration suffix: éd");
}
