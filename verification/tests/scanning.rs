//! Tests for entry resolution and scan-result construction.

use ls_willette::default_zone;
use ls_willette::entry::{resolve_entry, LsError, RawMeta};
use ls_willette::scan::{build_scan_result, ChildRecord};

fn meta(mode: u32, size: u64, modified_secs: Option<i64>) -> RawMeta {
    RawMeta { mode, size, modified_secs }
}

fn child(name: &str, primary: Result<RawMeta, LsError>) -> ChildRecord {
    ChildRecord {
        path_text: format!("./{}", name),
        name: Ok(name.to_string()),
        primary,
        fallback: None,
    }
}

#[test]
fn resolve_uses_primary_metadata() {
    let r = resolve_entry(
        String::from("a.txt"),
        Ok(meta(0o644, 42, None)),
        None,
        "UTC",
    );
    let e = r.expect("primary metadata resolves");
    assert_eq!(e.filename, "a.txt");
    assert_eq!(e.privileges, Some(String::from("rw-r--r--")));
    assert_eq!(e.size, Some(42));
    assert_eq!(e.last_edit_time, None);
}

#[test]
fn resolve_dangling_link_falls_back_to_link_metadata() {
    let r = resolve_entry(
        String::from("dangling"),
        Err(LsError::NotFound),
        Some(Ok(meta(0o777, 9, None))),
        "UTC",
    );
    let e = r.expect("link-aware metadata resolves");
    assert_eq!(e.filename, "dangling");
    assert_eq!(e.privileges, Some(String::from("rwxrwxrwx")));
    assert_eq!(e.size, Some(9));
}

#[test]
fn resolve_nonexistent_path_is_not_found() {
    let r = resolve_entry(
        String::from("gone"),
        Err(LsError::NotFound),
        Some(Err(LsError::NotFound)),
        "UTC",
    );
    assert_eq!(r, Err(LsError::NotFound));

    let r = resolve_entry(String::from("gone"), Err(LsError::NotFound), None, "UTC");
    assert_eq!(r, Err(LsError::NotFound));
}

#[test]
fn resolve_unreadable_path_is_access_denied() {
    let r = resolve_entry(
        String::from("locked"),
        Err(LsError::AccessDenied),
        Some(Err(LsError::AccessDenied)),
        "UTC",
    );
    assert_eq!(r, Err(LsError::AccessDenied));
}

#[test]
fn resolve_renders_timestamp_in_utc() {
    let r = resolve_entry(
        String::from("a"),
        Ok(meta(0o644, 1, Some(1577836800))),
        None,
        "UTC",
    );
    let e = r.expect("resolves");
    assert_eq!(e.last_edit_time, Some(String::from("01/01/2020 00:00:00")));
}

#[test]
fn resolve_renders_timestamp_in_central_time() {
    let r = resolve_entry(
        String::from("a"),
        Ok(meta(0o644, 1, Some(1577836800))),
        None,
        default_zone(),
    );
    let e = r.expect("resolves");
    assert_eq!(e.last_edit_time, Some(String::from("31/12/2019 18:00:00")));
}

#[test]
fn resolve_unknown_zone_leaves_timestamp_absent() {
    let r = resolve_entry(
        String::from("a"),
        Ok(meta(0o644, 1, Some(1577836800))),
        None,
        "Nowhere/Here",
    );
    let e = r.expect("resolves");
    assert_eq!(e.last_edit_time, None);
}

#[test]
fn default_zone_is_us_central() {
    assert_eq!(default_zone(), "US/Central");
}

#[test]
fn scan_returns_names_in_lexicographic_order() {
    let children = vec![
        child("b.txt", Ok(meta(0o644, 1, None))),
        child("a", Ok(meta(0o755, 2, None))),
    ];
    let scan = build_scan_result(&children, "UTC");
    assert_eq!(scan.entries.len(), 2);
    assert_eq!(scan.entries[0].filename, "a");
    assert_eq!(scan.entries[1].filename, "b.txt");
    assert_eq!(scan.failures.len(), 0);
    assert!(!scan.is_partial_failure());
}

#[test]
fn scan_keeps_one_entry_per_name() {
    let children = vec![
        child("same", Ok(meta(0o644, 1, None))),
        child("same", Ok(meta(0o755, 2, None))),
    ];
    let scan = build_scan_result(&children, "UTC");
    assert_eq!(scan.entries.len(), 1);
    assert_eq!(scan.entries[0].filename, "same");
}

#[test]
fn scan_collects_failures_and_keeps_going() {
    let children = vec![
        child("ok.txt", Ok(meta(0o644, 1, None))),
        child("secret", Err(LsError::AccessDenied)),
        ChildRecord {
            path_text: String::from("./\u{fffd}garbled"),
            name: Err(LsError::EncodingError),
            primary: Ok(meta(0o644, 1, None)),
            fallback: None,
        },
    ];
    let scan = build_scan_result(&children, "UTC");
    assert_eq!(scan.entries.len(), 1);
    assert_eq!(scan.entries[0].filename, "ok.txt");
    assert_eq!(scan.failures.len(), 2);
    assert_eq!(scan.failures[0].path_text, "./secret");
    assert_eq!(scan.failures[0].error, LsError::AccessDenied);
    assert_eq!(scan.failures[1].error, LsError::EncodingError);
    assert!(scan.is_partial_failure());
}

#[test]
fn scan_child_with_failed_fallback_reports_fallback_error() {
    let children = vec![ChildRecord {
        path_text: String::from("./ghost"),
        name: Ok(String::from("ghost")),
        primary: Err(LsError::NotFound),
        fallback: Some(Err(LsError::NotFound)),
    }];
    let scan = build_scan_result(&children, "UTC");
    assert_eq!(scan.entries.len(), 0);
    assert_eq!(scan.failures.len(), 1);
    assert_eq!(scan.failures[0].error, LsError::NotFound);
}
