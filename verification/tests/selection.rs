use chrome_resolve::connection::{select_target, TargetInfo};

fn make_target(id: &str, target_type: &str) -> TargetInfo {
    TargetInfo {
        id: id.to_string(),
        target_type: target_type.to_string(),
        title: format!("Title {id}"),
        url: format!("https://example.com/{id}"),
        ws_debugger_url: Some(format!("ws://127.0.0.1:9222/devtools/page/{id}")),
    }
}

#[test]
fn select_target_default_picks_first_page() {
    let targets = vec![
        make_target("bg1", "background_page"),
        make_target("page1", "page"),
        make_target("page2", "page"),
    ];
    let result = select_target(&targets, None).unwrap();
    assert_eq!(result.id, "page1");
}

#[test]
fn select_target_default_skips_non_page() {
    let targets = vec![
        make_target("sw1", "service_worker"),
        make_target("p1", "page"),
    ];
    let result = select_target(&targets, None).unwrap();
    assert_eq!(result.id, "p1");
}

#[test]
fn select_target_by_index() {
    let targets = vec![
        make_target("a", "page"),
        make_target("b", "page"),
        make_target("c", "page"),
    ];
    let result = select_target(&targets, Some("1")).unwrap();
    assert_eq!(result.id, "b");
}

#[test]
fn select_target_by_id() {
    let targets = vec![make_target("ABCDEF", "page"), make_target("GHIJKL", "page")];
    let result = select_target(&targets, Some("GHIJKL")).unwrap();
    assert_eq!(result.id, "GHIJKL");
}

#[test]
fn select_target_invalid_tab() {
    let targets = vec![make_target("a", "page")];
    let result = select_target(&targets, Some("nonexistent"));
    assert!(result.is_err());
    assert!(result.unwrap_err().message.contains("not found"));
}

#[test]
fn select_target_index_out_of_bounds() {
    let targets = vec![make_target("a", "page")];
    let result = select_target(&targets, Some("5"));
    assert!(result.is_err());
}

#[test]
fn select_target_empty_list_no_tab() {
    let targets: Vec<TargetInfo> = vec![];
    let result = select_target(&targets, None);
    assert!(result.is_err());
    assert!(result.unwrap_err().message.contains("No page targets"));
}

#[test]
fn select_target_no_page_targets() {
    let targets = vec![
        make_target("sw1", "service_worker"),
        make_target("bg1", "background_page"),
    ];
    let result = select_target(&targets, None);
    assert!(result.is_err());
}

#[test]
fn select_target_numeric_index_ignores_type() {
    let targets = vec![
        make_target("p0", "page"),
        make_target("sw1", "service_worker"),
        make_target("p2", "page"),
    ];
    let result = select_target(&targets, Some("1")).unwrap();
    assert_eq!(result.id, "sw1");
    assert_eq!(result.target_type, "service_worker");
}

#[test]
fn select_target_numeric_index_beats_all_digit_id() {
    // A selector that parses as an integer is always an index, even if
    // some target's ID is exactly those digits.
    let targets = vec![make_target("1", "page"), make_target("other", "page")];
    let result = select_target(&targets, Some("1")).unwrap();
    assert_eq!(result.id, "other");
}

#[test]
fn select_target_plus_sign_and_leading_zero_parse_as_index() {
    let targets = vec![
        make_target("a", "page"),
        make_target("b", "page"),
        make_target("c", "page"),
    ];
    assert_eq!(select_target(&targets, Some("+1")).unwrap().id, "b");
    assert_eq!(select_target(&targets, Some("02")).unwrap().id, "c");
}

#[test]
fn select_target_duplicate_id_picks_earliest() {
    let mut first = make_target("dup", "page");
    first.title = "first".to_string();
    let mut second = make_target("dup", "page");
    second.title = "second".to_string();
    let targets = vec![first, second];
    let result = select_target(&targets, Some("dup")).unwrap();
    assert_eq!(result.title, "first");
}

#[test]
fn select_target_huge_numeric_selector_is_tried_as_id() {
    // A numeral too large for usize does not parse, so it is matched as
    // a literal ID.
    let huge = "99999999999999999999999999999";
    let targets = vec![make_target(huge, "page")];
    let result = select_target(&targets, Some(huge)).unwrap();
    assert_eq!(result.id, huge);
}

#[test]
fn select_target_error_interpolates_selector() {
    let targets = vec![make_target("a", "page")];
    let err = select_target(&targets, Some("missing")).unwrap_err();
    assert_eq!(err.message, "Target not found: missing");
    assert_eq!(err.code.as_u8(), 3);
}

#[test]
fn cloned_target_keeps_all_fields() {
    let t = make_target("a", "page");
    let c = t.clone();
    assert_eq!(c.id, t.id);
    assert_eq!(c.target_type, t.target_type);
    assert_eq!(c.title, t.title);
    assert_eq!(c.url, t.url);
    assert_eq!(c.ws_debugger_url, t.ws_debugger_url);
}
