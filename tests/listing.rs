use sway_ws::listing::{decimal_string, pad_left_string, workspace_listing};
use sway_ws::workspace::Workspace;

fn ws(num: i32, name: &str) -> Workspace {
    Workspace::new(num, name.to_string(), "A".to_string(), false)
}

#[test]
fn decimal_text_of_integers() {
    assert_eq!(decimal_string(0), "0");
    assert_eq!(decimal_string(7), "7");
    assert_eq!(decimal_string(10), "10");
    assert_eq!(decimal_string(-1), "-1");
    assert_eq!(decimal_string(1234), "1234");
    assert_eq!(decimal_string(i32::MAX), "2147483647");
    assert_eq!(decimal_string(i32::MIN), "-2147483648");
}

#[test]
fn padding_aligns_right() {
    assert_eq!(pad_left_string("7", 3), "  7");
    assert_eq!(pad_left_string("web", 2), "web");
    assert_eq!(pad_left_string("", 2), "  ");
    assert_eq!(pad_left_string("é", 2), " é");
}

#[test]
fn listing_uses_width_of_last_number() {
    let workspaces = vec![ws(1, "1"), ws(2, "web"), ws(10, "10")];
    assert_eq!(workspace_listing(&workspaces), vec![" 1  1", " 2 web", "10 10"]);
}

#[test]
fn listing_of_nothing_is_empty() {
    assert!(workspace_listing(&Vec::new()).is_empty());
}

#[test]
fn listing_matches_std_formatting() {
    let workspaces = vec![ws(3, "mail"), ws(-1, "scratch"), ws(12, "x")];
    let width = 2;
    let expected: Vec<String> = workspaces
        .iter()
        .map(|w| format!("{0:>width$} {1:>width$}", w.num, w.name, width = width))
        .collect();
    assert_eq!(workspace_listing(&workspaces), expected);
}
