use sway_ws::error::SwayWsError;
use sway_ws::workspace::{
    get_workspace_current, get_workspace_next, get_workspace_prev, get_workspace_special, Workspace,
};

fn ws(num: i32, output: &str, focused: bool) -> Workspace {
    Workspace::new(num, num.to_string(), output.to_string(), focused)
}

fn names(r: Result<Workspace, SwayWsError>) -> String {
    r.unwrap().name
}

#[test]
fn current_is_the_focused_workspace() {
    let snapshot = vec![ws(1, "A", false), ws(4, "B", true), ws(2, "A", false)];
    assert_eq!(get_workspace_current(&snapshot), Ok(ws(4, "B", true)));
}

#[test]
fn current_without_focus_is_an_error() {
    let snapshot = vec![ws(1, "A", false), ws(2, "B", false)];
    assert_eq!(get_workspace_current(&snapshot), Err(SwayWsError::NoFocusedWorkspace));
    assert_eq!(get_workspace_prev(&snapshot), Err(SwayWsError::NoFocusedWorkspace));
    assert_eq!(get_workspace_next(&snapshot), Err(SwayWsError::NoFocusedWorkspace));
    assert_eq!(get_workspace_current(&Vec::new()), Err(SwayWsError::NoFocusedWorkspace));
}

#[test]
fn middle_of_three_on_one_output() {
    let snapshot = vec![
        ws(1, "A", false),
        ws(7, "B", false),
        ws(2, "A", true),
        ws(3, "A", false),
    ];
    assert_eq!(get_workspace_prev(&snapshot), Ok(ws(1, "A", false)));
    assert_eq!(get_workspace_next(&snapshot), Ok(ws(3, "A", false)));
}

#[test]
fn single_workspace_output_returns_itself() {
    let snapshot = vec![ws(5, "A", true), ws(6, "B", false)];
    assert_eq!(get_workspace_prev(&snapshot), Ok(ws(5, "A", true)));
    assert_eq!(get_workspace_next(&snapshot), Ok(ws(5, "A", true)));
}

#[test]
fn ring_wraps_around_at_both_ends() {
    let first = vec![ws(1, "A", true), ws(2, "A", false), ws(9, "B", false), ws(3, "A", false)];
    assert_eq!(names(get_workspace_prev(&first)), "3");
    assert_eq!(names(get_workspace_next(&first)), "2");
    let last = vec![ws(1, "A", false), ws(2, "A", false), ws(9, "B", false), ws(3, "A", true)];
    assert_eq!(names(get_workspace_prev(&last)), "2");
    assert_eq!(names(get_workspace_next(&last)), "1");
}

#[test]
fn ring_is_the_focused_output_only() {
    let snapshot = vec![ws(1, "B", false), ws(2, "A", false), ws(3, "B", true), ws(4, "A", false)];
    assert_eq!(names(get_workspace_prev(&snapshot)), "1");
    assert_eq!(names(get_workspace_next(&snapshot)), "1");
}

#[test]
fn ring_of_any_length_and_focus() {
    for n in 1..6usize {
        for k in 0..n {
            let mut snapshot = Vec::new();
            for i in 0..n {
                snapshot.push(ws(i as i32 + 1, "A", i == k));
                snapshot.push(ws(100 + i as i32, "B", false));
            }
            let prev = (k + n - 1) % n;
            let next = (k + 1) % n;
            assert_eq!(names(get_workspace_prev(&snapshot)), (prev + 1).to_string());
            assert_eq!(names(get_workspace_next(&snapshot)), (next + 1).to_string());
        }
    }
}

#[test]
fn special_tokens_resolve_to_names() {
    let snapshot = vec![ws(1, "A", false), ws(2, "A", true), ws(3, "A", false)];
    assert_eq!(get_workspace_special("current".to_string(), &snapshot), Ok("2".to_string()));
    assert_eq!(get_workspace_special("prev".to_string(), &snapshot), Ok("1".to_string()));
    assert_eq!(get_workspace_special("next".to_string(), &snapshot), Ok("3".to_string()));
}

#[test]
fn other_tokens_pass_through() {
    let snapshot = vec![ws(1, "A", false)];
    for token in ["web", "", "Current", "prev ", "nex", "4"] {
        assert_eq!(get_workspace_special(token.to_string(), &snapshot), Ok(token.to_string()));
    }
}

#[test]
fn special_tokens_without_focus_fail() {
    let snapshot = vec![ws(1, "A", false)];
    for token in ["current", "prev", "next"] {
        assert_eq!(
            get_workspace_special(token.to_string(), &snapshot),
            Err(SwayWsError::NoFocusedWorkspace)
        );
    }
}
