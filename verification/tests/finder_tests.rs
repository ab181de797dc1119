use findybara::commands::ask_ai_prompt;
use findybara::mac_finder::paths_from_script_output;

fn reference(s: &str) -> Option<Vec<String>> {
    let paths: Vec<String> = s.lines().map(|l| l.trim().to_string()).filter(|l| !l.is_empty()).collect();
    if paths.is_empty() {
        None
    } else {
        Some(paths)
    }
}

#[test]
fn selection_paths_one_per_line() {
    assert_eq!(
        paths_from_script_output("/Users/me/a.txt\n/Users/me/My Folder/\n"),
        Some(vec!["/Users/me/a.txt".to_string(), "/Users/me/My Folder/".to_string()])
    );
    assert_eq!(paths_from_script_output("/Users/me/Desktop/"), Some(vec!["/Users/me/Desktop/".to_string()]));
}

#[test]
fn empty_output_means_no_selection() {
    assert_eq!(paths_from_script_output(""), None);
    assert_eq!(paths_from_script_output("\n \n\t\r\n"), None);
}

#[test]
fn lines_are_trimmed_and_blank_ones_dropped() {
    assert_eq!(
        paths_from_script_output("  /x  \r\n\n/y\n"),
        Some(vec!["/x".to_string(), "/y".to_string()])
    );
}

#[test]
fn selection_parsing_matches_lines_trim_filter() {
    for s in ["a\nb", "a\r\nb\r\n", "\n\na", " a \n\u{a0}b\u{3000}\n", "\r", "x\n\r\ny", "\u{85}\n/p"] {
        assert_eq!(paths_from_script_output(s), reference(s), "output {:?}", s);
    }
}

#[test]
fn prompt_layout() {
    assert_eq!(
        ask_ai_prompt("What is this?", "/Users/me/x.pdf", "x.pdf", ""),
        "Thông tin ngữ cảnh:\n- File/Thư mục: x.pdf\n- Đường dẫn: /Users/me/x.pdf\n- Chi tiết: \n\nCâu hỏi từ người dùng: What is this?"
    );
}

use findybara::tracker::{same_strings, toggle_hides, FinderTracker, FrontWindow, PathsAction};

fn sel(v: &[&str]) -> Option<Vec<String>> {
    Some(v.iter().map(|s| s.to_string()).collect())
}

fn finder(title: &str, big: bool) -> FrontWindow {
    FrontWindow { is_finder: true, is_self: false, title: title.to_string(), big_enough: big }
}

#[test]
fn tracker_analyses_a_selection_once() {
    let mut t = FinderTracker::new();
    match t.take_paths(sel(&["/a"])) {
        PathsAction::Analyze(p) => assert_eq!(p, vec!["/a".to_string()]),
        _ => panic!("expected a new selection"),
    }
    assert!(matches!(t.take_paths(sel(&["/a"])), PathsAction::Unchanged));
    match t.take_paths(sel(&["/a", "/b"])) {
        PathsAction::Analyze(p) => assert_eq!(p, vec!["/a".to_string(), "/b".to_string()]),
        _ => panic!("expected a new selection"),
    }
    assert!(matches!(t.take_paths(None), PathsAction::Hide));
    assert!(matches!(t.take_paths(sel(&["/a", "/b"])), PathsAction::Unchanged));
    t.forget();
    assert!(matches!(t.take_paths(sel(&["/a", "/b"])), PathsAction::Analyze(_)));
}

#[test]
fn tracker_title_changes() {
    let mut t = FinderTracker::new();
    assert!(t.note_front_window(&Some(finder("Downloads", true))));
    assert!(!t.note_front_window(&Some(finder("Downloads", true))));
    assert!(!t.note_front_window(&Some(finder("Desktop", false))));
    assert!(t.note_front_window(&Some(finder("Desktop", true))));
    let mut own = finder("Findybara", true);
    own.is_self = true;
    assert!(!t.note_front_window(&Some(own)));
    let mut safari = finder("Apple", true);
    safari.is_finder = false;
    assert!(!t.note_front_window(&Some(safari)));
    assert!(!t.note_front_window(&None));
    t.forget();
    assert!(t.note_front_window(&Some(finder("Desktop", true))));
}

#[test]
fn tracker_follows_only_a_valid_finder() {
    let mut t = FinderTracker::new();
    assert!(!t.should_follow(&finder("x", true)));
    t.take_paths(sel(&["/x"]));
    assert!(t.should_follow(&finder("x", true)));
    assert!(!t.should_follow(&finder("x", false)));
    t.take_paths(None);
    assert!(!t.should_follow(&finder("x", true)));
}

#[test]
fn string_lists_compare_elementwise() {
    let a = vec!["x".to_string(), "y".to_string()];
    let b = vec!["x".to_string(), "y".to_string()];
    let c = vec!["x".to_string()];
    let d = vec!["x".to_string(), "z".to_string()];
    assert!(same_strings(&a, &b));
    assert!(!same_strings(&a, &c));
    assert!(!same_strings(&a, &d));
}

#[test]
fn toggle_hides_only_an_enabled_visible_panel() {
    assert!(toggle_hides(true, true));
    assert!(!toggle_hides(true, false));
    assert!(!toggle_hides(false, true));
    assert!(!toggle_hides(false, false));
}

#[test]
fn selected_paths_hold_no_newline() {
    for s in ["a\nb\r\n", " x \n\n y", "one"] {
        for p in paths_from_script_output(s).unwrap() {
            assert!(!p.contains('\n'));
            assert_eq!(p.trim(), p);
            assert!(!p.is_empty());
        }
    }
}
