use navi::logview::{filtered_lines, highlight, level_filter_keeps, log_status, log_title, log_window, LogWindow, MAX_KEEP};

fn strings(xs: &[&str]) -> Vec<String> {
    xs.iter().map(|s| s.to_string()).collect()
}

#[test]
fn untagged_line_is_always_kept() {
    assert!(level_filter_keeps("plain output", &vec![]));
}

#[test]
fn tagged_line_follows_its_level() {
    let levels = strings(&["ERROR", "WARN"]);
    assert!(level_filter_keeps("[WARN] disk almost full", &levels));
    assert!(!level_filter_keeps("[INFO] copying paths", &levels));
    assert!(!level_filter_keeps("DEBUG trace", &levels));
}

#[test]
fn filter_applies_levels_and_query() {
    let lines = strings(&["INFO a", "ERROR b", "plain c", "INFO d"]);
    let levels = strings(&["ERROR"]);
    assert_eq!(filtered_lines(&lines, &levels, &None), strings(&["ERROR b", "plain c"]));
    assert_eq!(filtered_lines(&lines, &levels, &Some("c".to_string())), strings(&["plain c"]));
}

#[test]
fn all_levels_shown_keeps_every_line() {
    let lines = strings(&["INFO a", "DEBUG b"]);
    let levels = strings(&["ERROR", "WARN", "INFO", "DEBUG"]);
    assert_eq!(filtered_lines(&lines, &levels, &None), lines);
}

#[test]
fn only_newest_lines_are_kept() {
    let lines: Vec<String> = (0..MAX_KEEP + 3).map(|i| format!("line {}", i)).collect();
    let levels = strings(&["ERROR", "WARN", "INFO", "DEBUG"]);
    let kept = filtered_lines(&lines, &levels, &None);
    assert_eq!(kept.len(), MAX_KEEP);
    assert_eq!(kept[0], "line 3");
    assert_eq!(kept[MAX_KEEP - 1], format!("line {}", MAX_KEEP + 2));
}

#[test]
fn window_sticks_to_newest() {
    assert_eq!(log_window(100, 12, 40, true), LogWindow { offset: 0, scroll_y: 90, percent: 0 });
}

#[test]
fn window_clamps_offset() {
    assert_eq!(log_window(100, 12, 500, false), LogWindow { offset: 90, scroll_y: 0, percent: 100 });
    assert_eq!(log_window(100, 12, 45, false), LogWindow { offset: 45, scroll_y: 45, percent: 50 });
}

#[test]
fn window_of_short_content() {
    assert_eq!(log_window(3, 12, 7, false), LogWindow { offset: 0, scroll_y: 0, percent: 100 });
}

#[test]
fn status_line_text() {
    assert_eq!(log_status(42, true, false), " 42% | WRAP | MANUAL ");
    assert_eq!(log_status(100, false, true), " 100% | NOWRAP | STICK ");
}

#[test]
fn title_text() {
    assert_eq!(log_title(None, None), "Logs (Global)");
    assert_eq!(log_title(Some("web"), Some("err")), "Logs: web [Filter: 'err']");
}

#[test]
fn highlight_marks_matches() {
    let pieces = highlight("abcabxab", "ab");
    let expected: Vec<(String, bool)> = vec![
        ("ab".to_string(), true),
        ("c".to_string(), false),
        ("ab".to_string(), true),
        ("x".to_string(), false),
        ("ab".to_string(), true),
    ];
    assert_eq!(pieces, expected);
    assert_eq!(highlight("none here", "zz"), vec![("none here".to_string(), false)]);
    assert_eq!(highlight("", "zz"), Vec::<(String, bool)>::new());
}

#[test]
fn highlight_pieces_join_back() {
    for (line, search) in [("error: disk error", "error"), ("aaa", "aa"), ("nothing here", "zzz"), ("xx", "x")] {
        let pieces = highlight(line, search);
        let joined: String = pieces.iter().map(|(t, _)| t.as_str()).collect();
        assert_eq!(joined, line);
        assert!(pieces.iter().filter(|(_, m)| *m).all(|(t, _)| t == search));
    }
}
