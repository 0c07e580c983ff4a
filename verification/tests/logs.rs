use cadder::logs::{split_lines, LogLine, LogStore};

#[test]
fn scrolling_is_bounded_by_the_dynamic_content_length() {
    let mut logs = LogStore::new();
    logs.set_notice("one\ntwo\nthree\nfour");
    logs.set_viewport(2);

    assert_eq!(logs.scroll(), 2);
    logs.scroll_up(usize::MAX);
    assert_eq!(logs.scroll(), 0);
    logs.scroll_down(1);
    assert_eq!(logs.scroll(), 1);
}

#[test]
fn notices_preserve_any_number_of_lines() {
    let mut logs = LogStore::new();
    logs.set_notice("one\ntwo\nthree");

    assert_eq!(logs.lines(), ["one", "two", "three"]);
}

#[test]
fn split_lines_drops_carriage_returns_and_a_final_newline() {
    assert_eq!(split_lines("a\r\nb\n"), vec!["a".to_string(), "b".to_string()]);
    assert_eq!(split_lines(""), Vec::<String>::new());
    assert_eq!(split_lines("\n\n"), vec![String::new(), String::new()]);
}

#[test]
fn scrolling_down_past_the_bottom_stops_at_the_newest_line() {
    let mut logs = LogStore::new();
    logs.set_notice("a\nb\nc");
    logs.set_viewport(1);
    logs.scroll_up(1);
    assert_eq!(logs.scroll(), 1);
    logs.scroll_down(10);
    assert_eq!(logs.scroll(), 2);
}

#[test]
fn replacing_entries_renders_each_line() {
    let mut logs = LogStore::new();
    logs.replace(vec![LogLine {
        timestamp: "12:00:00".to_string(),
        severity: "INFO".to_string(),
        message: "started".to_string(),
    }]);
    assert_eq!(logs.lines().len(), 1);
    assert_eq!(logs.lines()[0], "12:00:00 [INFO] started");
}
