use cadder::table::{apply_scroll_margin, display_upstream, fit_trailing_column_width, split_project_path, TableScroll};

#[test]
fn trailing_column_is_limited_only_by_the_available_terminal_width() {
    assert_eq!(fit_trailing_column_width(usize::MAX, 31), 31);
}

#[test]
fn trailing_column_keeps_a_narrow_content_width() {
    assert_eq!(fit_trailing_column_width(12, 80), 12);
}

#[test]
fn loopback_upstreams_show_only_the_port() {
    for upstream in [
        "localhost:3000",
        "LOCALHOST:3000",
        "127.0.0.1:3000",
        "[::1]:3000",
        "::1:3000",
    ] {
        assert_eq!(display_upstream(upstream), ":3000");
    }
}

#[test]
fn non_loopback_upstreams_remain_explicit() {
    assert_eq!(display_upstream("192.168.1.20:3000"), "192.168.1.20:3000");
    assert_eq!(display_upstream("example.test:3000"), "example.test:3000");
    assert_eq!(display_upstream("not-an-endpoint"), "not-an-endpoint");
    assert_eq!(display_upstream("example.test:http"), "example.test:http");
}

#[test]
fn scroll_margin_keeps_the_selection_visible() {
    let mut state = TableScroll { selected: Some(9), offset: 0 };
    apply_scroll_margin(&mut state, 10, 4);
    assert_eq!(state.offset, 6);
    assert_eq!(state.selected, Some(9));

    let mut short = TableScroll { selected: Some(1), offset: 3 };
    apply_scroll_margin(&mut short, 3, 5);
    assert_eq!(short.offset, 0);
}

#[test]
fn project_path_splits_at_the_emphasis_start() {
    let (prefix, name) = split_project_path("D:/Projects/app", 12);
    assert_eq!(prefix, "D:/Projects/");
    assert_eq!(name, "app");
}

#[test]
fn trailing_column_grows_to_fit_its_longest_value() {
    let endpoint = "[ffff:ffff:ffff:ffff:ffff:ffff:255.255.255.255]:65535";
    let content_width = ratatui::text::Line::from(endpoint).width();

    assert_eq!(fit_trailing_column_width(content_width, u16::MAX), u16::try_from(content_width).unwrap());
}

#[test]
fn scroll_margin_handles_empty_small_and_large_viewports() {
    let mut unselected = TableScroll::default();
    apply_scroll_margin(&mut unselected, 20, 5);
    assert_eq!(unselected.offset, 0);

    let mut small = TableScroll { selected: Some(2), offset: 9 };
    apply_scroll_margin(&mut small, 3, 5);
    assert_eq!(small.offset, 0);

    let mut large = TableScroll { selected: Some(18), offset: 0 };
    apply_scroll_margin(&mut large, 20, 5);
    assert_eq!(large.offset, 15);
    large.selected = Some(1);
    apply_scroll_margin(&mut large, 20, 5);
    assert_eq!(large.offset, 0);

    let (prefix, emphasized) = split_project_path("żółć/project", 1);
    assert_eq!(
        ratatui::text::Line::from(format!("{prefix}{emphasized}")).width(),
        ratatui::text::Line::from("żółć/project").width()
    );
}
