use cadder::app_state::{App, ConnectionStatus, RefreshOutcome};
use cadder::data_model::{DataModel, Snapshot, SnapshotDomain, SnapshotEntrypoint};
use cadder::widgets::{
    confirmation_shortcuts, main_shortcuts, offline_shortcuts, pending_shortcuts, row_cells, state_marker,
    table_layout, trailing_column_content_width, LogsPanel, RoutesTable, SegmentStyle, ShortcutsBar,
    header_text, main_area_heights, root_areas, screen_shortcut_set, shortcuts_of, Area, ShortcutSet,
};

#[test]
fn shortcut_bar_separates_shortcuts_and_prefixes_descriptions() {
    let shortcuts = offline_shortcuts();
    let bar = ShortcutsBar::new(&shortcuts);
    let segments = bar.segments();
    let texts: Vec<&str> = segments.iter().map(|s| s.text.as_str()).collect();
    assert_eq!(texts, vec!["enter", " start cadderd", " · ", "r", " retry", " · ", "q", " quit"]);
    assert_eq!(segments[0].style, SegmentStyle::Key);
    assert_eq!(segments[1].style, SegmentStyle::Description);
    assert_eq!(segments[2].style, SegmentStyle::Separator);
}

#[test]
fn shortcut_sets_match_each_screen() {
    assert_eq!(main_shortcuts().len(), 6);
    assert_eq!(main_shortcuts()[4].key, "shift+r");
    assert_eq!(pending_shortcuts()[0].description, "quit");
    assert_eq!(confirmation_shortcuts()[1].key, "esc");
    let single = pending_shortcuts();
    assert_eq!(ShortcutsBar::new(&single).segments().len(), 2);
    assert!(ShortcutsBar::new(&[]).segments().is_empty());
}

#[test]
fn routes_table_shows_the_empty_message_without_rows() {
    let table = RoutesTable::new(Vec::new(), "No routes yet.");
    assert!(table.shows_empty_message());
    assert_eq!(table.empty_message, "No routes yet.");
}

#[test]
fn logs_panel_frames_title_and_clamps_offset() {
    let lines: Vec<String> = (0..5).map(|i| format!("line {i}")).collect();
    let panel = LogsPanel::new("Logs", &lines, 3);
    assert_eq!(panel.framed_title(), " Logs ");
    assert_eq!(panel.scroll_offset(), 3);
    assert!(panel.needs_scrollbar(4));
    assert!(!panel.needs_scrollbar(5));
    let far = LogsPanel::new("Logs", &lines, 70_000);
    assert_eq!(far.scroll_offset(), u16::MAX);
}

fn sample_rows() -> Vec<cadder::data_model::DomainTableRow> {
    let snapshot = Snapshot {
        registrations: vec![SnapshotEntrypoint {
            registration_id: "entry-1".to_string(),
            working_directory: "workspace/project-1".to_string(),
            enabled: true,
            domains: vec![
                SnapshotDomain {
                    domain: "app.localhost".to_string(),
                    canonical_domain: "app.localhost".to_string(),
                    enabled: true,
                    upstream: Some("127.0.0.1:3000".to_string()),
                },
                SnapshotDomain {
                    domain: "api.localhost".to_string(),
                    canonical_domain: "api.localhost".to_string(),
                    enabled: false,
                    upstream: Some("example.internal:4000".to_string()),
                },
            ],
        }],
    };
    let mut model = DataModel::new();
    model.replace_snapshot(snapshot, &vec![10]);
    model.domain_rows()
}

#[test]
fn target_column_content_width_covers_every_domain_label() {
    let rows = sample_rows();
    assert_eq!(trailing_column_content_width(&rows), "example.internal:4000".len());
    assert_eq!(trailing_column_content_width(&Vec::new()), "Target".len());
}

#[test]
fn table_layout_reserves_header_lines_and_limits_the_target_column() {
    let rows = sample_rows();
    let roomy = table_layout(&rows, 80, 20);
    assert_eq!(roomy.viewport, 18);
    assert_eq!(roomy.trailing_width as usize, "example.internal:4000".len());
    assert!(!roomy.scrollbar);
    let tight = table_layout(&rows, 30, 3);
    assert_eq!(tight.viewport, 1);
    assert_eq!(tight.trailing_width, 5);
    assert!(tight.scrollbar);
    assert_eq!(table_layout(&rows, 10, 0).trailing_width, 0);
}

#[test]
fn row_cells_split_projects_and_label_domains() {
    let rows = sample_rows();
    let project = row_cells(&rows[0]);
    assert_eq!(project.marker, "●");
    assert_eq!(project.dimmed_prefix, "workspace/");
    assert_eq!(project.primary, "project-1");
    assert_eq!(project.trailing, "");
    let app = row_cells(rows.iter().find(|row| row.name() == "app.localhost").unwrap());
    assert_eq!(app.primary, "  app.localhost");
    assert_eq!(app.trailing, ":3000");
    let api = row_cells(rows.iter().find(|row| row.name() == "api.localhost").unwrap());
    assert_eq!(api.marker, "○");
    assert_eq!(api.trailing, "example.internal:4000");
    assert_eq!(state_marker(true), "●");
}

#[test]
fn footer_shortcuts_follow_the_screen_state() {
    let mut app = App::new();
    assert_eq!(screen_shortcut_set(&app), ShortcutSet::Main);
    app.apply_refresh(RefreshOutcome::Unavailable {
        connection: ConnectionStatus::Offline,
        message: "Cadder is not running.".to_string(),
        guidance: None,
    });
    assert_eq!(screen_shortcut_set(&app), ShortcutSet::Offline);
    assert_eq!(shortcuts_of(ShortcutSet::Offline)[0].description, "start cadderd");
    assert!(app.prepare_start_daemon());
    assert_eq!(screen_shortcut_set(&app), ShortcutSet::Pending);
    assert_eq!(shortcuts_of(ShortcutSet::Pending).len(), 1);
}

#[test]
fn screen_areas_leave_a_footer_line_and_size_optional_panels() {
    let (main, footer) = root_areas(Area { x: 0, y: 0, width: 80, height: 24 });
    assert_eq!(main, Area { x: 0, y: 0, width: 80, height: 23 });
    assert_eq!(footer, Area { x: 0, y: 23, width: 80, height: 1 });
    let (main, footer) = root_areas(Area { x: 2, y: 3, width: 10, height: 0 });
    assert_eq!(main.height, 0);
    assert_eq!(footer.height, 0);

    assert_eq!(main_area_heights(23, true, true), (7, 1));
    assert_eq!(main_area_heights(60, true, false), (12, 0));
    assert_eq!(main_area_heights(12, true, false), (6, 0));
    assert_eq!(main_area_heights(8, true, false), (0, 0));
    assert_eq!(main_area_heights(40, false, true), (0, 1));
}

#[test]
fn header_shows_title_and_status_when_wide_enough() {
    let header = header_text("1.2.3", true, false, 80);
    assert_eq!(header.title, " Cadder v1.2.3");
    assert_eq!(header.status, "● cadderd · ○ Caddy ");
    assert_eq!(header.status_width, 20);
    assert_eq!(header.title_width, 59);
    assert!(header.shows_status);
    let narrow = header_text("1.2.3", true, true, 21);
    assert!(!narrow.shows_status);
    assert_eq!(narrow.title_width, 1);
}
