//! What the terminal widgets show, apart from how it is drawn: the shortcut bar's
//! segments, the routes table's rows and the logs panel's title, offset and scrollbar.

use vstd::prelude::*;
use vstd::utf8::encode_utf8;
use crate::text::push_str;
use crate::data_model::{DomainTableRow, DomainRowKind, RowView, rows_view};
use crate::app_state::{App, AppView, can_start};
use crate::table::{display_upstream, displayed_upstream, upstream_host, host_is_loopback_literal, fit_trailing_column_width, split_project_path};

verus! {

/// A key and what it does.
#[derive(Debug, Clone, Copy)]
pub struct Shortcut {
    pub key: &'static str,
    pub description: &'static str,
}

impl Shortcut {
    /// The shortcut `key` that does `description`.
    pub fn new(key: &'static str, description: &'static str) -> (r: Shortcut)
        ensures
            r.key == key,
            r.description == description,
    {
        Shortcut { key, description }
    }
}

/// The shortcuts of the main screen.
pub fn main_shortcuts() -> (r: Vec<Shortcut>)
    ensures
        r.len() == 6,
        r[0].key@ == "↑ ↓"@ && r[0].description@ == "select"@,
        r[1].key@ == "enter"@ && r[1].description@ == "enable/disable"@,
        r[2].key@ == "r"@ && r[2].description@ == "refresh"@,
        r[3].key@ == "x"@ && r[3].description@ == "stop"@,
        r[4].key@ == "shift+r"@ && r[4].description@ == "restart"@,
        r[5].key@ == "q"@ && r[5].description@ == "quit"@,
{
    vec![
        Shortcut::new("↑ ↓", "select"),
        Shortcut::new("enter", "enable/disable"),
        Shortcut::new("r", "refresh"),
        Shortcut::new("x", "stop"),
        Shortcut::new("shift+r", "restart"),
        Shortcut::new("q", "quit"),
    ]
}

/// The shortcuts while the daemon is offline.
pub fn offline_shortcuts() -> (r: Vec<Shortcut>)
    ensures
        r.len() == 3,
        r[0].key@ == "enter"@ && r[0].description@ == "start cadderd"@,
        r[1].key@ == "r"@ && r[1].description@ == "retry"@,
        r[2].key@ == "q"@ && r[2].description@ == "quit"@,
{
    vec![Shortcut::new("enter", "start cadderd"), Shortcut::new("r", "retry"), Shortcut::new("q", "quit")]
}

/// The shortcuts while an operation is pending.
pub fn pending_shortcuts() -> (r: Vec<Shortcut>)
    ensures
        r.len() == 1,
        r[0].key@ == "q"@ && r[0].description@ == "quit"@,
{
    vec![Shortcut::new("q", "quit")]
}

/// The shortcuts while a confirmation is asked.
pub fn confirmation_shortcuts() -> (r: Vec<Shortcut>)
    ensures
        r.len() == 3,
        r[0].key@ == "enter"@ && r[0].description@ == "confirm"@,
        r[1].key@ == "esc"@ && r[1].description@ == "cancel"@,
        r[2].key@ == "q"@ && r[2].description@ == "quit"@,
{
    vec![Shortcut::new("enter", "confirm"), Shortcut::new("esc", "cancel"), Shortcut::new("q", "quit")]
}

/// How a segment of the shortcut bar is styled.
#[derive(Debug, Clone, Copy, PartialEq, Eq, Structural)]
pub enum SegmentStyle {
    Separator,
    Key,
    Description,
}

/// A run of text in the shortcut bar and its style.
#[derive(Debug, Clone)]
pub struct BarSegment {
    pub style: SegmentStyle,
    pub text: String,
}

/// The segments of the bar for `s`: for each shortcut, after a separator if it is not the
/// first, its key, then a space and its description.
pub open spec fn bar_segments(s: Seq<Shortcut>) -> Seq<(SegmentStyle, Seq<char>)>
    decreases s.len(),
{
    if s.len() == 0 {
        seq![]
    } else {
        let prev = bar_segments(s.drop_last());
        let last = s.last();
        let sep: Seq<(SegmentStyle, Seq<char>)> = if s.len() > 1 {
            seq![(SegmentStyle::Separator, " · "@)]
        } else {
            seq![]
        };
        prev + sep + seq![(SegmentStyle::Key, last.key@), (SegmentStyle::Description, " "@ + last.description@)]
    }
}

pub open spec fn segments_view(v: Seq<BarSegment>) -> Seq<(SegmentStyle, Seq<char>)> {
    v.map_values(|b: BarSegment| (b.style, b.text@))
}

/// The bar of shortcuts at the foot of the screen.
pub struct ShortcutsBar<'a> {
    pub shortcuts: &'a [Shortcut],
}

impl<'a> ShortcutsBar<'a> {
    /// The bar showing `shortcuts`.
    pub fn new(shortcuts: &'a [Shortcut]) -> (r: ShortcutsBar<'a>)
        ensures
            r.shortcuts@ == shortcuts@,
    {
        ShortcutsBar { shortcuts }
    }

    /// The styled text runs that the bar shows, in order.
    pub fn segments(&self) -> (r: Vec<BarSegment>)
        ensures
            segments_view(r@) == bar_segments(self.shortcuts@),
    {
        let mut out: Vec<BarSegment> = Vec::new();
        let mut i: usize = 0;
        while i < self.shortcuts.len()
            invariant
                i <= self.shortcuts@.len(),
                segments_view(out@) == bar_segments(self.shortcuts@.subrange(0, i as int)),
            decreases self.shortcuts@.len() - i,
        {
            let ghost prev = out@;
            let shortcut = self.shortcuts[i];
            if i > 0 {
                out.push(BarSegment { style: SegmentStyle::Separator, text: " · ".to_string() });
            }
            out.push(BarSegment { style: SegmentStyle::Key, text: shortcut.key.to_string() });
            let mut description = " ".to_string();
            push_str(&mut description, shortcut.description);
            out.push(BarSegment { style: SegmentStyle::Description, text: description });
            proof {
                let s = self.shortcuts@.subrange(0, i + 1);
                assert(s.drop_last() =~= self.shortcuts@.subrange(0, i as int));
                assert(s.last() == shortcut);
                if i > 0 {
                    assert(segments_view(out@) =~= segments_view(prev) + seq![(SegmentStyle::Separator, " · "@)]
                        + seq![(SegmentStyle::Key, shortcut.key@), (SegmentStyle::Description, " "@ + shortcut.description@)]);
                } else {
                    assert(segments_view(out@) =~= segments_view(prev) + Seq::<(SegmentStyle, Seq<char>)>::empty()
                        + seq![(SegmentStyle::Key, shortcut.key@), (SegmentStyle::Description, " "@ + shortcut.description@)]);
                }
            }
            i = i + 1;
        }
        proof {
            assert(self.shortcuts@.subrange(0, self.shortcuts@.len() as int) =~= self.shortcuts@);
        }
        out
    }
}

/// The table of routes, with the message shown when it has none.
pub struct RoutesTable {
    pub rows: Vec<DomainTableRow>,
    pub empty_message: &'static str,
}

impl RoutesTable {
    /// The table of `rows`, showing `empty_message` when there are none.
    pub fn new(rows: Vec<DomainTableRow>, empty_message: &'static str) -> (r: RoutesTable)
        ensures
            r.rows@ == rows@,
            r.empty_message == empty_message,
    {
        RoutesTable { rows, empty_message }
    }

    /// Whether the empty message is shown in place of rows.
    pub fn shows_empty_message(&self) -> (r: bool)
        ensures
            r == (self.rows@.len() == 0),
    {
        self.rows.len() == 0
    }
}

/// The panel of log lines, scrolled down by `scroll` lines.
pub struct LogsPanel<'a> {
    pub title: &'a str,
    pub lines: &'a [String],
    pub scroll: usize,
}

impl<'a> LogsPanel<'a> {
    /// The panel titled `title` showing `lines` from line `scroll` on.
    pub fn new(title: &'a str, lines: &'a [String], scroll: usize) -> (r: LogsPanel<'a>)
        ensures
            r.title@ == title@,
            r.lines@ == lines@,
            r.scroll == scroll,
    {
        LogsPanel { title, lines, scroll }
    }

    /// The title as drawn in the panel's border: padded by a space on each side.
    pub fn framed_title(&self) -> (r: String)
        ensures
            r@ == " "@ + self.title@ + " "@,
    {
        let mut t = " ".to_string();
        push_str(&mut t, self.title);
        push_str(&mut t, " ");
        t
    }

    /// The vertical offset handed to the terminal, which counts lines in 16 bits: the
    /// scroll position, or the largest such count where it is larger.
    pub fn scroll_offset(&self) -> (r: u16)
        ensures
            r == if self.scroll <= u16::MAX as usize { self.scroll as u16 } else { u16::MAX },
    {
        if self.scroll <= 65535 {
            self.scroll as u16
        } else {
            65535
        }
    }

    /// Whether the panel needs a scrollbar: it holds more lines than fit in `inner_height`.
    pub fn needs_scrollbar(&self, inner_height: u16) -> (r: bool)
        ensures
            r == (self.lines@.len() > inner_height as int),
    {
        self.lines.len() > inner_height as usize
    }
}

/// The width of the selection column.
pub const SELECTOR_COLUMN_WIDTH: u16 = 3;

/// The least width of the project and domain column.
pub const PRIMARY_COLUMN_MIN_WIDTH: u16 = 20;

/// The space between two columns.
pub const COLUMN_SPACING: u16 = 1;

/// The width that the terminal gives a line of text, in columns.
pub uninterp spec fn line_width(text: Seq<char>) -> nat;

/// The display width of a line of text (`ratatui::text::Line::width`).
#[verifier::external_body]
fn display_width(text: &str) -> (r: usize)
    ensures
        r == line_width(text@),
{
    ratatui::text::Line::from(text).width()
}

/// The label an upstream gets in the table.
pub open spec fn shown_upstream(upstream: Seq<char>) -> Seq<char> {
    displayed_upstream(
        upstream,
        match upstream_host(upstream) {
            Some(h) => host_is_loopback_literal(h),
            None => false,
        },
    )
}

/// The width that the target column's content needs: its widest domain label, and at
/// least its heading `Target`.
pub open spec fn target_content_width(rows: Seq<RowView>) -> nat
    decreases rows.len(),
{
    if rows.len() == 0 {
        line_width("Target"@)
    } else {
        let w = target_content_width(rows.drop_last());
        let last = rows.last();
        if last.kind == DomainRowKind::Domain && line_width(shown_upstream(last.endpoint)) > w {
            line_width(shown_upstream(last.endpoint))
        } else {
            w
        }
    }
}

/// The width the target column's content needs.
pub fn trailing_column_content_width(rows: &Vec<DomainTableRow>) -> (r: usize)
    ensures
        r == target_content_width(rows_view(rows@)),
{
    let mut widest = display_width("Target");
    let mut i: usize = 0;
    while i < rows.len()
        invariant
            i <= rows.len(),
            widest == target_content_width(rows_view(rows@.subrange(0, i as int))),
        decreases rows.len() - i,
    {
        proof {
            assert(rows_view(rows@.subrange(0, i + 1)).drop_last() =~= rows_view(rows@.subrange(0, i as int)));
            assert(rows_view(rows@.subrange(0, i + 1)).last() == rows@[i as int]@);
        }
        if rows[i].kind() == DomainRowKind::Domain {
            let label = display_upstream(rows[i].endpoint());
            let w = display_width(label.as_str());
            if w > widest {
                widest = w;
            }
        }
        i = i + 1;
    }
    proof {
        assert(rows@.subrange(0, rows@.len() as int) =~= rows@);
    }
    widest
}

/// Where the routes table's rows, target column and scrollbar go in its inner area.
#[derive(Debug, Clone, Copy, PartialEq, Eq, Structural)]
pub struct TableLayout {
    /// The rows that fit below the header.
    pub viewport: usize,
    /// The width of the target column.
    pub trailing_width: u16,
    /// Whether the rows need a scrollbar.
    pub scrollbar: bool,
}

/// The layout of the routes table in an inner area of `inner_width` by `inner_height`: the
/// header and its margin take two lines and at least one row shows; the target column gets
/// what its content needs, within what the other columns leave.
pub fn table_layout(rows: &Vec<DomainTableRow>, inner_width: u16, inner_height: u16) -> (r: TableLayout)
    ensures
        r.viewport == (if inner_height >= 3 { inner_height - 2 } else { 1 }),
        r.trailing_width == (if target_content_width(rows_view(rows@)) < (if inner_width >= 25 { inner_width - 25 } else { 0 }) {
            target_content_width(rows_view(rows@)) as int
        } else {
            (if inner_width >= 25 { inner_width - 25 } else { 0 }) as int
        }),
        r.scrollbar == (rows@.len() > r.viewport),
{
    let viewport: usize = if inner_height >= 3 { (inner_height - 2) as usize } else { 1 };
    let available: u16 = if inner_width >= SELECTOR_COLUMN_WIDTH + PRIMARY_COLUMN_MIN_WIDTH + 2 * COLUMN_SPACING {
        inner_width - (SELECTOR_COLUMN_WIDTH + PRIMARY_COLUMN_MIN_WIDTH + 2 * COLUMN_SPACING)
    } else {
        0
    };
    let content = trailing_column_content_width(rows);
    let trailing_width = fit_trailing_column_width(content, available);
    TableLayout { viewport, trailing_width, scrollbar: rows.len() > viewport }
}

/// The body of the routes table: its rows, laid out within the table's frame.
pub struct TableBody {
    pub rows: Vec<DomainTableRow>,
}

impl TableBody {
    /// The body of `rows`.
    pub fn new(rows: Vec<DomainTableRow>) -> (r: TableBody)
        ensures
            r.rows@ == rows@,
    {
        TableBody { rows }
    }

    /// The layout of the body in a frame whose inside is `inner_width` by `inner_height`
    /// (see `table_layout`).
    pub fn layout(&self, inner_width: u16, inner_height: u16) -> (r: TableLayout)
        ensures
            r.viewport == (if inner_height >= 3 { inner_height - 2 } else { 1 }),
            r.trailing_width == (if target_content_width(rows_view(self.rows@)) < (if inner_width >= 25 {
                inner_width - 25
            } else {
                0
            }) {
                target_content_width(rows_view(self.rows@)) as int
            } else {
                (if inner_width >= 25 { inner_width - 25 } else { 0 }) as int
            }),
            r.scrollbar == (self.rows@.len() > r.viewport),
    {
        table_layout(&self.rows, inner_width, inner_height)
    }
}

proof fn lemma_encoded_length(chars: Seq<char>)
    ensures
        encode_utf8(chars).len() <= 4 * chars.len(),
    decreases chars.len(),
{
    if chars.len() > 0 {
        lemma_encoded_length(chars.drop_first());
        assert(vstd::utf8::encode_scalar(chars[0] as u32).len() <= 4);
    }
}

proof fn lemma_encode_concat(a: Seq<char>, b: Seq<char>)
    ensures
        encode_utf8(a + b) == encode_utf8(a) + encode_utf8(b),
    decreases a.len(),
{
    if a.len() == 0 {
        assert(a + b =~= b);
        assert(encode_utf8(a) + encode_utf8(b) =~= encode_utf8(b));
    } else {
        assert((a + b).drop_first() =~= a.drop_first() + b);
        assert((a + b)[0] == a[0]);
        lemma_encode_concat(a.drop_first(), b);
        assert(encode_utf8(a) + encode_utf8(b) =~= vstd::utf8::encode_scalar(a[0] as u32) + (encode_utf8(a.drop_first())
            + encode_utf8(b)));
    }
}

/// The marker of a row: filled when enabled.
pub fn state_marker(active: bool) -> (r: &'static str)
    ensures
        r@ == (if active { "●"@ } else { "○"@ }),
{
    if active {
        "●"
    } else {
        "○"
    }
}

/// The text of one row of the routes table.
#[derive(Debug, Clone)]
pub struct RowCells {
    /// Filled or hollow.
    pub marker: &'static str,
    /// Shown dimmed before the primary text: a project path's leading part.
    pub dimmed_prefix: String,
    /// The project's emphasized name part, or the indented domain.
    pub primary: String,
    /// The domain's target; empty for a project.
    pub trailing: String,
    /// Whether the row is styled as enabled.
    pub styled_enabled: bool,
}

/// The cells of a row: a project shows its path split at its emphasis start; a domain shows
/// its name indented by two spaces and its upstream's label.
pub fn row_cells(row: &DomainTableRow) -> (r: RowCells)
    requires
        row@.name.len() <= usize::MAX / 4,
    ensures
        r.marker@ == (if row@.enabled { "●"@ } else { "○"@ }),
        r.styled_enabled == row@.visually_enabled,
        row@.kind == DomainRowKind::Domain ==> {
            &&& r.dimmed_prefix@ == Seq::<char>::empty()
            &&& r.primary@ == "  "@ + row@.name
            &&& r.trailing@ == shown_upstream(row@.endpoint)
        },
        row@.kind == DomainRowKind::Entrypoint ==> {
            &&& r.dimmed_prefix@ + r.primary@ == row@.name
            &&& r.trailing@ == Seq::<char>::empty()
        },
{
    let marker = state_marker(row.enabled());
    match row.kind() {
        DomainRowKind::Domain => {
            let mut primary = "  ".to_owned();
            push_str(&mut primary, row.name());
            RowCells {
                marker,
                dimmed_prefix: String::new(),
                primary,
                trailing: display_upstream(row.endpoint()),
                styled_enabled: row.visually_enabled(),
            }
        },
        DomainRowKind::Entrypoint => {
            let name = row.name();
            proof {
                lemma_encoded_length(name@);
            }
            let start = match row.name_emphasis_start() {
                Some(s) => s,
                None => 0,
            };
            let (prefix, emphasized) = split_project_path(name, start);
            proof {
                let bytes = encode_utf8(name@);
                lemma_encode_concat(prefix@, emphasized@);
                let at = encode_utf8(prefix@).len() as int;
                assert(bytes.subrange(0, at) + bytes.subrange(at, bytes.len() as int) =~= bytes);
                vstd::utf8::encode_utf8_decode_utf8(prefix@ + emphasized@);
                vstd::utf8::encode_utf8_decode_utf8(name@);
            }
            RowCells {
                marker,
                dimmed_prefix: prefix,
                primary: emphasized,
                trailing: String::new(),
                styled_enabled: row.visually_enabled(),
            }
        },
    }
}

/// Which shortcuts the footer offers.
#[derive(Debug, Clone, Copy, PartialEq, Eq, Structural)]
pub enum ShortcutSet {
    Confirmation,
    Pending,
    Offline,
    Main,
}

/// The footer's shortcuts for a state: a confirmation's while one is asked, only quitting
/// while an action is under way, starting the daemon while it is offline, else the main ones.
pub open spec fn shortcut_set_for(v: AppView) -> ShortcutSet {
    if v.confirmation is Some {
        ShortcutSet::Confirmation
    } else if v.pending is Some {
        ShortcutSet::Pending
    } else if can_start(v) {
        ShortcutSet::Offline
    } else {
        ShortcutSet::Main
    }
}

/// The set of shortcuts the footer offers now.
pub fn screen_shortcut_set(app: &App) -> (r: ShortcutSet)
    ensures
        r == shortcut_set_for(app@),
{
    if app.confirmation().is_some() {
        ShortcutSet::Confirmation
    } else if app.is_pending() {
        ShortcutSet::Pending
    } else if app.can_start_daemon() {
        ShortcutSet::Offline
    } else {
        ShortcutSet::Main
    }
}

/// The shortcuts of a set.
pub fn shortcuts_of(set: ShortcutSet) -> (r: Vec<Shortcut>)
    ensures
        set == ShortcutSet::Main ==> r.len() == 6,
        set == ShortcutSet::Offline ==> r.len() == 3 && r[0].description@ == "start cadderd"@,
        set == ShortcutSet::Pending ==> r.len() == 1 && r[0].description@ == "quit"@,
        set == ShortcutSet::Confirmation ==> r.len() == 3 && r[0].description@ == "confirm"@,
{
    match set {
        ShortcutSet::Confirmation => confirmation_shortcuts(),
        ShortcutSet::Pending => pending_shortcuts(),
        ShortcutSet::Offline => offline_shortcuts(),
        ShortcutSet::Main => main_shortcuts(),
    }
}

/// A rectangle of the terminal.
#[derive(Debug, Clone, Copy, PartialEq, Eq, Structural)]
pub struct Area {
    pub x: u16,
    pub y: u16,
    pub width: u16,
    pub height: u16,
}

/// The screen split into the main area and a footer line below it; a screen without height
/// has no footer.
pub fn root_areas(root: Area) -> (r: (Area, Area))
    requires
        root.y + root.height <= u16::MAX,
    ensures
        r.1.height == (if root.height >= 1 { 1int } else { 0int }),
        r.0 == (Area { height: (root.height - r.1.height) as u16, ..root }),
        r.1 == (Area { y: (root.y + r.0.height) as u16, height: r.1.height, ..root }),
{
    let footer_height: u16 = if root.height >= 1 { 1 } else { 0 };
    let main = Area { x: root.x, y: root.y, width: root.width, height: root.height - footer_height };
    let footer = Area { x: root.x, y: root.y + main.height, width: root.width, height: footer_height };
    (main, footer)
}

/// The heights of the optional logs panel and notice line below the routes table: the
/// notice takes a line when there is one; the logs panel, when open and when at least
/// eight lines remain below the header, takes a third of them, between six and twelve.
pub fn main_area_heights(height: u16, logs_open: bool, has_notice: bool) -> (r: (u16, u16))
    ensures
        r.1 == (if has_notice { 1int } else { 0int }),
        ({
            let available = if height >= 1 + r.1 { height - 1 - r.1 } else { 0 };
            r.0 == if logs_open && available >= 8 {
                if available / 3 < 6 {
                    6
                } else if available / 3 > 12 {
                    12
                } else {
                    available / 3
                }
            } else {
                0
            }
        }),
{
    let notice: u16 = if has_notice { 1 } else { 0 };
    let available: u16 = if height >= 1 + notice { height - 1 - notice } else { 0 };
    let logs: u16 = if logs_open && available >= 8 {
        let third = available / 3;
        if third < 6 {
            6
        } else if third > 12 {
            12
        } else {
            third
        }
    } else {
        0
    };
    (logs, notice)
}

/// What the header line shows: the title on the left, cut to its width, and the daemon's
/// and Caddy's status on the right when the line is wide enough.
#[derive(Debug, Clone)]
pub struct HeaderText {
    pub title: String,
    pub title_width: u16,
    pub status: String,
    pub status_width: u16,
    pub shows_status: bool,
}

/// The status part of the header: a marker and name for the daemon, a separator, a marker
/// and name for Caddy, and a trailing space.
pub open spec fn header_status(daemon_running: bool, caddy_running: bool) -> Seq<char> {
    (if daemon_running { "●"@ } else { "○"@ }) + " cadderd"@ + " · "@ + (if caddy_running { "●"@ } else { "○"@ })
        + " Caddy"@ + " "@
}

/// The header of a screen `width` columns wide for version `version`: the status takes its
/// display width (at most the largest 16-bit width); the title gets the rest less one
/// column, and at least one; the status shows only when the line is wider than it by more
/// than one column.
pub fn header_text(version: &str, daemon_running: bool, caddy_running: bool, width: u16) -> (r: HeaderText)
    ensures
        r.title@ == " Cadder v"@ + version@,
        r.status@ == header_status(daemon_running, caddy_running),
        r.status_width == (if line_width(r.status@) <= u16::MAX { line_width(r.status@) as int } else { u16::MAX as int }),
        r.title_width == (if width > r.status_width + 1 { width - r.status_width - 1 } else { 1 }),
        r.shows_status == (width > r.status_width + 1),
{
    let mut status = state_marker(daemon_running).to_owned();
    push_str(&mut status, " cadderd");
    push_str(&mut status, " · ");
    push_str(&mut status, state_marker(caddy_running));
    push_str(&mut status, " Caddy");
    push_str(&mut status, " ");
    let measured = display_width(status.as_str());
    let status_width: u16 = if measured <= 65535 { measured as u16 } else { 65535 };
    let needed: u32 = status_width as u32 + 1;
    let title_width: u16 = if (width as u32) > needed { (width as u32 - needed) as u16 } else { 1 };
    let mut title = " Cadder v".to_owned();
    push_str(&mut title, version);
    HeaderText { title, title_width, status, status_width, shows_status: (width as u32) > needed }
}

} // verus!
