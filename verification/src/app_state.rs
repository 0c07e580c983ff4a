//! The terminal interface's state machine: what the screen shows about the daemon, which
//! row is selected, which action is pending or awaits confirmation, what each key does, and
//! what the event loop does with each finished task.
//!
//! Drawing, reading keys and running the daemon requests happen around it: the loop hands
//! each event to `loop_step` and runs the effect it returns.

use vstd::prelude::*;
use crate::data_model::{
    DataModel, EntityId, EntityView, MutationTarget, Snapshot, SnapshotEntrypoint, entity_view, rows_view,
    table_rows, toggle_target, next_emphasis,
};
use crate::reports::CaddyRuntimeStatus;
use crate::operator::{unavailable_status, ConnectionStateView, DomainSelector, not_running_guidance_text, sentence_text, client_message, client_guidance};
use crate::ipc_errors::{IpcClientError, opt_view};
use crate::text::push_str;
use crate::logs::{LogLine, LogStore, saturating_sub, strings_view, replaced_lines, notice_lines};

verus! {

/// Why a requested action failed, and what to do about it.
#[derive(Debug, Clone)]
pub struct ActionFailure {
    pub message: String,
    pub guidance: Option<String>,
}

/// The view of a failure: its message and guidance.
pub open spec fn failure_view(f: ActionFailure) -> (Seq<char>, Option<Seq<char>>) {
    (
        f.message@,
        match f.guidance {
            Some(g) => Some(g@),
            None => None,
        },
    )
}

/// The view of an action's result.
pub open spec fn result_view(r: Result<(), ActionFailure>) -> Result<(), (Seq<char>, Option<Seq<char>>)> {
    match r {
        Ok(()) => Ok(()),
        Err(f) => Err(failure_view(f)),
    }
}

/// How the interface is connected to the daemon.
#[derive(Debug, Clone, Copy, PartialEq, Eq, Structural)]
pub enum ConnectionStatus {
    Connecting,
    Connected,
    Offline,
    Error,
}

/// A daemon lifecycle action that needs confirmation.
#[derive(Debug, Clone, Copy, PartialEq, Eq, Structural)]
pub enum LifecycleAction {
    Stop,
    Restart,
}

/// The daemon's and Caddy's state as the header shows it.
#[derive(Debug, Clone, Copy, PartialEq, Eq, Structural)]
pub struct RuntimeStatus {
    pub connection: ConnectionStatus,
    pub caddy_status: CaddyRuntimeStatus,
}

impl RuntimeStatus {
    /// The daemon runs when the interface is connected to it.
    pub fn daemon_is_running(self) -> (r: bool)
        ensures
            r == (self.connection == ConnectionStatus::Connected),
    {
        self.connection == ConnectionStatus::Connected
    }

    /// Caddy runs when the daemon runs and reports it running.
    pub fn caddy_is_running(self) -> (r: bool)
        ensures
            r == (self.connection == ConnectionStatus::Connected && self.caddy_status == CaddyRuntimeStatus::Running),
    {
        self.daemon_is_running() && self.caddy_status == CaddyRuntimeStatus::Running
    }

    /// Whether the daemon is known not to run.
    pub fn daemon_is_offline(self) -> (r: bool)
        ensures
            r == (self.connection == ConnectionStatus::Offline),
    {
        self.connection == ConnectionStatus::Offline
    }
}

/// What a refresh found: the daemon's snapshot, or why it could not be reached.
pub enum RefreshOutcome {
    /// The snapshot, Caddy's state, for each project of the snapshot the emphasis start of its
    /// name when none is remembered, and the followed log stream's entries or the message of
    /// the failure to read them.
    Connected {
        snapshot: Snapshot,
        caddy_status: CaddyRuntimeStatus,
        emphasis_defaults: Vec<usize>,
        logs: Result<Vec<LogLine>, String>,
    },
    Unavailable { connection: ConnectionStatus, message: String, guidance: Option<String> },
}

/// The view of a refresh outcome.
pub enum OutcomeView {
    Connected(Seq<SnapshotEntrypoint>, CaddyRuntimeStatus, Seq<usize>, Result<Seq<LogLine>, Seq<char>>),
    Unavailable(ConnectionStatus, Seq<char>, Option<Seq<char>>),
}

/// The view of a refresh outcome.
pub open spec fn outcome_view(o: RefreshOutcome) -> OutcomeView {
    match o {
        RefreshOutcome::Connected { snapshot, caddy_status, emphasis_defaults, logs } => OutcomeView::Connected(
            snapshot.registrations@,
            caddy_status,
            emphasis_defaults@,
            match logs {
                Ok(entries) => Ok(entries@),
                Err(message) => Err(message@),
            },
        ),
        RefreshOutcome::Unavailable { connection, message, guidance } => OutcomeView::Unavailable(
            connection,
            message@,
            match guidance {
                Some(g) => Some(g@),
                None => None,
            },
        ),
    }
}

/// A refresh outcome is consistent when a snapshot comes with one emphasis default per
/// project.
pub open spec fn outcome_wf(o: RefreshOutcome) -> bool {
    match o {
        RefreshOutcome::Connected { snapshot, emphasis_defaults, .. } => emphasis_defaults@.len()
            == snapshot.registrations@.len(),
        _ => true,
    }
}

/// The state of the interface.
pub struct App {
    data: DataModel,
    selected: Option<usize>,
    runtime_status: RuntimeStatus,
    connection_message: String,
    connection_guidance: Option<String>,
    confirmation: Option<LifecycleAction>,
    notice: Option<String>,
    pending_message: Option<&'static str>,
    pending_frame: usize,
    last_start_failed: bool,
    should_quit: bool,
    logs: LogStore,
    logs_open: bool,
}

/// The view of the interface's state.
pub struct AppView {
    pub registrations: Option<Seq<SnapshotEntrypoint>>,
    pub emphasis: Seq<(Seq<char>, usize)>,
    pub selected: Option<usize>,
    pub connection: ConnectionStatus,
    pub caddy: CaddyRuntimeStatus,
    pub connection_message: Seq<char>,
    pub connection_guidance: Option<Seq<char>>,
    pub confirmation: Option<LifecycleAction>,
    pub notice: Option<Seq<char>>,
    pub pending: Option<Seq<char>>,
    pub frame: usize,
    pub last_start_failed: bool,
    pub should_quit: bool,
    pub logs_open: bool,
    pub log_lines: Seq<Seq<char>>,
    pub log_scrollback: nat,
    pub log_viewport: nat,
}

impl View for App {
    type V = AppView;

    closed spec fn view(&self) -> AppView {
        AppView {
            registrations: self.data.spec_registrations(),
            emphasis: self.data.spec_emphasis(),
            selected: self.selected,
            connection: self.runtime_status.connection,
            caddy: self.runtime_status.caddy_status,
            connection_message: self.connection_message@,
            connection_guidance: match self.connection_guidance {
                Some(g) => Some(g@),
                None => None,
            },
            confirmation: self.confirmation,
            notice: match self.notice {
                Some(n) => Some(n@),
                None => None,
            },
            pending: match self.pending_message {
                Some(m) => Some(m@),
                None => None,
            },
            frame: self.pending_frame,
            last_start_failed: self.last_start_failed,
            should_quit: self.should_quit,
            logs_open: self.logs_open,
            log_lines: self.logs.spec_lines(),
            log_scrollback: self.logs.spec_scrollback(),
            log_viewport: self.logs.spec_viewport(),
        }
    }
}

// ---------------------------------------------------------------------------------------
// The transitions
// ---------------------------------------------------------------------------------------

/// The number of rows in the domains table.
pub open spec fn row_count(v: AppView) -> int {
    match v.registrations {
        Some(regs) => table_rows(regs, v.emphasis).len() as int,
        None => 0,
    }
}

/// The selected row: the selection, or the first row, kept within the table.
pub open spec fn selected_index(v: AppView) -> Option<int> {
    if row_count(v) == 0 {
        None
    } else {
        let s: int = match v.selected {
            Some(k) => k as int,
            None => 0,
        };
        Some(if s < row_count(v) - 1 { s } else { row_count(v) - 1 })
    }
}

/// The state with its selection kept within the table.
pub open spec fn clamped(v: AppView) -> AppView {
    AppView {
        selected: match selected_index(v) {
            Some(k) => Some(k as usize),
            None => None,
        },
        ..v
    }
}

/// The state after a refresh: a snapshot connects and replaces the rows, and the logs pane
/// shows the followed stream's entries from the newest or the failure to read them; an
/// unavailable daemon clears the rows, unless the last start failed, whose message stays.
pub open spec fn refreshed(v: AppView, o: OutcomeView) -> AppView {
    match o {
        OutcomeView::Connected(regs, caddy, defaults, logs) => clamped(
            AppView {
                last_start_failed: false,
                connection: ConnectionStatus::Connected,
                caddy: caddy,
                connection_message: "Connected"@,
                connection_guidance: None,
                registrations: Some(regs),
                emphasis: next_emphasis(v.emphasis, regs, defaults),
                log_lines: match logs {
                    Ok(entries) => replaced_lines(entries),
                    Err(message) => notice_lines(message),
                },
                log_scrollback: 0,
                ..v
            },
        ),
        OutcomeView::Unavailable(connection, message, guidance) => if v.last_start_failed {
            v
        } else {
            clamped(
                AppView {
                    connection: connection,
                    caddy: CaddyRuntimeStatus::Unknown,
                    connection_message: message,
                    connection_guidance: guidance,
                    registrations: None,
                    emphasis: Seq::empty(),
                    ..v
                },
            )
        },
    }
}

/// The state once an action starts: its message is pending and the notice is cleared.
pub open spec fn begun(v: AppView, message: Seq<char>) -> AppView {
    AppView { notice: None, pending: Some(message), frame: 0, ..v }
}

/// How a failure is noted: its message, then its guidance when there is one.
pub open spec fn failure_text(f: (Seq<char>, Option<Seq<char>>)) -> Seq<char> {
    match f.1 {
        Some(g) => f.0 + "  "@ + g,
        None => f.0,
    }
}

/// The state once an action finishes: nothing is pending; a failure is noted.
pub open spec fn finished(v: AppView, r: Result<(), (Seq<char>, Option<Seq<char>>)>) -> AppView {
    match r {
        Ok(()) => AppView { pending: None, notice: None, ..v },
        Err(f) => AppView { pending: None, notice: Some(failure_text(f)), ..v },
    }
}

/// The state once a daemon start finishes: a failure replaces the connection message and
/// guidance and is noted by its message alone.
pub open spec fn start_finished(v: AppView, r: Result<(), (Seq<char>, Option<Seq<char>>)>) -> AppView {
    match r {
        Ok(()) => finished(v, r),
        Err(f) => AppView {
            last_start_failed: true,
            connection_message: f.0,
            connection_guidance: f.1,
            pending: None,
            notice: Some(f.0),
            ..v
        },
    }
}

/// The daemon can be started when nothing is pending and it is known to be offline.
pub open spec fn can_start(v: AppView) -> bool {
    v.pending is None && v.connection == ConnectionStatus::Offline
}

/// Lifecycle actions and route changes are offered only when connected and idle.
pub open spec fn can_act(v: AppView) -> bool {
    v.pending is None && v.connection == ConnectionStatus::Connected
}

/// The pending message of a confirmed lifecycle action.
pub open spec fn lifecycle_message(a: LifecycleAction) -> Seq<char> {
    match a {
        LifecycleAction::Stop => "Stopping Cadder..."@,
        LifecycleAction::Restart => "Restarting Cadder..."@,
    }
}

/// The question that asks to confirm a lifecycle action.
pub open spec fn prompt_text(a: LifecycleAction) -> Seq<char> {
    match a {
        LifecycleAction::Stop => "Stop Cadder and its owned Caddy process?"@,
        LifecycleAction::Restart => "Restart Cadder and its owned Caddy process?"@,
    }
}

/// The line above the shortcuts: a confirmation question, else the pending action, else the
/// last notice.
pub open spec fn notice_text(v: AppView) -> Option<Seq<char>> {
    match v.confirmation {
        Some(a) => Some(prompt_text(a) + "  Enter confirm  Esc cancel"@),
        None => match v.pending {
            Some(m) => Some(m),
            None => v.notice,
        },
    }
}

/// The frames of the pending-action spinner.
pub open spec fn spinner_frame(k: int) -> Seq<char> {
    if k == 0 {
        "⠋"@
    } else if k == 1 {
        "⠙"@
    } else if k == 2 {
        "⠹"@
    } else if k == 3 {
        "⠸"@
    } else if k == 4 {
        "⠼"@
    } else if k == 5 {
        "⠴"@
    } else if k == 6 {
        "⠦"@
    } else if k == 7 {
        "⠧"@
    } else if k == 8 {
        "⠇"@
    } else {
        "⠏"@
    }
}

/// The number of spinner frames.
pub const SPINNER_FRAMES: usize = 10;

/// The entity of the selected row, if a row is selected.
pub open spec fn selected_entity(v: AppView) -> Option<EntityView> {
    match (v.registrations, selected_index(v)) {
        (Some(regs), Some(k)) => Some(table_rows(regs, v.emphasis)[k].entity),
        _ => None,
    }
}

/// The activation change that toggling the selected row requests, when actions are
/// offered and the row's entity still exists.
pub open spec fn toggle_request(v: AppView) -> Option<(EntityView, bool)> {
    if !can_act(v) {
        None
    } else {
        match (v.registrations, selected_entity(v)) {
            (Some(regs), Some(e)) => match toggle_target(regs, e) {
                Some(enabled) => Some((e, enabled)),
                None => None,
            },
            _ => None,
        }
    }
}

/// The state after moving the selection down one row.
pub open spec fn moved_down(v: AppView) -> AppView {
    match selected_index(v) {
        None => AppView { selected: None, ..v },
        Some(k) => AppView { selected: Some((if k + 1 < row_count(v) { k + 1 } else { row_count(v) - 1 }) as usize), ..v },
    }
}

/// The state after moving the selection up one row.
pub open spec fn moved_up(v: AppView) -> AppView {
    match selected_index(v) {
        None => AppView { selected: None, ..v },
        Some(k) => AppView { selected: Some((if k > 0 { k - 1 } else { 0 }) as usize), ..v },
    }
}

impl App {
    /// The interface before anything is known: connecting, no rows.
    pub fn new() -> (r: App)
        ensures
            r@.registrations is None,
            r@.selected is None,
            r@.connection == ConnectionStatus::Connecting,
            r@.caddy == CaddyRuntimeStatus::Unknown,
            r@.connection_message == "Connecting to Cadder..."@,
            r@.connection_guidance is None,
            r@.confirmation is None,
            r@.notice is None,
            r@.pending is None,
            r@.frame == 0,
            !r@.last_start_failed,
            !r@.should_quit,
            !r@.logs_open,
            r@.log_lines == seq!["Logs will appear here when Cadder is running."@],
            r@.log_scrollback == 0,
            r@.log_viewport == 1,
    {
        App {
            data: DataModel::new(),
            selected: None,
            runtime_status: RuntimeStatus { connection: ConnectionStatus::Connecting, caddy_status: CaddyRuntimeStatus::Unknown },
            connection_message: "Connecting to Cadder...".to_owned(),
            connection_guidance: None,
            confirmation: None,
            notice: None,
            pending_message: None,
            pending_frame: 0,
            last_start_failed: false,
            should_quit: false,
            logs: LogStore::new(),
            logs_open: false,
        }
    }

    fn row_total(&self) -> (r: usize)
        ensures
            r == row_count(self@),
    {
        let rows = self.data.domain_rows();
        proof {
            match self.data.spec_registrations() {
                Some(regs) => {
                    assert(rows_view(rows@).len() == rows@.len());
                },
                None => {},
            }
        }
        rows.len()
    }

    fn selected_position(&self) -> (r: Option<usize>)
        ensures
            match selected_index(self@) {
                Some(k) => r == Some(k as usize),
                None => r is None,
            },
    {
        let n = self.row_total();
        if n == 0 {
            return None;
        }
        let s = match self.selected {
            Some(k) => k,
            None => 0,
        };
        Some(if s < n - 1 { s } else { n - 1 })
    }

    fn clamp_selection(&mut self)
        ensures
            final(self)@ == clamped(old(self)@),
    {
        self.selected = self.selected_position();
    }

    /// Applies what a refresh found.
    pub fn apply_refresh(&mut self, outcome: RefreshOutcome)
        requires
            outcome_wf(outcome),
        ensures
            final(self)@ == refreshed(old(self)@, outcome_view(outcome)),
    {
        match outcome {
            RefreshOutcome::Connected { snapshot, caddy_status, emphasis_defaults, logs } => {
                self.last_start_failed = false;
                self.runtime_status = RuntimeStatus { connection: ConnectionStatus::Connected, caddy_status };
                self.connection_message = "Connected".to_owned();
                self.connection_guidance = None;
                self.data.replace_snapshot(snapshot, &emphasis_defaults);
                match logs {
                    Ok(entries) => self.logs.replace(entries),
                    Err(message) => self.logs.set_notice(message.as_str()),
                }
                self.clamp_selection();
            },
            RefreshOutcome::Unavailable { connection, message, guidance } => {
                if self.last_start_failed {
                    return;
                }
                self.runtime_status = RuntimeStatus { connection, caddy_status: CaddyRuntimeStatus::Unknown };
                self.connection_message = message;
                self.connection_guidance = guidance;
                self.data.clear_snapshot();
                self.clamp_selection();
            },
        }
    }

    fn begin_action(&mut self, message: &'static str)
        ensures
            final(self)@ == begun(old(self)@, message@),
    {
        self.notice = None;
        self.pending_message = Some(message);
        self.pending_frame = 0;
    }

    fn finish_action(&mut self, result: Result<(), ActionFailure>) -> (r: bool)
        ensures
            final(self)@ == finished(old(self)@, result_view(result)),
            r == result is Ok,
    {
        self.pending_message = None;
        match result {
            Ok(()) => {
                self.notice = None;
                true
            },
            Err(error) => {
                let text = match &error.guidance {
                    Some(g) => {
                        let mut t = error.message.clone();
                        push_str(&mut t, "  ");
                        push_str(&mut t, g.as_str());
                        t
                    },
                    None => error.message.clone(),
                };
                self.notice = Some(text);
                false
            },
        }
    }

    /// Finishes a route change; whether it succeeded.
    pub fn complete_mutation(&mut self, result: Result<(), ActionFailure>) -> (r: bool)
        ensures
            final(self)@ == finished(old(self)@, result_view(result)),
            r == result is Ok,
    {
        self.finish_action(result)
    }

    /// Starts the daemon if it can be started; whether it was.
    pub fn prepare_start_daemon(&mut self) -> (r: bool)
        ensures
            r == can_start(old(self)@),
            final(self)@ == if r {
                begun(AppView { last_start_failed: false, ..old(self)@ }, "Starting cadderd..."@)
            } else {
                old(self)@
            },
    {
        if !self.can_start_daemon() {
            return false;
        }
        self.last_start_failed = false;
        self.begin_action("Starting cadderd...");
        true
    }

    /// Asks to confirm a lifecycle action when actions are offered.
    pub fn prepare_lifecycle(&mut self, action: LifecycleAction)
        ensures
            final(self)@ == if can_act(old(self)@) {
                AppView { confirmation: Some(action), ..old(self)@ }
            } else {
                old(self)@
            },
    {
        if self.is_pending() || self.runtime_status.connection != ConnectionStatus::Connected {
            return;
        }
        self.confirmation = Some(action);
    }

    /// Drops the confirmation question.
    pub fn cancel_confirmation(&mut self)
        ensures
            final(self)@ == (AppView { confirmation: None, ..old(self)@ }),
    {
        self.confirmation = None;
    }

    /// Confirms the awaited lifecycle action, which becomes pending.
    pub fn confirm_lifecycle(&mut self) -> (r: Option<LifecycleAction>)
        ensures
            r == old(self)@.confirmation,
            final(self)@ == match r {
                Some(a) => begun(AppView { confirmation: None, ..old(self)@ }, lifecycle_message(a)),
                None => old(self)@,
            },
    {
        let action = match self.confirmation {
            Some(a) => a,
            None => {
                return None;
            },
        };
        self.confirmation = None;
        let message = match action {
            LifecycleAction::Stop => "Stopping Cadder...",
            LifecycleAction::Restart => "Restarting Cadder...",
        };
        self.begin_action(message);
        Some(action)
    }

    /// The lifecycle action that awaits confirmation.
    pub fn confirmation(&self) -> (r: Option<LifecycleAction>)
        ensures
            r == self@.confirmation,
    {
        self.confirmation
    }

    /// Whether the daemon can be started now.
    pub fn can_start_daemon(&self) -> (r: bool)
        ensures
            r == can_start(self@),
    {
        !self.is_pending() && self.runtime_status.connection == ConnectionStatus::Offline
    }

    /// Whether an action is under way.
    pub fn is_pending(&self) -> (r: bool)
        ensures
            r == self@.pending is Some,
    {
        self.pending_message.is_some()
    }

    /// Finishes a daemon start; whether it succeeded.
    pub fn complete_daemon_start(&mut self, result: Result<(), ActionFailure>) -> (r: bool)
        ensures
            final(self)@ == start_finished(old(self)@, result_view(result)),
            r == result is Ok,
    {
        match result {
            Ok(()) => self.finish_action(Ok(())),
            Err(error) => {
                self.last_start_failed = true;
                self.connection_message = error.message.clone();
                self.connection_guidance = error.guidance;
                self.pending_message = None;
                self.notice = Some(error.message);
                false
            },
        }
    }

    /// Finishes a daemon stop or restart; whether it succeeded.
    pub fn complete_lifecycle(&mut self, result: Result<(), ActionFailure>) -> (r: bool)
        ensures
            final(self)@ == finished(old(self)@, result_view(result)),
            r == result is Ok,
    {
        self.finish_action(result)
    }

    /// The line shown above the shortcuts.
    pub fn notice(&self) -> (r: Option<String>)
        ensures
            match notice_text(self@) {
                Some(t) => r matches Some(s) && s@ == t,
                None => r is None,
            },
    {
        if let Some(action) = self.confirmation {
            let mut text = match action {
                LifecycleAction::Stop => "Stop Cadder and its owned Caddy process?".to_owned(),
                LifecycleAction::Restart => "Restart Cadder and its owned Caddy process?".to_owned(),
            };
            push_str(&mut text, "  Enter confirm  Esc cancel");
            return Some(text);
        }
        if let Some(message) = self.pending_message {
            return Some(message.to_owned());
        }
        match &self.notice {
            Some(n) => Some(n.clone()),
            None => None,
        }
    }

    /// The spinner frame shown while an action is pending.
    pub fn pending_marker(&self) -> (r: Option<&'static str>)
        ensures
            match self@.pending {
                Some(_) => r matches Some(m) && m@ == spinner_frame((self@.frame % 10) as int),
                None => r is None,
            },
    {
        if self.pending_message.is_none() {
            return None;
        }
        let k = self.pending_frame % SPINNER_FRAMES;
        let frame = if k == 0 {
            "⠋"
        } else if k == 1 {
            "⠙"
        } else if k == 2 {
            "⠹"
        } else if k == 3 {
            "⠸"
        } else if k == 4 {
            "⠼"
        } else if k == 5 {
            "⠴"
        } else if k == 6 {
            "⠦"
        } else if k == 7 {
            "⠧"
        } else if k == 8 {
            "⠇"
        } else {
            "⠏"
        };
        Some(frame)
    }

    /// Moves the spinner to its next frame while an action is pending.
    pub fn advance_pending_animation(&mut self)
        ensures
            final(self)@ == if old(self)@.pending is Some {
                AppView { frame: ((old(self)@.frame % 10 + 1) % 10) as usize, ..old(self)@ }
            } else {
                old(self)@
            },
    {
        if self.pending_message.is_some() {
            self.pending_frame = (self.pending_frame % SPINNER_FRAMES + 1) % SPINNER_FRAMES;
        }
    }

    /// Starts a change of the selected row's activation when actions are offered; the
    /// requested change, if any.
    pub fn prepare_toggle_current(&mut self) -> (r: Option<MutationTarget>)
        ensures
            match toggle_request(old(self)@) {
                Some((e, enabled)) => r matches Some(t) && entity_view(t.entity) == e && t.enabled == enabled
                    && final(self)@ == begun(old(self)@, "Applying route change..."@),
                None => r is None && final(self)@ == old(self)@,
            },
    {
        if self.is_pending() || self.runtime_status.connection != ConnectionStatus::Connected {
            return None;
        }
        let k = match self.selected_position() {
            Some(k) => k,
            None => {
                return None;
            },
        };
        let rows = self.data.domain_rows();
        let entity = rows[k].entity();
        let target = match self.data.mutation_target(&entity) {
            Some(t) => t,
            None => {
                return None;
            },
        };
        self.begin_action("Applying route change...");
        Some(target)
    }

    /// Daemon and Caddy state.
    pub fn runtime_status(&self) -> (r: RuntimeStatus)
        ensures
            r.connection == self@.connection,
            r.caddy_status == self@.caddy,
    {
        self.runtime_status
    }

    /// The rows of the domains table.
    pub fn domain_rows(&self) -> (r: Vec<crate::data_model::DomainTableRow>)
        ensures
            match self@.registrations {
                Some(regs) => rows_view(r@) == table_rows(regs, self@.emphasis),
                None => r@.len() == 0,
            },
    {
        self.data.domain_rows()
    }

    /// The selected row, as the table shows it.
    pub fn selected(&self) -> (r: Option<usize>)
        ensures
            r == self@.selected,
    {
        self.selected
    }

    /// The connection message and guidance shown while the daemon cannot be reached.
    pub fn connection_text(&self) -> (r: (String, Option<String>))
        ensures
            r.0@ == self@.connection_message,
            match r.1 {
                Some(g) => self@.connection_guidance == Some(g@),
                None => self@.connection_guidance is None,
            },
    {
        let guidance = match &self.connection_guidance {
            Some(g) => Some(g.clone()),
            None => None,
        };
        (self.connection_message.clone(), guidance)
    }

    /// Whether the interface should close.
    pub fn should_quit(&self) -> (r: bool)
        ensures
            r == self@.should_quit,
    {
        self.should_quit
    }

    /// Closes the interface.
    pub fn quit(&mut self)
        ensures
            final(self)@ == (AppView { should_quit: true, ..old(self)@ }),
    {
        self.should_quit = true;
    }

    /// The log lines the logs pane shows.
    pub fn log_lines(&self) -> (r: &[String])
        ensures
            strings_view(r@) == self@.log_lines,
    {
        self.logs.lines()
    }

    /// The first log line in view: the newest lines stay in view unless scrolled back.
    pub fn log_scroll(&self) -> (r: usize)
        ensures
            r == saturating_sub(
                saturating_sub(self@.log_lines.len() as int, self@.log_viewport as int),
                self@.log_scrollback as int,
            ),
    {
        self.logs.scroll()
    }

    /// Sets how many log rows are visible (at least one), keeping the scroll position within
    /// the lines.
    pub fn set_logs_viewport(&mut self, rows: u16)
        ensures
            final(self)@ == (AppView {
                log_viewport: final(self)@.log_viewport,
                log_scrollback: final(self)@.log_scrollback,
                ..old(self)@
            }),
            final(self)@.log_viewport == if rows >= 1 { rows as nat } else { 1 },
            final(self)@.log_scrollback == if old(self)@.log_scrollback <= saturating_sub(
                old(self)@.log_lines.len() as int,
                final(self)@.log_viewport as int,
            ) {
                old(self)@.log_scrollback as int
            } else {
                saturating_sub(old(self)@.log_lines.len() as int, final(self)@.log_viewport as int)
            },
    {
        self.logs.set_viewport(rows);
    }

    /// Whether the logs pane is open.
    pub fn logs_open(&self) -> (r: bool)
        ensures
            r == self@.logs_open,
    {
        self.logs_open
    }

    /// Opens the logs pane when it is closed and closes it when it is open; whether it is
    /// open now.
    pub fn toggle_logs(&mut self) -> (r: bool)
        ensures
            final(self)@ == (AppView { logs_open: !old(self)@.logs_open, ..old(self)@ }),
            r == !old(self)@.logs_open,
    {
        self.logs_open = !self.logs_open;
        self.logs_open
    }

    /// Scrolls the logs back by `amount` rows, no further than the oldest line.
    pub fn scroll_logs_up(&mut self, amount: usize)
        ensures
            final(self)@ == (AppView { log_scrollback: final(self)@.log_scrollback, ..old(self)@ }),
            final(self)@.log_scrollback == if old(self)@.log_scrollback + amount <= saturating_sub(
                old(self)@.log_lines.len() as int,
                old(self)@.log_viewport as int,
            ) {
                old(self)@.log_scrollback + amount
            } else {
                saturating_sub(old(self)@.log_lines.len() as int, old(self)@.log_viewport as int)
            },
    {
        self.logs.scroll_up(amount);
    }

    /// Scrolls the logs forward by `amount` rows, no further than the newest line.
    pub fn scroll_logs_down(&mut self, amount: usize)
        ensures
            final(self)@ == (AppView { log_scrollback: final(self)@.log_scrollback, ..old(self)@ }),
            final(self)@.log_scrollback == saturating_sub(old(self)@.log_scrollback as int, amount as int),
    {
        self.logs.scroll_down(amount);
    }

    /// Selects the next row, staying on the last one.
    pub fn select_next(&mut self)
        ensures
            final(self)@ == moved_down(old(self)@),
    {
        match self.selected_position() {
            None => {
                self.selected = None;
            },
            Some(k) => {
                let n = self.row_total();
                self.selected = Some(if k + 1 < n { k + 1 } else { n - 1 });
            },
        }
    }

    /// Selects the previous row, staying on the first one.
    pub fn select_previous(&mut self)
        ensures
            final(self)@ == moved_up(old(self)@),
    {
        match self.selected_position() {
            None => {
                self.selected = None;
            },
            Some(k) => {
                self.selected = Some(if k > 0 { k - 1 } else { 0 });
            },
        }
    }
}

// ---------------------------------------------------------------------------------------
// Keys
// ---------------------------------------------------------------------------------------

/// A key press as the interface reads it.
#[derive(Debug, Clone, Copy, PartialEq, Eq, Structural)]
pub enum Key {
    Char(char),
    Esc,
    Enter,
    Up,
    Down,
    Other,
}

/// A request that the event loop runs.
#[derive(Debug)]
pub enum UiAction {
    Refresh,
    StartDaemon,
    StopDaemon,
    RestartDaemon,
    Mutate(MutationTarget),
}

/// The view of a request.
pub enum ActionView {
    Refresh,
    StartDaemon,
    StopDaemon,
    RestartDaemon,
    Mutate(EntityView, bool),
}

/// The view of a request.
pub open spec fn action_view(a: UiAction) -> ActionView {
    match a {
        UiAction::Refresh => ActionView::Refresh,
        UiAction::StartDaemon => ActionView::StartDaemon,
        UiAction::StopDaemon => ActionView::StopDaemon,
        UiAction::RestartDaemon => ActionView::RestartDaemon,
        UiAction::Mutate(t) => ActionView::Mutate(entity_view(t.entity), t.enabled),
    }
}

/// The view of an optional request.
pub open spec fn opt_action_view(a: Option<UiAction>) -> Option<ActionView> {
    match a {
        Some(x) => Some(action_view(x)),
        None => None,
    }
}

/// Control with `c` or `x`, in either case, always quits.
pub open spec fn is_force_quit(key: Key, control: bool) -> bool {
    control && match key {
        Key::Char(c) => c == 'c' || c == 'C' || c == 'x' || c == 'X',
        _ => false,
    }
}

/// The request that confirms a lifecycle action.
pub open spec fn lifecycle_request(a: LifecycleAction) -> ActionView {
    match a {
        LifecycleAction::Stop => ActionView::StopDaemon,
        LifecycleAction::Restart => ActionView::RestartDaemon,
    }
}

/// The state after asking to confirm a lifecycle action.
pub open spec fn awaiting(v: AppView, a: LifecycleAction) -> AppView {
    if can_act(v) {
        AppView { confirmation: Some(a), ..v }
    } else {
        v
    }
}

/// The state after a key, and the request it makes. `q` and the force-quit keys quit; while
/// a lifecycle action awaits confirmation, Enter confirms it, Esc cancels it and other keys
/// do nothing; otherwise Esc quits, Up and Down move the selection, Enter starts an offline
/// daemon or toggles the selected row, `r` refreshes, `x` asks to stop and `R` to restart.
pub open spec fn key_result(v: AppView, key: Key, control: bool) -> (AppView, Option<ActionView>) {
    if is_force_quit(key, control) || key == Key::Char('q') || key == Key::Char('Q') {
        (AppView { should_quit: true, ..v }, None)
    } else if v.confirmation is Some {
        let a = v.confirmation->0;
        match key {
            Key::Esc => (AppView { confirmation: None, ..v }, None),
            Key::Enter => (begun(AppView { confirmation: None, ..v }, lifecycle_message(a)), Some(lifecycle_request(a))),
            _ => (v, None),
        }
    } else {
        match key {
            Key::Esc => (AppView { should_quit: true, ..v }, None),
            Key::Up => (moved_up(v), None),
            Key::Down => (moved_down(v), None),
            Key::Enter => if can_start(v) {
                (begun(AppView { last_start_failed: false, ..v }, "Starting cadderd..."@), Some(ActionView::StartDaemon))
            } else {
                match toggle_request(v) {
                    Some((e, enabled)) => (begun(v, "Applying route change..."@), Some(ActionView::Mutate(e, enabled))),
                    None => (v, None),
                }
            },
            Key::Char(c) => if c == 'r' {
                (v, Some(ActionView::Refresh))
            } else if c == 'x' || c == 'X' {
                (awaiting(v, LifecycleAction::Stop), None)
            } else if c == 'R' {
                (awaiting(v, LifecycleAction::Restart), None)
            } else {
                (v, None)
            },
            Key::Other => (v, None),
        }
    }
}

/// Applies a key press; the request it makes, if any.
pub fn handle_key(app: &mut App, key: Key, control: bool) -> (r: Option<UiAction>)
    ensures
        final(app)@ == key_result(old(app)@, key, control).0,
        opt_action_view(r) == key_result(old(app)@, key, control).1,
{
    let force = control && match key {
        Key::Char(c) => c == 'c' || c == 'C' || c == 'x' || c == 'X',
        _ => false,
    };
    if force || key == Key::Char('q') || key == Key::Char('Q') {
        app.quit();
        return None;
    }
    if app.confirmation().is_some() {
        return match key {
            Key::Esc => {
                app.cancel_confirmation();
                None
            },
            Key::Enter => match app.confirm_lifecycle() {
                Some(LifecycleAction::Stop) => Some(UiAction::StopDaemon),
                Some(LifecycleAction::Restart) => Some(UiAction::RestartDaemon),
                None => None,
            },
            _ => None,
        };
    }
    match key {
        Key::Esc => {
            app.quit();
            None
        },
        Key::Up => {
            app.select_previous();
            None
        },
        Key::Down => {
            app.select_next();
            None
        },
        Key::Enter => {
            if app.prepare_start_daemon() {
                return Some(UiAction::StartDaemon);
            }
            match app.prepare_toggle_current() {
                Some(t) => Some(UiAction::Mutate(t)),
                None => None,
            }
        },
        Key::Char(c) => {
            if c == 'r' {
                Some(UiAction::Refresh)
            } else if c == 'x' || c == 'X' {
                app.prepare_lifecycle(LifecycleAction::Stop);
                None
            } else if c == 'R' {
                app.prepare_lifecycle(LifecycleAction::Restart);
                None
            } else {
                None
            }
        },
        Key::Other => None,
    }
}

// ---------------------------------------------------------------------------------------
// The event loop
// ---------------------------------------------------------------------------------------

/// A finished request and what it returned.
pub enum EffectResult {
    Refresh(RefreshOutcome),
    Start(Result<(), ActionFailure>),
    Lifecycle(Result<(), ActionFailure>),
    Mutation(Result<(), ActionFailure>),
}

/// What the event loop woke up for.
pub enum LoopEvent {
    /// The refresh interval elapsed.
    Tick,
    /// A key was pressed, with or without Control.
    Key(Key, bool),
    /// The terminal's input ended.
    InputClosed,
    /// A request finished.
    Finished(EffectResult),
}

/// What the loop does next: whether a refresh is under way, and the request to start.
pub struct LoopStep {
    pub refresh_in_flight: bool,
    pub effect: Option<UiAction>,
}

/// Whether a loop event is consistent.
pub open spec fn event_wf(event: LoopEvent) -> bool {
    match event {
        LoopEvent::Finished(EffectResult::Refresh(o)) => outcome_wf(o),
        _ => true,
    }
}

/// The loop's answer to a finished request other than a refresh: a refresh follows a
/// success unless one is already under way.
pub open spec fn refresh_after(ok: bool, in_flight: bool, r: LoopStep) -> bool {
    if ok && !in_flight {
        r.refresh_in_flight && r.effect matches Some(UiAction::Refresh)
    } else {
        r.refresh_in_flight == in_flight && r.effect is None
    }
}

/// One turn of the event loop: a tick refreshes when no refresh and no action is under
/// way; a key is handled and its request started (a refresh request marks a refresh under
/// way); closed input quits; a finished refresh is applied; any other finished request is
/// completed and followed by a refresh when it succeeded and none is under way.
pub fn loop_step(app: &mut App, refresh_in_flight: bool, event: LoopEvent) -> (r: LoopStep)
    requires
        event_wf(event),
    ensures
        match event {
            LoopEvent::Tick => final(app)@ == old(app)@ && if !refresh_in_flight && old(app)@.pending is None {
                r.refresh_in_flight && r.effect matches Some(UiAction::Refresh)
            } else {
                r.refresh_in_flight == refresh_in_flight && r.effect is None
            },
            LoopEvent::Key(key, control) => {
                &&& final(app)@ == key_result(old(app)@, key, control).0
                &&& opt_action_view(r.effect) == key_result(old(app)@, key, control).1
                &&& r.refresh_in_flight == (refresh_in_flight || r.effect matches Some(UiAction::Refresh))
            },
            LoopEvent::InputClosed => final(app)@ == (AppView { should_quit: true, ..old(app)@ })
                && r.refresh_in_flight == refresh_in_flight && r.effect is None,
            LoopEvent::Finished(EffectResult::Refresh(o)) => final(app)@ == refreshed(old(app)@, outcome_view(o))
                && !r.refresh_in_flight && r.effect is None,
            LoopEvent::Finished(EffectResult::Start(res)) => final(app)@ == start_finished(old(app)@, result_view(res))
                && refresh_after(res is Ok, refresh_in_flight, r),
            LoopEvent::Finished(EffectResult::Lifecycle(res)) => final(app)@ == finished(old(app)@, result_view(res))
                && refresh_after(res is Ok, refresh_in_flight, r),
            LoopEvent::Finished(EffectResult::Mutation(res)) => final(app)@ == finished(old(app)@, result_view(res))
                && refresh_after(res is Ok, refresh_in_flight, r),
        },
{
    match event {
        LoopEvent::Tick => {
            if !refresh_in_flight && !app.is_pending() {
                LoopStep { refresh_in_flight: true, effect: Some(UiAction::Refresh) }
            } else {
                LoopStep { refresh_in_flight, effect: None }
            }
        },
        LoopEvent::Key(key, control) => {
            let action = handle_key(app, key, control);
            let refreshing = match &action {
                Some(UiAction::Refresh) => true,
                _ => false,
            };
            LoopStep { refresh_in_flight: refresh_in_flight || refreshing, effect: action }
        },
        LoopEvent::InputClosed => {
            app.quit();
            LoopStep { refresh_in_flight, effect: None }
        },
        LoopEvent::Finished(EffectResult::Refresh(outcome)) => {
            app.apply_refresh(outcome);
            LoopStep { refresh_in_flight: false, effect: None }
        },
        LoopEvent::Finished(EffectResult::Start(result)) => {
            let ok = app.complete_daemon_start(result);
            follow_up(ok, refresh_in_flight)
        },
        LoopEvent::Finished(EffectResult::Lifecycle(result)) => {
            let ok = app.complete_lifecycle(result);
            follow_up(ok, refresh_in_flight)
        },
        LoopEvent::Finished(EffectResult::Mutation(result)) => {
            let ok = app.complete_mutation(result);
            follow_up(ok, refresh_in_flight)
        },
    }
}

fn follow_up(ok: bool, refresh_in_flight: bool) -> (r: LoopStep)
    ensures
        refresh_after(ok, refresh_in_flight, r),
{
    if ok && !refresh_in_flight {
        LoopStep { refresh_in_flight: true, effect: Some(UiAction::Refresh) }
    } else {
        LoopStep { refresh_in_flight, effect: None }
    }
}

/// The refresh outcome of a state query that failed: offline when no daemon is running, an
/// error otherwise, with the message and guidance of the unavailable status.
pub fn refresh_failure(runtime_dir: &str, error: &IpcClientError) -> (r: RefreshOutcome)
    ensures
        (error.spec_daemon_unavailable() || error.spec_stale_instance()) ==> outcome_view(r) == OutcomeView::Unavailable(
            ConnectionStatus::Offline,
            "Cadder is not running."@,
            Some(not_running_guidance_text()),
        ),
        !(error.spec_daemon_unavailable() || error.spec_stale_instance()) ==> outcome_view(r) == OutcomeView::Unavailable(
            ConnectionStatus::Error,
            "Could not connect to Cadder: "@ + sentence_text(client_message(*error)),
            Some(
                match client_guidance(*error) {
                    Some(g) => g,
                    None => "Inspect the daemon diagnostics for this runtime, correct the reported error, then retry."@,
                },
            ),
        ),
{
    let status = unavailable_status(runtime_dir, error);
    let connection = match status.connection_state {
        ConnectionStateView::NotRunning => ConnectionStatus::Offline,
        ConnectionStateView::ConnectionFailed => ConnectionStatus::Error,
        ConnectionStateView::Connected => ConnectionStatus::Connected,
    };
    let r = RefreshOutcome::Unavailable { connection, message: status.message, guidance: status.guidance };
    proof {
        assert(opt_view(status.guidance) == match status.guidance {
            Some(g) => Some(g@),
            None => None::<Seq<char>>,
        });
    }
    r
}

/// The refresh outcome of a state query answered without a snapshot.
pub fn refresh_without_snapshot() -> (r: RefreshOutcome)
    ensures
        outcome_view(r) == OutcomeView::Unavailable(
            ConnectionStatus::Error,
            "Cadder daemon returned no state snapshot."@,
            None,
        ),
{
    RefreshOutcome::Unavailable {
        connection: ConnectionStatus::Error,
        message: "Cadder daemon returned no state snapshot.".to_owned(),
        guidance: None,
    }
}

/// The daemon request that a row toggle makes.
#[derive(Debug, Clone, PartialEq, Eq)]
pub enum MutationRequest {
    Entrypoint { registration_id: String, enabled: bool },
    Domain { selector: DomainSelector, enabled: bool },
}

/// The request for a toggle: an entrypoint by its registration, or a domain by its
/// canonical name within its registration.
pub fn mutation_request(target: MutationTarget) -> (r: MutationRequest)
    ensures
        match (target.entity, r) {
            (EntityId::Entrypoint(id), MutationRequest::Entrypoint { registration_id, enabled }) => registration_id@
                == id@ && enabled == target.enabled,
            (
                EntityId::Domain { registration_id, canonical_domain },
                MutationRequest::Domain { selector, enabled },
            ) => selector.domain@ == canonical_domain@ && opt_view(selector.registration) == Some(registration_id@)
                && enabled == target.enabled,
            _ => false,
        },
{
    match target.entity {
        EntityId::Entrypoint(registration_id) => MutationRequest::Entrypoint { registration_id, enabled: target.enabled },
        EntityId::Domain { registration_id, canonical_domain } => MutationRequest::Domain {
            selector: DomainSelector { domain: canonical_domain, registration: Some(registration_id) },
            enabled: target.enabled,
        },
    }
}

} // verus!
