//! Autostart of the daemon at login: the systemd user unit, its enablement link, and the
//! resulting status report.

use vstd::prelude::*;
use crate::text::{push_char, push_str, to_chars};

verus! {

/// The platform whose conventions apply.
#[derive(Debug, Clone, Copy, PartialEq, Eq, Structural)]
pub enum Platform {
    Windows,
    Unix,
}

/// How the daemon is started at login.
#[derive(Debug, Clone, Copy, PartialEq, Eq, Structural)]
pub enum AutostartMode {
    Disabled,
    Daemon,
}

/// Whether autostart is in effect.
#[derive(Debug, Clone, Copy, PartialEq, Eq, Structural)]
pub enum AutostartStatus {
    Enabled,
    Disabled,
    Misconfigured,
    Unsupported,
}

/// A finding about the autostart configuration.
#[derive(Debug, Clone)]
pub struct AutostartDiagnostic {
    pub code: String,
    pub message: String,
}

/// The autostart state as reported to the operator.
#[derive(Debug, Clone)]
pub struct AutostartView {
    pub mode: AutostartMode,
    pub status: AutostartStatus,
    pub target: Option<String>,
    pub diagnostics: Vec<AutostartDiagnostic>,
}

/// The argument that starts the daemon detached: Windows only.
pub open spec fn background_arg(platform: Platform) -> Seq<char> {
    match platform {
        Platform::Windows => " --background"@,
        Platform::Unix => Seq::empty(),
    }
}

/// The background argument for `platform`.
pub fn daemon_background_arg(platform: Platform) -> (r: &'static str)
    ensures
        r@ == background_arg(platform),
{
    match platform {
        Platform::Windows => " --background",
        Platform::Unix => {
            proof {
                reveal_strlit("");
            }
            ""
        },
    }
}

/// The command line that starts the daemon: its quoted path and the background argument.
pub open spec fn daemon_command_line(daemon_path: Seq<char>, platform: Platform) -> Seq<char> {
    seq!['"'] + daemon_path + seq!['"'] + background_arg(platform)
}

/// The daemon executable could not be resolved.
#[derive(Debug, Clone, Copy, PartialEq, Eq, Structural)]
pub struct DaemonNotFound;

/// Resolves and remembers the daemon executable for autostart.
#[derive(Debug, Clone)]
pub struct AutostartManager {
    pub daemon_path: Option<String>,
    pub platform: Platform,
}

impl AutostartManager {
    /// A manager that has no daemon executable to start.
    pub fn disabled(platform: Platform) -> (r: AutostartManager)
        ensures
            r.daemon_path is None,
            r.platform == platform,
    {
        AutostartManager { daemon_path: None, platform }
    }

    /// A manager for the daemon executable at `daemon_path`, when it was resolved.
    pub fn new(daemon_path: Option<String>, platform: Platform) -> (r: AutostartManager)
        ensures
            r.daemon_path == daemon_path,
            r.platform == platform,
    {
        AutostartManager { daemon_path, platform }
    }

    /// The command line that autostart runs.
    pub fn daemon_command(&self) -> (r: Result<String, DaemonNotFound>)
        ensures
            match self.daemon_path {
                Some(p) => r matches Ok(s) && s@ == daemon_command_line(p@, self.platform),
                None => r is Err,
            },
    {
        match &self.daemon_path {
            Some(path) => {
                let mut command = String::new();
                push_char(&mut command, '"');
                push_str(&mut command, path.as_str());
                push_char(&mut command, '"');
                push_str(&mut command, daemon_background_arg(self.platform));
                Ok(command)
            },
            None => Err(DaemonNotFound),
        }
    }

    /// The target that a mode starts: nothing when disabled.
    pub fn target_for_mode(&self, mode: AutostartMode) -> (r: Option<String>)
        ensures
            mode == AutostartMode::Disabled ==> r is None,
            mode == AutostartMode::Daemon ==> match self.daemon_path {
                Some(p) => r matches Some(s) && s@ == daemon_command_line(p@, self.platform),
                None => r is None,
            },
    {
        match mode {
            AutostartMode::Disabled => None,
            AutostartMode::Daemon => match self.daemon_command() {
                Ok(command) => Some(command),
                Err(_) => None,
            },
        }
    }
}

/// The systemd user unit that starts the daemon.
pub open spec fn systemd_unit(command: Seq<char>) -> Seq<char> {
    "[Unit]\nDescription=Cadder daemon\n\n[Service]\nExecStart="@ + command
        + "\nRestart=on-failure\n\n[Install]\nWantedBy=default.target\n"@
}

pub fn systemd_user_service(command: &str) -> (r: String)
    ensures
        r@ == systemd_unit(command@),
{
    let mut unit = "[Unit]\nDescription=Cadder daemon\n\n[Service]\nExecStart=".to_owned();
    push_str(&mut unit, command);
    push_str(&mut unit, "\nRestart=on-failure\n\n[Install]\nWantedBy=default.target\n");
    unit
}

/// `base` joined with one relative path component.
pub open spec fn join_path(base: Seq<char>, part: Seq<char>) -> Seq<char> {
    if base.len() == 0 {
        part
    } else if base.last() == '/' {
        base + part
    } else {
        base + seq!['/'] + part
    }
}

pub fn join_component(base: &str, part: &str) -> (r: String)
    ensures
        r@ == join_path(base@, part@),
{
    let chars = to_chars(base);
    let mut r = base.to_owned();
    if chars.len() > 0 && chars[chars.len() - 1] != '/' {
        push_char(&mut r, '/');
    }
    push_str(&mut r, part);
    r
}

/// Where the generated unit and its enablement link live.
#[derive(Debug, Clone)]
pub struct LinuxAutostartPaths {
    pub daemon_service: String,
    pub daemon_enablement_link: String,
}

pub open spec fn systemd_user_dir(config_dir: Seq<char>) -> Seq<char> {
    join_path(join_path(config_dir, "systemd"@), "user"@)
}

impl LinuxAutostartPaths {
    /// `<config>/systemd/user/cadderd.service` and its `default.target.wants` link.
    pub fn from_config_dir(config_dir: &str) -> (r: LinuxAutostartPaths)
        ensures
            r.daemon_service@ == join_path(systemd_user_dir(config_dir@), "cadderd.service"@),
            r.daemon_enablement_link@ == join_path(
                join_path(systemd_user_dir(config_dir@), "default.target.wants"@),
                "cadderd.service"@,
            ),
    {
        let systemd = join_component(config_dir, "systemd");
        let user = join_component(systemd.as_str(), "user");
        let service = join_component(user.as_str(), "cadderd.service");
        let wants = join_component(user.as_str(), "default.target.wants");
        let link = join_component(wants.as_str(), "cadderd.service");
        LinuxAutostartPaths { daemon_service: service, daemon_enablement_link: link }
    }
}

/// The relative target that `systemctl --user enable` writes for the unit.
pub open spec fn enablement_target() -> Seq<char> {
    "../cadderd.service"@
}

pub fn linux_daemon_enablement_target() -> (r: &'static str)
    ensures
        r@ == enablement_target(),
{
    "../cadderd.service"
}

/// What the filesystem showed at the enablement link.
#[derive(Debug, Clone)]
pub enum EnablementObservation {
    /// Nothing exists at the link path.
    Missing,
    /// The link path could not be inspected.
    Uninspectable,
    /// Something other than a symbolic link exists there.
    NotSymlink,
    /// A symbolic link whose target could not be read.
    UnreadableLink,
    /// A symbolic link with this target.
    Link(String),
}

/// The state of the enablement link.
#[derive(Debug, Clone, Copy, PartialEq, Eq)]
pub enum LinuxEnablementState {
    Missing,
    Valid,
    Invalid { code: &'static str, message: &'static str },
}

impl LinuxEnablementState {
    pub open spec fn spec_is_present(self) -> bool {
        !(self is Missing)
    }

    pub fn is_present(self) -> (r: bool)
        ensures
            r == self.spec_is_present(),
    {
        match self {
            LinuxEnablementState::Missing => false,
            _ => true,
        }
    }
}

/// Classifies the enablement link: a link to the generated unit, by the relative target that
/// systemd writes or by the unit's own path, is valid.
pub fn linux_enablement_state(paths: &LinuxAutostartPaths, observed: &EnablementObservation) -> (r:
    LinuxEnablementState)
    ensures
        match *observed {
            EnablementObservation::Missing => r == LinuxEnablementState::Missing,
            EnablementObservation::Link(target) => if target@ == enablement_target() || target@
                == paths.daemon_service@ {
                r == LinuxEnablementState::Valid
            } else {
                r matches LinuxEnablementState::Invalid { code, message } && code@
                    == "autostart-daemon-enablement-stale"@
            },
            EnablementObservation::NotSymlink => r matches LinuxEnablementState::Invalid {
                code,
                message,
            } && code@ == "autostart-daemon-enablement-not-symlink"@,
            _ => r matches LinuxEnablementState::Invalid { code, message } && code@
                == "autostart-daemon-enablement-unreadable"@,
        },
{
    match observed {
        EnablementObservation::Link(target) => {
            if *target == linux_daemon_enablement_target().to_owned() || *target
                == paths.daemon_service {
                LinuxEnablementState::Valid
            } else {
                LinuxEnablementState::Invalid {
                    code: "autostart-daemon-enablement-stale",
                    message: "Cadder found a default.target enablement link that does not point at the generated cadderd.service unit.",
                }
            }
        },
        EnablementObservation::UnreadableLink => LinuxEnablementState::Invalid {
            code: "autostart-daemon-enablement-unreadable",
            message: "Cadder could not read the cadderd.service enablement link.",
        },
        EnablementObservation::NotSymlink => LinuxEnablementState::Invalid {
            code: "autostart-daemon-enablement-not-symlink",
            message: "Cadder found a default.target cadderd.service entry that is not a symlink.",
        },
        EnablementObservation::Missing => LinuxEnablementState::Missing,
        EnablementObservation::Uninspectable => LinuxEnablementState::Invalid {
            code: "autostart-daemon-enablement-unreadable",
            message: "Cadder could not inspect the cadderd.service enablement link.",
        },
    }
}

pub open spec fn diagnostic_codes(v: Seq<AutostartDiagnostic>) -> Seq<Seq<char>> {
    v.map_values(|d: AutostartDiagnostic| d.code@)
}

/// The diagnostic codes of a Linux autostart report, in order.
pub open spec fn linux_diagnostic_codes(
    unit_exists: bool,
    enablement: LinuxEnablementState,
    target_resolved: bool,
) -> Seq<Seq<char>> {
    (if !unit_exists {
        seq!["autostart-daemon-unit-missing"@]
    } else {
        Seq::empty()
    }) + (match enablement {
        LinuxEnablementState::Valid => Seq::empty(),
        LinuxEnablementState::Missing => if unit_exists {
            seq!["autostart-daemon-not-enabled"@]
        } else {
            Seq::empty()
        },
        LinuxEnablementState::Invalid { code, message } => seq![code@],
    }) + (if !target_resolved {
        seq!["autostart-target-missing"@]
    } else {
        Seq::empty()
    })
}

fn diagnostic(code: &str, message: &str) -> (r: AutostartDiagnostic)
    ensures
        r.code@ == code@,
        r.message@ == message@,
{
    AutostartDiagnostic { code: code.to_owned(), message: message.to_owned() }
}

/// The report for Linux: disabled when neither the unit nor its link exists; otherwise the
/// daemon mode, enabled only when no diagnostic applies.
pub fn query_linux_autostart(
    manager: &AutostartManager,
    daemon_unit_exists: bool,
    enablement: LinuxEnablementState,
) -> (r: AutostartView)
    ensures
        !daemon_unit_exists && !enablement.spec_is_present() ==> r.mode == AutostartMode::Disabled
            && r.status == AutostartStatus::Disabled && r.target is None && r.diagnostics@.len()
            == 0,
        daemon_unit_exists || enablement.spec_is_present() ==> {
            let codes = linux_diagnostic_codes(
                daemon_unit_exists,
                enablement,
                manager.daemon_path is Some,
            );
            &&& r.mode == AutostartMode::Daemon
            &&& diagnostic_codes(r.diagnostics@) == codes
            &&& r.status == if codes.len() == 0 {
                AutostartStatus::Enabled
            } else {
                AutostartStatus::Misconfigured
            }
            &&& match manager.daemon_path {
                Some(p) => r.target matches Some(t) && t@ == daemon_command_line(
                    p@,
                    manager.platform,
                ),
                None => r.target is None,
            }
        },
{
    if !daemon_unit_exists && !enablement.is_present() {
        return AutostartView {
            mode: AutostartMode::Disabled,
            status: AutostartStatus::Disabled,
            target: None,
            diagnostics: Vec::new(),
        };
    }
    let mode = AutostartMode::Daemon;
    let target = manager.target_for_mode(mode);
    let mut diagnostics: Vec<AutostartDiagnostic> = Vec::new();
    if !daemon_unit_exists {
        diagnostics.push(
            diagnostic(
                "autostart-daemon-unit-missing",
                "Cadder found startup enablement without the generated cadderd.service unit.",
            ),
        );
    }
    match enablement {
        LinuxEnablementState::Valid => {},
        LinuxEnablementState::Missing => {
            if daemon_unit_exists {
                diagnostics.push(
                    diagnostic(
                        "autostart-daemon-not-enabled",
                        "Cadder found cadderd.service, but it is not enabled under default.target.",
                    ),
                );
            }
        },
        LinuxEnablementState::Invalid { code, message } => {
            diagnostics.push(diagnostic(code, message));
        },
    }
    if target.is_none() {
        diagnostics.push(
            diagnostic(
                "autostart-target-missing",
                "Cadder could not resolve the configured autostart target.",
            ),
        );
    }
    assert(diagnostic_codes(diagnostics@) =~= linux_diagnostic_codes(
        daemon_unit_exists,
        enablement,
        manager.daemon_path is Some,
    ));
    let status = if diagnostics.len() == 0 {
        AutostartStatus::Enabled
    } else {
        AutostartStatus::Misconfigured
    };
    AutostartView { mode, status, target, diagnostics }
}

/// The report when the configuration directory cannot be resolved: autostart is
/// unsupported here, and the reason is the one diagnostic.
pub fn config_dir_unavailable(reason: &str) -> (r: AutostartView)
    ensures
        r.mode == AutostartMode::Disabled,
        r.status == AutostartStatus::Unsupported,
        r.target is None,
        r.diagnostics@.len() == 1,
        r.diagnostics@[0].code@ == "autostart-config-dir-unavailable"@,
        r.diagnostics@[0].message@ == reason@,
{
    let mut diagnostics: Vec<AutostartDiagnostic> = Vec::new();
    diagnostics.push(diagnostic("autostart-config-dir-unavailable", reason));
    AutostartView { mode: AutostartMode::Disabled, status: AutostartStatus::Unsupported, target: None, diagnostics }
}

/// The report when autostart is off.
pub fn autostart_disabled() -> (r: AutostartView)
    ensures
        r.mode == AutostartMode::Disabled,
        r.status == AutostartStatus::Disabled,
        r.target is None,
        r.diagnostics@.len() == 0,
{
    AutostartView { mode: AutostartMode::Disabled, status: AutostartStatus::Disabled, target: None, diagnostics: Vec::new() }
}

/// The report when autostart is on in `mode`: enabled when the target resolves, otherwise
/// misconfigured with a diagnostic that says so.
pub fn autostart_enabled(manager: &AutostartManager, mode: AutostartMode) -> (r: AutostartView)
    ensures
        r.mode == mode,
        mode == AutostartMode::Disabled ==> r.target is None,
        mode == AutostartMode::Daemon ==> match manager.daemon_path {
            Some(p) => r.target matches Some(t) && t@ == daemon_command_line(p@, manager.platform),
            None => r.target is None,
        },
        r.target is Some ==> r.status == AutostartStatus::Enabled && r.diagnostics@.len() == 0,
        r.target is None ==> {
            &&& r.status == AutostartStatus::Misconfigured
            &&& r.diagnostics@.len() == 1
            &&& r.diagnostics@[0].code@ == "autostart-target-missing"@
            &&& r.diagnostics@[0].message@ == "Cadder could not resolve the configured autostart target."@
        },
{
    let target = manager.target_for_mode(mode);
    let mut diagnostics: Vec<AutostartDiagnostic> = Vec::new();
    if target.is_none() {
        diagnostics.push(
            diagnostic("autostart-target-missing", "Cadder could not resolve the configured autostart target."),
        );
    }
    let status = if diagnostics.len() == 0 {
        AutostartStatus::Enabled
    } else {
        AutostartStatus::Misconfigured
    };
    AutostartView { mode, status, target, diagnostics }
}

/// The report on Windows: the daemon mode, enabled, when the Run key holds Cadder's value;
/// otherwise disabled.
pub fn windows_autostart(manager: &AutostartManager, run_value_present: bool) -> (r: AutostartView)
    ensures
        run_value_present ==> {
            &&& r.mode == AutostartMode::Daemon
            &&& r.status == AutostartStatus::Enabled
            &&& r.diagnostics@.len() == 0
            &&& match manager.daemon_path {
                Some(p) => r.target matches Some(t) && t@ == daemon_command_line(p@, manager.platform),
                None => r.target is None,
            }
        },
        !run_value_present ==> r.mode == AutostartMode::Disabled && r.status == AutostartStatus::Disabled
            && r.target is None && r.diagnostics@.len() == 0,
{
    if run_value_present {
        AutostartView {
            mode: AutostartMode::Daemon,
            status: AutostartStatus::Enabled,
            target: manager.target_for_mode(AutostartMode::Daemon),
            diagnostics: Vec::new(),
        }
    } else {
        autostart_disabled()
    }
}

/// The launch agent that starts the daemon on macOS, under the home directory.
pub fn macos_daemon_plist(home: &str) -> (r: String)
    ensures
        r@ == join_path(join_path(join_path(home@, "Library"@), "LaunchAgents"@), "dev.cadder.daemon.plist"@),
{
    let library = join_component(home, "Library");
    let agents = join_component(library.as_str(), "LaunchAgents");
    join_component(agents.as_str(), "dev.cadder.daemon.plist")
}

/// The report on macOS: the daemon mode when its launch agent exists, otherwise disabled.
pub fn macos_autostart(manager: &AutostartManager, plist_exists: bool) -> (r: AutostartView)
    ensures
        plist_exists ==> r.mode == AutostartMode::Daemon,
        plist_exists ==> (r.target is Some <==> manager.daemon_path is Some),
        plist_exists ==> (r.status == AutostartStatus::Enabled <==> manager.daemon_path is Some),
        !plist_exists ==> r.mode == AutostartMode::Disabled && r.status == AutostartStatus::Disabled
            && r.target is None && r.diagnostics@.len() == 0,
{
    if plist_exists {
        autostart_enabled(manager, AutostartMode::Daemon)
    } else {
        autostart_disabled()
    }
}

/// The report where autostart is not supported.
pub fn autostart_unsupported() -> (r: AutostartView)
    ensures
        r.mode == AutostartMode::Disabled,
        r.status == AutostartStatus::Unsupported,
        r.target is None,
        r.diagnostics@.len() == 1,
        r.diagnostics@[0].code@ == "autostart-unsupported"@,
        r.diagnostics@[0].message@ == "Autostart is not supported on this platform."@,
{
    let mut diagnostics: Vec<AutostartDiagnostic> = Vec::new();
    diagnostics.push(diagnostic("autostart-unsupported", "Autostart is not supported on this platform."));
    AutostartView { mode: AutostartMode::Disabled, status: AutostartStatus::Unsupported, target: None, diagnostics }
}

/// The configuration directory that Linux autostart uses: the override when there is one,
/// else the user's configuration directory; without either, the reason it is unavailable.
pub fn autostart_config_dir(config_dir_override: Option<String>, user_config_dir: Option<String>) -> (r: Result<String, String>)
    ensures
        match (config_dir_override, user_config_dir) {
            (Some(o), _) => r matches Ok(d) && d@ == o@,
            (None, Some(u)) => r matches Ok(d) && d@ == u@,
            (None, None) => r matches Err(m) && m@ == "could not resolve config directory"@,
        },
{
    match config_dir_override {
        Some(o) => Ok(o),
        None => match user_config_dir {
            Some(u) => Ok(u),
            None => Err("could not resolve config directory".to_owned()),
        },
    }
}

} // verus!
