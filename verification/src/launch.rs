//! Launching the daemon: the Caddy backend it is told to use, the process configuration of each
//! launch mode, the arguments it is started with, and how launch failures are classified.

use vstd::prelude::*;
use crate::text::{push_str, to_chars, from_chars, ascii_lowercase, to_ascii_lowercase};
use crate::domain::{trim, trim_chars};
use crate::ipc_errors::{
    IoErrorClass, IpcClientError, IpcClientPhase, LocalIpcError, LocalIpcErrorCode,
    LocalIpcErrorKind, opt_view,
};
use crate::autostart::Platform;
use crate::logs::strings_view;

verus! {

/// The Windows process-creation flag that suppresses a console window.
pub const CREATE_NO_WINDOW: u32 = 0x0800_0000;

/// The creation flags of a background daemon: no window, but neither detached nor a new
/// process group, because Windows ignores the window flag for detached processes.
pub const BACKGROUND_DAEMON_CREATION_FLAGS: u32 = CREATE_NO_WINDOW;

/// Which Caddy the daemon drives.
#[derive(Debug, Clone, Copy, PartialEq, Eq, Structural)]
pub enum CaddyBackendMode {
    Real,
    Mock,
}

/// The name of a backend as it is written on the command line.
pub open spec fn backend_name(mode: CaddyBackendMode) -> Seq<char> {
    match mode {
        CaddyBackendMode::Real => "real"@,
        CaddyBackendMode::Mock => "mock"@,
    }
}

/// The key that a backend name is compared by: trimmed and ASCII-lowercased.
pub open spec fn backend_key(value: Seq<char>) -> Seq<char> {
    ascii_lowercase(trim(value))
}

/// The backend that a name selects, if any: empty, `real` and `default` select the real
/// Caddy; `mock` and `dev` the mock.
pub open spec fn parse_backend(value: Seq<char>) -> Option<CaddyBackendMode> {
    let key = backend_key(value);
    if key == Seq::<char>::empty() || key == "real"@ || key == "default"@ {
        Some(CaddyBackendMode::Real)
    } else if key == "mock"@ || key == "dev"@ {
        Some(CaddyBackendMode::Mock)
    } else {
        None
    }
}

/// The message that rejects an unknown backend name.
pub open spec fn unknown_backend_message(value: Seq<char>) -> Seq<char> {
    "unknown Cadder Caddy backend `"@ + backend_key(value) + "`; expected `real` or `mock`"@
}

impl CaddyBackendMode {
    /// The command-line name of the backend.
    pub fn as_str(self) -> (r: &'static str)
        ensures
            r@ == backend_name(self),
    {
        match self {
            CaddyBackendMode::Real => "real",
            CaddyBackendMode::Mock => "mock",
        }
    }

    /// Parses a backend name; an unknown name is rejected with a message that repeats it.
    pub fn parse(value: &str) -> (r: Result<CaddyBackendMode, String>)
        ensures
            match parse_backend(value@) {
                Some(mode) => r == Ok::<CaddyBackendMode, String>(mode),
                None => r matches Err(message) && message@ == unknown_backend_message(value@),
            },
    {
        let chars = to_chars(value);
        let trimmed = trim_chars(&chars);
        let lowered = to_ascii_lowercase(&trimmed);
        let key = from_chars(lowered.as_slice());
        proof {
            reveal_strlit("");
            assert(""@ =~= Seq::<char>::empty());
        }
        if key == "".to_owned() || key == "real".to_owned() || key == "default".to_owned() {
            Ok(CaddyBackendMode::Real)
        } else if key == "mock".to_owned() || key == "dev".to_owned() {
            Ok(CaddyBackendMode::Mock)
        } else {
            let mut message = String::new();
            push_str(&mut message, "unknown Cadder Caddy backend `");
            push_str(&mut message, key.as_str());
            push_str(&mut message, "`; expected `real` or `mock`");
            Err(message)
        }
    }

    /// Parses a backend name given on the command line.
    pub fn parse_cli(value: &str) -> (r: Result<CaddyBackendMode, String>)
        ensures
            match parse_backend(value@) {
                Some(mode) => r == Ok::<CaddyBackendMode, String>(mode),
                None => r matches Err(message) && message@ == unknown_backend_message(value@),
            },
    {
        CaddyBackendMode::parse(value)
    }

    /// The backend selected by the environment: the real Caddy when the variable is unset.
    pub fn from_env_value(value: Option<&str>) -> (r: Result<CaddyBackendMode, String>)
        ensures
            match value {
                None => r == Ok::<CaddyBackendMode, String>(CaddyBackendMode::Real),
                Some(v) => match parse_backend(v@) {
                    Some(mode) => r == Ok::<CaddyBackendMode, String>(mode),
                    None => r matches Err(message) && message@ == unknown_backend_message(v@),
                },
            },
    {
        match value {
            None => Ok(CaddyBackendMode::Real),
            Some(v) => CaddyBackendMode::parse(v),
        }
    }
}

/// Whether the daemon is launched in the background or attached for diagnosis.
#[derive(Debug, Clone, Copy, PartialEq, Eq, Structural)]
pub enum DaemonLaunchMode {
    Background,
    ForegroundDiagnostic,
}

/// What happens to the daemon's standard streams.
#[derive(Debug, Clone, Copy, PartialEq, Eq, Structural)]
pub enum DaemonStdioMode {
    Null,
    Inherit,
}

/// How the daemon process is created: its streams, its Windows creation flags and whether
/// it starts a new Unix session.
#[derive(Debug, Clone, Copy, PartialEq, Eq, Structural)]
pub struct DaemonProcessConfig {
    pub stdio: DaemonStdioMode,
    pub creation_flags: u32,
    pub starts_new_session: bool,
}

impl DaemonProcessConfig {
    /// The process configuration of a launch mode.
    pub open spec fn spec_for_launch_mode(mode: DaemonLaunchMode) -> DaemonProcessConfig {
        match mode {
            DaemonLaunchMode::Background => DaemonProcessConfig {
                stdio: DaemonStdioMode::Null,
                creation_flags: BACKGROUND_DAEMON_CREATION_FLAGS,
                starts_new_session: true,
            },
            DaemonLaunchMode::ForegroundDiagnostic => DaemonProcessConfig {
                stdio: DaemonStdioMode::Inherit,
                creation_flags: 0,
                starts_new_session: false,
            },
        }
    }

    /// A background daemon has null streams, no window and its own session; a foreground
    /// one inherits the streams and stays in the caller's session.
    pub fn for_launch_mode(mode: DaemonLaunchMode) -> (r: DaemonProcessConfig)
        ensures
            mode == DaemonLaunchMode::Background ==> r == (DaemonProcessConfig {
                stdio: DaemonStdioMode::Null,
                creation_flags: BACKGROUND_DAEMON_CREATION_FLAGS,
                starts_new_session: true,
            }),
            mode == DaemonLaunchMode::ForegroundDiagnostic ==> r == (DaemonProcessConfig {
                stdio: DaemonStdioMode::Inherit,
                creation_flags: 0,
                starts_new_session: false,
            }),
    {
        match mode {
            DaemonLaunchMode::Background => DaemonProcessConfig {
                stdio: DaemonStdioMode::Null,
                creation_flags: BACKGROUND_DAEMON_CREATION_FLAGS,
                starts_new_session: true,
            },
            DaemonLaunchMode::ForegroundDiagnostic => DaemonProcessConfig {
                stdio: DaemonStdioMode::Inherit,
                creation_flags: 0,
                starts_new_session: false,
            },
        }
    }
}

/// The arguments the daemon is started with.
pub open spec fn launch_arguments(real_caddy_override: Option<Seq<char>>, backend: CaddyBackendMode) -> Seq<Seq<char>> {
    let base = seq!["--detach-ready"@];
    let with_override = match real_caddy_override {
        Some(path) => base + seq!["--real-caddy"@, path],
        None => base,
    };
    if backend == CaddyBackendMode::Real {
        with_override
    } else {
        with_override + seq!["--caddy-backend"@, backend_name(backend)]
    }
}

/// A transport failure in the launch phase of the `start-daemon` operation, not retryable.
pub open spec fn is_launch_failure(r: IpcClientError, code: LocalIpcErrorCode, message: Seq<char>, guidance: Seq<char>) -> bool {
    match r {
        IpcClientError::Local(e) => {
            &&& e.kind == LocalIpcErrorKind::Transport
            &&& e.phase == IpcClientPhase::DaemonLaunch
            &&& e.code == code
            &&& e.message@ == message
            &&& opt_view(e.guidance) == Some(guidance)
            &&& !e.retryable
            &&& e.request_id is None
            &&& opt_view(e.operation) == Some("start-daemon"@)
        },
        IpcClientError::Daemon(_) => false,
    }
}

/// Builds the error of a failed launch: a transport failure in the launch phase of the
/// `start-daemon` operation, not retryable.
pub fn daemon_launch_error(code: LocalIpcErrorCode, message: &str, guidance: &str) -> (r: IpcClientError)
    ensures
        is_launch_failure(r, code, message@, guidance@),
{
    IpcClientError::Local(LocalIpcError {
        kind: LocalIpcErrorKind::Transport,
        phase: IpcClientPhase::DaemonLaunch,
        code,
        message: message.to_owned(),
        guidance: Some(guidance.to_owned()),
        retryable: false,
        request_id: None,
        operation: Some("start-daemon".to_owned()),
    })
}

/// The arguments of a daemon launch, or the rejection of a mock backend combined with a
/// real-Caddy override.
pub fn daemon_launch_arguments(real_caddy_override: Option<String>, backend: CaddyBackendMode) -> (r: Result<Vec<String>, IpcClientError>)
    ensures
        backend == CaddyBackendMode::Mock && real_caddy_override is Some ==> (r matches Err(e)
            && is_launch_failure(
            e,
            LocalIpcErrorCode::InvalidInput,
            "Cadder rejected incompatible daemon launch options; no daemon was started."@,
            "Remove either the real-Caddy override or the mock backend option, then retry."@,
        )),
        !(backend == CaddyBackendMode::Mock && real_caddy_override is Some) ==> (r matches Ok(
            args) && strings_view(args@) == launch_arguments(opt_view(real_caddy_override), backend)),
{
    if backend == CaddyBackendMode::Mock && real_caddy_override.is_some() {
        return Err(
            daemon_launch_error(
                LocalIpcErrorCode::InvalidInput,
                "Cadder rejected incompatible daemon launch options; no daemon was started.",
                "Remove either the real-Caddy override or the mock backend option, then retry.",
            ),
        );
    }
    let mut args: Vec<String> = Vec::new();
    args.push("--detach-ready".to_owned());
    match real_caddy_override {
        Some(path) => {
            args.push("--real-caddy".to_owned());
            args.push(path);
        },
        None => {},
    }
    if backend != CaddyBackendMode::Real {
        args.push("--caddy-backend".to_owned());
        args.push(backend.as_str().to_owned());
    }
    proof {
        assert(strings_view(args@) =~= launch_arguments(opt_view(real_caddy_override), backend));
    }
    Ok(args)
}

/// A permission failure keeps its code; every other spawn failure is a failed start.
pub fn launch_code_for_io(kind: IoErrorClass) -> (r: LocalIpcErrorCode)
    ensures
        kind == IoErrorClass::PermissionDenied ==> r == LocalIpcErrorCode::PermissionDenied,
        kind != IoErrorClass::PermissionDenied ==> r == LocalIpcErrorCode::DaemonStartFailed,
{
    if kind == IoErrorClass::PermissionDenied {
        LocalIpcErrorCode::PermissionDenied
    } else {
        LocalIpcErrorCode::DaemonStartFailed
    }
}

/// A failure that means the daemon may still come up: a stale instance, an unreachable
/// endpoint, or a connect timeout.
pub open spec fn not_ready_yet(error: IpcClientError) -> bool {
    error.spec_stale_instance() || error.spec_daemon_unavailable() || (
    error matches IpcClientError::Local(e) && e.phase == IpcClientPhase::Connect && e.code
        == LocalIpcErrorCode::Timeout)
}

/// Whether a failed readiness probe should be retried.
pub fn daemon_not_ready_yet(error: &IpcClientError) -> (r: bool)
    ensures
        r == not_ready_yet(*error),
{
    if error.is_stale_instance() || error.is_daemon_unavailable() {
        return true;
    }
    match error.local_error() {
        Some(local) => local.phase() == IpcClientPhase::Connect && local.code()
            == LocalIpcErrorCode::Timeout,
        None => false,
    }
}

/// The file name of an executable: `.exe` is appended on Windows.
pub open spec fn exe_file_name(name: Seq<char>, platform: Platform) -> Seq<char> {
    match platform {
        Platform::Windows => name + ".exe"@,
        Platform::Unix => name,
    }
}

/// The file name of the executable `name` on `platform`.
pub fn exe_name(name: &str, platform: Platform) -> (r: String)
    ensures
        r@ == exe_file_name(name@, platform),
{
    let mut r = name.to_owned();
    match platform {
        Platform::Windows => push_str(&mut r, ".exe"),
        Platform::Unix => {},
    }
    r
}

/// How a daemon is to be started: an explicit daemon executable, a real-Caddy override, a
/// backend (else the environment's), and whether it runs in the background.
#[derive(Debug, Clone)]
pub struct DaemonLaunchOptions {
    pub explicit_daemon: Option<String>,
    pub real_caddy_override: Option<String>,
    pub caddy_backend: Option<CaddyBackendMode>,
    pub launch_mode: DaemonLaunchMode,
}

impl Default for DaemonLaunchOptions {
    fn default() -> (r: DaemonLaunchOptions)
        ensures
            r.explicit_daemon is None,
            r.real_caddy_override is None,
            r.caddy_backend is None,
            r.launch_mode == DaemonLaunchMode::Background,
    {
        DaemonLaunchOptions {
            explicit_daemon: None,
            real_caddy_override: None,
            caddy_backend: None,
            launch_mode: DaemonLaunchMode::Background,
        }
    }
}

/// The daemon executable to start: the explicit one, else the one beside this executable,
/// else the one on PATH; none is an error.
pub fn choose_daemon_executable(
    explicit: Option<String>,
    sibling: Option<String>,
    on_path: Option<String>,
) -> (r: Result<String, IpcClientError>)
    ensures
        match (explicit, sibling, on_path) {
            (Some(p), _, _) => r == Ok::<String, IpcClientError>(p),
            (None, Some(p), _) => r == Ok::<String, IpcClientError>(p),
            (None, None, Some(p)) => r == Ok::<String, IpcClientError>(p),
            (None, None, None) => r matches Err(e) && is_launch_failure(
                e,
                LocalIpcErrorCode::DaemonNotFound,
                "Cadder could not find the daemon executable; no daemon was started."@,
                "Install Cadder or provide a trusted cadderd path, then retry."@,
            ),
        },
{
    match explicit {
        Some(p) => Ok(p),
        None => match sibling {
            Some(p) => Ok(p),
            None => match on_path {
                Some(p) => Ok(p),
                None => Err(
                    daemon_launch_error(
                        LocalIpcErrorCode::DaemonNotFound,
                        "Cadder could not find the daemon executable; no daemon was started.",
                        "Install Cadder or provide a trusted cadderd path, then retry.",
                    ),
                ),
            },
        },
    }
}

/// The backend a launch uses: the one given, else the one the environment selects.
pub open spec fn chosen_backend(given: Option<CaddyBackendMode>, env_value: Option<Seq<char>>) -> Option<CaddyBackendMode> {
    match given {
        Some(b) => Some(b),
        None => match env_value {
            None => Some(CaddyBackendMode::Real),
            Some(v) => parse_backend(v),
        },
    }
}

/// How to start the daemon: its process configuration and arguments. The backend is the
/// one given, else the environment's (`env_backend` is the variable's value); a backend
/// the environment misnames, or a mock backend with a real-Caddy override, is rejected.
pub fn launch_plan(options: &DaemonLaunchOptions, env_backend: Option<&str>) -> (r: Result<(DaemonProcessConfig, Vec<String>), IpcClientError>)
    ensures
        match chosen_backend(options.caddy_backend, match env_backend {
            Some(v) => Some(v@),
            None => None,
        }) {
            None => r matches Err(e) && is_launch_failure(
                e,
                LocalIpcErrorCode::InvalidInput,
                "Cadder rejected the daemon launch configuration; no daemon was started."@,
                "Correct the daemon launch options, then retry."@,
            ),
            Some(backend) => if backend == CaddyBackendMode::Mock && options.real_caddy_override is Some {
                r matches Err(e) && is_launch_failure(
                    e,
                    LocalIpcErrorCode::InvalidInput,
                    "Cadder rejected incompatible daemon launch options; no daemon was started."@,
                    "Remove either the real-Caddy override or the mock backend option, then retry."@,
                )
            } else {
                r matches Ok((config, args)) && config == DaemonProcessConfig::spec_for_launch_mode(options.launch_mode)
                    && strings_view(args@) == launch_arguments(opt_view(options.real_caddy_override), backend)
            },
        },
{
    let backend = match options.caddy_backend {
        Some(b) => b,
        None => match CaddyBackendMode::from_env_value(env_backend) {
            Ok(b) => b,
            Err(_) => {
                return Err(
                    daemon_launch_error(
                        LocalIpcErrorCode::InvalidInput,
                        "Cadder rejected the daemon launch configuration; no daemon was started.",
                        "Correct the daemon launch options, then retry.",
                    ),
                );
            },
        },
    };
    let config = DaemonProcessConfig::for_launch_mode(options.launch_mode);
    let override_path = match &options.real_caddy_override {
        Some(p) => Some(p.clone()),
        None => None,
    };
    match daemon_launch_arguments(override_path, backend) {
        Ok(args) => Ok((config, args)),
        Err(e) => Err(e),
    }
}

} // verus!
