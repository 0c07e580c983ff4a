//! The operator-facing outcome of a command: its exit status, and the error a command
//! reports with its message, its guidance and the IPC failure behind it.

use vstd::prelude::*;
use std::io::ErrorKind;
use crate::domain::{trim, trim_str};
use crate::text::{push_str, push_char, to_chars, ascii_lowercase, to_ascii_lowercase};
use crate::ipc_errors::{
    IpcClientError, IpcClientPhase, LocalIpcError, LocalIpcErrorCode, LocalIpcErrorKind,
    ProtocolError, ProtocolErrorKind, opt_view, IoErrorClass,
};

verus! {

/// How a command ends, as the process exit status.
#[derive(Debug, Clone, Copy, PartialEq, Eq, Structural)]
pub enum AppExit {
    Success,
    InvalidUsage,
    DaemonUnavailable,
    DaemonStartFailure,
    TargetNotFound,
    ConflictOrRejected,
    PermissionOrElevation,
    UnsupportedOperation,
    IpcFailure,
}

/// The exit status of each outcome.
pub open spec fn exit_code(e: AppExit) -> u8 {
    match e {
        AppExit::Success => 0,
        AppExit::InvalidUsage => 2,
        AppExit::DaemonUnavailable => 3,
        AppExit::DaemonStartFailure => 4,
        AppExit::TargetNotFound => 5,
        AppExit::ConflictOrRejected => 6,
        AppExit::PermissionOrElevation => 7,
        AppExit::UnsupportedOperation => 8,
        AppExit::IpcFailure => 9,
    }
}

impl AppExit {
    /// The process exit status.
    pub fn code(self) -> (r: u8)
        ensures
            r == exit_code(self),
    {
        match self {
            AppExit::Success => 0,
            AppExit::InvalidUsage => 2,
            AppExit::DaemonUnavailable => 3,
            AppExit::DaemonStartFailure => 4,
            AppExit::TargetNotFound => 5,
            AppExit::ConflictOrRejected => 6,
            AppExit::PermissionOrElevation => 7,
            AppExit::UnsupportedOperation => 8,
            AppExit::IpcFailure => 9,
        }
    }
}

/// No two outcomes share an exit status.
pub proof fn lemma_exit_codes_are_distinct(a: AppExit, b: AppExit)
    ensures
        exit_code(a) == exit_code(b) ==> a == b,
{
}

/// The details of a local IPC failure as an operator error carries them.
#[derive(Debug, Clone)]
pub struct OperatorLocalIpcError {
    pub kind: LocalIpcErrorKind,
    pub phase: IpcClientPhase,
    pub code: LocalIpcErrorCode,
    pub message: String,
    pub guidance: Option<String>,
    pub retryable: bool,
    pub request_id: Option<String>,
    pub operation: Option<String>,
}

/// The error a command reports: its outcome, message and guidance, and the daemon or local
/// IPC failure behind it.
#[derive(Debug, Clone)]
pub struct OperatorError {
    pub kind: AppExit,
    pub message: String,
    pub guidance: Option<String>,
    pub daemon_error: Option<ProtocolError>,
    pub local_error: Option<OperatorLocalIpcError>,
    pub command: &'static str,
}

/// An error with no IPC failure behind it.
pub open spec fn plain_error(e: OperatorError, command: &'static str, kind: AppExit, message: Seq<char>, guidance: Option<Seq<char>>) -> bool {
    &&& e.kind == kind
    &&& e.message@ == message
    &&& opt_view(e.guidance) == guidance
    &&& e.daemon_error is None
    &&& e.local_error is None
    &&& e.command == command
}

/// A message ended as a sentence: trimmed, with a full stop unless it already ends with
/// `.`, `!` or `?`.
pub open spec fn sentence_text(m: Seq<char>) -> Seq<char> {
    let t = trim(m);
    if t.len() > 0 && (t.last() == '.' || t.last() == '!' || t.last() == '?') {
        t
    } else {
        t + "."@
    }
}

/// Ends a message as a sentence.
pub fn sentence(message: &str) -> (r: String)
    ensures
        r@ == sentence_text(message@),
{
    let mut t = trim_str(message);
    let chars = to_chars(t.as_str());
    let n = chars.len();
    if n > 0 && (chars[n - 1] == '.' || chars[n - 1] == '!' || chars[n - 1] == '?') {
        t
    } else {
        push_char(&mut t, '.');
        proof {
            reveal_strlit(".");
            assert(t@ =~= trim(message@) + "."@);
        }
        t
    }
}

/// The guidance for starting the daemon.
pub open spec fn start_guidance_text() -> Seq<char> {
    "Open Cadder and start it from Status, then retry."@
}

/// How to start the daemon of a runtime.
pub fn start_guidance(runtime_dir: &str) -> (r: String)
    ensures
        r@ == start_guidance_text(),
{
    "Open Cadder and start it from Status, then retry.".to_owned()
}

/// The daemon of the runtime cannot be reached.
pub fn daemon_error_indicates_unavailable(error: &IpcClientError) -> (r: bool)
    ensures
        r == error.spec_daemon_unavailable(),
{
    error.is_daemon_unavailable()
}

/// The outcome that an IPC failure maps to: permission problems first, then an unreachable
/// daemon, then incompatibility; a daemon conflict is a rejection; anything else is an IPC
/// failure.
pub open spec fn exit_for_ipc(e: IpcClientError) -> AppExit {
    if e.spec_permission_denied() {
        AppExit::PermissionOrElevation
    } else if e.spec_daemon_unavailable() {
        AppExit::DaemonUnavailable
    } else if e.spec_protocol_incompatible() {
        AppExit::UnsupportedOperation
    } else {
        match e {
            IpcClientError::Daemon(p) => match p.kind {
                ProtocolErrorKind::Conflict => AppExit::ConflictOrRejected,
                ProtocolErrorKind::IncompatibleProtocolVersion => AppExit::UnsupportedOperation,
                ProtocolErrorKind::UnsupportedCapability => AppExit::UnsupportedOperation,
                _ => AppExit::IpcFailure,
            },
            IpcClientError::Local(_) => AppExit::IpcFailure,
        }
    }
}

/// The outcome of an IPC failure.
pub fn app_exit_for_ipc(error: &IpcClientError) -> (r: AppExit)
    ensures
        r == exit_for_ipc(*error),
{
    if error.is_permission_denied() {
        return AppExit::PermissionOrElevation;
    }
    if daemon_error_indicates_unavailable(error) {
        return AppExit::DaemonUnavailable;
    }
    if error.is_protocol_incompatible() {
        return AppExit::UnsupportedOperation;
    }
    match error {
        IpcClientError::Daemon(p) => match p.kind {
            ProtocolErrorKind::Conflict => AppExit::ConflictOrRejected,
            ProtocolErrorKind::IncompatibleProtocolVersion => AppExit::UnsupportedOperation,
            ProtocolErrorKind::UnsupportedCapability => AppExit::UnsupportedOperation,
            _ => AppExit::IpcFailure,
        },
        IpcClientError::Local(_) => AppExit::IpcFailure,
    }
}

/// The message of an IPC failure.
pub open spec fn client_message(e: IpcClientError) -> Seq<char> {
    match e {
        IpcClientError::Daemon(p) => p.message@,
        IpcClientError::Local(l) => l.message@,
    }
}

/// The guidance of an IPC failure.
pub open spec fn client_guidance(e: IpcClientError) -> Option<Seq<char>> {
    match e {
        IpcClientError::Daemon(p) => opt_view(p.guidance),
        IpcClientError::Local(l) => opt_view(l.guidance),
    }
}

/// An operator error carries the IPC failure behind it: the daemon's error, or the details
/// of the local one.
pub open spec fn carries(o: OperatorError, e: IpcClientError) -> bool {
    match e {
        IpcClientError::Daemon(p) => o.daemon_error == Some(p) && o.local_error is None,
        IpcClientError::Local(l) => o.daemon_error is None && match o.local_error {
            Some(x) => {
                &&& x.kind == l.kind
                &&& x.phase == l.phase
                &&& x.code == l.code
                &&& x.message@ == l.message@
                &&& opt_view(x.guidance) == opt_view(l.guidance)
                &&& x.retryable == l.retryable
                &&& opt_view(x.request_id) == opt_view(l.request_id)
                &&& opt_view(x.operation) == opt_view(l.operation)
            },
            None => false,
        },
    }
}

fn copy_opt(s: &Option<String>) -> (r: Option<String>)
    ensures
        opt_view(r) == opt_view(*s),
{
    match s {
        Some(v) => Some(v.clone()),
        None => None,
    }
}

impl OperatorError {
    /// An error of command `command` with outcome `kind`.
    pub fn new(command: &'static str, kind: AppExit, message: String, guidance: Option<String>) -> (r: OperatorError)
        ensures
            plain_error(r, command, kind, message@, opt_view(guidance)),
    {
        OperatorError { kind, message, guidance, daemon_error: None, local_error: None, command }
    }

    /// The command was used wrongly.
    pub fn invalid_usage(command: &'static str, message: String, guidance: Option<String>) -> (r: OperatorError)
        ensures
            plain_error(r, command, AppExit::InvalidUsage, message@, opt_view(guidance)),
    {
        OperatorError::new(command, AppExit::InvalidUsage, message, guidance)
    }

    /// What the command names does not exist.
    pub fn target_not_found(command: &'static str, message: String, guidance: Option<String>) -> (r: OperatorError)
        ensures
            plain_error(r, command, AppExit::TargetNotFound, message@, opt_view(guidance)),
    {
        OperatorError::new(command, AppExit::TargetNotFound, message, guidance)
    }

    /// The request conflicts with the current state or was rejected.
    pub fn conflict_or_rejected(command: &'static str, message: String, guidance: Option<String>) -> (r: OperatorError)
        ensures
            plain_error(r, command, AppExit::ConflictOrRejected, message@, opt_view(guidance)),
    {
        OperatorError::new(command, AppExit::ConflictOrRejected, message, guidance)
    }

    /// The operation is not supported.
    pub fn unsupported(command: &'static str, message: String, guidance: Option<String>) -> (r: OperatorError)
        ensures
            plain_error(r, command, AppExit::UnsupportedOperation, message@, opt_view(guidance)),
    {
        OperatorError::new(command, AppExit::UnsupportedOperation, message, guidance)
    }

    fn with_ipc_error(self, error: IpcClientError) -> (r: OperatorError)
        ensures
            carries(r, error),
            r.kind == self.kind,
            r.message == self.message,
            r.guidance == self.guidance,
            r.command == self.command,
    {
        let mut r = self;
        match error {
            IpcClientError::Daemon(p) => {
                r.daemon_error = Some(p);
                r.local_error = None;
            },
            IpcClientError::Local(l) => {
                r.daemon_error = None;
                r.local_error = Some(OperatorLocalIpcError {
                    kind: l.kind,
                    phase: l.phase,
                    code: l.code,
                    message: l.message.clone(),
                    guidance: copy_opt(&l.guidance),
                    retryable: l.retryable,
                    request_id: copy_opt(&l.request_id),
                    operation: copy_opt(&l.operation),
                });
            },
        }
        r
    }

    /// A failed daemon request for `action` in the runtime at `runtime_dir`: an unreachable
    /// daemon is reported with start guidance; otherwise the failure's message and guidance,
    /// with a diagnostics hint for IPC failures that carry none.
    pub fn daemon_request(command: &'static str, runtime_dir: &str, action: &str, error: IpcClientError) -> (r: OperatorError)
        ensures
            r.kind == exit_for_ipc(error),
            r.command == command,
            carries(r, error),
            r.kind == AppExit::DaemonUnavailable ==> {
                &&& r.message@ == "Cadder daemon is unavailable for runtime `"@ + runtime_dir@ + "`."@
                &&& opt_view(r.guidance) == Some(start_guidance_text())
            },
            r.kind != AppExit::DaemonUnavailable ==> {
                &&& r.message@ == "Could not "@ + action@ + ": "@ + sentence_text(client_message(error))
                &&& opt_view(r.guidance) == match client_guidance(error) {
                    Some(g) => Some(g),
                    None => if r.kind == AppExit::IpcFailure {
                        Some(
                            "Inspect cadderd diagnostics for runtime `"@ + runtime_dir@
                                + "`, correct the reported protocol or transport error, then retry."@,
                        )
                    } else {
                        None
                    },
                }
            },
    {
        let kind = app_exit_for_ipc(&error);
        let message = if kind == AppExit::DaemonUnavailable {
            let mut m = "Cadder daemon is unavailable for runtime `".to_owned();
            push_str(&mut m, runtime_dir);
            push_str(&mut m, "`.");
            m
        } else {
            let mut m = "Could not ".to_owned();
            push_str(&mut m, action);
            push_str(&mut m, ": ");
            let s = sentence(error.message());
            push_str(&mut m, s.as_str());
            m
        };
        let guidance = if kind == AppExit::DaemonUnavailable {
            Some(start_guidance(runtime_dir))
        } else {
            match error.guidance() {
                Some(g) => Some(g.to_owned()),
                None => if kind == AppExit::IpcFailure {
                    let mut g = "Inspect cadderd diagnostics for runtime `".to_owned();
                    push_str(&mut g, runtime_dir);
                    push_str(&mut g, "`, correct the reported protocol or transport error, then retry.");
                    Some(g)
                } else {
                    None
                },
            }
        };
        OperatorError::new(command, kind, message, guidance).with_ipc_error(error)
    }

    /// A failed daemon start: a permission problem, or a start failure, with the failure's
    /// guidance or a default one.
    pub fn daemon_start(command: &'static str, runtime_dir: &str, error: IpcClientError) -> (r: OperatorError)
        ensures
            r.kind == (if error.spec_permission_denied() {
                AppExit::PermissionOrElevation
            } else {
                AppExit::DaemonStartFailure
            }),
            r.command == command,
            carries(r, error),
            r.message@ == "Could not start cadderd: "@ + sentence_text(client_message(error)),
            opt_view(r.guidance) == match client_guidance(error) {
                Some(g) => Some(g),
                None => Some(
                    if error.spec_permission_denied() {
                        "Use the account that owns this Cadder runtime and verify access to the daemon executable and runtime directory."@
                    } else {
                        "Fix the Cadder startup problem, then open Cadder and start it from Status."@
                    },
                ),
            },
    {
        let permission_denied = error.is_permission_denied();
        let kind = if permission_denied {
            AppExit::PermissionOrElevation
        } else {
            AppExit::DaemonStartFailure
        };
        let guidance = match error.guidance() {
            Some(g) => Some(g.to_owned()),
            None => Some(
                if permission_denied {
                    "Use the account that owns this Cadder runtime and verify access to the daemon executable and runtime directory.".to_owned()
                } else {
                    "Fix the Cadder startup problem, then open Cadder and start it from Status.".to_owned()
                },
            ),
        };
        let mut message = "Could not start cadderd: ".to_owned();
        let s = sentence(error.message());
        push_str(&mut message, s.as_str());
        OperatorError::new(command, kind, message, guidance).with_ipc_error(error)
    }
}

/// `anyhow::Error`, carried through as it is.
#[verifier::external_type_specification]
#[verifier::external_body]
pub struct ExAnyhowError(anyhow::Error);

/// The messages of an error and its causes, outermost first, as `anyhow::Error::chain`
/// walks them and `ToString` renders each.
pub uninterp spec fn error_chain_messages(e: anyhow::Error) -> Seq<Seq<char>>;

/// For each cause of an error, outermost first, the class of the I/O error it is, when it
/// is a `std::io::Error`.
pub uninterp spec fn error_chain_io_classes(e: anyhow::Error) -> Seq<Option<IoErrorClass>>;

/// The messages of an error and its causes (`anyhow::Error::chain`, each cause rendered
/// with `ToString`). The chain starts with the error itself, so there is at least one.
#[verifier::external_body]
fn chain_messages(error: &anyhow::Error) -> (r: Vec<String>)
    ensures
        crate::logs::strings_view(r@) == error_chain_messages(*error),
        r@.len() >= 1,
{
    error.chain().map(|cause| cause.to_string()).collect()
}

/// The I/O class of each cause of an error (`anyhow::Error::chain`, each cause downcast to
/// `std::io::Error` and its `kind` told apart); a cause that is no I/O error gives `None`.
#[verifier::external_body]
fn chain_io_classes(error: &anyhow::Error) -> (r: Vec<Option<IoErrorClass>>)
    ensures
        r@ == error_chain_io_classes(*error),
{
    error.chain().map(|cause| cause.downcast_ref::<std::io::Error>().map(|io| match io.kind() {
        ErrorKind::NotFound => IoErrorClass::NotFound, ErrorKind::PermissionDenied => IoErrorClass::PermissionDenied,
        ErrorKind::ConnectionRefused => IoErrorClass::ConnectionRefused, ErrorKind::ConnectionReset => IoErrorClass::ConnectionReset,
        ErrorKind::ConnectionAborted => IoErrorClass::ConnectionAborted, ErrorKind::NotConnected => IoErrorClass::NotConnected,
        ErrorKind::AddrNotAvailable => IoErrorClass::AddrNotAvailable, ErrorKind::Interrupted => IoErrorClass::Interrupted,
        ErrorKind::TimedOut => IoErrorClass::TimedOut, _ => IoErrorClass::Other,
    }))
        .collect()
}

/// The messages with consecutive repeats removed.
pub open spec fn dedup_messages(s: Seq<Seq<char>>) -> Seq<Seq<char>>
    decreases s.len(),
{
    if s.len() == 0 {
        s
    } else if s.len() >= 2 && s.last() == s[s.len() - 2] {
        dedup_messages(s.drop_last())
    } else {
        dedup_messages(s.drop_last()).push(s.last())
    }
}

/// The texts joined by `sep`.
pub open spec fn join_with(s: Seq<Seq<char>>, sep: Seq<char>) -> Seq<char>
    decreases s.len(),
{
    if s.len() == 0 {
        Seq::empty()
    } else if s.len() == 1 {
        s[0]
    } else {
        join_with(s.drop_last(), sep) + sep + s.last()
    }
}

/// The messages of an error chain, consecutive repeats removed, joined by `": "`.
pub fn join_error_messages(messages: &Vec<String>) -> (r: String)
    ensures
        r@ == join_with(dedup_messages(crate::logs::strings_view(messages@)), ": "@),
{
    let ghost mv = crate::logs::strings_view(messages@);
    let mut out = String::new();
    let mut count: usize = 0;
    let mut i: usize = 0;
    proof {
        assert(mv.subrange(0, 0) =~= Seq::<Seq<char>>::empty());
    }
    while i < messages.len()
        invariant
            i <= messages.len(),
            mv == crate::logs::strings_view(messages@),
            count == dedup_messages(mv.subrange(0, i as int)).len(),
            count <= i,
            out@ == join_with(dedup_messages(mv.subrange(0, i as int)), ": "@),
            i > 0 ==> count > 0 && dedup_messages(mv.subrange(0, i as int)).last() == mv[i - 1],
        decreases messages.len() - i,
    {
        let ghost prefix = mv.subrange(0, i as int);
        let ghost next = mv.subrange(0, i + 1);
        assert(next.drop_last() =~= prefix);
        assert(next.last() == mv[i as int]);
        let repeat = i > 0 && messages[i] == messages[i - 1];
        proof {
            if i > 0 {
                assert(next[next.len() - 2] == mv[i - 1]);
            }
        }
        if !repeat {
            let ghost d = dedup_messages(prefix);
            let ghost nd = d.push(mv[i as int]);
            assert(nd.drop_last() =~= d);
            if count > 0 {
                push_str(&mut out, ": ");
            }
            push_str(&mut out, messages[i].as_str());
            count = count + 1;
        }
        i = i + 1;
    }
    assert(mv.subrange(0, mv.len() as int) =~= mv);
    out
}

/// The text of an error's chain: its messages, consecutive repeats removed, joined by `": "`.
pub open spec fn chain_text(e: anyhow::Error) -> Seq<char> {
    join_with(dedup_messages(error_chain_messages(e)), ": "@)
}

/// The messages of an error's chain, consecutive repeats removed, joined by `": "`.
pub fn format_error_chain(error: &anyhow::Error) -> (r: String)
    ensures
        r@ == chain_text(*error),
{
    let messages = chain_messages(error);
    join_error_messages(&messages)
}

/// Whether `needle` occurs in `hay`.
pub open spec fn contains_text(hay: Seq<char>, needle: Seq<char>) -> bool {
    exists|i: int| 0 <= i && i + needle.len() <= hay.len() && #[trigger] hay.subrange(i, i + needle.len()) == needle
}

/// Whether `needle` occurs in `hay`.
pub fn text_contains(hay: &Vec<char>, needle: &Vec<char>) -> (r: bool)
    ensures
        r == contains_text(hay@, needle@),
{
    if needle.len() > hay.len() {
        return false;
    }
    let mut i: usize = 0;
    while i <= hay.len() - needle.len()
        invariant
            needle.len() <= hay.len(),
            i <= hay.len() - needle.len() + 1,
            forall|k: int| 0 <= k < i ==> #[trigger] hay@.subrange(k, k + needle@.len()) != needle@,
        decreases hay.len() - i,
    {
        let mut j: usize = 0;
        while j < needle.len() && hay[i + j] == needle[j]
            invariant
                i + needle.len() <= hay.len(),
                j <= needle.len(),
                forall|k: int| 0 <= k < j ==> hay@[i + k] == needle@[k],
            decreases needle.len() - j,
        {
            j = j + 1;
        }
        if j == needle.len() {
            assert(hay@.subrange(i as int, i + needle@.len()) =~= needle@);
            return true;
        }
        assert(hay@.subrange(i as int, i + needle@.len())[j as int] != needle@[j as int]);
        i = i + 1;
    }
    false
}

/// A chain text that reports a permission problem: it mentions `permission denied` or
/// `access is denied`, in any ASCII case.
pub open spec fn mentions_permission(text: Seq<char>) -> bool {
    contains_text(ascii_lowercase(text), "permission denied"@) || contains_text(ascii_lowercase(text), "access is denied"@)
}

/// Whether a chain text reports a permission problem.
pub fn text_indicates_permission(text: &str) -> (r: bool)
    ensures
        r == mentions_permission(text@),
{
    let chars = to_chars(text);
    let lowered = to_ascii_lowercase(&chars);
    let a = to_chars("permission denied");
    let b = to_chars("access is denied");
    text_contains(&lowered, &a) || text_contains(&lowered, &b)
}

/// Whether some cause of an error is an I/O permission failure.
pub open spec fn has_io_permission_cause(e: anyhow::Error) -> bool {
    exists|i: int| 0 <= i < error_chain_io_classes(e).len() && #[trigger] error_chain_io_classes(e)[i] == Some(IoErrorClass::PermissionDenied)
}

/// Whether an error reports a permission problem: one of its causes is an I/O permission
/// failure, or the text of its chain says so.
pub fn error_indicates_permission(error: &anyhow::Error) -> (r: bool)
    ensures
        r == (has_io_permission_cause(*error) || mentions_permission(chain_text(*error))),
{
    let classes = chain_io_classes(error);
    let mut i: usize = 0;
    while i < classes.len()
        invariant
            i <= classes.len(),
            classes@ == error_chain_io_classes(*error),
            forall|k: int| 0 <= k < i ==> classes@[k] != Some(IoErrorClass::PermissionDenied),
        decreases classes.len() - i,
    {
        if classes[i] == Some(IoErrorClass::PermissionDenied) {
            assert(classes@[i as int] == Some(IoErrorClass::PermissionDenied));
            return true;
        }
        i = i + 1;
    }
    let chain = format_error_chain(error);
    text_indicates_permission(chain.as_str())
}

/// A domain named on the command line, optionally narrowed to one entrypoint.
#[derive(Debug, Clone, PartialEq, Eq)]
pub struct DomainSelector {
    pub domain: String,
    pub registration: Option<String>,
}

/// Whose logs a command reads.
#[derive(Debug, Clone, PartialEq, Eq)]
pub enum LogsTarget {
    Runtime,
    Entrypoint { registration_id: String },
    Domain(DomainSelector),
}

/// How the operator's client stands with the daemon.
#[derive(Debug, Clone, Copy, PartialEq, Eq, Structural)]
pub enum ConnectionStateView {
    NotRunning,
    ConnectionFailed,
    Connected,
}

/// An unreachable or stale daemon is not running; any other failure is a failed connection.
pub fn connection_state_from_error(error: &IpcClientError) -> (r: ConnectionStateView)
    ensures
        r == (if error.spec_daemon_unavailable() || error.spec_stale_instance() {
            ConnectionStateView::NotRunning
        } else {
            ConnectionStateView::ConnectionFailed
        }),
{
    if daemon_error_indicates_unavailable(error) || error.is_stale_instance() {
        ConnectionStateView::NotRunning
    } else {
        ConnectionStateView::ConnectionFailed
    }
}

/// What to do when no daemon is running: start it from the terminal interface.
pub open spec fn not_running_guidance_text() -> Seq<char> {
    "Run `cadder tui --start-daemon` to start cadderd and open the operator, then retry."@
}

/// The status shown when the daemon cannot be queried.
#[derive(Debug, Clone)]
pub struct UnavailableStatus {
    pub connection_state: ConnectionStateView,
    pub message: String,
    pub guidance: Option<String>,
}

/// The status of a daemon that could not be queried: not running, with start guidance; or a
/// failed connection, with the failure's message and guidance.
pub fn unavailable_status(runtime_dir: &str, error: &IpcClientError) -> (r: UnavailableStatus)
    ensures
        r.connection_state == (if error.spec_daemon_unavailable() || error.spec_stale_instance() {
            ConnectionStateView::NotRunning
        } else {
            ConnectionStateView::ConnectionFailed
        }),
        r.connection_state == ConnectionStateView::NotRunning ==> r.message@ == "Cadder is not running."@
            && opt_view(r.guidance) == Some(not_running_guidance_text()),
        r.connection_state == ConnectionStateView::ConnectionFailed ==> r.message@
            == "Could not connect to Cadder: "@ + sentence_text(client_message(*error))
            && opt_view(r.guidance) == Some(
            match client_guidance(*error) {
                Some(g) => g,
                None => "Inspect the daemon diagnostics for this runtime, correct the reported error, then retry."@,
            },
        ),
{
    let state = connection_state_from_error(error);
    match state {
        ConnectionStateView::NotRunning => UnavailableStatus {
            connection_state: state,
            message: "Cadder is not running.".to_owned(),
            guidance: Some(
                "Run `cadder tui --start-daemon` to start cadderd and open the operator, then retry.".to_owned(),
            ),
        },
        _ => {
            let mut message = "Could not connect to Cadder: ".to_owned();
            let s = sentence(error.message());
            push_str(&mut message, s.as_str());
            let guidance = match error.guidance() {
                Some(g) => g.to_owned(),
                None => "Inspect the daemon diagnostics for this runtime, correct the reported error, then retry.".to_owned(),
            };
            UnavailableStatus { connection_state: state, message, guidance: Some(guidance) }
        },
    }
}

/// Why a domain selector did not pick exactly one domain.
#[derive(Debug, Clone)]
pub enum DomainResolveError {
    NotFound { canonical_domain: String, requested_registration: Option<String> },
    Ambiguous { canonical_domain: String, matches: Vec<String> },
}

/// The operator error for a selector that did not pick exactly one domain: not found, or
/// ambiguous between the listed entrypoints.
pub fn domain_resolve_failure(command: &'static str, error: DomainResolveError) -> (r: OperatorError)
    ensures
        match error {
            DomainResolveError::NotFound { canonical_domain, requested_registration } => plain_error(
                r,
                command,
                AppExit::TargetNotFound,
                match requested_registration {
                    Some(reg) => "Domain `"@ + canonical_domain@ + "` was not found under entrypoint `"@
                        + reg@ + "`."@,
                    None => "Domain `"@ + canonical_domain@ + "` was not found."@,
                },
                Some("Run `cadder domains list` to inspect the current domain registrations."@),
            ),
            DomainResolveError::Ambiguous { canonical_domain, matches } => plain_error(
                r,
                command,
                AppExit::ConflictOrRejected,
                "Domain `"@ + canonical_domain@ + "` matches multiple entrypoints: "@ + join_with(
                    crate::logs::strings_view(matches@),
                    ", "@,
                ) + "."@,
                Some("Run `cadder projects list`, then retry with the exact Caddyfile path."@),
            ),
        },
{
    match error {
        DomainResolveError::NotFound { canonical_domain, requested_registration } => {
            let mut message = "Domain `".to_owned();
            push_str(&mut message, canonical_domain.as_str());
            match requested_registration {
                Some(reg) => {
                    push_str(&mut message, "` was not found under entrypoint `");
                    push_str(&mut message, reg.as_str());
                    push_str(&mut message, "`.");
                },
                None => {
                    push_str(&mut message, "` was not found.");
                },
            }
            OperatorError::target_not_found(
                command,
                message,
                Some("Run `cadder domains list` to inspect the current domain registrations.".to_owned()),
            )
        },
        DomainResolveError::Ambiguous { canonical_domain, matches } => {
            let mut message = "Domain `".to_owned();
            push_str(&mut message, canonical_domain.as_str());
            push_str(&mut message, "` matches multiple entrypoints: ");
            let ghost mv = crate::logs::strings_view(matches@);
            let mut i: usize = 0;
            let ghost base = message@;
            while i < matches.len()
                invariant
                    i <= matches.len(),
                    mv == crate::logs::strings_view(matches@),
                    message@ == base + join_with(mv.subrange(0, i as int), ", "@),
                decreases matches.len() - i,
            {
                let ghost p = mv.subrange(0, i as int);
                assert(mv.subrange(0, i + 1).drop_last() =~= p);
                if i > 0 {
                    push_str(&mut message, ", ");
                }
                push_str(&mut message, matches[i].as_str());
                proof {
                    if i == 0 {
                        assert(p =~= Seq::<Seq<char>>::empty());
                    }
                }
                i = i + 1;
            }
            assert(mv.subrange(0, mv.len() as int) =~= mv);
            push_str(&mut message, ".");
            OperatorError::conflict_or_rejected(
                command,
                message,
                Some("Run `cadder projects list`, then retry with the exact Caddyfile path.".to_owned()),
            )
        },
    }
}

} // verus!
