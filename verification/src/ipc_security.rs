//! Local IPC peer authentication and operation authorization.
//!
//! The daemon accepts a local connection only when the peer's operating-system identity is the
//! same authenticated identity as the runtime owner. Privilege level never widens access, and an
//! unknown identity never matches anything.

use vstd::prelude::*;
use crate::text::push_str;

verus! {

/// Whether a process runs with elevated privileges.
#[derive(Debug, Clone, Copy, PartialEq, Eq, Structural)]
pub enum PrivilegeStatus {
    Elevated,
    NormalUser,
    Unknown,
}

/// An operating-system identity that the daemon can compare.
#[derive(Debug, Clone)]
pub enum IpcOsIdentity {
    UnixUid(u32),
    WindowsSid(String),
    Test(String),
}

/// The mathematical value of an identity.
pub enum IdentityView {
    UnixUid(u32),
    WindowsSid(Seq<char>),
    Test(Seq<char>),
}

impl IpcOsIdentity {
    pub open spec fn view(&self) -> IdentityView {
        match self {
            IpcOsIdentity::UnixUid(uid) => IdentityView::UnixUid(*uid),
            IpcOsIdentity::WindowsSid(sid) => IdentityView::WindowsSid(sid@),
            IpcOsIdentity::Test(id) => IdentityView::Test(id@),
        }
    }

    fn same_as(&self, other: &IpcOsIdentity) -> (r: bool)
        ensures
            r == (self.view() == other.view()),
    {
        match (self, other) {
            (IpcOsIdentity::UnixUid(a), IpcOsIdentity::UnixUid(b)) => *a == *b,
            (IpcOsIdentity::WindowsSid(a), IpcOsIdentity::WindowsSid(b)) => *a == *b,
            (IpcOsIdentity::Test(a), IpcOsIdentity::Test(b)) => *a == *b,
            _ => false,
        }
    }
}

/// The failure to establish the current process identity on this platform.
#[derive(Debug, Clone, Copy, PartialEq, Eq, Structural)]
pub struct IdentityUnavailable;

/// A local IPC principal: an optional authenticated identity and a privilege status.
#[derive(Debug, Clone)]
pub struct IpcPrincipal {
    identity: Option<IpcOsIdentity>,
    privilege_status: PrivilegeStatus,
}

/// The mathematical value of a principal.
pub struct PrincipalView {
    pub identity: Option<IdentityView>,
    pub privilege_status: PrivilegeStatus,
}

pub open spec fn identity_option_view(identity: Option<IpcOsIdentity>) -> Option<IdentityView> {
    match identity {
        Some(id) => Some(id.view()),
        None => None,
    }
}

impl View for IpcPrincipal {
    type V = PrincipalView;

    closed spec fn view(&self) -> PrincipalView {
        PrincipalView {
            identity: identity_option_view(self.identity),
            privilege_status: self.privilege_status,
        }
    }
}

/// Two principals share one authenticated identity.
pub open spec fn same_authenticated_identity(owner: PrincipalView, peer: PrincipalView) -> bool {
    owner.identity is Some && peer.identity is Some && owner.identity == peer.identity
}

/// The name reported for an identity kind.
pub open spec fn identity_kind_name(identity: Option<IdentityView>) -> Seq<char> {
    match identity {
        Some(IdentityView::UnixUid(_)) => "unixUid"@,
        Some(IdentityView::WindowsSid(_)) => "windowsSid"@,
        Some(IdentityView::Test(_)) => "test"@,
        None => "unknown"@,
    }
}

impl Default for IpcPrincipal {
    /// The principal of unknown identity and unknown privilege.
    fn default() -> (r: IpcPrincipal)
        ensures
            r@.identity is None,
            r@.privilege_status == PrivilegeStatus::Unknown,
    {
        IpcPrincipal::unknown(PrivilegeStatus::Unknown)
    }
}

impl IpcPrincipal {
    /// The principal of the current process, from the identity that the operating system
    /// reported for it (`None` where no identity could be established).
    pub fn current_process(
        privilege_status: PrivilegeStatus,
        os_identity: Option<IpcOsIdentity>,
    ) -> (r: Result<IpcPrincipal, IdentityUnavailable>)
        ensures
            os_identity is None <==> r is Err,
            r matches Ok(p) ==> p@.identity == identity_option_view(os_identity)
                && p@.privilege_status == privilege_status,
    {
        match os_identity {
            Some(identity) => Ok(IpcPrincipal { identity: Some(identity), privilege_status }),
            None => Err(IdentityUnavailable),
        }
    }

    /// A principal whose identity is unknown.
    pub fn unknown(privilege_status: PrivilegeStatus) -> (r: IpcPrincipal)
        ensures
            r@.identity is None,
            r@.privilege_status == privilege_status,
    {
        IpcPrincipal { identity: None, privilege_status }
    }

    /// A principal with a fixed test identity.
    pub fn test(identity: &str, privilege_status: PrivilegeStatus) -> (r: IpcPrincipal)
        ensures
            r@.identity == Some(IdentityView::Test(identity@)),
            r@.privilege_status == privilege_status,
    {
        IpcPrincipal {
            identity: Some(IpcOsIdentity::Test(identity.to_owned())),
            privilege_status,
        }
    }

    pub fn is_authenticated(&self) -> (r: bool)
        ensures
            r == self@.identity is Some,
    {
        self.identity.is_some()
    }

    pub fn identity_kind(&self) -> (r: &'static str)
        ensures
            r@ == identity_kind_name(self@.identity),
    {
        match &self.identity {
            Some(IpcOsIdentity::UnixUid(_)) => "unixUid",
            Some(IpcOsIdentity::WindowsSid(_)) => "windowsSid",
            Some(IpcOsIdentity::Test(_)) => "test",
            None => "unknown",
        }
    }

    pub fn privilege_status(&self) -> (r: PrivilegeStatus)
        ensures
            r == self@.privilege_status,
    {
        self.privilege_status
    }

    fn is_same_identity(&self, other: &IpcPrincipal) -> (r: bool)
        ensures
            r == same_authenticated_identity(self@, other@),
    {
        match (&self.identity, &other.identity) {
            (Some(owner), Some(peer)) => owner.same_as(peer),
            _ => false,
        }
    }

    /// The Windows security identifier, when the identity is one.
    pub fn windows_sid(&self) -> (r: Option<&str>)
        ensures
            match self@.identity {
                Some(IdentityView::WindowsSid(sid)) => r is Some && r->0@ == sid,
                _ => r is None,
            },
    {
        match &self.identity {
            Some(IpcOsIdentity::WindowsSid(sid)) => Some(sid.as_str()),
            _ => None,
        }
    }
}

/// Whether an operation only reads daemon state.
#[derive(Debug, Clone, Copy, PartialEq, Eq, Structural)]
pub enum IpcOperationKind {
    ReadOnly,
    StateChanging,
}

/// A named IPC operation.
#[derive(Debug, Clone)]
pub struct IpcOperation {
    name: String,
    kind: IpcOperationKind,
}

impl IpcOperation {
    pub closed spec fn spec_name(&self) -> Seq<char> {
        self.name@
    }

    pub closed spec fn spec_kind(&self) -> IpcOperationKind {
        self.kind
    }

    pub fn read_only(name: &str) -> (r: IpcOperation)
        ensures
            r.spec_name() == name@,
            r.spec_kind() == IpcOperationKind::ReadOnly,
    {
        IpcOperation { name: name.to_owned(), kind: IpcOperationKind::ReadOnly }
    }

    pub fn state_changing(name: &str) -> (r: IpcOperation)
        ensures
            r.spec_name() == name@,
            r.spec_kind() == IpcOperationKind::StateChanging,
    {
        IpcOperation { name: name.to_owned(), kind: IpcOperationKind::StateChanging }
    }

    pub fn name(&self) -> (r: &str)
        ensures
            r@ == self.spec_name(),
    {
        self.name.as_str()
    }

    pub fn kind(&self) -> (r: IpcOperationKind)
        ensures
            r == self.spec_kind(),
    {
        self.kind
    }
}

/// The outcome of a policy check.
#[derive(Debug, Clone)]
pub struct IpcAccessDecision {
    allowed: bool,
    reason_code: &'static str,
    message: String,
    guidance: Option<String>,
}

/// The mathematical value of a decision.
pub struct DecisionView {
    pub allowed: bool,
    pub reason_code: Seq<char>,
    pub message: Seq<char>,
    pub guidance: Option<Seq<char>>,
}

impl View for IpcAccessDecision {
    type V = DecisionView;

    closed spec fn view(&self) -> DecisionView {
        DecisionView {
            allowed: self.allowed,
            reason_code: self.reason_code@,
            message: self.message@,
            guidance: match self.guidance {
                Some(g) => Some(g@),
                None => None,
            },
        }
    }
}

pub open spec fn allowed_reason() -> Seq<char> {
    "same-runtime-owner-identity"@
}

pub open spec fn denied_reason() -> Seq<char> {
    "principal-outside-runtime-owner"@
}

pub open spec fn allowed_message() -> Seq<char> {
    "Cadder IPC operation is allowed by the local security policy."@
}

pub open spec fn connection_denied_message() -> Seq<char> {
    "Cadder denied a local connection whose operating-system identity does not match the runtime owner."@
}

pub open spec fn denied_guidance() -> Seq<char> {
    "Use the same local account that owns the Cadder runtime, or start a separate runtime profile for this account."@
}

/// The message of a denied operation: it names the operation and nothing about the peer.
pub open spec fn operation_denied_message(operation: Seq<char>) -> Seq<char> {
    "Cadder IPC operation `"@ + operation
        + "` is not allowed for principals outside the runtime owner account."@
}

/// The decision for a peer connection.
pub open spec fn connection_decision(owner: PrincipalView, peer: PrincipalView) -> DecisionView {
    if same_authenticated_identity(owner, peer) {
        DecisionView {
            allowed: true,
            reason_code: allowed_reason(),
            message: allowed_message(),
            guidance: None,
        }
    } else {
        DecisionView {
            allowed: false,
            reason_code: denied_reason(),
            message: connection_denied_message(),
            guidance: Some(denied_guidance()),
        }
    }
}

/// The decision for one operation requested by a peer.
pub open spec fn operation_decision(
    owner: PrincipalView,
    peer: PrincipalView,
    operation: Seq<char>,
) -> DecisionView {
    if same_authenticated_identity(owner, peer) {
        DecisionView {
            allowed: true,
            reason_code: allowed_reason(),
            message: allowed_message(),
            guidance: None,
        }
    } else {
        DecisionView {
            allowed: false,
            reason_code: denied_reason(),
            message: operation_denied_message(operation),
            guidance: Some(denied_guidance()),
        }
    }
}

impl IpcAccessDecision {
    fn allowed(reason_code: &'static str) -> (r: IpcAccessDecision)
        ensures
            r@.allowed,
            r@.reason_code == reason_code@,
            r@.message == allowed_message(),
            r@.guidance is None,
    {
        IpcAccessDecision {
            allowed: true,
            reason_code,
            message: "Cadder IPC operation is allowed by the local security policy.".to_owned(),
            guidance: None,
        }
    }

    fn denied(reason_code: &'static str, message: String, guidance: String) -> (r: IpcAccessDecision)
        ensures
            !r@.allowed,
            r@.reason_code == reason_code@,
            r@.message == message@,
            r@.guidance == Some(guidance@),
    {
        IpcAccessDecision { allowed: false, reason_code, message, guidance: Some(guidance) }
    }

    pub fn is_allowed(&self) -> (r: bool)
        ensures
            r == self@.allowed,
    {
        self.allowed
    }

    pub fn reason_code(&self) -> (r: &'static str)
        ensures
            r@ == self@.reason_code,
    {
        self.reason_code
    }

    pub fn message(&self) -> (r: &str)
        ensures
            r@ == self@.message,
    {
        self.message.as_str()
    }

    pub fn guidance(&self) -> (r: Option<&str>)
        ensures
            match self@.guidance {
                Some(g) => r is Some && r->0@ == g,
                None => r is None,
            },
    {
        match &self.guidance {
            Some(g) => Some(g.as_str()),
            None => None,
        }
    }
}

/// The local security policy of the daemon.
#[derive(Debug, Clone, Copy, Default)]
pub struct IpcSecurityPolicy;

impl IpcSecurityPolicy {
    /// Accepts a peer only when it has the same authenticated identity as the runtime owner.
    pub fn authenticate_peer(&self, owner: &IpcPrincipal, peer: &IpcPrincipal) -> (r:
        IpcAccessDecision)
        ensures
            r@ == connection_decision(owner@, peer@),
    {
        if owner.is_same_identity(peer) {
            return IpcAccessDecision::allowed("same-runtime-owner-identity");
        }
        IpcAccessDecision::denied(
            "principal-outside-runtime-owner",
            "Cadder denied a local connection whose operating-system identity does not match the runtime owner.".to_owned(),
            "Use the same local account that owns the Cadder runtime, or start a separate runtime profile for this account.".to_owned(),
        )
    }

    /// Decides whether `peer` may perform `operation` on the runtime owned by `owner`.
    pub fn evaluate(&self, owner: &IpcPrincipal, peer: &IpcPrincipal, operation: &IpcOperation) -> (r:
        IpcAccessDecision)
        ensures
            r@ == operation_decision(owner@, peer@, operation.spec_name()),
    {
        if self.authenticate_peer(owner, peer).is_allowed() {
            return IpcAccessDecision::allowed("same-runtime-owner-identity");
        }
        let mut message = "Cadder IPC operation `".to_owned();
        push_str(&mut message, operation.name());
        push_str(&mut message, "` is not allowed for principals outside the runtime owner account.");
        IpcAccessDecision::denied(
            "principal-outside-runtime-owner",
            message,
            "Use the same local account that owns the Cadder runtime, or start a separate runtime profile for this account.".to_owned(),
        )
    }
}

/// An operation is allowed exactly when the connection itself is accepted: the operation, and the
/// privilege status of either side, never change the outcome.
pub proof fn lemma_operation_allowed_iff_connection_allowed(
    owner: PrincipalView,
    peer: PrincipalView,
    operation: Seq<char>,
)
    ensures
        operation_decision(owner, peer, operation).allowed == connection_decision(owner, peer).allowed,
        operation_decision(owner, peer, operation).allowed <==> same_authenticated_identity(owner, peer),
{
}

/// A principal whose identity is unknown is denied, whatever the owner and the operation.
pub proof fn lemma_unknown_identity_fails_closed(
    owner: PrincipalView,
    peer: PrincipalView,
    operation: Seq<char>,
)
    requires
        owner.identity is None || peer.identity is None,
    ensures
        !connection_decision(owner, peer).allowed,
        !operation_decision(owner, peer, operation).allowed,
        operation_decision(owner, peer, operation).reason_code == denied_reason(),
{
}

/// A denial reveals nothing of the peer: two denied peers receive the same decision.
pub proof fn lemma_denial_does_not_depend_on_peer(
    owner: PrincipalView,
    peer_a: PrincipalView,
    peer_b: PrincipalView,
    operation: Seq<char>,
)
    requires
        !same_authenticated_identity(owner, peer_a),
        !same_authenticated_identity(owner, peer_b),
    ensures
        operation_decision(owner, peer_a, operation) == operation_decision(owner, peer_b, operation),
        connection_decision(owner, peer_a) == connection_decision(owner, peer_b),
{
}

/// Privilege status never matters: changing it on either side keeps every decision.
pub proof fn lemma_privilege_does_not_change_access(
    owner: PrincipalView,
    peer: PrincipalView,
    owner_status: PrivilegeStatus,
    peer_status: PrivilegeStatus,
    operation: Seq<char>,
)
    ensures
        operation_decision(
            PrincipalView { identity: owner.identity, privilege_status: owner_status },
            PrincipalView { identity: peer.identity, privilege_status: peer_status },
            operation,
        ) == operation_decision(owner, peer, operation),
{
}

} // verus!
