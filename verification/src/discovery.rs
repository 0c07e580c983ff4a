//! Publication and validation of the local IPC endpoint discovery document.
//!
//! The daemon publishes one discovery document per runtime. Each publication carries a random
//! daemon-instance ID and a random publication generation; a guard removes only the generation it
//! published, so an old guard never removes a newer publication.

use vstd::prelude::*;
use vstd::string::StringSliceAdditionalSpecFns;
use vstd::utf8::encode_utf8;
use crate::ipc_errors::{
    IoErrorClass, IpcClientError, IpcClientPhase, LocalIpcError, LocalIpcErrorCode, LocalIpcErrorKind,
};
use crate::text::{from_chars, push_str, slice_chars, to_chars};

verus! {

/// The discovery document schema that this version writes and accepts.
pub const IPC_DISCOVERY_SCHEMA_VERSION: u16 = 2;

/// The number of random bytes in an instance ID or a publication generation.
pub const RANDOM_ID_BYTES: usize = 16;

/// A random ID: 16 bytes as 32 lowercase hexadecimal digits.
pub open spec fn is_lower_hex_byte(b: u8) -> bool {
    (48 <= b && b <= 57) || (97 <= b && b <= 102)
}

pub open spec fn is_random_id(bytes: Seq<u8>) -> bool {
    bytes.len() == 32 && forall|i: int| 0 <= i < bytes.len() ==> is_lower_hex_byte(bytes[i])
}

/// The lowercase hexadecimal digit of a nibble.
pub open spec fn hex_digit(n: int) -> char {
    if n < 10 {
        ((48 + n) as u32) as char
    } else {
        ((87 + n) as u32) as char
    }
}

/// The lowercase hexadecimal text of bytes, two digits per byte, high nibble first.
pub open spec fn lower_hex(bytes: Seq<u8>) -> Seq<char>
    decreases bytes.len(),
{
    if bytes.len() == 0 {
        Seq::empty()
    } else {
        lower_hex(bytes.drop_last()) + seq![
            hex_digit(bytes.last() as int / 16),
            hex_digit(bytes.last() as int % 16),
        ]
    }
}

/// Encodes bytes as lowercase hexadecimal text with `hex::encode`.
#[verifier::external_body]
pub(crate) fn hex_encode(bytes: &[u8]) -> (r: String)
    ensures
        r@ == lower_hex(bytes@),
{
    hex::encode(bytes)
}

/// A rejected discovery value.
#[derive(Debug, Clone)]
pub struct DiscoveryError {
    pub message: String,
}

pub open spec fn random_id_error_message(label: Seq<char>) -> Seq<char> {
    "IPC discovery "@ + label + " ID is not 128-bit lowercase hexadecimal"@
}

/// Accepts exactly 32 lowercase hexadecimal digits.
pub fn validate_random_id(label: &str, value: &str) -> (r: Result<(), DiscoveryError>)
    ensures
        is_random_id(value.spec_bytes()) <==> r is Ok,
        r matches Err(e) ==> e.message@ == random_id_error_message(label@),
{
    let bytes = value.as_bytes();
    let mut ok = bytes.len() == 32;
    let mut i: usize = 0;
    while ok && i < bytes.len()
        invariant
            i <= bytes.len(),
            ok ==> bytes@.len() == 32,
            ok ==> forall|j: int| 0 <= j < i ==> is_lower_hex_byte(bytes@[j]),
            !ok ==> !is_random_id(bytes@),
        decreases bytes.len() - i,
    {
        let b = bytes[i];
        if !((48 <= b && b <= 57) || (97 <= b && b <= 102)) {
            ok = false;
        }
        i = i + 1;
    }
    if ok {
        Ok(())
    } else {
        let mut message = "IPC discovery ".to_owned();
        push_str(&mut message, label);
        push_str(&mut message, " ID is not 128-bit lowercase hexadecimal");
        Err(DiscoveryError { message })
    }
}

/// The random ID made of 16 random bytes.
pub fn random_id_from_bytes(bytes: &[u8; 16]) -> (r: String)
    ensures
        r@ == lower_hex(bytes@),
        is_random_id(encode_utf8(r@)),
{
    let r = hex_encode(bytes.as_slice());
    proof {
        lemma_lower_hex_is_random_id(bytes@);
    }
    r
}

/// A lowercase hexadecimal digit.
pub open spec fn is_hex_char(c: char) -> bool {
    ('0' <= c && c <= '9') || ('a' <= c && c <= 'f')
}

proof fn lemma_lower_hex_digits(bytes: Seq<u8>)
    ensures
        lower_hex(bytes).len() == 2 * bytes.len(),
        forall|i: int| 0 <= i < lower_hex(bytes).len() ==> is_hex_char(#[trigger] lower_hex(bytes)[i]),
    decreases bytes.len(),
{
    if bytes.len() > 0 {
        lemma_lower_hex_digits(bytes.drop_last());
        let hi = bytes.last() as int / 16;
        let lo = bytes.last() as int % 16;
        assert(0 <= hi < 16 && 0 <= lo < 16);
        assert(is_hex_char(hex_digit(hi)));
        assert(is_hex_char(hex_digit(lo)));
        let prev = lower_hex(bytes.drop_last());
        let next = lower_hex(bytes);
        assert(next == prev + seq![hex_digit(hi), hex_digit(lo)]);
        assert forall|i: int| 0 <= i < next.len() implies is_hex_char(#[trigger] next[i]) by {
            if i < prev.len() {
                assert(next[i] == prev[i]);
            }
        }
    }
}

/// The lowercase hexadecimal text of 16 bytes is a random ID.
pub proof fn lemma_lower_hex_is_random_id(bytes: Seq<u8>)
    requires
        bytes.len() == RANDOM_ID_BYTES,
    ensures
        is_random_id(encode_utf8(lower_hex(bytes))),
{
    lemma_lower_hex_digits(bytes);
    let text = lower_hex(bytes);
    assert(vstd::utf8::is_ascii_chars(text));
    vstd::utf8::is_ascii_chars_encode_utf8(text);
    let enc = encode_utf8(text);
    assert forall|i: int| 0 <= i < enc.len() implies is_lower_hex_byte(enc[i]) by {
        assert(text[i] as u8 == enc[i]);
        assert(is_hex_char(text[i]));
    }
}

/// Fills a buffer from the operating system's random source (`getrandom::fill`). What the
/// bytes hold is left open; a failure of the source comes back as its message.
#[verifier::external_body]
fn fill_random(bytes: &mut [u8; 16]) -> (r: Result<(), String>)
{
    getrandom::fill(bytes).map_err(|error| error.to_string())
}

/// A fresh random ID: 16 bytes from the random source as lowercase hexadecimal, or the
/// source's failure.
pub fn random_id() -> (r: Result<String, String>)
    ensures
        r matches Ok(id) ==> is_random_id(encode_utf8(id@)),
{
    let mut bytes: [u8; 16] = [0u8; 16];
    match fill_random(&mut bytes) {
        Ok(()) => Ok(random_id_from_bytes(&bytes)),
        Err(message) => Err(message),
    }
}

pub open spec fn temp_prefix() -> Seq<char> {
    ".cadder-ipc."@
}

pub open spec fn temp_suffix() -> Seq<char> {
    ".tmp"@
}

/// The name of the temporary file of a publication generation.
pub open spec fn temporary_name(generation: Seq<char>) -> Seq<char> {
    temp_prefix() + generation + temp_suffix()
}

pub fn temporary_file_name(generation: &str) -> (r: String)
    ensures
        r@ == temporary_name(generation@),
{
    let mut r = ".cadder-ipc.".to_owned();
    push_str(&mut r, generation);
    push_str(&mut r, ".tmp");
    r
}

/// The generation named by a temporary file name, when it names a valid one.
pub open spec fn temporary_generation_of(name: Seq<char>) -> Option<Seq<char>> {
    let p = temp_prefix();
    let s = temp_suffix();
    if name.len() >= p.len() + s.len() && name.subrange(0, p.len() as int) == p && name.subrange(
        name.len() - s.len(),
        name.len() as int,
    ) == s && is_random_id(
        encode_utf8(name.subrange(p.len() as int, name.len() - s.len())),
    ) {
        Some(name.subrange(p.len() as int, name.len() - s.len()))
    } else {
        None
    }
}

fn chars_have_prefix(s: &Vec<char>, p: &Vec<char>) -> (r: bool)
    ensures
        r == (s@.len() >= p@.len() && s@.subrange(0, p@.len() as int) == p@),
{
    if s.len() < p.len() {
        return false;
    }
    let mut i: usize = 0;
    while i < p.len()
        invariant
            i <= p.len() <= s.len(),
            forall|j: int| 0 <= j < i ==> s@[j] == p@[j],
        decreases p.len() - i,
    {
        if s[i] != p[i] {
            assert(s@.subrange(0, p@.len() as int)[i as int] != p@[i as int]);
            return false;
        }
        i = i + 1;
    }
    assert(s@.subrange(0, p@.len() as int) =~= p@);
    true
}

fn chars_have_suffix(s: &Vec<char>, p: &Vec<char>) -> (r: bool)
    ensures
        r == (s@.len() >= p@.len() && s@.subrange(s@.len() - p@.len(), s@.len() as int) == p@),
{
    if s.len() < p.len() {
        return false;
    }
    let offset = s.len() - p.len();
    let mut i: usize = 0;
    while i < p.len()
        invariant
            i <= p.len() <= s.len(),
            offset == s.len() - p.len(),
            forall|j: int| 0 <= j < i ==> s@[offset + j] == p@[j],
        decreases p.len() - i,
    {
        if s[offset + i] != p[i] {
            assert(s@.subrange(offset as int, s@.len() as int)[i as int] != p@[i as int]);
            return false;
        }
        i = i + 1;
    }
    assert(s@.subrange(offset as int, s@.len() as int) =~= p@);
    true
}

/// The generation of a temporary discovery file name such as `.cadder-ipc.<generation>.tmp`.
pub fn temporary_generation(name: &str) -> (r: Option<String>)
    ensures
        match temporary_generation_of(name@) {
            Some(g) => r matches Some(s) && s@ == g,
            None => r is None,
        },
{
    let chars = to_chars(name);
    let prefix = to_chars(".cadder-ipc.");
    let suffix = to_chars(".tmp");
    proof {
        reveal_strlit(".cadder-ipc.");
        reveal_strlit(".tmp");
    }
    if chars.len() < prefix.len() + suffix.len() {
        return None;
    }
    if !chars_have_prefix(&chars, &prefix) || !chars_have_suffix(&chars, &suffix) {
        return None;
    }
    let middle = slice_chars(&chars, prefix.len(), chars.len() - suffix.len());
    let generation = from_chars(middle.as_slice());
    match validate_random_id("temporary generation", generation.as_str()) {
        Ok(()) => Some(generation),
        Err(_) => None,
    }
}

/// A temporary file name of a valid generation names that generation.
pub proof fn lemma_temporary_name_roundtrip(generation: Seq<char>)
    requires
        is_random_id(encode_utf8(generation)),
    ensures
        temporary_generation_of(temporary_name(generation)) == Some(generation),
{
    let name = temporary_name(generation);
    let p = temp_prefix();
    let s = temp_suffix();
    assert(name.subrange(0, p.len() as int) =~= p);
    assert(name.subrange(name.len() - s.len(), name.len() as int) =~= s);
    assert(name.subrange(p.len() as int, name.len() - s.len()) =~= generation);
}

/// The operating-system endpoint selected by a daemon instance.
#[derive(Debug, Clone)]
pub enum IpcEndpoint {
    UnixSocket { path: String },
    WindowsNamedPipe { name: String },
}

pub enum EndpointView {
    UnixSocket(Seq<char>),
    WindowsNamedPipe(Seq<char>),
}

impl View for IpcEndpoint {
    type V = EndpointView;

    open spec fn view(&self) -> EndpointView {
        match self {
            IpcEndpoint::UnixSocket { path } => EndpointView::UnixSocket(path@),
            IpcEndpoint::WindowsNamedPipe { name } => EndpointView::WindowsNamedPipe(name@),
        }
    }
}

impl IpcEndpoint {
    pub fn same_as(&self, other: &IpcEndpoint) -> (r: bool)
        ensures
            r == (self@ == other@),
    {
        match (self, other) {
            (IpcEndpoint::UnixSocket { path: a }, IpcEndpoint::UnixSocket { path: b }) => *a == *b,
            (IpcEndpoint::WindowsNamedPipe { name: a }, IpcEndpoint::WindowsNamedPipe { name: b }) => *a
                == *b,
            _ => false,
        }
    }
}

/// What identifies the runtime a client or daemon selected.
#[derive(Debug, Clone)]
pub struct RuntimeIdentity {
    pub profile: String,
    pub instance_key: String,
    pub endpoint: IpcEndpoint,
}

/// Owner-readable metadata that identifies one live daemon publication.
#[derive(Debug, Clone)]
pub struct IpcEndpointMetadata {
    pub schema_version: u16,
    pub cadder_version: String,
    pub profile: String,
    pub runtime_id: String,
    pub daemon_instance_id: String,
    pub endpoint: IpcEndpoint,
    pub minimum_protocol_version: u16,
    pub maximum_protocol_version: u16,
    pub capabilities: Vec<String>,
    pub publication_generation: String,
    pub process_id: u32,
    pub published_at_utc: String,
}

/// Why a discovery document does not describe the selected runtime, if it does not.
pub open spec fn metadata_rejection(m: IpcEndpointMetadata, runtime: RuntimeIdentity) -> Option<Seq<char>> {
    if m.schema_version != IPC_DISCOVERY_SCHEMA_VERSION {
        Some("unsupported IPC discovery schema"@)
    } else if m.profile@ != runtime.profile@ || m.runtime_id@ != runtime.instance_key@ {
        Some("IPC discovery does not identify the selected runtime"@)
    } else if m.endpoint@ != runtime.endpoint@ {
        Some("IPC discovery endpoint does not belong to the selected runtime"@)
    } else if !is_random_id(encode_utf8(m.daemon_instance_id@)) {
        Some(random_id_error_message("daemon instance"@))
    } else if !is_random_id(encode_utf8(m.publication_generation@)) {
        Some(random_id_error_message("publication generation"@))
    } else {
        None
    }
}

impl IpcEndpointMetadata {
    /// Accepts metadata only for the selected runtime, its endpoint, and well-formed IDs.
    pub fn validate_for(&self, runtime: &RuntimeIdentity) -> (r: Result<(), DiscoveryError>)
        ensures
            match metadata_rejection(*self, *runtime) {
                None => r is Ok,
                Some(message) => r matches Err(e) && e.message@ == message,
            },
    {
        if self.schema_version != IPC_DISCOVERY_SCHEMA_VERSION {
            return Err(DiscoveryError { message: "unsupported IPC discovery schema".to_owned() });
        }
        if self.profile != runtime.profile || self.runtime_id != runtime.instance_key {
            return Err(
                DiscoveryError {
                    message: "IPC discovery does not identify the selected runtime".to_owned(),
                },
            );
        }
        if !self.endpoint.same_as(&runtime.endpoint) {
            return Err(
                DiscoveryError {
                    message: "IPC discovery endpoint does not belong to the selected runtime".to_owned(),
                },
            );
        }
        validate_random_id("daemon instance", self.daemon_instance_id.as_str())?;
        validate_random_id("publication generation", self.publication_generation.as_str())?;
        Ok(())
    }
}

/// A published document belongs to the given publication and may be removed by its guard.
pub open spec fn owns_publication(
    m: IpcEndpointMetadata,
    runtime_id: Seq<char>,
    daemon_instance_id: Seq<char>,
    publication_generation: Seq<char>,
) -> bool {
    m.schema_version == IPC_DISCOVERY_SCHEMA_VERSION && m.runtime_id@ == runtime_id
        && m.daemon_instance_id@ == daemon_instance_id && m.publication_generation@
        == publication_generation
}

/// Decides whether the document found at the discovery path is the guard's own publication.
pub fn is_owned_publication(
    metadata: &IpcEndpointMetadata,
    runtime_id: &str,
    daemon_instance_id: &str,
    publication_generation: &str,
) -> (r: bool)
    ensures
        r == owns_publication(*metadata, runtime_id@, daemon_instance_id@, publication_generation@),
{
    metadata.schema_version == IPC_DISCOVERY_SCHEMA_VERSION && metadata.runtime_id
        == runtime_id.to_owned() && metadata.daemon_instance_id == daemon_instance_id.to_owned()
        && metadata.publication_generation == publication_generation.to_owned()
}

/// A leftover temporary file of `generation` that an earlier publication of the same runtime
/// wrote, and that may be removed.
pub open spec fn stale_temporary(
    m: IpcEndpointMetadata,
    current: IpcEndpointMetadata,
    generation: Seq<char>,
) -> bool {
    m.schema_version == IPC_DISCOVERY_SCHEMA_VERSION && m.profile@ == current.profile@
        && m.runtime_id@ == current.runtime_id@ && m.publication_generation@ == generation
}

pub fn is_stale_temporary(
    metadata: &IpcEndpointMetadata,
    current: &IpcEndpointMetadata,
    generation: &str,
) -> (r: bool)
    ensures
        r == stale_temporary(*metadata, *current, generation@),
{
    metadata.schema_version == IPC_DISCOVERY_SCHEMA_VERSION && metadata.profile == current.profile
        && metadata.runtime_id == current.runtime_id && metadata.publication_generation
        == generation.to_owned()
}

/// A removal outcome as plain values.
pub open spec fn result_view(r: Result<(), String>) -> Result<(), Seq<char>> {
    match r {
        Ok(()) => Ok(()),
        Err(e) => Err(e@),
    }
}

/// Whether a guard is still active after cleanup, and what cleanup reports, given whether it
/// was active and how removing its document went: a retired guard reports success and stays
/// retired; an active one reports the removal and stays active only when it failed.
pub open spec fn after_cleanup(active: bool, removal: Result<(), Seq<char>>) -> (bool, Result<(), Seq<char>>) {
    if !active {
        (false, Ok(()))
    } else {
        (removal is Err, removal)
    }
}

/// Cleanup after a successful one is a no-op that succeeds, whatever a removal would report.
pub proof fn lemma_cleanup_after_success_is_noop(active: bool, removal: Result<(), Seq<char>>)
    ensures
        after_cleanup(after_cleanup(active, Ok(())).0, removal) == (false, Result::<(), Seq<char>>::Ok(())),
{
}

/// What reading the discovery document found: no document, one that does not parse, a read
/// failure, or a parsed document.
#[derive(Debug, Clone)]
pub enum DocumentRead {
    Missing,
    Malformed,
    Unreadable,
    Found(IpcEndpointMetadata),
}

/// What cleanup does with the discovery document: leave it, remove it, or fail.
#[derive(Debug, Clone, Copy, PartialEq, Eq, Structural)]
pub enum CleanupDecision {
    Keep,
    Remove,
    Fail,
}

/// What a guard's cleanup does with the document it read (see `cleanup_decision`).
pub open spec fn cleanup_decision_of(
    active: bool,
    runtime_id: Seq<char>,
    instance: Seq<char>,
    generation: Seq<char>,
    read: DocumentRead,
) -> CleanupDecision {
    if !active {
        CleanupDecision::Keep
    } else {
        match read {
            DocumentRead::Unreadable => CleanupDecision::Fail,
            DocumentRead::Found(m) => if owns_publication(m, runtime_id, instance, generation) {
                CleanupDecision::Remove
            } else {
                CleanupDecision::Keep
            },
            _ => CleanupDecision::Keep,
        }
    }
}

/// An active guard's cleanup removes the discovery document exactly when it parses as this
/// schema's document of the guard's runtime, daemon instance and publication generation;
/// a malformed or foreign document stays.
pub proof fn lemma_cleanup_removes_only_own_publication(
    runtime_id: Seq<char>,
    instance: Seq<char>,
    generation: Seq<char>,
    read: DocumentRead,
)
    ensures
        cleanup_decision_of(true, runtime_id, instance, generation, read) == CleanupDecision::Remove <==> (read matches DocumentRead::Found(m)
            && m.schema_version == IPC_DISCOVERY_SCHEMA_VERSION && m.runtime_id@ == runtime_id
            && m.daemon_instance_id@ == instance && m.publication_generation@ == generation),
{
}

/// A generation-aware guard for one authoritative discovery publication.
#[derive(Debug)]
pub struct IpcEndpointPublication {
    runtime_id: String,
    daemon_instance_id: String,
    publication_generation: String,
    active: bool,
}

impl IpcEndpointPublication {
    pub closed spec fn spec_active(&self) -> bool {
        self.active
    }

    pub closed spec fn spec_runtime_id(&self) -> Seq<char> {
        self.runtime_id@
    }

    pub closed spec fn spec_instance(&self) -> Seq<char> {
        self.daemon_instance_id@
    }

    pub closed spec fn spec_generation(&self) -> Seq<char> {
        self.publication_generation@
    }

    /// The guard of a publication, once its metadata was validated for the runtime; the caller
    /// then writes the document.
    pub fn publish_current(metadata: &IpcEndpointMetadata, runtime: &RuntimeIdentity) -> (r: Result<
        IpcEndpointPublication,
        DiscoveryError,
    >)
        ensures
            metadata_rejection(*metadata, *runtime) is None <==> r is Ok,
            r matches Ok(g) ==> g.spec_active() && g.spec_runtime_id() == metadata.runtime_id@
                && g.spec_instance() == metadata.daemon_instance_id@ && g.spec_generation()
                == metadata.publication_generation@,
            r matches Err(e) ==> Some(e.message@) == metadata_rejection(*metadata, *runtime),
    {
        metadata.validate_for(runtime)?;
        Ok(
            IpcEndpointPublication {
                runtime_id: metadata.runtime_id.clone(),
                daemon_instance_id: metadata.daemon_instance_id.clone(),
                publication_generation: metadata.publication_generation.clone(),
                active: true,
            },
        )
    }

    pub fn is_active(&self) -> (r: bool)
        ensures
            r == self.spec_active(),
    {
        self.active
    }

    /// Decides whether a document found at the discovery path may be removed by this guard.
    pub fn owns(&self, found: &IpcEndpointMetadata) -> (r: bool)
        ensures
            r == (self.spec_active() && owns_publication(
                *found,
                self.spec_runtime_id(),
                self.spec_instance(),
                self.spec_generation(),
            )),
    {
        self.active && is_owned_publication(
            found,
            self.runtime_id.as_str(),
            self.daemon_instance_id.as_str(),
            self.publication_generation.as_str(),
        )
    }

    /// What cleanup does with the document found at the discovery path: a retired guard reads
    /// nothing and keeps it; a missing or malformed document is kept; a document that could
    /// not be read fails the cleanup (which can be retried); a readable one is removed exactly
    /// when it is this guard's own publication.
    pub fn cleanup_decision(&self, read: &DocumentRead) -> (r: CleanupDecision)
        ensures
            r == cleanup_decision_of(
                self.spec_active(),
                self.spec_runtime_id(),
                self.spec_instance(),
                self.spec_generation(),
                *read,
            ),
    {
        if !self.active {
            return CleanupDecision::Keep;
        }
        match read {
            DocumentRead::Missing => CleanupDecision::Keep,
            DocumentRead::Malformed => CleanupDecision::Keep,
            DocumentRead::Unreadable => CleanupDecision::Fail,
            DocumentRead::Found(metadata) => if self.owns(metadata) {
                CleanupDecision::Remove
            } else {
                CleanupDecision::Keep
            },
        }
    }

    /// Records the outcome of removing the guard's generation: success retires the guard, a
    /// failure leaves it active so that cleanup can be retried.
    pub fn cleanup(&mut self, removal: Result<(), String>) -> (r: Result<(), String>)
        ensures
            (final(self).spec_active(), result_view(r)) == after_cleanup(old(self).spec_active(), result_view(removal)),
            !old(self).spec_active() ==> r is Ok && !final(self).spec_active(),
            old(self).spec_active() ==> r == removal,
            old(self).spec_active() ==> (final(self).spec_active() <==> removal is Err),
            final(self).spec_runtime_id() == old(self).spec_runtime_id(),
            final(self).spec_instance() == old(self).spec_instance(),
            final(self).spec_generation() == old(self).spec_generation(),
    {
        if !self.active {
            return Ok(());
        }
        if removal.is_ok() {
            self.active = false;
        }
        removal
    }
}

/// A guard never removes a publication of another generation: its ownership test fails on any
/// document whose generation differs.
pub proof fn lemma_guard_never_removes_newer_generation(
    guard_runtime: Seq<char>,
    guard_instance: Seq<char>,
    guard_generation: Seq<char>,
    found: IpcEndpointMetadata,
)
    requires
        found.publication_generation@ != guard_generation,
    ensures
        !owns_publication(found, guard_runtime, guard_instance, guard_generation),
{
}

/// The local error for a discovery document that could not be read.
pub open spec fn read_error_code(kind: IoErrorClass) -> LocalIpcErrorCode {
    match kind {
        IoErrorClass::PermissionDenied => LocalIpcErrorCode::PermissionDenied,
        IoErrorClass::NotFound => LocalIpcErrorCode::DiscoveryUnavailable,
        _ => LocalIpcErrorCode::DiscoveryReadFailed,
    }
}

pub open spec fn read_error_retryable(kind: IoErrorClass) -> bool {
    kind == IoErrorClass::NotFound || kind == IoErrorClass::Interrupted
}

/// Classifies a failure to read the discovery document; no request was sent.
pub fn discovery_read_error(kind: IoErrorClass) -> (r: IpcClientError)
    ensures
        r matches IpcClientError::Local(e) && e.kind == LocalIpcErrorKind::Discovery && e.phase
            == IpcClientPhase::DiscoveryRead && e.code == read_error_code(kind) && e.retryable
            == read_error_retryable(kind) && e.request_id is None && e.guidance is Some
            && (e.operation matches Some(op) && op@ == "discover-ipc-endpoint"@),
{
    let (code, message, guidance, retryable) = match kind {
        IoErrorClass::PermissionDenied => (
            LocalIpcErrorCode::PermissionDenied,
            "Cadder cannot read IPC discovery for this runtime; no request was sent.",
            "Use the account that owns this Cadder runtime or select an accessible profile.",
            false,
        ),
        IoErrorClass::NotFound => (
            LocalIpcErrorCode::DiscoveryUnavailable,
            "Cadder IPC discovery is unavailable; no request was sent.",
            "Start the Cadder daemon for this runtime, then retry.",
            true,
        ),
        IoErrorClass::Interrupted => (
            LocalIpcErrorCode::DiscoveryReadFailed,
            "Cadder could not finish reading IPC discovery; no request was sent.",
            "Retry once. If the error remains, inspect the runtime-directory diagnostics.",
            true,
        ),
        _ => (
            LocalIpcErrorCode::DiscoveryReadFailed,
            "Cadder could not read IPC discovery; no request was sent.",
            "Inspect the runtime directory and local filesystem diagnostics before retrying.",
            false,
        ),
    };
    IpcClientError::Local(
        LocalIpcError {
            kind: LocalIpcErrorKind::Discovery,
            phase: IpcClientPhase::DiscoveryRead,
            code,
            message: message.to_owned(),
            guidance: Some(guidance.to_owned()),
            retryable,
            request_id: None,
            operation: Some("discover-ipc-endpoint".to_owned()),
        },
    )
}

/// The local error for a discovery document that could not be decoded or validated.
pub fn invalid_discovery_error() -> (r: IpcClientError)
    ensures
        r matches IpcClientError::Local(e) && e.kind == LocalIpcErrorKind::Discovery && e.phase
            == IpcClientPhase::DiscoveryDecode && e.code == LocalIpcErrorCode::InvalidDiscovery
            && !e.retryable && e.request_id is None && (e.operation matches Some(op) && op@
            == "discover-ipc-endpoint"@),
{
    IpcClientError::Local(
        LocalIpcError {
            kind: LocalIpcErrorKind::Discovery,
            phase: IpcClientPhase::DiscoveryDecode,
            code: LocalIpcErrorCode::InvalidDiscovery,
            message: "Cadder IPC discovery is invalid; no request was sent.".to_owned(),
            guidance: Some(
                "Restart the Cadder daemon for this runtime. If the error remains, inspect the discovery diagnostics.".to_owned(),
            ),
            retryable: false,
            request_id: None,
            operation: Some("discover-ipc-endpoint".to_owned()),
        },
    )
}

} // verus!
