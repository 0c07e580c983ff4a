//! IIS bindings that Cadder can hand off to Caddy and restore afterwards.

use vstd::prelude::*;
use crate::domain::{canonical_domain, canonicalize_domain, trim, trim_str};
use crate::operator::{contains_text, text_contains};
use crate::text::{
    chars_eq_ignore_ascii_case, decimal_digits, eq_ignore_ascii_case, from_chars, last_index,
    lemma_last_index, parse_u16, parse_u16_chars, push_char, push_str, rfind_char, signed_decimal,
    slice_chars, to_ascii_lowercase, to_chars, i32_to_decimal, u64_to_decimal, ascii_lowercase,
};

verus! {

/// The TLS certificate of an HTTPS binding.
#[derive(Debug, Clone)]
pub struct IisTlsCertificate {
    pub thumbprint: String,
    pub store_name: String,
    pub ssl_flags: Option<i32>,
}

/// One IIS site binding.
#[derive(Debug, Clone)]
pub struct IisBindingRecord {
    pub site_name: String,
    pub protocol: String,
    pub binding_information: String,
    pub ip_address: String,
    pub port: u16,
    pub host_header: String,
    pub tls_certificate: Option<IisTlsCertificate>,
}

pub struct TlsView {
    pub thumbprint: Seq<char>,
    pub store_name: Seq<char>,
    pub ssl_flags: Option<i32>,
}

pub struct BindingView {
    pub site_name: Seq<char>,
    pub protocol: Seq<char>,
    pub binding_information: Seq<char>,
    pub ip_address: Seq<char>,
    pub port: u16,
    pub host_header: Seq<char>,
    pub tls_certificate: Option<TlsView>,
}

impl View for IisTlsCertificate {
    type V = TlsView;

    open spec fn view(&self) -> TlsView {
        TlsView {
            thumbprint: self.thumbprint@,
            store_name: self.store_name@,
            ssl_flags: self.ssl_flags,
        }
    }
}

pub open spec fn tls_option_view(t: Option<IisTlsCertificate>) -> Option<TlsView> {
    match t {
        Some(c) => Some(c@),
        None => None,
    }
}

impl View for IisBindingRecord {
    type V = BindingView;

    open spec fn view(&self) -> BindingView {
        BindingView {
            site_name: self.site_name@,
            protocol: self.protocol@,
            binding_information: self.binding_information@,
            ip_address: self.ip_address@,
            port: self.port,
            host_header: self.host_header@,
            tls_certificate: tls_option_view(self.tls_certificate),
        }
    }
}

/// Why a binding information string was rejected.
#[derive(Debug, Clone, Copy, PartialEq, Eq, Structural)]
pub enum IisBindingErrorKind {
    MissingPort,
    InvalidPort,
    MissingIp,
}

/// A rejected binding information string.
#[derive(Debug, Clone)]
pub struct IisBindingError {
    pub kind: IisBindingErrorKind,
    pub message: String,
}

impl IisBindingError {
    pub fn message(&self) -> (r: &str)
        ensures
            r@ == self.message@,
    {
        self.message.as_str()
    }
}

/// The parts of `ip:port:host`, read from the right; the IP part may itself hold colons.
pub open spec fn parse_binding_information(info: Seq<char>) -> Result<
    (Seq<char>, u16, Seq<char>),
    IisBindingErrorKind,
> {
    match last_index(info, ':') {
        None => Err(IisBindingErrorKind::MissingPort),
        Some(k) => {
            let host = info.subrange(k + 1, info.len() as int);
            let left = info.subrange(0, k);
            match last_index(left, ':') {
                None => if parse_u16(left) is Some {
                    Err(IisBindingErrorKind::MissingIp)
                } else {
                    Err(IisBindingErrorKind::InvalidPort)
                },
                Some(j) => match parse_u16(left.subrange(j + 1, left.len() as int)) {
                    Some(port) => Ok((left.subrange(0, j), port, host)),
                    None => Err(IisBindingErrorKind::InvalidPort),
                },
            }
        },
    }
}

pub open spec fn binding_error_message(kind: IisBindingErrorKind, info: Seq<char>) -> Seq<char> {
    match kind {
        IisBindingErrorKind::MissingPort => "IIS binding `"@ + info + "` is missing a port segment"@,
        IisBindingErrorKind::InvalidPort => "parse IIS binding port in `"@ + info + "`"@,
        IisBindingErrorKind::MissingIp => "IIS binding `"@ + info + "` is missing an IP segment"@,
    }
}

/// Builds `a + b + c`.
pub(crate) fn join3(a: &str, b: &str, c: &str) -> (r: String)
    ensures
        r@ == a@ + b@ + c@,
{
    let mut r = a.to_owned();
    push_str(&mut r, b);
    push_str(&mut r, c);
    r
}

/// The issue kinds reported for IIS handoff.
#[derive(Debug, Clone, Copy, PartialEq, Eq, Structural)]
pub enum IisIssueKind {
    ElevationDenied,
    IisUnavailable,
    InsufficientPrivileges,
    MissingBinding,
    MissingTlsCertificate,
    ProviderError,
    UnsupportedBindingShape,
}

/// A handoff problem with its operator message.
#[derive(Debug, Clone)]
pub struct IisIssue {
    pub kind: IisIssueKind,
    pub message: String,
}

/// The stable identity of a binding.
#[derive(Debug, Clone)]
pub struct IisBindingIdentity {
    pub binding_id: String,
    pub site_name: String,
    pub protocol: String,
    pub binding_information: String,
}

/// What a restore needs to know about a handed-off binding.
#[derive(Debug, Clone)]
pub struct IisRestoreMetadataSummary {
    pub site_name: String,
    pub protocol: String,
    pub ip_address: String,
    pub port: u16,
    pub host_header: String,
    pub binding_information: String,
}

/// `site|protocol|information`.
pub open spec fn binding_id_of(b: BindingView) -> Seq<char> {
    b.site_name + seq!['|'] + b.protocol + seq!['|'] + b.binding_information
}

/// A certificate with both a thumbprint and a store name that are not blank.
pub open spec fn usable_certificate(t: Option<TlsView>) -> bool {
    match t {
        Some(c) => trim(c.thumbprint).len() > 0 && trim(c.store_name).len() > 0,
        None => false,
    }
}

/// The host header of a backend listener: the original one, unless it is blank or `*`.
pub open spec fn backend_host(b: BindingView, route_host: Seq<char>) -> Seq<char> {
    let original = trim(b.host_header);
    if original.len() == 0 || original == "*"@ {
        canonical_domain(route_host)
    } else {
        b.host_header
    }
}

/// The loopback listener that IIS keeps serving behind Caddy.
pub open spec fn backend_binding_view(
    b: BindingView,
    port: u16,
    route_host: Seq<char>,
    protocol: Seq<char>,
    tls: Option<TlsView>,
) -> BindingView {
    let host = backend_host(b, route_host);
    BindingView {
        site_name: b.site_name,
        protocol,
        binding_information: "127.0.0.1"@ + seq![':'] + decimal_digits(port as nat) + seq![':'] + host,
        ip_address: "127.0.0.1"@,
        port,
        host_header: host,
        tls_certificate: tls,
    }
}

pub open spec fn missing_certificate_message(info: Seq<char>) -> Seq<char> {
    "HTTPS IIS binding `"@ + info
        + "` cannot be handed off because IIS did not expose usable TLS certificate metadata. Repair the IIS HTTPS certificate binding, refresh IIS discovery, and retry handoff."@
}

pub open spec fn unsupported_protocol_message(protocol: Seq<char>) -> Seq<char> {
    "IIS protocol `"@ + protocol + "` is not supported for handoff."@
}

impl IisBindingRecord {
    /// Parses `ip:port:host` from the right.
    pub fn from_binding_information(site_name: &str, protocol: &str, binding_information: &str) -> (r:
        Result<IisBindingRecord, IisBindingError>)
        ensures
            match parse_binding_information(binding_information@) {
                Ok((ip, port, host)) => r matches Ok(b) && b@ == (BindingView {
                    site_name: site_name@,
                    protocol: protocol@,
                    binding_information: binding_information@,
                    ip_address: ip,
                    port,
                    host_header: host,
                    tls_certificate: None,
                }),
                Err(kind) => r matches Err(e) && e.kind == kind && e.message@
                    == binding_error_message(kind, binding_information@),
            },
    {
        let info = to_chars(binding_information);
        let k = match rfind_char(&info, ':') {
            Some(k) => k,
            None => {
                return Err(
                    IisBindingError {
                        kind: IisBindingErrorKind::MissingPort,
                        message: join3("IIS binding `", binding_information, "` is missing a port segment"),
                    },
                );
            },
        };
        proof {
            lemma_last_index(info@, ':');
        }
        let host = slice_chars(&info, k + 1, info.len());
        let left = slice_chars(&info, 0, k);
        match rfind_char(&left, ':') {
            None => {
                if parse_u16_chars(&left).is_some() {
                    return Err(
                        IisBindingError {
                            kind: IisBindingErrorKind::MissingIp,
                            message: join3("IIS binding `", binding_information, "` is missing an IP segment"),
                        },
                    );
                } else {
                    return Err(
                        IisBindingError {
                            kind: IisBindingErrorKind::InvalidPort,
                            message: join3("parse IIS binding port in `", binding_information, "`"),
                        },
                    );
                }
            },
            Some(j) => {
                proof {
                    lemma_last_index(left@, ':');
                }
                let port_text = slice_chars(&left, j + 1, left.len());
                match parse_u16_chars(&port_text) {
                    Some(port) => {
                        let ip = slice_chars(&left, 0, j);
                        Ok(
                            IisBindingRecord {
                                site_name: site_name.to_owned(),
                                protocol: protocol.to_owned(),
                                binding_information: binding_information.to_owned(),
                                ip_address: from_chars(ip.as_slice()),
                                port,
                                host_header: from_chars(host.as_slice()),
                                tls_certificate: None,
                            },
                        )
                    },
                    None => Err(
                        IisBindingError {
                            kind: IisBindingErrorKind::InvalidPort,
                            message: join3("parse IIS binding port in `", binding_information, "`"),
                        },
                    ),
                }
            },
        }
    }

    /// The binding's identity: `site|protocol|information`.
    pub fn binding_id(&self) -> (r: String)
        ensures
            r@ == binding_id_of(self@),
    {
        let mut r = self.site_name.clone();
        push_char(&mut r, '|');
        push_str(&mut r, self.protocol.as_str());
        push_char(&mut r, '|');
        push_str(&mut r, self.binding_information.as_str());
        assert(r@ =~= binding_id_of(self@));
        r
    }

    pub fn identity(&self) -> (r: IisBindingIdentity)
        ensures
            r.binding_id@ == binding_id_of(self@),
            r.site_name@ == self.site_name@,
            r.protocol@ == self.protocol@,
            r.binding_information@ == self.binding_information@,
    {
        IisBindingIdentity {
            binding_id: self.binding_id(),
            site_name: self.site_name.clone(),
            protocol: self.protocol.clone(),
            binding_information: self.binding_information.clone(),
        }
    }

    pub fn restore_summary(&self) -> (r: IisRestoreMetadataSummary)
        ensures
            r.site_name@ == self.site_name@,
            r.protocol@ == self.protocol@,
            r.ip_address@ == self.ip_address@,
            r.port == self.port,
            r.host_header@ == self.host_header@,
            r.binding_information@ == self.binding_information@,
    {
        IisRestoreMetadataSummary {
            site_name: self.site_name.clone(),
            protocol: self.protocol.clone(),
            ip_address: self.ip_address.clone(),
            port: self.port,
            host_header: self.host_header.clone(),
            binding_information: self.binding_information.clone(),
        }
    }

    /// The plain-HTTP loopback listener on `port` for `route_host`.
    pub fn backend_http_binding(&self, port: u16, route_host: &str) -> (r: IisBindingRecord)
        ensures
            r@ == backend_binding_view(self@, port, route_host@, "http"@, None),
    {
        self.backend_binding_with_protocol(port, route_host, "http", None)
    }

    /// The loopback listener for an HTTP or HTTPS binding; HTTPS keeps its certificate.
    pub fn backend_binding(&self, port: u16, route_host: &str) -> (r: Result<IisBindingRecord, IisIssue>)
        ensures
            eq_ignore_ascii_case(self@.protocol, "http"@) ==> (r matches Ok(b) && b@
                == backend_binding_view(self@, port, route_host@, "http"@, None)),
            !eq_ignore_ascii_case(self@.protocol, "http"@) && eq_ignore_ascii_case(
                self@.protocol,
                "https"@,
            ) ==> if usable_certificate(self@.tls_certificate) {
                r matches Ok(b) && b@ == backend_binding_view(
                    self@,
                    port,
                    route_host@,
                    "https"@,
                    self@.tls_certificate,
                )
            } else {
                r matches Err(issue) && issue.kind == IisIssueKind::MissingTlsCertificate
                    && issue.message@ == missing_certificate_message(self@.binding_information)
            },
            !eq_ignore_ascii_case(self@.protocol, "http"@) && !eq_ignore_ascii_case(
                self@.protocol,
                "https"@,
            ) ==> (r matches Err(issue) && issue.kind == IisIssueKind::UnsupportedBindingShape
                && issue.message@ == unsupported_protocol_message(self@.protocol)),
    {
        let protocol = to_chars(self.protocol.as_str());
        if chars_eq_ignore_ascii_case(&protocol, &to_chars("http")) {
            return Ok(self.backend_http_binding(port, route_host));
        }
        if chars_eq_ignore_ascii_case(&protocol, &to_chars("https")) {
            return match self.usable_tls_certificate() {
                Some(certificate) => Ok(
                    self.backend_binding_with_protocol(port, route_host, "https", Some(certificate)),
                ),
                None => Err(
                    IisIssue {
                        kind: IisIssueKind::MissingTlsCertificate,
                        message: join3(
                            "HTTPS IIS binding `",
                            self.binding_information.as_str(),
                            "` cannot be handed off because IIS did not expose usable TLS certificate metadata. Repair the IIS HTTPS certificate binding, refresh IIS discovery, and retry handoff.",
                        ),
                    },
                ),
            };
        }
        Err(
            IisIssue {
                kind: IisIssueKind::UnsupportedBindingShape,
                message: join3("IIS protocol `", self.protocol.as_str(), "` is not supported for handoff."),
            },
        )
    }

    fn backend_binding_with_protocol(
        &self,
        port: u16,
        route_host: &str,
        protocol: &str,
        tls_certificate: Option<IisTlsCertificate>,
    ) -> (r: IisBindingRecord)
        ensures
            r@ == backend_binding_view(
                self@,
                port,
                route_host@,
                protocol@,
                tls_option_view(tls_certificate),
            ),
    {
        let original = trim_str(self.host_header.as_str());
        let host_header = if original.as_str().is_empty() || original == "*".to_owned() {
            canonicalize_domain(route_host)
        } else {
            self.host_header.clone()
        };
        let mut binding_information = "127.0.0.1".to_owned();
        push_char(&mut binding_information, ':');
        let port_text = u64_to_decimal(port as u64);
        push_str(&mut binding_information, port_text.as_str());
        push_char(&mut binding_information, ':');
        push_str(&mut binding_information, host_header.as_str());
        assert(binding_information@ =~= "127.0.0.1"@ + seq![':'] + decimal_digits(port as nat)
            + seq![':'] + host_header@);
        IisBindingRecord {
            site_name: self.site_name.clone(),
            protocol: protocol.to_owned(),
            binding_information,
            ip_address: "127.0.0.1".to_owned(),
            port,
            host_header,
            tls_certificate,
        }
    }

    /// A copy of the binding.
    pub fn duplicate(&self) -> (r: IisBindingRecord)
        ensures
            r@ == self@,
    {
        IisBindingRecord {
            site_name: self.site_name.clone(),
            protocol: self.protocol.clone(),
            binding_information: self.binding_information.clone(),
            ip_address: self.ip_address.clone(),
            port: self.port,
            host_header: self.host_header.clone(),
            tls_certificate: match &self.tls_certificate {
                Some(c) => Some(IisTlsCertificate {
                    thumbprint: c.thumbprint.clone(),
                    store_name: c.store_name.clone(),
                    ssl_flags: c.ssl_flags,
                }),
                None => None,
            },
        }
    }

    fn usable_tls_certificate(&self) -> (r: Option<IisTlsCertificate>)
        ensures
            usable_certificate(self@.tls_certificate) ==> r is Some && tls_option_view(r)
                == self@.tls_certificate,
            !usable_certificate(self@.tls_certificate) ==> r is None,
    {
        match &self.tls_certificate {
            Some(certificate) => {
                let thumbprint = trim_str(certificate.thumbprint.as_str());
                let store = trim_str(certificate.store_name.as_str());
                if !thumbprint.as_str().is_empty() && !store.as_str().is_empty() {
                    Some(
                        IisTlsCertificate {
                            thumbprint: certificate.thumbprint.clone(),
                            store_name: certificate.store_name.clone(),
                            ssl_flags: certificate.ssl_flags,
                        },
                    )
                } else {
                    None
                }
            },
            None => None,
        }
    }

    /// The binding with the given certificate metadata.
    pub fn with_tls_certificate(self, tls_certificate: Option<IisTlsCertificate>) -> (r:
        IisBindingRecord)
        ensures
            r@ == (BindingView { tls_certificate: tls_option_view(tls_certificate), ..self@ }),
    {
        IisBindingRecord { tls_certificate, ..self }
    }
}

/// The handoff problem of a binding shape, if any: only HTTP on port 80 and HTTPS on port 443.
pub open spec fn unsupported_issue(b: BindingView) -> Option<(IisIssueKind, Seq<char>)> {
    let protocol = ascii_lowercase(b.protocol);
    if protocol != "http"@ && protocol != "https"@ {
        Some((IisIssueKind::UnsupportedBindingShape, unsupported_protocol_message(b.protocol)))
    } else if protocol == "http"@ && b.port != 80 {
        Some(
            (
                IisIssueKind::UnsupportedBindingShape,
                "IIS port "@ + decimal_digits(b.port as nat) + " is not supported for HTTP handoff."@,
            ),
        )
    } else if protocol == "https"@ && b.port != 443 {
        Some(
            (
                IisIssueKind::UnsupportedBindingShape,
                "IIS port "@ + decimal_digits(b.port as nat) + " is not supported for HTTPS handoff."@,
            ),
        )
    } else {
        None
    }
}

/// Exactly HTTP on port 80 and HTTPS on port 443 can be handed off, whatever the ASCII case
/// of the protocol: the handoff finds no problem with a binding if and only if it is one of
/// those two.
pub proof fn lemma_handoff_shapes(b: BindingView)
    ensures
        unsupported_issue(b) is None <==> ((ascii_lowercase(b.protocol) == "http"@ && b.port == 80) || (
        ascii_lowercase(b.protocol) == "https"@ && b.port == 443)),
{
    reveal_strlit("http");
    reveal_strlit("https");
    assert("http"@.len() != "https"@.len());
}

/// Reports why a binding cannot be handed off.
pub fn unsupported_binding_issue(binding: &IisBindingRecord) -> (r: Option<IisIssue>)
    ensures
        match unsupported_issue(binding@) {
            Some((kind, message)) => r matches Some(issue) && issue.kind == kind && issue.message@
                == message,
            None => r is None,
        },
{
    let protocol = to_ascii_lowercase(&to_chars(binding.protocol.as_str()));
    let http = to_chars("http");
    let https = to_chars("https");
    let is_http = chars_eq(&protocol, &http);
    let is_https = chars_eq(&protocol, &https);
    if !is_http && !is_https {
        return Some(
            IisIssue {
                kind: IisIssueKind::UnsupportedBindingShape,
                message: join3("IIS protocol `", binding.protocol.as_str(), "` is not supported for handoff."),
            },
        );
    }
    let port = u64_to_decimal(binding.port as u64);
    if is_http && binding.port != 80 {
        return Some(
            IisIssue {
                kind: IisIssueKind::UnsupportedBindingShape,
                message: join3("IIS port ", port.as_str(), " is not supported for HTTP handoff."),
            },
        );
    }
    if is_https && binding.port != 443 {
        return Some(
            IisIssue {
                kind: IisIssueKind::UnsupportedBindingShape,
                message: join3("IIS port ", port.as_str(), " is not supported for HTTPS handoff."),
            },
        );
    }
    None
}

/// PowerShell single-quoted escaping: every `'` is doubled.
pub open spec fn ps_escaped(s: Seq<char>) -> Seq<char>
    decreases s.len(),
{
    if s.len() == 0 {
        Seq::empty()
    } else if s.last() == '\'' {
        ps_escaped(s.drop_last()) + seq!['\'', '\'']
    } else {
        ps_escaped(s.drop_last()).push(s.last())
    }
}

/// Escapes a value for a PowerShell single-quoted string.
pub fn ps_escape(value: &str) -> (r: String)
    ensures
        r@ == ps_escaped(value@),
{
    let chars = to_chars(value);
    let mut out = String::new();
    let mut i: usize = 0;
    while i < chars.len()
        invariant
            i <= chars.len(),
            chars@ == value@,
            out@ == ps_escaped(chars@.subrange(0, i as int)),
        decreases chars.len() - i,
    {
        let c = chars[i];
        assert(chars@.subrange(0, i + 1).drop_last() =~= chars@.subrange(0, i as int));
        if c == '\'' {
            push_char(&mut out, '\'');
            push_char(&mut out, '\'');
            assert(out@ =~= ps_escaped(chars@.subrange(0, i as int)) + seq!['\'', '\'']);
        } else {
            push_char(&mut out, c);
        }
        i = i + 1;
    }
    assert(chars@.subrange(0, chars@.len() as int) =~= chars@);
    out
}

/// The PowerShell script that removes a binding.
pub open spec fn remove_binding_script(b: BindingView) -> Seq<char> {
    "$ErrorActionPreference = 'Stop'; Import-Module WebAdministration -ErrorAction Stop; Remove-WebBinding -Name '"@
        + ps_escaped(b.site_name) + "' -Protocol '"@ + ps_escaped(b.protocol)
        + "' -BindingInformation '"@ + ps_escaped(b.binding_information) + "'"@
}

pub fn system_remove_binding_script(binding: &IisBindingRecord) -> (r: String)
    ensures
        r@ == remove_binding_script(binding@),
{
    let mut r = "$ErrorActionPreference = 'Stop'; Import-Module WebAdministration -ErrorAction Stop; Remove-WebBinding -Name '".to_owned();
    push_str(&mut r, ps_escape(binding.site_name.as_str()).as_str());
    push_str(&mut r, "' -Protocol '");
    push_str(&mut r, ps_escape(binding.protocol.as_str()).as_str());
    push_str(&mut r, "' -BindingInformation '");
    push_str(&mut r, ps_escape(binding.binding_information.as_str()).as_str());
    push_str(&mut r, "'");
    r
}

/// The `-SslFlags` argument of an HTTPS binding.
pub open spec fn ssl_flags_argument(b: BindingView) -> Seq<char> {
    if eq_ignore_ascii_case(b.protocol, "https"@) {
        " -SslFlags "@ + signed_decimal(
            match b.tls_certificate {
                Some(t) => match t.ssl_flags {
                    Some(f) => f as int,
                    None => 0,
                },
                None => 0,
            },
        )
    } else {
        Seq::empty()
    }
}

/// The certificate restore step of an HTTPS binding with certificate metadata.
pub open spec fn certificate_script(b: BindingView) -> Seq<char> {
    match b.tls_certificate {
        Some(t) => if eq_ignore_ascii_case(b.protocol, "https"@) {
            "\n$binding = Get-WebBinding -Name '"@ + ps_escaped(b.site_name) + "' -Protocol '"@
                + ps_escaped(b.protocol)
                + "' | Where-Object { $_.bindingInformation -eq '"@ + ps_escaped(
                b.binding_information,
            ) + "' } | Select-Object -First 1\nif ($null -eq $binding) {\n  throw \"IIS binding '"@
                + ps_escaped(b.binding_information)
                + "' was created but could not be found for certificate restore.\"\n}\n$binding.AddSslCertificate('"@
                + ps_escaped(t.thumbprint) + "', '"@ + ps_escaped(t.store_name) + "')\n"@
        } else {
            Seq::empty()
        },
        None => Seq::empty(),
    }
}

/// The PowerShell script that adds (or restores) a binding, starting its site when needed and
/// removing a half-created binding on failure.
pub open spec fn add_binding_script(b: BindingView) -> Seq<char> {
    "\n$ErrorActionPreference = 'Stop'\nImport-Module WebAdministration -ErrorAction Stop\n$created = $false\ntry {\n  New-WebBinding -Name '"@
        + ps_escaped(b.site_name) + "' -Protocol '"@ + ps_escaped(b.protocol) + "' -IPAddress '"@
        + ps_escaped(b.ip_address) + "' -Port "@ + decimal_digits(b.port as nat)
        + " -HostHeader '"@ + ps_escaped(b.host_header) + "'"@ + ssl_flags_argument(b)
        + "\n  $created = $true\n  "@ + certificate_script(b)
        + "\n  $site = Get-Website -Name '"@ + ps_escaped(b.site_name)
        + "'\n  if ($site.State -ne 'Started') {\n    Start-WebSite -Name '"@ + ps_escaped(
        b.site_name,
    ) + "'\n  }\n} catch {\n  if ($created) {\n    Remove-WebBinding -Name '"@ + ps_escaped(
        b.site_name,
    ) + "' -Protocol '"@ + ps_escaped(b.protocol) + "' -BindingInformation '"@ + ps_escaped(
        b.binding_information,
    ) + "' -ErrorAction SilentlyContinue\n  }\n  throw\n}\n"@
}

fn https_protocol(binding: &IisBindingRecord) -> (r: bool)
    ensures
        r == eq_ignore_ascii_case(binding@.protocol, "https"@),
{
    chars_eq_ignore_ascii_case(&to_chars(binding.protocol.as_str()), &to_chars("https"))
}

fn system_ssl_flags_argument(binding: &IisBindingRecord) -> (r: String)
    ensures
        r@ == ssl_flags_argument(binding@),
{
    if https_protocol(binding) {
        let flags: i32 = match &binding.tls_certificate {
            Some(t) => match t.ssl_flags {
                Some(f) => f,
                None => 0,
            },
            None => 0,
        };
        let mut r = " -SslFlags ".to_owned();
        push_str(&mut r, i32_to_decimal(flags).as_str());
        r
    } else {
        String::new()
    }
}

fn system_certificate_script(binding: &IisBindingRecord) -> (r: String)
    ensures
        r@ == certificate_script(binding@),
{
    match &binding.tls_certificate {
        Some(t) => {
            if https_protocol(binding) {
                let site = ps_escape(binding.site_name.as_str());
                let protocol = ps_escape(binding.protocol.as_str());
                let information = ps_escape(binding.binding_information.as_str());
                let mut r = "\n$binding = Get-WebBinding -Name '".to_owned();
                push_str(&mut r, site.as_str());
                push_str(&mut r, "' -Protocol '");
                push_str(&mut r, protocol.as_str());
                push_str(&mut r, "' | Where-Object { $_.bindingInformation -eq '");
                push_str(&mut r, information.as_str());
                push_str(&mut r, "' } | Select-Object -First 1\nif ($null -eq $binding) {\n  throw \"IIS binding '");
                push_str(&mut r, information.as_str());
                push_str(&mut r, "' was created but could not be found for certificate restore.\"\n}\n$binding.AddSslCertificate('");
                push_str(&mut r, ps_escape(t.thumbprint.as_str()).as_str());
                push_str(&mut r, "', '");
                push_str(&mut r, ps_escape(t.store_name.as_str()).as_str());
                push_str(&mut r, "')\n");
                r
            } else {
                String::new()
            }
        },
        None => String::new(),
    }
}

pub fn system_add_binding_script(binding: &IisBindingRecord) -> (r: String)
    ensures
        r@ == add_binding_script(binding@),
{
    let site = ps_escape(binding.site_name.as_str());
    let protocol = ps_escape(binding.protocol.as_str());
    let information = ps_escape(binding.binding_information.as_str());
    let mut r = "\n$ErrorActionPreference = 'Stop'\nImport-Module WebAdministration -ErrorAction Stop\n$created = $false\ntry {\n  New-WebBinding -Name '".to_owned();
    push_str(&mut r, site.as_str());
    push_str(&mut r, "' -Protocol '");
    push_str(&mut r, protocol.as_str());
    push_str(&mut r, "' -IPAddress '");
    push_str(&mut r, ps_escape(binding.ip_address.as_str()).as_str());
    push_str(&mut r, "' -Port ");
    push_str(&mut r, u64_to_decimal(binding.port as u64).as_str());
    push_str(&mut r, " -HostHeader '");
    push_str(&mut r, ps_escape(binding.host_header.as_str()).as_str());
    push_str(&mut r, "'");
    push_str(&mut r, system_ssl_flags_argument(binding).as_str());
    push_str(&mut r, "\n  $created = $true\n  ");
    push_str(&mut r, system_certificate_script(binding).as_str());
    push_str(&mut r, "\n  $site = Get-Website -Name '");
    push_str(&mut r, site.as_str());
    push_str(&mut r, "'\n  if ($site.State -ne 'Started') {\n    Start-WebSite -Name '");
    push_str(&mut r, site.as_str());
    push_str(&mut r, "'\n  }\n} catch {\n  if ($created) {\n    Remove-WebBinding -Name '");
    push_str(&mut r, site.as_str());
    push_str(&mut r, "' -Protocol '");
    push_str(&mut r, protocol.as_str());
    push_str(&mut r, "' -BindingInformation '");
    push_str(&mut r, information.as_str());
    push_str(&mut r, "' -ErrorAction SilentlyContinue\n  }\n  throw\n}\n");
    r
}

/// The restore script is the add script: restoring re-creates the original binding.
pub fn system_restore_binding_script(binding: &IisBindingRecord) -> (r: String)
    ensures
        r@ == add_binding_script(binding@),
{
    system_add_binding_script(binding)
}

/// One change in a privileged batch of IIS binding changes.
#[derive(Debug, Clone)]
pub enum IisMutation {
    Add(IisBindingRecord),
    Remove(IisBindingRecord),
    Restore(IisBindingRecord),
}

impl IisMutation {
    pub fn add(binding: IisBindingRecord) -> (r: IisMutation)
        ensures
            r matches IisMutation::Add(b) && b@ == binding@,
    {
        IisMutation::Add(binding)
    }

    pub fn remove(binding: IisBindingRecord) -> (r: IisMutation)
        ensures
            r matches IisMutation::Remove(b) && b@ == binding@,
    {
        IisMutation::Remove(binding)
    }

    pub fn restore(binding: IisBindingRecord) -> (r: IisMutation)
        ensures
            r matches IisMutation::Restore(b) && b@ == binding@,
    {
        IisMutation::Restore(binding)
    }
}

/// Exact equality of two character sequences.
pub fn chars_eq(a: &Vec<char>, b: &Vec<char>) -> (r: bool)
    ensures
        r == (a@ == b@),
{
    if a.len() != b.len() {
        return false;
    }
    let mut i: usize = 0;
    while i < a.len()
        invariant
            i <= a.len(),
            a.len() == b.len(),
            forall|j: int| 0 <= j < i ==> a@[j] == b@[j],
        decreases a.len() - i,
    {
        if a[i] != b[i] {
            return false;
        }
        i = i + 1;
    }
    assert(a@ =~= b@);
    true
}

/// The text of bytes read as UTF-8 with every invalid sequence replaced by U+FFFD, as
/// `String::from_utf8_lossy` reads it.
pub uninterp spec fn lossy_text(bytes: Seq<u8>) -> Seq<char>;

/// Reads bytes as UTF-8, replacing invalid sequences (`String::from_utf8_lossy`); valid
/// UTF-8 is read as it is.
#[verifier::external_body]
pub(crate) fn decode_lossy(bytes: &[u8]) -> (r: String)
    ensures
        r@ == lossy_text(bytes@),
        vstd::utf8::valid_utf8(bytes@) ==> r@ == vstd::utf8::decode_utf8(bytes@),
{
    String::from_utf8_lossy(bytes).into_owned()
}

/// The Unicode lower case of a text, as `str::to_lowercase` gives it.
pub uninterp spec fn unicode_lowercase(text: Seq<char>) -> Seq<char>;

/// Lowers a text's case (`str::to_lowercase`).
#[verifier::external_body]
fn lowercase_text(text: &str) -> (r: String)
    ensures
        r@ == unicode_lowercase(text@),
{
    text.to_lowercase()
}

/// Whether lowered PowerShell output says that administrator rights are missing (in
/// English, or in Polish).
pub open spec fn needs_admin(normalized: Seq<char>) -> bool {
    contains_text(normalized, "access is denied"@) || contains_text(normalized, "unauthorizedaccess"@)
        || contains_text(normalized, "administrator"@) || contains_text(normalized, "elevated"@)
        || contains_text(normalized, "requires elevation"@) || contains_text(normalized, "insufficient privilege"@)
        || (contains_text(normalized, "podwy"@) && contains_text(normalized, "uprawnieni"@))
}

/// The issue that failed PowerShell output reports: missing rights, a missing
/// WebAdministration module, or the output itself (or a fixed message when it is empty).
pub open spec fn powershell_issue(stderr: Seq<u8>) -> (IisIssueKind, Seq<char>) {
    let message = trim(lossy_text(stderr));
    let normalized = unicode_lowercase(message);
    if needs_admin(normalized) {
        (IisIssueKind::InsufficientPrivileges, "IIS access requires administrator approval."@)
    } else if contains_text(message, "WebAdministration"@) || contains_text(normalized, "module"@) {
        (IisIssueKind::IisUnavailable, "IIS WebAdministration module is unavailable."@)
    } else if message.len() == 0 {
        (IisIssueKind::ProviderError, "PowerShell IIS command failed."@)
    } else {
        (IisIssueKind::ProviderError, message)
    }
}

fn has_text(hay: &Vec<char>, needle: &str) -> (r: bool)
    ensures
        r == contains_text(hay@, needle@),
{
    let n = to_chars(needle);
    text_contains(hay, &n)
}

/// Classifies the error output of a failed PowerShell IIS command.
pub fn classify_powershell_error(stderr: &[u8]) -> (r: IisIssue)
    ensures
        (r.kind, r.message@) == powershell_issue(stderr@),
{
    let message = trim_str(decode_lossy(stderr).as_str());
    let normalized = to_chars(lowercase_text(message.as_str()).as_str());
    let m = to_chars(message.as_str());
    let admin = has_text(&normalized, "access is denied") || has_text(&normalized, "unauthorizedaccess")
        || has_text(&normalized, "administrator") || has_text(&normalized, "elevated")
        || has_text(&normalized, "requires elevation") || has_text(&normalized, "insufficient privilege")
        || (has_text(&normalized, "podwy") && has_text(&normalized, "uprawnieni"));
    if admin {
        IisIssue { kind: IisIssueKind::InsufficientPrivileges, message: "IIS access requires administrator approval.".to_owned() }
    } else if has_text(&m, "WebAdministration") || has_text(&normalized, "module") {
        IisIssue { kind: IisIssueKind::IisUnavailable, message: "IIS WebAdministration module is unavailable.".to_owned() }
    } else if m.len() == 0 {
        IisIssue { kind: IisIssueKind::ProviderError, message: "PowerShell IIS command failed.".to_owned() }
    } else {
        IisIssue { kind: IisIssueKind::ProviderError, message }
    }
}

/// The certificate that PowerShell reports for a binding: none without a thumbprint; the
/// `My` store when none is named.
pub open spec fn reported_certificate(hash: Option<Seq<char>>, store: Option<Seq<char>>, ssl_flags: Option<i32>) -> Option<TlsView> {
    match hash {
        Some(h) => if trim(h).len() == 0 {
            None
        } else {
            Some(
                TlsView {
                    thumbprint: h,
                    store_name: match store {
                        Some(st) => if trim(st).len() == 0 {
                            "My"@
                        } else {
                            st
                        },
                        None => "My"@,
                    },
                    ssl_flags,
                },
            )
        },
        None => None,
    }
}

fn is_blank(text: &str) -> (r: bool)
    ensures
        r == (trim(text@).len() == 0),
{
    trim_str(text).as_str().unicode_len() == 0
}

/// A binding as PowerShell reports it: its site, protocol and binding information, and its
/// certificate hash, store and SSL flags when IIS shows them.
pub fn binding_from_powershell(
    site_name: &str,
    protocol: &str,
    binding_information: &str,
    certificate_hash: Option<String>,
    certificate_store_name: Option<String>,
    ssl_flags: Option<i32>,
) -> (r: Result<IisBindingRecord, IisIssue>)
    ensures
        match parse_binding_information(binding_information@) {
            Ok((ip, port, host)) => r matches Ok(b) && b@ == (BindingView {
                site_name: site_name@,
                protocol: protocol@,
                binding_information: binding_information@,
                ip_address: ip,
                port,
                host_header: host,
                tls_certificate: reported_certificate(
                    match certificate_hash {
                        Some(h) => Some(h@),
                        None => None,
                    },
                    match certificate_store_name {
                        Some(st) => Some(st@),
                        None => None,
                    },
                    ssl_flags,
                ),
            }),
            Err(kind) => r matches Err(issue) && issue.kind == IisIssueKind::UnsupportedBindingShape
                && issue.message@ == binding_error_message(kind, binding_information@),
        },
{
    let tls = match certificate_hash {
        Some(thumbprint) => if is_blank(thumbprint.as_str()) {
            None
        } else {
            let store_name = match certificate_store_name {
                Some(store) => if is_blank(store.as_str()) {
                    "My".to_owned()
                } else {
                    store
                },
                None => "My".to_owned(),
            };
            Some(IisTlsCertificate { thumbprint, store_name, ssl_flags })
        },
        None => None,
    };
    match IisBindingRecord::from_binding_information(site_name, protocol, binding_information) {
        Ok(binding) => Ok(binding.with_tls_certificate(tls)),
        Err(error) => Err(IisIssue { kind: IisIssueKind::UnsupportedBindingShape, message: error.message }),
    }
}

/// A binding as PowerShell's JSON listing gives it.
#[derive(Debug, Clone)]
pub struct RawPowerShellBinding {
    pub site_name: String,
    pub protocol: String,
    pub binding_information: String,
    pub certificate_hash: Option<String>,
    pub certificate_store_name: Option<String>,
    pub ssl_flags: Option<i32>,
}

/// The binding that a listed record describes, when its binding information parses.
pub open spec fn raw_binding_view(b: RawPowerShellBinding) -> BindingView {
    let parsed = parse_binding_information(b.binding_information@)->Ok_0;
    BindingView {
        site_name: b.site_name@,
        protocol: b.protocol@,
        binding_information: b.binding_information@,
        ip_address: parsed.0,
        port: parsed.1,
        host_header: parsed.2,
        tls_certificate: reported_certificate(
            match b.certificate_hash {
                Some(h) => Some(h@),
                None => None,
            },
            match b.certificate_store_name {
                Some(st) => Some(st@),
                None => None,
            },
            b.ssl_flags,
        ),
    }
}

/// Whether a listed record's binding information parses.
pub open spec fn raw_parses(b: RawPowerShellBinding) -> bool {
    parse_binding_information(b.binding_information@) is Ok
}

/// What PowerShell printed, read leniently as UTF-8 and trimmed.
pub fn powershell_output_text(raw: &[u8]) -> (r: String)
    ensures
        r@ == trim(lossy_text(raw@)),
{
    trim_str(decode_lossy(raw).as_str())
}

/// Whether a listing holds several records (a JSON array) rather than one object.
pub fn powershell_output_is_list(text: &str) -> (r: bool)
    ensures
        r == (text@.len() > 0 && text@[0] == '['),
{
    let chars = to_chars(text);
    chars.len() > 0 && chars[0] == '['
}

/// The issue of a listing that is not the JSON expected.
pub fn powershell_parse_failure(detail: &str) -> (r: IisIssue)
    ensures
        r.kind == IisIssueKind::ProviderError,
        r.message@ == "Could not parse IIS binding output: "@ + detail@,
{
    let mut message = "Could not parse IIS binding output: ".to_owned();
    push_str(&mut message, detail);
    IisIssue { kind: IisIssueKind::ProviderError, message }
}

/// The bindings of a listing, in order; the first record whose binding information does not
/// parse stops it with that record's issue.
pub fn bindings_from_powershell(raws: Vec<RawPowerShellBinding>) -> (r: Result<Vec<IisBindingRecord>, IisIssue>)
    ensures
        (forall|i: int| 0 <= i < raws@.len() ==> raw_parses(#[trigger] raws@[i])) ==> (r matches Ok(v) && v@.len()
            == raws@.len() && forall|i: int| 0 <= i < raws@.len() ==> (#[trigger] v@[i])@ == raw_binding_view(raws@[i])),
        (exists|i: int| 0 <= i < raws@.len() && !raw_parses(#[trigger] raws@[i])) ==> r is Err,
        r matches Err(issue) ==> exists|i: int|
            0 <= i < raws@.len() && !raw_parses(#[trigger] raws@[i]) && (forall|j: int| 0 <= j < i ==> raw_parses(raws@[j]))
                && issue.kind == IisIssueKind::UnsupportedBindingShape && issue.message@ == binding_error_message(
                parse_binding_information(raws@[i].binding_information@)->Err_0,
                raws@[i].binding_information@,
            ),
{
    let mut out: Vec<IisBindingRecord> = Vec::new();
    let mut i: usize = 0;
    while i < raws.len()
        invariant
            i <= raws@.len(),
            out@.len() == i,
            forall|k: int| 0 <= k < i ==> raw_parses(#[trigger] raws@[k]),
            forall|k: int| 0 <= k < i ==> (#[trigger] out@[k])@ == raw_binding_view(raws@[k]),
        decreases raws@.len() - i,
    {
        let b = &raws[i];
        let hash = match &b.certificate_hash {
            Some(h) => Some(h.clone()),
            None => None,
        };
        let store = match &b.certificate_store_name {
            Some(st) => Some(st.clone()),
            None => None,
        };
        match binding_from_powershell(
            b.site_name.as_str(),
            b.protocol.as_str(),
            b.binding_information.as_str(),
            hash,
            store,
            b.ssl_flags,
        ) {
            Ok(binding) => {
                let ghost prev = out@;
                out.push(binding);
                proof {
                    assert(raw_parses(raws@[i as int]));
                    assert forall|k: int| 0 <= k < i + 1 implies (#[trigger] out@[k])@ == raw_binding_view(raws@[k]) by {
                        if k < i {
                            assert(out@[k] == prev[k]);
                        }
                    }
                }
            },
            Err(issue) => {
                return Err(issue);
            },
        }
        i = i + 1;
    }
    Ok(out)
}

/// A reason as one line: every line break becomes a space.
pub open spec fn reason_line(reason: Seq<char>) -> Seq<char> {
    reason.map_values(|c: char| if c == '\n' { ' ' } else { c })
}

fn one_line(reason: &str) -> (r: String)
    ensures
        r@ == reason_line(reason@),
{
    let chars = to_chars(reason);
    let mut out = String::new();
    let mut i: usize = 0;
    while i < chars.len()
        invariant
            i <= chars.len(),
            chars@ == reason@,
            out@ == reason_line(chars@.subrange(0, i as int)),
        decreases chars.len() - i,
    {
        let c = chars[i];
        assert(reason_line(chars@.subrange(0, i + 1)) =~= reason_line(chars@.subrange(0, i as int)).push(
            if c == '\n' { ' ' } else { c },
        ));
        if c == '\n' {
            push_char(&mut out, ' ');
        } else {
            push_char(&mut out, c);
        }
        i = i + 1;
    }
    assert(chars@.subrange(0, chars@.len() as int) =~= chars@);
    out
}

/// The script that an elevated PowerShell runs for a batch of IIS changes: it states the
/// reason, runs the batch, and records `0` in the status file on success, or the error's
/// message in the error file and `1` in the status file on failure.
pub open spec fn elevated_script_text(
    reason: Seq<char>,
    script: Seq<char>,
    status_path: Seq<char>,
    error_path: Seq<char>,
) -> Seq<char> {
    "\n$ErrorActionPreference = 'Stop'\ntry {\n  # Cadder reason: "@ + reason_line(reason) + "\n  "@ + script
        + "\n  Set-Content -LiteralPath '"@ + ps_escaped(status_path) + "' -Value '0'\n  exit 0\n} catch {\n  Set-Content -LiteralPath '"@
        + ps_escaped(error_path) + "' -Value $_.Exception.Message\n  Set-Content -LiteralPath '"@ + ps_escaped(status_path)
        + "' -Value '1'\n  exit 1\n}\n"@
}

/// The script that an elevated PowerShell runs for a batch of IIS changes.
pub fn elevated_batch_script(reason: &str, script: &str, status_path: &str, error_path: &str) -> (r: String)
    ensures
        r@ == elevated_script_text(reason@, script@, status_path@, error_path@),
{
    let mut r = "\n$ErrorActionPreference = 'Stop'\ntry {\n  # Cadder reason: ".to_owned();
    push_str(&mut r, one_line(reason).as_str());
    push_str(&mut r, "\n  ");
    push_str(&mut r, script);
    push_str(&mut r, "\n  Set-Content -LiteralPath '");
    push_str(&mut r, ps_escape(status_path).as_str());
    push_str(&mut r, "' -Value '0'\n  exit 0\n} catch {\n  Set-Content -LiteralPath '");
    push_str(&mut r, ps_escape(error_path).as_str());
    push_str(&mut r, "' -Value $_.Exception.Message\n  Set-Content -LiteralPath '");
    push_str(&mut r, ps_escape(status_path).as_str());
    push_str(&mut r, "' -Value '1'\n  exit 1\n}\n");
    r
}

/// The command that asks for administrator approval and runs a script file in an elevated
/// PowerShell, exiting with its exit code.
pub open spec fn elevation_command_text(script_path: Seq<char>) -> Seq<char> {
    "$ErrorActionPreference = 'Stop'; $p = Start-Process -FilePath 'powershell' -Verb RunAs -Wait -PassThru -ArgumentList @('-NoProfile','-ExecutionPolicy','Bypass','-File','"@
        + ps_escaped(script_path) + "'); exit $p.ExitCode"@
}

/// The command that runs a script file in an elevated PowerShell.
pub fn elevation_command(script_path: &str) -> (r: String)
    ensures
        r@ == elevation_command_text(script_path@),
{
    let mut r = "$ErrorActionPreference = 'Stop'; $p = Start-Process -FilePath 'powershell' -Verb RunAs -Wait -PassThru -ArgumentList @('-NoProfile','-ExecutionPolicy','Bypass','-File','".to_owned();
    push_str(&mut r, ps_escape(script_path).as_str());
    push_str(&mut r, "'); exit $p.ExitCode");
    r
}

/// Whether lowered output says that the operator turned the approval prompt down.
pub open spec fn elevation_cancelled(lower: Seq<char>) -> bool {
    contains_text(lower, "canceled by the user"@) || contains_text(lower, "cancelled by the user"@)
        || contains_text(lower, "operation canceled"@)
}

/// The trimmed error and standard output of a process, the non-empty ones joined by a line
/// break.
pub open spec fn output_parts_text(stderr: Seq<u8>, stdout: Seq<u8>) -> Seq<char> {
    let e = trim(lossy_text(stderr));
    let o = trim(lossy_text(stdout));
    if e.len() == 0 {
        o
    } else if o.len() == 0 {
        e
    } else {
        e + "\n"@ + o
    }
}

/// What an elevated batch that failed reports: the recorded error message when it is not
/// blank, else its process output.
pub open spec fn elevated_failure_message(error_text: Option<Seq<char>>, stderr: Seq<u8>, stdout: Seq<u8>) -> Seq<char> {
    if error_text is Some && trim(error_text->0).len() > 0 {
        error_text->0
    } else {
        output_parts_text(stderr, stdout)
    }
}

/// The outcome of an elevated batch: success when the elevated process succeeded; a denial
/// when its message says the approval was cancelled; a fixed message when there is no
/// message at all; otherwise the message read as PowerShell error output.
pub open spec fn elevated_outcome(
    succeeded: bool,
    error_text: Option<Seq<char>>,
    stderr: Seq<u8>,
    stdout: Seq<u8>,
) -> Result<(), (IisIssueKind, Seq<char>)> {
    let message = elevated_failure_message(error_text, stderr, stdout);
    if succeeded {
        Ok(())
    } else if elevation_cancelled(ascii_lowercase(message)) {
        Err((IisIssueKind::ElevationDenied, "Administrator approval was denied."@))
    } else if message.len() == 0 {
        Err((IisIssueKind::ProviderError, "Elevated IIS mutation failed without diagnostic output."@))
    } else {
        Err(powershell_issue(vstd::utf8::encode_utf8(message)))
    }
}

fn output_parts(stderr: &[u8], stdout: &[u8]) -> (r: String)
    ensures
        r@ == output_parts_text(stderr@, stdout@),
{
    let e = trim_str(decode_lossy(stderr).as_str());
    let o = trim_str(decode_lossy(stdout).as_str());
    let e_len = to_chars(e.as_str()).len();
    let o_len = to_chars(o.as_str()).len();
    if e_len == 0 {
        o
    } else if o_len == 0 {
        e
    } else {
        let mut r = e;
        push_str(&mut r, "\n");
        push_str(&mut r, o.as_str());
        r
    }
}

/// Decides the outcome of an elevated IIS batch from whether the elevated process
/// succeeded, the error message it recorded (if the file could be read), and its output.
pub fn elevated_batch_outcome(succeeded: bool, error_text: Option<String>, stderr: &[u8], stdout: &[u8]) -> (r:
    Result<(), IisIssue>)
    ensures
        (match r {
            Ok(_) => Ok(()),
            Err(issue) => Err((issue.kind, issue.message@)),
        }) == elevated_outcome(
            succeeded,
            match error_text {
                Some(t) => Some(t@),
                None => None,
            },
            stderr@,
            stdout@,
        ),
{
    if succeeded {
        return Ok(());
    }
    let message = match error_text {
        Some(text) => {
            let blank = to_chars(trim_str(text.as_str()).as_str()).len() == 0;
            if blank {
                output_parts(stderr, stdout)
            } else {
                text
            }
        },
        None => output_parts(stderr, stdout),
    };
    let chars = to_chars(message.as_str());
    let lower = to_ascii_lowercase(&chars);
    if has_text(&lower, "canceled by the user") || has_text(&lower, "cancelled by the user") || has_text(
        &lower,
        "operation canceled",
    ) {
        return Err(IisIssue { kind: IisIssueKind::ElevationDenied, message: "Administrator approval was denied.".to_owned() });
    }
    if chars.len() == 0 {
        return Err(
            IisIssue {
                kind: IisIssueKind::ProviderError,
                message: "Elevated IIS mutation failed without diagnostic output.".to_owned(),
            },
        );
    }
    Err(classify_powershell_error(message.as_str().as_bytes()))
}

} // verus!
