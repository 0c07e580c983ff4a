//! The compatibility contract of the Caddy executable that the daemon pins: the lowest
//! supported version, the modules it must provide and the probe revision it was checked with.

use vstd::prelude::*;
use crate::text::{push_str, u64_to_decimal, decimal_digits};

verus! {

/// The revision of the compatibility probe that pinned images must have been checked with.
pub const CADDY_COMPATIBILITY_PROBE_REVISION: &'static str = "cadder-v1-probe-1";

/// The lowest Caddy release that Cadder supports.
pub const MINIMUM_CADDY_VERSION: &'static str = "2.11.3";

/// The modules that a supported Caddy build provides, in order.
pub open spec fn required_modules() -> Seq<Seq<char>> {
    seq![
        "http"@,
        "http.encoders.gzip"@,
        "http.encoders.zstd"@,
        "http.handlers.encode"@,
        "http.handlers.file_server"@,
        "http.handlers.headers"@,
        "http.handlers.reverse_proxy"@,
        "http.handlers.rewrite"@,
        "http.handlers.static_response"@,
        "http.handlers.subroute"@,
        "http.matchers.header"@,
        "http.matchers.host"@,
        "http.matchers.method"@,
        "http.matchers.path"@,
        "http.matchers.query"@,
        "http.reverse_proxy.transport.http"@,
        "pki"@,
        "tls"@,
        "tls.issuance.internal"@,
    ]
}

/// The view of a list of strings.
pub open spec fn names_view(v: Seq<String>) -> Seq<Seq<char>> {
    v.map_values(|s: String| s@)
}

/// The required module names, in order.
pub fn required_caddy_modules() -> (r: Vec<String>)
    ensures
        names_view(r@) == required_modules(),
{
    let r: Vec<String> = vec![
        "http".to_owned(),
        "http.encoders.gzip".to_owned(),
        "http.encoders.zstd".to_owned(),
        "http.handlers.encode".to_owned(),
        "http.handlers.file_server".to_owned(),
        "http.handlers.headers".to_owned(),
        "http.handlers.reverse_proxy".to_owned(),
        "http.handlers.rewrite".to_owned(),
        "http.handlers.static_response".to_owned(),
        "http.handlers.subroute".to_owned(),
        "http.matchers.header".to_owned(),
        "http.matchers.host".to_owned(),
        "http.matchers.method".to_owned(),
        "http.matchers.path".to_owned(),
        "http.matchers.query".to_owned(),
        "http.reverse_proxy.transport.http".to_owned(),
        "pki".to_owned(),
        "tls".to_owned(),
        "tls.issuance.internal".to_owned(),
    ];
    assert(names_view(r@) =~= required_modules());
    r
}

/// Where the daemon found the Caddy executable it pinned.
#[derive(Debug, Clone, Copy, PartialEq, Eq, Structural)]
pub enum CaddyImageSource {
    ExplicitDaemonOverride,
    PortableConfiguration,
    UserConfiguration,
    SystemConfiguration,
    Path,
    TestFixture,
}

/// How a source is named in messages.
pub open spec fn source_description(source: CaddyImageSource) -> Seq<char> {
    match source {
        CaddyImageSource::ExplicitDaemonOverride => "explicit daemon override"@,
        CaddyImageSource::PortableConfiguration => "portable configuration"@,
        CaddyImageSource::UserConfiguration => "per-user configuration"@,
        CaddyImageSource::SystemConfiguration => "system configuration"@,
        CaddyImageSource::Path => "PATH"@,
        CaddyImageSource::TestFixture => "test fixture"@,
    }
}

impl CaddyImageSource {
    /// The name of the source in messages.
    pub fn description(self) -> (r: &'static str)
        ensures
            r@ == source_description(self),
    {
        match self {
            CaddyImageSource::ExplicitDaemonOverride => "explicit daemon override",
            CaddyImageSource::PortableConfiguration => "portable configuration",
            CaddyImageSource::UserConfiguration => "per-user configuration",
            CaddyImageSource::SystemConfiguration => "system configuration",
            CaddyImageSource::Path => "PATH",
            CaddyImageSource::TestFixture => "test fixture",
        }
    }
}

/// A semantic version as reported by a Caddy build: its release numbers and its
/// pre-release and build labels (empty when absent).
#[derive(Debug, Clone)]
pub struct CaddyVersion {
    pub major: u64,
    pub minor: u64,
    pub patch: u64,
    pub pre: String,
    pub build: String,
}

/// Semantic-version precedence against the minimum release 2.11.3: a higher release, or
/// 2.11.3 itself without a pre-release label (a pre-release sorts before its release).
pub open spec fn at_least_minimum(v: CaddyVersion) -> bool {
    ||| v.major > 2
    ||| v.major == 2 && v.minor > 11
    ||| v.major == 2 && v.minor == 11 && v.patch > 3
    ||| v.major == 2 && v.minor == 11 && v.patch == 3 && v.pre@.len() == 0
}

/// A version that Cadder supports: at least the minimum and below 3.0.0.
pub open spec fn supported_version(v: CaddyVersion) -> bool {
    at_least_minimum(v) && v.major < 3
}

/// The text of a version: `major.minor.patch`, then `-pre` and `+build` where present.
pub open spec fn version_text(v: CaddyVersion) -> Seq<char> {
    decimal_digits(v.major as nat) + "."@ + decimal_digits(v.minor as nat) + "."@
        + decimal_digits(v.patch as nat) + (if v.pre@.len() == 0 {
        Seq::empty()
    } else {
        "-"@ + v.pre@
    }) + (if v.build@.len() == 0 {
        Seq::empty()
    } else {
        "+"@ + v.build@
    })
}

impl CaddyVersion {
    /// The version as text.
    pub fn to_text(&self) -> (r: String)
        ensures
            r@ == version_text(*self),
    {
        let mut r = u64_to_decimal(self.major);
        push_str(&mut r, ".");
        let minor = u64_to_decimal(self.minor);
        push_str(&mut r, minor.as_str());
        push_str(&mut r, ".");
        let patch = u64_to_decimal(self.patch);
        push_str(&mut r, patch.as_str());
        proof {
            reveal_strlit("-");
            reveal_strlit("+");
        }
        if self.pre.as_str().unicode_len() != 0 {
            push_str(&mut r, "-");
            push_str(&mut r, self.pre.as_str());
        }
        if self.build.as_str().unicode_len() != 0 {
            push_str(&mut r, "+");
            push_str(&mut r, self.build.as_str());
        }
        proof {
            assert(r@ =~= version_text(*self));
        }
        r
    }
}

/// The required modules that `modules` lacks, in order.
pub open spec fn missing_modules(modules: Set<Seq<char>>) -> Seq<Seq<char>> {
    required_modules().filter(|m: Seq<char>| !modules.contains(m))
}

/// The names joined by `", "`.
pub open spec fn join_names(names: Seq<Seq<char>>) -> Seq<char>
    decreases names.len(),
{
    if names.len() == 0 {
        Seq::empty()
    } else if names.len() == 1 {
        names[0]
    } else {
        join_names(names.drop_last()) + ", "@ + names.last()
    }
}

/// Why a pinned image is incompatible, in the order the checks run.
pub open spec fn compatibility_error(version: CaddyVersion, modules: Set<Seq<char>>, probe_revision: Seq<char>) -> Option<Seq<char>> {
    if !supported_version(version) {
        Some(
            "unsupported Caddy version "@ + version_text(version)
                + "; Cadder requires >=2.11.3, <3.0.0"@,
        )
    } else if missing_modules(modules).len() > 0 {
        Some("Caddy is missing required modules: "@ + join_names(missing_modules(modules)))
    } else if probe_revision != "cadder-v1-probe-1"@ {
        Some(
            "Caddy compatibility probe revision changed from cadder-v1-probe-1 to "@
                + probe_revision,
        )
    } else {
        None
    }
}

/// Whether `name` is one of `modules`.
fn contains_name(modules: &Vec<String>, name: &String) -> (r: bool)
    ensures
        r == names_view(modules@).contains(name@),
{
    let mut i: usize = 0;
    while i < modules.len()
        invariant
            i <= modules.len(),
            forall|j: int| 0 <= j < i ==> modules@[j]@ != name@,
        decreases modules.len() - i,
    {
        if modules[i] == *name {
            assert(names_view(modules@)[i as int] == name@);
            return true;
        }
        i = i + 1;
    }
    proof {
        if names_view(modules@).contains(name@) {
            let j = choose|j: int| 0 <= j < names_view(modules@).len() && names_view(modules@)[j] == name@;
            assert(modules@[j]@ == name@);
        }
    }
    false
}

/// Checks the metadata that a Caddy image was pinned with: its version, its modules and the
/// probe revision; the first failed check gives the message.
pub fn validate_compatibility_metadata(version: &CaddyVersion, modules: &Vec<String>, probe_revision: &str) -> (r: Result<(), String>)
    ensures
        match compatibility_error(*version, names_view(modules@).to_set(), probe_revision@) {
            None => r is Ok,
            Some(message) => r matches Err(m) && m@ == message,
        },
{
    let major_ok = version.major > 2 || (version.major == 2 && version.minor > 11) || (version.major
        == 2 && version.minor == 11 && version.patch > 3) || (version.major == 2 && version.minor
        == 11 && version.patch == 3 && version.pre.as_str().unicode_len() == 0);
    if !(major_ok && version.major < 3) {
        let mut message = "unsupported Caddy version ".to_owned();
        let text = version.to_text();
        push_str(&mut message, text.as_str());
        push_str(&mut message, "; Cadder requires >=2.11.3, <3.0.0");
        return Err(message);
    }
    let ghost set = names_view(modules@).to_set();
    let required = required_caddy_modules();
    let mut missing = String::new();
    let mut count: usize = 0;
    let mut i: usize = 0;
    while i < required.len()
        invariant
            i <= required.len(),
            names_view(required@) == required_modules(),
            set == names_view(modules@).to_set(),
            count == required_modules().subrange(0, i as int).filter(|m: Seq<char>| !set.contains(m)).len(),
            missing@ == join_names(required_modules().subrange(0, i as int).filter(|m: Seq<char>| !set.contains(m))),
            count <= i,
        decreases required.len() - i,
    {
        let ghost prefix = required_modules().subrange(0, i as int);
        assert(required_modules().subrange(0, i + 1) =~= prefix.push(required_modules()[i as int]));
        proof {
            reveal(Seq::filter);
            assert(required_modules().subrange(0, i + 1).drop_last() =~= prefix);
            assert(names_view(required@)[i as int] == required@[i as int]@);
        }
        let present = contains_name(modules, &required[i]);
        proof {
            assert(present == set.contains(required@[i as int]@)) by {
                assert(names_view(modules@).contains(required@[i as int]@) == set.contains(required@[i as int]@));
            }
        }
        if !present {
            let ghost old_filtered = prefix.filter(|m: Seq<char>| !set.contains(m));
            let ghost new_filtered = old_filtered.push(required@[i as int]@);
            assert(new_filtered.drop_last() =~= old_filtered);
            if count > 0 {
                push_str(&mut missing, ", ");
            }
            push_str(&mut missing, required[i].as_str());
            count = count + 1;
        }
        i = i + 1;
    }
    assert(required_modules().subrange(0, required_modules().len() as int) =~= required_modules());
    if count > 0 {
        let mut message = "Caddy is missing required modules: ".to_owned();
        push_str(&mut message, missing.as_str());
        return Err(message);
    }
    if probe_revision.to_owned() != "cadder-v1-probe-1".to_owned() {
        let mut message = "Caddy compatibility probe revision changed from cadder-v1-probe-1 to ".to_owned();
        push_str(&mut message, probe_revision);
        return Err(message);
    }
    Ok(())
}

/// The identity of an executable file that survives renames: its device and inode on Unix,
/// its volume serial number and 128-bit file identifier on Windows.
#[derive(Debug, Clone, Copy, PartialEq, Eq, Structural)]
pub enum CaddyFileIdentity {
    Unix { device: u64, inode: u64 },
    Windows { volume_serial: u64, file_id: u128 },
}

/// What a pinned Caddy image was recorded as: where it lives, which file it is and the
/// SHA-256 digest of its contents.
#[derive(Debug, Clone)]
pub struct ImageEvidence {
    pub canonical_path: String,
    pub identity: CaddyFileIdentity,
    pub digest: Vec<u8>,
}

/// The execute bits of a Unix mode.
pub const EXECUTE_BITS: u32 = 0o111;

/// A pinned image on Unix must be a regular file, executable by someone, and still linked
/// into the file system.
pub fn unix_image_file_check(is_file: bool, mode: u32, links: u64) -> (r: Result<(), String>)
    ensures
        !is_file ==> (r matches Err(m) && m@ == "pinned Caddy image is not a regular file"@),
        is_file && mode & EXECUTE_BITS == 0 ==> (r matches Err(m) && m@ == "pinned Caddy image is not executable"@),
        is_file && mode & EXECUTE_BITS != 0 && links == 0 ==> (r matches Err(m) && m@
            == "pinned Caddy image has no filesystem links"@),
        r is Ok <==> (is_file && mode & EXECUTE_BITS != 0 && links > 0),
{
    if !is_file {
        return Err("pinned Caddy image is not a regular file".to_owned());
    }
    if mode & EXECUTE_BITS == 0 {
        return Err("pinned Caddy image is not executable".to_owned());
    }
    if links == 0 {
        return Err("pinned Caddy image has no filesystem links".to_owned());
    }
    Ok(())
}

/// The Windows attribute of a directory.
pub const FILE_ATTRIBUTE_DIRECTORY: u32 = 0x10;

/// The Windows attribute of a reparse point (a link).
pub const FILE_ATTRIBUTE_REPARSE_POINT: u32 = 0x400;

/// A pinned image on Windows must be neither a directory nor a reparse point.
pub fn windows_image_attributes_check(attributes: u32) -> (r: Result<(), String>)
    ensures
        attributes & FILE_ATTRIBUTE_DIRECTORY != 0 ==> (r matches Err(m) && m@ == "pinned Caddy image is not a regular file"@),
        attributes & FILE_ATTRIBUTE_DIRECTORY == 0 && attributes & FILE_ATTRIBUTE_REPARSE_POINT != 0 ==> (r matches Err(m)
            && m@ == "pinned Caddy image is a Windows reparse point"@),
        r is Ok <==> (attributes & FILE_ATTRIBUTE_DIRECTORY == 0 && attributes & FILE_ATTRIBUTE_REPARSE_POINT == 0),
{
    if attributes & FILE_ATTRIBUTE_DIRECTORY != 0 {
        return Err("pinned Caddy image is not a regular file".to_owned());
    }
    if attributes & FILE_ATTRIBUTE_REPARSE_POINT != 0 {
        return Err("pinned Caddy image is a Windows reparse point".to_owned());
    }
    Ok(())
}

fn same_bytes(a: &Vec<u8>, b: &Vec<u8>) -> (r: bool)
    ensures
        r == (a@ == b@),
{
    if a.len() != b.len() {
        return false;
    }
    let mut i: usize = 0;
    while i < a.len()
        invariant
            i <= a.len(),
            a.len() == b.len(),
            forall|k: int| 0 <= k < i ==> a@[k] == b@[k],
        decreases a.len() - i,
    {
        if a[i] != b[i] {
            return false;
        }
        i = i + 1;
    }
    assert(a@ =~= b@);
    true
}

/// The message of a pinned image whose file is no longer the one recorded.
pub open spec fn identity_changed(path: Seq<char>) -> Seq<char> {
    "pinned Caddy file identity changed at "@ + path
}

/// The message of a pinned image whose contents changed.
pub open spec fn digest_changed(path: Seq<char>) -> Seq<char> {
    "pinned Caddy digest changed at "@ + path
}

/// A freshly opened image is the pinned one: the same file, with the same contents.
pub fn check_same_image(pinned: &ImageEvidence, identity: CaddyFileIdentity, digest: &Vec<u8>) -> (r: Result<(), String>)
    ensures
        identity != pinned.identity ==> (r matches Err(m) && m@ == identity_changed(pinned.canonical_path@)),
        identity == pinned.identity && digest@ != pinned.digest@ ==> (r matches Err(m) && m@ == digest_changed(
            pinned.canonical_path@,
        )),
        r is Ok <==> (identity == pinned.identity && digest@ == pinned.digest@),
{
    if identity != pinned.identity {
        let mut m = "pinned Caddy file identity changed at ".to_owned();
        push_str(&mut m, pinned.canonical_path.as_str());
        return Err(m);
    }
    if !same_bytes(digest, &pinned.digest) {
        let mut m = "pinned Caddy digest changed at ".to_owned();
        push_str(&mut m, pinned.canonical_path.as_str());
        return Err(m);
    }
    Ok(())
}

/// Re-checks a pinned image before it runs: its path must still resolve to the same
/// canonical path, and the file found there must be the pinned one.
pub fn check_reverified_image(pinned: &ImageEvidence, current_path: &str, identity: CaddyFileIdentity, digest: &Vec<u8>) -> (r: Result<(), String>)
    ensures
        current_path@ != pinned.canonical_path@ ==> (r matches Err(m) && m@ == "pinned Caddy canonical path changed from "@
            + pinned.canonical_path@ + " to "@ + current_path@),
        r is Ok <==> (current_path@ == pinned.canonical_path@ && identity == pinned.identity && digest@ == pinned.digest@),
        current_path@ == pinned.canonical_path@ && identity != pinned.identity ==> (r matches Err(m) && m@
            == identity_changed(pinned.canonical_path@)),
        current_path@ == pinned.canonical_path@ && identity == pinned.identity && digest@ != pinned.digest@ ==> (r matches Err(
            m,
        ) && m@ == digest_changed(pinned.canonical_path@)),
{
    if pinned.canonical_path.as_str().to_owned() != current_path.to_owned() {
        let mut m = "pinned Caddy canonical path changed from ".to_owned();
        push_str(&mut m, pinned.canonical_path.as_str());
        push_str(&mut m, " to ");
        push_str(&mut m, current_path);
        return Err(m);
    }
    check_same_image(pinned, identity, digest)
}

} // verus!
