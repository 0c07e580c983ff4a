//! Choosing the real Caddy executable: the names it may have, what `caddy version` and
//! `caddy list-modules --json` report, Scoop shim descriptors, and the help shown when no
//! executable can be resolved.

use vstd::prelude::*;
use crate::autostart::Platform;
use crate::caddy_image::{CaddyImageSource, CaddyVersion, source_description};
use crate::config::{RealCaddySelection, SelectionView, selection_view};
use crate::codec::utf8_to_string;
use crate::domain::{is_whitespace, leading_ws, trim, trim_str, char_is_whitespace};
use crate::json::{Json, JsonValue, jsons_of, lemma_jsons_of};
use crate::caddy_routes::{get, get_key};
use crate::ordered::{insert_sorted, name_set, sorted_of, strictly_sorted, lemma_is_sorted_of};
use crate::logs::strings_view;
use crate::text::{push_str, to_chars, from_chars, slice_chars};
use vstd::utf8::{valid_utf8, decode_utf8};

verus! {

/// The file names that the Cadder Caddy shim is installed under next to the daemon.
pub open spec fn shim_names(platform: Platform) -> Seq<Seq<char>> {
    match platform {
        Platform::Windows => seq!["cadder-caddy.exe"@, "caddy.exe"@],
        Platform::Unix => seq!["cadder-caddy"@, "caddy"@],
    }
}

/// The file names of the Cadder Caddy shim, which is never taken for the real Caddy.
pub fn shim_binary_names(platform: Platform) -> (r: Vec<&'static str>)
    ensures
        r@.map_values(|s: &'static str| s@) == shim_names(platform),
{
    let r: Vec<&'static str> = match platform {
        Platform::Windows => vec!["cadder-caddy.exe", "caddy.exe"],
        Platform::Unix => vec!["cadder-caddy", "caddy"],
    };
    assert(r@.map_values(|s: &'static str| s@) =~= shim_names(platform));
    r
}

/// Whether a file name has an extension: a dot after its first character.
pub open spec fn has_extension(name: Seq<char>) -> bool {
    exists|i: int| 1 <= i < name.len() && name[i] == '.'
}

/// The file name a command is looked up under in each PATH directory: on Windows `.exe`
/// is added to a name without an extension.
pub open spec fn candidate_name(command: Seq<char>, platform: Platform) -> Seq<char> {
    match platform {
        Platform::Windows => if has_extension(command) {
            command
        } else {
            command + ".exe"@
        },
        Platform::Unix => command,
    }
}

/// The file name a command is looked up under.
pub fn executable_candidate_name(command: &str, platform: Platform) -> (r: String)
    ensures
        r@ == candidate_name(command@, platform),
{
    match platform {
        Platform::Unix => {
            let r = command.to_owned();
            assert(r@ == command@);
            assert(r@ == candidate_name(command@, platform));
            r
        },
        Platform::Windows => {
            let chars = to_chars(command);
            let mut i: usize = 1;
            let mut found = false;
            while i < chars.len()
                invariant
                    1 <= i <= chars.len() || chars.len() == 0,
                    chars@ == command@,
                    found == exists|k: int| 1 <= k < i && k < chars@.len() && chars@[k] == '.',
                decreases chars.len() - i,
            {
                if chars[i] == '.' {
                    found = true;
                }
                i = i + 1;
            }
            proof {
                if found {
                    let k = choose|k: int| 1 <= k < i && k < chars@.len() && chars@[k] == '.';
                    assert(1 <= k < command@.len());
                    assert(command@[k] == '.');
                    assert(has_extension(command@));
                } else {
                    assert forall|k: int| 1 <= k < command@.len() implies command@[k] != '.' by {
                        assert(chars@[k] == command@[k]);
                    }
                    assert(!has_extension(command@));
                }
            }
            let mut r = command.to_owned();
            if !found {
                push_str(&mut r, ".exe");
                assert(r@ == command@ + ".exe"@);
            } else {
                assert(r@ == command@);
            }
            assert(r@ == candidate_name(command@, platform));
            r
        },
    }
}

/// The length of the leading run of non-whitespace characters.
pub open spec fn token_len(s: Seq<char>) -> nat
    decreases s.len(),
{
    if s.len() > 0 && !is_whitespace(s[0]) {
        1 + token_len(s.drop_first())
    } else {
        0
    }
}

/// The first whitespace-separated token, if there is one.
pub open spec fn first_token(s: Seq<char>) -> Option<Seq<char>> {
    let rest = s.subrange(leading_ws(s) as int, s.len() as int);
    if rest.len() == 0 {
        None
    } else {
        Some(rest.subrange(0, token_len(rest) as int))
    }
}

proof fn lemma_leading_ws_at(s: Seq<char>, k: int)
    requires
        0 <= k <= s.len(),
        forall|j: int| 0 <= j < k ==> is_whitespace(#[trigger] s[j]),
        k == s.len() || !is_whitespace(s[k]),
    ensures
        leading_ws(s) == k,
    decreases k,
{
    if k > 0 {
        assert forall|j: int| 0 <= j < k - 1 implies is_whitespace(#[trigger] s.drop_first()[j]) by {
            assert(s.drop_first()[j] == s[j + 1]);
        }
        lemma_leading_ws_at(s.drop_first(), k - 1);
    }
}

proof fn lemma_token_len_at(s: Seq<char>, k: int)
    requires
        0 <= k <= s.len(),
        forall|j: int| 0 <= j < k ==> !is_whitespace(#[trigger] s[j]),
        k == s.len() || is_whitespace(s[k]),
    ensures
        token_len(s) == k,
    decreases k,
{
    if k > 0 {
        assert forall|j: int| 0 <= j < k - 1 implies !is_whitespace(#[trigger] s.drop_first()[j]) by {
            assert(s.drop_first()[j] == s[j + 1]);
        }
        lemma_token_len_at(s.drop_first(), k - 1);
    }
}

/// The first whitespace-separated token of a text.
pub fn first_whitespace_token(text: &str) -> (r: Option<String>)
    ensures
        match first_token(text@) {
            Some(t) => r matches Some(x) && x@ == t,
            None => r is None,
        },
{
    let chars = to_chars(text);
    let mut start: usize = 0;
    while start < chars.len() && char_is_whitespace(chars[start])
        invariant
            start <= chars.len(),
            forall|j: int| 0 <= j < start ==> is_whitespace(#[trigger] chars@[j]),
        decreases chars.len() - start,
    {
        start = start + 1;
    }
    proof {
        lemma_leading_ws_at(chars@, start as int);
    }
    if start == chars.len() {
        return None;
    }
    let mut end: usize = start;
    while end < chars.len() && !char_is_whitespace(chars[end])
        invariant
            start <= end <= chars.len(),
            forall|j: int| start <= j < end ==> !is_whitespace(#[trigger] chars@[j]),
        decreases chars.len() - end,
    {
        end = end + 1;
    }
    proof {
        let rest = chars@.subrange(start as int, chars@.len() as int);
        assert forall|j: int| 0 <= j < end - start implies !is_whitespace(#[trigger] rest[j]) by {
            assert(rest[j] == chars@[start + j]);
        }
        if end < chars.len() {
            assert(rest[end - start] == chars@[end as int]);
        }
        lemma_token_len_at(rest, end - start);
        assert(rest.subrange(0, end - start) =~= chars@.subrange(start as int, end as int));
    }
    let token = slice_chars(&chars, start, end);
    Some(from_chars(token.as_slice()))
}

/// The release numbers, pre-release label and build label that SemVer parsing
/// (`semver::Version::parse`) finds in a text, or nothing when the text is no version.
pub uninterp spec fn semver_version(text: Seq<char>) -> Option<(u64, u64, u64, Seq<char>, Seq<char>)>;

/// Parses a SemVer version (`semver::Version::parse`), giving its release numbers and its
/// pre-release and build labels as text.
#[verifier::external_body]
fn parse_semver(text: &str) -> (r: Option<(u64, u64, u64, String, String)>)
    ensures
        match r {
            Some(v) => semver_version(text@) == Some((v.0, v.1, v.2, v.3@, v.4@)),
            None => semver_version(text@) is None,
        },
{
    match semver::Version::parse(text) {
        Ok(version) => Some(
            (version.major, version.minor, version.patch, version.pre.as_str().to_owned(), version.build.as_str().to_owned()),
        ),
        Err(_) => None,
    }
}

/// The version token of `caddy version` output: its first token without a leading `v`.
pub open spec fn version_token(text: Seq<char>) -> Option<Seq<char>> {
    match first_token(text) {
        Some(t) => Some(
            if t.len() > 0 && t[0] == 'v' {
                t.drop_first()
            } else {
                t
            },
        ),
        None => None,
    }
}

/// What reading `caddy version` output gives: the version, or why it cannot be read.
pub open spec fn caddy_version_result(output: Seq<u8>) -> Result<(u64, u64, u64, Seq<char>, Seq<char>), Seq<char>> {
    if !valid_utf8(output) {
        Err("decode caddy version output as UTF-8"@)
    } else {
        match version_token(decode_utf8(output)) {
            None => Err("caddy version returned empty output"@),
            Some(token) => match semver_version(token) {
                Some(v) => Ok(v),
                None => Err("parse Caddy semantic version `"@ + token + "`"@),
            },
        }
    }
}

/// Reads the version that `caddy version` printed.
pub fn parse_caddy_version(output: &[u8]) -> (r: Result<CaddyVersion, String>)
    ensures
        match caddy_version_result(output@) {
            Ok(v) => r matches Ok(x) && x.major == v.0 && x.minor == v.1 && x.patch == v.2 && x.pre@ == v.3
                && x.build@ == v.4,
            Err(m) => r matches Err(e) && e@ == m,
        },
{
    let text = match utf8_to_string(output) {
        Some(t) => t,
        None => {
            return Err("decode caddy version output as UTF-8".to_owned());
        },
    };
    let token = match first_whitespace_token(text.as_str()) {
        Some(t) => t,
        None => {
            return Err("caddy version returned empty output".to_owned());
        },
    };
    let chars = to_chars(token.as_str());
    let token = if chars.len() > 0 && chars[0] == 'v' {
        let rest = slice_chars(&chars, 1, chars.len());
        proof {
            assert(chars@.subrange(1, chars@.len() as int) =~= chars@.drop_first());
        }
        from_chars(rest.as_slice())
    } else {
        token
    };
    match parse_semver(token.as_str()) {
        Some(v) => Ok(CaddyVersion { major: v.0, minor: v.1, patch: v.2, pre: v.3, build: v.4 }),
        None => {
            let mut message = "parse Caddy semantic version `".to_owned();
            push_str(&mut message, token.as_str());
            push_str(&mut message, "`");
            Err(message)
        },
    }
}

/// The module name of one `list-modules --json` entry: an object with a string
/// `module_name`.
pub open spec fn module_entry_name(entry: Json) -> Option<Seq<char>> {
    match get_key(entry, "module_name"@) {
        Some(Json::Str(name)) => if entry is Object {
            Some(name)
        } else {
            None
        },
        _ => None,
    }
}

/// Whether every entry names its module.
pub open spec fn all_entries_named(entries: Seq<Json>) -> bool {
    forall|i: int| 0 <= i < entries.len() ==> #[trigger] module_entry_name(entries[i]) is Some
}

/// The non-blank module names of the entries.
pub open spec fn listed_module_names(entries: Seq<Json>) -> Set<Seq<char>> {
    Set::new(
        |name: Seq<char>| exists|i: int| 0 <= i < entries.len() && #[trigger] module_entry_name(entries[i]) == Some(name)
            && trim(name).len() > 0,
    )
}

/// What reading `list-modules --json` output gives: the sorted module names, or why it
/// cannot be read.
pub open spec fn caddy_modules_result(value: Json) -> Result<Seq<Seq<char>>, Seq<char>> {
    match value {
        Json::Array(entries) => if !all_entries_named(entries) {
            Err("decode caddy list-modules --json output"@)
        } else if listed_module_names(entries).len() == 0 {
            Err("caddy list-modules returned no module identifiers"@)
        } else {
            Ok(sorted_of(listed_module_names(entries)))
        },
        _ => Err("decode caddy list-modules --json output"@),
    }
}

/// Reads the modules that `caddy list-modules --json` listed: every entry must name its
/// module; blank names are dropped; at least one must remain.
pub fn parse_caddy_modules(value: &JsonValue) -> (r: Result<Vec<String>, String>)
    ensures
        match caddy_modules_result(value@) {
            Ok(names) => r matches Ok(v) && strings_view(v@) == names,
            Err(m) => r matches Err(e) && e@ == m,
        },
{
    let entries = match value {
        JsonValue::Array(entries) => entries,
        _ => {
            return Err("decode caddy list-modules --json output".to_owned());
        },
    };
    proof {
        lemma_jsons_of(entries@);
    }
    let ghost js = jsons_of(entries@);
    assert(value@ == Json::Array(js));
    let mut names: Vec<String> = Vec::new();
    assert(strings_view(names@) =~= Seq::<Seq<char>>::empty());
    let mut i: usize = 0;
    while i < entries.len()
        invariant
            i <= entries.len(),
            value@ == Json::Array(js),
            js == jsons_of(entries@),
            js.len() == entries@.len(),
            forall|j: int| 0 <= j < entries@.len() ==> #[trigger] js[j] == entries@[j]@,
            forall|j: int| 0 <= j < i ==> #[trigger] module_entry_name(js[j]) is Some,
            strictly_sorted(strings_view(names@)),
            name_set(names@) == Set::new(
                |name: Seq<char>| exists|k: int| 0 <= k < i && #[trigger] module_entry_name(js[k]) == Some(name)
                    && trim(name).len() > 0,
            ),
        decreases entries.len() - i,
    {
        let ghost before = name_set(names@);
        let name = match &entries[i] {
            JsonValue::Object(_) => match get(&entries[i], "module_name") {
                Some(JsonValue::Str(name)) => name,
                _ => {
                    proof {
                        assert(module_entry_name(js[i as int]) is None);
                        assert(!all_entries_named(js));
                    }
                    return Err("decode caddy list-modules --json output".to_owned());
                },
            },
            _ => {
                proof {
                    assert(module_entry_name(js[i as int]) is None);
                    assert(!all_entries_named(js));
                }
                return Err("decode caddy list-modules --json output".to_owned());
            },
        };
        assert(module_entry_name(js[i as int]) == Some(name@));
        let trimmed = trim_str(name.as_str());
        if trimmed.as_str().unicode_len() > 0 {
            insert_sorted(&mut names, name.clone());
        }
        proof {
            let target = Set::new(
                |n: Seq<char>| exists|k: int| 0 <= k < i + 1 && #[trigger] module_entry_name(js[k]) == Some(n)
                    && trim(n).len() > 0,
            );
            assert forall|n: Seq<char>| name_set(names@).contains(n) <==> target.contains(n) by {
                if target.contains(n) {
                    let k = choose|k: int| 0 <= k < i + 1 && #[trigger] module_entry_name(js[k]) == Some(n) && trim(n).len() > 0;
                    if k < i {
                        assert(before.contains(n));
                    }
                }
                if before.contains(n) {
                    let k = choose|k: int| 0 <= k < i && #[trigger] module_entry_name(js[k]) == Some(n) && trim(n).len() > 0;
                    assert(target.contains(n));
                }
            }
            assert(name_set(names@) =~= target);
        }
        i = i + 1;
    }
    proof {
        assert(listed_module_names(js) =~= name_set(names@));
    }
    proof {
        strings_view(names@).lemma_cardinality_of_empty_set_is_0();
    }
    if names.len() == 0 {
        return Err("caddy list-modules returned no module identifiers".to_owned());
    }
    proof {
        lemma_is_sorted_of(strings_view(names@));
    }
    Ok(names)
}

/// The target of a Scoop shim descriptor line `path = "..."`: spaces around the key, the
/// `=` and the quoted value are allowed; the value must not be empty.
pub open spec fn scoop_target(line: Seq<char>) -> Option<Seq<char>> {
    let t = trim(line);
    if t.len() >= 4 && t.subrange(0, 4) == "path"@ {
        let after_key = t.subrange(4, t.len() as int);
        let v = after_key.subrange(leading_ws(after_key) as int, after_key.len() as int);
        if v.len() >= 1 && v[0] == '=' {
            let q = trim(v.drop_first());
            if q.len() >= 2 && q[0] == '"' && q.last() == '"' && q.len() > 2 {
                Some(q.subrange(1, q.len() - 1))
            } else {
                None
            }
        } else {
            None
        }
    } else {
        None
    }
}

/// Reads the target of a Scoop shim descriptor line.
pub fn scoop_shim_target_value(line: &str) -> (r: Option<String>)
    ensures
        match scoop_target(line@) {
            Some(t) => r matches Some(x) && x@ == t,
            None => r is None,
        },
{
    let t = to_chars(trim_str(line).as_str());
    let key = to_chars("path");
    proof {
        reveal_strlit("path");
    }
    if t.len() < 4 || !(t[0] == 'p' && t[1] == 'a' && t[2] == 't' && t[3] == 'h') {
        proof {
            if t.len() >= 4 {
                assert(t@.subrange(0, 4) != "path"@) by {
                    if t@.subrange(0, 4) == "path"@ {
                        assert(t@.subrange(0, 4)[0] == 'p');
                        assert(t@.subrange(0, 4)[1] == 'a');
                        assert(t@.subrange(0, 4)[2] == 't');
                        assert(t@.subrange(0, 4)[3] == 'h');
                    }
                }
            }
        }
        return None;
    }
    assert(t@.subrange(0, 4) =~= "path"@);
    let after_key = slice_chars(&t, 4, t.len());
    let mut s: usize = 0;
    while s < after_key.len() && char_is_whitespace(after_key[s])
        invariant
            s <= after_key.len(),
            forall|j: int| 0 <= j < s ==> is_whitespace(#[trigger] after_key@[j]),
        decreases after_key.len() - s,
    {
        s = s + 1;
    }
    proof {
        lemma_leading_ws_at(after_key@, s as int);
    }
    if s == after_key.len() || after_key[s] != '=' {
        return None;
    }
    let rest = slice_chars(&after_key, s + 1, after_key.len());
    proof {
        let v = after_key@.subrange(s as int, after_key@.len() as int);
        assert(v.drop_first() =~= rest@);
    }
    let q = to_chars(trim_str(from_chars(rest.as_slice()).as_str()).as_str());
    if q.len() > 2 && q[0] == '"' && q[q.len() - 1] == '"' {
        let value = slice_chars(&q, 1, q.len() - 1);
        Some(from_chars(value.as_slice()))
    } else {
        None
    }
}

/// The help shown when no real Caddy executable can be resolved, with the cause.
pub open spec fn resolution_help_text(cause: Seq<char>) -> Seq<char> {
    "Cadder could not resolve a usable real Caddy executable.\n\nCause: "@ + cause
        + "\n\nConfigure real Caddy with one of these explicit sources, in precedence order:\n- an absolute --real-caddy daemon-start override\n- caddy.real_command or caddy.real_path in cadder.toml beside the Cadder executables\n- the same configuration in the per-user or system Cadder configuration\n- a native real caddy executable on PATH\n\nProject files, registration working directories, environment selectors, and shim flags never select the executable."@
}

/// The help shown when no real Caddy executable can be resolved.
pub fn resolution_help(cause: &str) -> (r: String)
    ensures
        r@ == resolution_help_text(cause@),
{
    let mut r = "Cadder could not resolve a usable real Caddy executable.\n\nCause: ".to_owned();
    push_str(&mut r, cause);
    push_str(
        &mut r,
        "\n\nConfigure real Caddy with one of these explicit sources, in precedence order:\n- an absolute --real-caddy daemon-start override\n- caddy.real_command or caddy.real_path in cadder.toml beside the Cadder executables\n- the same configuration in the per-user or system Cadder configuration\n- a native real caddy executable on PATH\n\nProject files, registration working directories, environment selectors, and shim flags never select the executable.",
    );
    r
}

/// Whether a text is exactly one whitespace-separated word.
pub open spec fn single_word(s: Seq<char>) -> bool {
    trim(s).len() > 0 && forall|i: int| 0 <= i < trim(s).len() ==> !is_whitespace(#[trigger] trim(s)[i])
}

/// A name that every platform reads as one plain path component: not empty, not `.` or
/// `..`, without separators or a drive colon.
pub open spec fn plain_program_name(s: Seq<char>) -> bool {
    s.len() > 0 && s != "."@ && s != ".."@ && forall|i: int| 0 <= i < s.len() ==> #[trigger] s[i] != '/' && s[i] != '\\' && s[i] != ':'
}

/// The kind of one component of a path, as `std::path::Component` tells them apart.
#[derive(Debug, Clone, Copy, PartialEq, Eq, Structural)]
pub enum PathComponentKind {
    Prefix,
    RootDir,
    CurDir,
    ParentDir,
    Normal,
}

/// The kinds of the components the platform reads in a path (`std::path::Path::components`).
/// The platform's path rules decide them; what holds everywhere is that a plain program
/// name is one normal component.
#[verifier::external_body]
fn path_component_kinds(text: &str) -> (r: Vec<PathComponentKind>)
    ensures
        plain_program_name(text@) ==> r@ == seq![PathComponentKind::Normal],
{
    std::path::Path::new(text)
        .components()
        .map(|component| match component {
            std::path::Component::Prefix(_) => PathComponentKind::Prefix,
            std::path::Component::RootDir => PathComponentKind::RootDir,
            std::path::Component::CurDir => PathComponentKind::CurDir,
            std::path::Component::ParentDir => PathComponentKind::ParentDir,
            std::path::Component::Normal(_) => PathComponentKind::Normal,
        })
        .collect()
}

/// Whether a path's components are exactly one normal component.
pub fn is_single_normal(kinds: &Vec<PathComponentKind>) -> (r: bool)
    ensures
        r == (kinds@ == seq![PathComponentKind::Normal]),
{
    let r = kinds.len() == 1 && kinds[0] == PathComponentKind::Normal;
    proof {
        if r {
            assert(kinds@ =~= seq![PathComponentKind::Normal]);
        }
    }
    r
}

/// The message that rejects a configured command that is not a single program name.
pub open spec fn command_name_message(command: Seq<char>) -> Seq<char> {
    "configured real-Caddy command `"@ + command + "` must be a single program name"@
}

/// Accepts a configured command that is one word and one plain path component, given
/// whether the platform reads it as a single component.
pub fn command_name_check(command: &str, single_component: bool) -> (r: Result<(), String>)
    ensures
        (single_word(command@) && single_component) <==> r is Ok,
        r matches Err(m) ==> m@ == command_name_message(command@),
{
    let t = to_chars(trim_str(command).as_str());
    let mut word = t.len() > 0;
    let mut i: usize = 0;
    while i < t.len()
        invariant
            i <= t.len(),
            t@ == trim(command@),
            word == (t.len() > 0 && forall|k: int| 0 <= k < i ==> !is_whitespace(#[trigger] t@[k])),
        decreases t.len() - i,
    {
        if char_is_whitespace(t[i]) {
            word = false;
        }
        i = i + 1;
    }
    if word && single_component {
        Ok(())
    } else {
        let mut message = "configured real-Caddy command `".to_owned();
        push_str(&mut message, command);
        push_str(&mut message, "` must be a single program name");
        Err(message)
    }
}

/// Checks that a configured command is a single program name on this platform.
pub fn validate_command_name(command: &str) -> (r: Result<(), String>)
    ensures
        (single_word(command@) && plain_program_name(command@)) ==> r is Ok,
        !single_word(command@) ==> r is Err,
        r matches Err(m) ==> m@ == command_name_message(command@),
{
    let kinds = path_component_kinds(command);
    let single = is_single_normal(&kinds);
    command_name_check(command, single)
}

/// The message that rejects a selected path that is not absolute.
pub open spec fn relative_selection_message(source: CaddyImageSource, path: Seq<char>) -> Seq<char> {
    source_description(source) + " selects relative real-Caddy path "@ + path + "; use an absolute path"@
}

/// Accepts a selected executable path that is absolute, given whether the platform calls it
/// absolute.
pub fn selected_path_check(path: &str, source: CaddyImageSource, is_absolute: bool) -> (r: Result<(), String>)
    ensures
        is_absolute <==> r is Ok,
        r matches Err(m) ==> m@ == relative_selection_message(source, path@),
{
    if is_absolute {
        Ok(())
    } else {
        let mut message = source.description().to_owned();
        push_str(&mut message, " selects relative real-Caddy path ");
        push_str(&mut message, path);
        push_str(&mut message, "; use an absolute path");
        Err(message)
    }
}

/// Checks that a selected executable path is absolute on this platform.
pub fn validate_selected_path(path: &str, source: CaddyImageSource) -> (r: Result<(), String>)
    ensures
        crate::path_trust::plainly_relative(path@) ==> r is Err,
        r matches Err(m) ==> m@ == relative_selection_message(source, path@),
{
    let absolute = crate::path_trust::path_is_absolute(path);
    selected_path_check(path, source, absolute)
}

/// The message when a command is on no PATH directory.
pub open spec fn command_not_found_message(command: Seq<char>) -> Seq<char> {
    "configured real-Caddy command `"@ + command + "` was not found on PATH"@
}

/// The error when a command is on no PATH directory.
pub fn command_not_found(command: &str) -> (r: String)
    ensures
        r@ == command_not_found_message(command@),
{
    let mut message = "configured real-Caddy command `".to_owned();
    push_str(&mut message, command);
    push_str(&mut message, "` was not found on PATH");
    message
}

/// Where the real Caddy executable comes from, in precedence order.
pub enum ResolutionPlan {
    /// The explicit daemon override, an executable path.
    Override(String),
    /// The first configuration file that selects an executable, and its source.
    Configured(RealCaddySelection, CaddyImageSource),
    /// A configuration file could not be read or selects both a command and a path.
    Failed(String),
    /// Nothing selects an executable: look for `caddy` on PATH.
    SearchPath,
}

/// The view of a plan.
pub enum PlanView {
    Override(Seq<char>),
    Configured(SelectionView, CaddyImageSource),
    Failed(Seq<char>),
    SearchPath,
}

/// The view of a configuration lookup: what reading one source's file gave (a missing file
/// selects nothing).
pub open spec fn lookup_view(l: (CaddyImageSource, Result<Option<RealCaddySelection>, String>)) -> (
    CaddyImageSource,
    Result<Option<SelectionView>, Seq<char>>,
) {
    (
        l.0,
        match l.1 {
            Ok(Some(s)) => Ok(Some(selection_view(s))),
            Ok(None) => Ok(None),
            Err(m) => Err(m@),
        },
    )
}

/// The plan of the configuration lookups: the first that fails or selects decides.
pub open spec fn lookups_plan(lookups: Seq<(CaddyImageSource, Result<Option<SelectionView>, Seq<char>>)>) -> PlanView
    decreases lookups.len(),
{
    if lookups.len() == 0 {
        PlanView::SearchPath
    } else {
        match lookups[0].1 {
            Err(m) => PlanView::Failed(m),
            Ok(Some(s)) => PlanView::Configured(s, lookups[0].0),
            Ok(None) => lookups_plan(lookups.drop_first()),
        }
    }
}

/// Where the real Caddy executable comes from: the explicit override first, then the
/// configuration files in the order given (portable, per-user, system), then PATH.
pub open spec fn resolution_plan(
    explicit: Option<Seq<char>>,
    lookups: Seq<(CaddyImageSource, Result<Option<SelectionView>, Seq<char>>)>,
) -> PlanView {
    match explicit {
        Some(p) => PlanView::Override(p),
        None => lookups_plan(lookups),
    }
}

/// The view of a plan.
pub open spec fn plan_view(p: ResolutionPlan) -> PlanView {
    match p {
        ResolutionPlan::Override(path) => PlanView::Override(path@),
        ResolutionPlan::Configured(s, source) => PlanView::Configured(selection_view(s), source),
        ResolutionPlan::Failed(m) => PlanView::Failed(m@),
        ResolutionPlan::SearchPath => PlanView::SearchPath,
    }
}

/// Decides where the real Caddy executable comes from, given the explicit override and
/// what reading each configuration source gave.
pub fn plan_resolution(
    explicit: Option<&str>,
    lookups: &Vec<(CaddyImageSource, Result<Option<RealCaddySelection>, String>)>,
) -> (r: ResolutionPlan)
    ensures
        plan_view(r) == resolution_plan(
            match explicit {
                Some(p) => Some(p@),
                None => None,
            },
            lookups@.map_values(|l: (CaddyImageSource, Result<Option<RealCaddySelection>, String>)| lookup_view(l)),
        ),
{
    if let Some(p) = explicit {
        return ResolutionPlan::Override(p.to_owned());
    }
    let ghost lv = lookups@.map_values(|l: (CaddyImageSource, Result<Option<RealCaddySelection>, String>)| lookup_view(l));
    let mut i: usize = 0;
    assert(lv.subrange(0, lv.len() as int) =~= lv);
    while i < lookups.len()
        invariant
            i <= lookups.len(),
            explicit is None,
            lv == lookups@.map_values(|l: (CaddyImageSource, Result<Option<RealCaddySelection>, String>)| lookup_view(l)),
            lookups_plan(lv) == lookups_plan(lv.subrange(i as int, lv.len() as int)),
        decreases lookups.len() - i,
    {
        let ghost rest = lv.subrange(i as int, lv.len() as int);
        assert(rest[0] == lookup_view(lookups@[i as int]));
        match &lookups[i].1 {
            Err(m) => {
                return ResolutionPlan::Failed(m.clone());
            },
            Ok(Some(RealCaddySelection::Command(c))) => {
                return ResolutionPlan::Configured(RealCaddySelection::Command(c.clone()), lookups[i].0);
            },
            Ok(Some(RealCaddySelection::Path(p))) => {
                return ResolutionPlan::Configured(RealCaddySelection::Path(p.clone()), lookups[i].0);
            },
            Ok(None) => {},
        }
        assert(rest.drop_first() =~= lv.subrange(i + 1, lv.len() as int));
        i = i + 1;
    }
    ResolutionPlan::SearchPath
}

} // verus!
