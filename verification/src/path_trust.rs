//! The checks on a path that precede trusting it as a Caddy executable or configuration: it
//! must be absolute, and on Windows it must not name a batch script.

use vstd::prelude::*;
use crate::text::{push_str, to_chars, eq_ignore_ascii_case, chars_eq_ignore_ascii_case, slice_chars};
use crate::autostart::Platform;

verus! {

/// A path that no platform treats as absolute: it starts with neither a separator nor a
/// drive prefix such as `C:`.
pub open spec fn plainly_relative(path: Seq<char>) -> bool {
    path.len() == 0 || (path[0] != '/' && path[0] != '\\' && !(path.len() >= 2 && path[1]
        == ':'))
}

/// Asks the platform whether `path` is absolute (`std::path::Path::is_absolute`).
///
/// The answer depends on the platform the library runs on; what holds everywhere is that a
/// path starting with neither a separator nor a drive prefix is relative.
#[verifier::external_body]
pub(crate) fn path_is_absolute(path: &str) -> (r: bool)
    ensures
        plainly_relative(path@) ==> !r,
{
    std::path::Path::new(path).is_absolute()
}

/// The message that rejects a relative path.
pub open spec fn relative_path_message(description: Seq<char>) -> Seq<char> {
    description + " must use an absolute path"@
}

/// Accepts an absolute path; a relative one is rejected with a message naming what it was
/// meant to be.
pub fn absolute_path_check(is_absolute: bool, description: &str) -> (r: Result<(), String>)
    ensures
        is_absolute ==> r is Ok,
        !is_absolute ==> (r matches Err(m) && m@ == relative_path_message(description@)),
{
    if is_absolute {
        Ok(())
    } else {
        let mut message = description.to_owned();
        push_str(&mut message, " must use an absolute path");
        Err(message)
    }
}

/// Requires `path` to be absolute on this platform.
pub fn require_absolute(path: &str, description: &str) -> (r: Result<(), String>)
    ensures
        plainly_relative(path@) ==> (r matches Err(m) && m@ == relative_path_message(description@)),
        r matches Err(m) ==> m@ == relative_path_message(description@),
{
    let is_absolute = path_is_absolute(path);
    absolute_path_check(is_absolute, description)
}

/// The index just past the last Windows separator, or 0.
pub open spec fn file_name_start(path: Seq<char>) -> int
    decreases path.len(),
{
    if path.len() == 0 {
        0
    } else if path.last() == '/' || path.last() == '\\' {
        path.len() as int
    } else {
        file_name_start(path.drop_last())
    }
}

/// The extension of a Windows file name: the text after its last dot, unless that dot
/// opens the name.
pub open spec fn windows_extension(path: Seq<char>) -> Option<Seq<char>> {
    let name = path.subrange(file_name_start(path), path.len() as int);
    match last_dot(name) {
        Some(i) => if i > 0 {
            Some(name.subrange(i + 1, name.len() as int))
        } else {
            None
        },
        None => None,
    }
}

/// The index of the last `.` in `s`.
pub open spec fn last_dot(s: Seq<char>) -> Option<int>
    decreases s.len(),
{
    if s.len() == 0 {
        None
    } else if s.last() == '.' {
        Some(s.len() - 1)
    } else {
        last_dot(s.drop_last())
    }
}

/// A Windows batch script: its extension is `bat` or `cmd`, in any case.
pub open spec fn is_command_script(path: Seq<char>) -> bool {
    match windows_extension(path) {
        Some(ext) => eq_ignore_ascii_case(ext, "bat"@) || eq_ignore_ascii_case(ext, "cmd"@),
        None => false,
    }
}

proof fn lemma_file_name_start(path: Seq<char>, k: int)
    requires
        0 <= k <= path.len(),
        forall|j: int| k <= j < path.len() ==> path[j] != '/' && path[j] != '\\',
        k == 0 || path[k - 1] == '/' || path[k - 1] == '\\',
    ensures
        file_name_start(path) == k,
    decreases path.len(),
{
    if path.len() > k {
        lemma_file_name_start(path.drop_last(), k);
    }
}

proof fn lemma_last_dot(s: Seq<char>, k: int)
    requires
        -1 <= k < s.len(),
        forall|j: int| k < j < s.len() ==> s[j] != '.',
        k >= 0 ==> s[k] == '.',
    ensures
        last_dot(s) == (if k >= 0 {
            Some(k)
        } else {
            None::<int>
        }),
    decreases s.len(),
{
    if s.len() > 0 && s.len() - 1 > k {
        lemma_last_dot(s.drop_last(), k);
    }
}

/// The message that rejects a batch script.
pub open spec fn script_message(description: Seq<char>) -> Seq<char> {
    description + " must be a native executable, not a batch script"@
}

/// Rejects a Windows batch script where a native executable is required.
pub fn reject_command_script(path: &str, description: &str, platform: Platform) -> (r: Result<(), String>)
    ensures
        platform == Platform::Windows && is_command_script(path@) ==> (r matches Err(m) && m@
            == script_message(description@)),
        !(platform == Platform::Windows && is_command_script(path@)) ==> r is Ok,
{
    if platform != Platform::Windows {
        return Ok(());
    }
    let chars = to_chars(path);
    let mut start: usize = chars.len();
    while start > 0 && chars[start - 1] != '/' && chars[start - 1] != '\\'
        invariant
            start <= chars.len(),
            forall|j: int| start <= j < chars.len() ==> chars@[j] != '/' && chars@[j] != '\\',
        decreases start,
    {
        start = start - 1;
    }
    proof {
        lemma_file_name_start(chars@, start as int);
    }
    let name = slice_chars(&chars, start, chars.len());
    let mut dot: usize = name.len();
    while dot > 0 && name[dot - 1] != '.'
        invariant
            dot <= name.len(),
            forall|j: int| dot <= j < name.len() ==> name@[j] != '.',
        decreases dot,
    {
        dot = dot - 1;
    }
    proof {
        lemma_last_dot(name@, dot - 1);
    }
    let mut script = false;
    if dot > 1 {
        let ext = slice_chars(&name, dot, name.len());
        let bat = to_chars("bat");
        let cmd = to_chars("cmd");
        script = chars_eq_ignore_ascii_case(&ext, &bat) || chars_eq_ignore_ascii_case(&ext, &cmd);
    }
    if script {
        let mut message = description.to_owned();
        push_str(&mut message, " must be a native executable, not a batch script");
        Err(message)
    } else {
        Ok(())
    }
}

/// The checks on a Caddy executable path that come before the filesystem is consulted: on
/// Windows it must not be a batch script, and it must be absolute.
pub fn validate_caddy_executable(path: &str, platform: Platform) -> (r: Result<(), String>)
    ensures
        platform == Platform::Windows && is_command_script(path@) ==> (r matches Err(m) && m@
            == script_message("Caddy executable"@)),
        !(platform == Platform::Windows && is_command_script(path@)) && plainly_relative(path@)
            ==> (r matches Err(m) && m@ == relative_path_message("Caddy executable"@)),
        r matches Err(m) ==> m@ == script_message("Caddy executable"@)
            || m@ == relative_path_message("Caddy executable"@),
{
    match reject_command_script(path, "Caddy executable", platform) {
        Ok(()) => {},
        Err(message) => {
            return Err(message);
        },
    }
    require_absolute(path, "Caddy executable")
}

} // verus!
