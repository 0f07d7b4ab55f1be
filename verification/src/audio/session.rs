//! Session identifiers and the names shown for audio sessions.

use vstd::prelude::*;
use vstd::string::StrSliceExecFns;
use crate::text::{
    before_first, decimal, decimal_string, file_name_of, first_index_of, has_prefix, last_segment,
    lemma_before_first_shape, lemma_last_segment_shape,
};

verus! {

/// The prefix of an NT device path (`\Device\HarddiskVolume3\...`).
pub open spec fn device_path_prefix() -> Seq<char> {
    seq!['\\', 'D', 'e', 'v', 'i', 'c', 'e', '\\']
}

/// `s` begins with the two characters `|#`.
pub open spec fn has_hash_marker(s: Seq<char>) -> bool {
    s.len() >= 2 && s[0] == '|' && s[1] == '#'
}

/// What a session identifier says of the executable behind it.
///
/// The part before the first `%` is looked at; without a backslash it names no path.
/// A leading `|#` is dropped; an NT device path gives only its file name, any other
/// path is given whole.
pub open spec fn session_path_hint(session_id: Seq<char>) -> Option<Seq<char>> {
    let part = before_first(session_id, '%');
    if part.contains('\\') {
        let clean = if has_hash_marker(part) {
            part.skip(2)
        } else {
            part
        };
        if has_prefix(clean, device_path_prefix()) {
            Some(last_segment(clean, '\\'))
        } else {
            Some(clean)
        }
    } else {
        None
    }
}

fn starts_with_device_path(s: &str) -> (r: bool)
    ensures
        r == has_prefix(s@, device_path_prefix()),
{
    let n = s.unicode_len();
    if n < 8 {
        return false;
    }
    let r = s.get_char(0) == '\\' && s.get_char(1) == 'D' && s.get_char(2) == 'e'
        && s.get_char(3) == 'v' && s.get_char(4) == 'i' && s.get_char(5) == 'c'
        && s.get_char(6) == 'e' && s.get_char(7) == '\\';
    proof {
        let p = device_path_prefix();
        if r {
            assert(s@.take(8) =~= p);
        } else {
            if s@.take(8) == p {
                assert(s@[0] == s@.take(8)[0] && s@[1] == s@.take(8)[1] && s@[2] == s@.take(8)[2]
                    && s@[3] == s@.take(8)[3] && s@[4] == s@.take(8)[4] && s@[5] == s@.take(8)[5]
                    && s@[6] == s@.take(8)[6] && s@[7] == s@.take(8)[7]);
            }
        }
    }
    r
}

/// Reads the executable path that an audio session identifier carries
/// (see `session_path_hint`).
pub fn parse_path_from_session_id(session_id: &str) -> (res: Option<String>)
    ensures
        res.deep_view() == session_path_hint(session_id@),
{
    let end = first_index_of(session_id, '%');
    let part = session_id.substring_char(0, end);
    assert(part@ == before_first(session_id@, '%'));
    let slash = first_index_of(part, '\\');
    if slash == part.unicode_len() {
        return None;
    }
    let n = part.unicode_len();
    let clean = if n >= 2 && part.get_char(0) == '|' && part.get_char(1) == '#' {
        part.substring_char(2, n)
    } else {
        part
    };
    assert(clean@ == (if has_hash_marker(part@) { part@.skip(2) } else { part@ }));
    if starts_with_device_path(clean) {
        Some(file_name_of(clean))
    } else {
        Some(String::from_str(clean))
    }
}

/// The value of `AudioSessionState` for a session that has expired.
pub const SESSION_STATE_EXPIRED: i32 = 2;

/// The value of `AudioSessionState` for an inactive session, assumed where the state
/// cannot be read.
pub const SESSION_STATE_INACTIVE: i32 = 0;

/// A session is listed unless its state (inactive where it cannot be read) is expired.
pub fn session_state_listed(state: Option<i32>) -> (listed: bool)
    ensures
        listed == match state {
            Some(s) => s != SESSION_STATE_EXPIRED,
            None => SESSION_STATE_INACTIVE != SESSION_STATE_EXPIRED,
        },
{
    let s = match state {
        Some(s) => s,
        None => SESSION_STATE_INACTIVE,
    };
    s != SESSION_STATE_EXPIRED
}

/// Whether a session whose process id was read as `reported` (`None` where it could
/// not be read, which counts as `u32::MAX`) belongs to the process `target`.
pub fn session_matches(reported: Option<u32>, target: u32) -> (m: bool)
    ensures
        m == match reported {
            Some(p) => p == target,
            None => target == u32::MAX,
        },
{
    let pid = match reported {
        Some(p) => p,
        None => u32::MAX,
    };
    pid == target
}

/// The path hint of a session identifier that can name a file on disk: one that still
/// holds a backslash.
pub open spec fn session_path_candidate_spec(session_id: Seq<char>) -> Option<Seq<char>> {
    match session_path_hint(session_id) {
        Some(p) => if p.contains('\\') {
            Some(p)
        } else {
            None
        },
        None => None,
    }
}

/// The path of a session's executable that its identifier suggests, where that is a
/// path with a backslash (whether the file exists is for the caller to check).
pub fn session_path_candidate(session_id: &str) -> (res: Option<String>)
    ensures
        res.deep_view() == session_path_candidate_spec(session_id@),
{
    match parse_path_from_session_id(session_id) {
        Some(p) => {
            let n = p.as_str().unicode_len();
            if first_index_of(p.as_str(), '\\') < n {
                Some(p)
            } else {
                None
            }
        },
        None => None,
    }
}

/// The name of an executable: its display name where it has one, else its product
/// name, else the file name of its path.
pub open spec fn executable_name(
    path: Seq<char>,
    display_name: Option<Seq<char>>,
    product_name: Option<Seq<char>>,
) -> Seq<char> {
    match display_name {
        Some(d) => d,
        None => match product_name {
            Some(p) => p,
            None => last_segment(path, '\\'),
        },
    }
}

/// Names the executable at `path` from what its version information gave
/// (see `executable_name`).
pub fn name_from_path(path: &str, display_name: Option<String>, product_name: Option<String>) -> (name: String)
    ensures
        name@ == executable_name(path@, display_name.deep_view(), product_name.deep_view()),
{
    match display_name {
        Some(d) => d,
        None => match product_name {
            Some(p) => p,
            None => file_name_of(path),
        },
    }
}

/// The name given to a process that has no other: `Application (PID: <pid>)`.
pub open spec fn pid_label(pid: u32) -> Seq<char> {
    "Application (PID: "@ + decimal(pid as nat) + ")"@
}

/// A display name that a session reports is used when it is not empty and is not an
/// indirect resource string (one that begins with `@`).
pub open spec fn usable_display_name(name: Seq<char>) -> bool {
    name.len() > 0 && name[0] != '@'
}

/// The name under which a session is listed.
///
/// The system sounds session (process 0) is `System Sounds`; another takes the name of
/// its executable where one was found, else the display name that the session reports
/// where that is usable, else `Application (PID: <pid>)`.
pub open spec fn session_name(pid: u32, name_found: Option<Seq<char>>, session_display: Seq<char>) -> Seq<char> {
    if pid == 0 {
        "System Sounds"@
    } else {
        match name_found {
            Some(n) => n,
            None => if usable_display_name(session_display) {
                session_display
            } else {
                pid_label(pid)
            },
        }
    }
}

/// Writes `Application (PID: <pid>)`.
pub fn pid_label_string(pid: u32) -> (s: String)
    ensures
        s@ == pid_label(pid),
{
    let mut s = String::from_str("Application (PID: ");
    let digits = decimal_string(pid);
    s.append(digits.as_str());
    s.append(")");
    s
}

/// Names a session (see `session_name`). `session_display` is the display name that the
/// session reports; it is read only where the name depends on it.
pub fn resolve_session_name(pid: u32, name_found: Option<String>, session_display: &str) -> (name: String)
    ensures
        name@ == session_name(pid, name_found.deep_view(), session_display@),
{
    if pid == 0 {
        return String::from_str("System Sounds");
    }
    match name_found {
        Some(n) => n,
        None => {
            let n = session_display.unicode_len();
            if n > 0 && session_display.get_char(0) != '@' {
                String::from_str(session_display)
            } else {
                pid_label_string(pid)
            }
        },
    }
}

/// For a process other than the system sounds session whose executable gave no name, the
/// display name that the session reports is its name exactly when it is not empty and
/// does not begin with `@` (an indirect resource string); otherwise the session is named
/// `Application (PID: <pid>)`, which is never such a resource string.
pub proof fn lemma_display_name_choice(pid: u32, session_display: Seq<char>)
    requires
        pid != 0,
    ensures
        session_display.len() > 0 && session_display[0] != '@' ==> session_name(pid, None, session_display)
            == session_display,
        session_display.len() > 0 && session_display[0] == '@' ==> session_name(pid, None, session_display)
            != session_display && session_name(pid, None, session_display)[0] == 'A',
        session_display.len() == 0 ==> session_name(pid, None, session_display) == pid_label(pid),
{
    reveal_strlit("Application (PID: ");
    let l = pid_label(pid);
    assert(l[0] == 'A');
}

/// A session of a process other than the system sounds session that has an executable
/// name is listed under that name, whatever display name it reports; the system sounds
/// session is always `System Sounds`.
pub proof fn lemma_found_name_wins(pid: u32, found: Seq<char>, session_display: Seq<char>)
    ensures
        pid != 0 ==> session_name(pid, Some(found), session_display) == found,
        session_name(0, Some(found), session_display) == "System Sounds"@,
        session_name(0, None, session_display) == "System Sounds"@,
{
}

/// A session identifier names a path exactly when the part before its first `%` holds a
/// backslash. The path named is the end of that part, so it never holds a `%`; it is the
/// whole part where the part starts with neither `|#` nor `\Device\`, and for an NT device
/// path it is a bare file name, without any backslash.
pub proof fn lemma_session_path_hint_shape(sid: Seq<char>)
    ensures
        session_path_hint(sid) is Some <==> before_first(sid, '%').contains('\\'),
        session_path_hint(sid) matches Some(p) ==> {
            &&& !p.contains('%')
            &&& exists|k: int| 0 <= k <= before_first(sid, '%').len() && p == #[trigger] before_first(sid, '%').skip(k)
        },
        session_path_hint(sid) matches Some(p) ==> {
            let part = before_first(sid, '%');
            &&& !has_hash_marker(part) && !has_prefix(part, device_path_prefix()) ==> p == part
            &&& has_prefix(part, device_path_prefix()) ==> !p.contains('\\')
            &&& has_hash_marker(part) && has_prefix(part.skip(2), device_path_prefix()) ==> !p.contains('\\')
        },
{
    let part = before_first(sid, '%');
    lemma_before_first_shape(sid, '%');
    if part.contains('\\') {
        let clean = if has_hash_marker(part) {
            part.skip(2)
        } else {
            part
        };
        let k0: int = if has_hash_marker(part) {
            2
        } else {
            0
        };
        assert(clean == part.skip(k0));
        if has_hash_marker(part) && has_prefix(part, device_path_prefix()) {
            assert(part[0] == '|');
            assert(part.take(8)[0] == device_path_prefix()[0]);
        }
        let p = session_path_hint(sid).unwrap();
        if has_prefix(clean, device_path_prefix()) {
            lemma_last_segment_shape(clean, '\\');
            let j = clean.len() - p.len();
            assert(p == part.skip(k0 + j)) by {
                assert(p =~= part.skip(k0 + j));
            }
        } else {
            assert(p == part.skip(k0));
        }
        assert(!p.contains('%')) by {
            if p.contains('%') {
                let i = choose|i: int| 0 <= i < p.len() && p[i] == '%';
                let k = choose|k: int| 0 <= k <= part.len() && p == #[trigger] part.skip(k);
                assert(part[k + i] == '%');
            }
        }
    }
}

/// An executable is named by its display name where it has one, else by its product
/// name, else by its file name: the end of its path after the last backslash, the whole
/// path where it has none.
pub proof fn lemma_executable_name_order(path: Seq<char>, display: Seq<char>, product: Seq<char>)
    ensures
        executable_name(path, Some(display), Some(product)) == display,
        executable_name(path, Some(display), None) == display,
        executable_name(path, None, Some(product)) == product,
        !executable_name(path, None, None).contains('\\'),
        executable_name(path, None, None) == path.skip(path.len() - executable_name(path, None, None).len()),
        !path.contains('\\') ==> executable_name(path, None, None) == path,
{
    lemma_last_segment_shape(path, '\\');
    if !path.contains('\\') {
        let n = executable_name(path, None, None);
        if n.len() < path.len() {
            assert(path[path.len() - n.len() - 1] == '\\');
        }
        assert(path.skip(0) =~= path);
    }
}

} // verus!
