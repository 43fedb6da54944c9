//! Process identity resolution and foreground tracking.
//!
//! The operating-system lookups themselves (full-access and reduced-privilege
//! image-name queries, the foreground-window query) are performed by the
//! surrounding application; their results come in here as plain values, and
//! everything that is decided from them is verified.

use vstd::prelude::*;

use crate::text::dec_str_of;
use crate::text::decimal_string;
use crate::text::lower_of;
use crate::text::lowercase;
use crate::text::str_eq;

verus! {

/// The part of `path` after the last path separator; empty when the path
/// ends in a separator or is empty.
pub open spec fn file_name_of(path: Seq<char>) -> Seq<char>
    decreases path.len(),
{
    if path.len() == 0 {
        Seq::empty()
    } else if path.last() == '\\' || path.last() == '/' {
        Seq::empty()
    } else {
        file_name_of(path.drop_last()).push(path.last())
    }
}

proof fn lemma_file_name_suffix(path: Seq<char>, i: int)
    requires
        0 <= i <= path.len(),
        forall|k: int| i <= k < path.len() ==> path[k] != '\\' && path[k] != '/',
        i == 0 || path[i - 1] == '\\' || path[i - 1] == '/',
    ensures
        file_name_of(path) == path.skip(i),
    decreases path.len(),
{
    if i == path.len() {
        assert(path.skip(i) =~= Seq::empty());
    } else {
        let shorter = path.drop_last();
        lemma_file_name_suffix(shorter, i);
        assert(file_name_of(path) == shorter.skip(i).push(path.last()));
        assert(shorter.skip(i).push(path.last()) =~= path.skip(i));
    }
}

/// The executable file name at the end of `path`.
pub fn file_name_part(path: &str) -> (r: String)
    ensures
        r@ == file_name_of(path@),
{
    let n = path.unicode_len();
    let mut i: usize = n;
    while i > 0
        invariant_except_break
            i <= n,
            n == path@.len(),
            forall|k: int| i <= k < n ==> path@[k] != '\\' && path@[k] != '/',
        ensures
            i <= n,
            n == path@.len(),
            forall|k: int| i <= k < n ==> path@[k] != '\\' && path@[k] != '/',
            i == 0 || path@[i - 1] == '\\' || path@[i - 1] == '/',
        decreases i,
    {
        let c = path.get_char(i - 1);
        if c == '\\' || c == '/' {
            break;
        }
        i = i - 1;
    }
    proof {
        lemma_file_name_suffix(path@, i as int);
        assert(path@.subrange(i as int, n as int) =~= path@.skip(i as int));
    }
    let part = path.substring_char(i, n);
    part.to_owned()
}

/// The generated name for a process whose executable cannot be resolved.
pub open spec fn placeholder_name(pid: u32) -> Seq<char> {
    "Process "@ + dec_str_of(pid as int)
}

/// Builds the placeholder name, e.g. for process id 42.
pub fn make_placeholder_name(pid: u32) -> (r: String)
    ensures
        r@ == placeholder_name(pid),
{
    let mut s: String = "Process ".to_owned();
    let digits = decimal_string(pid);
    s.append(digits.as_str());
    s
}

/// Lowercase names of processes that only play operating-system sounds.
pub open spec fn is_system_sound_name(lower: Seq<char>) -> bool {
    ||| lower == "audiodg.exe"@
    ||| lower == "svchost.exe"@
    ||| lower == "dwm.exe"@
    ||| lower == "systemsounds.exe"@
    ||| lower == "rundll32.exe"@
}

/// `name`, or the "System Sounds" label when its lowercase form is a known
/// system-sound process.
pub open spec fn normalized_system_name(name: Seq<char>) -> Seq<char> {
    if is_system_sound_name(lower_of(name)) {
        "System Sounds"@
    } else {
        name
    }
}

/// Relabels known system-sound processes to "System Sounds" for uniform
/// display and policy handling.
pub fn normalize_system_process_name(name: String) -> (r: String)
    ensures
        r@ == normalized_system_name(name@),
{
    let lower = lowercase(name.as_str());
    if str_eq(lower.as_str(), "audiodg.exe") || str_eq(lower.as_str(), "svchost.exe") || str_eq(
        lower.as_str(),
        "dwm.exe",
    ) || str_eq(lower.as_str(), "systemsounds.exe") || str_eq(lower.as_str(), "rundll32.exe") {
        "System Sounds".to_owned()
    } else {
        name
    }
}

/// Helper for `resolved_name`: the reduced-privilege tier.
pub open spec fn resolved_name_fallback(pid: u32, limited: Option<Seq<char>>) -> Seq<char> {
    match limited {
        Some(p) => if file_name_of(p).len() > 0 {
            normalized_system_name(file_name_of(p))
        } else {
            placeholder_name(pid)
        },
        None => placeholder_name(pid),
    }
}

/// What the two-tier resolver returns: the normalized executable name from
/// the first lookup that yields a path with a file name, or a generated
/// placeholder when both lookups fail.
pub open spec fn resolved_name(pid: u32, primary: Option<Seq<char>>, limited: Option<Seq<char>>) -> Seq<char> {
    match primary {
        Some(p) => if file_name_of(p).len() > 0 {
            normalized_system_name(file_name_of(p))
        } else {
            resolved_name_fallback(pid, limited)
        },
        None => resolved_name_fallback(pid, limited),
    }
}

/// Resolves an executable name for `pid` from the results of an ordered pair
/// of lookups: a full-access query first, then a reduced-privilege query for
/// protected processes.  Returns a generated placeholder only if both fail.
pub fn resolve_process_name(pid: u32, primary: Option<String>, limited: Option<String>) -> (r:
    String)
    ensures
        r@ == resolved_name(
            pid,
            match primary {
                Some(p) => Some(p@),
                None => None,
            },
            match limited {
                Some(p) => Some(p@),
                None => None,
            },
        ),
{
    if let Some(p) = primary {
        let name = file_name_part(p.as_str());
        if name.as_str().unicode_len() > 0 {
            return normalize_system_process_name(name);
        }
    }
    if let Some(p) = limited {
        let name = file_name_part(p.as_str());
        if name.as_str().unicode_len() > 0 {
            return normalize_system_process_name(name);
        }
    }
    make_placeholder_name(pid)
}

/// Information about a process.
#[derive(Debug, Clone, PartialEq, Eq, Hash)]
pub struct ProcessInfo {
    pub pid: u32,
    pub name: String,
    pub exe_path: Option<String>,
}

/// Repeatedly trims a trailing ".exe" from an already-lowercased name.
pub open spec fn trim_exe(low: Seq<char>) -> Seq<char>
    decreases low.len(),
{
    if low.len() >= 4 && low.skip(low.len() - 4) == ".exe"@ {
        trim_exe(low.take(low.len() - 4))
    } else {
        low
    }
}

impl ProcessInfo {
    /// Builds process information from a process id and the image path that
    /// the operating-system lookup returned for it, if any.
    pub fn from_pid(pid: u32, image_path: Option<String>) -> (r: Option<ProcessInfo>)
        ensures
            match image_path {
                None => r is None,
                Some(path) => r matches Some(info) && info.pid == pid && info.exe_path
                    == Some(path) && info.name@ == (if file_name_of(path@).len() > 0 {
                    file_name_of(path@)
                } else {
                    placeholder_name(pid)
                }),
            },
    {
        match image_path {
            None => None,
            Some(path) => {
                let name = file_name_part(path.as_str());
                let name = if name.as_str().unicode_len() > 0 {
                    name
                } else {
                    make_placeholder_name(pid)
                };
                Some(ProcessInfo { pid, name, exe_path: Some(path) })
            },
        }
    }

    /// The executable name, e.g. "chrome.exe".
    pub fn exe_name(&self) -> (r: &str)
        ensures
            r@ == self.name@,
    {
        self.name.as_str()
    }

    /// The name normalized for comparison: lowercase, trailing ".exe"
    /// removed.
    pub fn normalized_name(&self) -> (r: String)
        ensures
            r@ == trim_exe(lower_of(self.name@)),
    {
        let low = lowercase(self.name.as_str());
        trim_exe_exec(low)
    }
}

/// Removes every trailing ".exe" from an already-lowercased name.
fn trim_exe_exec(low: String) -> (r: String)
    ensures
        r@ == trim_exe(low@),
    decreases low@.len(),
{
    let n = low.as_str().unicode_len();
    if n >= 4 {
        let tail = low.as_str().substring_char(n - 4, n);
        if str_eq(tail, ".exe") {
            let head = low.as_str().substring_char(0, n - 4);
            proof {
                assert(low@.subrange(n - 4, n as int) =~= low@.skip(n - 4));
                assert(low@.subrange(0, n - 4) =~= low@.take(n - 4));
            }
            return trim_exe_exec(head.to_owned());
        }
    }
    low
}

/// Tracker for foreground-window changes.  The current foreground process
/// id is polled by the surrounding application and handed in.
pub struct ForegroundTracker {
    pub last_foreground_pid: Option<u32>,
}

/// Equality of two optional process ids.
pub fn pid_opt_eq(a: Option<u32>, b: Option<u32>) -> (r: bool)
    ensures
        r == (a == b),
{
    match (a, b) {
        (Some(x), Some(y)) => x == y,
        (None, None) => true,
        _ => false,
    }
}

impl ForegroundTracker {
    /// Starts with no known foreground process.
    pub fn new() -> (r: ForegroundTracker)
        ensures
            r.last_foreground_pid is None,
    {
        ForegroundTracker { last_foreground_pid: None }
    }

    /// Records the polled foreground process id; returns it only on a
    /// transition, and nothing when it is unchanged.
    pub fn check_foreground_change(&mut self, current: Option<u32>) -> (r: Option<u32>)
        ensures
            final(self).last_foreground_pid == current,
            r == (if current != old(self).last_foreground_pid {
                current
            } else {
                None::<u32>
            }),
    {
        if !pid_opt_eq(current, self.last_foreground_pid) {
            self.last_foreground_pid = current;
            current
        } else {
            None
        }
    }

    /// The last polled foreground process id.
    pub fn last_foreground(&self) -> (r: Option<u32>)
        ensures
            r == self.last_foreground_pid,
    {
        self.last_foreground_pid
    }
}

impl Default for ForegroundTracker {
    /// Same as `new`: no known foreground process.
    fn default() -> (r: ForegroundTracker)
        ensures
            r.last_foreground_pid is None,
    {
        ForegroundTracker::new()
    }
}

/// Whether `pid` owns the foreground window, given the polled foreground
/// process id.
pub fn is_foreground_process(pid: u32, foreground: Option<u32>) -> (r: bool)
    ensures
        r == (foreground == Some(pid)),
{
    match foreground {
        Some(f) => f == pid,
        None => false,
    }
}

} // verus!
