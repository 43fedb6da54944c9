//! Audio sessions and the session cache.
//!
//! The expensive enumeration of playback sessions is an operating-system
//! call made by the surrounding application; the labelling of each raw
//! session, the deduplication by process id and the cache bookkeeping are
//! decided here.  Mute and unmute requests are answered with the action the
//! application must perform through its cached mute-control handle; a
//! request for a process id that is not cached is a benign no-op.

use vstd::prelude::*;

use crate::process::file_name_of;
use crate::process::normalized_system_name;
use crate::text::lower_of;
use crate::text::lowercase;
use crate::text::str_eq;

verus! {

/// An audio session as one enumeration pass reports it.
#[derive(Debug)]
pub struct AudioSession {
    pub process_id: u32,
    pub process_name: String,
    pub display_name: String,
    pub is_muted: bool,
}

impl Clone for AudioSession {
    /// An exact copy.
    fn clone(&self) -> (r: Self)
        ensures
            r == *self,
    {
        AudioSession {
            process_id: self.process_id,
            process_name: self.process_name.clone(),
            display_name: self.display_name.clone(),
            is_muted: self.is_muted,
        }
    }
}

/// A mute-control call the application must perform: set the mute flag of
/// the session owned by `pid` to `mute`.
#[derive(Clone, Copy, PartialEq, Eq, Structural, Debug)]
pub struct MuteAction {
    pub pid: u32,
    pub mute: bool,
}

/// The process ids of a session list, in order.
pub open spec fn session_pids(list: Seq<AudioSession>) -> Seq<u32> {
    list.map_values(|s: AudioSession| s.process_id)
}

/// No process id occurs twice.
pub open spec fn distinct_pids(pids: Seq<u32>) -> bool {
    forall|i: int, j: int| 0 <= i < pids.len() && 0 <= j < pids.len() && i != j ==> pids[i]
        != pids[j]
}

/// Some session of the list belongs to `pid`.
pub open spec fn has_pid(list: Seq<AudioSession>, pid: u32) -> bool {
    exists|i: int| 0 <= i < list.len() && list[i].process_id == pid
}

/// No session before index `j` has the same process id as the one at `j`.
pub open spec fn first_with_pid(list: Seq<AudioSession>, j: int) -> bool {
    forall|i: int| 0 <= i < j ==> list[i].process_id != list[j].process_id
}

/// Every kept session is the first one its process id had in the raw list.
pub open spec fn dedup_provenance(list: Seq<AudioSession>, out: Seq<AudioSession>) -> bool {
    forall|i: int|
        #![trigger out[i]]
        0 <= i < out.len() ==> exists|j: int|
            0 <= j < list.len() && #[trigger] (list[j]) == out[i] && first_with_pid(list, j)
}

/// Whether some session of the list belongs to `pid`.
pub fn sessions_contain_pid(list: &Vec<AudioSession>, pid: u32) -> (r: bool)
    ensures
        r == has_pid(list@, pid),
{
    let mut k: usize = 0;
    while k < list.len()
        invariant
            k <= list@.len(),
            forall|i: int| 0 <= i < k ==> list@[i].process_id != pid,
        decreases list@.len() - k,
    {
        if list[k].process_id == pid {
            return true;
        }
        k = k + 1;
    }
    false
}

/// Keeps the first session reported for each process id, so a process routed
/// to several output-device roles appears once.
pub fn dedup_sessions(list: &Vec<AudioSession>) -> (r: Vec<AudioSession>)
    ensures
        distinct_pids(session_pids(r@)),
        forall|pid: u32| has_pid(r@, pid) == has_pid(list@, pid),
        dedup_provenance(list@, r@),
{
    let mut out: Vec<AudioSession> = Vec::new();
    let mut k: usize = 0;
    while k < list.len()
        invariant
            k <= list@.len(),
            distinct_pids(session_pids(out@)),
            forall|pid: u32| has_pid(out@, pid) == has_pid(list@.take(k as int), pid),
            dedup_provenance(list@, out@),
        decreases list@.len() - k,
    {
        let ghost pre0 = list@.take(k as int);
        let ghost pre1 = list@.take(k as int + 1);
        let pid = list[k].process_id;
        let seen = sessions_contain_pid(&out, pid);
        let ghost before = out@;
        if !seen {
            out.push(list[k].clone());
            proof {
                assert(out@[before.len() as int] == list@[k as int]);
                assert(dedup_provenance(list@, out@)) by {
                    assert forall|i: int| #![trigger out@[i]] 0 <= i < out@.len() implies exists|
                        j: int,
                    |
                        0 <= j < list@.len() && #[trigger] (list@[j]) == out@[i] && first_with_pid(
                            list@,
                            j,
                        ) by {
                        if i < before.len() {
                            assert(before[i] == out@[i]);
                        } else {
                            assert(out@[i] == list@[k as int]);
                            assert(first_with_pid(list@, k as int)) by {
                                if !first_with_pid(list@, k as int) {
                                    let m = choose|m: int|
                                        0 <= m < k && (#[trigger] list@[m]).process_id == list@[k as int].process_id;
                                    assert(pre0[m].process_id == pid);
                                    assert(has_pid(pre0, pid));
                                }
                            }
                        }
                    }
                }
                assert(distinct_pids(session_pids(out@))) by {
                    assert forall|i: int, j: int|
                        0 <= i < out@.len() && 0 <= j < out@.len() && i != j implies session_pids(
                        out@,
                    )[i] != session_pids(out@)[j] by {
                        if i < before.len() && j < before.len() {
                            assert(session_pids(before)[i] != session_pids(before)[j]);
                        } else if i < before.len() {
                            assert(out@[j].process_id == pid);
                            assert(before[i].process_id == out@[i].process_id);
                            assert(has_pid(before, before[i].process_id));
                        } else {
                            assert(out@[i].process_id == pid);
                            assert(before[j].process_id == out@[j].process_id);
                            assert(has_pid(before, before[j].process_id));
                        }
                    }
                }
            }
        }
        proof {
            assert forall|p: u32| has_pid(pre1, p) implies (has_pid(pre0, p) || p == pid) by {
                let i = choose|i: int| 0 <= i < pre1.len() && (#[trigger] pre1[i]).process_id == p;
                if i < k {
                    assert(pre0[i].process_id == p);
                }
            }
            assert forall|p: u32| has_pid(pre0, p) || p == pid implies has_pid(pre1, p) by {
                if p == pid {
                    assert(pre1[k as int].process_id == p);
                } else {
                    let i = choose|i: int|
                        0 <= i < pre0.len() && (#[trigger] pre0[i]).process_id == p;
                    assert(pre1[i].process_id == p);
                }
            }
            assert forall|p: u32|
                #![trigger has_pid(out@, p)]
                has_pid(out@, p) == has_pid(pre1, p) by {
                if seen {
                    assert(has_pid(out@, p) == has_pid(pre0, p));
                } else {
                    assert forall|q: u32| #[trigger] has_pid(out@, q) implies (has_pid(before, q)
                        || q == pid) by {
                        let i = choose|i: int|
                            0 <= i < out@.len() && (#[trigger] out@[i]).process_id == q;
                        if i < before.len() {
                            assert(before[i].process_id == q);
                        }
                    }
                    if p == pid {
                        assert(out@[before.len() as int].process_id == pid);
                        assert(has_pid(out@, p));
                    } else if has_pid(before, p) {
                        let i = choose|i: int|
                            0 <= i < before.len() && (#[trigger] before[i]).process_id == p;
                        assert(out@[i].process_id == p);
                    }
                }
            }
        }
        k = k + 1;
    }
    proof {
        assert(list@.take(list@.len() as int) =~= list@);
    }
    out
}

/// Helper for `session_name`: the reduced-privilege tier, with the
/// "System Sounds" pseudo-process as last resort.
pub open spec fn session_name_fallback(limited: Option<Seq<char>>) -> Seq<char> {
    match limited {
        Some(p) => if file_name_of(p).len() > 0 {
            normalized_system_name(file_name_of(p))
        } else {
            "System Sounds"@
        },
        None => "System Sounds"@,
    }
}

/// The process name the enumerator gives a session: process id zero and
/// names that neither lookup can resolve map to the "System Sounds"
/// pseudo-process, so system sounds stay controllable rather than dropped.
pub open spec fn session_name(pid: u32, primary: Option<Seq<char>>, limited: Option<Seq<char>>) -> Seq<char> {
    if pid == 0 {
        "System Sounds"@
    } else {
        match primary {
            Some(p) => if file_name_of(p).len() > 0 {
                normalized_system_name(file_name_of(p))
            } else {
                session_name_fallback(limited)
            },
            None => session_name_fallback(limited),
        }
    }
}

/// Resolves the process name for one enumerated session from the results of
/// the two-tier image-name lookup.
pub fn session_process_name(pid: u32, primary: Option<String>, limited: Option<String>) -> (r:
    String)
    ensures
        r@ == session_name(
            pid,
            match primary {
                Some(p) => Some(p@),
                None => None,
            },
            match limited {
                Some(p) => Some(p@),
                None => None,
            },
        ),
{
    if pid == 0 {
        return "System Sounds".to_owned();
    }
    if let Some(p) = primary {
        let name = crate::process::file_name_part(p.as_str());
        if name.as_str().unicode_len() > 0 {
            return crate::process::normalize_system_process_name(name);
        }
    }
    if let Some(p) = limited {
        let name = crate::process::file_name_part(p.as_str());
        if name.as_str().unicode_len() > 0 {
            return crate::process::normalize_system_process_name(name);
        }
    }
    "System Sounds".to_owned()
}

/// The display name an enumerated session carries: the session's own
/// display string when it is non-empty and not a resource reference
/// (starting with '@'), the process name otherwise.
pub open spec fn chosen_display(raw: Option<Seq<char>>, name: Seq<char>) -> Seq<char> {
    match raw {
        Some(d) => if d.len() > 0 && d[0] != '@' {
            d
        } else {
            name
        },
        None => name,
    }
}

/// The process name after the display-name correction: a session that could
/// only be resolved to the "System Sounds" label but carries a real display
/// name is relabelled with that display name.
pub open spec fn corrected_process_name(pid: u32, base: Seq<char>, display: Seq<char>) -> Seq<
    char,
> {
    if pid != 0 && base == "System Sounds"@ && lower_of(display) != "system sounds"@ {
        display
    } else {
        base
    }
}

/// Builds the session record for one enumerated session from its process id,
/// the resolved process name, the raw display name and the current mute
/// flag.
pub fn label_session(pid: u32, base_name: String, raw_display: Option<String>, is_muted: bool) -> (s:
    AudioSession)
    ensures
        s.process_id == pid,
        s.is_muted == is_muted,
        s.display_name@ == chosen_display(
            match raw_display {
                Some(d) => Some(d@),
                None => None,
            },
            base_name@,
        ),
        s.process_name@ == corrected_process_name(pid, base_name@, s.display_name@),
{
    let display: String = match raw_display {
        Some(d) => {
            let keep = if d.as_str().unicode_len() > 0 {
                d.as_str().get_char(0) != '@'
            } else {
                false
            };
            if keep {
                d
            } else {
                base_name.clone()
            }
        },
        None => base_name.clone(),
    };
    let relabel = if pid != 0 && str_eq(base_name.as_str(), "System Sounds") {
        let low = lowercase(display.as_str());
        !str_eq(low.as_str(), "system sounds")
    } else {
        false
    };
    let process_name = if relabel {
        display.clone()
    } else {
        base_name
    };
    AudioSession { process_id: pid, process_name, display_name: display, is_muted }
}

/// One cached session: the process id the application keys its mute-control
/// handle with, and the denormalized names for fast lookup.
pub struct CachedSession {
    pub process_id: u32,
    pub process_name: String,
    pub display_name: String,
}

/// The session cache: mirrors, session by session, the arena of long-lived
/// mute-control handles that the application owns, so that mute and unmute
/// decisions do not re-enumerate.
pub struct AudioManager {
    pub sessions: Vec<CachedSession>,
}

impl AudioManager {
    /// The cached process ids, in order.
    pub open spec fn cached_pids(self) -> Seq<u32> {
        self.sessions@.map_values(|c: CachedSession| c.process_id)
    }

    /// Whether `pid` has a cached control handle.
    pub open spec fn spec_has(self, pid: u32) -> bool {
        exists|i: int| 0 <= i < self.sessions@.len() && self.sessions@[i].process_id == pid
    }

    /// No process id is cached twice.
    pub open spec fn wf(self) -> bool {
        distinct_pids(self.cached_pids())
    }

    /// An empty cache.
    pub fn new() -> (r: AudioManager)
        ensures
            r.wf(),
            r.sessions@.len() == 0,
            forall|pid: u32| !r.spec_has(pid),
    {
        AudioManager { sessions: Vec::new() }
    }

    /// Replaces the cache wholesale with the sessions of one enumeration
    /// pass; entries of processes that disappeared are dropped with it.
    pub fn replace_sessions(&mut self, list: &Vec<AudioSession>)
        requires
            distinct_pids(session_pids(list@)),
        ensures
            final(self).wf(),
            final(self).sessions@.len() == list@.len(),
            forall|i: int|
                0 <= i < list@.len() ==> final(self).sessions@[i].process_id
                    == list@[i].process_id && final(self).sessions@[i].process_name@
                    == list@[i].process_name@ && final(self).sessions@[i].display_name@
                    == list@[i].display_name@,
            forall|pid: u32| final(self).spec_has(pid) == has_pid(list@, pid),
    {
        let mut fresh: Vec<CachedSession> = Vec::new();
        let mut k: usize = 0;
        while k < list.len()
            invariant
                k <= list@.len(),
                fresh@.len() == k,
                forall|i: int|
                    0 <= i < k ==> fresh@[i].process_id == list@[i].process_id
                        && fresh@[i].process_name@ == list@[i].process_name@
                        && fresh@[i].display_name@ == list@[i].display_name@,
            decreases list@.len() - k,
        {
            let s = &list[k];
            fresh.push(
                CachedSession {
                    process_id: s.process_id,
                    process_name: s.process_name.clone(),
                    display_name: s.display_name.clone(),
                },
            );
            k = k + 1;
        }
        self.sessions = fresh;
        proof {
            assert(distinct_pids(session_pids(list@)));
            assert forall|i: int, j: int|
                0 <= i < self.cached_pids().len() && 0 <= j < self.cached_pids().len() && i
                    != j implies self.cached_pids()[i] != self.cached_pids()[j] by {
                assert(session_pids(list@)[i] != session_pids(list@)[j]);
            }
            assert forall|pid: u32| #[trigger] self.spec_has(pid) implies has_pid(list@, pid) by {
                let i = choose|i: int|
                    0 <= i < self.sessions@.len() && (#[trigger] self.sessions@[i]).process_id
                        == pid;
                assert(list@[i].process_id == pid);
            }
            assert forall|pid: u32| #[trigger] has_pid(list@, pid) implies self.spec_has(pid) by {
                let i = choose|i: int|
                    0 <= i < list@.len() && (#[trigger] list@[i]).process_id == pid;
                assert(self.sessions@[i].process_id == pid);
            }
        }
    }

    /// Whether `pid` has a cached control handle.
    pub fn has_session(&self, pid: u32) -> (r: bool)
        ensures
            r == self.spec_has(pid),
    {
        let mut k: usize = 0;
        while k < self.sessions.len()
            invariant
                k <= self.sessions@.len(),
                forall|i: int| 0 <= i < k ==> self.sessions@[i].process_id != pid,
            decreases self.sessions@.len() - k,
        {
            if self.sessions[k].process_id == pid {
                return true;
            }
            k = k + 1;
        }
        false
    }

    /// The mute call to perform for `pid`: nothing when the process has no
    /// cached control handle, since a session can legitimately disappear
    /// between decision and action.
    pub fn mute_process(&self, pid: u32) -> (r: Option<MuteAction>)
        ensures
            r == (if self.spec_has(pid) {
                Some(MuteAction { pid, mute: true })
            } else {
                None::<MuteAction>
            }),
    {
        if self.has_session(pid) {
            Some(MuteAction { pid, mute: true })
        } else {
            None
        }
    }

    /// The unmute call to perform for `pid`; nothing when the process has no
    /// cached control handle.
    pub fn unmute_process(&self, pid: u32) -> (r: Option<MuteAction>)
        ensures
            r == (if self.spec_has(pid) {
                Some(MuteAction { pid, mute: false })
            } else {
                None::<MuteAction>
            }),
    {
        if self.has_session(pid) {
            Some(MuteAction { pid, mute: false })
        } else {
            None
        }
    }
}

} // verus!
