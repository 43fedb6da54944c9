//! The reconciliation engine: decides, on every tick, which audio-producing
//! processes must be muted, unmuted, or left alone.
//!
//! The engine holds no operating-system handles.  Each tick receives the
//! polled foreground process id, the current time in milliseconds and — when
//! the engine asked for a refresh — the freshly enumerated sessions, and
//! returns the mute-control actions the application must perform, together
//! with a tick summary.

#![verifier::loop_isolation(false)]

use vstd::prelude::*;

use crate::audio::distinct_pids;
use crate::audio::has_pid;
use crate::audio::session_pids;
use crate::audio::AudioManager;
use crate::audio::AudioSession;
use crate::audio::MuteAction;
use crate::config::Config;
use crate::process::pid_opt_eq;

verus! {

/// Sessions are re-enumerated at most every two seconds unless the
/// foreground changes.
pub const REFRESH_INTERVAL_MS: u64 = 2000;

/// A process unseen for longer than this is evicted from the tracked state.
pub const STALENESS_MS: u64 = 30000;

/// The tracked state of one audio-producing application.
#[derive(Debug)]
pub struct AppAudioState {
    pub pid: u32,
    pub process_name: String,
    pub display_name: String,
    /// Whether the engine itself silenced this process, as opposed to the
    /// user or another program.  Never inferred from the raw mute flag.
    pub is_muted_by_us: bool,
    pub original_mute_state: bool,
    /// When the process was last observed, in tick milliseconds.
    pub last_seen: u64,
    pub is_active: bool,
}

impl Clone for AppAudioState {
    /// An exact copy.
    fn clone(&self) -> (r: Self)
        ensures
            r == *self,
    {
        AppAudioState {
            pid: self.pid,
            process_name: self.process_name.clone(),
            display_name: self.display_name.clone(),
            is_muted_by_us: self.is_muted_by_us,
            original_mute_state: self.original_mute_state,
            last_seen: self.last_seen,
            is_active: self.is_active,
        }
    }
}

/// Summary of one update cycle.
#[derive(Debug)]
pub struct UpdateResult {
    pub foreground_pid: Option<u32>,
    pub foreground_changed: bool,
    pub active_sessions: usize,
    pub muted_count: usize,
}

/// The process ids of the tracked states, in order.
pub open spec fn state_pids(states: Seq<AppAudioState>) -> Seq<u32> {
    states.map_values(|s: AppAudioState| s.pid)
}

/// Some tracked state belongs to `pid`.
pub open spec fn state_has_pid(states: Seq<AppAudioState>, pid: u32) -> bool {
    exists|i: int| 0 <= i < states.len() && states[i].pid == pid
}

/// The state of `pid` is tracked and marked muted-by-us.
pub open spec fn flagged(states: Seq<AppAudioState>, pid: u32) -> bool {
    exists|i: int| 0 <= i < states.len() && states[i].pid == pid && states[i].is_muted_by_us
}

/// The muted set mirrors the muted-by-us marks exactly.
pub open spec fn mirror_ok(states: Seq<AppAudioState>, muted: Seq<u32>) -> bool {
    &&& distinct_pids(muted)
    &&& forall|pid: u32| #[trigger] muted.contains(pid) <==> flagged(states, pid)
}

/// Some action of the list is an unmute of `pid`.
pub open spec fn unmute_in(actions: Seq<MuteAction>, pid: u32) -> bool {
    exists|i: int| 0 <= i < actions.len() && actions[i] == (MuteAction { pid, mute: false })
}

/// Some action of the list is a mute of `pid`.
pub open spec fn mute_in(actions: Seq<MuteAction>, pid: u32) -> bool {
    exists|i: int| 0 <= i < actions.len() && actions[i] == (MuteAction { pid, mute: true })
}

/// No process id is named by two actions of the list.
pub open spec fn one_action_per_pid(actions: Seq<MuteAction>) -> bool {
    forall|i: int, j: int|
        0 <= i < actions.len() && 0 <= j < actions.len() && i != j ==> actions[i].pid
            != actions[j].pid
}

/// What the reconciliation policy decides for a session present in the
/// refresh: `was` is whether the engine had already muted the process,
/// `s.is_muted` the mute flag the enumeration reported.
pub open spec fn decide_muted(
    config: Config,
    own_pid: u32,
    foreground_pid: Option<u32>,
    was: bool,
    s: AudioSession,
) -> bool {
    if !config.muting_enabled || config.spec_is_excluded(s.process_name@) {
        false
    } else if s.process_id == own_pid {
        was
    } else if config.spec_is_always_muted(s.process_name@) {
        was || !s.is_muted
    } else if foreground_pid == Some(s.process_id) {
        false
    } else {
        was || !s.is_muted
    }
}

/// Every state the sweep keeps stems from exactly one pre-sweep state: kept
/// unchanged when its process id was observed, kept inactive and unflagged
/// otherwise.
pub open spec fn sweep_source(
    orig: Seq<AppAudioState>,
    list: Seq<AudioSession>,
    kept: Seq<AppAudioState>,
) -> bool {
    forall|j: int|
        #![trigger kept[j]]
        0 <= j < kept.len() ==> exists|i: int|
            0 <= i < orig.len() && #[trigger] (orig[i]).pid == kept[j].pid && (if has_pid(
                list,
                orig[i].pid,
            ) {
                kept[j] == orig[i]
            } else {
                kept[j] == (AppAudioState { is_active: false, is_muted_by_us: false, ..orig[i] })
            })
}


/// Summarises a finished sweep: the kept flags, the muted set and the kept
/// process ids, in terms of the pre-sweep states.
proof fn lemma_sweep_summary(
    orig: Seq<AppAudioState>,
    list: Seq<AudioSession>,
    kept: Seq<AppAudioState>,
    muted0: Seq<u32>,
    muted: Seq<u32>,
    now_ms: u64,
)
    requires
        distinct_pids(state_pids(orig)),
        mirror_ok(orig, muted0),
        sweep_source(orig, list, kept),
        forall|i: int|
            0 <= i < orig.len() ==> (exists|j: int|
                0 <= j < kept.len() && (#[trigger] kept[j]).pid == orig[i].pid) == (has_pid(
                list,
                (#[trigger] orig[i]).pid,
            ) || now_ms - orig[i].last_seen <= STALENESS_MS),
        forall|q: u32| #[trigger]
            muted.contains(q) == (muted0.contains(q) && !exists|i: int|
                0 <= i < orig.len() && (#[trigger] orig[i]).pid == q && !has_pid(list, q)),
    ensures
        forall|q: u32| #[trigger] flagged(kept, q) == (flagged(orig, q) && has_pid(list, q)),
        forall|q: u32| #[trigger] muted.contains(q) == (muted0.contains(q) && has_pid(list, q)),
        forall|q: u32| #[trigger]
            state_has_pid(kept, q) == exists|i: int|
                0 <= i < orig.len() && (#[trigger] orig[i]).pid == q && (has_pid(list, q)
                    || now_ms - orig[i].last_seen <= STALENESS_MS),
{
    assert forall|q: u32| #[trigger]
        flagged(kept, q) == (flagged(orig, q) && has_pid(list, q)) by {
        if flagged(kept, q) {
            let j = choose|j: int|
                0 <= j < kept.len() && (#[trigger] kept[j]).pid == q && kept[j].is_muted_by_us;
            let i = choose|i: int|
                0 <= i < orig.len() && #[trigger] (orig[i]).pid == kept[j].pid && (if has_pid(
                    list,
                    orig[i].pid,
                ) {
                    kept[j] == orig[i]
                } else {
                    kept[j] == (AppAudioState {
                        is_active: false,
                        is_muted_by_us: false,
                        ..orig[i]
                    })
                });
            assert(has_pid(list, q));
            assert(orig[i].pid == q && orig[i].is_muted_by_us);
        }
        if flagged(orig, q) && has_pid(list, q) {
            let i = choose|i: int|
                0 <= i < orig.len() && (#[trigger] orig[i]).pid == q && orig[i].is_muted_by_us;
            assert((exists|j: int| 0 <= j < kept.len() && (#[trigger] kept[j]).pid == orig[i].pid));
            let j = choose|j: int| 0 <= j < kept.len() && (#[trigger] kept[j]).pid == q;
            let i2 = choose|i2: int|
                0 <= i2 < orig.len() && #[trigger] (orig[i2]).pid == kept[j].pid && (if has_pid(
                    list,
                    orig[i2].pid,
                ) {
                    kept[j] == orig[i2]
                } else {
                    kept[j] == (AppAudioState {
                        is_active: false,
                        is_muted_by_us: false,
                        ..orig[i2]
                    })
                });
            assert(state_pids(orig)[i] == q);
            assert(state_pids(orig)[i2] == q);
            assert(i2 == i);
            assert(kept[j] == orig[i]);
            assert(kept[j].is_muted_by_us);
        }
    }
    assert forall|q: u32| #[trigger]
        muted.contains(q) == (muted0.contains(q) && has_pid(list, q)) by {
        if muted0.contains(q) {
            assert(flagged(orig, q));
            let i = choose|i: int|
                0 <= i < orig.len() && (#[trigger] orig[i]).pid == q && orig[i].is_muted_by_us;
            if has_pid(list, q) {
                assert(!(exists|i2: int|
                    0 <= i2 < orig.len() && (#[trigger] orig[i2]).pid == q && !has_pid(list, q)));
            }
        }
    }
    assert forall|q: u32| #[trigger]
        state_has_pid(kept, q) == exists|i: int|
            0 <= i < orig.len() && (#[trigger] orig[i]).pid == q && (has_pid(list, q) || now_ms
                - orig[i].last_seen <= STALENESS_MS) by {
        if state_has_pid(kept, q) {
            let j = choose|j: int| 0 <= j < kept.len() && (#[trigger] kept[j]).pid == q;
            let i = choose|i: int|
                0 <= i < orig.len() && #[trigger] (orig[i]).pid == kept[j].pid && (if has_pid(
                    list,
                    orig[i].pid,
                ) {
                    kept[j] == orig[i]
                } else {
                    kept[j] == (AppAudioState {
                        is_active: false,
                        is_muted_by_us: false,
                        ..orig[i]
                    })
                });
            if has_pid(list, q) {
                assert(orig[i].pid == q && has_pid(list, q));
            } else {
                assert(orig[i].last_seen == kept[j].last_seen);
                assert((exists|j2: int|
                    0 <= j2 < kept.len() && (#[trigger] kept[j2]).pid == orig[i].pid));
                assert(now_ms - orig[i].last_seen <= STALENESS_MS);
            }
        }
        if exists|i: int|
            0 <= i < orig.len() && (#[trigger] orig[i]).pid == q && (has_pid(list, q) || now_ms
                - orig[i].last_seen <= STALENESS_MS) {
            let i = choose|i: int|
                0 <= i < orig.len() && (#[trigger] orig[i]).pid == q && (has_pid(list, q) || now_ms
                    - orig[i].last_seen <= STALENESS_MS);
            assert((exists|j: int| 0 <= j < kept.len() && (#[trigger] kept[j]).pid == orig[i].pid));
            let j = choose|j: int| 0 <= j < kept.len() && (#[trigger] kept[j]).pid == orig[i].pid;
            assert(kept[j].pid == q);
        }
    }
}

/// Foreground exemption: with the engine's own process never previously
/// muted, a session that owns the foreground window and is not on the
/// always-mute list is never decided muted.
pub proof fn lemma_foreground_exemption(
    config: Config,
    own_pid: u32,
    foreground_pid: Option<u32>,
    was: bool,
    s: AudioSession,
)
    requires
        foreground_pid == Some(s.process_id),
        !config.spec_is_always_muted(s.process_name@),
        s.process_id == own_pid ==> !was,
    ensures
        !decide_muted(config, own_pid, foreground_pid, was, s),
{
}

/// Exclusion and the master switch: an excluded session, or any session
/// while muting is disabled, is never decided muted.
pub proof fn lemma_exclusion_unmutes(
    config: Config,
    own_pid: u32,
    foreground_pid: Option<u32>,
    was: bool,
    s: AudioSession,
)
    requires
        config.spec_is_excluded(s.process_name@) || !config.muting_enabled,
    ensures
        !decide_muted(config, own_pid, foreground_pid, was, s),
{
}

/// How one optional appended action changes the mute / unmute memberships.
proof fn lemma_action_membership(
    pre: Seq<MuteAction>,
    cur: Seq<MuteAction>,
    was: bool,
    dec: bool,
    pid: u32,
    q: u32,
)
    requires
        cur == (if was == dec {
            pre
        } else {
            pre.push(MuteAction { pid, mute: dec })
        }),
    ensures
        unmute_in(cur, q) == (unmute_in(pre, q) || (was != dec && !dec && q == pid)),
        mute_in(cur, q) == (mute_in(pre, q) || (was != dec && dec && q == pid)),
{
    if was == dec {
        assert(cur == pre);
    } else {
        let a = MuteAction { pid, mute: dec };
        assert(cur == pre.push(a));
        if unmute_in(cur, q) {
            let j = choose|j: int|
                0 <= j < cur.len() && cur[j] == (MuteAction { pid: q, mute: false });
            if j < pre.len() {
                assert(pre[j] == (MuteAction { pid: q, mute: false }));
            } else {
                assert(cur[j] == a);
            }
        }
        if unmute_in(pre, q) {
            let j = choose|j: int|
                0 <= j < pre.len() && pre[j] == (MuteAction { pid: q, mute: false });
            assert(cur[j] == (MuteAction { pid: q, mute: false }));
        }
        if !dec && q == pid {
            assert(cur[pre.len() as int] == (MuteAction { pid: q, mute: false }));
        }
        if mute_in(cur, q) {
            let j = choose|j: int|
                0 <= j < cur.len() && cur[j] == (MuteAction { pid: q, mute: true });
            if j < pre.len() {
                assert(pre[j] == (MuteAction { pid: q, mute: true }));
            } else {
                assert(cur[j] == a);
            }
        }
        if mute_in(pre, q) {
            let j = choose|j: int|
                0 <= j < pre.len() && pre[j] == (MuteAction { pid: q, mute: true });
            assert(cur[j] == (MuteAction { pid: q, mute: true }));
        }
        if dec && q == pid {
            assert(cur[pre.len() as int] == (MuteAction { pid: q, mute: true }));
        }
    }
}

/// Replacing the state at `idx` by one with the same process id changes the
/// muted-by-us mark of that process alone.
proof fn lemma_flag_after_update(states: Seq<AppAudioState>, idx: int, st: AppAudioState)
    requires
        distinct_pids(state_pids(states)),
        0 <= idx < states.len(),
        st.pid == states[idx].pid,
    ensures
        distinct_pids(state_pids(states.update(idx, st))),
        forall|q: u32|
            q != st.pid ==> flagged(states.update(idx, st), q) == flagged(states, q),
        flagged(states.update(idx, st), st.pid) == st.is_muted_by_us,
        forall|q: u32| state_has_pid(states.update(idx, st), q) == state_has_pid(states, q),
{
    let upd = states.update(idx, st);
    assert(state_pids(upd) =~= state_pids(states).update(idx, st.pid));
    assert(state_pids(states)[idx] == st.pid);
    assert(state_pids(upd) =~= state_pids(states));
    assert forall|q: u32| q != st.pid implies flagged(upd, q) == flagged(states, q) by {
        if flagged(upd, q) {
            let i = choose|i: int|
                0 <= i < upd.len() && (#[trigger] upd[i]).pid == q && upd[i].is_muted_by_us;
            assert(i != idx);
            assert(states[i].pid == q && states[i].is_muted_by_us);
        }
        if flagged(states, q) {
            let i = choose|i: int|
                0 <= i < states.len() && (#[trigger] states[i]).pid == q
                    && states[i].is_muted_by_us;
            assert(i != idx);
            assert(upd[i].pid == q && upd[i].is_muted_by_us);
        }
    }
    assert(flagged(upd, st.pid) == st.is_muted_by_us) by {
        if flagged(upd, st.pid) {
            let i = choose|i: int|
                0 <= i < upd.len() && (#[trigger] upd[i]).pid == st.pid && upd[i].is_muted_by_us;
            if i != idx {
                assert(state_pids(states)[i] == st.pid);
                assert(state_pids(states)[idx] == st.pid);
                assert(false);
            }
        }
        if st.is_muted_by_us {
            assert(upd[idx].pid == st.pid && upd[idx].is_muted_by_us);
        }
    }
    assert forall|q: u32| state_has_pid(upd, q) == state_has_pid(states, q) by {
        if state_has_pid(upd, q) {
            let i = choose|i: int| 0 <= i < upd.len() && (#[trigger] upd[i]).pid == q;
            assert(states[if i == idx { idx } else { i }].pid == q);
        }
        if state_has_pid(states, q) {
            let i = choose|i: int| 0 <= i < states.len() && (#[trigger] states[i]).pid == q;
            if i == idx {
                assert(upd[idx].pid == q);
            } else {
                assert(upd[i].pid == q);
            }
        }
    }
}

/// Appending a state for a process id that is not yet tracked changes the
/// muted-by-us mark of that process alone.
proof fn lemma_flag_after_push(states: Seq<AppAudioState>, st: AppAudioState)
    requires
        distinct_pids(state_pids(states)),
        !state_has_pid(states, st.pid),
    ensures
        distinct_pids(state_pids(states.push(st))),
        forall|q: u32| q != st.pid ==> flagged(states.push(st), q) == flagged(states, q),
        flagged(states.push(st), st.pid) == st.is_muted_by_us,
        forall|q: u32|
            state_has_pid(states.push(st), q) == (state_has_pid(states, q) || q == st.pid),
{
    let ext = states.push(st);
    assert(state_pids(ext) =~= state_pids(states).push(st.pid));
    assert(distinct_pids(state_pids(ext))) by {
        assert forall|i: int, j: int|
            0 <= i < state_pids(ext).len() && 0 <= j < state_pids(ext).len() && i
                != j implies state_pids(ext)[i] != state_pids(ext)[j] by {
            if i < states.len() && j < states.len() {
                assert(state_pids(states)[i] != state_pids(states)[j]);
            } else if i < states.len() {
                assert(state_pids(ext)[j] == st.pid);
                assert(states[i].pid == state_pids(ext)[i]);
                if states[i].pid == st.pid {
                    assert(state_has_pid(states, st.pid));
                }
            } else {
                assert(state_pids(ext)[i] == st.pid);
                assert(states[j].pid == state_pids(ext)[j]);
                if states[j].pid == st.pid {
                    assert(state_has_pid(states, st.pid));
                }
            }
        }
    }
    assert forall|q: u32| q != st.pid implies flagged(ext, q) == flagged(states, q) by {
        if flagged(ext, q) {
            let i = choose|i: int|
                0 <= i < ext.len() && (#[trigger] ext[i]).pid == q && ext[i].is_muted_by_us;
            assert(i < states.len());
            assert(states[i].pid == q && states[i].is_muted_by_us);
        }
        if flagged(states, q) {
            let i = choose|i: int|
                0 <= i < states.len() && (#[trigger] states[i]).pid == q
                    && states[i].is_muted_by_us;
            assert(ext[i].pid == q && ext[i].is_muted_by_us);
        }
    }
    assert(flagged(ext, st.pid) == st.is_muted_by_us) by {
        if flagged(ext, st.pid) {
            let i = choose|i: int|
                0 <= i < ext.len() && (#[trigger] ext[i]).pid == st.pid && ext[i].is_muted_by_us;
            if i < states.len() {
                assert(state_has_pid(states, st.pid));
            }
        }
        if st.is_muted_by_us {
            assert(ext[states.len() as int].pid == st.pid && ext[states.len() as int].is_muted_by_us);
        }
    }
    assert forall|q: u32|
        state_has_pid(ext, q) == (state_has_pid(states, q) || q == st.pid) by {
        if state_has_pid(ext, q) {
            let i = choose|i: int| 0 <= i < ext.len() && (#[trigger] ext[i]).pid == q;
            if i < states.len() {
                assert(states[i].pid == q);
            }
        }
        if state_has_pid(states, q) {
            let i = choose|i: int| 0 <= i < states.len() && (#[trigger] states[i]).pid == q;
            assert(ext[i].pid == q);
        }
        if q == st.pid {
            assert(ext[states.len() as int].pid == q);
        }
    }
}

/// The index of the tracked state of `pid`, if one exists.
fn find_state_index(states: &Vec<AppAudioState>, pid: u32) -> (r: Option<usize>)
    ensures
        match r {
            Some(i) => 0 <= i < states@.len() && states@[i as int].pid == pid,
            None => !state_has_pid(states@, pid),
        },
{
    let mut k: usize = 0;
    while k < states.len()
        invariant
            k <= states@.len(),
            forall|i: int| 0 <= i < k ==> states@[i].pid != pid,
        decreases states@.len() - k,
    {
        if states[k].pid == pid {
            return Some(k);
        }
        k = k + 1;
    }
    None
}

/// Adds `pid` to the muted set.
fn muted_insert(muted: &mut Vec<u32>, pid: u32)
    requires
        distinct_pids(old(muted)@),
        !old(muted)@.contains(pid),
    ensures
        distinct_pids(final(muted)@),
        forall|q: u32| final(muted)@.contains(q) == (old(muted)@.contains(q) || q == pid),
        final(muted)@.len() == old(muted)@.len() + 1,
{
    let ghost before = muted@;
    muted.push(pid);
    proof {
        assert forall|q: u32|
            #![trigger muted@.contains(q)]
            muted@.contains(q) == (before.contains(q) || q == pid) by {
            if muted@.contains(q) {
                let i = choose|i: int| 0 <= i < muted@.len() && muted@[i] == q;
                if i < before.len() {
                    assert(before[i] == q);
                }
            }
            if before.contains(q) {
                let i = choose|i: int| 0 <= i < before.len() && before[i] == q;
                assert(muted@[i] == q);
            }
            if q == pid {
                assert(muted@[before.len() as int] == q);
            }
        }
        assert forall|i: int, j: int|
            0 <= i < muted@.len() && 0 <= j < muted@.len() && i != j implies muted@[i]
            != muted@[j] by {
            if i < before.len() && j < before.len() {
                assert(before[i] != before[j]);
            } else if i < before.len() {
                assert(muted@[j] == pid);
                if before[i] == pid {
                    assert(before.contains(pid));
                }
            } else if j < before.len() {
                assert(muted@[i] == pid);
                if before[j] == pid {
                    assert(before.contains(pid));
                }
            }
        }
    }
}

/// Removes `pid` from the muted set, if present.
fn muted_remove(muted: &mut Vec<u32>, pid: u32)
    requires
        distinct_pids(old(muted)@),
    ensures
        distinct_pids(final(muted)@),
        forall|q: u32| final(muted)@.contains(q) == (old(muted)@.contains(q) && q != pid),
{
    let mut out: Vec<u32> = Vec::new();
    let mut k: usize = 0;
    while k < muted.len()
        invariant
            k <= muted@.len(),
            distinct_pids(out@),
            forall|q: u32| out@.contains(q) == (muted@.take(k as int).contains(q) && q != pid),
        decreases muted@.len() - k,
    {
        let ghost pre0 = muted@.take(k as int);
        let ghost pre1 = muted@.take(k as int + 1);
        let cur = muted[k];
        let ghost before = out@;
        if cur != pid {
            out.push(cur);
        }
        proof {
            assert(pre1.drop_last() =~= pre0);
            assert(pre1.last() == cur);
            assert forall|q: u32| pre1.contains(q) == (pre0.contains(q) || q == cur) by {
                if pre1.contains(q) {
                    let i = choose|i: int| 0 <= i < pre1.len() && pre1[i] == q;
                    if i < k {
                        assert(pre0[i] == q);
                    }
                }
                if pre0.contains(q) {
                    let i = choose|i: int| 0 <= i < pre0.len() && pre0[i] == q;
                    assert(pre1[i] == q);
                }
                if q == cur {
                    assert(pre1[k as int] == q);
                }
            }
            if cur != pid {
                assert forall|q: u32|
                    #![trigger out@.contains(q)]
                    out@.contains(q) == (before.contains(q) || q == cur) by {
                    if out@.contains(q) {
                        let i = choose|i: int| 0 <= i < out@.len() && out@[i] == q;
                        if i < before.len() {
                            assert(before[i] == q);
                        }
                    }
                    if before.contains(q) {
                        let i = choose|i: int| 0 <= i < before.len() && before[i] == q;
                        assert(out@[i] == q);
                    }
                    if q == cur {
                        assert(out@[before.len() as int] == q);
                    }
                }
                assert(!before.contains(cur)) by {
                    if before.contains(cur) {
                        assert(pre0.contains(cur));
                        let i = choose|i: int| 0 <= i < pre0.len() && pre0[i] == cur;
                        assert(muted@[i] == muted@[k as int]);
                    }
                }
                assert forall|i: int, j: int|
                    0 <= i < out@.len() && 0 <= j < out@.len() && i != j implies out@[i]
                    != out@[j] by {
                    if i < before.len() && j < before.len() {
                        assert(before[i] != before[j]);
                    } else if i < before.len() {
                        assert(out@[j] == cur);
                        if before[i] == cur {
                            assert(before.contains(cur));
                        }
                    } else if j < before.len() {
                        assert(out@[i] == cur);
                        if before[j] == cur {
                            assert(before.contains(cur));
                        }
                    }
                }
            }
        }
        k = k + 1;
    }
    proof {
        assert(muted@.take(muted@.len() as int) =~= muted@);
    }
    *muted = out;
}

/// The core muting engine.
pub struct MuterEngine {
    pub audio_manager: AudioManager,
    pub app_states: Vec<AppAudioState>,
    pub muted_pids: Vec<u32>,
    pub own_pid: u32,
    pub last_foreground_pid: Option<u32>,
    pub last_session_refresh: u64,
    pub session_refresh_interval: u64,
}

impl MuterEngine {
    /// The engine invariant: tracked process ids are unique; the muted set
    /// mirrors the muted-by-us marks; the engine's own process is never
    /// muted; every muted process id has a cached control handle; and no
    /// observation is more recent than the last refresh.
    pub open spec fn wf(self) -> bool {
        &&& distinct_pids(state_pids(self.app_states@))
        &&& mirror_ok(self.app_states@, self.muted_pids@)
        &&& !flagged(self.app_states@, self.own_pid)
        &&& (forall|pid: u32| #[trigger]
            self.muted_pids@.contains(pid) ==> self.audio_manager.spec_has(pid))
        &&& self.audio_manager.wf()
        &&& (forall|i: int|
            0 <= i < self.app_states@.len() ==> self.app_states@[i].last_seen
                <= self.last_session_refresh)
    }

    /// Own-process immunity: under the engine invariant, the engine's own
    /// process id is never present in the muted set, for any policy
    /// configuration.
    pub proof fn lemma_own_process_immunity(self)
        requires
            self.wf(),
        ensures
            !self.muted_pids@.contains(self.own_pid),
            !flagged(self.app_states@, self.own_pid),
    {
        if self.muted_pids@.contains(self.own_pid) {
            assert(flagged(self.app_states@, self.own_pid));
        }
    }

    /// Refresh throttling: given no foreground change, a tick within the
    /// refresh interval of the last enumeration asks for no enumeration, so
    /// two such ticks perform at most one underlying enumeration call.
    pub proof fn lemma_refresh_throttling(self, now_ms: u64, foreground_pid: Option<u32>)
        requires
            foreground_pid == self.last_foreground_pid,
            now_ms >= self.last_session_refresh,
            now_ms - self.last_session_refresh < self.session_refresh_interval,
        ensures
            !self.spec_should_refresh(now_ms, foreground_pid),
    {
    }

    /// A fresh engine: nothing tracked, nothing muted, nothing cached.
    pub fn new(own_pid: u32, now_ms: u64) -> (r: MuterEngine)
        ensures
            r.wf(),
            r.own_pid == own_pid,
            r.app_states@.len() == 0,
            r.muted_pids@.len() == 0,
            r.audio_manager.sessions@.len() == 0,
            r.last_foreground_pid is None,
            r.last_session_refresh == now_ms,
            r.session_refresh_interval == REFRESH_INTERVAL_MS,
    {
        MuterEngine {
            audio_manager: AudioManager::new(),
            app_states: Vec::new(),
            muted_pids: Vec::new(),
            own_pid,
            last_foreground_pid: None,
            last_session_refresh: now_ms,
            session_refresh_interval: REFRESH_INTERVAL_MS,
        }
    }

    /// The session cache.
    pub fn audio_manager(&self) -> (r: &AudioManager)
        ensures
            r == &self.audio_manager,
    {
        &self.audio_manager
    }

    /// How many processes are currently muted by the engine.
    pub fn muted_count(&self) -> (r: usize)
        ensures
            r == self.muted_pids@.len(),
    {
        self.muted_pids.len()
    }

    /// Whether the engine itself muted `pid`.
    pub fn is_muted_by_us(&self, pid: u32) -> (r: bool)
        ensures
            r == self.muted_pids@.contains(pid),
    {
        let mut k: usize = 0;
        while k < self.muted_pids.len()
            invariant
                k <= self.muted_pids@.len(),
                forall|i: int| 0 <= i < k ==> self.muted_pids@[i] != pid,
            decreases self.muted_pids@.len() - k,
        {
            if self.muted_pids[k] == pid {
                return true;
            }
            k = k + 1;
        }
        false
    }

    /// Copies of all tracked states.
    pub fn get_app_states(&self) -> (r: Vec<AppAudioState>)
        ensures
            r@ == self.app_states@,
    {
        let mut out: Vec<AppAudioState> = Vec::new();
        let mut k: usize = 0;
        while k < self.app_states.len()
            invariant
                k <= self.app_states@.len(),
                out@ =~= self.app_states@.take(k as int),
            decreases self.app_states@.len() - k,
        {
            out.push(self.app_states[k].clone());
            proof {
                assert(out@ =~= self.app_states@.take(k as int + 1));
            }
            k = k + 1;
        }
        proof {
            assert(self.app_states@.take(self.app_states@.len() as int) =~= self.app_states@);
        }
        out
    }

    /// Copies of the tracked states that are currently active.
    pub fn get_active_sessions(&self) -> (r: Vec<AppAudioState>)
        ensures
            forall|i: int| 0 <= i < r@.len() ==> (#[trigger] r@[i]).is_active,
            forall|i: int|
                0 <= i < self.app_states@.len() && (#[trigger] self.app_states@[i]).is_active
                    ==> r@.contains(self.app_states@[i]),
            forall|i: int|
                0 <= i < r@.len() ==> self.app_states@.contains(#[trigger] r@[i]),
    {
        let mut out: Vec<AppAudioState> = Vec::new();
        let mut k: usize = 0;
        while k < self.app_states.len()
            invariant
                k <= self.app_states@.len(),
                forall|i: int| 0 <= i < out@.len() ==> (#[trigger] out@[i]).is_active,
                forall|i: int|
                    0 <= i < k && (#[trigger] self.app_states@[i]).is_active ==> out@.contains(
                        self.app_states@[i],
                    ),
                forall|i: int|
                    0 <= i < out@.len() ==> self.app_states@.contains(#[trigger] out@[i]),
            decreases self.app_states@.len() - k,
        {
            if self.app_states[k].is_active {
                let ghost before = out@;
                out.push(self.app_states[k].clone());
                proof {
                    assert(out@[before.len() as int] == self.app_states@[k as int]);
                    assert(forall|i: int| 0 <= i < before.len() ==> out@[i] == before[i]);
                    assert forall|i: int|
                        0 <= i < k + 1 && (#[trigger] self.app_states@[i]).is_active implies out@
                        .contains(self.app_states@[i]) by {
                        if i < k {
                            let j = choose|j: int|
                                0 <= j < before.len() && before[j] == self.app_states@[i];
                            assert(out@[j] == self.app_states@[i]);
                        } else {
                            assert(out@[before.len() as int] == self.app_states@[i]);
                        }
                    }
                }
            }
            k = k + 1;
        }
        out
    }

    /// Upserts the tracked state for one enumerated session and applies the
    /// muting policy to it.
    fn apply_session(
        &mut self,
        config: &Config,
        now_ms: u64,
        foreground_pid: Option<u32>,
        s: &AudioSession,
        actions: &mut Vec<MuteAction>,
    )
        requires
            distinct_pids(state_pids(old(self).app_states@)),
            mirror_ok(old(self).app_states@, old(self).muted_pids@),
            !flagged(old(self).app_states@, old(self).own_pid),
            old(self).audio_manager.spec_has(s.process_id),
        ensures
            final(self).audio_manager == old(self).audio_manager,
            final(self).own_pid == old(self).own_pid,
            final(self).last_foreground_pid == old(self).last_foreground_pid,
            final(self).last_session_refresh == old(self).last_session_refresh,
            final(self).session_refresh_interval == old(self).session_refresh_interval,
            distinct_pids(state_pids(final(self).app_states@)),
            mirror_ok(final(self).app_states@, final(self).muted_pids@),
            !flagged(final(self).app_states@, final(self).own_pid),
            old(self).app_states@.len() <= final(self).app_states@.len(),
            final(self).app_states@.len() <= old(self).app_states@.len() + 1,
            forall|i: int|
                0 <= i < old(self).app_states@.len() ==> (#[trigger] final(self).app_states@[i]).pid
                    == old(self).app_states@[i].pid,
            forall|i: int|
                old(self).app_states@.len() <= i < final(self).app_states@.len() ==> (#[trigger] final(self).app_states@[i]).pid == s.process_id,
            forall|i: int|
                0 <= i < old(self).app_states@.len() && (#[trigger] old(self).app_states@[i]).pid
                    != s.process_id ==> final(self).app_states@[i] == old(self).app_states@[i],
            forall|q: u32|
                q != s.process_id ==> #[trigger] state_has_pid(final(self).app_states@, q)
                    == state_has_pid(old(self).app_states@, q),
            forall|q: u32|
                q != s.process_id ==> #[trigger] flagged(final(self).app_states@, q) == flagged(
                    old(self).app_states@,
                    q,
                ),
            forall|q: u32|
                q != s.process_id ==> #[trigger] final(self).muted_pids@.contains(q)
                    == old(self).muted_pids@.contains(q),
            state_has_pid(final(self).app_states@, s.process_id),
            flagged(final(self).app_states@, s.process_id) == decide_muted(
                *config,
                old(self).own_pid,
                foreground_pid,
                flagged(old(self).app_states@, s.process_id),
                *s,
            ),
            forall|i: int|
                0 <= i < final(self).app_states@.len() && (#[trigger] final(self).app_states@[i]).pid == s.process_id ==> final(self).app_states@[i].is_active
                    && final(self).app_states@[i].last_seen == now_ms && final(self).app_states@[i].display_name@ == s.display_name@,
            ({
                let was = flagged(old(self).app_states@, s.process_id);
                let now_flag = decide_muted(
                    *config,
                    old(self).own_pid,
                    foreground_pid,
                    was,
                    *s,
                );
                if was == now_flag {
                    final(actions)@ == old(actions)@
                } else {
                    final(actions)@ == old(actions)@.push(
                        MuteAction { pid: s.process_id, mute: now_flag },
                    )
                }
            }),
    {
        let pid = s.process_id;
        let is_fg = crate::process::is_foreground_process(pid, foreground_pid);
        let is_excluded = config.is_excluded(s.process_name.as_str());
        let is_always = config.is_always_muted(s.process_name.as_str());
        let is_own = pid == self.own_pid;
        let ghost old_states = self.app_states@;
        let ghost was = flagged(old_states, pid);

        let idx: usize = match find_state_index(&self.app_states, pid) {
            Some(i) => {
                let mut st = self.app_states[i].clone();
                proof {
                    assert(st.is_muted_by_us == was) by {
                        if st.is_muted_by_us {
                            assert(old_states[i as int].pid == pid
                                && old_states[i as int].is_muted_by_us);
                        }
                        if was {
                            let j = choose|j: int|
                                0 <= j < old_states.len() && (#[trigger] old_states[j]).pid == pid
                                    && old_states[j].is_muted_by_us;
                            assert(state_pids(old_states)[j] == pid);
                            assert(state_pids(old_states)[i as int] == pid);
                            assert(j == i as int);
                        }
                    }
                }
                st.last_seen = now_ms;
                st.is_active = true;
                st.display_name = s.display_name.clone();
                proof {
                    lemma_flag_after_update(old_states, i as int, st);
                }
                self.app_states[i] = st;
                i
            },
            None => {
                let st = AppAudioState {
                    pid,
                    process_name: s.process_name.clone(),
                    display_name: s.display_name.clone(),
                    is_muted_by_us: false,
                    original_mute_state: s.is_muted,
                    last_seen: now_ms,
                    is_active: true,
                };
                proof {
                    lemma_flag_after_push(old_states, st);
                    assert(!was);
                }
                self.app_states.push(st);
                self.app_states.len() - 1
            },
        };
        let ghost mid_states = self.app_states@;
        proof {
            assert(flagged(mid_states, pid) == was);
            assert(forall|q: u32|
                q != pid ==> #[trigger] flagged(mid_states, q) == flagged(old_states, q));
            assert(mid_states[idx as int].pid == pid);
        }
        let st_flag = self.app_states[idx].is_muted_by_us;
        proof {
            assert(st_flag == was) by {
                if st_flag {
                    assert(mid_states[idx as int].pid == pid
                        && mid_states[idx as int].is_muted_by_us);
                }
                if flagged(mid_states, pid) {
                    let j = choose|j: int|
                        0 <= j < mid_states.len() && (#[trigger] mid_states[j]).pid == pid
                            && mid_states[j].is_muted_by_us;
                    assert(state_pids(mid_states)[j] == pid);
                    assert(state_pids(mid_states)[idx as int] == pid);
                    assert(j == idx as int);
                }
            }
        }
        if config.muting_enabled && !is_excluded && !is_own {
            if is_always {
                if !st_flag && !s.is_muted {
                    self.mute_at(idx, pid, s, actions);
                }
            } else if is_fg {
                if st_flag {
                    self.unmute_at(idx, pid, actions);
                }
            } else {
                if !st_flag && !s.is_muted {
                    self.mute_at(idx, pid, s, actions);
                }
            }
        } else if !config.muting_enabled || is_excluded {
            if st_flag {
                self.unmute_at(idx, pid, actions);
            }
        }
        proof {
            assert(self.app_states@[idx as int].is_active && self.app_states@[idx as int].last_seen
                == now_ms && self.app_states@[idx as int].display_name@ == s.display_name@);
            assert forall|i: int|
                0 <= i < self.app_states@.len() && (#[trigger] self.app_states@[i]).pid
                    == pid implies self.app_states@[i].is_active && self.app_states@[i].last_seen
                == now_ms && self.app_states@[i].display_name@ == s.display_name@ by {
                assert(state_pids(self.app_states@)[i] == pid);
                assert(state_pids(self.app_states@)[idx as int] == pid);
                assert(i == idx as int);
            }
        }
    }

    /// Marks the state at `idx` muted-by-us, records the process id in the
    /// muted set, and emits the mute call.
    fn mute_at(&mut self, idx: usize, pid: u32, s: &AudioSession, actions: &mut Vec<MuteAction>)
        requires
            distinct_pids(state_pids(old(self).app_states@)),
            mirror_ok(old(self).app_states@, old(self).muted_pids@),
            old(self).audio_manager.spec_has(pid),
            0 <= idx < old(self).app_states@.len(),
            old(self).app_states@[idx as int].pid == pid,
            !old(self).app_states@[idx as int].is_muted_by_us,
        ensures
            final(self).audio_manager == old(self).audio_manager,
            final(self).own_pid == old(self).own_pid,
            final(self).last_foreground_pid == old(self).last_foreground_pid,
            final(self).last_session_refresh == old(self).last_session_refresh,
            final(self).session_refresh_interval == old(self).session_refresh_interval,
            distinct_pids(state_pids(final(self).app_states@)),
            mirror_ok(final(self).app_states@, final(self).muted_pids@),
            final(self).app_states@ == old(self).app_states@.update(
                idx as int,
                final(self).app_states@[idx as int],
            ),
            final(self).app_states@[idx as int] == (AppAudioState {
                is_muted_by_us: true,
                original_mute_state: s.is_muted,
                ..old(self).app_states@[idx as int]
            }),
            forall|q: u32|
                q != pid ==> #[trigger] flagged(final(self).app_states@, q) == flagged(
                    old(self).app_states@,
                    q,
                ),
            flagged(final(self).app_states@, pid),
            forall|q: u32|
                q != pid ==> #[trigger] final(self).muted_pids@.contains(q)
                    == old(self).muted_pids@.contains(q),
            final(self).muted_pids@.contains(pid),
            forall|q: u32|
                q != pid ==> #[trigger] state_has_pid(final(self).app_states@, q)
                    == state_has_pid(old(self).app_states@, q),
            final(actions)@ == old(actions)@.push(MuteAction { pid, mute: true }),
    {
        let ghost old_states = self.app_states@;
        let mut st = self.app_states[idx].clone();
        st.original_mute_state = s.is_muted;
        st.is_muted_by_us = true;
        proof {
            lemma_flag_after_update(old_states, idx as int, st);
            assert(!old(self).muted_pids@.contains(pid)) by {
                if old(self).muted_pids@.contains(pid) {
                    assert(flagged(old_states, pid));
                    let j = choose|j: int|
                        0 <= j < old_states.len() && (#[trigger] old_states[j]).pid == pid
                            && old_states[j].is_muted_by_us;
                    assert(state_pids(old_states)[j] == pid);
                    assert(state_pids(old_states)[idx as int] == pid);
                }
            }
        }
        self.app_states[idx] = st;
        muted_insert(&mut self.muted_pids, pid);
        let act = self.audio_manager.mute_process(pid);
        match act {
            Some(a) => {
                actions.push(a);
            },
            None => {
                proof {
                    assert(false);
                }
            },
        }
    }

    /// Clears the muted-by-us mark of the state at `idx`, removes the
    /// process id from the muted set, and emits the unmute call.
    fn unmute_at(&mut self, idx: usize, pid: u32, actions: &mut Vec<MuteAction>)
        requires
            distinct_pids(state_pids(old(self).app_states@)),
            mirror_ok(old(self).app_states@, old(self).muted_pids@),
            0 <= idx < old(self).app_states@.len(),
            old(self).app_states@[idx as int].pid == pid,
            old(self).app_states@[idx as int].is_muted_by_us,
        ensures
            final(self).audio_manager == old(self).audio_manager,
            final(self).own_pid == old(self).own_pid,
            final(self).last_foreground_pid == old(self).last_foreground_pid,
            final(self).last_session_refresh == old(self).last_session_refresh,
            final(self).session_refresh_interval == old(self).session_refresh_interval,
            distinct_pids(state_pids(final(self).app_states@)),
            mirror_ok(final(self).app_states@, final(self).muted_pids@),
            final(self).app_states@ == old(self).app_states@.update(
                idx as int,
                final(self).app_states@[idx as int],
            ),
            final(self).app_states@[idx as int] == (AppAudioState {
                is_muted_by_us: false,
                ..old(self).app_states@[idx as int]
            }),
            forall|q: u32|
                q != pid ==> #[trigger] flagged(final(self).app_states@, q) == flagged(
                    old(self).app_states@,
                    q,
                ),
            !flagged(final(self).app_states@, pid),
            forall|q: u32|
                q != pid ==> #[trigger] final(self).muted_pids@.contains(q)
                    == old(self).muted_pids@.contains(q),
            !final(self).muted_pids@.contains(pid),
            forall|q: u32|
                q != pid ==> #[trigger] state_has_pid(final(self).app_states@, q)
                    == state_has_pid(old(self).app_states@, q),
            final(actions)@ == old(actions)@.push(MuteAction { pid, mute: false }),
    {
        let ghost old_states = self.app_states@;
        proof {
            assert(old(self).muted_pids@.contains(pid)) by {
                assert(old_states[idx as int].pid == pid
                    && old_states[idx as int].is_muted_by_us);
                assert(flagged(old_states, pid));
            }
        }
        let mut st = self.app_states[idx].clone();
        st.is_muted_by_us = false;
        proof {
            lemma_flag_after_update(old_states, idx as int, st);
        }
        self.app_states[idx] = st;
        muted_remove(&mut self.muted_pids, pid);
        let act = self.audio_manager.unmute_process(pid);
        match act {
            Some(a) => {
                actions.push(a);
            },
            None => {
                actions.push(MuteAction { pid, mute: false });
            },
        }
    }

    /// Sweeps the tracked states after a refresh: a process id not observed
    /// in `list` is marked inactive and, if the engine had muted it,
    /// force-unmuted; entries unobserved for longer than the staleness
    /// threshold are evicted.
    #[verifier::rlimit(100)]
    fn sweep_stale(&mut self, now_ms: u64, list: &Vec<AudioSession>, actions: &mut Vec<MuteAction>)
        requires
            distinct_pids(state_pids(old(self).app_states@)),
            mirror_ok(old(self).app_states@, old(self).muted_pids@),
            !flagged(old(self).app_states@, old(self).own_pid),
            forall|i: int|
                0 <= i < old(self).app_states@.len() ==> (#[trigger] old(self).app_states@[i]).last_seen <= now_ms,
            forall|i: int|
                0 <= i < old(self).app_states@.len() && has_pid(
                    list@,
                    (#[trigger] old(self).app_states@[i]).pid,
                ) ==> old(self).app_states@[i].is_active && old(self).app_states@[i].last_seen
                    == now_ms,
        ensures
            final(self).audio_manager == old(self).audio_manager,
            final(self).own_pid == old(self).own_pid,
            final(self).last_foreground_pid == old(self).last_foreground_pid,
            final(self).last_session_refresh == old(self).last_session_refresh,
            final(self).session_refresh_interval == old(self).session_refresh_interval,
            distinct_pids(state_pids(final(self).app_states@)),
            mirror_ok(final(self).app_states@, final(self).muted_pids@),
            !flagged(final(self).app_states@, final(self).own_pid),
            forall|q: u32| #[trigger]
                final(self).muted_pids@.contains(q) == (old(self).muted_pids@.contains(q)
                    && has_pid(list@, q)),
            forall|q: u32| #[trigger]
                flagged(final(self).app_states@, q) == (flagged(old(self).app_states@, q)
                    && has_pid(list@, q)),
            forall|q: u32| #[trigger]
                state_has_pid(final(self).app_states@, q) == exists|i: int|
                    0 <= i < old(self).app_states@.len() && (#[trigger] old(self).app_states@[i]).pid == q
                        && (has_pid(list@, q) || now_ms - old(self).app_states@[i].last_seen <= STALENESS_MS),
            sweep_source(old(self).app_states@, list@, final(self).app_states@),
            forall|j: int|
                0 <= j < final(self).app_states@.len() ==> (#[trigger] final(self).app_states@[j]).last_seen <= now_ms,
            forall|j: int|
                0 <= j < final(self).app_states@.len() && has_pid(
                    list@,
                    (#[trigger] final(self).app_states@[j]).pid,
                ) ==> final(self).app_states@[j].is_active && final(self).app_states@[j].last_seen
                    == now_ms,
            forall|j: int|
                0 <= j < final(self).app_states@.len() && !has_pid(
                    list@,
                    (#[trigger] final(self).app_states@[j]).pid,
                ) ==> !final(self).app_states@[j].is_active,
            final(actions)@.len() >= old(actions)@.len(),
            forall|i: int| 0 <= i < old(actions)@.len() ==> final(actions)@[i] == old(actions)@[i],
            forall|j: int|
                old(actions)@.len() <= j < final(actions)@.len() ==> (#[trigger] final(actions)@[j]).mute == false
                    && !has_pid(list@, final(actions)@[j].pid) && flagged(
                    old(self).app_states@,
                    final(actions)@[j].pid,
                ),
            forall|j1: int, j2: int|
                old(actions)@.len() <= j1 < final(actions)@.len() && old(actions)@.len() <= j2
                    < final(actions)@.len() && j1 != j2 ==> (#[trigger] final(actions)@[j1]).pid
                    != (#[trigger] final(actions)@[j2]).pid,
            forall|q: u32| #[trigger]
                unmute_in(final(actions)@, q) == (unmute_in(old(actions)@, q) || (flagged(
                    old(self).app_states@,
                    q,
                ) && !has_pid(list@, q))),
            forall|q: u32| #[trigger] mute_in(final(actions)@, q) == mute_in(old(actions)@, q),
    {
        let ghost orig = self.app_states@;
        let ghost base = actions@;
        let ghost muted0 = self.muted_pids@;
        let mut kept: Vec<AppAudioState> = Vec::new();
        let mut k: usize = 0;
        while k < self.app_states.len()
            invariant
                k <= orig.len(),
                self.app_states@ == orig,
                self.audio_manager == old(self).audio_manager,
                self.own_pid == old(self).own_pid,
                self.last_foreground_pid == old(self).last_foreground_pid,
                self.last_session_refresh == old(self).last_session_refresh,
                self.session_refresh_interval == old(self).session_refresh_interval,
                distinct_pids(self.muted_pids@),
                forall|q: u32| #[trigger]
                    self.muted_pids@.contains(q) == (muted0.contains(q) && !exists|i: int|
                        0 <= i < k && (#[trigger] orig[i]).pid == q && !has_pid(list@, q)),
                sweep_source(orig, list@, kept@),
                forall|j: int|
                    #![trigger kept@[j]]
                    0 <= j < kept@.len() ==> exists|i: int|
                        0 <= i < k && (#[trigger] orig[i]).pid == kept@[j].pid,
                forall|i: int|
                    0 <= i < k ==> (exists|j: int|
                        0 <= j < kept@.len() && (#[trigger] kept@[j]).pid == orig[i].pid) == (
                    has_pid(list@, (#[trigger] orig[i]).pid) || now_ms - orig[i].last_seen
                        <= STALENESS_MS),
                distinct_pids(state_pids(kept@)),
                actions@.len() >= base.len(),
                forall|i: int| 0 <= i < base.len() ==> actions@[i] == base[i],
                forall|j: int|
                    base.len() <= j < actions@.len() ==> (#[trigger] actions@[j]).mute == false
                        && !has_pid(list@, actions@[j].pid) && flagged(orig, actions@[j].pid) && (
                    exists|i: int| 0 <= i < k && (#[trigger] orig[i]).pid == actions@[j].pid),
                forall|j1: int, j2: int|
                    base.len() <= j1 < actions@.len() && base.len() <= j2 < actions@.len() && j1
                        != j2 ==> (#[trigger] actions@[j1]).pid != (#[trigger] actions@[j2]).pid,
                forall|q: u32| #[trigger]
                    unmute_in(actions@, q) == (unmute_in(base, q) || (flagged(orig, q) && !has_pid(
                        list@,
                        q,
                    ) && exists|i: int| 0 <= i < k && (#[trigger] orig[i]).pid == q)),
                forall|q: u32| #[trigger] mute_in(actions@, q) == mute_in(base, q),
            decreases orig.len() - k,
        {
            let ghost kidx = k as int;
            let pid = self.app_states[k].pid;
            let seen = crate::audio::sessions_contain_pid(list, pid);
            let ghost kept_before = kept@;
            let ghost acts_before = actions@;
            let ghost muted_before = self.muted_pids@;
            proof {
                assert(!state_has_pid(orig.take(kidx), pid)) by {
                    if state_has_pid(orig.take(kidx), pid) {
                        let i = choose|i: int|
                            0 <= i < kidx && (#[trigger] orig.take(kidx)[i]).pid == pid;
                        assert(state_pids(orig)[i] == pid);
                        assert(state_pids(orig)[kidx] == pid);
                    }
                }
                assert(forall|i: int| 0 <= i < kidx ==> (#[trigger] orig[i]).pid != pid) by {
                    assert forall|i: int| 0 <= i < kidx implies (#[trigger] orig[i]).pid != pid by {
                        if orig[i].pid == pid {
                            assert(orig.take(kidx)[i].pid == pid);
                        }
                    }
                }
                assert(!(exists|j: int| 0 <= j < kept@.len() && (#[trigger] kept@[j]).pid == pid))
                    by {
                    if exists|j: int| 0 <= j < kept@.len() && (#[trigger] kept@[j]).pid == pid {
                        let j = choose|j: int|
                            0 <= j < kept@.len() && (#[trigger] kept@[j]).pid == pid;
                        let i = choose|i: int|
                            0 <= i < k && (#[trigger] orig[i]).pid == kept@[j].pid;
                        assert(state_pids(orig)[i] == pid);
                        assert(state_pids(orig)[kidx] == pid);
                    }
                }
            }
            if seen {
                kept.push(self.app_states[k].clone());
                proof {
                    assert(kept@[kept_before.len() as int] == orig[kidx]);
                    assert(forall|j: int| 0 <= j < kept_before.len() ==> kept@[j] == kept_before[j]);
                }
            } else {
                let mut st = self.app_states[k].clone();
                st.is_active = false;
                if st.is_muted_by_us {
                    st.is_muted_by_us = false;
                    muted_remove(&mut self.muted_pids, pid);
                    actions.push(MuteAction { pid, mute: false });
                    proof {
                        assert(flagged(orig, pid)) by {
                            assert(orig[kidx].pid == pid && orig[kidx].is_muted_by_us);
                        }
                        assert(actions@[acts_before.len() as int] == (MuteAction {
                            pid,
                            mute: false,
                        }));
                        assert(forall|j: int|
                            0 <= j < acts_before.len() ==> actions@[j] == acts_before[j]);
                        assert forall|q: u32| #[trigger]
                            unmute_in(actions@, q) == (unmute_in(acts_before, q) || q == pid) by {
                            if unmute_in(actions@, q) {
                                let j = choose|j: int|
                                    0 <= j < actions@.len() && actions@[j] == (MuteAction {
                                        pid: q,
                                        mute: false,
                                    });
                                if j < acts_before.len() {
                                    assert(acts_before[j] == (MuteAction { pid: q, mute: false }));
                                }
                            }
                            if unmute_in(acts_before, q) {
                                let j = choose|j: int|
                                    0 <= j < acts_before.len() && acts_before[j] == (MuteAction {
                                        pid: q,
                                        mute: false,
                                    });
                                assert(actions@[j] == (MuteAction { pid: q, mute: false }));
                            }
                            if q == pid {
                                assert(actions@[acts_before.len() as int] == (MuteAction {
                                    pid: q,
                                    mute: false,
                                }));
                            }
                        }
                        assert forall|q: u32| #[trigger]
                            mute_in(actions@, q) == mute_in(acts_before, q) by {
                            if mute_in(actions@, q) {
                                let j = choose|j: int|
                                    0 <= j < actions@.len() && actions@[j] == (MuteAction {
                                        pid: q,
                                        mute: true,
                                    });
                                if j == acts_before.len() {
                                    assert(false);
                                } else {
                                    assert(acts_before[j] == (MuteAction { pid: q, mute: true }));
                                }
                            }
                            if mute_in(acts_before, q) {
                                let j = choose|j: int|
                                    0 <= j < acts_before.len() && acts_before[j] == (MuteAction {
                                        pid: q,
                                        mute: true,
                                    });
                                assert(actions@[j] == (MuteAction { pid: q, mute: true }));
                            }
                        }
                    }
                } else {
                    proof {
                        assert(!self.muted_pids@.contains(pid)) by {
                            if muted_before.contains(pid) {
                                assert(muted0.contains(pid));
                                assert(flagged(orig, pid));
                                let i = choose|i: int|
                                    0 <= i < orig.len() && (#[trigger] orig[i]).pid == pid
                                        && orig[i].is_muted_by_us;
                                assert(state_pids(orig)[i] == pid);
                                assert(state_pids(orig)[kidx] == pid);
                                assert(i == kidx);
                            }
                        }
                    }
                }
                if now_ms - st.last_seen <= STALENESS_MS {
                    kept.push(st);
                    proof {
                        assert(kept@[kept_before.len() as int] == (AppAudioState {
                            is_active: false,
                            is_muted_by_us: false,
                            ..orig[kidx]
                        }));
                        assert(forall|j: int|
                            0 <= j < kept_before.len() ==> kept@[j] == kept_before[j]);
                    }
                }
            }
            proof {
                assert forall|i: int|
                    0 <= i < k + 1 implies (exists|j: int|
                    0 <= j < kept@.len() && (#[trigger] kept@[j]).pid == orig[i].pid) == (has_pid(
                    list@,
                    (#[trigger] orig[i]).pid,
                ) || now_ms - orig[i].last_seen <= STALENESS_MS) by {
                    if i < k {
                        if exists|j: int|
                            0 <= j < kept_before.len() && (#[trigger] kept_before[j]).pid
                                == orig[i].pid {
                            let j = choose|j: int|
                                0 <= j < kept_before.len() && (#[trigger] kept_before[j]).pid
                                    == orig[i].pid;
                            assert(kept@[j].pid == orig[i].pid);
                        }
                        if exists|j: int|
                            0 <= j < kept@.len() && (#[trigger] kept@[j]).pid == orig[i].pid {
                            let j = choose|j: int|
                                0 <= j < kept@.len() && (#[trigger] kept@[j]).pid == orig[i].pid;
                            if j >= kept_before.len() {
                                assert(kept@[j].pid == pid);
                                assert(orig[i].pid != pid);
                            } else {
                                assert(kept_before[j].pid == orig[i].pid);
                            }
                        }
                    } else {
                        if seen {
                            assert(kept@[kept_before.len() as int].pid == pid);
                        } else if now_ms - orig[kidx].last_seen <= STALENESS_MS {
                            assert(kept@[kept_before.len() as int].pid == pid);
                        } else {
                            if exists|j: int|
                                0 <= j < kept@.len() && (#[trigger] kept@[j]).pid == pid {
                                let j = choose|j: int|
                                    0 <= j < kept@.len() && (#[trigger] kept@[j]).pid == pid;
                                assert(j < kept_before.len());
                                assert(kept_before[j].pid == pid);
                            }
                        }
                    }
                }
                assert(distinct_pids(state_pids(kept@))) by {
                    assert forall|j1: int, j2: int|
                        0 <= j1 < state_pids(kept@).len() && 0 <= j2 < state_pids(kept@).len() && j1
                            != j2 implies state_pids(kept@)[j1] != state_pids(kept@)[j2] by {
                        assert(state_pids(kept@)[j1] == kept@[j1].pid);
                        assert(state_pids(kept@)[j2] == kept@[j2].pid);
                        if j1 < kept_before.len() && j2 < kept_before.len() {
                            assert(state_pids(kept_before)[j1] == kept_before[j1].pid);
                            assert(state_pids(kept_before)[j2] == kept_before[j2].pid);
                            assert(state_pids(kept_before)[j1] != state_pids(kept_before)[j2]);
                        } else if j1 < kept_before.len() {
                            assert(kept@[j2].pid == pid);
                            assert(kept@[j1] == kept_before[j1]);
                        } else if j2 < kept_before.len() {
                            assert(kept@[j1].pid == pid);
                            assert(kept@[j2] == kept_before[j2]);
                        }
                    }
                }
            }
            k = k + 1;
        }
        self.app_states = kept;
        proof {
            lemma_sweep_summary(orig, list@, kept@, muted0, self.muted_pids@, now_ms);
            assert(!flagged(self.app_states@, self.own_pid));
            assert forall|j: int|
                0 <= j < self.app_states@.len() implies (#[trigger] self.app_states@[j]).last_seen
                <= now_ms by {
                assert(kept@[j] == self.app_states@[j]);
                let i = choose|i: int|
                    0 <= i < orig.len() && #[trigger] (orig[i]).pid == kept@[j].pid && (if has_pid(
                        list@,
                        orig[i].pid,
                    ) {
                        kept@[j] == orig[i]
                    } else {
                        kept@[j] == (AppAudioState {
                            is_active: false,
                            is_muted_by_us: false,
                            ..orig[i]
                        })
                    });
                assert(kept@[j].last_seen == orig[i].last_seen);
            }
        }
    }

    /// Whether the next tick at `now_ms` must re-enumerate the sessions:
    /// always on a foreground change, otherwise when the refresh interval has
    /// elapsed.
    pub open spec fn spec_should_refresh(self, now_ms: u64, foreground_pid: Option<u32>) -> bool {
        foreground_pid != self.last_foreground_pid || now_ms - self.last_session_refresh
            >= self.session_refresh_interval
    }

    /// Decides whether this tick performs the expensive session enumeration.
    pub fn should_refresh(&self, now_ms: u64, foreground_pid: Option<u32>) -> (r: bool)
        requires
            now_ms >= self.last_session_refresh,
        ensures
            r == self.spec_should_refresh(now_ms, foreground_pid),
    {
        let changed = !pid_opt_eq(foreground_pid, self.last_foreground_pid);
        changed || now_ms - self.last_session_refresh >= self.session_refresh_interval
    }

    /// One tick of the reconciliation engine.
    ///
    /// `sessions` carries the freshly enumerated, deduplicated sessions when
    /// the engine asked for a refresh (see `should_refresh`), and nothing on
    /// a throttled tick, which changes no state.  On a refreshing tick the
    /// cache is replaced wholesale, the policy is applied to every reported
    /// session, and unobserved processes are swept.  Returns the tick summary
    /// and the mute-control actions to perform, at most one per process.
    #[verifier::rlimit(100)]
    pub fn update(
        &mut self,
        config: &Config,
        now_ms: u64,
        foreground_pid: Option<u32>,
        sessions: Option<Vec<AudioSession>>,
    ) -> (r: (UpdateResult, Vec<MuteAction>))
        requires
            old(self).wf(),
            now_ms >= old(self).last_session_refresh,
            sessions matches Some(list) ==> distinct_pids(session_pids(list@)),
            sessions is Some == old(self).spec_should_refresh(now_ms, foreground_pid),
        ensures
            final(self).wf(),
            final(self).own_pid == old(self).own_pid,
            final(self).session_refresh_interval == old(self).session_refresh_interval,
            final(self).last_foreground_pid == foreground_pid,
            r.0.foreground_pid == foreground_pid,
            r.0.foreground_changed == (foreground_pid != old(self).last_foreground_pid),
            r.0.active_sessions == final(self).app_states@.len(),
            r.0.muted_count == final(self).muted_pids@.len(),
            sessions is None ==> final(self).app_states == old(self).app_states
                && final(self).muted_pids == old(self).muted_pids
                && final(self).audio_manager == old(self).audio_manager
                && final(self).last_session_refresh == old(self).last_session_refresh
                && r.1@.len() == 0,
            sessions matches Some(list) ==> {
                &&& final(self).last_session_refresh == now_ms
                &&& (forall|q: u32|
                    final(self).audio_manager.spec_has(q) == has_pid(list@, q))
                &&& (forall|i: int|
                    0 <= i < list@.len() ==> state_has_pid(
                        final(self).app_states@,
                        (#[trigger] list@[i]).process_id,
                    ))
                &&& (forall|i: int|
                    0 <= i < list@.len() ==> flagged(
                        final(self).app_states@,
                        (#[trigger] list@[i]).process_id,
                    ) == decide_muted(
                        *config,
                        old(self).own_pid,
                        foreground_pid,
                        flagged(old(self).app_states@, list@[i].process_id),
                        list@[i],
                    ))
                &&& (forall|q: u32| #[trigger] flagged(final(self).app_states@, q) ==> has_pid(
                    list@,
                    q,
                ))
                &&& (forall|j: int|
                    0 <= j < final(self).app_states@.len() && has_pid(
                        list@,
                        (#[trigger] final(self).app_states@[j]).pid,
                    ) ==> final(self).app_states@[j].is_active
                        && final(self).app_states@[j].last_seen == now_ms)
                &&& (forall|j: int|
                    0 <= j < final(self).app_states@.len() && !has_pid(
                        list@,
                        (#[trigger] final(self).app_states@[j]).pid,
                    ) ==> !final(self).app_states@[j].is_active)
                &&& (forall|q: u32| #[trigger]
                    unmute_in(r.1@, q) == (flagged(old(self).app_states@, q) && !flagged(
                        final(self).app_states@,
                        q,
                    )))
                &&& (forall|q: u32| #[trigger]
                    mute_in(r.1@, q) == (!flagged(old(self).app_states@, q) && flagged(
                        final(self).app_states@,
                        q,
                    )))
                &&& one_action_per_pid(r.1@)
                &&& (forall|i: int|
                    0 <= i < old(self).app_states@.len() ==> state_has_pid(
                        final(self).app_states@,
                        (#[trigger] old(self).app_states@[i]).pid,
                    ) == (has_pid(list@, old(self).app_states@[i].pid)
                        || now_ms - old(self).app_states@[i].last_seen <= STALENESS_MS))
                &&& (!config.muting_enabled ==> final(self).muted_pids@.len() == 0 && (forall|
                    j: int,
                |
                    0 <= j < final(self).app_states@.len() ==> !(#[trigger] final(self).app_states@[j]).is_muted_by_us))
                &&& (forall|i: int|
                    0 <= i < list@.len() && foreground_pid == Some(
                        (#[trigger] list@[i]).process_id,
                    ) && !config.spec_is_always_muted(list@[i].process_name@) ==> !flagged(
                        final(self).app_states@,
                        list@[i].process_id,
                    ))
                &&& (forall|i: int|
                    0 <= i < list@.len() && config.spec_is_excluded(
                        (#[trigger] list@[i]).process_name@,
                    ) ==> !flagged(final(self).app_states@, list@[i].process_id))
            },
    {
        let foreground_changed = !pid_opt_eq(foreground_pid, self.last_foreground_pid);
        self.last_foreground_pid = foreground_pid;
        match sessions {
            None => {
                let result = UpdateResult {
                    foreground_pid,
                    foreground_changed: false,
                    active_sessions: self.app_states.len(),
                    muted_count: self.muted_pids.len(),
                };
                (result, Vec::new())
            },
            Some(list) => {
                self.last_session_refresh = now_ms;
                self.audio_manager.replace_sessions(&list);
                let ghost states0 = self.app_states@;
                let ghost muted0 = self.muted_pids@;
                let mut actions: Vec<MuteAction> = Vec::new();
                let mut k: usize = 0;
                while k < list.len()
                    invariant
                        k <= list@.len(),
                        self.own_pid == old(self).own_pid,
                        self.last_foreground_pid == foreground_pid,
                        self.last_session_refresh == now_ms,
                        self.session_refresh_interval == old(self).session_refresh_interval,
                        forall|q: u32| self.audio_manager.spec_has(q) == has_pid(list@, q),
                        self.audio_manager.wf(),
                        distinct_pids(state_pids(self.app_states@)),
                        mirror_ok(self.app_states@, self.muted_pids@),
                        !flagged(self.app_states@, self.own_pid),
                        forall|i: int|
                            0 <= i < self.app_states@.len() ==> (#[trigger] self.app_states@[i]).last_seen
                                <= now_ms,
                        states0.len() <= self.app_states@.len(),
                        forall|i: int|
                            0 <= i < k ==> state_has_pid(
                                self.app_states@,
                                (#[trigger] list@[i]).process_id,
                            ),
                        forall|i: int|
                            0 <= i < k ==> flagged(
                                self.app_states@,
                                (#[trigger] list@[i]).process_id,
                            ) == decide_muted(
                                *config,
                                self.own_pid,
                                foreground_pid,
                                flagged(states0, list@[i].process_id),
                                list@[i],
                            ),
                        forall|j: int|
                            0 <= j < self.app_states@.len() && has_pid(
                                list@.take(k as int),
                                (#[trigger] self.app_states@[j]).pid,
                            ) ==> self.app_states@[j].is_active && self.app_states@[j].last_seen
                                == now_ms,
                        forall|q: u32|
                            !has_pid(list@.take(k as int), q) ==> #[trigger] flagged(
                                self.app_states@,
                                q,
                            ) == flagged(states0, q),
                        forall|q: u32|
                            !has_pid(list@.take(k as int), q) ==> #[trigger] state_has_pid(
                                self.app_states@,
                                q,
                            ) == state_has_pid(states0, q),
                        forall|q: u32|
                            !has_pid(list@.take(k as int), q) ==> #[trigger] self.muted_pids@.contains(
                                q,
                            ) == muted0.contains(q),
                        forall|i: int|
                            0 <= i < states0.len() && !has_pid(
                                list@.take(k as int),
                                (#[trigger] states0[i]).pid,
                            ) ==> self.app_states@[i] == states0[i],
                        forall|q: u32| #[trigger]
                            unmute_in(actions@, q) == (flagged(states0, q) && !flagged(
                                self.app_states@,
                                q,
                            )),
                        forall|q: u32| #[trigger]
                            mute_in(actions@, q) == (!flagged(states0, q) && flagged(
                                self.app_states@,
                                q,
                            )),
                        one_action_per_pid(actions@),
                        forall|j: int|
                            0 <= j < actions@.len() ==> has_pid(
                                list@.take(k as int),
                                (#[trigger] actions@[j]).pid,
                            ),
                    decreases list@.len() - k,
                {
                    let ghost kidx = k as int;
                    let ghost pre_states = self.app_states@;
                    let ghost pre_muted = self.muted_pids@;
                    let ghost pre_actions = actions@;
                    let pid = list[k].process_id;
                    proof {
                        assert(has_pid(list@, pid)) by {
                            assert(list@[kidx].process_id == pid);
                        }
                        assert(!has_pid(list@.take(kidx), pid)) by {
                            if has_pid(list@.take(kidx), pid) {
                                let i = choose|i: int|
                                    0 <= i < kidx && (#[trigger] list@.take(kidx)[i]).process_id
                                        == pid;
                                assert(session_pids(list@)[i] == pid);
                                assert(session_pids(list@)[kidx] == pid);
                            }
                        }
                    }
                    self.apply_session(config, now_ms, foreground_pid, &list[k], &mut actions);
                    proof {
                        let s = list@[kidx];
                        let was = flagged(states0, pid);
                        let dec = decide_muted(*config, self.own_pid, foreground_pid, was, s);
                        assert(flagged(pre_states, pid) == was);
                        assert(flagged(self.app_states@, pid) == dec);
                        assert(list@.take(kidx + 1).drop_last() =~= list@.take(kidx));
                        assert(list@.take(kidx + 1).last() == s);
                        assert forall|q: u32|
                            has_pid(list@.take(kidx + 1), q) == (has_pid(list@.take(kidx), q) || q
                                == pid) by {
                            if has_pid(list@.take(kidx + 1), q) {
                                let i = choose|i: int|
                                    0 <= i < kidx + 1 && (#[trigger] list@.take(kidx + 1)[i]).process_id
                                        == q;
                                if i < kidx {
                                    assert(list@.take(kidx)[i].process_id == q);
                                }
                            }
                            if has_pid(list@.take(kidx), q) {
                                let i = choose|i: int|
                                    0 <= i < kidx && (#[trigger] list@.take(kidx)[i]).process_id
                                        == q;
                                assert(list@.take(kidx + 1)[i].process_id == q);
                            }
                            if q == pid {
                                assert(list@.take(kidx + 1)[kidx].process_id == q);
                            }
                        }
                        // decisions of earlier sessions are untouched
                        assert forall|i: int|
                            0 <= i < k + 1 implies flagged(
                            self.app_states@,
                            (#[trigger] list@[i]).process_id,
                        ) == decide_muted(
                            *config,
                            self.own_pid,
                            foreground_pid,
                            flagged(states0, list@[i].process_id),
                            list@[i],
                        ) && state_has_pid(self.app_states@, list@[i].process_id) by {
                            if i < k {
                                assert(list@[i].process_id != pid) by {
                                    assert(session_pids(list@)[i] == list@[i].process_id);
                                    assert(session_pids(list@)[kidx] == pid);
                                }
                                assert(flagged(self.app_states@, list@[i].process_id) == flagged(
                                    pre_states,
                                    list@[i].process_id,
                                ));
                                assert(state_has_pid(self.app_states@, list@[i].process_id)
                                    == state_has_pid(pre_states, list@[i].process_id));
                            }
                        }
                        // action bookkeeping
                        let appended = (if was == dec {
                            pre_actions
                        } else {
                            pre_actions.push(MuteAction { pid, mute: dec })
                        });
                        assert(actions@ == appended);
                        assert forall|q: u32| #[trigger]
                            unmute_in(actions@, q) == (flagged(states0, q) && !flagged(
                                self.app_states@,
                                q,
                            )) by {
                            lemma_action_membership(pre_actions, actions@, was, dec, pid, q);
                            if q != pid {
                                assert(flagged(self.app_states@, q) == flagged(pre_states, q));
                            }
                        }
                        assert forall|q: u32| #[trigger]
                            mute_in(actions@, q) == (!flagged(states0, q) && flagged(
                                self.app_states@,
                                q,
                            )) by {
                            lemma_action_membership(pre_actions, actions@, was, dec, pid, q);
                            if q != pid {
                                assert(flagged(self.app_states@, q) == flagged(pre_states, q));
                            }
                        }
                        assert(one_action_per_pid(actions@)) by {
                            if was != dec {
                                assert forall|j1: int, j2: int|
                                    0 <= j1 < actions@.len() && 0 <= j2 < actions@.len() && j1
                                        != j2 implies (#[trigger] actions@[j1]).pid != (
                                    #[trigger] actions@[j2]).pid by {
                                    if j1 < pre_actions.len() && j2 < pre_actions.len() {
                                        assert(pre_actions[j1].pid != pre_actions[j2].pid);
                                    } else if j1 < pre_actions.len() {
                                        assert(actions@[j2].pid == pid);
                                        assert(has_pid(
                                            list@.take(kidx),
                                            pre_actions[j1].pid,
                                        ));
                                    } else if j2 < pre_actions.len() {
                                        assert(actions@[j1].pid == pid);
                                        assert(has_pid(
                                            list@.take(kidx),
                                            pre_actions[j2].pid,
                                        ));
                                    }
                                }
                            }
                        }
                        assert forall|j: int|
                            0 <= j < actions@.len() implies has_pid(
                            list@.take(kidx + 1),
                            (#[trigger] actions@[j]).pid,
                        ) by {
                            if j < pre_actions.len() {
                                assert(has_pid(list@.take(kidx), pre_actions[j].pid));
                            } else {
                                assert(actions@[j].pid == pid);
                            }
                        }
                        assert forall|j: int|
                            0 <= j < self.app_states@.len() && has_pid(
                                list@.take(kidx + 1),
                                (#[trigger] self.app_states@[j]).pid,
                            ) implies self.app_states@[j].is_active
                            && self.app_states@[j].last_seen == now_ms by {
                            let q = self.app_states@[j].pid;
                            if q == pid {
                                assert(self.app_states@[j].is_active);
                            } else {
                                assert(has_pid(list@.take(kidx), q));
                                if j < pre_states.len() {
                                    assert(pre_states[j].pid == q);
                                    assert(pre_states[j].is_active && pre_states[j].last_seen
                                        == now_ms);
                                    assert(self.app_states@[j] == pre_states[j]);
                                }
                            }
                        }
                    }
                    k = k + 1;
                }
                proof {
                    assert(list@.take(list@.len() as int) =~= list@);
                }
                let ghost mid_states = self.app_states@;
                let ghost mid_muted = self.muted_pids@;
                let ghost mid_actions = actions@;
                self.sweep_stale(now_ms, &list, &mut actions);
                proof {
                    // decisions of every reported session survive the sweep
                    assert forall|i: int| 0 <= i < list@.len() implies state_has_pid(
                        self.app_states@,
                        (#[trigger] list@[i]).process_id,
                    ) && flagged(self.app_states@, list@[i].process_id) == decide_muted(
                        *config,
                        self.own_pid,
                        foreground_pid,
                        flagged(states0, list@[i].process_id),
                        list@[i],
                    ) by {
                        let q = list@[i].process_id;
                        assert(has_pid(list@, q)) by {
                            assert(list@[i].process_id == q);
                        }
                        assert(state_has_pid(mid_states, q));
                        let i2 = choose|i2: int|
                            0 <= i2 < mid_states.len() && (#[trigger] mid_states[i2]).pid == q;
                        assert(mid_states[i2].pid == q && (has_pid(list@, q) || now_ms
                            - mid_states[i2].last_seen <= STALENESS_MS));
                        assert(state_has_pid(self.app_states@, q));
                        assert(flagged(self.app_states@, q) == (flagged(mid_states, q) && has_pid(list@, q)));
                    }
                    // unmute actions match exactly the muted-by-us marks that fell
                    assert forall|q: u32| #[trigger]
                        unmute_in(actions@, q) == (flagged(states0, q) && !flagged(self.app_states@, q)) by {
                        assert(unmute_in(actions@, q) == (unmute_in(mid_actions, q) || (flagged(
                            mid_states,
                            q,
                        ) && !has_pid(list@, q))));
                        if has_pid(list@, q) {
                            assert(flagged(self.app_states@, q) == (flagged(mid_states, q) && has_pid(list@, q)));
                        } else {
                            assert(!unmute_in(mid_actions, q)) by {
                                if unmute_in(mid_actions, q) {
                                    let j = choose|j: int|
                                        0 <= j < mid_actions.len() && mid_actions[j] == (MuteAction {
                                            pid: q,
                                            mute: false,
                                        });
                                    assert(has_pid(list@, mid_actions[j].pid));
                                }
                            }
                            assert(flagged(mid_states, q) == flagged(states0, q));
                            assert(!flagged(self.app_states@, q));
                        }
                    }
                    // mute actions match exactly the muted-by-us marks that rose
                    assert forall|q: u32| #[trigger]
                        mute_in(actions@, q) == (!flagged(states0, q) && flagged(self.app_states@, q)) by {
                        assert(mute_in(actions@, q) == mute_in(mid_actions, q));
                        if has_pid(list@, q) {
                            assert(flagged(self.app_states@, q) == (flagged(mid_states, q) && has_pid(list@, q)));
                        } else {
                            assert(!mute_in(mid_actions, q)) by {
                                if mute_in(mid_actions, q) {
                                    let j = choose|j: int|
                                        0 <= j < mid_actions.len() && mid_actions[j] == (MuteAction {
                                            pid: q,
                                            mute: true,
                                        });
                                    assert(has_pid(list@, mid_actions[j].pid));
                                }
                            }
                            assert(flagged(mid_states, q) == flagged(states0, q));
                            assert(!flagged(self.app_states@, q));
                        }
                    }
                    // at most one action per process over the whole tick
                    assert(one_action_per_pid(actions@)) by {
                        assert forall|j1: int, j2: int|
                            0 <= j1 < actions@.len() && 0 <= j2 < actions@.len() && j1 != j2 implies (
                        #[trigger] actions@[j1]).pid != (#[trigger] actions@[j2]).pid by {
                            if j1 < mid_actions.len() && j2 < mid_actions.len() {
                                assert(actions@[j1] == mid_actions[j1]);
                                assert(actions@[j2] == mid_actions[j2]);
                                assert(mid_actions[j1].pid != mid_actions[j2].pid);
                            } else if j1 < mid_actions.len() {
                                assert(actions@[j1] == mid_actions[j1]);
                                assert(has_pid(list@, mid_actions[j1].pid));
                                assert(!has_pid(list@, actions@[j2].pid));
                            } else if j2 < mid_actions.len() {
                                assert(actions@[j2] == mid_actions[j2]);
                                assert(has_pid(list@, mid_actions[j2].pid));
                                assert(!has_pid(list@, actions@[j1].pid));
                            }
                        }
                    }
                    // eviction: an unobserved process is kept exactly while fresh
                    assert forall|i: int| 0 <= i < states0.len() implies state_has_pid(
                        self.app_states@,
                        (#[trigger] states0[i]).pid,
                    ) == (has_pid(list@, states0[i].pid) || now_ms - states0[i].last_seen
                        <= STALENESS_MS) by {
                        let q = states0[i].pid;
                        if has_pid(list@, q) {
                            let j = choose|j: int|
                                0 <= j < list@.len() && (#[trigger] list@[j]).process_id == q;
                            assert(state_has_pid(self.app_states@, list@[j].process_id));
                        } else {
                            assert(mid_states[i] == states0[i]);
                            assert(state_has_pid(self.app_states@, q) == exists|i2: int|
                                0 <= i2 < mid_states.len() && (#[trigger] mid_states[i2]).pid == q
                                    && (has_pid(list@, q) || now_ms - mid_states[i2].last_seen
                                    <= STALENESS_MS));
                            if state_has_pid(self.app_states@, q) {
                                let i2 = choose|i2: int|
                                    0 <= i2 < mid_states.len() && (#[trigger] mid_states[i2]).pid
                                        == q && (has_pid(list@, q) || now_ms
                                        - mid_states[i2].last_seen <= STALENESS_MS);
                                assert(state_pids(mid_states)[i2] == q);
                                assert(state_pids(mid_states)[i] == q);
                                assert(i2 == i);
                            }
                            if now_ms - states0[i].last_seen <= STALENESS_MS {
                                assert(mid_states[i].pid == q && (has_pid(list@, q) || now_ms
                                    - mid_states[i].last_seen <= STALENESS_MS));
                            }
                        }
                    }
                    // a disabled switch leaves nothing muted
                    if !config.muting_enabled {
                        assert forall|j: int|
                            0 <= j < self.app_states@.len() implies !(#[trigger] self.app_states@[j]).is_muted_by_us by {
                            if self.app_states@[j].is_muted_by_us {
                                assert(flagged(self.app_states@, self.app_states@[j].pid)) by {
                                    assert(self.app_states@[j].pid == self.app_states@[j].pid && self.app_states@[j].is_muted_by_us);
                                }
                                assert(has_pid(list@, self.app_states@[j].pid));
                                let i = choose|i: int|
                                    0 <= i < list@.len() && (#[trigger] list@[i]).process_id
                                        == self.app_states@[j].pid;
                                assert(flagged(self.app_states@, list@[i].process_id) == decide_muted(
                                    *config,
                                    self.own_pid,
                                    foreground_pid,
                                    flagged(states0, list@[i].process_id),
                                    list@[i],
                                ));
                            }
                        }
                        assert(self.muted_pids@.len() == 0) by {
                            if self.muted_pids@.len() > 0 {
                                assert(self.muted_pids@.contains(self.muted_pids@[0]));
                                assert(flagged(self.app_states@, self.muted_pids@[0]));
                                assert(has_pid(list@, self.muted_pids@[0]));
                                let i = choose|i: int|
                                    0 <= i < list@.len() && (#[trigger] list@[i]).process_id
                                        == self.muted_pids@[0];
                                assert(flagged(self.app_states@, list@[i].process_id) == decide_muted(
                                    *config,
                                    self.own_pid,
                                    foreground_pid,
                                    flagged(states0, list@[i].process_id),
                                    list@[i],
                                ));
                            }
                        }
                    }
                    // the foreground and exclusion exemptions, read off the decision
                    assert forall|i: int|
                        0 <= i < list@.len() && foreground_pid == Some(
                            (#[trigger] list@[i]).process_id,
                        ) && !config.spec_is_always_muted(list@[i].process_name@) implies !flagged(
                        self.app_states@,
                        list@[i].process_id,
                    ) by {
                        if list@[i].process_id == self.own_pid {
                            assert(!flagged(states0, self.own_pid));
                        }
                    }
                    // the engine invariant holds again
                    assert forall|pid: u32| #[trigger]
                        self.muted_pids@.contains(pid) implies self.audio_manager.spec_has(
                        pid,
                    ) by {
                        assert(has_pid(list@, pid));
                    }
                }
                let result = UpdateResult {
                    foreground_pid,
                    foreground_changed,
                    active_sessions: self.app_states.len(),
                    muted_count: self.muted_pids.len(),
                };
                (result, actions)
            },
        }
    }

    /// Replaces the session cache with a fresh enumeration outside the
    /// regular tick cadence.  A process the engine had muted but that is no
    /// longer enumerated loses its control handle with the old cache, so it
    /// is unmuted, while its handle still exists, and dropped from the muted
    /// set.
    #[verifier::rlimit(100)]
    pub fn force_refresh(&mut self, now_ms: u64, sessions: &Vec<AudioSession>) -> (actions: Vec<
        MuteAction,
    >)
        requires
            old(self).wf(),
            now_ms >= old(self).last_session_refresh,
            distinct_pids(session_pids(sessions@)),
        ensures
            final(self).wf(),
            final(self).last_session_refresh == now_ms,
            final(self).own_pid == old(self).own_pid,
            final(self).last_foreground_pid == old(self).last_foreground_pid,
            final(self).session_refresh_interval == old(self).session_refresh_interval,
            forall|q: u32| final(self).audio_manager.spec_has(q) == has_pid(sessions@, q),
            forall|q: u32| #[trigger]
                final(self).muted_pids@.contains(q) == (old(self).muted_pids@.contains(q)
                    && has_pid(sessions@, q)),
            forall|q: u32| #[trigger]
                flagged(final(self).app_states@, q) == (flagged(old(self).app_states@, q)
                    && has_pid(sessions@, q)),
            final(self).app_states@.len() == old(self).app_states@.len(),
            forall|i: int|
                #![trigger final(self).app_states@[i]]
                0 <= i < old(self).app_states@.len() ==> final(self).app_states@[i] == old(
                    self,
                ).app_states@[i] || final(self).app_states@[i] == (AppAudioState {
                    is_muted_by_us: false,
                    ..old(self).app_states@[i]
                }),
            forall|q: u32| #[trigger]
                unmute_in(actions@, q) == (old(self).muted_pids@.contains(q) && !has_pid(
                    sessions@,
                    q,
                )),
            forall|j: int| 0 <= j < actions@.len() ==> !(#[trigger] actions@[j]).mute,
            one_action_per_pid(actions@),
    {
        let ghost states0 = self.app_states@;
        let ghost muted0 = self.muted_pids@;
        let mut kept_muted: Vec<u32> = Vec::new();
        let mut actions: Vec<MuteAction> = Vec::new();
        let mut k: usize = 0;
        while k < self.muted_pids.len()
            invariant
                k <= muted0.len(),
                self.muted_pids@ == muted0,
                self.audio_manager == old(self).audio_manager,
                self.own_pid == old(self).own_pid,
                self.last_foreground_pid == old(self).last_foreground_pid,
                self.last_session_refresh == old(self).last_session_refresh,
                self.session_refresh_interval == old(self).session_refresh_interval,
                self.app_states@.len() == states0.len(),
                distinct_pids(state_pids(self.app_states@)),
                forall|i: int| 0 <= i < states0.len() ==> (#[trigger] self.app_states@[i]).pid == states0[i].pid,
                forall|i: int|
                    #![trigger self.app_states@[i]]
                    0 <= i < states0.len() ==> self.app_states@[i] == states0[i]
                        || self.app_states@[i] == (AppAudioState {
                        is_muted_by_us: false,
                        ..states0[i]
                    }),
                forall|q: u32| #[trigger]
                    flagged(self.app_states@, q) == (flagged(states0, q) && !(exists|i: int|
                        0 <= i < k && muted0[i] == q && !has_pid(sessions@, q))),
                distinct_pids(kept_muted@),
                forall|q: u32| #[trigger]
                    kept_muted@.contains(q) == (exists|i: int|
                        0 <= i < k && muted0[i] == q && has_pid(sessions@, q)),
                forall|q: u32| #[trigger]
                    unmute_in(actions@, q) == (exists|i: int|
                        0 <= i < k && muted0[i] == q && !has_pid(sessions@, q)),
                forall|j: int| 0 <= j < actions@.len() ==> !(#[trigger] actions@[j]).mute,
                one_action_per_pid(actions@),
                forall|j: int|
                    0 <= j < actions@.len() ==> muted0.contains((#[trigger] actions@[j]).pid)
                        && !has_pid(sessions@, actions@[j].pid),
            decreases muted0.len() - k,
        {
            let ghost kidx = k as int;
            let pid = self.muted_pids[k];
            let seen = crate::audio::sessions_contain_pid(sessions, pid);
            let ghost kept_before = kept_muted@;
            let ghost acts_before = actions@;
            let ghost states_before = self.app_states@;
            proof {
                assert(muted0.contains(pid)) by {
                    assert(muted0[kidx] == pid);
                }
                assert(forall|i: int| 0 <= i < muted0.len() && i != kidx ==> muted0[i] != pid);
            }
            if seen {
                kept_muted.push(pid);
                proof {
                    assert(kept_muted@[kept_before.len() as int] == pid);
                    assert(forall|j: int|
                        0 <= j < kept_before.len() ==> kept_muted@[j] == kept_before[j]);
                    assert(!kept_before.contains(pid)) by {
                        if kept_before.contains(pid) {
                            assert(exists|i: int|
                                0 <= i < k && muted0[i] == pid && has_pid(sessions@, pid));
                            let i = choose|i: int|
                                0 <= i < k && muted0[i] == pid && has_pid(sessions@, pid);
                            assert(muted0[i] != pid);
                        }
                    }
                    assert forall|q: u32| #[trigger]
                        kept_muted@.contains(q) == (kept_before.contains(q) || q == pid) by {
                        if kept_muted@.contains(q) {
                            let j = choose|j: int|
                                0 <= j < kept_muted@.len() && kept_muted@[j] == q;
                            if j < kept_before.len() {
                                assert(kept_before[j] == q);
                            }
                        }
                        if kept_before.contains(q) {
                            let j = choose|j: int| 0 <= j < kept_before.len() && kept_before[j] == q;
                            assert(kept_muted@[j] == q);
                        }
                        if q == pid {
                            assert(kept_muted@[kept_before.len() as int] == q);
                        }
                    }
                    assert forall|j1: int, j2: int|
                        0 <= j1 < kept_muted@.len() && 0 <= j2 < kept_muted@.len() && j1
                            != j2 implies kept_muted@[j1] != kept_muted@[j2] by {
                        if j1 < kept_before.len() && j2 < kept_before.len() {
                            assert(kept_before[j1] != kept_before[j2]);
                        } else if j1 < kept_before.len() {
                            assert(kept_muted@[j2] == pid);
                            if kept_before[j1] == pid {
                                assert(kept_before.contains(pid));
                            }
                        } else if j2 < kept_before.len() {
                            assert(kept_muted@[j1] == pid);
                            if kept_before[j2] == pid {
                                assert(kept_before.contains(pid));
                            }
                        }
                    }
                }
            } else {
                proof {
                    assert(flagged(states0, pid));
                    assert(flagged(self.app_states@, pid)) by {
                        assert(!(exists|i: int|
                            0 <= i < k && muted0[i] == pid && !has_pid(sessions@, pid))) by {
                            if exists|i: int|
                                0 <= i < k && muted0[i] == pid && !has_pid(sessions@, pid) {
                                let i = choose|i: int|
                                    0 <= i < k && muted0[i] == pid && !has_pid(sessions@, pid);
                                assert(muted0[i] != pid);
                            }
                        }
                    }
                }
                match find_state_index(&self.app_states, pid) {
                    Some(i) => {
                        let mut st = self.app_states[i].clone();
                        st.is_muted_by_us = false;
                        proof {
                            lemma_flag_after_update(states_before, i as int, st);
                        }
                        self.app_states[i] = st;
                        proof {
                            assert(self.app_states@[i as int] == (AppAudioState {
                                is_muted_by_us: false,
                                ..states_before[i as int]
                            }));
                        }
                    },
                    None => {
                        proof {
                            let j = choose|j: int|
                                0 <= j < self.app_states@.len() && (
                                #[trigger] self.app_states@[j]).pid == pid
                                    && self.app_states@[j].is_muted_by_us;
                            assert(false);
                        }
                    },
                }
                actions.push(MuteAction { pid, mute: false });
                proof {
                    assert(actions@[acts_before.len() as int] == (MuteAction { pid, mute: false }));
                    assert(forall|j: int|
                        0 <= j < acts_before.len() ==> actions@[j] == acts_before[j]);
                    assert forall|q: u32| #[trigger]
                        unmute_in(actions@, q) == (unmute_in(acts_before, q) || q == pid) by {
                        if unmute_in(actions@, q) {
                            let j = choose|j: int|
                                0 <= j < actions@.len() && actions@[j] == (MuteAction {
                                    pid: q,
                                    mute: false,
                                });
                            if j < acts_before.len() {
                                assert(acts_before[j] == (MuteAction { pid: q, mute: false }));
                            }
                        }
                        if unmute_in(acts_before, q) {
                            let j = choose|j: int|
                                0 <= j < acts_before.len() && acts_before[j] == (MuteAction {
                                    pid: q,
                                    mute: false,
                                });
                            assert(actions@[j] == (MuteAction { pid: q, mute: false }));
                        }
                        if q == pid {
                            assert(actions@[acts_before.len() as int] == (MuteAction {
                                pid: q,
                                mute: false,
                            }));
                        }
                    }
                    assert(!unmute_in(acts_before, pid)) by {
                        if unmute_in(acts_before, pid) {
                            let j = choose|j: int|
                                0 <= j < acts_before.len() && acts_before[j] == (MuteAction {
                                    pid,
                                    mute: false,
                                });
                            assert(muted0.contains(acts_before[j].pid));
                            let i = choose|i: int| 0 <= i < muted0.len() && muted0[i] == pid;
                            assert(exists|i2: int|
                                0 <= i2 < k && muted0[i2] == pid && !has_pid(sessions@, pid));
                            let i2 = choose|i2: int|
                                0 <= i2 < k && muted0[i2] == pid && !has_pid(sessions@, pid);
                            assert(muted0[i2] != pid);
                        }
                    }
                    assert forall|j1: int, j2: int|
                        0 <= j1 < actions@.len() && 0 <= j2 < actions@.len() && j1 != j2 implies (
                    #[trigger] actions@[j1]).pid != (#[trigger] actions@[j2]).pid by {
                        if j1 < acts_before.len() && j2 < acts_before.len() {
                            assert(acts_before[j1].pid != acts_before[j2].pid);
                        } else if j1 < acts_before.len() {
                            assert(actions@[j2].pid == pid);
                            if acts_before[j1].pid == pid {
                                assert(unmute_in(acts_before, pid)) by {
                                    assert(!acts_before[j1].mute);
                                    assert(acts_before[j1] == (MuteAction { pid, mute: false }));
                                }
                            }
                        } else if j2 < acts_before.len() {
                            assert(actions@[j1].pid == pid);
                            if acts_before[j2].pid == pid {
                                assert(unmute_in(acts_before, pid)) by {
                                    assert(!acts_before[j2].mute);
                                    assert(acts_before[j2] == (MuteAction { pid, mute: false }));
                                }
                            }
                        }
                    }
                }
            }
            proof {
                assert forall|q: u32|
                    (exists|i: int| 0 <= i < k + 1 && muted0[i] == q && has_pid(sessions@, q))
                        == ((exists|i: int| 0 <= i < k && muted0[i] == q && has_pid(sessions@, q))
                        || (q == pid && has_pid(sessions@, q))) by {
                    if exists|i: int| 0 <= i < k + 1 && muted0[i] == q && has_pid(sessions@, q) {
                        let i = choose|i: int|
                            0 <= i < k + 1 && muted0[i] == q && has_pid(sessions@, q);
                        if i < k {
                            assert(exists|i2: int|
                                0 <= i2 < k && muted0[i2] == q && has_pid(sessions@, q));
                        }
                    }
                }
                assert forall|q: u32|
                    (exists|i: int| 0 <= i < k + 1 && muted0[i] == q && !has_pid(sessions@, q))
                        == ((exists|i: int| 0 <= i < k && muted0[i] == q && !has_pid(sessions@, q))
                        || (q == pid && !has_pid(sessions@, q))) by {
                    if exists|i: int| 0 <= i < k + 1 && muted0[i] == q && !has_pid(sessions@, q) {
                        let i = choose|i: int|
                            0 <= i < k + 1 && muted0[i] == q && !has_pid(sessions@, q);
                        if i < k {
                            assert(exists|i2: int|
                                0 <= i2 < k && muted0[i2] == q && !has_pid(sessions@, q));
                        }
                    }
                }
                assert forall|q: u32| #[trigger]
                    flagged(self.app_states@, q) == (flagged(states0, q) && !(exists|i: int|
                        0 <= i < k + 1 && muted0[i] == q && !has_pid(sessions@, q))) by {
                    if seen {
                        assert(self.app_states@ == states_before);
                        assert(flagged(self.app_states@, q) == (flagged(states0, q) && !(exists|
                            i: int,
                        |
                            0 <= i < k && muted0[i] == q && !has_pid(sessions@, q))));
                        if q == pid {
                            assert(has_pid(sessions@, q));
                        }
                    } else {
                        if q == pid {
                            assert(!flagged(self.app_states@, q));
                            assert(exists|i: int|
                                0 <= i < k + 1 && muted0[i] == q && !has_pid(sessions@, q)) by {
                                assert(muted0[kidx] == q && !has_pid(sessions@, q));
                            }
                        } else {
                            assert(flagged(self.app_states@, q) == flagged(states_before, q));
                            assert(flagged(states_before, q) == (flagged(states0, q) && !(exists|
                                i: int,
                            |
                                0 <= i < k && muted0[i] == q && !has_pid(sessions@, q))));
                        }
                    }
                }
            }
            k = k + 1;
        }
        self.muted_pids = kept_muted;
        self.audio_manager.replace_sessions(sessions);
        self.last_session_refresh = now_ms;
        proof {
            assert forall|q: u32| #[trigger]
                self.muted_pids@.contains(q) == (muted0.contains(q) && has_pid(sessions@, q)) by {
                if muted0.contains(q) && has_pid(sessions@, q) {
                    let i = choose|i: int| 0 <= i < muted0.len() && muted0[i] == q;
                    assert(exists|i2: int|
                        0 <= i2 < muted0.len() && muted0[i2] == q && has_pid(sessions@, q));
                }
                if self.muted_pids@.contains(q) {
                    let i = choose|i: int|
                        0 <= i < muted0.len() && muted0[i] == q && has_pid(sessions@, q);
                    assert(muted0.contains(q)) by {
                        assert(muted0[i] == q);
                    }
                }
            }
            assert forall|q: u32| #[trigger]
                flagged(self.app_states@, q) == (flagged(states0, q) && has_pid(sessions@, q)) by {
                if flagged(states0, q) {
                    assert(muted0.contains(q));
                    let i = choose|i: int| 0 <= i < muted0.len() && muted0[i] == q;
                    if !has_pid(sessions@, q) {
                        assert(exists|i2: int|
                            0 <= i2 < muted0.len() && muted0[i2] == q && !has_pid(sessions@, q));
                    } else {
                        assert(!(exists|i2: int|
                            0 <= i2 < muted0.len() && muted0[i2] == q && !has_pid(sessions@, q)));
                    }
                }
            }
            assert(!flagged(self.app_states@, self.own_pid));
            assert forall|j: int|
                0 <= j < self.app_states@.len() implies (#[trigger] self.app_states@[j]).last_seen
                <= self.last_session_refresh by {
                assert(states0[j].last_seen <= old(self).last_session_refresh);
                assert(self.app_states@[j].last_seen == states0[j].last_seen);
            }
        }
        actions
    }

    /// Unmutes every process the engine muted and clears every muted-by-us
    /// mark: the fail-safe run on shutdown and when muting is switched off.
    /// Afterwards nothing is muted by the engine.
    pub fn unmute_all(&mut self) -> (actions: Vec<MuteAction>)
        requires
            old(self).wf(),
        ensures
            final(self).wf(),
            final(self).muted_pids@.len() == 0,
            forall|i: int|
                0 <= i < final(self).app_states@.len() ==> !(#[trigger] final(self).app_states@[i]).is_muted_by_us,
            final(self).app_states@.len() == old(self).app_states@.len(),
            forall|i: int|
                0 <= i < old(self).app_states@.len() ==> {
                    let o = #[trigger] old(self).app_states@[i];
                    let n = final(self).app_states@[i];
                    n.pid == o.pid && n.process_name == o.process_name && n.display_name
                        == o.display_name && n.original_mute_state == o.original_mute_state
                        && n.last_seen == o.last_seen && n.is_active == o.is_active
                },
            final(self).audio_manager == old(self).audio_manager,
            final(self).own_pid == old(self).own_pid,
            final(self).last_foreground_pid == old(self).last_foreground_pid,
            final(self).last_session_refresh == old(self).last_session_refresh,
            final(self).session_refresh_interval == old(self).session_refresh_interval,
            actions@.len() == old(self).muted_pids@.len(),
            forall|i: int|
                0 <= i < actions@.len() ==> actions@[i] == (MuteAction {
                    pid: old(self).muted_pids@[i],
                    mute: false,
                }),
    {
        let mut actions: Vec<MuteAction> = Vec::new();
        let mut k: usize = 0;
        while k < self.muted_pids.len()
            invariant
                k <= self.muted_pids@.len(),
                self.muted_pids@ == old(self).muted_pids@,
                self.audio_manager == old(self).audio_manager,
                old(self).wf(),
                actions@.len() == k,
                forall|i: int|
                    0 <= i < k ==> actions@[i] == (MuteAction {
                        pid: self.muted_pids@[i],
                        mute: false,
                    }),
            decreases self.muted_pids@.len() - k,
        {
            let pid = self.muted_pids[k];
            proof {
                assert(self.muted_pids@.contains(pid));
            }
            let act = self.audio_manager.unmute_process(pid);
            match act {
                Some(a) => {
                    actions.push(a);
                },
                None => {
                    proof {
                        assert(false);
                    }
                },
            }
            k = k + 1;
        }
        self.muted_pids = Vec::new();
        let mut j: usize = 0;
        while j < self.app_states.len()
            invariant
                j <= self.app_states@.len(),
                self.muted_pids@.len() == 0,
                self.audio_manager == old(self).audio_manager,
                self.own_pid == old(self).own_pid,
                self.last_foreground_pid == old(self).last_foreground_pid,
                self.last_session_refresh == old(self).last_session_refresh,
                self.session_refresh_interval == old(self).session_refresh_interval,
                self.app_states@.len() == old(self).app_states@.len(),
                forall|i: int|
                    0 <= i < j ==> !(#[trigger] self.app_states@[i]).is_muted_by_us,
                forall|i: int|
                    0 <= i < self.app_states@.len() ==> {
                        let o = #[trigger] old(self).app_states@[i];
                        let n = self.app_states@[i];
                        n.pid == o.pid && n.process_name == o.process_name && n.display_name
                            == o.display_name && n.original_mute_state == o.original_mute_state
                            && n.last_seen == o.last_seen && n.is_active == o.is_active
                    },
            decreases self.app_states@.len() - j,
        {
            let mut st = self.app_states[j].clone();
            st.is_muted_by_us = false;
            self.app_states[j] = st;
            j = j + 1;
        }
        proof {
            assert forall|pid: u32| !(#[trigger] flagged(self.app_states@, pid)) by {
                if flagged(self.app_states@, pid) {
                    let i = choose|i: int|
                        0 <= i < self.app_states@.len() && (#[trigger] self.app_states@[i]).pid
                            == pid && self.app_states@[i].is_muted_by_us;
                    assert(!self.app_states@[i].is_muted_by_us);
                }
            }
            assert(!flagged(self.app_states@, self.own_pid));
            assert forall|i: int|
                0 <= i < self.app_states@.len() implies self.app_states@[i].last_seen
                <= self.last_session_refresh by {
                assert(old(self).app_states@[i].last_seen <= old(self).last_session_refresh);
            }
            assert forall|pid: u32| #[trigger]
                self.muted_pids@.contains(pid) <==> flagged(self.app_states@, pid) by {
                assert(!self.muted_pids@.contains(pid));
                assert(!flagged(self.app_states@, pid));
            }
            assert(distinct_pids(state_pids(self.app_states@))) by {
                assert forall|i: int, j2: int|
                    0 <= i < state_pids(self.app_states@).len() && 0 <= j2 < state_pids(
                        self.app_states@,
                    ).len() && i != j2 implies state_pids(self.app_states@)[i] != state_pids(
                    self.app_states@,
                )[j2] by {
                    assert(state_pids(old(self).app_states@)[i] == old(self).app_states@[i].pid);
                    assert(state_pids(old(self).app_states@)[j2] == old(self).app_states@[j2].pid);
                    assert(state_pids(old(self).app_states@)[i] != state_pids(
                        old(self).app_states@,
                    )[j2]);
                }
            }
        }
        actions
    }
}

} // verus!
