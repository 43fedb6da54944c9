//! Application configuration: the policy snapshot the reconciliation engine
//! reads on every tick.
//!
//! The exclusion and always-mute lists hold lowercase executable names and
//! behave as sets: no two entries read the same.  Loading and saving the
//! configuration is I/O and is done by the surrounding application.

use vstd::prelude::*;

use crate::text::lower_of;
use crate::text::lowercase;
use crate::text::str_eq;

verus! {

/// No two entries of the list read the same.
pub open spec fn distinct_names(list: Seq<String>) -> bool {
    forall|i: int, j: int|
        0 <= i < list.len() && 0 <= j < list.len() && i != j ==> list[i]@ != list[j]@
}

/// Some entry of the list reads exactly `name`.
pub open spec fn name_listed(list: Seq<String>, name: Seq<char>) -> bool {
    exists|i: int| 0 <= i < list.len() && list[i]@ == name
}

/// Whether some entry of the list reads exactly `name`.
fn list_contains(list: &Vec<String>, name: &String) -> (r: bool)
    ensures
        r == name_listed(list@, name@),
{
    let mut k: usize = 0;
    while k < list.len()
        invariant
            k <= list@.len(),
            forall|i: int| 0 <= i < k ==> list@[i]@ != name@,
        decreases list@.len() - k,
    {
        if str_eq(list[k].as_str(), name.as_str()) {
            return true;
        }
        k = k + 1;
    }
    false
}

/// Appends `name` unless an equal entry is already listed.
fn list_insert(list: &mut Vec<String>, name: String)
    requires
        distinct_names(old(list)@),
    ensures
        distinct_names(final(list)@),
        forall|n: Seq<char>|
            name_listed(final(list)@, n) == (name_listed(old(list)@, n) || n == name@),
{
    if !list_contains(list, &name) {
        let ghost before = list@;
        let ghost namev = name@;
        list.push(name);
        proof {
            assert forall|n: Seq<char>| name_listed(list@, n) implies (name_listed(before, n) || n
                == namev) by {
                let i = choose|i: int| 0 <= i < list@.len() && list@[i]@ == n;
                if i < before.len() {
                    assert(before[i]@ == n);
                }
            }
            assert forall|n: Seq<char>| name_listed(before, n) || n == namev implies name_listed(
                list@,
                n,
            ) by {
                if n == namev {
                    assert(list@[before.len() as int]@ == n);
                } else {
                    let i = choose|i: int| 0 <= i < before.len() && before[i]@ == n;
                    assert(list@[i]@ == n);
                }
            }
        }
    }
}

/// Removes every entry that reads exactly `name`.
fn list_remove(list: &mut Vec<String>, name: &String)
    requires
        distinct_names(old(list)@),
    ensures
        distinct_names(final(list)@),
        forall|n: Seq<char>|
            name_listed(final(list)@, n) == (name_listed(old(list)@, n) && n != name@),
{
    let mut out: Vec<String> = Vec::new();
    let mut k: usize = 0;
    while k < list.len()
        invariant
            k <= list@.len(),
            distinct_names(list@),
            distinct_names(out@),
            forall|n: Seq<char>|
                name_listed(out@, n) == (name_listed(list@.take(k as int), n) && n != name@),
        decreases list@.len() - k,
    {
        let ghost kth = list@[k as int]@;
        let ghost pre1 = list@.take(k as int + 1);
        let ghost pre0 = list@.take(k as int);
        proof {
            assert forall|n: Seq<char>| name_listed(pre1, n) implies (name_listed(pre0, n) || n
                == kth) by {
                let i = choose|i: int| 0 <= i < pre1.len() && (#[trigger] pre1[i])@ == n;
                if i < k {
                    assert(pre0[i]@ == n);
                }
            }
            assert forall|n: Seq<char>| name_listed(pre0, n) || n == kth implies name_listed(
                pre1,
                n,
            ) by {
                if n == kth {
                    assert(pre1[k as int]@ == n);
                } else {
                    let i = choose|i: int| 0 <= i < pre0.len() && (#[trigger] pre0[i])@ == n;
                    assert(pre1[i]@ == n);
                }
            }
        }
        let matched = str_eq(list[k].as_str(), name.as_str());
        let ghost before = out@;
        if !matched {
            out.push(list[k].clone());
            proof {
                // The appended entry is not yet listed: an equal earlier entry
                // would contradict the distinctness of the input list.
                assert forall|n: Seq<char>| name_listed(out@, n) implies (name_listed(before, n)
                    || n == kth) by {
                    let i = choose|i: int| 0 <= i < out@.len() && out@[i]@ == n;
                    if i < before.len() {
                        assert(before[i]@ == n);
                    }
                }
                assert forall|n: Seq<char>| name_listed(before, n) || n == kth implies name_listed(
                    out@,
                    n,
                ) by {
                    if n == kth {
                        assert(out@[before.len() as int]@ == n);
                    } else {
                        let i = choose|i: int| 0 <= i < before.len() && before[i]@ == n;
                        assert(out@[i]@ == n);
                    }
                }
                assert(!name_listed(before, kth)) by {
                    if name_listed(before, kth) {
                        let i = choose|i: int| 0 <= i < pre0.len() && (#[trigger] pre0[i])@ == kth;
                        assert(list@[i]@ == list@[k as int]@);
                    }
                }
                assert(distinct_names(out@)) by {
                    assert forall|i: int, j: int|
                        0 <= i < out@.len() && 0 <= j < out@.len() && i != j implies out@[i]@
                        != out@[j]@ by {
                        if i < before.len() && j < before.len() {
                            assert(before[i]@ != before[j]@);
                        } else if i < before.len() {
                            assert(before[i]@ == out@[i]@ && out@[j]@ == kth);
                            assert(name_listed(before, before[i]@));
                        } else {
                            assert(before[j]@ == out@[j]@ && out@[i]@ == kth);
                            assert(name_listed(before, before[j]@));
                        }
                    }
                }
            }
        }
        proof {
            assert forall|n: Seq<char>|
                #![trigger name_listed(out@, n)]
                name_listed(out@, n) == (name_listed(pre1, n) && n != name@) by {
                if matched {
                    assert(kth == name@);
                    assert(name_listed(out@, n) == (name_listed(pre0, n) && n != name@));
                    assert(name_listed(pre1, n) == (name_listed(pre0, n) || n == kth));
                } else {
                    assert(kth != name@);
                    assert(name_listed(out@, n) == (name_listed(before, n) || n == kth));
                    assert(name_listed(before, n) == (name_listed(pre0, n) && n != name@));
                    assert(name_listed(pre1, n) == (name_listed(pre0, n) || n == kth));
                }
            }
        }
        k = k + 1;
    }
    proof {
        assert(list@.take(list@.len() as int) =~= list@);
    }
    *list = out;
}

/// Application settings, as the engine and the UI read them.
pub struct Config {
    /// Lowercase executable names that are never muted.
    pub excluded_apps: Vec<String>,
    /// Lowercase executable names that are muted regardless of focus.
    pub always_muted_apps: Vec<String>,
    /// Whether the muting functionality is enabled.
    pub muting_enabled: bool,
    /// Polling interval in milliseconds for checking foreground changes.
    pub poll_interval_ms: u64,
    /// Whether to start minimized to the system tray.
    pub start_minimized: bool,
    /// Whether to minimize to the tray instead of closing.
    pub minimize_to_tray: bool,
    /// Whether the minimize button sends the window to the tray.
    pub minimize_button_to_tray: bool,
    /// Whether to register the application to run at login.
    pub start_with_windows: bool,
}

pub fn default_enabled() -> (r: bool)
    ensures
        r == true,
{
    true
}

pub fn default_poll_interval() -> (r: u64)
    ensures
        r == 500,
{
    500
}

pub fn default_start_minimized() -> (r: bool)
    ensures
        r == false,
{
    false
}

pub fn default_minimize_to_tray() -> (r: bool)
    ensures
        r == true,
{
    true
}

pub fn default_minimize_button_to_tray() -> (r: bool)
    ensures
        r == true,
{
    true
}

impl Config {
    /// Both name lists behave as sets.
    pub open spec fn wf(self) -> bool {
        distinct_names(self.excluded_apps@) && distinct_names(self.always_muted_apps@)
    }

    /// Whether the lowercase form of `name` is on the exclusion list.
    pub open spec fn spec_is_excluded(self, name: Seq<char>) -> bool {
        name_listed(self.excluded_apps@, lower_of(name))
    }

    /// Whether the lowercase form of `name` is on the always-mute list.
    pub open spec fn spec_is_always_muted(self, name: Seq<char>) -> bool {
        name_listed(self.always_muted_apps@, lower_of(name))
    }

    /// Adds an app to the exclusion list; matching is case-insensitive.
    pub fn add_excluded_app(&mut self, app_name: &str)
        requires
            old(self).wf(),
        ensures
            final(self).wf(),
            final(self).spec_is_excluded(app_name@),
            forall|n: Seq<char>|
                final(self).spec_is_excluded(n) == (old(self).spec_is_excluded(n) || lower_of(n)
                    == lower_of(app_name@)),
            final(self).always_muted_apps == old(self).always_muted_apps,
            final(self).muting_enabled == old(self).muting_enabled,
            final(self).poll_interval_ms == old(self).poll_interval_ms,
            final(self).start_minimized == old(self).start_minimized,
            final(self).minimize_to_tray == old(self).minimize_to_tray,
            final(self).minimize_button_to_tray == old(self).minimize_button_to_tray,
            final(self).start_with_windows == old(self).start_with_windows,
    {
        let normalized = lowercase(app_name);
        list_insert(&mut self.excluded_apps, normalized);
    }

    /// Removes an app from the exclusion list; matching is case-insensitive.
    pub fn remove_excluded_app(&mut self, app_name: &str)
        requires
            old(self).wf(),
        ensures
            final(self).wf(),
            !final(self).spec_is_excluded(app_name@),
            forall|n: Seq<char>|
                final(self).spec_is_excluded(n) == (old(self).spec_is_excluded(n) && lower_of(n)
                    != lower_of(app_name@)),
            final(self).always_muted_apps == old(self).always_muted_apps,
            final(self).muting_enabled == old(self).muting_enabled,
    {
        let normalized = lowercase(app_name);
        list_remove(&mut self.excluded_apps, &normalized);
    }

    /// Whether an app is on the exclusion list; matching is case-insensitive.
    pub fn is_excluded(&self, app_name: &str) -> (r: bool)
        ensures
            r == self.spec_is_excluded(app_name@),
    {
        let normalized = lowercase(app_name);
        list_contains(&self.excluded_apps, &normalized)
    }

    /// Adds an app to the always-mute list; matching is case-insensitive.
    pub fn add_always_muted_app(&mut self, app_name: &str)
        requires
            old(self).wf(),
        ensures
            final(self).wf(),
            final(self).spec_is_always_muted(app_name@),
            forall|n: Seq<char>|
                final(self).spec_is_always_muted(n) == (old(self).spec_is_always_muted(n)
                    || lower_of(n) == lower_of(app_name@)),
            final(self).excluded_apps == old(self).excluded_apps,
            final(self).muting_enabled == old(self).muting_enabled,
    {
        let normalized = lowercase(app_name);
        list_insert(&mut self.always_muted_apps, normalized);
    }

    /// Removes an app from the always-mute list; matching is case-insensitive.
    pub fn remove_always_muted_app(&mut self, app_name: &str)
        requires
            old(self).wf(),
        ensures
            final(self).wf(),
            !final(self).spec_is_always_muted(app_name@),
            forall|n: Seq<char>|
                final(self).spec_is_always_muted(n) == (old(self).spec_is_always_muted(n)
                    && lower_of(n) != lower_of(app_name@)),
            final(self).excluded_apps == old(self).excluded_apps,
            final(self).muting_enabled == old(self).muting_enabled,
    {
        let normalized = lowercase(app_name);
        list_remove(&mut self.always_muted_apps, &normalized);
    }

    /// Whether an app is on the always-mute list; matching is
    /// case-insensitive.
    pub fn is_always_muted(&self, app_name: &str) -> (r: bool)
        ensures
            r == self.spec_is_always_muted(app_name@),
    {
        let normalized = lowercase(app_name);
        list_contains(&self.always_muted_apps, &normalized)
    }

    /// Flips the muting switch and returns the new value.
    pub fn toggle_muting(&mut self) -> (r: bool)
        ensures
            final(self).muting_enabled == !old(self).muting_enabled,
            r == final(self).muting_enabled,
            final(self).excluded_apps == old(self).excluded_apps,
            final(self).always_muted_apps == old(self).always_muted_apps,
            final(self).poll_interval_ms == old(self).poll_interval_ms,
    {
        self.muting_enabled = !self.muting_enabled;
        self.muting_enabled
    }

    /// Sets the muting switch.
    pub fn set_muting(&mut self, enabled: bool)
        ensures
            final(self).muting_enabled == enabled,
            final(self).excluded_apps == old(self).excluded_apps,
            final(self).always_muted_apps == old(self).always_muted_apps,
            final(self).poll_interval_ms == old(self).poll_interval_ms,
    {
        self.muting_enabled = enabled;
    }
}

impl Default for Config {
    /// Muting starts enabled, with empty lists and a half-second poll.
    fn default() -> (c: Config)
        ensures
            c.wf(),
            c.excluded_apps@.len() == 0,
            c.always_muted_apps@.len() == 0,
            c.muting_enabled == true,
            c.poll_interval_ms == 500,
            c.start_minimized == false,
            c.minimize_to_tray == true,
            c.minimize_button_to_tray == true,
            c.start_with_windows == false,
    {
        Config {
            excluded_apps: Vec::new(),
            always_muted_apps: Vec::new(),
            muting_enabled: default_enabled(),
            poll_interval_ms: default_poll_interval(),
            start_minimized: default_start_minimized(),
            minimize_to_tray: default_minimize_to_tray(),
            minimize_button_to_tray: default_minimize_button_to_tray(),
            start_with_windows: false,
        }
    }
}

} // verus!
