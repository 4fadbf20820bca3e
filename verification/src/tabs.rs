//! The per-channel tab highlight cache.
//!
//! Each channel records the priority its tab is currently colored with.
//! While a channel is unfocused, only a strictly greater priority changes
//! the recorded value — and only then must the host recolor the tab.  A
//! focused channel is never recolored, and focusing resets its priority to
//! the minimum.

use vstd::prelude::*;

use crate::strmap::StrMap;

verus! {

/// One escalation step on a recorded priority: the new recorded priority and
/// whether the host must recolor.  The recorded priority never decreases,
/// and a command fires exactly when it strictly increases.
pub open spec fn spec_escalate(rec: Option<u8>, p: u8) -> (Option<u8>, bool) {
    match rec {
        Some(c) => if p <= c {
            (Some(c), false)
        } else {
            (Some(p), true)
        },
        None => (Some(p), true),
    }
}

/// Running a whole sequence of escalations: the final recorded priority and
/// how many recolor commands fired.
pub open spec fn run_escalations(rec: Option<u8>, ps: Seq<u8>) -> (Option<u8>, nat)
    decreases ps.len(),
{
    if ps.len() == 0 {
        (rec, 0)
    } else {
        let (r1, c1) = spec_escalate(rec, ps[0]);
        let next = run_escalations(r1, ps.drop_first());
        (next.0, (if c1 {
            1nat
        } else {
            0nat
        }) + next.1)
    }
}

/// Highlight monotonicity while unfocused: across any sequence of
/// escalations the recorded priority only grows, it ends at the maximum of
/// the start and every priority seen, and commands fire only at strict
/// increases — never more commands than escalations.
pub proof fn lemma_escalations_monotonic(rec: Option<u8>, ps: Seq<u8>)
    ensures
        ps.len() > 0 || rec is Some ==> run_escalations(rec, ps).0 is Some,
        match (rec, run_escalations(rec, ps).0) {
            (Some(c0), Some(cn)) => c0 <= cn,
            _ => true,
        },
        forall|i: int|
            0 <= i < ps.len() ==> match run_escalations(rec, ps).0 {
                Some(cn) => (#[trigger] ps[i]) <= cn,
                None => false,
            },
        run_escalations(rec, ps).1 <= ps.len(),
    decreases ps.len(),
{
    if ps.len() > 0 {
        let (r1, _) = spec_escalate(rec, ps[0]);
        lemma_escalations_monotonic(r1, ps.drop_first());
        assert forall|i: int|
            0 <= i < ps.len() implies match run_escalations(rec, ps).0 {
            Some(cn) => (#[trigger] ps[i]) <= cn,
            None => false,
        } by {
            if i > 0 {
                assert(ps.drop_first()[i - 1] == ps[i]);
            }
        }
    }
}

/// The map from channel names to their current tab colors.
pub struct Tabs {
    map: StrMap<u8>,
}

impl Tabs {
    /// The recorded priority of a channel, if any.
    pub closed spec fn color_of(self, channel: Seq<char>) -> Option<u8> {
        self.map.spec_get(channel)
    }

    /// Keys are pairwise distinct.
    pub closed spec fn wf(self) -> bool {
        self.map.wf()
    }

    /// The empty cache.
    pub fn new() -> (r: Tabs)
        ensures
            r.wf(),
            forall|k: Seq<char>| r.color_of(k) is None,
    {
        Tabs { map: StrMap::new() }
    }

    /// Escalate a channel's highlight priority.  Returns whether the host
    /// must recolor the tab: never while the channel is focused, and
    /// otherwise exactly when the new priority is strictly greater than the
    /// recorded one (or none is recorded).  The recorded priority never
    /// decreases while the channel is unfocused.
    pub fn color(&mut self, name: &str, color_new: u8, focused: bool) -> (cmd: bool)
        requires
            old(self).wf(),
        ensures
            final(self).wf(),
            focused ==> !cmd && *final(self) == *old(self),
            !focused ==> (final(self).color_of(name@), cmd) == spec_escalate(
                old(self).color_of(name@),
                color_new,
            ),
            !focused && !cmd ==> *final(self) == *old(self),
            forall|k: Seq<char>| k != name@ ==> final(self).color_of(k) == old(self).color_of(k),
    {
        if focused {
            return false;
        }
        let record = match self.map.get(name) {
            Some(c) => Some(*c),
            None => None,
        };
        match record {
            Some(c) if color_new <= c => false,
            _ => {
                self.map.insert(String::from_str(name), color_new);
                true
            },
        }
    }

    /// Reset a channel's priority to the minimum; the host clears the tab
    /// color.  Done when the channel becomes focused.
    pub fn reset(&mut self, name: &str)
        requires
            old(self).wf(),
        ensures
            final(self).wf(),
            final(self).color_of(name@) == Some(0u8),
            forall|k: Seq<char>| k != name@ ==> final(self).color_of(k) == old(self).color_of(k),
    {
        self.map.insert(String::from_str(name), 0);
    }
}

} // verus!
