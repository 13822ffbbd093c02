//! The contact onset gate of the driving feedback: an impact cue plays
//! once per contact, and stationary chatter against a wall or car re-arms
//! it only after eight clear ticks.

use vstd::prelude::*;

verus! {

/// Clear ticks needed before a new contact counts as an onset.
pub const REARM_TICKS: u32 = 8;

/// Contact state carried from tick to tick.
pub struct ContactGate {
    pub contact: bool,
    pub quiet_ticks: u32,
}

/// One tick of contact tracking: the clear-tick count (saturating) and
/// whether this tick starts an impact.
pub open spec fn gate_step(gate: ContactGate, contact: bool) -> (ContactGate, bool) {
    let quiet: u32 = if contact {
        gate.quiet_ticks
    } else if gate.quiet_ticks == u32::MAX {
        u32::MAX
    } else {
        (gate.quiet_ticks + 1) as u32
    };
    let started = contact && !gate.contact && quiet >= REARM_TICKS;
    (ContactGate { contact, quiet_ticks: if contact { 0 } else { quiet } }, started)
}

impl ContactGate {
    /// An armed gate with no contact.
    pub fn new() -> (g: ContactGate)
        ensures
            g == armed_gate(),
    {
        ContactGate { contact: false, quiet_ticks: REARM_TICKS }
    }

    /// Advances one tick with this tick's contact; returns whether an
    /// impact starts.
    pub fn step(&mut self, contact: bool) -> (started: bool)
        ensures
            (*final(self), started) == gate_step(*old(self), contact),
    {
        if !contact {
            self.quiet_ticks = self.quiet_ticks.saturating_add(1);
        }
        let started = contact && !self.contact && self.quiet_ticks >= REARM_TICKS;
        if contact {
            self.quiet_ticks = 0;
        }
        self.contact = contact;
        started
    }
}

/// Contact tracking after a run of ticks.
pub open spec fn run(gate: ContactGate, contacts: Seq<bool>) -> ContactGate
    decreases contacts.len(),
{
    if contacts.len() == 0 {
        gate
    } else {
        gate_step(run(gate, contacts.drop_last()), contacts.last()).0
    }
}

proof fn lemma_clear_run(gate: ContactGate, contacts: Seq<bool>)
    requires
        gate.quiet_ticks == 0,
        forall|i: int| 0 <= i < contacts.len() ==> !contacts[i],
    ensures
        run(gate, contacts).quiet_ticks == (if contacts.len() <= u32::MAX {
            contacts.len()
        } else {
            u32::MAX as nat
        }),
        contacts.len() > 0 ==> !run(gate, contacts).contact,
    decreases contacts.len(),
{
    if contacts.len() > 0 {
        assert forall|i: int| 0 <= i < contacts.drop_last().len() implies !contacts.drop_last()[i] by {
            assert(contacts.drop_last()[i] == contacts[i]);
        }
        lemma_clear_run(gate, contacts.drop_last());
        assert(!contacts[contacts.len() - 1]);
    }
}

/// After a contact, a new contact starts an impact only once at least
/// eight clear ticks have passed: after `k` clear ticks a contact starts
/// one exactly when `k >= 8`.
pub proof fn impacts_rearm_after_eight_clear_ticks(after_contact: ContactGate, k: nat)
    requires
        after_contact.contact,
        after_contact.quiet_ticks == 0,
    ensures
        gate_step(run(after_contact, Seq::new(k, |i: int| false)), true).1 == (k >= REARM_TICKS),
{
    let clear = Seq::new(k, |i: int| false);
    lemma_clear_run(after_contact, clear);
}

/// A contact held over consecutive ticks starts at most one impact: the
/// tick after a contact never starts another.
pub proof fn held_contact_starts_once(gate: ContactGate)
    ensures
        !gate_step(gate_step(gate, true).0, true).1,
{
}


/// A gate as `ContactGate::new` makes it: armed, with no contact.
pub open spec fn armed_gate() -> ContactGate {
    ContactGate { contact: false, quiet_ticks: REARM_TICKS }
}

/// Clear ticks since the last contact of `history`; a gate that never saw
/// contact starts as if `REARM_TICKS` clear ticks had passed.
pub open spec fn trailing_clear(history: Seq<bool>) -> nat
    decreases history.len(),
{
    if history.len() == 0 {
        REARM_TICKS as nat
    } else if history.last() {
        0
    } else {
        trailing_clear(history.drop_last()) + 1
    }
}

/// None of the last `k` ticks of `history` had contact.
pub open spec fn clear_for(history: Seq<bool>, k: int) -> bool {
    forall|j: int| history.len() - k <= j < history.len() && 0 <= j ==> !#[trigger] history[j]
}

proof fn lemma_run_from_armed(history: Seq<bool>)
    ensures
        run(armed_gate(), history).contact == (history.len() > 0 && history.last()),
        run(armed_gate(), history).quiet_ticks == (if trailing_clear(history) <= u32::MAX {
            trailing_clear(history)
        } else {
            u32::MAX as nat
        }),
    decreases history.len(),
{
    if history.len() > 0 {
        lemma_run_from_armed(history.drop_last());
    }
}

proof fn lemma_trailing_clear(history: Seq<bool>, k: int)
    requires
        0 <= k <= REARM_TICKS,
    ensures
        trailing_clear(history) >= k <==> clear_for(history, k),
    decreases history.len(),
{
    if history.len() > 0 {
        let h = history.drop_last();
        if history.last() {
            if k > 0 {
                assert(!clear_for(history, k)) by {
                    assert(history[history.len() - 1]);
                }
            }
        } else if k > 0 {
            lemma_trailing_clear(h, k - 1);
            if clear_for(history, k) {
                assert forall|j: int| h.len() - (k - 1) <= j < h.len() && 0 <= j implies !#[trigger] h[j] by {
                    assert(h[j] == history[j]);
                }
            }
            if clear_for(h, k - 1) {
                assert forall|j: int|
                    history.len() - k <= j < history.len() && 0 <= j implies !#[trigger] history[j] by {
                    if j < history.len() - 1 {
                        assert(h[j] == history[j]);
                    }
                }
            }
        }
    }
}

/// From a fresh gate, whatever contacts came before, a contact starts an
/// impact exactly when none of the last eight ticks had contact (fewer
/// ticks than that all count as clear).
pub proof fn impact_starts_exactly_after_eight_clear_ticks(history: Seq<bool>, contact: bool)
    ensures
        gate_step(run(armed_gate(), history), contact).1 == (contact && clear_for(
            history,
            REARM_TICKS as int,
        )),
{
    lemma_run_from_armed(history);
    lemma_trailing_clear(history, REARM_TICKS as int);
    if contact && clear_for(history, REARM_TICKS as int) && history.len() > 0 {
        assert(!history[history.len() - 1]);
    }
}

} // verus!
