//! The process supervisor: the single managed-process slot and the planning
//! of restart cycles.
//!
//! The supervisor owns no OS handle itself; it tracks the state of the slot
//! and, for each received item, plans the exact sequence of effects
//! (kill, clear, spawn, report) that its caller must perform. The caller is
//! expected to hold the supervisor under a mutual-exclusion guard and to
//! perform a whole planned sequence before planning the next one, so that a
//! kill→clear→spawn cycle is one critical section.

use vstd::prelude::*;
use crate::event::{is_qualifying, ChangeKind, LoopItem};

verus! {

/// What the managed-process slot holds.
#[derive(Clone, Copy, PartialEq, Eq, Structural, Debug)]
pub enum Slot {
    /// No spawn has been attempted yet (only before the startup spawn).
    Vacant,
    /// A running child process.
    Running,
    /// A recorded spawn failure.
    Failed,
}

/// One externally visible effect that the supervisor asks its caller to
/// perform.
#[derive(Clone, Copy, PartialEq, Eq, Structural, Debug)]
pub enum Action {
    /// Terminate the running child process (best effort; a child that has
    /// already exited is not an error).
    Kill,
    /// Clear the terminal.
    Clear,
    /// Spawn a new child process per the command definition.
    Spawn,
    /// Report a delivery-level watcher error and carry on.
    Report,
}

/// The steps of one restart cycle, in order: kill the old process if one is
/// running, then clear the terminal if configured, then spawn anew.
///
/// The startup spawn is the same cycle run from the `Vacant` slot, so it has
/// no kill step.
pub open spec fn restart_steps(slot: Slot, clear: bool) -> Seq<Action> {
    (if slot == Slot::Running {
        seq![Action::Kill]
    } else {
        Seq::<Action>::empty()
    }) + (if clear {
        seq![Action::Clear]
    } else {
        Seq::<Action>::empty()
    }) + seq![Action::Spawn]
}

/// The slot after a spawn attempt with the given outcome.
pub open spec fn slot_after_spawn(ok: bool) -> Slot {
    if ok {
        Slot::Running
    } else {
        Slot::Failed
    }
}

/// The steps planned for one received item: a full restart cycle for a
/// data-modified notification, a report for a delivery error, and nothing at
/// all for any other notification kind.
pub open spec fn item_steps(slot: Slot, clear: bool, item: LoopItem) -> Seq<Action> {
    if is_qualifying(item) {
        restart_steps(slot, clear)
    } else if item == LoopItem::DeliveryError {
        seq![Action::Report]
    } else {
        Seq::<Action>::empty()
    }
}

/// The slot after one item has been handled, given the outcome of the spawn
/// attempt made for it (ignored when the item triggers no restart).
pub open spec fn slot_after_item(slot: Slot, item: LoopItem, spawn_ok: bool) -> Slot {
    if is_qualifying(item) {
        slot_after_spawn(spawn_ok)
    } else {
        slot
    }
}

/// When a clear is configured, every restart cycle — including the startup
/// one, which runs from the vacant slot — clears the terminal strictly after
/// the kill of the old process (when one is running; the steps before the
/// clear are kill steps and nothing else) and strictly before the new spawn,
/// which is the last step and occurs nowhere earlier.
pub proof fn lemma_clear_after_kill_before_spawn(slot: Slot)
    ensures
        ({
            let steps = restart_steps(slot, true);
            &&& steps.len() >= 2
            &&& steps[steps.len() - 1] == Action::Spawn
            &&& steps[steps.len() - 2] == Action::Clear
            &&& forall|k: int| 0 <= k < steps.len() - 2 ==> steps[k] == Action::Kill
            &&& forall|k: int| 0 <= k < steps.len() - 1 ==> steps[k] != Action::Spawn
        }),
{
    let steps = restart_steps(slot, true);
    if slot == Slot::Running {
        assert(steps =~= seq![Action::Kill, Action::Clear, Action::Spawn]);
    } else {
        assert(steps =~= seq![Action::Clear, Action::Spawn]);
    }
}

/// A notification whose kind is not data-modified — renamed,
/// metadata-changed, accessed, or anything else — triggers no step at all:
/// no kill, no clear, no spawn.
pub proof fn lemma_non_data_change_ignored(slot: Slot, clear: bool, kind: ChangeKind)
    requires
        kind != ChangeKind::DataModified,
    ensures
        item_steps(slot, clear, LoopItem::Change(kind)) == Seq::<Action>::empty(),
{
}

/// The owner of the managed-process slot. It exposes only restart planning,
/// the outcome recorder and the current state, never a raw handle.
pub struct Supervisor {
    clear: bool,
    slot: Slot,
}

impl Supervisor {
    /// Whether a terminal clear is configured before each spawn.
    pub closed spec fn clear_configured(&self) -> bool {
        self.clear
    }

    /// The current state of the managed-process slot.
    pub closed spec fn state(&self) -> Slot {
        self.slot
    }

    /// A fresh supervisor: nothing spawned yet.
    pub fn new(clear: bool) -> (s: Self)
        ensures
            s.clear_configured() == clear,
            s.state() == Slot::Vacant,
    {
        Supervisor { clear, slot: Slot::Vacant }
    }

    /// The current state of the slot.
    pub fn current_state(&self) -> (r: Slot)
        ensures
            r == self.state(),
    {
        self.slot
    }

    /// Plan one restart cycle from the current slot state. The caller must
    /// perform every step, in order, and then record the spawn outcome,
    /// without handling any other item in between.
    pub fn plan_restart(&self) -> (steps: Vec<Action>)
        ensures
            steps@ == restart_steps(self.state(), self.clear_configured()),
    {
        let mut steps: Vec<Action> = Vec::new();
        if matches!(self.slot, Slot::Running) {
            steps.push(Action::Kill);
        }
        if self.clear {
            steps.push(Action::Clear);
        }
        steps.push(Action::Spawn);
        proof {
            assert(steps@ =~= restart_steps(self.state(), self.clear_configured()));
        }
        steps
    }

    /// Plan the steps for one received item.
    pub fn plan_item(&self, item: &LoopItem) -> (steps: Vec<Action>)
        ensures
            steps@ == item_steps(self.state(), self.clear_configured(), *item),
    {
        if item.qualifies() {
            self.plan_restart()
        } else if matches!(*item, LoopItem::DeliveryError) {
            let mut steps: Vec<Action> = Vec::new();
            steps.push(Action::Report);
            proof {
                assert(steps@ =~= seq![Action::Report]);
            }
            steps
        } else {
            Vec::new()
        }
    }

    /// Record the outcome of the spawn step of the cycle planned last:
    /// the slot then holds exactly that result, never a mix with the old one.
    pub fn record_spawn(&mut self, ok: bool)
        ensures
            final(self).state() == slot_after_spawn(ok),
            final(self).clear_configured() == old(self).clear_configured(),
    {
        self.slot = if ok {
            Slot::Running
        } else {
            Slot::Failed
        };
    }
}

} // verus!
