//! The whole-program model: the sequence of effects a run performs, given
//! the outcomes of the external steps (watch registrations and spawn
//! attempts), and the laws that hold of it.
//!
//! A run is modelled from plain inputs: whether each watch registration
//! succeeded, whether the startup spawn succeeded, and the items the loop
//! receives, each paired with the outcome of the spawn attempt it would
//! trigger. `run_program` is the executable form of the same control flow.

use vstd::prelude::*;
use crate::event::{is_qualifying, ChangeKind, LoopItem};
use crate::supervisor::{
    item_steps, restart_steps, slot_after_item, slot_after_spawn, Action, Slot, Supervisor,
};
use crate::watch::first_registration_failure;

verus! {

/// Every watch registration succeeded.
pub open spec fn all_registered(results: Seq<bool>) -> bool {
    forall|i: int| 0 <= i < results.len() ==> results[i]
}

/// The effects the event loop performs from `slot` on, for the given items,
/// in arrival order. Each item contributes its planned steps as one
/// contiguous block; no two blocks interleave.
pub open spec fn loop_trace(slot: Slot, clear: bool, items: Seq<(LoopItem, bool)>) -> Seq<Action>
    decreases items.len(),
{
    if items.len() == 0 {
        Seq::<Action>::empty()
    } else {
        item_steps(slot, clear, items[0].0) + loop_trace(
            slot_after_item(slot, items[0].0, items[0].1),
            clear,
            items.skip(1),
        )
    }
}

/// The slot after the event loop has handled all the given items.
pub open spec fn slot_after_items(slot: Slot, items: Seq<(LoopItem, bool)>) -> Slot
    decreases items.len(),
{
    if items.len() == 0 {
        slot
    } else {
        slot_after_items(slot_after_item(slot, items[0].0, items[0].1), items.skip(1))
    }
}

/// The effects of a whole run. If any watch registration fails, the program
/// aborts before any process is spawned and before entering the loop, so the
/// trace is empty. Otherwise the startup cycle runs from the vacant slot
/// (clear if configured, then the initial spawn) and the loop follows.
pub open spec fn program_trace(
    clear: bool,
    registrations: Seq<bool>,
    init_spawn_ok: bool,
    items: Seq<(LoopItem, bool)>,
) -> Seq<Action> {
    if all_registered(registrations) {
        restart_steps(Slot::Vacant, clear) + loop_trace(
            slot_after_spawn(init_spawn_ok),
            clear,
            items,
        )
    } else {
        Seq::<Action>::empty()
    }
}

/// How many of the given actions equal `a`.
pub open spec fn count_matching(trace: Seq<Action>, a: Action) -> nat
    decreases trace.len(),
{
    if trace.len() == 0 {
        0
    } else {
        (if trace[0] == a {
            1nat
        } else {
            0nat
        }) + count_matching(trace.skip(1), a)
    }
}

/// How many items are qualifying notifications (kind data-modified).
pub open spec fn count_qualifying(items: Seq<(LoopItem, bool)>) -> nat
    decreases items.len(),
{
    if items.len() == 0 {
        0
    } else {
        (if is_qualifying(items[0].0) {
            1nat
        } else {
            0nat
        }) + count_qualifying(items.skip(1))
    }
}

/// How many qualifying items arrive while the slot holds a running process:
/// exactly those restarts perform a kill.
pub open spec fn count_kills_due(slot: Slot, items: Seq<(LoopItem, bool)>) -> nat
    decreases items.len(),
{
    if items.len() == 0 {
        0
    } else {
        (if is_qualifying(items[0].0) && slot == Slot::Running {
            1nat
        } else {
            0nat
        }) + count_kills_due(slot_after_item(slot, items[0].0, items[0].1), items.skip(1))
    }
}

/// Run the program's control flow on pre-decided external outcomes and
/// return the exact sequence of effects it performs.
pub fn run_program(
    clear: bool,
    registrations: &Vec<bool>,
    init_spawn_ok: bool,
    items: &Vec<(LoopItem, bool)>,
) -> (trace: Vec<Action>)
    ensures
        trace@ == program_trace(clear, registrations@, init_spawn_ok, items@),
{
    if let Some(bad) = first_registration_failure(registrations) {
        proof {
            assert(!registrations@[bad as int]);
            assert(!all_registered(registrations@));
        }
        let trace: Vec<Action> = Vec::new();
        return trace;
    }
    let mut sup = Supervisor::new(clear);
    let mut trace: Vec<Action> = sup.plan_restart();
    sup.record_spawn(init_spawn_ok);
    let ghost startup: Seq<Action> = restart_steps(Slot::Vacant, clear);
    let n = items.len();
    let mut i: usize = 0;
    while i < n
        invariant
            i <= n,
            n == items@.len(),
            sup.clear_configured() == clear,
            sup.state() == slot_after_items(slot_after_spawn(init_spawn_ok), items@.take(i as int)),
            trace@ == startup + loop_trace(slot_after_spawn(init_spawn_ok), clear, items@.take(i as int)),
            startup == restart_steps(Slot::Vacant, clear),
        decreases n - i,
    {
        let (item, spawn_ok) = items[i];
        let steps = sup.plan_item(&item);
        let mut k: usize = 0;
        let m = steps.len();
        while k < m
            invariant
                k <= m,
                m == steps@.len(),
                trace@ == startup + loop_trace(
                    slot_after_spawn(init_spawn_ok),
                    clear,
                    items@.take(i as int),
                ) + steps@.take(k as int),
                startup == restart_steps(Slot::Vacant, clear),
            decreases m - k,
        {
            trace.push(steps[k]);
            proof {
                assert(steps@.take(k as int + 1) =~= steps@.take(k as int).push(steps@[k as int]));
            }
            k += 1;
        }
        if item.qualifies() {
            sup.record_spawn(spawn_ok);
        }
        proof {
            assert(steps@.take(m as int) =~= steps@);
            lemma_loop_trace_take_step(slot_after_spawn(init_spawn_ok), clear, items@, i as int);
            assert(trace@ =~= startup + loop_trace(
                slot_after_spawn(init_spawn_ok),
                clear,
                items@.take(i as int + 1),
            ));
        }
        i += 1;
    }
    proof {
        assert(items@.take(n as int) =~= items@);
    }
    trace
}

/// One step of the take-prefix form of `loop_trace` and `slot_after_items`:
/// handling one more item appends exactly that item's block.
proof fn lemma_loop_trace_take_step(slot: Slot, clear: bool, items: Seq<(LoopItem, bool)>, i: int)
    requires
        0 <= i < items.len(),
    ensures
        loop_trace(slot, clear, items.take(i + 1)) == loop_trace(slot, clear, items.take(i))
            + item_steps(slot_after_items(slot, items.take(i)), clear, items[i].0),
        slot_after_items(slot, items.take(i + 1)) == slot_after_item(
            slot_after_items(slot, items.take(i)),
            items[i].0,
            items[i].1,
        ),
    decreases i,
{
    if i == 0 {
        reveal_with_fuel(loop_trace, 2);
        reveal_with_fuel(slot_after_items, 2);
        assert(items.take(1).skip(1) =~= Seq::<(LoopItem, bool)>::empty());
        assert(items.take(0) =~= Seq::<(LoopItem, bool)>::empty());
        assert(items.take(1)[0] == items[0]);
        assert(loop_trace(slot, clear, items.take(1)) =~= item_steps(slot, clear, items[0].0));
        assert(loop_trace(slot, clear, items.take(0)) + item_steps(slot, clear, items[0].0)
            =~= item_steps(slot, clear, items[0].0));
    } else {
        let s2 = slot_after_item(slot, items[0].0, items[0].1);
        let rest = items.skip(1);
        assert(items.take(i + 1)[0] == items[0]);
        assert(items.take(i)[0] == items[0]);
        assert(items.take(i + 1).skip(1) =~= rest.take(i));
        assert(items.take(i).skip(1) =~= rest.take(i - 1));
        lemma_loop_trace_take_step(s2, clear, rest, i - 1);
        assert(rest.take(i - 1 + 1) == rest.take(i));
        assert(rest[i - 1] == items[i]);
        assert(seq_assoc_holds(
            item_steps(slot, clear, items[0].0),
            loop_trace(s2, clear, rest.take(i - 1)),
            item_steps(slot_after_items(s2, rest.take(i - 1)), clear, items[i].0),
        ));
    }
}

/// Sequence concatenation is associative; stated as a spec so it can be
/// asserted in one step.
pub open spec fn seq_assoc_holds(a: Seq<Action>, b: Seq<Action>, c: Seq<Action>) -> bool {
    (a + b) + c =~= a + (b + c)
}

proof fn lemma_count_matching_add(a: Seq<Action>, b: Seq<Action>, x: Action)
    ensures
        count_matching(a + b, x) == count_matching(a, x) + count_matching(b, x),
    decreases a.len(),
{
    if a.len() == 0 {
        assert(a + b =~= b);
    } else {
        assert((a + b)[0] == a[0]);
        assert((a + b).skip(1) =~= a.skip(1) + b);
        lemma_count_matching_add(a.skip(1), b, x);
    }
}

proof fn lemma_count_singleton(a: Action, x: Action)
    ensures
        count_matching(seq![a], x) == (if a == x {
            1nat
        } else {
            0nat
        }),
{
    reveal_with_fuel(count_matching, 2);
    assert(seq![a].skip(1) =~= Seq::<Action>::empty());
}

/// How often each action occurs in one restart cycle: exactly one spawn,
/// a kill exactly when the old slot held a running process, a clear exactly
/// when configured, and never a report.
pub proof fn lemma_restart_steps_counts(slot: Slot, clear: bool)
    ensures
        count_matching(restart_steps(slot, clear), Action::Spawn) == 1,
        count_matching(restart_steps(slot, clear), Action::Kill) == (if slot == Slot::Running {
            1nat
        } else {
            0nat
        }),
        count_matching(restart_steps(slot, clear), Action::Clear) == (if clear {
            1nat
        } else {
            0nat
        }),
        count_matching(restart_steps(slot, clear), Action::Report) == 0,
{
    let kill_part = if slot == Slot::Running {
        seq![Action::Kill]
    } else {
        Seq::<Action>::empty()
    };
    let clear_part = if clear {
        seq![Action::Clear]
    } else {
        Seq::<Action>::empty()
    };
    let spawn_part = seq![Action::Spawn];
    assert forall|x: Action|
        count_matching(restart_steps(slot, clear), x) == count_matching(kill_part, x)
            + count_matching(clear_part, x) + count_matching(spawn_part, x) by {
        lemma_count_matching_add(kill_part, clear_part, x);
        lemma_count_matching_add(kill_part + clear_part, spawn_part, x);
    }
    assert forall|x: Action| count_matching(Seq::<Action>::empty(), x) == 0 by {}
    lemma_count_singleton(Action::Kill, Action::Spawn);
    lemma_count_singleton(Action::Kill, Action::Kill);
    lemma_count_singleton(Action::Kill, Action::Clear);
    lemma_count_singleton(Action::Kill, Action::Report);
    lemma_count_singleton(Action::Clear, Action::Spawn);
    lemma_count_singleton(Action::Clear, Action::Kill);
    lemma_count_singleton(Action::Clear, Action::Clear);
    lemma_count_singleton(Action::Clear, Action::Report);
    lemma_count_singleton(Action::Spawn, Action::Spawn);
    lemma_count_singleton(Action::Spawn, Action::Kill);
    lemma_count_singleton(Action::Spawn, Action::Clear);
    lemma_count_singleton(Action::Spawn, Action::Report);
}

/// Over any sequence of received items, the loop performs exactly one spawn
/// per qualifying (data-modified) notification, and exactly one kill per
/// qualifying notification that arrives while the slot holds a running
/// process.
pub proof fn lemma_loop_trace_counts(slot: Slot, clear: bool, items: Seq<(LoopItem, bool)>)
    ensures
        count_matching(loop_trace(slot, clear, items), Action::Spawn) == count_qualifying(items),
        count_matching(loop_trace(slot, clear, items), Action::Kill) == count_kills_due(
            slot,
            items,
        ),
    decreases items.len(),
{
    if items.len() == 0 {
    } else {
        let first = items[0];
        let s2 = slot_after_item(slot, first.0, first.1);
        let block = item_steps(slot, clear, first.0);
        lemma_loop_trace_counts(s2, clear, items.skip(1));
        lemma_count_matching_add(block, loop_trace(s2, clear, items.skip(1)), Action::Spawn);
        lemma_count_matching_add(block, loop_trace(s2, clear, items.skip(1)), Action::Kill);
        if is_qualifying(first.0) {
            lemma_restart_steps_counts(slot, clear);
        } else if first.0 == LoopItem::DeliveryError {
            lemma_count_singleton(Action::Report, Action::Spawn);
            lemma_count_singleton(Action::Report, Action::Kill);
        }
    }
}

/// Over a whole run whose watch registrations all succeed, the number of
/// spawns is one (the startup spawn) plus the number of data-modified
/// notifications, and the number of kills is the number of data-modified
/// notifications less those that arrived while the slot held no running
/// process.
pub proof fn lemma_program_spawn_kill_counts(
    clear: bool,
    registrations: Seq<bool>,
    init_spawn_ok: bool,
    items: Seq<(LoopItem, bool)>,
)
    requires
        all_registered(registrations),
    ensures
        count_matching(program_trace(clear, registrations, init_spawn_ok, items), Action::Spawn)
            == 1 + count_qualifying(items),
        count_matching(program_trace(clear, registrations, init_spawn_ok, items), Action::Kill)
            == count_kills_due(slot_after_spawn(init_spawn_ok), items),
{
    let startup = restart_steps(Slot::Vacant, clear);
    let rest = loop_trace(slot_after_spawn(init_spawn_ok), clear, items);
    lemma_count_matching_add(startup, rest, Action::Spawn);
    lemma_count_matching_add(startup, rest, Action::Kill);
    lemma_restart_steps_counts(Slot::Vacant, clear);
    lemma_loop_trace_counts(slot_after_spawn(init_spawn_ok), clear, items);
}

/// The loop's trace splits at any point: the first `i` items contribute a
/// prefix, and the rest continue from the slot those items left behind.
pub proof fn lemma_loop_trace_split(slot: Slot, clear: bool, items: Seq<(LoopItem, bool)>, i: int)
    requires
        0 <= i <= items.len(),
    ensures
        loop_trace(slot, clear, items) == loop_trace(slot, clear, items.take(i)) + loop_trace(
            slot_after_items(slot, items.take(i)),
            clear,
            items.skip(i),
        ),
    decreases items.len(),
{
    if i == 0 {
        assert(items.take(0) =~= Seq::<(LoopItem, bool)>::empty());
        assert(items.skip(0) =~= items);
        assert(loop_trace(slot, clear, items.take(0)) + loop_trace(slot, clear, items) =~= loop_trace(
            slot,
            clear,
            items,
        ));
    } else {
        let first = items[0];
        let s2 = slot_after_item(slot, first.0, first.1);
        let rest = items.skip(1);
        lemma_loop_trace_split(s2, clear, rest, i - 1);
        assert(items.take(i)[0] == items[0]);
        assert(items.take(i).skip(1) =~= rest.take(i - 1));
        assert(items.skip(i) =~= rest.skip(i - 1));
        assert(seq_assoc_holds(
            item_steps(slot, clear, first.0),
            loop_trace(s2, clear, rest.take(i - 1)),
            loop_trace(slot_after_items(s2, rest.take(i - 1)), clear, rest.skip(i - 1)),
        ));
    }
}

/// Restart cycles never interleave: the trace is the block of the first `i`
/// items, then the whole contiguous block of item `i` planned from the slot
/// those items left, then the rest; and when item `i` is a qualifying
/// notification, the slot observed after its cycle holds exactly the result
/// of that cycle's spawn — running or failed, never a mix of old and new
/// state.
pub proof fn lemma_restarts_sequential(
    slot: Slot,
    clear: bool,
    items: Seq<(LoopItem, bool)>,
    i: int,
)
    requires
        0 <= i < items.len(),
    ensures
        loop_trace(slot, clear, items) == loop_trace(slot, clear, items.take(i)) + item_steps(
            slot_after_items(slot, items.take(i)),
            clear,
            items[i].0,
        ) + loop_trace(slot_after_items(slot, items.take(i + 1)), clear, items.skip(i + 1)),
        is_qualifying(items[i].0) ==> slot_after_items(slot, items.take(i + 1)) == slot_after_spawn(
            items[i].1,
        ),
{
    lemma_loop_trace_split(slot, clear, items, i);
    lemma_loop_trace_take_step(slot, clear, items, i);
    let s_i = slot_after_items(slot, items.take(i));
    let s_next = slot_after_item(s_i, items[i].0, items[i].1);
    assert(items.skip(i)[0] == items[i]);
    assert(items.skip(i).skip(1) =~= items.skip(i + 1));
    assert(loop_trace(s_i, clear, items.skip(i)) == item_steps(s_i, clear, items[i].0)
        + loop_trace(s_next, clear, items.skip(i + 1)));
    assert(seq_assoc_holds(
        loop_trace(slot, clear, items.take(i)),
        item_steps(s_i, clear, items[i].0),
        loop_trace(s_next, clear, items.skip(i + 1)),
    ));
}

/// If any watch registration fails, the run performs nothing at all: in
/// particular no process is ever spawned and the loop is never entered.
pub proof fn lemma_registration_failure_spawns_nothing(
    clear: bool,
    registrations: Seq<bool>,
    init_spawn_ok: bool,
    items: Seq<(LoopItem, bool)>,
)
    requires
        !all_registered(registrations),
    ensures
        program_trace(clear, registrations, init_spawn_ok, items) == Seq::<Action>::empty(),
        count_matching(program_trace(clear, registrations, init_spawn_ok, items), Action::Spawn)
            == 0,
{
}

/// A recorded spawn failure is not fatal: the next qualifying notification
/// runs a fresh restart cycle with exactly one new spawn attempt and no kill
/// (there is no running process to kill), and the loop then continues; if
/// that attempt succeeds the slot holds a running process again.
pub proof fn lemma_failed_spawn_retried(
    clear: bool,
    spawn_ok: bool,
    rest: Seq<(LoopItem, bool)>,
)
    ensures
        ({
            let first = (LoopItem::Change(ChangeKind::DataModified), spawn_ok);
            &&& loop_trace(Slot::Failed, clear, seq![first] + rest) == restart_steps(
                Slot::Failed,
                clear,
            ) + loop_trace(slot_after_spawn(spawn_ok), clear, rest)
            &&& count_matching(restart_steps(Slot::Failed, clear), Action::Spawn) == 1
            &&& count_matching(restart_steps(Slot::Failed, clear), Action::Kill) == 0
            &&& (spawn_ok ==> slot_after_spawn(spawn_ok) == Slot::Running)
        }),
{
    let first = (LoopItem::Change(ChangeKind::DataModified), spawn_ok);
    let items = seq![first] + rest;
    assert(items[0] == first);
    assert(items.skip(1) =~= rest);
    lemma_restart_steps_counts(Slot::Failed, clear);
}

} // verus!
