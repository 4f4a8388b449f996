//! Tests of the supervisor's planning and of whole-run traces.

use rentr::event::{ChangeKind, LoopItem};
use rentr::supervisor::{Action, Slot, Supervisor};
use rentr::trace::run_program;

#[test]
fn fresh_supervisor_is_vacant() {
    let sup = Supervisor::new(false);
    assert_eq!(sup.current_state(), Slot::Vacant);
}

#[test]
fn startup_restart_without_clear_only_spawns() {
    let sup = Supervisor::new(false);
    assert_eq!(sup.plan_restart(), vec![Action::Spawn]);
}

#[test]
fn startup_restart_with_clear_clears_before_spawn() {
    let sup = Supervisor::new(true);
    assert_eq!(sup.plan_restart(), vec![Action::Clear, Action::Spawn]);
}

#[test]
fn restart_of_running_process_kills_then_clears_then_spawns() {
    let mut sup = Supervisor::new(true);
    sup.record_spawn(true);
    assert_eq!(sup.current_state(), Slot::Running);
    assert_eq!(
        sup.plan_restart(),
        vec![Action::Kill, Action::Clear, Action::Spawn]
    );
}

#[test]
fn restart_after_spawn_failure_does_not_kill() {
    let mut sup = Supervisor::new(false);
    sup.record_spawn(false);
    assert_eq!(sup.current_state(), Slot::Failed);
    assert_eq!(sup.plan_restart(), vec![Action::Spawn]);
}

#[test]
fn data_modified_triggers_a_restart_cycle() {
    let mut sup = Supervisor::new(false);
    sup.record_spawn(true);
    let item = LoopItem::Change(ChangeKind::DataModified);
    assert!(item.qualifies());
    assert_eq!(sup.plan_item(&item), vec![Action::Kill, Action::Spawn]);
}

#[test]
fn renamed_and_metadata_changes_trigger_nothing() {
    let mut sup = Supervisor::new(true);
    sup.record_spawn(true);
    for kind in [
        ChangeKind::Renamed,
        ChangeKind::MetadataChanged,
        ChangeKind::Accessed,
        ChangeKind::Other,
    ] {
        let item = LoopItem::Change(kind);
        assert!(!item.qualifies());
        assert_eq!(sup.plan_item(&item), vec![]);
    }
    assert_eq!(sup.current_state(), Slot::Running);
}

#[test]
fn delivery_error_is_reported_and_nothing_else() {
    let mut sup = Supervisor::new(true);
    sup.record_spawn(true);
    assert_eq!(sup.plan_item(&LoopItem::DeliveryError), vec![Action::Report]);
    assert_eq!(sup.current_state(), Slot::Running);
}

fn data(ok: bool) -> (LoopItem, bool) {
    (LoopItem::Change(ChangeKind::DataModified), ok)
}

fn count(trace: &[Action], a: Action) -> usize {
    trace.iter().filter(|x| **x == a).count()
}

#[test]
fn spawns_are_one_plus_qualifying_and_kills_match_running_slots() {
    let items = vec![
        data(true),
        (LoopItem::Change(ChangeKind::Renamed), true),
        data(true),
        (LoopItem::DeliveryError, true),
        data(true),
    ];
    let trace = run_program(false, &vec![true, true], true, &items);
    assert_eq!(count(&trace, Action::Spawn), 1 + 3);
    assert_eq!(count(&trace, Action::Kill), 3);
    assert_eq!(count(&trace, Action::Report), 1);
}

#[test]
fn a_failed_spawn_suppresses_the_next_kill() {
    // The first restart's spawn fails, so the second restart finds no
    // running process and performs no kill.
    let items = vec![data(false), data(true)];
    let trace = run_program(false, &vec![true], true, &items);
    assert_eq!(
        trace,
        vec![
            Action::Spawn,
            Action::Kill,
            Action::Spawn,
            Action::Spawn,
        ]
    );
}

#[test]
fn restart_cycles_run_whole_and_in_order() {
    let items = vec![data(true), data(true)];
    let trace = run_program(true, &vec![true], true, &items);
    assert_eq!(
        trace,
        vec![
            Action::Clear,
            Action::Spawn,
            Action::Kill,
            Action::Clear,
            Action::Spawn,
            Action::Kill,
            Action::Clear,
            Action::Spawn,
        ]
    );
}

#[test]
fn registration_failure_aborts_before_any_spawn() {
    // Watch paths "a/" and "b/": registering "b/" fails, so the program
    // terminates before any process is spawned and before entering the loop.
    let paths = rentr::watch::parse_watch_paths("a/\nb/\n");
    assert_eq!(paths, vec!["a/".to_string(), "b/".to_string()]);
    let registrations = vec![true, false];
    let items = vec![data(true)];
    let trace = run_program(false, &registrations, true, &items);
    assert_eq!(trace, vec![]);
}

#[test]
fn failed_initial_spawn_is_retried_on_next_change() {
    // The initial spawn fails (e.g. a nonexistent executable); the program
    // does not terminate, and a later data-modified notification makes a
    // second attempt, which may succeed.
    let items = vec![data(true), (LoopItem::DeliveryError, true)];
    let trace = run_program(false, &vec![true], false, &items);
    assert_eq!(trace, vec![Action::Spawn, Action::Spawn, Action::Report]);
}
