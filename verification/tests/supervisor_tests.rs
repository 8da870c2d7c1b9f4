use server_knocker::child::{ChildProcess, DelayedGroupSignal, GroupSignal, Signal, Teardown};
use server_knocker::proxy::{EventSlot, ProxyEvent};
use server_knocker::supervisor::{Supervisor, SupervisorAction, SupervisorInput};

fn teardown(pid: u32, grace: u64) -> SupervisorAction {
    SupervisorAction::Teardown(Teardown {
        terminate: GroupSignal { group: pid as i32, signal: Some(Signal::Term) },
        escalate: DelayedGroupSignal { group: pid as i32, signal: Signal::Kill, delay_ms: grace },
        reap: pid,
    })
}

fn started() -> Supervisor {
    Supervisor::new(1_000, 250, ChildProcess::new(100).unwrap(), 0)
}

#[test]
fn idle_child_is_terminated_then_respawned_on_demand() {
    let mut sup = started();
    assert_eq!(sup.time_left(0), Some(1_000));
    assert_eq!(sup.step(SupervisorInput::Tick, 999), Vec::new());
    assert_eq!(sup.children().len(), 1);

    assert_eq!(sup.step(SupervisorInput::Tick, 1_000), vec![teardown(100, 250)]);
    assert!(sup.children().is_empty());
    assert_eq!(sup.time_left(1_000), Some(1_000));

    assert_eq!(
        sup.step(SupervisorInput::Event(ProxyEvent::DestinationNotResponding), 1_200),
        vec![SupervisorAction::Spawn]
    );
    assert_eq!(
        sup.step(SupervisorInput::ChildSpawned { pid: 101 }, 1_201),
        vec![SupervisorAction::WakeHeld]
    );
    assert_eq!(sup.children(), &vec![ChildProcess::new(101).unwrap()]);
    assert!(!sup.is_halted());
}

#[test]
fn every_child_is_torn_down_in_order() {
    let mut sup = started();
    sup.step(SupervisorInput::ChildSpawned { pid: 200 }, 10);
    sup.step(SupervisorInput::ChildSpawned { pid: 300 }, 20);
    assert_eq!(
        sup.step(SupervisorInput::Tick, 5_000),
        vec![teardown(100, 250), teardown(200, 250), teardown(300, 250)]
    );
    assert!(sup.children().is_empty());
}

#[test]
fn packets_keep_the_child_alive() {
    let mut sup = started();
    assert_eq!(sup.step(SupervisorInput::Event(ProxyEvent::GotPacket), 900), Vec::new());
    assert_eq!(sup.time_left(900), Some(1_000));
    assert_eq!(sup.step(SupervisorInput::Tick, 1_000), Vec::new());
    assert_eq!(sup.step(SupervisorInput::Event(ProxyEvent::GotPacket), 1_800), Vec::new());
    assert_eq!(sup.step(SupervisorInput::Tick, 2_799), Vec::new());
    assert_eq!(sup.time_left(2_799), Some(1));
    assert_eq!(sup.step(SupervisorInput::Tick, 2_800), vec![teardown(100, 250)]);
}

#[test]
fn other_events_do_not_restart_the_countdown() {
    let mut sup = started();
    assert_eq!(sup.step(SupervisorInput::Event(ProxyEvent::Nothing), 900), Vec::new());
    assert_eq!(sup.time_left(900), Some(100));
    sup.step(SupervisorInput::Event(ProxyEvent::DestinationNotResponding), 950);
    assert_eq!(sup.time_left(950), Some(50));
    assert_eq!(sup.time_left(1_500), Some(0));
}

#[test]
fn empty_cycle_tears_nothing_down() {
    let mut sup = started();
    sup.step(SupervisorInput::Tick, 1_000);
    assert_eq!(sup.step(SupervisorInput::Tick, 1_999), Vec::new());
    assert_eq!(sup.step(SupervisorInput::Tick, 2_000), Vec::new());
    assert_eq!(sup.time_left(2_000), Some(1_000));
}

#[test]
fn unknown_error_halts_supervision() {
    let mut sup = started();
    assert_eq!(
        sup.step(SupervisorInput::Event(ProxyEvent::UnknownError), 5),
        vec![SupervisorAction::Halt]
    );
    assert!(sup.is_halted());
    assert_eq!(sup.time_left(5), None);
    assert_eq!(
        sup.step(SupervisorInput::Event(ProxyEvent::GotPacket), 6),
        vec![SupervisorAction::Halt]
    );
    assert_eq!(sup.step(SupervisorInput::Tick, 9_999), vec![SupervisorAction::Halt]);
    assert_eq!(
        sup.step(SupervisorInput::ChildSpawned { pid: 7 }, 10_000),
        vec![SupervisorAction::Halt]
    );
    assert_eq!(sup.children().len(), 1);
}

#[test]
fn failed_launch_is_fatal() {
    let mut sup = started();
    sup.step(SupervisorInput::Event(ProxyEvent::DestinationNotResponding), 5);
    assert_eq!(sup.step(SupervisorInput::SpawnFailed, 6), vec![SupervisorAction::Halt]);
    assert!(sup.is_halted());
}

#[test]
fn launch_with_an_impossible_pid_is_fatal() {
    let mut sup = started();
    assert_eq!(
        sup.step(SupervisorInput::ChildSpawned { pid: 0 }, 6),
        vec![SupervisorAction::Halt]
    );
    assert!(sup.is_halted());
}

#[test]
fn slot_keeps_only_the_latest_event() {
    let mut slot = EventSlot::new();
    assert_eq!(slot.take_changed(), None);
    slot.send(ProxyEvent::GotPacket);
    slot.send(ProxyEvent::DestinationNotResponding);
    slot.send(ProxyEvent::GotPacket);
    assert_eq!(slot.take_changed(), Some(ProxyEvent::GotPacket));
    assert_eq!(slot.take_changed(), None);
    slot.send(ProxyEvent::UnknownError);
    assert_eq!(slot.take_changed(), Some(ProxyEvent::UnknownError));
}
