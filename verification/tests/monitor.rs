use rustic_reader::{PresenceEvent, PresenceMonitor, PresenceState, StatusReport};

fn report(event_count: u32, changed: bool, present: bool) -> StatusReport {
    StatusReport { event_count, changed, present }
}

#[test]
fn monitor_starts_unknown_at_counter_zero() {
    let monitor = PresenceMonitor::new();
    assert_eq!(monitor.last_event_count, 0);
    assert_eq!(monitor.state, PresenceState::Unknown);
}

#[test]
fn insertion_is_an_edge() {
    let mut monitor = PresenceMonitor::new();
    assert_eq!(monitor.observe(report(1, true, true)), PresenceEvent::Inserted);
    assert_eq!(monitor.state, PresenceState::Present);
    assert_eq!(monitor.last_event_count, 1);
    assert!(PresenceEvent::Inserted.is_edge());
}

#[test]
fn removal_is_an_edge() {
    let mut monitor = PresenceMonitor::new();
    assert_eq!(monitor.observe(report(1, true, true)), PresenceEvent::Inserted);
    assert_eq!(monitor.observe(report(2, true, false)), PresenceEvent::Removed);
    assert_eq!(monitor.state, PresenceState::Empty);
    assert_eq!(monitor.last_event_count, 2);
    assert!(PresenceEvent::Removed.is_edge());
}

#[test]
fn unchanged_counter_is_spurious() {
    let mut monitor = PresenceMonitor::new();
    assert_eq!(monitor.observe(report(0, true, true)), PresenceEvent::Spurious);
    assert_eq!(monitor, PresenceMonitor::new());
    assert!(!PresenceEvent::Spurious.is_edge());
}

#[test]
fn new_counter_without_change_moves_the_counter_only() {
    let mut monitor = PresenceMonitor::new();
    assert_eq!(monitor.observe(report(5, false, true)), PresenceEvent::NoEdge);
    assert_eq!(monitor.last_event_count, 5);
    assert_eq!(monitor.state, PresenceState::Unknown);
    assert!(!PresenceEvent::NoEdge.is_edge());
}

#[test]
fn same_counter_twice_notifies_once() {
    for first_changed in [false, true] {
        for first_present in [false, true] {
            for second_changed in [false, true] {
                for second_present in [false, true] {
                    for count in [0u32, 1, 7, u32::MAX] {
                        let mut monitor = PresenceMonitor::new();
                        monitor.observe(report(count, first_changed, first_present));
                        let after_first = monitor;
                        let second = monitor.observe(report(count, second_changed, second_present));
                        assert_eq!(second, PresenceEvent::Spurious);
                        assert!(!second.is_edge());
                        assert_eq!(monitor, after_first);
                    }
                }
            }
        }
    }
}

#[test]
fn listener_sees_each_transition_once() {
    let mut monitor = PresenceMonitor::new();
    let reports = [
        report(1, true, true),
        report(1, true, true),
        report(2, true, false),
        report(2, true, false),
        report(3, false, false),
        report(4, true, true),
    ];
    let events: Vec<PresenceEvent> = reports.iter().map(|r| monitor.observe(*r)).collect();
    assert_eq!(
        events,
        vec![
            PresenceEvent::Inserted,
            PresenceEvent::Spurious,
            PresenceEvent::Removed,
            PresenceEvent::Spurious,
            PresenceEvent::NoEdge,
            PresenceEvent::Inserted,
        ]
    );
}
