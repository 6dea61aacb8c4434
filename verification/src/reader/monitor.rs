//! Presence monitoring: from the transport's status reports to the edges
//! "card inserted" and "card removed".
//!
//! The transport is asked to wait for a change of state and answers with a
//! report. The monitor decides what each report means. It remembers the
//! event counter of the last report that it took in, so that a report that
//! carries the same counter again is recognised as already handled.

use vstd::prelude::*;

verus! {

/// What is known about the card slot of a reader.
#[derive(Clone, Copy, Debug, PartialEq, Eq, Structural)]
pub enum PresenceState {
    /// No edge has been observed yet.
    Unknown,
    /// The last edge was a removal.
    Empty,
    /// The last edge was an insertion.
    Present,
}

/// One answer of the transport to "wait for a change of state".
#[derive(Clone, Copy, Debug, PartialEq, Eq, Structural)]
pub struct StatusReport {
    /// The reader's event counter as of this report.
    pub event_count: u32,
    /// Whether the report flags a change against the state last synchronised.
    pub changed: bool,
    /// Whether the report says that a card is in the reader.
    pub present: bool,
}

/// What a report amounts to.
#[derive(Clone, Copy, Debug, PartialEq, Eq, Structural)]
pub enum PresenceEvent {
    /// The counter is the one already seen: nothing new, wait again.
    Spurious,
    /// A new counter without a change of state: noted, wait again.
    NoEdge,
    /// A card was inserted.
    Inserted,
    /// The card was removed.
    Removed,
}

impl PresenceEvent {
    /// An edge is an insertion or a removal.
    pub open spec fn is_edge_spec(self) -> bool {
        self == PresenceEvent::Inserted || self == PresenceEvent::Removed
    }

    /// Tells whether the event is an edge. Once an edge has been handled, the
    /// caller synchronises the state that the transport compares against
    /// with the state just reported, so that the next wait measures changes
    /// from there.
    #[verifier::when_used_as_spec(is_edge_spec)]
    pub fn is_edge(self) -> (edge: bool)
        ensures
            edge == self.is_edge_spec(),
    {
        match self {
            PresenceEvent::Inserted => true,
            PresenceEvent::Removed => true,
            _ => false,
        }
    }
}

/// The monitor of one reader.
#[derive(Clone, Copy, Debug, PartialEq, Eq, Structural)]
pub struct PresenceMonitor {
    /// Event counter of the last report taken in.
    pub last_event_count: u32,
    /// Presence as of the last edge.
    pub state: PresenceState,
}

impl PresenceMonitor {
    /// The monitor before any report: counter zero, presence unknown.
    pub open spec fn initial() -> PresenceMonitor {
        PresenceMonitor { last_event_count: 0, state: PresenceState::Unknown }
    }

    /// The monitor after `report` and the event that the report amounts to.
    ///
    /// A report with the counter last seen changes nothing. Any other report
    /// moves the counter on; it is an edge only where it flags a change, an
    /// insertion where a card is present and a removal where none is.
    pub open spec fn observe_spec(self, report: StatusReport) -> (PresenceMonitor, PresenceEvent) {
        if report.event_count == self.last_event_count {
            (self, PresenceEvent::Spurious)
        } else if !report.changed {
            (
                PresenceMonitor { last_event_count: report.event_count, state: self.state },
                PresenceEvent::NoEdge,
            )
        } else if report.present {
            (
                PresenceMonitor {
                    last_event_count: report.event_count,
                    state: PresenceState::Present,
                },
                PresenceEvent::Inserted,
            )
        } else {
            (
                PresenceMonitor { last_event_count: report.event_count, state: PresenceState::Empty },
                PresenceEvent::Removed,
            )
        }
    }

    /// Starts monitoring a reader of which nothing is known yet.
    pub fn new() -> (monitor: PresenceMonitor)
        ensures
            monitor == Self::initial(),
    {
        PresenceMonitor { last_event_count: 0, state: PresenceState::Unknown }
    }

    /// Takes in one report and says what it amounts to.
    pub fn observe(&mut self, report: StatusReport) -> (event: PresenceEvent)
        ensures
            (*final(self), event) == old(self).observe_spec(report),
    {
        if report.event_count == self.last_event_count {
            PresenceEvent::Spurious
        } else if !report.changed {
            self.last_event_count = report.event_count;
            PresenceEvent::NoEdge
        } else if report.present {
            self.last_event_count = report.event_count;
            self.state = PresenceState::Present;
            PresenceEvent::Inserted
        } else {
            self.last_event_count = report.event_count;
            self.state = PresenceState::Empty;
            PresenceEvent::Removed
        }
    }
}

/// Of two consecutive reports that carry the same event counter, the second
/// is spurious whatever its flags say: it yields no edge and leaves the
/// monitor as the first report left it.
pub proof fn lemma_repeated_counter_yields_no_edge(
    monitor: PresenceMonitor,
    first: StatusReport,
    second: StatusReport,
)
    requires
        first.event_count == second.event_count,
    ensures
        ({
            let (after_first, _) = monitor.observe_spec(first);
            let (after_second, event) = after_first.observe_spec(second);
            &&& event == PresenceEvent::Spurious
            &&& !event.is_edge()
            &&& after_second == after_first
        }),
{
}

/// An edge is reported exactly for a report with a new counter that flags a
/// change, and it follows the report's presence flag.
pub proof fn lemma_edge_needs_new_counter_and_change(monitor: PresenceMonitor, report: StatusReport)
    ensures
        ({
            let (_, event) = monitor.observe_spec(report);
            &&& event.is_edge() <==> (report.event_count != monitor.last_event_count
                && report.changed)
            &&& event == PresenceEvent::Inserted ==> report.present
            &&& event == PresenceEvent::Removed ==> !report.present
        }),
{
}

} // verus!
