//! The event bus: two generations of events, one being written and one
//! being read.

use vstd::prelude::*;
use crate::systems::events::{event_views, AppEvent, AppEventView};

verus! {

/// The event bus. Events pushed during one frame are kept pending and become
/// the current events of the next frame.
pub struct EventSystem {
    current: Vec<AppEvent>,
    pending: Vec<AppEvent>,
}

/// The two generations of the bus.
pub struct EventSystemView {
    /// The events that consumers see in this frame.
    pub current: Seq<AppEventView>,
    /// The events pushed in this frame, in the order of the pushes.
    pub pending: Seq<AppEventView>,
}

impl EventSystemView {
    /// The bus after `event` has been pushed.
    pub open spec fn pushed(self, event: AppEventView) -> EventSystemView {
        EventSystemView { current: self.current, pending: self.pending.push(event) }
    }

    /// The bus after all of `events` have been pushed, in their order.
    pub open spec fn pushed_all(self, events: Seq<AppEventView>) -> EventSystemView {
        EventSystemView { current: self.current, pending: self.pending + events }
    }

    /// The bus after the rotation at the start of a frame.
    pub open spec fn rotated(self) -> EventSystemView {
        EventSystemView { current: self.pending, pending: Seq::empty() }
    }
}

impl View for EventSystem {
    type V = EventSystemView;

    closed spec fn view(&self) -> EventSystemView {
        EventSystemView { current: event_views(self.current@), pending: event_views(self.pending@) }
    }
}

impl EventSystem {
    /// A bus without events.
    pub fn new() -> (r: EventSystem)
        ensures
            r@.current.len() == 0,
            r@.pending.len() == 0,
    {
        EventSystem { current: Vec::new(), pending: Vec::new() }
    }

    /// Queues an event for the next frame.
    pub fn push(&mut self, event: AppEvent)
        ensures
            final(self)@ == old(self)@.pushed(event@),
    {
        self.pending.push(event);
        assert(event_views(self.pending@) =~= event_views(old(self).pending@).push(event@));
    }

    /// Queues events for the next frame, in their order.
    pub fn push_all(&mut self, events: Vec<AppEvent>)
        ensures
            final(self)@ == old(self)@.pushed_all(event_views(events@)),
    {
        let mut events = events;
        let ghost pushed = events@;
        self.pending.append(&mut events);
        assert(event_views(self.pending@) =~= event_views(old(self).pending@) + event_views(
            pushed,
        ));
    }

    /// The events of the current frame. Reading them does not consume them.
    pub fn events(&self) -> (r: &Vec<AppEvent>)
        ensures
            event_views(r@) == self@.current,
    {
        &self.current
    }

    /// Rotates the bus: the pending events become the current ones, and
    /// nothing is pending.
    pub fn update(&mut self)
        ensures
            final(self)@ == old(self)@.rotated(),
    {
        let mut fresh: Vec<AppEvent> = Vec::new();
        std::mem::swap(&mut self.pending, &mut fresh);
        self.current = fresh;
        assert(event_views(self.pending@) =~= Seq::empty());
    }
}

/// One frame of latency: an event pushed in a frame is not among that
/// frame's current events because of the push, it is the last current event
/// after one rotation, occurring there once more than it was pending before,
/// and it is gone after a second rotation.
pub proof fn lemma_one_frame_of_latency(bus: EventSystemView, event: AppEventView)
    ensures
        bus.pushed(event).current == bus.current,
        bus.pushed(event).rotated().current == bus.pending.push(event),
        bus.pushed(event).rotated().current.to_multiset().count(event)
            == bus.pending.to_multiset().count(event) + 1,
        bus.pushed(event).rotated().rotated().current.len() == 0,
{
    broadcast use vstd::seq_lib::group_to_multiset_ensures;

}

} // verus!
