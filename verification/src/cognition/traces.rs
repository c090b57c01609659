//! The last things that happened.

use vstd::prelude::*;

use crate::json::Json;

verus! {

/// Something that happened.
#[derive(Debug)]
pub struct TraceEvent {
    pub trace_id: String,
    /// When it happened.
    pub at: String,
    pub kind: String,
    pub data: Json,
}

/// The last things that happened, as many as there is room for.
#[derive(Debug)]
pub struct TraceBuffer {
    pub events: Vec<TraceEvent>,
    pub capacity: usize,
}

/// Some events with one more; the oldest goes when there is no room.
pub open spec fn recorded(events: Seq<TraceEvent>, capacity: nat, e: TraceEvent) -> Seq<TraceEvent> {
    if events.len() >= capacity && events.len() > 0 {
        events.drop_first().push(e)
    } else {
        events.push(e)
    }
}

impl TraceBuffer {
    pub fn new(capacity: usize) -> (r: TraceBuffer)
        ensures
            r.events@ == Seq::<TraceEvent>::empty(),
            r.capacity == capacity,
    {
        TraceBuffer { events: Vec::new(), capacity }
    }

    /// Adds what happened at a time.
    pub fn record(&mut self, trace_id: &str, at: String, kind: &str, data: Json)
        ensures
            final(self).capacity == old(self).capacity,
            exists|e: TraceEvent|
                e.trace_id@ == trace_id@ && e.at == at && e.kind@ == kind@ && e.data == data
                    && final(self).events@ == #[trigger] recorded(
                    old(self).events@,
                    old(self).capacity as nat,
                    e,
                ),
    {
        let ghost start = self.events@;
        let e = TraceEvent { trace_id: trace_id.to_owned(), at, kind: kind.to_owned(), data };
        if self.events.len() >= self.capacity && self.events.len() > 0 {
            let _ = self.events.remove(0);
            assert(self.events@ =~= start.drop_first());
        }
        self.events.push(e);
        assert(self.events@ == recorded(start, self.capacity as nat, e));
    }

    /// All events, the oldest first.
    pub fn dump(&self) -> (r: &Vec<TraceEvent>)
        ensures
            r@ == self.events@,
    {
        &self.events
    }
}

impl Default for TraceBuffer {
    fn default() -> (r: TraceBuffer)
        ensures
            r.events@ == Seq::<TraceEvent>::empty(),
            r.capacity == 1024,
    {
        TraceBuffer::new(1024)
    }
}

/// There are never more events than there is room for, except for the one that
/// a buffer without room holds.
pub proof fn law_traces_are_bounded(events: Seq<TraceEvent>, capacity: nat, e: TraceEvent)
    requires
        events.len() <= capacity || events.len() <= 1,
    ensures
        recorded(events, capacity, e).len() <= capacity || recorded(events, capacity, e).len() <= 1,
        recorded(events, capacity, e).last() == e,
{
}

/// While there is room nothing that happened is lost; then only the oldest goes.
pub proof fn law_traces_keep_the_latest(events: Seq<TraceEvent>, capacity: nat, e: TraceEvent, i: int)
    ensures
        events.len() < capacity ==> recorded(events, capacity, e).drop_last() == events,
        1 <= i < events.len() ==> recorded(events, capacity, e).contains(events[i]),
        events.len() >= capacity && events.len() > 0 ==> recorded(events, capacity, e).len()
            == events.len() && recorded(events, capacity, e).drop_last() == events.skip(1),
{
    let r = recorded(events, capacity, e);
    if events.len() >= capacity && events.len() > 0 {
        assert(r.drop_last() =~= events.skip(1));
        if 1 <= i < events.len() {
            assert(r[i - 1] == events[i]);
        }
    } else {
        assert(r.drop_last() =~= events);
        if 1 <= i < events.len() {
            assert(r[i] == events[i]);
        }
    }
}

} // verus!
