//! A bounded log of events, kept in order of their timestamps.

use crate::event::Event;
use crate::event::EventView;
use std::collections::VecDeque;
use vstd::prelude::*;

verus! {

/// The timestamps of `s` never decrease from front to back.
pub open spec fn sorted(s: Seq<EventView>) -> bool {
    forall|i: int, j: int| 0 <= i <= j < s.len() ==> s[i].timestamp <= s[j].timestamp
}

/// The index at which an event stamped `t` enters `s`, found from the back:
/// directly behind the last event that is stamped `t` or earlier.
pub open spec fn slot_for(s: Seq<EventView>, t: u64) -> int
    decreases s.len(),
{
    if s.len() == 0 || s.last().timestamp <= t {
        s.len() as int
    } else {
        slot_for(s.drop_last(), t)
    }
}

/// `p` parts `s` into the events stamped `t` or earlier, in front of `p`, and
/// those stamped later than `t`, from `p` on.
pub open spec fn parts_at(s: Seq<EventView>, t: u64, p: int) -> bool {
    &&& 0 <= p <= s.len()
    &&& forall|i: int| 0 <= i < p ==> s[i].timestamp <= t
    &&& forall|i: int| p <= i < s.len() ==> t < s[i].timestamp
}

/// What a log that may hold `capacity` events keeps of `s` before it takes
/// one more: all of `s` while there is room, else all but the front event.
pub open spec fn make_room(s: Seq<EventView>, capacity: nat) -> Seq<EventView> {
    if s.len() > 0 && s.len() >= capacity {
        s.drop_first()
    } else {
        s
    }
}

/// The log `s` after `e` was appended to it.
pub open spec fn appended(s: Seq<EventView>, capacity: nat, e: EventView) -> Seq<EventView> {
    let kept = make_room(s, capacity);
    kept.insert(slot_for(kept, e.timestamp), e)
}

/// The log `s` after the events of `batch` were appended to it one by one,
/// front first.
pub open spec fn replayed(s: Seq<EventView>, capacity: nat, batch: Seq<EventView>) -> Seq<
    EventView,
>
    decreases batch.len(),
{
    if batch.len() == 0 {
        s
    } else {
        appended(replayed(s, capacity, batch.drop_last()), capacity, batch.last())
    }
}

/// The events of `s` stamped `cursor` or later, in the order they have in `s`.
pub open spec fn since(s: Seq<EventView>, cursor: u64) -> Seq<EventView> {
    s.filter(|e: EventView| e.timestamp >= cursor)
}

/// In a sorted log the slot of a new event parts the log by its timestamp.
pub proof fn lemma_slot_parts(s: Seq<EventView>, t: u64)
    requires
        sorted(s),
    ensures
        parts_at(s, t, slot_for(s, t)),
    decreases s.len(),
{
    if s.len() == 0 || s.last().timestamp <= t {
    } else {
        let front = s.drop_last();
        lemma_slot_parts(front, t);
        let p = slot_for(front, t);
        assert forall|i: int| p <= i < s.len() implies t < s[i].timestamp by {
            if i < front.len() {
                assert(front[i] == s[i]);
            }
        }
        assert forall|i: int| 0 <= i < p implies s[i].timestamp <= t by {
            assert(front[i] == s[i]);
        }
    }
}

/// No other index parts a log by `t` than the one that `slot_for` gives.
pub proof fn lemma_slot_unique(s: Seq<EventView>, t: u64, p: int)
    requires
        parts_at(s, t, p),
    ensures
        p == slot_for(s, t),
    decreases s.len(),
{
    if s.len() == 0 {
    } else if s.last().timestamp <= t {
        if p < s.len() {
            assert(t < s[s.len() - 1].timestamp);
        }
    } else {
        if p == s.len() {
            assert(s[p - 1].timestamp <= t);
        }
        let front = s.drop_last();
        assert forall|i: int| 0 <= i < p implies front[i].timestamp <= t by {
            assert(front[i] == s[i]);
        }
        assert forall|i: int| p <= i < front.len() implies t < front[i].timestamp by {
            assert(front[i] == s[i]);
        }
        lemma_slot_unique(front, t, p);
    }
}

/// A sorted log stays sorted when an event enters at its slot, and grows by
/// one.
pub proof fn lemma_insert_sorted(s: Seq<EventView>, e: EventView)
    requires
        sorted(s),
    ensures
        sorted(s.insert(slot_for(s, e.timestamp), e)),
        s.insert(slot_for(s, e.timestamp), e).len() == s.len() + 1,
{
    lemma_slot_parts(s, e.timestamp);
    let p = slot_for(s, e.timestamp);
    let r = s.insert(p, e);
    assert forall|i: int, j: int| 0 <= i <= j < r.len() implies r[i].timestamp
        <= r[j].timestamp by {
        if i < p {
            assert(r[i] == s[i]);
        } else if i > p {
            assert(r[i] == s[i - 1]);
        }
        if j < p {
            assert(r[j] == s[j]);
        } else if j > p {
            assert(r[j] == s[j - 1]);
        }
    }
}

/// Appending keeps a log sorted and within its capacity: a log with room
/// grows by one event, a full one keeps its length.
pub proof fn lemma_appended_wf(s: Seq<EventView>, capacity: nat, e: EventView)
    requires
        sorted(s),
        s.len() <= capacity,
        0 < capacity,
    ensures
        sorted(appended(s, capacity, e)),
        appended(s, capacity, e).len() == if s.len() < capacity {
            s.len() + 1
        } else {
            capacity
        },
{
    let kept = make_room(s, capacity);
    assert(sorted(kept)) by {
        assert forall|i: int, j: int| 0 <= i <= j < kept.len() implies kept[i].timestamp
            <= kept[j].timestamp by {
            if s.len() >= capacity {
                assert(kept[i] == s[i + 1]);
                assert(kept[j] == s[j + 1]);
            }
        }
    }
    lemma_insert_sorted(kept, e);
}

/// In a sorted log the events from the first one stamped `cursor` or later
/// on are exactly the events stamped `cursor` or later.
pub proof fn lemma_since_is_suffix(s: Seq<EventView>, cursor: u64, p: int)
    requires
        sorted(s),
        0 <= p <= s.len(),
        forall|i: int| 0 <= i < p ==> s[i].timestamp < cursor,
        forall|i: int| p <= i < s.len() ==> s[i].timestamp >= cursor,
    ensures
        since(s, cursor) == s.subrange(p, s.len() as int),
    decreases s.len(),
{
    reveal(Seq::filter);
    let pred = |e: EventView| e.timestamp >= cursor;
    if s.len() == 0 {
        assert(s.filter(pred) =~= s.subrange(p, s.len() as int));
    } else {
        let front = s.drop_last();
        assert forall|i: int, j: int| 0 <= i <= j < front.len() implies front[i].timestamp
            <= front[j].timestamp by {
            assert(front[i] == s[i]);
            assert(front[j] == s[j]);
        }
        if p == s.len() {
            assert forall|i: int| 0 <= i < front.len() implies front[i].timestamp < cursor by {
                assert(front[i] == s[i]);
            }
            lemma_since_is_suffix(front, cursor, front.len() as int);
            assert(!pred(s.last()));
            assert(s.filter(pred) == front.filter(pred));
            assert(front.subrange(front.len() as int, front.len() as int) =~= s.subrange(
                p,
                s.len() as int,
            ));
        } else {
            assert forall|i: int| 0 <= i < p implies front[i].timestamp < cursor by {
                assert(front[i] == s[i]);
            }
            assert forall|i: int| p <= i < front.len() implies front[i].timestamp >= cursor by {
                assert(front[i] == s[i]);
            }
            lemma_since_is_suffix(front, cursor, p);
            assert(pred(s.last()));
            assert(s.filter(pred) == front.filter(pred).push(s.last()));
            assert(front.subrange(p, front.len() as int).push(s.last()) =~= s.subrange(
                p,
                s.len() as int,
            ));
        }
    }
}

/// Whatever is appended to a sorted log within its capacity, and in whatever
/// order, the log stays sorted, and it holds as many events as were there and
/// came, up to its capacity.
pub proof fn lemma_replayed_wf(s: Seq<EventView>, capacity: nat, batch: Seq<EventView>)
    requires
        sorted(s),
        s.len() <= capacity,
        0 < capacity,
    ensures
        sorted(replayed(s, capacity, batch)),
        replayed(s, capacity, batch).len() == if s.len() + batch.len() <= capacity {
            s.len() + batch.len()
        } else {
            capacity
        },
    decreases batch.len(),
{
    if batch.len() > 0 {
        lemma_replayed_wf(s, capacity, batch.drop_last());
        lemma_appended_wf(replayed(s, capacity, batch.drop_last()), capacity, batch.last());
    }
}

/// A query from a cursor that no event of the log lies before answers with
/// the whole log.
pub proof fn lemma_since_covers_all(s: Seq<EventView>, cursor: u64)
    requires
        sorted(s),
        forall|i: int| 0 <= i < s.len() ==> s[i].timestamp >= cursor,
    ensures
        since(s, cursor) == s,
{
    lemma_since_is_suffix(s, cursor, 0);
    assert(s.subrange(0, s.len() as int) =~= s);
}

/// A query from a cursor that every event of the log lies before answers
/// with nothing.
pub proof fn lemma_since_past_end(s: Seq<EventView>, cursor: u64)
    requires
        sorted(s),
        forall|i: int| 0 <= i < s.len() ==> s[i].timestamp < cursor,
    ensures
        since(s, cursor) == Seq::<EventView>::empty(),
{
    lemma_since_is_suffix(s, cursor, s.len() as int);
    assert(s.subrange(s.len() as int, s.len() as int) =~= Seq::<EventView>::empty());
}

/// The timestamp of an event that was just appended is a cursor from which
/// a query finds that event.
pub proof fn lemma_cursor_finds_appended(s: Seq<EventView>, capacity: nat, e: EventView)
    ensures
        since(appended(s, capacity, e), e.timestamp).contains(e),
{
    let kept = make_room(s, capacity);
    let slot = slot_for(kept, e.timestamp);
    lemma_slot_in_range(kept, e.timestamp);
    let after = kept.insert(slot, e);
    assert(after[slot] == e);
    after.lemma_filter_contains(|x: EventView| x.timestamp >= e.timestamp, slot);
}

/// After any appends to an empty log, a query from timestamp zero finds the
/// events in order of their timestamps.
pub proof fn lemma_query_is_ordered(capacity: nat, batch: Seq<EventView>)
    requires
        0 < capacity,
    ensures
        sorted(since(replayed(Seq::empty(), capacity, batch), 0)),
        since(replayed(Seq::empty(), capacity, batch), 0) == replayed(
            Seq::empty(),
            capacity,
            batch,
        ),
{
    lemma_replayed_wf(Seq::empty(), capacity, batch);
    lemma_since_covers_all(replayed(Seq::empty(), capacity, batch), 0);
}

/// Once as many events as its capacity were appended to an empty log, and
/// however many more, the log holds exactly `capacity` events.
pub proof fn lemma_full_after_capacity_appends(capacity: nat, batch: Seq<EventView>)
    requires
        0 < capacity,
        batch.len() >= capacity,
    ensures
        replayed(Seq::empty(), capacity, batch).len() == capacity,
{
    lemma_replayed_wf(Seq::empty(), capacity, batch);
}

/// The last `capacity` events of `batch`, or all of them where there are
/// fewer.
pub open spec fn latest(batch: Seq<EventView>, capacity: nat) -> Seq<EventView> {
    if batch.len() <= capacity {
        batch
    } else {
        batch.subrange(batch.len() - capacity, batch.len() as int)
    }
}

/// Where events are appended to an empty log in the order of their
/// timestamps, the log holds exactly the latest `capacity` of them, in the
/// order in which they came.
pub proof fn lemma_in_order_appends_keep_latest(capacity: nat, batch: Seq<EventView>)
    requires
        0 < capacity,
        sorted(batch),
    ensures
        replayed(Seq::empty(), capacity, batch) == latest(batch, capacity),
    decreases batch.len(),
{
    if batch.len() == 0 {
    } else {
        let front = batch.drop_last();
        let e = batch.last();
        assert forall|i: int, j: int| 0 <= i <= j < front.len() implies front[i].timestamp
            <= front[j].timestamp by {
            assert(front[i] == batch[i]);
            assert(front[j] == batch[j]);
        }
        lemma_in_order_appends_keep_latest(capacity, front);
        let before = latest(front, capacity);
        let kept = make_room(before, capacity);
        if kept.len() > 0 {
            assert(kept.last() == batch[front.len() - 1]);
            assert(batch[front.len() - 1].timestamp <= batch[batch.len() - 1].timestamp);
        }
        assert(slot_for(kept, e.timestamp) == kept.len());
        assert(kept.insert(kept.len() as int, e) =~= latest(batch, capacity));
    }
}

/// The events of `s` in order of their timestamps, those with equal
/// timestamps in the order that they have in `s`: what a log with room for
/// all of them holds once they were appended.
pub open spec fn arranged(s: Seq<EventView>) -> Seq<EventView>
    decreases s.len(),
{
    if s.len() == 0 {
        s
    } else {
        let earlier = arranged(s.drop_last());
        earlier.insert(slot_for(earlier, s.last().timestamp), s.last())
    }
}

/// Each event that a full log gives up when `batch` is appended to an empty
/// log came no later, by its timestamp, than the `capacity - 1` events
/// appended after it.
pub open spec fn gives_up_oldest(batch: Seq<EventView>, capacity: nat) -> bool {
    forall|i: int, j: int|
        0 <= i < j < i + capacity && i + capacity < batch.len() ==> batch[i].timestamp
            <= batch[j].timestamp
}

/// An event stamped no later than `t` in front of a log moves the slot for
/// `t` back by one.
proof fn lemma_slot_behind_front(x: EventView, s: Seq<EventView>, t: u64)
    requires
        x.timestamp <= t,
    ensures
        slot_for(seq![x] + s, t) == 1 + slot_for(s, t),
    decreases s.len(),
{
    let whole = seq![x] + s;
    if s.len() == 0 {
        assert(whole.last() == x);
    } else {
        assert(whole.last() == s.last());
        if s.last().timestamp <= t {
        } else {
            assert(whole.drop_last() =~= seq![x] + s.drop_last());
            lemma_slot_behind_front(x, s.drop_last(), t);
        }
    }
}

/// Arranging keeps every event.
proof fn lemma_arranged_len(s: Seq<EventView>)
    ensures
        arranged(s).len() == s.len(),
    decreases s.len(),
{
    if s.len() > 0 {
        lemma_arranged_len(s.drop_last());
        let earlier = arranged(s.drop_last());
        lemma_slot_in_range(earlier, s.last().timestamp);
    }
}

/// A slot lies within the log or directly behind it.
proof fn lemma_slot_in_range(s: Seq<EventView>, t: u64)
    ensures
        0 <= slot_for(s, t) <= s.len(),
    decreases s.len(),
{
    if s.len() == 0 || s.last().timestamp <= t {
    } else {
        lemma_slot_in_range(s.drop_last(), t);
    }
}

/// An event that came first and is stamped no later than any other stays in
/// front when the events are arranged.
proof fn lemma_arranged_keeps_front(x: EventView, rest: Seq<EventView>)
    requires
        forall|k: int| 0 <= k < rest.len() ==> x.timestamp <= rest[k].timestamp,
    ensures
        arranged(seq![x] + rest) == seq![x] + arranged(rest),
    decreases rest.len(),
{
    let whole = seq![x] + rest;
    if rest.len() == 0 {
        let none = Seq::<EventView>::empty();
        assert(arranged(none) == none);
        assert(whole.drop_last() =~= none);
        assert(rest =~= none);
        assert(whole.last() == x);
        assert(none.insert(0, x) =~= seq![x]);
        assert(arranged(whole) == seq![x]);
        assert(seq![x] + arranged(rest) =~= seq![x]);
    } else {
        let y = rest.last();
        assert(whole.last() == y);
        assert(whole.drop_last() =~= seq![x] + rest.drop_last());
        assert forall|k: int| 0 <= k < rest.drop_last().len() implies x.timestamp
            <= rest.drop_last()[k].timestamp by {
            assert(rest.drop_last()[k] == rest[k]);
        }
        lemma_arranged_keeps_front(x, rest.drop_last());
        let inner = arranged(rest.drop_last());
        assert(x.timestamp <= y.timestamp) by {
            assert(y == rest[rest.len() - 1]);
        }
        lemma_slot_behind_front(x, inner, y.timestamp);
        lemma_slot_in_range(inner, y.timestamp);
        let p = slot_for(inner, y.timestamp);
        assert((seq![x] + inner).insert(1 + p, y) =~= seq![x] + inner.insert(p, y));
    }
}

/// Where every event that a full log gives up is the oldest by its
/// timestamp as well as by its coming, the log holds exactly the latest
/// `capacity` events that were appended, in order of their timestamps.
pub proof fn lemma_appends_keep_latest(capacity: nat, batch: Seq<EventView>)
    requires
        0 < capacity,
        gives_up_oldest(batch, capacity),
    ensures
        replayed(Seq::empty(), capacity, batch) == arranged(latest(batch, capacity)),
    decreases batch.len(),
{
    if batch.len() == 0 {
    } else {
        let front = batch.drop_last();
        let e = batch.last();
        assert forall|i: int, j: int|
            0 <= i < j < i + capacity && i + capacity < front.len() implies front[i].timestamp
            <= front[j].timestamp by {
            assert(front[i] == batch[i]);
            assert(front[j] == batch[j]);
        }
        lemma_appends_keep_latest(capacity, front);
        let window = latest(front, capacity);
        let before = arranged(window);
        lemma_arranged_len(window);
        if front.len() < capacity {
            assert(make_room(before, capacity) == before);
            assert(latest(batch, capacity).drop_last() =~= window);
        } else {
            let first = front.len() - capacity;
            let x = window[0];
            let rest = window.drop_first();
            assert(window =~= seq![x] + rest);
            assert forall|k: int| 0 <= k < rest.len() implies x.timestamp
                <= rest[k].timestamp by {
                assert(x == batch[first]);
                assert(rest[k] == batch[first + 1 + k]);
            }
            lemma_arranged_keeps_front(x, rest);
            assert(make_room(before, capacity) =~= arranged(rest));
            assert(latest(batch, capacity).drop_last() =~= rest);
        }
    }
}

/// A bounded log of events in order of their timestamps. While it is full,
/// each event that enters drives out the event at the front.
pub struct EventLog {
    events: VecDeque<Event>,
    capacity: usize,
}

impl View for EventLog {
    type V = Seq<EventView>;

    closed spec fn view(&self) -> Seq<EventView> {
        self.events.deep_view()
    }
}

impl EventLog {
    /// The number of events that the log holds at most.
    pub closed spec fn spec_capacity(&self) -> nat {
        self.capacity as nat
    }

    /// The log is sorted and within its capacity, which is positive.
    pub open spec fn wf(&self) -> bool {
        &&& 0 < self.spec_capacity()
        &&& self@.len() <= self.spec_capacity()
        &&& sorted(self@)
    }

    /// An empty log that holds up to `capacity` events.
    pub fn new(capacity: usize) -> (log: EventLog)
        requires
            0 < capacity,
        ensures
            log.wf(),
            log@ == Seq::<EventView>::empty(),
            log.spec_capacity() == capacity,
    {
        let log = EventLog { events: VecDeque::new(), capacity };
        log
    }

    /// The number of events that the log holds at most.
    pub fn capacity(&self) -> (capacity: usize)
        ensures
            capacity == self.spec_capacity(),
    {
        self.capacity
    }

    /// The number of events in the log.
    pub fn len(&self) -> (len: usize)
        ensures
            len == self@.len(),
    {
        self.events.len()
    }

    /// Stamps `data` with the wall clock's reading and appends it as an event.
    /// Returns the timestamp that the event got.
    pub fn add(&mut self, data: String) -> (timestamp: u64)
        requires
            old(self).wf(),
        ensures
            final(self).wf(),
            final(self).spec_capacity() == old(self).spec_capacity(),
            final(self)@ == appended(
                old(self)@,
                old(self).spec_capacity(),
                EventView { timestamp, data: data@ },
            ),
    {
        let event = Event::new(data);
        self.add_event(event)
    }

    /// Appends `event`. A full log first gives up its front event; then
    /// `event` enters behind the last event that is stamped no later than it.
    /// Returns the timestamp of `event`.
    pub fn add_event(&mut self, event: Event) -> (timestamp: u64)
        requires
            old(self).wf(),
        ensures
            final(self).wf(),
            final(self).spec_capacity() == old(self).spec_capacity(),
            final(self)@ == appended(old(self)@, old(self).spec_capacity(), event@),
            timestamp == event@.timestamp,
    {
        let timestamp = event.timestamp();
        let ghost before = self@;
        let ghost capacity = self.spec_capacity();
        if self.events.len() >= self.capacity {
            self.events.pop_front();
        }
        let ghost kept = self@;
        assert(kept =~= make_room(before, capacity));
        let len: usize = self.events.len();
        let mut slot: usize = len;
        assert(kept.take(len as int) =~= kept);
        while slot > 0 && self.events[slot - 1].timestamp() > timestamp
            invariant
                slot <= len,
                len == self.events.len(),
                self@ == kept,
                slot_for(kept, timestamp) == slot_for(kept.take(slot as int), timestamp),
            decreases slot,
        {
            assert(kept.take(slot as int).drop_last() =~= kept.take(slot - 1));
            slot -= 1;
        }
        if slot == len {
            self.events.push_back(event);
            assert(self@ =~= kept.insert(slot as int, event@));
        } else {
            self.events.insert(slot, event);
            assert(self@ =~= kept.insert(slot as int, event@));
        }
        proof {
            lemma_appended_wf(before, capacity, event@);
        }
        timestamp
    }

    /// The events stamped `cursor` or later, oldest first. The log itself
    /// does not change.
    pub fn get(&self, cursor: u64) -> (found: Vec<Event>)
        requires
            self.wf(),
        ensures
            found.deep_view() == since(self@, cursor),
            sorted(found.deep_view()),
    {
        let len: usize = self.events.len();
        let mut low: usize = 0;
        let mut high: usize = len;
        while low < high
            invariant
                low <= high <= len,
                len == self.events.len(),
                self.wf(),
                forall|i: int| 0 <= i < low ==> self@[i].timestamp < cursor,
                forall|i: int| high <= i < len ==> self@[i].timestamp >= cursor,
            decreases high - low,
        {
            let mid: usize = low + (high - low) / 2;
            assert(self@[mid as int] == self.events@[mid as int]@);
            if self.events[mid].timestamp() < cursor {
                low = mid + 1;
            } else {
                high = mid;
            }
        }
        let first: usize = low;
        let mut found: Vec<Event> = Vec::new();
        let mut next: usize = first;
        while next < len
            invariant
                first <= next <= len,
                len == self.events.len(),
                found@.len() == next - first,
                forall|k: int| 0 <= k < found@.len() ==> found@[k]@ == self@[first + k],
            decreases len - next,
        {
            found.push(self.events[next].clone());
            next += 1;
        }
        proof {
            assert(found.deep_view() =~= self@.subrange(first as int, len as int));
            lemma_since_is_suffix(self@, cursor, first as int);
            assert forall|i: int, j: int| 0 <= i <= j < found.deep_view().len() implies found.deep_view()[i].timestamp
                <= found.deep_view()[j].timestamp by {
                assert(found.deep_view()[i] == self@[first + i]);
                assert(found.deep_view()[j] == self@[first + j]);
            }
        }
        found
    }
}

} // verus!
