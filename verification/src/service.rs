//! The queue discipline of a bottleneck over whole runs: what it accepts,
//! what it drops, and in which order and on which schedule packets leave.
use crate::base::Packet;
use crate::bottleneck::{grave_of, Buffer};
use crate::transport::{lemma_line_enqueue_wf, lemma_line_tick_wf, Flight};
use vstd::prelude::*;

verus! {

/// What can happen to a bottleneck.
pub enum Event {
    /// A packet arrives.
    Arrival(Packet),
    /// A tick passes.
    Tick,
}

/// What a run has done so far, each list in order of time.
pub struct Record {
    /// The packets that found room in the queue.
    pub accepted: Seq<Packet>,
    /// The packets that went to the drop path.
    pub dropped: Seq<Packet>,
    /// The packets that were sent off.
    pub departed: Seq<Packet>,
    /// For each packet sent off, the position in the schedule of the service
    /// time that it had to wait out.
    pub served: Seq<nat>,
}

impl Record {
    /// Nothing has happened.
    pub open spec fn blank() -> Record {
        Record { accepted: Seq::empty(), dropped: Seq::empty(), departed: Seq::empty(), served: Seq::empty() }
    }
}

impl Buffer {
    /// The bottleneck after one event.
    pub open spec fn step(self, event: Event) -> Buffer {
        match event {
            Event::Arrival(pkt) => self.enqueue(pkt),
            Event::Tick => self.tick(),
        }
    }

    /// The bottleneck after a run of events.
    pub open spec fn run(self, events: Seq<Event>) -> Buffer
        decreases events.len(),
    {
        if events.len() == 0 {
            self
        } else {
            self.run(events.drop_last()).step(events.last())
        }
    }

    /// What one event adds to the record, seen from the state before it.
    pub open spec fn note(self, event: Event, so_far: Record) -> Record {
        match event {
            Event::Arrival(pkt) => if self.has_room() {
                Record { accepted: so_far.accepted.push(pkt), ..so_far }
            } else {
                Record { dropped: so_far.dropped.push(pkt), ..so_far }
            },
            Event::Tick => if self.serves() {
                Record {
                    departed: so_far.departed.push(self.queue[0]),
                    served: so_far.served.push(self.slot),
                    ..so_far
                }
            } else {
                so_far
            },
        }
    }

    /// The record of a run of events.
    pub open spec fn record(self, events: Seq<Event>) -> Record
        decreases events.len(),
    {
        if events.len() == 0 {
            Record::blank()
        } else {
            self.run(events.drop_last()).note(events.last(), self.record(events.drop_last()))
        }
    }

    /// The bottleneck after a burst of arrivals with no tick between them.
    pub open spec fn burst(self, pkts: Seq<Packet>) -> Buffer
        decreases pkts.len(),
    {
        if pkts.len() == 0 {
            self
        } else {
            self.burst(pkts.drop_last()).enqueue(pkts.last())
        }
    }

    /// How many packets of a burst of `n` find room.
    pub open spec fn room_for(self, n: nat) -> nat {
        if self.queue.len() + n <= self.capacity {
            n
        } else {
            (self.capacity - self.queue.len()) as nat
        }
    }

    /// Whether `other` is the same bottleneck at another time: the parts
    /// that no event changes agree.
    pub open spec fn same_make(self, other: Buffer) -> bool {
        &&& self.coord == other.coord
        &&& self.dir == other.dir
        &&& self.capacity == other.capacity
        &&& self.schedule == other.schedule
        &&& self.next == other.next
        &&& self.drops.delay == other.drops.delay
    }
}

/// A fresh flight to the grave of a bottleneck.
pub open spec fn bury(b: Buffer) -> spec_fn(Packet) -> Flight {
    |pkt: Packet| Flight::launched(pkt, grave_of(b.coord))
}

/// How often `slot` occurs in `served`.
pub open spec fn uses(served: Seq<nat>, slot: nat) -> nat
    decreases served.len(),
{
    if served.len() == 0 {
        0
    } else {
        uses(served.drop_last(), slot) + if served.last() == slot {
            1nat
        } else {
            0nat
        }
    }
}

/// No event breaks a bottleneck: the queue stays within capacity, the slot
/// within the schedule, and the parts that make the bottleneck stay as they
/// are.
pub proof fn lemma_step_wf(b: Buffer, event: Event)
    requires
        b.wf(),
    ensures
        b.step(event).wf(),
        b.step(event).same_make(b),
{
    match event {
        Event::Arrival(pkt) => {
            lemma_line_enqueue_wf(b.drops, pkt, grave_of(b.coord));
        },
        Event::Tick => {
            lemma_line_tick_wf(b.drops);
            if b.serves() {
                assert((b.slot + 1) % b.schedule.len() < b.schedule.len()) by (nonlinear_arith)
                    requires
                        b.schedule.len() >= 1,
                ;
            }
        },
    }
}

/// In every state that a run reaches, at most `capacity` packets wait.
pub proof fn lemma_run_wf(b: Buffer, events: Seq<Event>)
    requires
        b.wf(),
    ensures
        b.run(events).wf(),
        b.run(events).same_make(b),
        b.run(events).queue.len() <= b.capacity,
    decreases events.len(),
{
    if events.len() > 0 {
        lemma_run_wf(b, events.drop_last());
        lemma_step_wf(b.run(events.drop_last()), events.last());
    }
}

/// An arrival that finds the queue full goes to the drop path, and the
/// waiting packets stay as they are.
pub proof fn lemma_full_queue_drops(b: Buffer, pkt: Packet)
    requires
        b.wf(),
        b.queue.len() == b.capacity,
    ensures
        b.enqueue(pkt).queue == b.queue,
        b.enqueue(pkt).drops.flights == b.drops.flights.push(Flight::launched(pkt, grave_of(b.coord))),
        b.note(Event::Arrival(pkt), Record::blank()).dropped == seq![pkt],
{
}

/// Of a burst of arrivals, as many as there is room for join the queue in
/// their order; all later ones go to the drop path in their order; the
/// packets that waited before stay in front, untouched.
pub proof fn lemma_burst(b: Buffer, pkts: Seq<Packet>)
    requires
        b.wf(),
    ensures
        b.burst(pkts).queue == b.queue + pkts.take(b.room_for(pkts.len()) as int),
        b.burst(pkts).drops.flights == b.drops.flights + pkts.skip(b.room_for(pkts.len()) as int).map_values(bury(b)),
        b.burst(pkts).same_make(b),
        b.burst(pkts).waited == b.waited,
        b.burst(pkts).slot == b.slot,
    decreases pkts.len(),
{
    let room = b.room_for(pkts.len()) as int;
    if pkts.len() > 0 {
        let before = pkts.drop_last();
        let fewer = b.room_for(before.len()) as int;
        lemma_burst(b, before);
        let mid = b.burst(before);
        if mid.has_room() {
            assert(fewer == before.len());
            assert(room == pkts.len());
            assert(pkts.take(room) == before.take(fewer).push(pkts.last()));
            assert(pkts.skip(room) == before.skip(fewer));
            assert(b.burst(pkts).queue == b.queue + pkts.take(room));
        } else {
            assert(room == fewer);
            assert(pkts.take(room) == before.take(fewer));
            assert(pkts.skip(room).map_values(bury(b)) == before.skip(fewer).map_values(bury(b)).push(
                Flight::launched(pkts.last(), grave_of(b.coord)),
            ));
            assert(b.burst(pkts).drops.flights == b.drops.flights + pkts.skip(room).map_values(bury(b)));
        }
    } else {
        assert(b.queue + pkts.take(room) == b.queue);
        assert(b.drops.flights + pkts.skip(room).map_values(bury(b)) == b.drops.flights);
    }
}

/// Packets leave in the order in which they were accepted: whatever the
/// run, the packets sent off followed by those still waiting are the packets
/// that waited at the start followed by those accepted since.
pub proof fn lemma_fifo(b: Buffer, events: Seq<Event>)
    requires
        b.wf(),
    ensures
        b.record(events).departed + b.run(events).queue == b.queue + b.record(events).accepted,
    decreases events.len(),
{
    if events.len() > 0 {
        let before = events.drop_last();
        lemma_fifo(b, before);
        lemma_run_wf(b, before);
        let mid = b.run(before);
        let rec = b.record(before);
        match events.last() {
            Event::Arrival(pkt) => {
                if mid.has_room() {
                    assert(rec.departed + mid.queue.push(pkt) == (rec.departed + mid.queue).push(pkt));
                    assert(b.queue + rec.accepted.push(pkt) == (b.queue + rec.accepted).push(pkt));
                }
            },
            Event::Tick => {
                if mid.serves() {
                    assert(rec.departed.push(mid.queue[0]) + mid.queue.drop_first() == rec.departed + mid.queue);
                }
            },
        }
    } else {
        assert(Record::blank().departed + b.queue == b.queue + Record::blank().accepted);
    }
}

/// The schedule is used round and round: the packet sent off as number `j`
/// of a run waited out the service time at position `slot + j` of the
/// schedule, counted cyclically from the slot at the start, and the run ends
/// on the slot that follows the last one used.
pub proof fn lemma_schedule_cycles(b: Buffer, events: Seq<Event>)
    requires
        b.wf(),
    ensures
        b.record(events).served.len() == b.record(events).departed.len(),
        forall|j: int|
            0 <= j < b.record(events).served.len() ==> #[trigger] b.record(events).served[j] == (b.slot + j) % (
            b.schedule.len() as int),
        b.run(events).slot == (b.slot + b.record(events).departed.len()) % b.schedule.len(),
    decreases events.len(),
{
    let n = b.schedule.len() as int;
    if events.len() > 0 {
        let before = events.drop_last();
        lemma_schedule_cycles(b, before);
        lemma_run_wf(b, before);
        let mid = b.run(before);
        let rec = b.record(before);
        let sent = rec.departed.len() as int;
        match events.last() {
            Event::Arrival(pkt) => {},
            Event::Tick => {
                if mid.serves() {
                    assert(((b.slot + sent) % n + 1) % n == (b.slot + sent + 1) % n) by {
                        vstd::arithmetic::div_mod::lemma_add_mod_noop(b.slot + sent, 1, n);
                        vstd::arithmetic::div_mod::lemma_mod_twice(b.slot + sent, n);
                        vstd::arithmetic::div_mod::lemma_add_mod_noop((b.slot + sent) % n, 1, n);
                    }
                }
            },
        }
    } else {
        vstd::arithmetic::div_mod::lemma_small_mod(b.slot, b.schedule.len());
    }
}

/// Counting over two sequences laid end to end adds up.
proof fn lemma_uses_add(a: Seq<nat>, b: Seq<nat>, slot: nat)
    ensures
        uses(a + b, slot) == uses(a, slot) + uses(b, slot),
    decreases b.len(),
{
    if b.len() > 0 {
        lemma_uses_add(a, b.drop_last(), slot);
        assert((a + b).drop_last() == a + b.drop_last());
    } else {
        assert(a + b == a);
    }
}

/// A run of consecutive numbers holds `slot` once if it lies in the run
/// and not at all otherwise.
proof fn lemma_uses_in_a_row(t: Seq<nat>, first: nat, slot: nat)
    requires
        forall|i: int| 0 <= i < t.len() ==> #[trigger] t[i] == first + i,
    ensures
        uses(t, slot) == (if first <= slot < first + t.len() {
            1nat
        } else {
            0nat
        }),
    decreases t.len(),
{
    if t.len() > 0 {
        lemma_uses_in_a_row(t.drop_last(), first, slot);
    }
}

/// One full round of the schedule uses every position once.
proof fn lemma_uses_in_a_round(t: Seq<nat>, start: nat, n: nat, slot: nat)
    requires
        n >= 1,
        slot < n,
        t.len() == n,
        forall|i: int| 0 <= i < n ==> #[trigger] t[i] == (start + i) % (n as int),
    ensures
        uses(t, slot) == 1,
{
    let q = start as int / n as int;
    let r = start as int % n as int;
    vstd::arithmetic::div_mod::lemma_fundamental_div_mod(start as int, n as int);
    vstd::arithmetic::div_mod::lemma_mod_bound(start as int, n as int);
    let cut = n - r;
    let up = t.take(cut);
    let wrapped = t.skip(cut);
    assert forall|i: int| 0 <= i < up.len() implies #[trigger] up[i] == r as nat + i by {
        assert(up[i] == t[i]);
        assert(start + i == q * n + (r + i)) by (nonlinear_arith)
            requires
                start == n * q + r,
        ;
        vstd::arithmetic::div_mod::lemma_fundamental_div_mod_converse_mod(start + i, n as int, q, r + i);
    }
    assert forall|i: int| 0 <= i < wrapped.len() implies #[trigger] wrapped[i] == 0nat + i by {
        assert(wrapped[i] == t[cut + i]);
        assert(start + (cut + i) == (q + 1) * n + i) by (nonlinear_arith)
            requires
                start == n * q + r,
                cut == n - r,
        ;
        vstd::arithmetic::div_mod::lemma_fundamental_div_mod_converse_mod(start + (cut + i), n as int, q + 1, i);
    }
    lemma_uses_in_a_row(up, r as nat, slot);
    lemma_uses_in_a_row(wrapped, 0, slot);
    lemma_uses_add(up, wrapped, slot);
    assert(up + wrapped == t);
}

/// `k` full rounds of the schedule use every position `k` times.
proof fn lemma_uses_in_rounds(s: Seq<nat>, start: nat, n: nat, k: nat, slot: nat)
    requires
        n >= 1,
        slot < n,
        s.len() == k * n,
        forall|j: int| 0 <= j < s.len() ==> #[trigger] s[j] == (start + j) % (n as int),
    ensures
        uses(s, slot) == k,
    decreases k,
{
    if k > 0 {
        let cut = (k - 1) * n;
        assert(cut + n == k * n) by (nonlinear_arith)
            requires
                cut == (k - 1) * n,
        ;
        assert(cut >= 0) by (nonlinear_arith)
            requires
                cut == (k - 1) * n,
                k >= 1,
                n >= 1,
        ;
        let early = s.take(cut);
        let last = s.skip(cut);
        assert forall|j: int| 0 <= j < early.len() implies #[trigger] early[j] == (start + j) % (n as int) by {
            assert(early[j] == s[j]);
        }
        lemma_uses_in_rounds(early, start, n, (k - 1) as nat, slot);
        assert forall|i: int| 0 <= i < n implies #[trigger] last[i] == ((start + cut) as nat + i) % (n as int) by {
            assert(last[i] == s[cut + i]);
        }
        lemma_uses_in_a_round(last, (start + cut) as nat, n, slot);
        lemma_uses_add(early, last, slot);
        assert(early + last == s);
    } else {
        assert(k * n == 0) by (nonlinear_arith)
            requires
                k == 0,
        ;
    }
}

/// Over a run that sends off `k` times as many packets as the schedule has
/// positions, every position of the schedule is used exactly `k` times.
pub proof fn lemma_even_use(b: Buffer, events: Seq<Event>, k: nat, slot: nat)
    requires
        b.wf(),
        b.record(events).departed.len() == k * b.schedule.len(),
        slot < b.schedule.len(),
    ensures
        uses(b.record(events).served, slot) == k,
{
    lemma_schedule_cycles(b, events);
    lemma_uses_in_rounds(b.record(events).served, b.slot, b.schedule.len(), k, slot);
}

/// With no room at all, every arrival is dropped and nothing ever leaves
/// the queue.
pub proof fn lemma_zero_capacity(b: Buffer, events: Seq<Event>)
    requires
        b.wf(),
        b.capacity == 0,
    ensures
        b.run(events).queue == Seq::<Packet>::empty(),
        b.record(events).accepted == Seq::<Packet>::empty(),
        b.record(events).departed == Seq::<Packet>::empty(),
        b.record(events).dropped == arrivals(events),
    decreases events.len(),
{
    lemma_run_wf(b, events);
    assert(b.run(events).queue == Seq::<Packet>::empty());
    if events.len() > 0 {
        lemma_zero_capacity(b, events.drop_last());
        lemma_run_wf(b, events.drop_last());
    }
}

/// The packets that arrive in a run, in order.
pub open spec fn arrivals(events: Seq<Event>) -> Seq<Packet>
    decreases events.len(),
{
    if events.len() == 0 {
        Seq::empty()
    } else {
        match events.last() {
            Event::Arrival(pkt) => arrivals(events.drop_last()).push(pkt),
            Event::Tick => arrivals(events.drop_last()),
        }
    }
}

} // verus!
