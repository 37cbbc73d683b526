//! Propagation links: every packet leaves a fixed number of ticks after it
//! came in.
use crate::base::{Coord, Packet};
use vstd::prelude::*;

verus! {

/// A packet on its way through a link.
#[derive(Clone, Copy)]
pub struct Flight {
    /// The packet, still placed where it entered the link.
    pub pkt: Packet,
    /// Ticks since the packet entered.
    pub elapsed: u64,
    /// Where the downstream element accepted packets when this one entered.
    pub target: Coord,
}

impl Flight {
    /// A packet that has just entered a link.
    pub open spec fn launched(pkt: Packet, target: Coord) -> Flight {
        Flight { pkt, elapsed: 0, target }
    }

    /// The same flight one tick later.
    pub open spec fn advanced(self) -> Flight {
        Flight { elapsed: (self.elapsed + 1) as u64, ..self }
    }

    /// The packet as it is handed downstream: placed at the target.
    pub open spec fn landed(self) -> Packet {
        Packet { coord: self.target, ..self.pkt }
    }

    /// Whether the next tick of a link with the given delay completes the flight.
    pub open spec fn due(self, delay: u64) -> bool {
        self.elapsed + 1 >= delay
    }
}

/// The flights that the next tick of a link with this delay completes.
pub open spec fn is_due(delay: u64) -> spec_fn(Flight) -> bool {
    |f: Flight| f.due(delay)
}

/// The flights that the next tick of a link with this delay leaves under way.
pub open spec fn is_under_way(delay: u64) -> spec_fn(Flight) -> bool {
    |f: Flight| !f.due(delay)
}

/// One tick later.
pub open spec fn advance() -> spec_fn(Flight) -> Flight {
    |f: Flight| f.advanced()
}

/// Handed downstream.
pub open spec fn land() -> spec_fn(Flight) -> Packet {
    |f: Flight| f.landed()
}

/// The packet of a flight.
pub open spec fn carried() -> spec_fn(Flight) -> Packet {
    |f: Flight| f.pkt
}

/// The mathematical model of a link: its delay and the flights under way,
/// oldest arrival first.
pub struct Line {
    pub delay: u64,
    pub flights: Seq<Flight>,
}

impl Line {
    /// A link with nothing under way.
    pub open spec fn idle(delay: u64) -> Line {
        Line { delay, flights: Seq::empty() }
    }

    /// The delay is at least one tick and no flight has reached it.
    pub open spec fn wf(self) -> bool {
        &&& self.delay >= 1
        &&& forall|i: int| 0 <= i < self.flights.len() ==> (#[trigger] self.flights[i]).elapsed < self.delay
    }

    /// The link after `pkt` entered, bound for `target`.
    pub open spec fn enqueue(self, pkt: Packet, target: Coord) -> Line {
        Line { flights: self.flights.push(Flight::launched(pkt, target)), ..self }
    }

    /// The packets that the next tick hands downstream, in the order in
    /// which they entered.
    pub open spec fn delivered(self) -> Seq<Packet> {
        self.flights.filter(is_due(self.delay)).map_values(land())
    }

    /// The link after the next tick: completed flights are gone, the
    /// others are one tick older.
    pub open spec fn tick(self) -> Line {
        Line { flights: self.flights.filter(is_under_way(self.delay)).map_values(advance()), ..self }
    }

    /// The packets under way.
    pub open spec fn pkts(self) -> Seq<Packet> {
        self.flights.map_values(carried())
    }
}

/// A link that takes a packet in stays valid.
pub proof fn lemma_line_enqueue_wf(line: Line, pkt: Packet, target: Coord)
    requires
        line.wf(),
    ensures
        line.enqueue(pkt, target).wf(),
{
    let grown = line.enqueue(pkt, target);
    assert forall|i: int| 0 <= i < grown.flights.len() implies (#[trigger] grown.flights[i]).elapsed < grown.delay by {
        if i < line.flights.len() {
            assert(grown.flights[i] == line.flights[i]);
        }
    }
}

/// A link that ticks stays valid.
pub proof fn lemma_line_tick_wf(line: Line)
    requires
        line.wf(),
    ensures
        line.tick().wf(),
{
    let kept = line.flights.filter(is_under_way(line.delay));
    assert forall|i: int| 0 <= i < line.tick().flights.len() implies (#[trigger] line.tick().flights[i]).elapsed
        < line.delay by {
        line.flights.lemma_filter_pred(is_under_way(line.delay), i);
        line.flights.lemma_filter_contains_rev(is_under_way(line.delay), kept[i]);
    }
}

/// Extending a sequence by one element extends its filtered image by that
/// element if it passes and leaves it alone otherwise.
proof fn lemma_filter_step<A>(s: Seq<A>, i: int, pred: spec_fn(A) -> bool)
    requires
        0 <= i < s.len(),
    ensures
        s.take(i + 1).filter(pred) == (if pred(s[i]) {
            s.take(i).filter(pred).push(s[i])
        } else {
            s.take(i).filter(pred)
        }),
{
    reveal(Seq::filter);
    assert(s.take(i + 1).drop_last() == s.take(i));
    assert(s.take(i + 1).last() == s[i]);
}

/// A link that carries packets to `next` in `delay` ticks.
///
/// `next` names the downstream element; the link only stores it. Whoever
/// drives the link passes on what [`Transport::tick`] returns.
pub struct Transport<N> {
    /// Ticks that a packet takes to cross.
    delay: u64,
    /// The flights under way.
    pkts: Vec<Flight>,
    /// The downstream element.
    next: N,
}

impl<N> View for Transport<N> {
    type V = Line;

    closed spec fn view(&self) -> Line {
        Line { delay: self.delay, flights: self.pkts@ }
    }
}

impl<N> Transport<N> {
    /// The downstream element.
    pub closed spec fn next_hop(&self) -> N {
        self.next
    }

    /// The link's invariant, that of its model.
    pub open spec fn wf(&self) -> bool {
        self@.wf()
    }

    /// An empty link of the given delay. A delay of zero ticks is no link.
    pub fn new(delay: u64, next: N) -> (link: Self)
        requires
            delay >= 1,
        ensures
            link.wf(),
            link@ == Line::idle(delay),
            link.next_hop() == next,
    {
        Transport { delay, pkts: Vec::new(), next }
    }

    /// Ticks that a packet takes to cross.
    pub fn delay(&self) -> (delay: u64)
        ensures
            delay == self@.delay,
    {
        self.delay
    }

    /// The downstream element.
    pub fn next(&self) -> (next: &N)
        ensures
            *next == self.next_hop(),
    {
        &self.next
    }

    /// The downstream element, to hand it what [`Transport::tick`] returned.
    pub fn next_mut(&mut self) -> (next: &mut N)
        ensures
            *next == old(self).next_hop(),
            final(self).next_hop() == *final(next),
            final(self)@ == old(self)@,
    {
        &mut self.next
    }

    /// Takes a packet in, whatever the load: links do not drop. `target`
    /// is where the downstream element accepts packets right now.
    pub fn enqueue(&mut self, pkt: &Packet, target: Coord)
        requires
            old(self).wf(),
        ensures
            final(self).wf(),
            final(self)@ == old(self)@.enqueue(*pkt, target),
            final(self).next_hop() == old(self).next_hop(),
    {
        proof {
            lemma_line_enqueue_wf(self@, *pkt, target);
        }
        self.pkts.push(Flight { pkt: *pkt, elapsed: 0, target });
    }

    /// The packets under way, oldest arrival first.
    pub fn get_pkts(&self) -> (held: Vec<Packet>)
        ensures
            held@ == self@.pkts(),
    {
        let mut held: Vec<Packet> = Vec::new();
        let mut i: usize = 0;
        while i < self.pkts.len()
            invariant
                i <= self.pkts.len(),
                held@ == self.pkts@.take(i as int).map_values(carried()),
            decreases self.pkts.len() - i,
        {
            held.push(self.pkts[i].pkt);
            proof {
                assert(self.pkts@.take(i + 1) == self.pkts@.take(i as int).push(self.pkts@[i as int]));
            }
            i += 1;
        }
        proof {
            assert(self.pkts@.take(i as int) == self.pkts@);
        }
        held
    }

    /// The flights under way, oldest arrival first.
    pub fn flights(&self) -> (held: &Vec<Flight>)
        ensures
            held@ == self@.flights,
    {
        &self.pkts
    }

    /// Advances the link by one tick and returns the packets that completed
    /// the crossing, which now belong to the downstream element.
    pub fn tick(&mut self) -> (out: Vec<Packet>)
        requires
            old(self).wf(),
        ensures
            final(self).wf(),
            final(self)@ == old(self)@.tick(),
            out@ == old(self)@.delivered(),
            final(self).next_hop() == old(self).next_hop(),
    {
        let mut kept: Vec<Flight> = Vec::new();
        let mut out: Vec<Packet> = Vec::new();
        let mut i: usize = 0;
        while i < self.pkts.len()
            invariant
                i <= self.pkts.len(),
                self.wf(),
                *self == *old(self),
                kept@ == self.pkts@.take(i as int).filter(is_under_way(self.delay)).map_values(advance()),
                out@ == self.pkts@.take(i as int).filter(is_due(self.delay)).map_values(land()),
                forall|j: int| 0 <= j < kept.len() ==> (#[trigger] kept@[j]).elapsed < self.delay,
            decreases self.pkts.len() - i,
        {
            let f = self.pkts[i];
            proof {
                assert(self@.flights[i as int].elapsed < self.delay);
                lemma_filter_step(self.pkts@, i as int, is_under_way(self.delay));
                lemma_filter_step(self.pkts@, i as int, is_due(self.delay));
            }
            if f.elapsed + 1 >= self.delay {
                let mut pkt = f.pkt;
                pkt.coord = f.target;
                out.push(pkt);
            } else {
                kept.push(Flight { pkt: f.pkt, elapsed: f.elapsed + 1, target: f.target });
            }
            i += 1;
        }
        proof {
            assert(self.pkts@.take(i as int) == self.pkts@);
        }
        self.pkts = kept;
        out
    }
}

} // verus!
