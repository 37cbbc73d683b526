//! When a link hands a packet on: runs of a link over many ticks, and the
//! proof that every packet leaves exactly `delay` ticks after it came in.
use crate::base::{Coord, Packet};
use crate::transport::{advance, is_due, is_under_way, land, Flight, Line};
use vstd::prelude::*;

verus! {

/// A packet entering a link, with the place where the downstream element
/// accepts packets at that moment.
pub struct Arrival {
    pub pkt: Packet,
    pub target: Coord,
}

impl Arrival {
    /// The flight of this arrival once it has been under way for `elapsed` ticks.
    pub open spec fn aged(self, elapsed: u64) -> Flight {
        Flight { pkt: self.pkt, elapsed, target: self.target }
    }

    /// The packet as the link will hand it downstream.
    pub open spec fn arrived(self) -> Packet {
        Packet { coord: self.target, ..self.pkt }
    }
}

/// The flights of a batch of arrivals, all under way for `elapsed` ticks.
pub open spec fn age(elapsed: u64) -> spec_fn(Arrival) -> Flight {
    |a: Arrival| a.aged(elapsed)
}

/// Handed downstream.
pub open spec fn arrive() -> spec_fn(Arrival) -> Packet {
    |a: Arrival| a.arrived()
}

impl Line {
    /// The link after the arrivals of one round entered, first to last, each by
    /// [`Line::enqueue`].
    pub open spec fn enter(self, batch: Seq<Arrival>) -> Line
        decreases batch.len(),
    {
        if batch.len() == 0 {
            self
        } else {
            self.enter(batch.drop_last()).enqueue(batch.last().pkt, batch.last().target)
        }
    }

    /// The link after a run of rounds. In each round a batch of arrivals
    /// enters, then the link ticks once.
    pub open spec fn after(self, rounds: Seq<Seq<Arrival>>) -> Line
        decreases rounds.len(),
    {
        if rounds.len() == 0 {
            self
        } else {
            self.after(rounds.drop_last()).enter(rounds.last()).tick()
        }
    }

    /// What the tick of the last round of a run hands downstream.
    pub open spec fn released(self, rounds: Seq<Seq<Arrival>>) -> Seq<Packet>
        recommends
            rounds.len() >= 1,
    {
        self.after(rounds.drop_last()).enter(rounds.last()).delivered()
    }
}

/// The flights of the batches of `rounds` from position `lo` on, in order,
/// where the last batch has been under way for `youngest` ticks and each
/// earlier batch for one tick more than the batch after it.
pub open spec fn under_way(rounds: Seq<Seq<Arrival>>, lo: int, youngest: int) -> Seq<Flight>
    decreases rounds.len() - lo,
{
    if 0 <= lo < rounds.len() {
        rounds[lo].map_values(age((youngest + rounds.len() - 1 - lo) as u64)) + under_way(rounds, lo + 1, youngest)
    } else {
        Seq::empty()
    }
}

/// Filtering keeps a sequence whose elements all pass.
proof fn lemma_filter_keeps_all<A>(s: Seq<A>, pred: spec_fn(A) -> bool)
    requires
        forall|i: int| 0 <= i < s.len() ==> pred(#[trigger] s[i]),
    ensures
        s.filter(pred) == s,
    decreases s.len(),
{
    reveal(Seq::filter);
    if s.len() > 0 {
        lemma_filter_keeps_all(s.drop_last(), pred);
        assert(s.drop_last().push(s.last()) == s);
    }
}

/// Filtering empties a sequence none of whose elements passes.
proof fn lemma_filter_keeps_none<A>(s: Seq<A>, pred: spec_fn(A) -> bool)
    requires
        forall|i: int| 0 <= i < s.len() ==> !pred(#[trigger] s[i]),
    ensures
        s.filter(pred) == Seq::<A>::empty(),
    decreases s.len(),
{
    reveal(Seq::filter);
    if s.len() > 0 {
        lemma_filter_keeps_none(s.drop_last(), pred);
    }
}

/// The arrivals of one round join the flights at the end, as fresh flights.
pub proof fn lemma_enter(line: Line, batch: Seq<Arrival>)
    ensures
        line.enter(batch) == (Line { flights: line.flights + batch.map_values(age(0)), ..line }),
    decreases batch.len(),
{
    if batch.len() > 0 {
        lemma_enter(line, batch.drop_last());
        assert(line.enter(batch).flights == line.flights + batch.map_values(age(0)));
    } else {
        assert(line.flights == line.flights + batch.map_values(age(0)));
    }
}

/// A new round of arrivals makes every batch before it one place older in
/// the order of batches, and joins as the youngest.
proof fn lemma_under_way_push(rounds: Seq<Seq<Arrival>>, batch: Seq<Arrival>, lo: int)
    requires
        0 <= lo <= rounds.len(),
    ensures
        under_way(rounds.push(batch), lo, 0) == under_way(rounds, lo, 1) + batch.map_values(age(0)),
    decreases rounds.len() - lo,
{
    let more = rounds.push(batch);
    if lo < rounds.len() {
        lemma_under_way_push(rounds, batch, lo + 1);
        assert(more[lo] == rounds[lo]);
        assert(under_way(more, lo, 0) == under_way(rounds, lo, 1) + batch.map_values(age(0)));
    } else {
        assert(more[lo] == batch);
        assert(under_way(more, lo + 1, 0) == Seq::<Flight>::empty());
        assert(under_way(rounds, lo, 1) == Seq::<Flight>::empty());
        assert(under_way(more, lo, 0) == under_way(rounds, lo, 1) + batch.map_values(age(0)));
    }
}

/// One tick of a link whose flights are the batches from `lo` on, none
/// older than the delay allows: the batch that is `delay - 1` ticks old, if
/// it is there, is handed downstream whole; all others stay and age.
proof fn lemma_tick_under_way(delay: u64, rounds: Seq<Seq<Arrival>>, lo: int)
    requires
        delay >= 1,
        0 <= lo <= rounds.len(),
        rounds.len() - delay <= lo,
    ensures
        lo == rounds.len() - delay ==> under_way(rounds, lo, 0).filter(is_under_way(delay)).map_values(advance())
            == under_way(rounds, lo + 1, 1),
        lo == rounds.len() - delay ==> under_way(rounds, lo, 0).filter(is_due(delay)).map_values(land())
            == rounds[lo].map_values(arrive()),
        lo != rounds.len() - delay ==> under_way(rounds, lo, 0).filter(is_under_way(delay)).map_values(advance())
            == under_way(rounds, lo, 1),
        lo != rounds.len() - delay ==> under_way(rounds, lo, 0).filter(is_due(delay)).map_values(land())
            == Seq::<Packet>::empty(),
    decreases rounds.len() - lo,
{
    reveal(Seq::filter);
    if lo < rounds.len() {
        let elapsed = (rounds.len() - 1 - lo) as u64;
        let head = rounds[lo].map_values(age(elapsed));
        let tail = under_way(rounds, lo + 1, 0);
        lemma_tick_under_way(delay, rounds, lo + 1);
        Seq::filter_distributes_over_add(head, tail, is_under_way(delay));
        Seq::filter_distributes_over_add(head, tail, is_due(delay));
        if lo == rounds.len() - delay {
            lemma_filter_keeps_none(head, is_under_way(delay));
            lemma_filter_keeps_all(head, is_due(delay));
            assert(head.map_values(land()) == rounds[lo].map_values(arrive()));
            let late = tail.filter(is_due(delay));
            assert(late.map_values(land()).len() == 0);
            assert(head + late == head);
            assert((head + tail).filter(is_due(delay)).map_values(land()) == rounds[lo].map_values(arrive()));
            assert((head + tail).filter(is_under_way(delay)).map_values(advance()) == under_way(rounds, lo + 1, 1));
        } else {
            lemma_filter_keeps_all(head, is_under_way(delay));
            lemma_filter_keeps_none(head, is_due(delay));
            assert(head.map_values(advance()) == rounds[lo].map_values(age((1 + rounds.len() - 1 - lo) as u64)));
            assert((head + tail).filter(is_under_way(delay)).map_values(advance()) == head.map_values(advance())
                + tail.filter(is_under_way(delay)).map_values(advance()));
            let late = tail.filter(is_due(delay));
            assert((head + tail).filter(is_due(delay)) == late);
            assert((head + tail).filter(is_due(delay)).map_values(land()) == late.map_values(land()));
        }
    }
}

/// The first batch that can still be under way after `n` rounds of a link
/// with the given delay.
pub open spec fn oldest_under_way(delay: u64, n: int) -> int {
    if n - delay + 1 >= 0 {
        n - delay + 1
    } else {
        0
    }
}

/// After any run from an empty link, the flights under way are exactly the
/// arrivals of the last `delay - 1` rounds, each as old as the number of ticks
/// since it entered.
pub proof fn lemma_flights_after(delay: u64, rounds: Seq<Seq<Arrival>>)
    requires
        delay >= 1,
    ensures
        Line::idle(delay).after(rounds).flights == under_way(rounds, oldest_under_way(delay, rounds.len() as int), 1),
        Line::idle(delay).after(rounds).delay == delay,
    decreases rounds.len(),
{
    let n = rounds.len() as int;
    if n > 0 {
        let before = rounds.drop_last();
        let lo = oldest_under_way(delay, n - 1);
        lemma_flights_after(delay, before);
        let rested = Line::idle(delay).after(before);
        lemma_enter(rested, rounds.last());
        lemma_under_way_push(before, rounds.last(), lo);
        assert(before.push(rounds.last()) == rounds);
        assert(rested.enter(rounds.last()).flights == under_way(rounds, lo, 0));
        lemma_tick_under_way(delay, rounds, lo);
    } else {
        assert(Line::idle(delay).after(rounds).flights == Seq::<Flight>::empty());
    }
}

/// A link of delay `d` that starts empty hands each packet downstream
/// exactly once, `d` ticks after it entered, and never earlier: the tick
/// that ends round `n` releases the arrivals of round `n - d`, all of them
/// and nothing else, and releases nothing while fewer than `d` rounds have
/// run.
pub proof fn lemma_delivery_time(delay: u64, rounds: Seq<Seq<Arrival>>)
    requires
        delay >= 1,
        rounds.len() >= 1,
    ensures
        rounds.len() >= delay ==> Line::idle(delay).released(rounds) == rounds[rounds.len() - delay].map_values(
            arrive(),
        ),
        rounds.len() < delay ==> Line::idle(delay).released(rounds) == Seq::<Packet>::empty(),
{
    let n = rounds.len() as int;
    let before = rounds.drop_last();
    let lo = oldest_under_way(delay, n - 1);
    lemma_flights_after(delay, before);
    let rested = Line::idle(delay).after(before);
    lemma_enter(rested, rounds.last());
    lemma_under_way_push(before, rounds.last(), lo);
    assert(before.push(rounds.last()) == rounds);
    assert(rested.enter(rounds.last()).flights == under_way(rounds, lo, 0));
    lemma_tick_under_way(delay, rounds, lo);
}

} // verus!
