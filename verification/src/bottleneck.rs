//! Rate-limited, buffer-bounded links: a drop-tail queue served on a cyclic
//! schedule of service times.
use crate::base::{Coord, Packet, DATA_PKT_WIDTH};
use crate::simple_elems::Sink;
use crate::transport::{Line, Transport};
use std::collections::VecDeque;
use vstd::prelude::*;

verus! {

/// Ticks that a dropped packet stays visible on its way to the grave.
pub const DROP_DELAY: u64 = 16;

/// How far below the buffer the grave of dropped packets lies, in
/// hundredths of a chart unit.
pub const DROP_DEPTH: i64 = 500;

/// Where a buffer at `coord` accepts packets: one data packet's width
/// before it.
pub open spec fn intake_of(coord: Coord) -> Coord {
    Coord((coord.0 - DATA_PKT_WIDTH) as i64, coord.1)
}

/// Where a buffer at `coord` buries what it drops.
pub open spec fn grave_of(coord: Coord) -> Coord {
    Coord((coord.0 - DATA_PKT_WIDTH) as i64, (coord.1 - DROP_DEPTH) as i64)
}

/// Whether intake and grave of a buffer at `coord` lie on the grid.
pub open spec fn fits_grid(coord: Coord) -> bool {
    &&& coord.0 - DATA_PKT_WIDTH >= i64::MIN
    &&& coord.1 - DROP_DEPTH >= i64::MIN
}

/// The mathematical model of a bottleneck.
pub struct Buffer {
    /// Left-centre of the drawn buffer.
    pub coord: Coord,
    /// Whether packets move from left to right.
    pub dir: bool,
    /// Most packets that may wait at once.
    pub capacity: u64,
    /// Service times, used one per departure, round and round.
    pub schedule: Seq<u64>,
    /// Position in the schedule of the service time that governs the next
    /// departure.
    pub slot: nat,
    /// Ticks since the last departure. Counting stops at `u64::MAX`, from
    /// where on every service time is reached anyway.
    pub waited: u64,
    /// The waiting packets, head first.
    pub queue: Seq<Packet>,
    /// The dropped packets, on their way to the grave.
    pub drops: Line,
    /// Handles of the downstream elements, indexed by packet address.
    pub next: Seq<usize>,
}

impl Buffer {
    /// A bottleneck that has seen no packet and no tick.
    pub open spec fn fresh(coord: Coord, capacity: u64, schedule: Seq<u64>, next: Seq<usize>, dir: bool) -> Buffer {
        Buffer {
            coord,
            dir,
            capacity,
            schedule,
            slot: 0,
            waited: 0,
            queue: Seq::empty(),
            drops: Line::idle(DROP_DELAY),
            next,
        }
    }

    /// The schedule is not empty and the slot lies in it; the queue is
    /// within capacity; the drop path is a valid link; the buffer's intake
    /// and grave lie on the grid.
    pub open spec fn wf(self) -> bool {
        &&& self.schedule.len() >= 1
        &&& self.slot < self.schedule.len()
        &&& self.queue.len() <= self.capacity
        &&& self.drops.wf()
        &&& fits_grid(self.coord)
    }

    /// Whether an arriving packet finds room.
    pub open spec fn has_room(self) -> bool {
        self.queue.len() < self.capacity
    }

    /// The bottleneck after `pkt` arrived: at the tail of the queue if there
    /// is room, else on the drop path. Waiting packets are never touched.
    pub open spec fn enqueue(self, pkt: Packet) -> Buffer {
        if self.has_room() {
            Buffer { queue: self.queue.push(pkt), ..self }
        } else {
            Buffer { drops: self.drops.enqueue(pkt, grave_of(self.coord)), ..self }
        }
    }

    /// The count of ticks since the last departure, as the next tick sees it.
    pub open spec fn waited_next(self) -> u64 {
        if self.waited < u64::MAX {
            (self.waited + 1) as u64
        } else {
            self.waited
        }
    }

    /// The service time that governs the next departure.
    pub open spec fn service_time(self) -> u64 {
        self.schedule[self.slot as int]
    }

    /// Whether the next tick sends the head of the queue off: the service
    /// time has been waited out and a packet is there.
    pub open spec fn serves(self) -> bool {
        self.waited_next() >= self.service_time() && self.queue.len() > 0
    }

    /// The packet that the next tick sends off, if any.
    pub open spec fn departure(self) -> Option<Packet> {
        if self.serves() {
            Some(self.queue[0])
        } else {
            None
        }
    }

    /// The bottleneck after the next tick. The drop path always advances.
    /// On a departure the head leaves, the count restarts and the schedule
    /// moves on by one slot, wrapping at its end; otherwise the count goes on,
    /// also past the service time while the queue is empty.
    pub open spec fn tick(self) -> Buffer {
        if self.serves() {
            Buffer {
                queue: self.queue.drop_first(),
                waited: 0,
                slot: (self.slot + 1) % self.schedule.len(),
                drops: self.drops.tick(),
                ..self
            }
        } else {
            Buffer { waited: self.waited_next(), drops: self.drops.tick(), ..self }
        }
    }

    /// Whether the packet that the next tick sends off, if any, names a
    /// downstream element.
    pub open spec fn routable(self) -> bool {
        self.serves() ==> self.queue[0].addr < self.next.len()
    }
}

/// A bounded first-in-first-out queue that lets one packet go whenever the
/// current service time has been waited out. Arrivals that find it full go
/// to a drop path of its own, from which they vanish [`DROP_DELAY`] ticks
/// later.
pub struct Bottleneck {
    /// Left-centre of the drawn buffer.
    coord: Coord,
    /// Most packets that may wait at once.
    bufsize: u64,
    /// Ticks between successive departures, used round and round.
    intersend_time: Vec<u64>,
    /// Index into `intersend_time`.
    intersend_time_index: usize,
    /// The waiting packets.
    pkts: VecDeque<Packet>,
    /// Ticks since the last departure.
    time_since_last_deque: u64,
    /// Carries dropped packets to their grave.
    dropper: Transport<Sink>,
    /// The downstream elements; a packet goes to the one at its address.
    next: Vec<usize>,
    /// Whether packets move from left to right.
    dir: bool,
}

impl View for Bottleneck {
    type V = Buffer;

    closed spec fn view(&self) -> Buffer {
        Buffer {
            coord: self.coord,
            dir: self.dir,
            capacity: self.bufsize,
            schedule: self.intersend_time@,
            slot: self.intersend_time_index as nat,
            waited: self.time_since_last_deque,
            queue: self.pkts@,
            drops: self.dropper@,
            next: self.next@,
        }
    }
}

impl Bottleneck {
    /// The bottleneck's invariant: that of its model, and a grave where the
    /// model says.
    pub closed spec fn wf(&self) -> bool {
        &&& self@.wf()
        &&& self.dropper.next_hop().coord == grave_of(self.coord)
    }

    /// What [`Bottleneck::wf`] says of the model.
    pub proof fn lemma_wf(&self)
        requires
            self.wf(),
        ensures
            self@.wf(),
    {
    }

    /// A bottleneck with an empty queue. `next` may be left empty and set
    /// later with [`Bottleneck::set_next`], before the first tick. An empty
    /// schedule is no schedule.
    pub fn new(coord: Coord, bufsize: u64, intersend_time: Vec<u64>, next: Vec<usize>, dir: bool) -> (b: Self)
        requires
            intersend_time.len() >= 1,
            fits_grid(coord),
        ensures
            b.wf(),
            b@ == Buffer::fresh(coord, bufsize, intersend_time@, next@, dir),
    {
        let grave = Sink { coord: coord.sub(Coord(DATA_PKT_WIDTH as i64, DROP_DEPTH)) };
        let dropper = Transport::new(DROP_DELAY, grave);
        Bottleneck {
            coord,
            bufsize,
            intersend_time,
            intersend_time_index: 0,
            pkts: VecDeque::new(),
            time_since_last_deque: 0,
            dropper,
            next,
            dir,
        }
    }

    /// Replaces the downstream elements.
    pub fn set_next(&mut self, next: Vec<usize>)
        requires
            old(self).wf(),
        ensures
            final(self).wf(),
            final(self)@ == (Buffer { next: next@, ..old(self)@ }),
    {
        self.next = next;
    }

    /// Where packets headed for the bottleneck arrive.
    pub fn get_enqueue_coord(&self) -> (at: Coord)
        requires
            self.wf(),
        ensures
            at == intake_of(self@.coord),
    {
        self.coord.sub(Coord(DATA_PKT_WIDTH as i64, 0))
    }

    /// Takes a packet: into the queue if it has room, else onto the drop path.
    pub fn enqueue(&mut self, pkt: &Packet)
        requires
            old(self).wf(),
        ensures
            final(self).wf(),
            final(self)@ == old(self)@.enqueue(*pkt),
    {
        if (self.pkts.len() as u64) < self.bufsize {
            self.pkts.push_back(*pkt);
        } else {
            let grave = self.dropper.next().get_enqueue_coord();
            self.dropper.enqueue(pkt, grave);
        }
    }

    /// The waiting packets, head first.
    pub fn get_pkts(&self) -> (held: Vec<Packet>)
        ensures
            held@ == self@.queue,
    {
        let mut held: Vec<Packet> = Vec::new();
        let mut i: usize = 0;
        while i < self.pkts.len()
            invariant
                i <= self.pkts.len(),
                held@ == self.pkts@.take(i as int),
            decreases self.pkts.len() - i,
        {
            held.push(self.pkts[i]);
            i += 1;
        }
        held
    }

    /// Advances the bottleneck by one tick and returns the packet that
    /// departed, if one did. It belongs to the downstream element at its
    /// address.
    pub fn tick(&mut self) -> (out: Option<Packet>)
        requires
            old(self).wf(),
        ensures
            final(self).wf(),
            final(self)@ == old(self)@.tick(),
            out == old(self)@.departure(),
    {
        if self.time_since_last_deque < u64::MAX {
            self.time_since_last_deque += 1;
        }
        let mut out: Option<Packet> = None;
        if self.time_since_last_deque >= self.intersend_time[self.intersend_time_index] && self.pkts.len() > 0 {
            self.time_since_last_deque = 0;
            out = self.pkts.pop_front();
            let slots = self.intersend_time.len();
            self.intersend_time_index = (self.intersend_time_index + 1) % slots;
        }
        let buried = self.dropper.tick();
        let mut i: usize = 0;
        while i < buried.len()
            invariant
                i <= buried.len(),
                self.wf(),
                self@ == old(self)@.tick(),
            decreases buried.len() - i,
        {
            self.dropper.next_mut().enqueue(&buried[i]);
            i += 1;
        }
        out
    }

    /// The downstream element for a packet of the given address.
    pub fn route(&self, addr: u16) -> (hop: usize)
        requires
            addr < self@.next.len(),
        ensures
            hop == self@.next[addr as int],
    {
        self.next[addr as usize]
    }

    /// Whether the packet that the next tick sends off, if any, names a
    /// downstream element.
    pub fn routable(&self) -> (ok: bool)
        requires
            self.wf(),
        ensures
            ok == self@.routable(),
    {
        let waited = if self.time_since_last_deque < u64::MAX {
            self.time_since_last_deque + 1
        } else {
            self.time_since_last_deque
        };
        if waited >= self.intersend_time[self.intersend_time_index] && self.pkts.len() > 0 {
            (self.pkts[0].addr as usize) < self.next.len()
        } else {
            true
        }
    }

    /// Left-centre of the drawn buffer.
    pub fn coord(&self) -> (coord: Coord)
        ensures
            coord == self@.coord,
    {
        self.coord
    }

    /// Most packets that may wait at once.
    pub fn bufsize(&self) -> (capacity: u64)
        ensures
            capacity == self@.capacity,
    {
        self.bufsize
    }

    /// Whether packets move from left to right.
    pub fn dir(&self) -> (dir: bool)
        ensures
            dir == self@.dir,
    {
        self.dir
    }

    /// The handles of the downstream elements.
    pub fn next(&self) -> (next: &Vec<usize>)
        ensures
            next@ == self@.next,
    {
        &self.next
    }

    /// The link that carries dropped packets to their grave.
    pub fn dropper(&self) -> (dropper: &Transport<Sink>)
        ensures
            dropper@ == self@.drops,
    {
        &self.dropper
    }
}

} // verus!
