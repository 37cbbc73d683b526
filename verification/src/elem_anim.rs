//! A single bottleneck between two links, fed by a sender that paces its
//! packets by a cyclic list of gaps.
use crate::base::{filled, filled_style, Coord, Packet, DATA_PKT_WIDTH};
use crate::bottleneck::{Bottleneck, Buffer};
use crate::element::{Element, Node};
use crate::network::{Network, Topology};
use crate::simple_elems::Sink;
use crate::simulation::Simulation;
use crate::transport::{Line, Transport};
use vstd::prelude::*;

verus! {

/// What to animate.
pub struct ElemAnimConfig {
    /// Where the animation is written.
    pub filename: String,
    /// Capacity of the bottleneck's buffer.
    pub bufsize: u64,
    /// Service times of the bottleneck, used round and round.
    pub bottleneck_intersend: Vec<u64>,
    /// Gaps between the sender's packets, used round and round.
    pub sender_intersend: Vec<u64>,
    /// Number of ticks to animate.
    pub num_ticks: u64,
}

/// Handle of the sink at the right edge.
pub const SINK: usize = 0;

/// Handle of the link from the bottleneck to the sink.
pub const DEPARTURE: usize = 1;

/// Handle of the bottleneck.
pub const ELEM: usize = 2;

/// Handle of the link from the sender to the bottleneck.
pub const ARRIVAL: usize = 3;

/// Horizontal position of the sender, at the left edge of the chart.
pub const LEFT_EDGE: i64 = -500;

/// Horizontal position of the sink, at the right edge of the chart.
pub const RIGHT_EDGE: i64 = 500;

/// Ticks that a packet takes over either link.
pub const LINK_DELAY: u64 = 16;

/// The packet that the sender emits: a red data packet at the left edge.
pub open spec fn fresh_pkt() -> Packet {
    Packet { size: DATA_PKT_WIDTH, coord: Coord(LEFT_EDGE, 0), addr: 0, style: filled_style(255, 0, 0) }
}

/// The path before the first packet.
pub open spec fn elem_path(bufsize: u64, bottleneck_intersend: Seq<u64>) -> Topology {
    Topology {
        nodes: seq![
            Node::Sink(Sink { coord: Coord(RIGHT_EDGE, 0) }),
            Node::Transport { line: Line::idle(LINK_DELAY), next: SINK },
            Node::Bottleneck(Buffer::fresh(Coord(0, 0), bufsize, bottleneck_intersend, seq![DEPARTURE], true)),
            Node::Transport { line: Line::idle(LINK_DELAY), next: ELEM },
        ],
    }
}

/// The path after the sender acted: with a fresh packet in the first link
/// if the sender was due, unchanged otherwise.
pub open spec fn fed(net: Topology, due: bool) -> Topology {
    if due {
        net.enqueue(ARRIVAL as int, fresh_pkt())
    } else {
        net
    }
}

/// The order in which the elements tick: upstream first.
pub open spec fn elem_order() -> Seq<usize> {
    seq![ARRIVAL, ELEM, DEPARTURE]
}

/// The sender's state: where it is in its list of gaps, and how long it
/// has waited.
pub struct Pace {
    pub index: nat,
    pub waited: u64,
}

impl Pace {
    /// Whether the sender emits a packet now.
    pub open spec fn due(self, gaps: Seq<u64>) -> bool {
        self.waited >= gaps[self.index as int]
    }

    /// The sender one tick later.
    pub open spec fn next(self, gaps: Seq<u64>) -> Pace {
        if self.due(gaps) {
            Pace { index: (self.index + 1) % gaps.len(), waited: 1 }
        } else {
            Pace { index: self.index, waited: (self.waited + 1) as u64 }
        }
    }
}

/// The animated path with its sender.
pub struct ElemAnim {
    sim: Simulation,
    sender_intersend: Vec<u64>,
    intersend_index: usize,
    time_since_send: u64,
}

impl ElemAnim {
    /// The network's model.
    pub closed spec fn net(&self) -> Topology {
        self.sim.net()
    }

    /// The sender's gaps.
    pub closed spec fn gaps(&self) -> Seq<u64> {
        self.sender_intersend@
    }

    /// The sender's state.
    pub closed spec fn pace(&self) -> Pace {
        Pace { index: self.intersend_index as nat, waited: self.time_since_send }
    }

    /// The animation's invariant: a path ready to run in the order of
    /// [`elem_order`], and a sender within its list of gaps.
    pub closed spec fn wf(&self) -> bool {
        &&& self.sim.wf()
        &&& self.sim.order() == elem_order()
        &&& self.sim.fan() == 1
        &&& self.sim.net().nodes.len() == 4
        &&& self.sender_intersend.len() >= 1
        &&& self.intersend_index < self.sender_intersend.len()
    }

    /// The path of `config`, at rest. Neither list of times may be empty.
    pub fn new(config: &ElemAnimConfig) -> (anim: Self)
        requires
            config.bottleneck_intersend.len() >= 1,
            config.sender_intersend.len() >= 1,
        ensures
            anim.wf(),
            anim.net() == elem_path(config.bufsize, config.bottleneck_intersend@),
            anim.gaps() == config.sender_intersend@,
            anim.pace() == (Pace { index: 0, waited: 0 }),
    {
        let mut net = Network::new();
        let sink = net.add(Element::Sink(Sink { coord: Coord(RIGHT_EDGE, 0) }));
        let departure = net.add(Element::Transport(Transport::new(LINK_DELAY, sink)));
        let mut next: Vec<usize> = Vec::new();
        next.push(departure);
        let elem = net.add(
            Element::Bottleneck(Bottleneck::new(Coord(0, 0), config.bufsize, config.bottleneck_intersend.clone(), next, true)),
        );
        let arrival = net.add(Element::Transport(Transport::new(LINK_DELAY, elem)));
        let mut order: Vec<usize> = Vec::new();
        order.push(arrival);
        order.push(elem);
        order.push(departure);
        proof {
            assert(net@.nodes == elem_path(config.bufsize, config.bottleneck_intersend@).nodes);
            assert(order@ == elem_order());
        }
        let sim = Simulation::new(net, order, 1);
        ElemAnim {
            sim: sim.unwrap(),
            sender_intersend: config.sender_intersend.clone(),
            intersend_index: 0,
            time_since_send: 0,
        }
    }

    /// The path and the order in which it ticks.
    pub fn simulation(&self) -> (sim: &Simulation)
        ensures
            sim.net() == self.net(),
            self.wf() ==> sim.wf() && sim.order() == elem_order(),
    {
        &self.sim
    }

    /// Lets the sender act for one tick: it emits a packet into the first
    /// link if the current gap has passed.
    pub fn produce(&mut self)
        requires
            old(self).wf(),
        ensures
            final(self).wf(),
            final(self).gaps() == old(self).gaps(),
            final(self).pace() == old(self).pace().next(old(self).gaps()),
            final(self).net() == fed(old(self).net(), old(self).pace().due(old(self).gaps())),
    {
        if self.time_since_send >= self.sender_intersend[self.intersend_index] {
            let pkt = Packet { size: DATA_PKT_WIDTH, coord: Coord(LEFT_EDGE, 0), addr: 0, style: filled(255, 0, 0) };
            self.sim.enqueue(ARRIVAL, &pkt);
            let gaps = self.sender_intersend.len();
            self.intersend_index = (self.intersend_index + 1) % gaps;
            self.time_since_send = 0;
        }
        self.time_since_send += 1;
    }

    /// Ticks the element of the given stage of [`elem_order`].
    pub fn tick(&mut self, stage: usize)
        requires
            old(self).wf(),
            stage < 3,
        ensures
            final(self).wf(),
            final(self).gaps() == old(self).gaps(),
            final(self).pace() == old(self).pace(),
            final(self).net() == old(self).net().tick(elem_order()[stage as int] as int),
    {
        self.sim.tick(stage);
    }

    /// One tick of the whole animation: the sender acts, then every
    /// element ticks, upstream first.
    pub fn step(&mut self)
        requires
            old(self).wf(),
        ensures
            final(self).wf(),
            final(self).gaps() == old(self).gaps(),
            final(self).pace() == old(self).pace().next(old(self).gaps()),
            final(self).net() == fed(old(self).net(), old(self).pace().due(old(self).gaps())).tick_each(elem_order()),
    {
        self.produce();
        self.sim.tick_all();
    }
}

} // verus!
