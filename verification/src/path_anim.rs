//! A whole path: from the sender through a bottleneck to a receiver that
//! acknowledges, and back through a second bottleneck.
use crate::base::{filled, filled_style, Coord, Packet, DATA_PKT_WIDTH, PKT_HEIGHT};
use crate::bottleneck::{Bottleneck, Buffer};
use crate::element::{Element, Node};
use crate::network::{Network, Topology};
use crate::sender::{count, counted, is_due, sends};
use crate::simple_elems::{Acker, Sink};
use crate::simulation::Simulation;
use crate::transport::{Line, Transport};
use vstd::prelude::*;

verus! {

/// What to animate.
pub struct PathAnimConfig {
    /// Where the animation is written.
    pub filename: String,
    /// Capacity of the buffer, in both directions.
    pub bufsize: u64,
    /// Service time of both bottlenecks.
    pub bottleneck_intersend: u64,
    /// The sender's period.
    pub sender_intersend: u64,
    /// Number of packets sent at twice the rate before the sender settles.
    pub num_extra_packets: u64,
    /// Number of ticks to animate.
    pub num_ticks: u64,
}

/// Handle of the sink that ends the return path.
pub const SINK: usize = 0;

/// Handle of the link from the return bottleneck to the sink.
pub const RETURNPATH2: usize = 1;

/// Handle of the bottleneck on the return path.
pub const RET_BOTTLENECK: usize = 2;

/// Handle of the link from the acker to the return bottleneck.
pub const RETURNPATH1: usize = 3;

/// Handle of the acker.
pub const ACKER: usize = 4;

/// Handle of the link from the forward bottleneck to the acker.
pub const DEPARTURE: usize = 5;

/// Handle of the bottleneck on the forward path.
pub const BOTTLENECK: usize = 6;

/// Handle of the link from the sender to the forward bottleneck.
pub const ARRIVAL: usize = 7;

/// Ticks that a packet takes from the sender to the forward bottleneck.
pub const ARRIVAL_DELAY: u64 = 32;

/// Ticks that a packet takes over each other link.
pub const LINK_DELAY: u64 = 16;

/// Horizontal position of the sender.
pub const SENDER_X: i64 = -1000;

/// Horizontal position of the sink that ends the return path.
pub const SINK_X: i64 = -900;

/// Horizontal position of the acker.
pub const ACKER_X: i64 = 900;

/// Vertical position of the return path, two packet heights below the
/// forward path.
pub const RETURN_Y: i64 = -300;

/// Whether a buffer of this capacity can be drawn on the grid.
pub open spec fn drawable(bufsize: u64) -> bool {
    DATA_PKT_WIDTH * bufsize <= i64::MAX
}

/// The packet that the sender emits: a red data packet at the sender.
pub open spec fn fresh_pkt() -> Packet {
    Packet { size: DATA_PKT_WIDTH, coord: Coord(SENDER_X, 0), addr: 0, style: filled_style(255, 0, 0) }
}

/// The path before the first packet.
pub open spec fn full_path(bufsize: u64, bottleneck_intersend: u64) -> Topology {
    Topology {
        nodes: seq![
            Node::Sink(Sink { coord: Coord(SINK_X, RETURN_Y) }),
            Node::Transport { line: Line::idle(LINK_DELAY), next: SINK },
            Node::Bottleneck(
                Buffer::fresh(
                    Coord((DATA_PKT_WIDTH * bufsize) as i64, RETURN_Y),
                    bufsize,
                    seq![bottleneck_intersend],
                    seq![RETURNPATH2],
                    false,
                ),
            ),
            Node::Transport { line: Line::idle(LINK_DELAY), next: RET_BOTTLENECK },
            Node::Acker(Acker { rcv_coord: Coord(ACKER_X, 0), snd_coord: Coord(ACKER_X, RETURN_Y), next: RETURNPATH1 }),
            Node::Transport { line: Line::idle(LINK_DELAY), next: ACKER },
            Node::Bottleneck(Buffer::fresh(Coord(0, 0), bufsize, seq![bottleneck_intersend], seq![DEPARTURE], true)),
            Node::Transport { line: Line::idle(ARRIVAL_DELAY), next: BOTTLENECK },
        ],
    }
}

/// The path after the sender acted: with a fresh packet in the first link
/// if the sender was due, unchanged otherwise.
pub open spec fn fed(net: Topology, due: bool) -> Topology {
    if due {
        net.enqueue(ARRIVAL as int, fresh_pkt())
    } else {
        net
    }
}

/// The order in which the elements tick: along the way of a packet.
pub open spec fn path_order() -> Seq<usize> {
    seq![ARRIVAL, BOTTLENECK, DEPARTURE, ACKER, RETURNPATH1, RET_BOTTLENECK, RETURNPATH2]
}

/// The animated path with its sender.
pub struct PathAnim {
    sim: Simulation,
    sender_intersend: u64,
    num_extra_packets: u64,
    num_packets: u64,
}

impl PathAnim {
    /// The network's model.
    pub closed spec fn net(&self) -> Topology {
        self.sim.net()
    }

    /// The sender's period.
    pub closed spec fn period(&self) -> u64 {
        self.sender_intersend
    }

    /// Number of packets sent at twice the rate before the sender settles.
    pub closed spec fn extra(&self) -> u64 {
        self.num_extra_packets
    }

    /// Number of packets sent so far.
    pub closed spec fn sent(&self) -> u64 {
        self.num_packets
    }

    /// The animation's invariant: a path ready to run in the order of
    /// [`path_order`], and a sender with a period.
    pub closed spec fn wf(&self) -> bool {
        &&& self.sim.wf()
        &&& self.sim.order() == path_order()
        &&& self.sim.fan() == 1
        &&& self.sim.net().nodes.len() == 8
        &&& self.sender_intersend >= 1
    }

    /// The path of `config`, at rest. The sender's period may not be zero,
    /// and the buffer must be drawable.
    pub fn new(config: &PathAnimConfig) -> (anim: Self)
        requires
            config.sender_intersend >= 1,
            drawable(config.bufsize),
        ensures
            anim.wf(),
            anim.net() == full_path(config.bufsize, config.bottleneck_intersend),
            anim.period() == config.sender_intersend,
            anim.extra() == config.num_extra_packets,
            anim.sent() == 0,
    {
        let mut net = Network::new();
        let sink = net.add(Element::Sink(Sink { coord: Coord(SINK_X, RETURN_Y) }));
        let returnpath2 = net.add(Element::Transport(Transport::new(LINK_DELAY, sink)));
        let mut ret_next: Vec<usize> = Vec::new();
        ret_next.push(returnpath2);
        let mut ret_times: Vec<u64> = Vec::new();
        ret_times.push(config.bottleneck_intersend);
        let ret_bottleneck = net.add(
            Element::Bottleneck(
                Bottleneck::new(
                    Coord((DATA_PKT_WIDTH * config.bufsize) as i64, RETURN_Y),
                    config.bufsize,
                    ret_times,
                    ret_next,
                    false,
                ),
            ),
        );
        let returnpath1 = net.add(Element::Transport(Transport::new(LINK_DELAY, ret_bottleneck)));
        let acker = net.add(
            Element::Acker(
                Acker { rcv_coord: Coord(ACKER_X, 0), snd_coord: Coord(ACKER_X, RETURN_Y), next: returnpath1 },
            ),
        );
        let departure = net.add(Element::Transport(Transport::new(LINK_DELAY, acker)));
        let mut next: Vec<usize> = Vec::new();
        next.push(departure);
        let mut times: Vec<u64> = Vec::new();
        times.push(config.bottleneck_intersend);
        let bottleneck = net.add(Element::Bottleneck(Bottleneck::new(Coord(0, 0), config.bufsize, times, next, true)));
        let arrival = net.add(Element::Transport(Transport::new(ARRIVAL_DELAY, bottleneck)));
        let mut order: Vec<usize> = Vec::new();
        order.push(arrival);
        order.push(bottleneck);
        order.push(departure);
        order.push(acker);
        order.push(returnpath1);
        order.push(ret_bottleneck);
        order.push(returnpath2);
        proof {
            assert(net@.nodes == full_path(config.bufsize, config.bottleneck_intersend).nodes);
            assert(order@ == path_order());
        }
        let sim = Simulation::new(net, order, 1);
        PathAnim {
            sim: sim.unwrap(),
            sender_intersend: config.sender_intersend,
            num_extra_packets: config.num_extra_packets,
            num_packets: 0,
        }
    }

    /// The path and the order in which it ticks.
    pub fn simulation(&self) -> (sim: &Simulation)
        ensures
            sim.net() == self.net(),
            self.wf() ==> sim.wf() && sim.order() == path_order(),
    {
        &self.sim
    }

    /// Lets the sender act at the given tick: it emits a packet into the
    /// first link if [`sends`] says so.
    pub fn produce(&mut self, tick: u64)
        requires
            old(self).wf(),
        ensures
            final(self).wf(),
            final(self).period() == old(self).period(),
            final(self).extra() == old(self).extra(),
            final(self).net() == fed(
                old(self).net(),
                sends(tick, 0, old(self).period(), old(self).sent(), old(self).extra()),
            ),
            final(self).sent() == counted(
                old(self).sent(),
                sends(tick, 0, old(self).period(), old(self).sent(), old(self).extra()),
            ),
    {
        if is_due(tick, 0, self.sender_intersend, self.num_packets, self.num_extra_packets) {
            let pkt = Packet { size: DATA_PKT_WIDTH, coord: Coord(SENDER_X, 0), addr: 0, style: filled(255, 0, 0) };
            self.sim.enqueue(ARRIVAL, &pkt);
            self.num_packets = count(self.num_packets);
        }
    }

    /// Ticks the element of the given stage of [`path_order`].
    pub fn tick(&mut self, stage: usize)
        requires
            old(self).wf(),
            stage < 7,
        ensures
            final(self).wf(),
            final(self).period() == old(self).period(),
            final(self).extra() == old(self).extra(),
            final(self).sent() == old(self).sent(),
            final(self).net() == old(self).net().tick(path_order()[stage as int] as int),
    {
        self.sim.tick(stage);
    }

    /// One tick of the whole animation: the sender acts, then every
    /// element ticks in order.
    pub fn step(&mut self, tick: u64)
        requires
            old(self).wf(),
        ensures
            final(self).wf(),
            final(self).period() == old(self).period(),
            final(self).extra() == old(self).extra(),
            final(self).net() == fed(
                old(self).net(),
                sends(tick, 0, old(self).period(), old(self).sent(), old(self).extra()),
            ).tick_each(path_order()),
            final(self).sent() == counted(
                old(self).sent(),
                sends(tick, 0, old(self).period(), old(self).sent(), old(self).extra()),
            ),
    {
        self.produce(tick);
        self.sim.tick_all();
    }
}

} // verus!
