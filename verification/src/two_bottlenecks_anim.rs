//! A path with two bottlenecks in a row on the way out, and one on the
//! way back.
use crate::base::{filled, filled_style, Coord, Packet, DATA_PKT_WIDTH};
use crate::bottleneck::{Bottleneck, Buffer};
use crate::element::{Element, Node};
use crate::network::{Network, Topology};
use crate::sender::{count, counted, is_due, sends};
use crate::simple_elems::{Acker, Sink};
use crate::simulation::Simulation;
use crate::transport::{Line, Transport};
use vstd::prelude::*;

verus! {

/// What to animate.
pub struct TwoBottlenecksAnimConfig {
    /// Where the animation is written.
    pub filename: String,
    /// Capacity of the first bottleneck's buffer, and of the one on the way back.
    pub bufsize1: u64,
    /// Capacity of the second bottleneck's buffer.
    pub bufsize2: u64,
    /// Service times of the first bottleneck, and of the one on the way back.
    pub bottleneck1_intersend: Vec<u64>,
    /// Service times of the second bottleneck.
    pub bottleneck2_intersend: Vec<u64>,
    /// The sender's period.
    pub sender_intersend: u64,
    /// Number of packets sent at twice the rate before the sender settles.
    pub num_extra_packets: u64,
    /// Number of ticks to animate.
    pub num_ticks: u64,
    /// Whether to draw the buffers of the first and the second bottleneck.
    pub draw_buffer: (bool, bool),
}

/// Handle of the sink that ends the return path.
pub const SINK: usize = 0;

/// Handle of the link from the return bottleneck to the sink.
pub const RETURNPATH2: usize = 1;

/// Handle of the bottleneck on the return path.
pub const RET_BOTTLENECK: usize = 2;

/// Handle of the link from the acker to the return bottleneck.
pub const RETURNPATH1: usize = 3;

/// Handle of the acker.
pub const ACKER: usize = 4;

/// Handle of the link from the second bottleneck to the acker.
pub const DEPARTURE: usize = 5;

/// Handle of the second bottleneck.
pub const BOTTLENECK2: usize = 6;

/// Handle of the link between the two bottlenecks.
pub const BETWEEN: usize = 7;

/// Handle of the first bottleneck.
pub const BOTTLENECK: usize = 8;

/// Handle of the link from the sender to the first bottleneck.
pub const ARRIVAL: usize = 9;

/// Ticks that a packet takes from the sender to the first bottleneck.
pub const ARRIVAL_DELAY: u64 = 32;

/// Ticks that a packet takes over each other link.
pub const LINK_DELAY: u64 = 16;

/// Horizontal position of the sender.
pub const SENDER_X: i64 = -1000;

/// Horizontal position of the sink that ends the return path.
pub const SINK_X: i64 = -900;

/// Horizontal position of the acker.
pub const ACKER_X: i64 = 900;

/// Horizontal position of the first bottleneck.
pub const FIRST_X: i64 = -333;

/// Horizontal position of the second bottleneck.
pub const SECOND_X: i64 = 333;

/// Vertical position of the return path.
pub const RETURN_Y: i64 = -300;

/// Whether a buffer of this capacity can be drawn on the grid.
pub open spec fn drawable(bufsize: u64) -> bool {
    DATA_PKT_WIDTH * bufsize <= i64::MAX
}

/// The packet that the sender emits: a red data packet at the sender.
pub open spec fn fresh_pkt() -> Packet {
    Packet { size: DATA_PKT_WIDTH, coord: Coord(SENDER_X, 0), addr: 0, style: filled_style(255, 0, 0) }
}

/// The path before the first packet.
pub open spec fn two_bottleneck_path(bufsize1: u64, bufsize2: u64, times1: Seq<u64>, times2: Seq<u64>) -> Topology {
    Topology {
        nodes: seq![
            Node::Sink(Sink { coord: Coord(SINK_X, RETURN_Y) }),
            Node::Transport { line: Line::idle(LINK_DELAY), next: SINK },
            Node::Bottleneck(
                Buffer::fresh(
                    Coord((DATA_PKT_WIDTH * bufsize1 + FIRST_X) as i64, RETURN_Y),
                    bufsize1,
                    times1,
                    seq![RETURNPATH2],
                    false,
                ),
            ),
            Node::Transport { line: Line::idle(LINK_DELAY), next: RET_BOTTLENECK },
            Node::Acker(Acker { rcv_coord: Coord(ACKER_X, 0), snd_coord: Coord(ACKER_X, RETURN_Y), next: RETURNPATH1 }),
            Node::Transport { line: Line::idle(LINK_DELAY), next: ACKER },
            Node::Bottleneck(Buffer::fresh(Coord(SECOND_X, 0), bufsize2, times2, seq![DEPARTURE], true)),
            Node::Transport { line: Line::idle(LINK_DELAY), next: BOTTLENECK2 },
            Node::Bottleneck(Buffer::fresh(Coord(FIRST_X, 0), bufsize1, times1, seq![BETWEEN], true)),
            Node::Transport { line: Line::idle(ARRIVAL_DELAY), next: BOTTLENECK },
        ],
    }
}

/// The path after the sender acted: with a fresh packet in the first link
/// if the sender was due, unchanged otherwise.
pub open spec fn fed(net: Topology, due: bool) -> Topology {
    if due {
        net.enqueue(ARRIVAL as int, fresh_pkt())
    } else {
        net
    }
}

/// The order in which the elements tick: along the way of a packet.
pub open spec fn two_bottleneck_order() -> Seq<usize> {
    seq![ARRIVAL, BOTTLENECK, BETWEEN, BOTTLENECK2, DEPARTURE, ACKER, RETURNPATH1, RET_BOTTLENECK, RETURNPATH2]
}

/// The animated path with its sender.
pub struct TwoBottlenecksAnim {
    sim: Simulation,
    sender_intersend: u64,
    num_extra_packets: u64,
    num_packets: u64,
}

impl TwoBottlenecksAnim {
    /// The network's model.
    pub closed spec fn net(&self) -> Topology {
        self.sim.net()
    }

    /// The sender's period.
    pub closed spec fn period(&self) -> u64 {
        self.sender_intersend
    }

    /// Number of packets sent at twice the rate before the sender settles.
    pub closed spec fn extra(&self) -> u64 {
        self.num_extra_packets
    }

    /// Number of packets sent so far.
    pub closed spec fn sent(&self) -> u64 {
        self.num_packets
    }

    /// The animation's invariant: a path ready to run in the order of
    /// [`two_bottleneck_order`], and a sender with a period.
    pub closed spec fn wf(&self) -> bool {
        &&& self.sim.wf()
        &&& self.sim.order() == two_bottleneck_order()
        &&& self.sim.fan() == 1
        &&& self.sim.net().nodes.len() == 10
        &&& self.sender_intersend >= 1
    }

    /// The path of `config`, at rest. Neither list of service times may be
    /// empty, nor the sender's period zero, and the first buffer must be
    /// drawable.
    pub fn new(config: &TwoBottlenecksAnimConfig) -> (anim: Self)
        requires
            config.bottleneck1_intersend.len() >= 1,
            config.bottleneck2_intersend.len() >= 1,
            config.sender_intersend >= 1,
            drawable(config.bufsize1),
        ensures
            anim.wf(),
            anim.net() == two_bottleneck_path(
                config.bufsize1,
                config.bufsize2,
                config.bottleneck1_intersend@,
                config.bottleneck2_intersend@,
            ),
            anim.period() == config.sender_intersend,
            anim.extra() == config.num_extra_packets,
            anim.sent() == 0,
    {
        let mut net = Network::new();
        let sink = net.add(Element::Sink(Sink { coord: Coord(SINK_X, RETURN_Y) }));
        let returnpath2 = net.add(Element::Transport(Transport::new(LINK_DELAY, sink)));
        let mut ret_next: Vec<usize> = Vec::new();
        ret_next.push(returnpath2);
        let ret_bottleneck = net.add(
            Element::Bottleneck(
                Bottleneck::new(
                    Coord((DATA_PKT_WIDTH * config.bufsize1) as i64 + FIRST_X, RETURN_Y),
                    config.bufsize1,
                    config.bottleneck1_intersend.clone(),
                    ret_next,
                    false,
                ),
            ),
        );
        let returnpath1 = net.add(Element::Transport(Transport::new(LINK_DELAY, ret_bottleneck)));
        let acker = net.add(
            Element::Acker(
                Acker { rcv_coord: Coord(ACKER_X, 0), snd_coord: Coord(ACKER_X, RETURN_Y), next: returnpath1 },
            ),
        );
        let departure = net.add(Element::Transport(Transport::new(LINK_DELAY, acker)));
        let mut next2: Vec<usize> = Vec::new();
        next2.push(departure);
        let bottleneck2 = net.add(
            Element::Bottleneck(
                Bottleneck::new(Coord(SECOND_X, 0), config.bufsize2, config.bottleneck2_intersend.clone(), next2, true),
            ),
        );
        let between = net.add(Element::Transport(Transport::new(LINK_DELAY, bottleneck2)));
        let mut next: Vec<usize> = Vec::new();
        next.push(between);
        let bottleneck = net.add(
            Element::Bottleneck(
                Bottleneck::new(Coord(FIRST_X, 0), config.bufsize1, config.bottleneck1_intersend.clone(), next, true),
            ),
        );
        let arrival = net.add(Element::Transport(Transport::new(ARRIVAL_DELAY, bottleneck)));
        let mut order: Vec<usize> = Vec::new();
        order.push(arrival);
        order.push(bottleneck);
        order.push(between);
        order.push(bottleneck2);
        order.push(departure);
        order.push(acker);
        order.push(returnpath1);
        order.push(ret_bottleneck);
        order.push(returnpath2);
        proof {
            assert(net@.nodes == two_bottleneck_path(
                config.bufsize1,
                config.bufsize2,
                config.bottleneck1_intersend@,
                config.bottleneck2_intersend@,
            ).nodes);
            assert(order@ == two_bottleneck_order());
        }
        let sim = Simulation::new(net, order, 1);
        TwoBottlenecksAnim {
            sim: sim.unwrap(),
            sender_intersend: config.sender_intersend,
            num_extra_packets: config.num_extra_packets,
            num_packets: 0,
        }
    }

    /// The path and the order in which it ticks.
    pub fn simulation(&self) -> (sim: &Simulation)
        ensures
            sim.net() == self.net(),
            self.wf() ==> sim.wf() && sim.order() == two_bottleneck_order(),
    {
        &self.sim
    }

    /// Lets the sender act at the given tick: it emits a packet into the
    /// first link if [`sends`] says so.
    pub fn produce(&mut self, tick: u64)
        requires
            old(self).wf(),
        ensures
            final(self).wf(),
            final(self).period() == old(self).period(),
            final(self).extra() == old(self).extra(),
            final(self).net() == fed(
                old(self).net(),
                sends(tick, 0, old(self).period(), old(self).sent(), old(self).extra()),
            ),
            final(self).sent() == counted(
                old(self).sent(),
                sends(tick, 0, old(self).period(), old(self).sent(), old(self).extra()),
            ),
    {
        if is_due(tick, 0, self.sender_intersend, self.num_packets, self.num_extra_packets) {
            let pkt = Packet { size: DATA_PKT_WIDTH, coord: Coord(SENDER_X, 0), addr: 0, style: filled(255, 0, 0) };
            self.sim.enqueue(ARRIVAL, &pkt);
            self.num_packets = count(self.num_packets);
        }
    }

    /// Ticks the element of the given stage of [`two_bottleneck_order`].
    pub fn tick(&mut self, stage: usize)
        requires
            old(self).wf(),
            stage < 9,
        ensures
            final(self).wf(),
            final(self).period() == old(self).period(),
            final(self).extra() == old(self).extra(),
            final(self).sent() == old(self).sent(),
            final(self).net() == old(self).net().tick(two_bottleneck_order()[stage as int] as int),
    {
        self.sim.tick(stage);
    }

    /// One tick of the whole animation: the sender acts, then every
    /// element ticks in order.
    pub fn step(&mut self, tick: u64)
        requires
            old(self).wf(),
        ensures
            final(self).wf(),
            final(self).period() == old(self).period(),
            final(self).extra() == old(self).extra(),
            final(self).net() == fed(
                old(self).net(),
                sends(tick, 0, old(self).period(), old(self).sent(), old(self).extra()),
            ).tick_each(two_bottleneck_order()),
            final(self).sent() == counted(
                old(self).sent(),
                sends(tick, 0, old(self).period(), old(self).sent(), old(self).extra()),
            ),
    {
        self.produce(tick);
        self.sim.tick_all();
    }
}

} // verus!
