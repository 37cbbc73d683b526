//! Two flows that share one bottleneck on the way out and one on the way
//! back. The bottlenecks are made first and wired to their downstream
//! links once those exist.
use crate::base::{filled, filled_style, Coord, Packet, DATA_PKT_WIDTH};
use crate::bottleneck::{Bottleneck, Buffer};
use crate::element::{Element, Node};
use crate::network::{Network, Topology};
use crate::sender::{count, counted, is_due, sends};
use crate::simple_elems::{Acker, Sink};
use crate::simulation::Simulation;
use crate::transport::{Line, Transport};
use vstd::prelude::*;

verus! {

/// What to animate.
pub struct FairAnimConfig {
    /// Where the animation is written.
    pub filename: String,
    /// Capacity of the buffer, in both directions.
    pub bufsize: u64,
    /// Service time of both bottlenecks.
    pub bottleneck_intersend: u64,
    /// The period of each sender.
    pub sender_intersend: u64,
    /// Number of packets sent at twice the rate before the senders settle.
    pub num_extra_packets: u64,
    /// Number of ticks to animate.
    pub num_ticks: u64,
}

/// Handle of the shared bottleneck on the way back.
pub const RET_BOTTLENECK: usize = 0;

/// Handle of the shared bottleneck on the way out.
pub const BOTTLENECK: usize = 1;

/// Handle of the sink of the first flow.
pub const SINK_A: usize = 2;

/// Handle of the first flow's link from the return bottleneck to its sink.
pub const RETURNPATH2_A: usize = 3;

/// Handle of the first flow's link from its acker to the return bottleneck.
pub const RETURNPATH1_A: usize = 4;

/// Handle of the first flow's acker.
pub const ACKER_A: usize = 5;

/// Handle of the first flow's link from the bottleneck to its acker.
pub const DEPARTURE_A: usize = 6;

/// Handle of the first flow's link from its sender to the bottleneck.
pub const ARRIVAL_A: usize = 7;

/// Handle of the sink of the second flow.
pub const SINK_B: usize = 8;

/// Handle of the second flow's link from the return bottleneck to its sink.
pub const RETURNPATH2_B: usize = 9;

/// Handle of the second flow's link from its acker to the return bottleneck.
pub const RETURNPATH1_B: usize = 10;

/// Handle of the second flow's acker.
pub const ACKER_B: usize = 11;

/// Handle of the second flow's link from the bottleneck to its acker.
pub const DEPARTURE_B: usize = 12;

/// Handle of the second flow's link from its sender to the bottleneck.
pub const ARRIVAL_B: usize = 13;

/// Ticks that a packet takes from a sender to the bottleneck.
pub const ARRIVAL_DELAY: u64 = 32;

/// Ticks that a packet takes over each other link.
pub const LINK_DELAY: u64 = 16;

/// Horizontal position of the senders.
pub const SENDER_X: i64 = -1000;

/// Horizontal position of the sinks.
pub const SINK_X: i64 = -900;

/// Horizontal position of the ackers.
pub const ACKER_X: i64 = 900;

/// Vertical position of the shared return bottleneck.
pub const RETURN_Y: i64 = -300;

/// Vertical position of the first flow's way out: thirteen packet heights
/// above the shared bottleneck.
pub const OUT_A_Y: i64 = 1950;

/// Vertical position of the first flow's way back.
pub const BACK_A_Y: i64 = 1650;

/// Vertical position of the second flow's way out.
pub const OUT_B_Y: i64 = -1950;

/// Vertical position of the second flow's way back.
pub const BACK_B_Y: i64 = -2250;

/// Whether a buffer of this capacity can be drawn on the grid.
pub open spec fn drawable(bufsize: u64) -> bool {
    DATA_PKT_WIDTH * bufsize <= i64::MAX
}

/// The packet that the first sender emits: red, addressed to the first flow.
pub open spec fn fresh_pkt_a() -> Packet {
    Packet { size: DATA_PKT_WIDTH, coord: Coord(SENDER_X, OUT_A_Y), addr: 0, style: filled_style(255, 0, 0) }
}

/// The packet that the second sender emits: green, addressed to the
/// second flow.
pub open spec fn fresh_pkt_b() -> Packet {
    Packet { size: DATA_PKT_WIDTH, coord: Coord(SENDER_X, OUT_B_Y), addr: 1, style: filled_style(0, 255, 0) }
}

/// The network before the first packet.
pub open spec fn shared_path(bufsize: u64, bottleneck_intersend: u64) -> Topology {
    Topology {
        nodes: seq![
            Node::Bottleneck(
                Buffer::fresh(
                    Coord((DATA_PKT_WIDTH * bufsize) as i64, RETURN_Y),
                    bufsize,
                    seq![bottleneck_intersend],
                    seq![RETURNPATH2_A, RETURNPATH2_B],
                    false,
                ),
            ),
            Node::Bottleneck(
                Buffer::fresh(Coord(0, 0), bufsize, seq![bottleneck_intersend], seq![DEPARTURE_A, DEPARTURE_B], true),
            ),
            Node::Sink(Sink { coord: Coord(SINK_X, BACK_A_Y) }),
            Node::Transport { line: Line::idle(LINK_DELAY), next: SINK_A },
            Node::Transport { line: Line::idle(LINK_DELAY), next: RET_BOTTLENECK },
            Node::Acker(
                Acker { rcv_coord: Coord(ACKER_X, OUT_A_Y), snd_coord: Coord(ACKER_X, BACK_A_Y), next: RETURNPATH1_A },
            ),
            Node::Transport { line: Line::idle(LINK_DELAY), next: ACKER_A },
            Node::Transport { line: Line::idle(ARRIVAL_DELAY), next: BOTTLENECK },
            Node::Sink(Sink { coord: Coord(SINK_X, BACK_B_Y) }),
            Node::Transport { line: Line::idle(LINK_DELAY), next: SINK_B },
            Node::Transport { line: Line::idle(LINK_DELAY), next: RET_BOTTLENECK },
            Node::Acker(
                Acker { rcv_coord: Coord(ACKER_X, OUT_B_Y), snd_coord: Coord(ACKER_X, BACK_B_Y), next: RETURNPATH1_B },
            ),
            Node::Transport { line: Line::idle(LINK_DELAY), next: ACKER_B },
            Node::Transport { line: Line::idle(ARRIVAL_DELAY), next: BOTTLENECK },
        ],
    }
}

/// The network after the first sender acted: with a fresh packet in its
/// first link if it was due, unchanged otherwise.
pub open spec fn fed_a(net: Topology, due: bool) -> Topology {
    if due {
        net.enqueue(ARRIVAL_A as int, fresh_pkt_a())
    } else {
        net
    }
}

/// The network after the second sender acted: with a fresh packet in its
/// first link if it was due, unchanged otherwise.
pub open spec fn fed_b(net: Topology, due: bool) -> Topology {
    if due {
        net.enqueue(ARRIVAL_B as int, fresh_pkt_b())
    } else {
        net
    }
}

/// The order in which the elements tick.
pub open spec fn fair_order() -> Seq<usize> {
    seq![
        ARRIVAL_A,
        ARRIVAL_B,
        BOTTLENECK,
        RET_BOTTLENECK,
        ACKER_A,
        DEPARTURE_A,
        RETURNPATH1_A,
        RETURNPATH2_A,
        DEPARTURE_B,
        ACKER_B,
        RETURNPATH1_B,
        RETURNPATH2_B,
    ]
}

/// Half a period, the phase by which the second sender trails the first.
pub open spec fn phase(period: u64) -> u64 {
    period / 2
}

/// The count of packets after the first sender acted at `tick`.
pub open spec fn sent_between(tick: u64, period: u64, sent: u64, extra: u64) -> u64 {
    counted(sent, sends(tick, 0, period, sent, extra))
}

/// The count of packets after both senders acted at `tick`.
pub open spec fn sent_after(tick: u64, period: u64, sent: u64, extra: u64) -> u64 {
    let between = sent_between(tick, period, sent, extra);
    counted(between, sends(tick, phase(period), period, between, extra))
}

/// The network after both senders acted at `tick`, the first before the
/// second.
pub open spec fn after_senders(net: Topology, tick: u64, period: u64, sent: u64, extra: u64) -> Topology {
    fed_b(
        fed_a(net, sends(tick, 0, period, sent, extra)),
        sends(tick, phase(period), period, sent_between(tick, period, sent, extra), extra),
    )
}

/// The two animated flows with their senders, which count their packets
/// together.
pub struct FairAnim {
    sim: Simulation,
    sender_intersend: u64,
    num_extra_packets: u64,
    num_packets: u64,
}

impl FairAnim {
    /// The network's model.
    pub closed spec fn net(&self) -> Topology {
        self.sim.net()
    }

    /// The period of each sender.
    pub closed spec fn period(&self) -> u64 {
        self.sender_intersend
    }

    /// Number of packets sent at twice the rate before the senders settle.
    pub closed spec fn extra(&self) -> u64 {
        self.num_extra_packets
    }

    /// Number of packets that both senders have sent so far.
    pub closed spec fn sent(&self) -> u64 {
        self.num_packets
    }

    /// The animation's invariant: a network ready to run in the order of
    /// [`fair_order`] with two addresses, and senders with a period.
    pub closed spec fn wf(&self) -> bool {
        &&& self.sim.wf()
        &&& self.sim.order() == fair_order()
        &&& self.sim.fan() == 2
        &&& self.sim.net().nodes.len() == 14
        &&& self.sender_intersend >= 1
    }

    /// The network of `config`, at rest. The senders' period may not be
    /// zero, and the buffer must be drawable.
    pub fn new(config: &FairAnimConfig) -> (anim: Self)
        requires
            config.sender_intersend >= 1,
            drawable(config.bufsize),
        ensures
            anim.wf(),
            anim.net() == shared_path(config.bufsize, config.bottleneck_intersend),
            anim.period() == config.sender_intersend,
            anim.extra() == config.num_extra_packets,
            anim.sent() == 0,
    {
        let mut net = Network::new();
        let mut ret_times: Vec<u64> = Vec::new();
        ret_times.push(config.bottleneck_intersend);
        let ret_bottleneck = net.add(
            Element::Bottleneck(
                Bottleneck::new(
                    Coord((DATA_PKT_WIDTH * config.bufsize) as i64, RETURN_Y),
                    config.bufsize,
                    ret_times,
                    Vec::new(),
                    false,
                ),
            ),
        );
        let mut times: Vec<u64> = Vec::new();
        times.push(config.bottleneck_intersend);
        let bottleneck = net.add(
            Element::Bottleneck(Bottleneck::new(Coord(0, 0), config.bufsize, times, Vec::new(), true)),
        );

        let sink_a = net.add(Element::Sink(Sink { coord: Coord(SINK_X, BACK_A_Y) }));
        let returnpath2_a = net.add(Element::Transport(Transport::new(LINK_DELAY, sink_a)));
        let returnpath1_a = net.add(Element::Transport(Transport::new(LINK_DELAY, ret_bottleneck)));
        let acker_a = net.add(
            Element::Acker(
                Acker { rcv_coord: Coord(ACKER_X, OUT_A_Y), snd_coord: Coord(ACKER_X, BACK_A_Y), next: returnpath1_a },
            ),
        );
        let departure_a = net.add(Element::Transport(Transport::new(LINK_DELAY, acker_a)));
        let arrival_a = net.add(Element::Transport(Transport::new(ARRIVAL_DELAY, bottleneck)));

        let sink_b = net.add(Element::Sink(Sink { coord: Coord(SINK_X, BACK_B_Y) }));
        let returnpath2_b = net.add(Element::Transport(Transport::new(LINK_DELAY, sink_b)));
        let returnpath1_b = net.add(Element::Transport(Transport::new(LINK_DELAY, ret_bottleneck)));
        let acker_b = net.add(
            Element::Acker(
                Acker { rcv_coord: Coord(ACKER_X, OUT_B_Y), snd_coord: Coord(ACKER_X, BACK_B_Y), next: returnpath1_b },
            ),
        );
        let departure_b = net.add(Element::Transport(Transport::new(LINK_DELAY, acker_b)));
        let arrival_b = net.add(Element::Transport(Transport::new(ARRIVAL_DELAY, bottleneck)));

        let mut ret_next: Vec<usize> = Vec::new();
        ret_next.push(returnpath2_a);
        ret_next.push(returnpath2_b);
        assert(ret_next@ == seq![RETURNPATH2_A, RETURNPATH2_B]);
        net.set_next(ret_bottleneck, ret_next);
        let mut next: Vec<usize> = Vec::new();
        next.push(departure_a);
        next.push(departure_b);
        assert(next@ == seq![DEPARTURE_A, DEPARTURE_B]);
        net.set_next(bottleneck, next);

        let mut order: Vec<usize> = Vec::new();
        order.push(arrival_a);
        order.push(arrival_b);
        order.push(bottleneck);
        order.push(ret_bottleneck);
        order.push(acker_a);
        order.push(departure_a);
        order.push(returnpath1_a);
        order.push(returnpath2_a);
        order.push(departure_b);
        order.push(acker_b);
        order.push(returnpath1_b);
        order.push(returnpath2_b);
        proof {
            assert(net@.nodes == shared_path(config.bufsize, config.bottleneck_intersend).nodes);
            assert(order@ == fair_order());
        }
        let sim = Simulation::new(net, order, 2);
        FairAnim {
            sim: sim.unwrap(),
            sender_intersend: config.sender_intersend,
            num_extra_packets: config.num_extra_packets,
            num_packets: 0,
        }
    }

    /// The network and the order in which it ticks.
    pub fn simulation(&self) -> (sim: &Simulation)
        ensures
            sim.net() == self.net(),
            self.wf() ==> sim.wf() && sim.order() == fair_order(),
    {
        &self.sim
    }

    /// Lets the first sender act at the given tick: it emits a packet into
    /// its first link if [`sends`] says so.
    pub fn produce_a(&mut self, tick: u64)
        requires
            old(self).wf(),
        ensures
            final(self).wf(),
            final(self).period() == old(self).period(),
            final(self).extra() == old(self).extra(),
            final(self).net() == fed_a(
                old(self).net(),
                sends(tick, 0, old(self).period(), old(self).sent(), old(self).extra()),
            ),
            final(self).sent() == counted(
                old(self).sent(),
                sends(tick, 0, old(self).period(), old(self).sent(), old(self).extra()),
            ),
    {
        if is_due(tick, 0, self.sender_intersend, self.num_packets, self.num_extra_packets) {
            let pkt = Packet {
                size: DATA_PKT_WIDTH,
                coord: Coord(SENDER_X, OUT_A_Y),
                addr: 0,
                style: filled(255, 0, 0),
            };
            self.sim.enqueue(ARRIVAL_A, &pkt);
            self.num_packets = count(self.num_packets);
        }
    }

    /// Lets the second sender act at the given tick, half a period out of
    /// step with the first: it emits a packet into its first link if
    /// [`sends`] says so.
    pub fn produce_b(&mut self, tick: u64)
        requires
            old(self).wf(),
        ensures
            final(self).wf(),
            final(self).period() == old(self).period(),
            final(self).extra() == old(self).extra(),
            final(self).net() == fed_b(
                old(self).net(),
                sends(tick, phase(old(self).period()), old(self).period(), old(self).sent(), old(self).extra()),
            ),
            final(self).sent() == counted(
                old(self).sent(),
                sends(tick, phase(old(self).period()), old(self).period(), old(self).sent(), old(self).extra()),
            ),
    {
        if is_due(tick, self.sender_intersend / 2, self.sender_intersend, self.num_packets, self.num_extra_packets) {
            let pkt = Packet {
                size: DATA_PKT_WIDTH,
                coord: Coord(SENDER_X, OUT_B_Y),
                addr: 1,
                style: filled(0, 255, 0),
            };
            self.sim.enqueue(ARRIVAL_B, &pkt);
            self.num_packets = count(self.num_packets);
        }
    }

    /// Ticks the element of the given stage of [`fair_order`].
    pub fn tick(&mut self, stage: usize)
        requires
            old(self).wf(),
            stage < 12,
        ensures
            final(self).wf(),
            final(self).period() == old(self).period(),
            final(self).extra() == old(self).extra(),
            final(self).sent() == old(self).sent(),
            final(self).net() == old(self).net().tick(fair_order()[stage as int] as int),
    {
        self.sim.tick(stage);
    }

    /// One tick of the whole animation: the first sender acts, then the
    /// second, then every element ticks in order.
    pub fn step(&mut self, tick: u64)
        requires
            old(self).wf(),
        ensures
            final(self).wf(),
            final(self).period() == old(self).period(),
            final(self).extra() == old(self).extra(),
            final(self).net() == after_senders(old(self).net(), tick, old(self).period(), old(self).sent(), old(self).extra()).tick_each(
                fair_order(),
            ),
            final(self).sent() == sent_after(tick, old(self).period(), old(self).sent(), old(self).extra()),
    {
        self.produce_a(tick);
        self.produce_b(tick);
        self.sim.tick_all();
    }
}

} // verus!
