use pathsim::base::{Coord, Packet, ACK_PKT_WIDTH, DATA_PKT_WIDTH};
use pathsim::bottleneck::Bottleneck;
use pathsim::element::Element;
use pathsim::network::Network;
use pathsim::simple_elems::{Acker, Sink};
use pathsim::simulation::Simulation;
use pathsim::transport::Transport;
use plotters::style::{ShapeStyle, GREEN, RED};

fn pkt(size: u64, addr: u16) -> Packet {
    Packet { size, coord: Coord(-1000, 0), addr, style: ShapeStyle::from(RED).filled() }
}

fn sizes(pkts: &[Packet]) -> Vec<u64> {
    pkts.iter().map(|p| p.size).collect()
}

#[test]
fn acker_answers_a_data_packet_with_one_acknowledgment_at_once() {
    let mut net = Network::new();
    let sink = net.add(Element::Sink(Sink { coord: Coord(-900, -300) }));
    let back = net.add(Element::Transport(Transport::new(16, sink)));
    let acker = net.add(Element::Acker(Acker { rcv_coord: Coord(900, 0), snd_coord: Coord(900, -300), next: back }));
    let data = Packet { size: 1000, coord: Coord(900, 0), addr: 0, style: ShapeStyle::from(GREEN).filled() };
    net.enqueue(acker, &data);
    assert!(net.get_pkts(acker).is_empty());
    let held = net.get_pkts(back);
    assert_eq!(held.len(), 1);
    assert_eq!(held[0].size, ACK_PKT_WIDTH);
    assert!(held[0].size < data.size);
    assert_eq!(held[0].addr, 0);
    assert_eq!((held[0].coord.0, held[0].coord.1), (900, -300));
    assert!(held[0].style == data.style);
    net.tick(acker);
    assert!(net.get_pkts(acker).is_empty());
    assert_eq!(net.get_pkts(back).len(), 1);
    match net.get(acker) {
        Element::Acker(a) => {
            assert_eq!((a.rcv_coord.0, a.rcv_coord.1, a.snd_coord.0, a.snd_coord.1, a.next), (900, 0, 900, -300, back))
        }
        _ => panic!("the acker changed its kind"),
    }
}

#[test]
fn acker_keeps_the_address_of_the_packet() {
    let mut acker = Acker { rcv_coord: Coord(900, 0), snd_coord: Coord(900, -300), next: 0 };
    let reply = acker.enqueue(&pkt(DATA_PKT_WIDTH, 1));
    assert_eq!((reply.size, reply.addr, reply.coord.0, reply.coord.1), (10, 1, 900, -300));
    assert!(acker.get_pkts().is_empty());
    acker.tick();
    assert_eq!((acker.get_enqueue_coord().0, acker.get_enqueue_coord().1), (900, 0));
}

#[test]
fn sink_swallows_packets() {
    let mut sink = Sink { coord: Coord(500, 0) };
    sink.enqueue(&pkt(25, 0));
    sink.tick();
    assert!(sink.get_pkts().is_empty());
    assert_eq!((sink.get_enqueue_coord().0, sink.get_enqueue_coord().1), (500, 0));
    let mut net = Network::new();
    let h = net.add(Element::Sink(sink));
    net.enqueue(h, &pkt(25, 0));
    net.tick(h);
    assert!(net.get_pkts(h).is_empty());
}

#[test]
fn link_hands_packets_to_the_bottleneck_behind_it() {
    let mut net = Network::new();
    let sink = net.add(Element::Sink(Sink { coord: Coord(500, 0) }));
    let elem = net.add(Element::Bottleneck(Bottleneck::new(Coord(0, 0), 1, vec![100], vec![sink], true)));
    let arrival = net.add(Element::Transport(Transport::new(2, elem)));
    net.enqueue(arrival, &pkt(1, 0));
    net.enqueue(arrival, &pkt(2, 0));
    match net.get(arrival) {
        Element::Transport(t) => {
            let at = t.flights()[0].target;
            assert_eq!((at.0, at.1), (-25, 0));
        }
        _ => panic!("the link changed its kind"),
    }
    net.tick(arrival);
    assert!(net.get_pkts(elem).is_empty());
    net.tick(arrival);
    assert!(net.get_pkts(arrival).is_empty());
    let queued = net.get_pkts(elem);
    assert_eq!(sizes(&queued), vec![1]);
    assert_eq!((queued[0].coord.0, queued[0].coord.1), (-25, 0));
    match net.get(elem) {
        Element::Bottleneck(b) => assert_eq!(sizes(&b.dropper().get_pkts()), vec![2]),
        _ => panic!("the bottleneck changed its kind"),
    }
}

#[test]
fn bottleneck_routes_by_address() {
    let mut net = Network::new();
    let sink = net.add(Element::Sink(Sink { coord: Coord(500, 0) }));
    let fork = net.add(Element::Bottleneck(Bottleneck::new(Coord(0, 0), 8, vec![1], vec![], true)));
    let upper = net.add(Element::Transport(Transport::new(16, sink)));
    let lower = net.add(Element::Transport(Transport::new(16, sink)));
    net.set_next(fork, vec![upper, lower]);
    net.enqueue(fork, &pkt(10, 1));
    net.enqueue(fork, &pkt(11, 0));
    net.enqueue(fork, &pkt(12, 1));
    for _ in 0..3 {
        assert!(net.routable(fork));
        net.tick(fork);
    }
    assert_eq!(sizes(&net.get_pkts(upper)), vec![11]);
    assert_eq!(sizes(&net.get_pkts(lower)), vec![10, 12]);
    assert!(net.get_pkts(fork).is_empty());
}

#[test]
fn unwired_bottleneck_is_not_routable_once_a_packet_is_due() {
    let mut net = Network::new();
    let fork = net.add(Element::Bottleneck(Bottleneck::new(Coord(0, 0), 8, vec![0], vec![], true)));
    assert!(net.routable(fork));
    net.enqueue(fork, &pkt(10, 0));
    assert!(!net.routable(fork));
    assert!(Simulation::new(net, vec![fork], 1).is_none());
}

#[test]
fn network_admits_only_elements_whose_targets_exist() {
    let mut net = Network::new();
    assert!(!net.admits(&Element::Transport(Transport::new(1, 0))));
    assert!(!net.admits(&Element::Acker(Acker { rcv_coord: Coord(0, 0), snd_coord: Coord(0, 0), next: 0 })));
    assert!(net.admits(&Element::Bottleneck(Bottleneck::new(Coord(0, 0), 1, vec![1], vec![], true))));
    assert!(!net.admits(&Element::Bottleneck(Bottleneck::new(Coord(0, 0), 1, vec![1], vec![0], true))));
    let sink = net.add(Element::Sink(Sink { coord: Coord(0, 0) }));
    assert!(net.admits(&Element::Transport(Transport::new(1, sink))));
    let link = net.add(Element::Transport(Transport::new(1, sink)));
    assert!(!net.admits(&Element::Transport(Transport::new(1, link))));
    assert!(net.admits(&Element::Acker(Acker { rcv_coord: Coord(0, 0), snd_coord: Coord(0, 0), next: link })));
    assert!(net.has_all(&vec![sink, link]));
    assert!(!net.has_all(&vec![sink, 2]));
    assert_eq!(net.len(), 2);
}

#[test]
fn ackers_in_a_row_pass_the_acknowledgment_on_within_the_call() {
    let mut net = Network::new();
    let sink = net.add(Element::Sink(Sink { coord: Coord(0, 0) }));
    let link = net.add(Element::Transport(Transport::new(4, sink)));
    let second = net.add(Element::Acker(Acker { rcv_coord: Coord(1, 1), snd_coord: Coord(2, 2), next: link }));
    let first = net.add(Element::Acker(Acker { rcv_coord: Coord(3, 3), snd_coord: Coord(4, 4), next: second }));
    net.enqueue(first, &pkt(500, 0));
    let held = net.get_pkts(link);
    assert_eq!(held.len(), 1);
    assert_eq!((held[0].size, held[0].coord.0, held[0].coord.1), (10, 2, 2));
    assert_eq!((net.get_enqueue_coord(first).0, net.get_enqueue_coord(second).0, net.get_enqueue_coord(sink).0), (3, 1, 0));
}

#[test]
fn simulation_ticks_every_stage_in_order() {
    let mut net = Network::new();
    let sink = net.add(Element::Sink(Sink { coord: Coord(500, 0) }));
    let departure = net.add(Element::Transport(Transport::new(2, sink)));
    let elem = net.add(Element::Bottleneck(Bottleneck::new(Coord(0, 0), 4, vec![1], vec![departure], true)));
    let arrival = net.add(Element::Transport(Transport::new(1, elem)));
    let mut sim = Simulation::new(net, vec![arrival, elem, departure], 1).unwrap();
    sim.enqueue(arrival, &pkt(7, 0));
    sim.tick_all();
    assert!(sim.network().get_pkts(arrival).is_empty());
    assert!(sim.network().get_pkts(elem).is_empty());
    assert_eq!(sizes(&sim.network().get_pkts(departure)), vec![7]);
    sim.tick_all();
    assert!(sim.network().get_pkts(departure).is_empty());
    assert_eq!(*sim.stages(), vec![arrival, elem, departure]);
}

#[test]
fn simulation_refuses_a_network_that_is_not_ready() {
    let build = |next: Vec<usize>| {
        let mut net = Network::new();
        let sink = net.add(Element::Sink(Sink { coord: Coord(500, 0) }));
        let departure = net.add(Element::Transport(Transport::new(2, sink)));
        let wired: Vec<usize> = next.iter().map(|_| departure).collect();
        net.add(Element::Bottleneck(Bottleneck::new(Coord(0, 0), 4, vec![1], wired, true)));
        net
    };
    assert!(Simulation::new(build(vec![0]), vec![2, 1], 1).is_some());
    assert!(Simulation::new(build(vec![0]), vec![2, 1], 2).is_none());
    assert!(Simulation::new(build(vec![0, 0]), vec![2, 1], 2).is_some());
    assert!(Simulation::new(build(vec![]), vec![2, 1], 1).is_none());
    assert!(Simulation::new(build(vec![]), vec![2, 1], 0).is_some());
    assert!(Simulation::new(build(vec![0]), vec![3], 1).is_none());
    let mut held = build(vec![0]);
    held.enqueue(1, &pkt(1, 1));
    assert!(held.addrs_below(2));
    assert!(!held.addrs_below(1));
    assert!(held.serves_addrs(1));
    assert!(!held.serves_addrs(2));
    assert!(Simulation::new(held, vec![2, 1], 1).is_none());
}

#[test]
fn elements_report_what_they_hold_and_where_they_accept() {
    let mut link: Transport<usize> = Transport::new(3, 0);
    link.enqueue(&pkt(4, 0), Coord(1, 1));
    let link = Element::Transport(link);
    assert_eq!(sizes(&link.get_pkts()), vec![4]);
    let mut b = Bottleneck::new(Coord(100, 50), 2, vec![1], vec![0], false);
    b.enqueue(&pkt(5, 0));
    b.enqueue(&pkt(6, 0));
    b.enqueue(&pkt(7, 0));
    let b = Element::Bottleneck(b);
    assert_eq!(sizes(&b.get_pkts()), vec![5, 6]);
    assert_eq!((b.get_enqueue_coord().0, b.get_enqueue_coord().1), (75, 50));
    let acker = Element::Acker(Acker { rcv_coord: Coord(9, 8), snd_coord: Coord(7, 6), next: 0 });
    assert!(acker.get_pkts().is_empty());
    assert_eq!((acker.get_enqueue_coord().0, acker.get_enqueue_coord().1), (9, 8));
    let sink = Element::Sink(Sink { coord: Coord(3, 2) });
    assert!(sink.get_pkts().is_empty());
    assert_eq!((sink.get_enqueue_coord().0, sink.get_enqueue_coord().1), (3, 2));
}
