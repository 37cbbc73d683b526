use pathsim::base::{Coord, ACK_PKT_WIDTH, DATA_PKT_WIDTH, PKT_HEIGHT};
use pathsim::element::Element;
use pathsim::elem_anim::{ElemAnim, ElemAnimConfig};
use pathsim::fair_anim::{FairAnim, FairAnimConfig};
use pathsim::path_anim::{PathAnim, PathAnimConfig};
use pathsim::sender::{count, is_due};
use pathsim::two_bottlenecks_anim::{TwoBottlenecksAnim, TwoBottlenecksAnimConfig};
use plotters::style::{RGBAColor, ShapeStyle, GREEN, RED};

fn elem_config(bottleneck: Vec<u64>, sender: Vec<u64>) -> ElemAnimConfig {
    ElemAnimConfig {
        filename: String::from("elem.gif"),
        bufsize: 8,
        bottleneck_intersend: bottleneck,
        sender_intersend: sender,
        num_ticks: 640,
    }
}

#[test]
fn coordinates_add_and_subtract_by_component() {
    let sum = Coord(100, -300).add(Coord(25, 500));
    assert_eq!((sum.0, sum.1), (125, 200));
    let diff = Coord(100, -300).sub(Coord(25, 500));
    assert_eq!((diff.0, diff.1), (75, -800));
    assert_eq!((PKT_HEIGHT, DATA_PKT_WIDTH, ACK_PKT_WIDTH), (150, 25, 10));
}

#[test]
fn sender_rule_on_chosen_ticks() {
    assert!(is_due(0, 0, 10, 0, 0));
    assert!(is_due(20, 0, 10, 9, 4));
    assert!(!is_due(3, 0, 10, 0, 4));
    assert!(is_due(5, 0, 10, 1, 4));
    assert!(!is_due(5, 0, 10, 4, 4));
    assert!(is_due(5, 5, 10, 4, 4));
    assert!(is_due(10, 5, 10, 3, 4));
    assert!(!is_due(10, 5, 10, 4, 4));
    assert!(is_due(7, 0, 1, 0, 0));
    assert!(is_due(u64::MAX, 1, 2, 0, 0));
    assert!(is_due(u64::MAX, u64::MAX, 2, 0, 0));
    assert!(!is_due(u64::MAX, 0, 2, 0, 0));
    assert!(is_due(4, 0, 3, 0, 1));
    assert_eq!(count(0), 1);
    assert_eq!(count(u64::MAX - 1), u64::MAX);
    assert_eq!(count(u64::MAX), u64::MAX);
}

#[test]
fn single_element_path_starts_at_rest() {
    let anim = ElemAnim::new(&elem_config(vec![10, 5], vec![10]));
    let net = anim.simulation().network();
    assert_eq!(net.len(), 4);
    for h in 0..4 {
        assert!(net.get_pkts(h).is_empty());
    }
    assert_eq!(*anim.simulation().stages(), vec![3, 2, 1]);
    match net.get(2) {
        Element::Bottleneck(b) => {
            assert_eq!(b.bufsize(), 8);
            assert_eq!(*b.next(), vec![1]);
            assert!(b.dir());
            assert_eq!((b.coord().0, b.coord().1), (0, 0));
        }
        _ => panic!("no bottleneck at its handle"),
    }
    match net.get(3) {
        Element::Transport(t) => assert_eq!((t.delay(), *t.next()), (16, 2)),
        _ => panic!("no link at its handle"),
    }
    match net.get(0) {
        Element::Sink(s) => assert_eq!((s.coord.0, s.coord.1), (500, 0)),
        _ => panic!("no sink at its handle"),
    }
}

#[test]
fn single_element_sender_waits_out_its_gap() {
    let mut anim = ElemAnim::new(&elem_config(vec![10], vec![10]));
    for _ in 0..10 {
        anim.step();
    }
    for h in 0..4 {
        assert!(anim.simulation().network().get_pkts(h).is_empty());
    }
    anim.step();
    let held = anim.simulation().network().get_pkts(3);
    assert_eq!(held.len(), 1);
    assert_eq!((held[0].size, held[0].addr, held[0].coord.0, held[0].coord.1), (25, 0, -500, 0));
    assert!(held[0].style == ShapeStyle { color: RGBAColor(255, 0, 0, 1.0), filled: true, stroke_width: 1 });
    assert!(held[0].style == ShapeStyle::from(RED).filled());
    for _ in 11..26 {
        anim.step();
    }
    let net = anim.simulation().network();
    assert_eq!(net.get_pkts(3).len(), 1);
    assert!(net.get_pkts(2).is_empty());
    assert_eq!(net.get_pkts(1).len(), 1);
    let carried = net.get_pkts(1);
    assert_eq!((carried[0].coord.0, carried[0].coord.1), (-25, 0));
}

#[test]
fn single_element_sender_cycles_through_its_gaps() {
    let mut anim = ElemAnim::new(&elem_config(vec![10], vec![2, 5]));
    for _ in 0..10 {
        anim.step();
    }
    match anim.simulation().network().get(3) {
        Element::Transport(t) => {
            let elapsed: Vec<u64> = t.flights().iter().map(|f| f.elapsed).collect();
            assert_eq!(elapsed, vec![8, 3, 1]);
        }
        _ => panic!("no link at its handle"),
    }
}

#[test]
fn single_element_stages_tick_one_element_each() {
    let mut anim = ElemAnim::new(&elem_config(vec![0], vec![0]));
    anim.produce();
    assert_eq!(anim.simulation().network().get_pkts(3).len(), 1);
    for _ in 0..15 {
        anim.tick(0);
    }
    assert_eq!(anim.simulation().network().get_pkts(3).len(), 1);
    anim.tick(0);
    assert!(anim.simulation().network().get_pkts(3).is_empty());
    assert_eq!(anim.simulation().network().get_pkts(2).len(), 1);
    anim.tick(2);
    assert_eq!(anim.simulation().network().get_pkts(2).len(), 1);
    anim.tick(1);
    assert!(anim.simulation().network().get_pkts(2).is_empty());
    assert_eq!(anim.simulation().network().get_pkts(1).len(), 1);
}

fn path_config() -> PathAnimConfig {
    PathAnimConfig {
        filename: String::from("path.gif"),
        bufsize: 8,
        bottleneck_intersend: 10,
        sender_intersend: 10,
        num_extra_packets: 4,
        num_ticks: 640,
    }
}

#[test]
fn full_path_is_wired_from_sender_to_sink() {
    let anim = PathAnim::new(&path_config());
    let net = anim.simulation().network();
    assert_eq!(net.len(), 8);
    assert_eq!(*anim.simulation().stages(), vec![7, 6, 5, 4, 3, 2, 1]);
    match net.get(2) {
        Element::Bottleneck(b) => {
            assert_eq!((b.coord().0, b.coord().1), (200, -300));
            assert!(!b.dir());
            assert_eq!(*b.next(), vec![1]);
        }
        _ => panic!("no bottleneck at its handle"),
    }
    match net.get(4) {
        Element::Acker(a) => assert_eq!((a.rcv_coord.0, a.snd_coord.1, a.next), (900, -300, 3)),
        _ => panic!("no acker at its handle"),
    }
    match net.get(7) {
        Element::Transport(t) => assert_eq!((t.delay(), *t.next()), (32, 6)),
        _ => panic!("no link at its handle"),
    }
}

#[test]
fn full_path_sender_doubles_its_rate_for_the_extra_packets() {
    let mut anim = PathAnim::new(&path_config());
    for tick in 0..26 {
        anim.step(tick);
    }
    match anim.simulation().network().get(7) {
        Element::Transport(t) => {
            let elapsed: Vec<u64> = t.flights().iter().map(|f| f.elapsed).collect();
            assert_eq!(elapsed, vec![26, 21, 16, 11, 6]);
        }
        _ => panic!("no link at its handle"),
    }
}

#[test]
fn full_path_returns_an_acknowledgment() {
    let mut anim = PathAnim::new(&path_config());
    for tick in 0..47 {
        anim.step(tick);
    }
    let net = anim.simulation().network();
    assert_eq!(net.get_pkts(7).len(), 3);
    assert_eq!(net.get_pkts(6).len(), 2);
    assert_eq!(net.get_pkts(5).len(), 1);
    assert!(net.get_pkts(4).is_empty());
    let acks = net.get_pkts(3);
    assert_eq!(acks.len(), 1);
    assert_eq!((acks[0].size, acks[0].coord.0, acks[0].coord.1), (10, 900, -300));
    assert!(acks[0].style == ShapeStyle::from(RED).filled());
    assert!(net.get_pkts(2).is_empty());
    assert!(net.get_pkts(1).is_empty());
}

fn fair_config() -> FairAnimConfig {
    FairAnimConfig {
        filename: String::from("fair.gif"),
        bufsize: 8,
        bottleneck_intersend: 5,
        sender_intersend: 10,
        num_extra_packets: 8,
        num_ticks: 640,
    }
}

#[test]
fn shared_bottlenecks_are_wired_to_both_flows() {
    let anim = FairAnim::new(&fair_config());
    let net = anim.simulation().network();
    assert_eq!(net.len(), 14);
    assert_eq!(*anim.simulation().stages(), vec![7, 13, 1, 0, 5, 6, 4, 3, 12, 11, 10, 9]);
    match net.get(0) {
        Element::Bottleneck(b) => {
            assert_eq!(*b.next(), vec![3, 9]);
            assert_eq!((b.coord().0, b.coord().1), (200, -300));
        }
        _ => panic!("no bottleneck at its handle"),
    }
    match net.get(1) {
        Element::Bottleneck(b) => assert_eq!(*b.next(), vec![6, 12]),
        _ => panic!("no bottleneck at its handle"),
    }
    match net.get(5) {
        Element::Acker(a) => assert_eq!((a.rcv_coord.1, a.snd_coord.1, a.next), (1950, 1650, 4)),
        _ => panic!("no acker at its handle"),
    }
    match net.get(11) {
        Element::Acker(a) => assert_eq!((a.rcv_coord.1, a.snd_coord.1, a.next), (-1950, -2250, 10)),
        _ => panic!("no acker at its handle"),
    }
}

#[test]
fn two_senders_alternate_and_count_together() {
    let mut anim = FairAnim::new(&fair_config());
    for tick in 0..26 {
        anim.step(tick);
    }
    let net = anim.simulation().network();
    let a = net.get_pkts(7);
    let b = net.get_pkts(13);
    assert_eq!(a.len(), 5);
    assert_eq!(b.len(), 5);
    assert!(a.iter().all(|p| p.addr == 0 && p.coord.1 == 1950 && p.style == ShapeStyle::from(RED).filled()));
    assert!(b.iter().all(|p| p.addr == 1 && p.coord.1 == -1950 && p.style == ShapeStyle::from(GREEN).filled()));
    match net.get(7) {
        Element::Transport(t) => {
            let elapsed: Vec<u64> = t.flights().iter().map(|f| f.elapsed).collect();
            assert_eq!(elapsed, vec![26, 21, 16, 11, 6]);
        }
        _ => panic!("no link at its handle"),
    }
    match net.get(13) {
        Element::Transport(t) => {
            let elapsed: Vec<u64> = t.flights().iter().map(|f| f.elapsed).collect();
            assert_eq!(elapsed, vec![26, 21, 16, 11, 1]);
        }
        _ => panic!("no link at its handle"),
    }
}

#[test]
fn shared_bottleneck_sends_each_flow_its_own_way() {
    let mut anim = FairAnim::new(&fair_config());
    for tick in 0..37 {
        anim.step(tick);
    }
    let net = anim.simulation().network();
    let up = net.get_pkts(6);
    let down = net.get_pkts(12);
    assert_eq!(up.len(), 1);
    assert_eq!(down.len(), 1);
    assert_eq!(up[0].addr, 0);
    assert_eq!(down[0].addr, 1);
    let queued: Vec<u16> = net.get_pkts(1).iter().map(|p| p.addr).collect();
    assert_eq!(queued, vec![0, 1]);
}

#[test]
fn senders_can_act_one_at_a_time() {
    let mut anim = FairAnim::new(&fair_config());
    anim.produce_b(0);
    assert!(anim.simulation().network().get_pkts(7).is_empty());
    assert_eq!(anim.simulation().network().get_pkts(13).len(), 1);
    anim.produce_a(3);
    assert!(anim.simulation().network().get_pkts(7).is_empty());
    anim.produce_a(10);
    assert_eq!(anim.simulation().network().get_pkts(7).len(), 1);
    anim.tick(0);
    match anim.simulation().network().get(7) {
        Element::Transport(t) => assert_eq!(t.flights()[0].elapsed, 1),
        _ => panic!("no link at its handle"),
    }
    match anim.simulation().network().get(13) {
        Element::Transport(t) => assert_eq!(t.flights()[0].elapsed, 0),
        _ => panic!("no link at its handle"),
    }
}

fn two_config() -> TwoBottlenecksAnimConfig {
    TwoBottlenecksAnimConfig {
        filename: String::from("two.gif"),
        bufsize1: 8,
        bufsize2: 4,
        bottleneck1_intersend: vec![10],
        bottleneck2_intersend: vec![0, 0, 30],
        sender_intersend: 10,
        num_extra_packets: 7,
        num_ticks: 640,
        draw_buffer: (true, false),
    }
}

#[test]
fn two_bottlenecks_stand_in_a_row() {
    let anim = TwoBottlenecksAnim::new(&two_config());
    let net = anim.simulation().network();
    assert_eq!(net.len(), 10);
    assert_eq!(*anim.simulation().stages(), vec![9, 8, 7, 6, 5, 4, 3, 2, 1]);
    match net.get(8) {
        Element::Bottleneck(b) => assert_eq!((b.coord().0, b.bufsize(), b.next()[0]), (-333, 8, 7)),
        _ => panic!("no bottleneck at its handle"),
    }
    match net.get(6) {
        Element::Bottleneck(b) => assert_eq!((b.coord().0, b.bufsize(), b.next()[0]), (333, 4, 5)),
        _ => panic!("no bottleneck at its handle"),
    }
    match net.get(2) {
        Element::Bottleneck(b) => assert_eq!((b.coord().0, b.coord().1, b.dir()), (-133, -300, false)),
        _ => panic!("no bottleneck at its handle"),
    }
}

#[test]
fn first_packet_passes_the_first_bottleneck_at_once() {
    let mut anim = TwoBottlenecksAnim::new(&two_config());
    for tick in 0..36 {
        anim.step(tick);
    }
    let net = anim.simulation().network();
    assert_eq!(net.get_pkts(9).len(), 6);
    assert!(net.get_pkts(8).is_empty());
    assert_eq!(net.get_pkts(7).len(), 1);
    anim.produce(36);
    assert_eq!(anim.simulation().network().get_pkts(9).len(), 6);
    anim.tick(0);
    assert_eq!(anim.simulation().network().get_pkts(8).len(), 1);
}
