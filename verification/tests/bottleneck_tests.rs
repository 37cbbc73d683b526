use pathsim::base::{Coord, Packet};
use pathsim::bottleneck::{Bottleneck, DROP_DELAY};
use plotters::style::{ShapeStyle, RED};

fn pkt(size: u64, addr: u16) -> Packet {
    Packet { size, coord: Coord(-25, 0), addr, style: ShapeStyle::from(RED).filled() }
}

fn sizes(pkts: &[Packet]) -> Vec<u64> {
    pkts.iter().map(|p| p.size).collect()
}

fn bottleneck(capacity: u64, schedule: Vec<u64>) -> Bottleneck {
    Bottleneck::new(Coord(0, 0), capacity, schedule, vec![0], true)
}

#[test]
fn third_arrival_of_a_burst_is_dropped_and_the_others_leave_three_ticks_apart() {
    let mut b = bottleneck(2, vec![3]);
    b.enqueue(&pkt(1, 0));
    b.enqueue(&pkt(2, 0));
    b.enqueue(&pkt(3, 0));
    assert_eq!(sizes(&b.get_pkts()), vec![1, 2]);
    assert_eq!(sizes(&b.dropper().get_pkts()), vec![3]);
    let mut departures: Vec<(u64, u64)> = Vec::new();
    for tick in 1..=40u64 {
        if let Some(p) = b.tick() {
            departures.push((p.size, tick));
        }
    }
    assert_eq!(departures, vec![(1, 3), (2, 6)]);
    assert!(b.get_pkts().is_empty());
    assert!(b.dropper().get_pkts().is_empty());
}

#[test]
fn service_time_zero_sends_every_arrival_off_on_the_next_tick() {
    let mut b = bottleneck(1, vec![0]);
    for tick in 0..50u64 {
        b.enqueue(&pkt(tick, 0));
        assert_eq!(sizes(&b.get_pkts()), vec![tick]);
        assert!(b.dropper().get_pkts().is_empty());
        let out = b.tick();
        assert_eq!(out.map(|p| p.size), Some(tick));
        assert!(b.get_pkts().is_empty());
    }
}

#[test]
fn zero_capacity_drops_every_arrival() {
    let mut b = bottleneck(0, vec![1]);
    for i in 0..5 {
        b.enqueue(&pkt(i, 0));
        assert!(b.get_pkts().is_empty());
    }
    assert_eq!(sizes(&b.dropper().get_pkts()), vec![0, 1, 2, 3, 4]);
    for _ in 0..40 {
        assert!(b.tick().is_none());
    }
    assert!(b.dropper().get_pkts().is_empty());
}

#[test]
fn queue_never_exceeds_capacity() {
    let mut b = bottleneck(3, vec![4]);
    let mut dropped = 0;
    let mut departed = 0;
    for tick in 0..100u64 {
        b.enqueue(&pkt(tick, 0));
        assert!(b.get_pkts().len() <= 3);
        if tick % 2 == 0 {
            b.enqueue(&pkt(1000 + tick, 0));
            assert!(b.get_pkts().len() <= 3);
        }
        let before = b.dropper().get_pkts().len();
        if b.tick().is_some() {
            departed += 1;
        }
        assert!(b.get_pkts().len() <= 3);
        dropped += before;
    }
    assert_eq!(departed, 25);
    assert!(dropped > 0);
}

#[test]
fn full_queue_is_untouched_by_an_arrival() {
    let mut b = bottleneck(3, vec![100]);
    for i in 1..=3 {
        b.enqueue(&pkt(i, 0));
    }
    b.enqueue(&pkt(4, 0));
    b.enqueue(&pkt(5, 0));
    assert_eq!(sizes(&b.get_pkts()), vec![1, 2, 3]);
    let drops = b.dropper().flights();
    assert_eq!(drops.len(), 2);
    assert_eq!((drops[0].pkt.size, drops[0].elapsed), (4, 0));
    assert_eq!((drops[1].pkt.size, drops[1].elapsed), (5, 0));
    assert_eq!((drops[0].target.0, drops[0].target.1), (-25, -500));
}

#[test]
fn packets_leave_in_the_order_of_acceptance() {
    let mut b = bottleneck(4, vec![2]);
    let mut accepted: Vec<u64> = Vec::new();
    let mut departed: Vec<u64> = Vec::new();
    for tick in 0..60u64 {
        let room = b.get_pkts().len() < 4;
        b.enqueue(&pkt(tick, 0));
        if room {
            accepted.push(tick);
        }
        if let Some(p) = b.tick() {
            departed.push(p.size);
        }
    }
    let waiting = sizes(&b.get_pkts());
    let mut all = departed.clone();
    all.extend(waiting);
    assert_eq!(all, accepted);
    assert_eq!(departed.len(), 30);
}

#[test]
fn schedule_is_used_round_and_round() {
    let mut b = bottleneck(10, vec![2, 0, 1]);
    for i in 0..6 {
        b.enqueue(&pkt(i, 0));
    }
    let mut departures: Vec<(u64, u64)> = Vec::new();
    for tick in 1..=12u64 {
        if let Some(p) = b.tick() {
            departures.push((p.size, tick));
        }
    }
    assert_eq!(departures, vec![(0, 2), (1, 3), (2, 4), (3, 6), (4, 7), (5, 8)]);
}

#[test]
fn overdue_server_sends_the_next_arrival_off_at_once() {
    let mut b = bottleneck(5, vec![10]);
    for _ in 0..20 {
        assert!(b.tick().is_none());
    }
    b.enqueue(&pkt(1, 0));
    assert_eq!(b.tick().map(|p| p.size), Some(1));
    b.enqueue(&pkt(2, 0));
    for _ in 0..9 {
        assert!(b.tick().is_none());
    }
    assert_eq!(b.tick().map(|p| p.size), Some(2));
}

#[test]
fn dropped_packet_vanishes_after_the_drop_delay() {
    let mut b = bottleneck(0, vec![1]);
    b.enqueue(&pkt(9, 0));
    for _ in 1..DROP_DELAY {
        b.tick();
        assert_eq!(b.dropper().get_pkts().len(), 1);
    }
    b.tick();
    assert!(b.dropper().get_pkts().is_empty());
}

#[test]
fn departing_packet_is_handed_on_unchanged() {
    let mut b = bottleneck(2, vec![1]);
    let sent = Packet { size: 25, coord: Coord(-25, 0), addr: 0, style: ShapeStyle::from(RED).filled() };
    b.enqueue(&sent);
    let out = b.tick().unwrap();
    assert_eq!((out.size, out.addr, out.coord.0, out.coord.1), (25, 0, -25, 0));
    assert!(out.style == sent.style);
}

#[test]
fn new_bottleneck_is_at_rest() {
    let b = Bottleneck::new(Coord(200, -300), 8, vec![10, 5], vec![4, 6], false);
    assert!(b.get_pkts().is_empty());
    assert!(b.dropper().get_pkts().is_empty());
    assert_eq!(b.dropper().delay(), 16);
    assert_eq!(b.bufsize(), 8);
    assert!(!b.dir());
    assert_eq!((b.coord().0, b.coord().1), (200, -300));
    assert_eq!(*b.next(), vec![4, 6]);
    let at = b.get_enqueue_coord();
    assert_eq!((at.0, at.1), (175, -300));
    let grave = b.dropper().next().coord;
    assert_eq!((grave.0, grave.1), (175, -800));
}

#[test]
fn next_can_be_set_after_construction() {
    let mut b = Bottleneck::new(Coord(0, 0), 2, vec![1], vec![], true);
    b.enqueue(&pkt(1, 1));
    assert!(!b.routable());
    b.set_next(vec![7, 9]);
    assert!(b.routable());
    assert_eq!(b.route(0), 7);
    assert_eq!(b.route(1), 9);
    assert_eq!(sizes(&b.get_pkts()), vec![1]);
}

#[test]
fn routable_looks_at_the_head_only_when_it_is_about_to_leave() {
    let mut b = Bottleneck::new(Coord(0, 0), 2, vec![3], vec![5], true);
    assert!(b.routable());
    b.enqueue(&pkt(1, 4));
    assert!(b.routable());
    assert!(b.tick().is_none());
    assert!(b.routable());
    assert!(b.tick().is_none());
    assert!(!b.routable());
}
