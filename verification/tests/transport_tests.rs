use pathsim::base::{Coord, Packet};
use pathsim::transport::Transport;
use plotters::style::{ShapeStyle, BLUE, RED};

fn pkt(size: u64, addr: u16) -> Packet {
    Packet { size, coord: Coord(-1000, 0), addr, style: ShapeStyle::from(RED).filled() }
}

#[test]
fn link_of_delay_five_delivers_on_the_fifth_tick() {
    let mut link: Transport<usize> = Transport::new(5, 0);
    link.enqueue(&pkt(25, 0), Coord(500, 0));
    let mut calls = 0;
    for tick in 1..=4 {
        let out = link.tick();
        calls += out.len();
        assert!(out.is_empty(), "nothing may leave at tick {}", tick);
        assert_eq!(link.get_pkts().len(), 1);
    }
    let out = link.tick();
    calls += out.len();
    assert_eq!(out.len(), 1);
    for _ in 6..=20 {
        calls += link.tick().len();
    }
    assert_eq!(calls, 1);
    assert!(link.get_pkts().is_empty());
}

#[test]
fn delivered_packet_is_placed_at_the_target() {
    let mut link: Transport<usize> = Transport::new(2, 7);
    let sent = Packet { size: 40, coord: Coord(-300, 150), addr: 3, style: ShapeStyle::from(BLUE) };
    link.enqueue(&sent, Coord(900, -300));
    assert!(link.tick().is_empty());
    let out = link.tick();
    assert_eq!(out.len(), 1);
    assert_eq!(out[0].size, 40);
    assert_eq!(out[0].addr, 3);
    assert_eq!((out[0].coord.0, out[0].coord.1), (900, -300));
    assert!(out[0].style == ShapeStyle::from(BLUE));
}

#[test]
fn link_of_delay_one_delivers_on_the_next_tick() {
    let mut link: Transport<usize> = Transport::new(1, 0);
    link.enqueue(&pkt(25, 0), Coord(0, 0));
    assert_eq!(link.tick().len(), 1);
    assert!(link.tick().is_empty());
}

#[test]
fn packets_of_one_tick_leave_together_in_order() {
    let mut link: Transport<usize> = Transport::new(3, 0);
    link.enqueue(&pkt(1, 0), Coord(0, 0));
    link.enqueue(&pkt(2, 0), Coord(0, 0));
    link.enqueue(&pkt(3, 0), Coord(0, 0));
    assert!(link.tick().is_empty());
    assert!(link.tick().is_empty());
    let out = link.tick();
    let sizes: Vec<u64> = out.iter().map(|p| p.size).collect();
    assert_eq!(sizes, vec![1, 2, 3]);
    assert!(link.get_pkts().is_empty());
}

#[test]
fn each_packet_leaves_delay_ticks_after_it_entered() {
    let delay = 4;
    let mut link: Transport<usize> = Transport::new(delay, 0);
    let mut left_at: Vec<(u64, u64)> = Vec::new();
    for tick in 0..30u64 {
        if tick % 3 == 0 {
            link.enqueue(&pkt(tick, 0), Coord(0, 0));
        }
        for p in link.tick() {
            left_at.push((p.size, tick + 1));
        }
    }
    assert_eq!(left_at.len(), 9);
    for (entered, left) in left_at {
        assert_eq!(left, entered + delay);
    }
}

#[test]
fn link_takes_any_load() {
    let mut link: Transport<usize> = Transport::new(16, 0);
    for i in 0..1000 {
        link.enqueue(&pkt(i, 0), Coord(0, 0));
    }
    assert_eq!(link.get_pkts().len(), 1000);
    assert_eq!(link.flights().len(), 1000);
}

#[test]
fn flights_count_their_ticks() {
    let mut link: Transport<usize> = Transport::new(10, 4);
    link.enqueue(&pkt(25, 0), Coord(100, 0));
    assert_eq!(link.flights()[0].elapsed, 0);
    link.tick();
    link.tick();
    link.enqueue(&pkt(26, 0), Coord(200, 0));
    link.tick();
    let flights = link.flights();
    assert_eq!(flights.len(), 2);
    assert_eq!((flights[0].pkt.size, flights[0].elapsed, flights[0].target.0), (25, 3, 100));
    assert_eq!((flights[1].pkt.size, flights[1].elapsed, flights[1].target.0), (26, 1, 200));
    assert_eq!((flights[0].pkt.coord.0, flights[0].pkt.coord.1), (-1000, 0));
    assert_eq!(link.delay(), 10);
    assert_eq!(*link.next(), 4);
}

#[test]
fn downstream_element_can_be_reached_through_the_link() {
    let mut link: Transport<Vec<u64>> = Transport::new(1, Vec::new());
    link.enqueue(&pkt(5, 0), Coord(0, 0));
    link.enqueue(&pkt(6, 0), Coord(0, 0));
    for p in link.tick() {
        link.next_mut().push(p.size);
    }
    assert_eq!(*link.next(), vec![5, 6]);
    assert!(link.get_pkts().is_empty());
}
