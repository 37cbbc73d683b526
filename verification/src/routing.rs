//! Why a network that is wired for its packets can always be ticked:
//! packets keep their address wherever they go, and elements keep their
//! wiring whatever they are handed.
use crate::base::Packet;
use crate::element::{Element, Node};
use crate::network::{
    lemma_enqueue_wf, lemma_same_wiring_refl, lemma_same_wiring_trans, same_kind, Network, Topology,
};
use crate::service::{lemma_step_wf, Event};
use crate::transport::{is_due, is_under_way, lemma_line_tick_wf, Line};
use vstd::prelude::*;

verus! {

/// Whether every packet in `pkts` bears an address below `k`.
pub open spec fn addrs_below(pkts: Seq<Packet>, k: nat) -> bool {
    forall|i: int| 0 <= i < pkts.len() ==> (#[trigger] pkts[i]).addr < k
}

/// How many downstream elements a bottleneck can address; any number for
/// the other elements, which do not route by address.
pub open spec fn serves_addrs(node: Node, k: nat) -> bool {
    node matches Node::Bottleneck(b) ==> b.next.len() >= k
}

impl Topology {
    /// Whether every packet that an element holds bears an address below `k`.
    pub open spec fn addrs_below(self, k: nat) -> bool {
        forall|h: int| 0 <= h < self.nodes.len() ==> addrs_below((#[trigger] self.nodes[h]).pkts(), k)
    }

    /// Whether every bottleneck has a downstream element for each address
    /// below `k`.
    pub open spec fn serves_addrs(self, k: nat) -> bool {
        forall|h: int| 0 <= h < self.nodes.len() ==> serves_addrs(#[trigger] self.nodes[h], k)
    }
}

/// Where every bottleneck serves the addresses below `k` and every packet
/// bears such an address, every element can be ticked.
pub proof fn lemma_routable(net: Topology, h: int, k: nat)
    requires
        0 <= h < net.nodes.len(),
        net.addrs_below(k),
        net.serves_addrs(k),
    ensures
        net.routable(h),
{
    match net.nodes[h] {
        Node::Bottleneck(b) => {
            assert(serves_addrs(net.nodes[h], k));
            if b.serves() {
                assert(net.nodes[h].pkts()[0].addr < k);
            }
        },
        _ => {},
    }
}

/// Networks with the same wiring serve the same addresses.
pub proof fn lemma_same_wiring_serves(net: Topology, other: Topology, k: nat)
    requires
        net.same_wiring(other),
        other.serves_addrs(k),
    ensures
        net.serves_addrs(k),
{
    assert forall|h: int| 0 <= h < net.nodes.len() implies serves_addrs(#[trigger] net.nodes[h], k) by {
        assert(same_kind(net.nodes[h], other.nodes[h]));
        assert(serves_addrs(other.nodes[h], k));
    }
}

/// A tick of a link neither invents packets nor changes an address.
pub proof fn lemma_line_tick_addrs(line: Line, k: nat)
    requires
        addrs_below(line.pkts(), k),
    ensures
        addrs_below(line.tick().pkts(), k),
        addrs_below(line.delivered(), k),
{
    let kept = line.flights.filter(is_under_way(line.delay));
    let gone = line.flights.filter(is_due(line.delay));
    assert forall|i: int| 0 <= i < line.tick().pkts().len() implies (#[trigger] line.tick().pkts()[i]).addr < k by {
        line.flights.lemma_filter_contains_rev(is_under_way(line.delay), kept[i]);
        let j = choose|j: int| 0 <= j < line.flights.len() && line.flights[j] == kept[i];
        assert(line.pkts()[j].addr < k);
    }
    assert forall|i: int| 0 <= i < line.delivered().len() implies (#[trigger] line.delivered()[i]).addr < k by {
        line.flights.lemma_filter_contains_rev(is_due(line.delay), gone[i]);
        let j = choose|j: int| 0 <= j < line.flights.len() && line.flights[j] == gone[i];
        assert(line.pkts()[j].addr < k);
    }
}

/// Handing a network a packet with an address below `k` leaves no packet
/// with another address in it.
pub proof fn lemma_enqueue_addrs(net: Topology, h: int, pkt: Packet, k: nat)
    requires
        net.addrs_below(k),
        pkt.addr < k,
    ensures
        net.enqueue(h, pkt).addrs_below(k),
    decreases h,
{
    if 0 <= h < net.nodes.len() {
        let after = net.enqueue(h, pkt);
        match net.nodes[h] {
            Node::Sink(_) => {},
            Node::Transport { line, next } => {
                assert forall|g: int| 0 <= g < after.nodes.len() implies addrs_below(
                    (#[trigger] after.nodes[g]).pkts(),
                    k,
                ) by {
                    assert(addrs_below(net.nodes[g].pkts(), k));
                    if g == h {
                        assert(after.nodes[g].pkts() == net.nodes[g].pkts().push(pkt));
                    }
                }
            },
            Node::Bottleneck(b) => {
                assert forall|g: int| 0 <= g < after.nodes.len() implies addrs_below(
                    (#[trigger] after.nodes[g]).pkts(),
                    k,
                ) by {
                    assert(addrs_below(net.nodes[g].pkts(), k));
                }
            },
            Node::Acker(a) => {
                if a.next < h {
                    lemma_enqueue_addrs(net, a.next as int, a.ack(pkt), k);
                }
            },
        }
    }
}

/// Handing a network a run of packets keeps it valid and its wiring as it is.
pub proof fn lemma_enqueue_all_wf(net: Topology, h: int, pkts: Seq<Packet>)
    requires
        net.wf(),
    ensures
        net.enqueue_all(h, pkts).wf(),
        net.enqueue_all(h, pkts).same_wiring(net),
    decreases pkts.len(),
{
    if pkts.len() > 0 {
        let mid = net.enqueue_all(h, pkts.drop_last());
        lemma_enqueue_all_wf(net, h, pkts.drop_last());
        lemma_enqueue_wf(mid, h, pkts.last());
        lemma_same_wiring_trans(net.enqueue_all(h, pkts), mid, net);
    } else {
        lemma_same_wiring_refl(net);
    }
}

/// Handing a network packets with addresses below `k` leaves no packet
/// with another address in it.
pub proof fn lemma_enqueue_all_addrs(net: Topology, h: int, pkts: Seq<Packet>, k: nat)
    requires
        net.addrs_below(k),
        addrs_below(pkts, k),
    ensures
        net.enqueue_all(h, pkts).addrs_below(k),
    decreases pkts.len(),
{
    if pkts.len() > 0 {
        assert(addrs_below(pkts.drop_last(), k)) by {
            assert forall|i: int| 0 <= i < pkts.drop_last().len() implies (#[trigger] pkts.drop_last()[i]).addr < k by {
                assert(pkts.drop_last()[i] == pkts[i]);
            }
        }
        lemma_enqueue_all_addrs(net, h, pkts.drop_last(), k);
        lemma_enqueue_addrs(net.enqueue_all(h, pkts.drop_last()), h, pkts.last(), k);
    }
}

/// A tick keeps a network valid and its wiring as it is.
pub proof fn lemma_tick_wf(net: Topology, h: int)
    requires
        net.wf(),
        0 <= h < net.nodes.len(),
    ensures
        net.tick(h).wf(),
        net.tick(h).same_wiring(net),
{
    assert(net.node_ok(h));
    lemma_same_wiring_refl(net);
    match net.nodes[h] {
        Node::Sink(_) => {},
        Node::Transport { line, next } => {
            let ticked = net.with(h, Node::Transport { line: line.tick(), next });
            lemma_line_tick_wf(line);
            assert forall|g: int| 0 <= g < ticked.nodes.len() implies #[trigger] ticked.node_ok(g) by {
                assert(net.node_ok(g));
            }
            lemma_enqueue_all_wf(ticked, next as int, line.delivered());
            let after = net.tick(h);
            assert forall|g: int| 0 <= g < after.nodes.len() implies same_kind(#[trigger] after.nodes[g], net.nodes[g]) by {
                assert(same_kind(after.nodes[g], ticked.nodes[g]));
            }
        },
        Node::Bottleneck(b) => {
            let ticked = net.with(h, Node::Bottleneck(b.tick()));
            lemma_step_wf(b, Event::Tick);
            assert forall|g: int| 0 <= g < ticked.nodes.len() implies #[trigger] ticked.node_ok(g) by {
                assert(net.node_ok(g));
            }
            match b.departure() {
                Some(pkt) => {
                    let to = b.next[pkt.addr as int] as int;
                    lemma_enqueue_wf(ticked, to, pkt);
                    let after = net.tick(h);
                    assert forall|g: int| 0 <= g < after.nodes.len() implies same_kind(
                        #[trigger] after.nodes[g],
                        net.nodes[g],
                    ) by {
                        assert(same_kind(after.nodes[g], ticked.nodes[g]));
                    }
                },
                None => {},
            }
        },
        Node::Acker(_) => {},
    }
}

/// A tick leaves no packet with an address of `k` or above in a network
/// that held none.
pub proof fn lemma_tick_addrs(net: Topology, h: int, k: nat)
    requires
        0 <= h < net.nodes.len(),
        net.addrs_below(k),
    ensures
        net.tick(h).addrs_below(k),
{
    assert(addrs_below(net.nodes[h].pkts(), k));
    match net.nodes[h] {
        Node::Sink(_) => {},
        Node::Transport { line, next } => {
            let ticked = net.with(h, Node::Transport { line: line.tick(), next });
            lemma_line_tick_addrs(line, k);
            assert forall|g: int| 0 <= g < ticked.nodes.len() implies addrs_below(
                (#[trigger] ticked.nodes[g]).pkts(),
                k,
            ) by {
                assert(addrs_below(net.nodes[g].pkts(), k));
            }
            lemma_enqueue_all_addrs(ticked, next as int, line.delivered(), k);
        },
        Node::Bottleneck(b) => {
            let ticked = net.with(h, Node::Bottleneck(b.tick()));
            assert forall|g: int| 0 <= g < ticked.nodes.len() implies addrs_below(
                (#[trigger] ticked.nodes[g]).pkts(),
                k,
            ) by {
                assert(addrs_below(net.nodes[g].pkts(), k));
                if g == h && b.serves() {
                    assert forall|i: int| 0 <= i < b.queue.drop_first().len() implies (
                    #[trigger] b.queue.drop_first()[i]).addr < k by {
                        assert(b.queue.drop_first()[i] == b.queue[i + 1]);
                    }
                }
            }
            match b.departure() {
                Some(pkt) => {
                    assert(pkt == b.queue[0]);
                    lemma_enqueue_addrs(ticked, b.next[pkt.addr as int] as int, pkt, k);
                },
                None => {},
            }
        },
        Node::Acker(_) => {},
    }
}

} // verus!

verus! {

/// Whether every packet in `pkts` bears an address below `k`.
pub fn all_addrs_below(pkts: &Vec<Packet>, k: usize) -> (ok: bool)
    ensures
        ok == addrs_below(pkts@, k as nat),
{
    let mut i: usize = 0;
    while i < pkts.len()
        invariant
            i <= pkts.len(),
            forall|j: int| 0 <= j < i ==> (#[trigger] pkts@[j]).addr < k,
        decreases pkts.len() - i,
    {
        if pkts[i].addr as usize >= k {
            return false;
        }
        i += 1;
    }
    true
}

impl Network {
    /// Whether every packet that an element holds bears an address below `k`.
    pub fn addrs_below(&self, k: usize) -> (ok: bool)
        ensures
            ok == self@.addrs_below(k as nat),
    {
        let mut h: usize = 0;
        while h < self.len()
            invariant
                h <= self@.nodes.len(),
                forall|g: int| 0 <= g < h ==> addrs_below((#[trigger] self@.nodes[g]).pkts(), k as nat),
            decreases self@.nodes.len() - h,
        {
            let held = self.get_pkts(h);
            if !all_addrs_below(&held, k) {
                return false;
            }
            h += 1;
        }
        true
    }

    /// Whether every bottleneck has a downstream element for each address
    /// below `k`.
    pub fn serves_addrs(&self, k: usize) -> (ok: bool)
        ensures
            ok == self@.serves_addrs(k as nat),
    {
        let mut h: usize = 0;
        while h < self.len()
            invariant
                h <= self@.nodes.len(),
                forall|g: int| 0 <= g < h ==> serves_addrs(#[trigger] self@.nodes[g], k as nat),
            decreases self@.nodes.len() - h,
        {
            let enough = match self.get(h) {
                Element::Bottleneck(b) => b.next().len() >= k,
                _ => true,
            };
            if !enough {
                assert(!serves_addrs(self@.nodes[h as int], k as nat));
                return false;
            }
            h += 1;
        }
        true
    }
}

} // verus!
