//! Paths: elements wired to one another by handle.
use crate::base::{Coord, Packet};
use crate::bottleneck::{grave_of, Buffer};
use crate::element::{Element, Node};
use crate::transport::lemma_line_enqueue_wf;
use vstd::prelude::*;

verus! {

/// Whether every handle in `next` is below `n`.
pub open spec fn all_below(next: Seq<usize>, n: nat) -> bool {
    forall|a: int| 0 <= a < next.len() ==> (#[trigger] next[a]) < n
}

/// The mathematical model of a network: its elements in the order of their
/// handles.
pub struct Topology {
    pub nodes: Seq<Node>,
}

impl Topology {
    /// The network with `node` in place of the element at `h`.
    pub open spec fn with(self, h: int, node: Node) -> Topology {
        Topology { nodes: self.nodes.update(h, node) }
    }

    /// Whether the element at `h` is valid and wired to elements that exist:
    /// a link leads to an element that is no link (a link reports no place
    /// of arrival), an acker to an element made before it.
    pub open spec fn node_ok(self, h: int) -> bool {
        match self.nodes[h] {
            Node::Sink(_) => true,
            Node::Transport { line, next } => {
                &&& line.wf()
                &&& next < self.nodes.len()
                &&& !(self.nodes[next as int] is Transport)
            },
            Node::Bottleneck(b) => {
                &&& b.wf()
                &&& all_below(b.next, self.nodes.len())
            },
            Node::Acker(a) => a.next < h,
        }
    }

    /// Every element is valid and wired to elements that exist.
    pub open spec fn wf(self) -> bool {
        forall|h: int| 0 <= h < self.nodes.len() ==> #[trigger] self.node_ok(h)
    }

    /// Whether a new element may join: its downstream elements exist, and
    /// that of a link is no link.
    pub open spec fn admits(self, node: Node) -> bool {
        match node {
            Node::Sink(_) => true,
            Node::Transport { line, next } => {
                &&& next < self.nodes.len()
                &&& !(self.nodes[next as int] is Transport)
            },
            Node::Bottleneck(b) => all_below(b.next, self.nodes.len()),
            Node::Acker(a) => a.next < self.nodes.len(),
        }
    }

    /// The network after the element at `h` took `pkt`. A sink discards it;
    /// a link and a bottleneck keep it; an acker hands the acknowledgment
    /// on at once.
    pub open spec fn enqueue(self, h: int, pkt: Packet) -> Topology
        decreases h,
    {
        if 0 <= h < self.nodes.len() {
            match self.nodes[h] {
                Node::Sink(_) => self,
                Node::Transport { line, next } => self.with(
                    h,
                    Node::Transport { line: line.enqueue(pkt, self.nodes[next as int].intake()), next },
                ),
                Node::Bottleneck(b) => self.with(h, Node::Bottleneck(b.enqueue(pkt))),
                Node::Acker(a) => if a.next < h {
                    self.enqueue(a.next as int, a.ack(pkt))
                } else {
                    self
                },
            }
        } else {
            self
        }
    }

    /// The network after the element at `h` took `pkts`, first to last.
    pub open spec fn enqueue_all(self, h: int, pkts: Seq<Packet>) -> Topology
        decreases pkts.len(),
    {
        if pkts.len() == 0 {
            self
        } else {
            self.enqueue_all(h, pkts.drop_last()).enqueue(h, pkts.last())
        }
    }

    /// Whether the element at `h` can be ticked: a bottleneck that is about
    /// to send a packet off must have a downstream element at its address.
    pub open spec fn routable(self, h: int) -> bool {
        self.nodes[h] matches Node::Bottleneck(b) ==> b.routable()
    }

    /// The network after one tick of the element at `h`: whatever the
    /// element releases is taken by its downstream element within the tick.
    pub open spec fn tick(self, h: int) -> Topology {
        match self.nodes[h] {
            Node::Sink(_) => self,
            Node::Transport { line, next } => self.with(h, Node::Transport { line: line.tick(), next }).enqueue_all(
                next as int,
                line.delivered(),
            ),
            Node::Bottleneck(b) => match b.departure() {
                Some(pkt) => self.with(h, Node::Bottleneck(b.tick())).enqueue(b.next[pkt.addr as int] as int, pkt),
                None => self.with(h, Node::Bottleneck(b.tick())),
            },
            Node::Acker(_) => self,
        }
    }

    /// Whether two networks have the same elements wired the same way,
    /// whatever packets they hold.
    pub open spec fn same_wiring(self, other: Topology) -> bool {
        &&& self.nodes.len() == other.nodes.len()
        &&& forall|h: int| 0 <= h < self.nodes.len() ==> same_kind(#[trigger] self.nodes[h], other.nodes[h])
    }
}

/// Whether two elements are of one kind with the same fixed parts.
pub open spec fn same_kind(a: Node, b: Node) -> bool {
    match a {
        Node::Sink(s) => b == a,
        Node::Transport { line, next } => b matches Node::Transport { line: l, next: n } && n == next && l.delay
            == line.delay,
        Node::Bottleneck(x) => b matches Node::Bottleneck(y) && y.next == x.next && y.schedule == x.schedule
            && y.capacity == x.capacity && y.coord == x.coord && y.dir == x.dir,
        Node::Acker(_) => b == a,
    }
}

/// Every network is wired as itself.
pub proof fn lemma_same_wiring_refl(net: Topology)
    ensures
        net.same_wiring(net),
{
    assert forall|h: int| 0 <= h < net.nodes.len() implies same_kind(#[trigger] net.nodes[h], net.nodes[h]) by {}
}

/// Networks wired as the same network are wired as each other.
pub proof fn lemma_same_wiring_trans(a: Topology, b: Topology, c: Topology)
    requires
        a.same_wiring(b),
        b.same_wiring(c),
    ensures
        a.same_wiring(c),
{
    assert forall|h: int| 0 <= h < a.nodes.len() implies same_kind(#[trigger] a.nodes[h], c.nodes[h]) by {
        assert(same_kind(a.nodes[h], b.nodes[h]));
        assert(same_kind(b.nodes[h], c.nodes[h]));
    }
}

/// Taking a packet keeps a network valid and its wiring as it is.
pub proof fn lemma_enqueue_wf(net: Topology, h: int, pkt: Packet)
    requires
        net.wf(),
    ensures
        net.enqueue(h, pkt).wf(),
        net.enqueue(h, pkt).same_wiring(net),
    decreases h,
{
    if 0 <= h < net.nodes.len() {
        assert(net.node_ok(h));
        let after = net.enqueue(h, pkt);
        match net.nodes[h] {
            Node::Sink(_) => {},
            Node::Transport { line, next } => {
                lemma_line_enqueue_wf(line, pkt, net.nodes[next as int].intake());
                assert forall|g: int| 0 <= g < after.nodes.len() implies #[trigger] after.node_ok(g) by {
                    assert(net.node_ok(g));
                }
            },
            Node::Bottleneck(b) => {
                lemma_line_enqueue_wf(b.drops, pkt, grave_of(b.coord));
                assert forall|g: int| 0 <= g < after.nodes.len() implies #[trigger] after.node_ok(g) by {
                    assert(net.node_ok(g));
                }
            },
            Node::Acker(a) => {
                lemma_enqueue_wf(net, a.next as int, a.ack(pkt));
            },
        }
    }
}

/// A network of elements. Each element is known by its handle, the number
/// of elements that were added before it.
pub struct Network {
    elems: Vec<Element>,
}

impl View for Network {
    type V = Topology;

    closed spec fn view(&self) -> Topology {
        Topology { nodes: self.elems@.map_values(|e: Element| e@) }
    }
}

impl Network {
    /// The network's invariant: each element's own, and that of the model.
    pub closed spec fn wf(&self) -> bool {
        &&& forall|h: int| 0 <= h < self.elems.len() ==> (#[trigger] self.elems[h]).wf()
        &&& self@.wf()
    }

    /// What [`Network::wf`] says of the model.
    pub proof fn lemma_wf(&self)
        requires
            self.wf(),
        ensures
            self@.wf(),
    {
    }

    /// A network without elements.
    pub fn new() -> (net: Self)
        ensures
            net.wf(),
            net@.nodes == Seq::<Node>::empty(),
    {
        Network { elems: Vec::new() }
    }

    /// The number of elements.
    pub fn len(&self) -> (n: usize)
        ensures
            n == self@.nodes.len(),
    {
        self.elems.len()
    }

    /// The element at `h`.
    pub fn get(&self, h: usize) -> (elem: &Element)
        requires
            h < self@.nodes.len(),
        ensures
            elem@ == self@.nodes[h as int],
            self.wf() ==> elem.wf(),
    {
        &self.elems[h]
    }

    /// Whether `elem` may join the network as it is now.
    pub fn admits(&self, elem: &Element) -> (ok: bool)
        ensures
            ok == self@.admits(elem@),
    {
        match elem {
            Element::Sink(_) => true,
            Element::Transport(t) => {
                let next = *t.next();
                if next < self.elems.len() {
                    let ok = match &self.elems[next] {
                        Element::Transport(_) => false,
                        _ => true,
                    };
                    assert(self@.nodes[next as int] == self.elems@[next as int]@);
                    ok
                } else {
                    false
                }
            },
            Element::Bottleneck(b) => self.has_all(b.next()),
            Element::Acker(a) => a.next < self.elems.len(),
        }
    }

    /// Whether every handle in `next` names an element.
    pub fn has_all(&self, next: &Vec<usize>) -> (ok: bool)
        ensures
            ok == all_below(next@, self@.nodes.len()),
    {
        let mut i: usize = 0;
        while i < next.len()
            invariant
                i <= next.len(),
                forall|a: int| 0 <= a < i ==> (#[trigger] next@[a]) < self.elems.len(),
            decreases next.len() - i,
        {
            if next[i] >= self.elems.len() {
                return false;
            }
            i += 1;
        }
        true
    }

    /// Adds an element and returns its handle.
    pub fn add(&mut self, elem: Element) -> (h: usize)
        requires
            old(self).wf(),
            elem.wf(),
            old(self)@.admits(elem@),
        ensures
            final(self).wf(),
            h == old(self)@.nodes.len(),
            final(self)@.nodes == old(self)@.nodes.push(elem@),
    {
        let h = self.elems.len();
        proof {
            elem.lemma_wf();
        }
        self.elems.push(elem);
        proof {
            assert(self@.nodes == old(self)@.nodes.push(elem@));
            assert forall|g: int| 0 <= g < self@.nodes.len() implies #[trigger] self@.node_ok(g) by {
                if g < h {
                    assert(old(self)@.node_ok(g));
                }
            }
        }
        h
    }

    /// Wires the bottleneck at `h` to its downstream elements, which may
    /// have been added after it.
    pub fn set_next(&mut self, h: usize, next: Vec<usize>)
        requires
            old(self).wf(),
            h < old(self)@.nodes.len(),
            old(self)@.nodes[h as int] is Bottleneck,
            all_below(next@, old(self)@.nodes.len()),
        ensures
            final(self).wf(),
            final(self)@ == old(self)@.with(
                h as int,
                Node::Bottleneck(Buffer { next: next@, ..old(self)@.nodes[h as int]->Bottleneck_0 }),
            ),
    {
        let ghost before = self@;
        proof {
            assert(before.node_ok(h as int));
        }
        match &mut self.elems[h] {
            Element::Bottleneck(b) => {
                b.set_next(next);
            },
            _ => {},
        }
        proof {
            assert(self@.nodes == before.nodes.update(
                h as int,
                Node::Bottleneck(Buffer { next: next@, ..before.nodes[h as int]->Bottleneck_0 }),
            ));
            assert forall|g: int| 0 <= g < self@.nodes.len() implies #[trigger] self@.node_ok(g) by {
                assert(before.node_ok(g));
            }
        }
    }

    /// Where packets headed for the element at `h` arrive. A link must not
    /// be asked.
    pub fn get_enqueue_coord(&self, h: usize) -> (at: Coord)
        requires
            self.wf(),
            h < self@.nodes.len(),
            !(self@.nodes[h as int] is Transport),
        ensures
            at == self@.nodes[h as int].intake(),
    {
        self.elems[h].get_enqueue_coord()
    }

    /// The packets that the element at `h` holds.
    pub fn get_pkts(&self, h: usize) -> (held: Vec<Packet>)
        requires
            h < self@.nodes.len(),
        ensures
            held@ == self@.nodes[h as int].pkts(),
    {
        self.elems[h].get_pkts()
    }

    /// Hands `pkt` to the element at `h`.
    pub fn enqueue(&mut self, h: usize, pkt: &Packet)
        requires
            old(self).wf(),
            h < old(self)@.nodes.len(),
        ensures
            final(self).wf(),
            final(self)@ == old(self)@.enqueue(h as int, *pkt),
        decreases h,
    {
        let ghost before = self@;
        proof {
            assert(before.node_ok(h as int));
            lemma_enqueue_wf(before, h as int, *pkt);
        }
        match &self.elems[h] {
            Element::Sink(_) => {
                match &mut self.elems[h] {
                    Element::Sink(s) => {
                        s.enqueue(pkt);
                    },
                    _ => {},
                }
                proof {
                    assert(self@.nodes == before.nodes);
                }
            },
            Element::Transport(t) => {
                let next = *t.next();
                let target = self.elems[next].get_enqueue_coord();
                match &mut self.elems[h] {
                    Element::Transport(t) => {
                        t.enqueue(pkt, target);
                    },
                    _ => {},
                }
                proof {
                    assert(self@.nodes == before.enqueue(h as int, *pkt).nodes);
                }
            },
            Element::Bottleneck(_) => {
                match &mut self.elems[h] {
                    Element::Bottleneck(b) => {
                        b.enqueue(pkt);
                    },
                    _ => {},
                }
                proof {
                    assert(self@.nodes == before.enqueue(h as int, *pkt).nodes);
                }
            },
            Element::Acker(a) => {
                let next = a.next;
                let reply = match &mut self.elems[h] {
                    Element::Acker(a) => a.enqueue(pkt),
                    _ => *pkt,
                };
                proof {
                    assert(self@.nodes == before.nodes);
                }
                self.enqueue(next, &reply);
            },
        }
    }

    /// Whether the element at `h` can be ticked.
    pub fn routable(&self, h: usize) -> (ok: bool)
        requires
            self.wf(),
            h < self@.nodes.len(),
        ensures
            ok == self@.routable(h as int),
    {
        match &self.elems[h] {
            Element::Bottleneck(b) => b.routable(),
            _ => true,
        }
    }

    /// Advances the element at `h` by one tick and hands what it releases
    /// to its downstream element.
    pub fn tick(&mut self, h: usize)
        requires
            old(self).wf(),
            h < old(self)@.nodes.len(),
            old(self)@.routable(h as int),
        ensures
            final(self).wf(),
            final(self)@ == old(self)@.tick(h as int),
    {
        let ghost before = self@;
        proof {
            assert(before.node_ok(h as int));
        }
        match &mut self.elems[h] {
            Element::Sink(s) => {
                s.tick();
                proof {
                    assert(self@.nodes == before.nodes);
                }
            },
            Element::Transport(t) => {
                let next = *t.next();
                let out = t.tick();
                let ghost ticked = self@;
                proof {
                    assert(ticked.nodes == before.with(
                        h as int,
                        Node::Transport { line: before.nodes[h as int]->Transport_line.tick(), next },
                    ).nodes);
                    assert forall|g: int| 0 <= g < ticked.nodes.len() implies #[trigger] ticked.node_ok(g) by {
                        assert(before.node_ok(g));
                    }
                }
                let mut i: usize = 0;
                while i < out.len()
                    invariant
                        i <= out.len(),
                        self.wf(),
                        next < self@.nodes.len(),
                        self@.nodes.len() == ticked.nodes.len(),
                        self@ == ticked.enqueue_all(next as int, out@.take(i as int)),
                    decreases out.len() - i,
                {
                    proof {
                        lemma_enqueue_wf(self@, next as int, out@[i as int]);
                        assert(out@.take(i + 1).drop_last() == out@.take(i as int));
                    }
                    self.enqueue(next, &out[i]);
                    i += 1;
                }
                proof {
                    assert(out@.take(i as int) == out@);
                }
            },
            Element::Bottleneck(b) => {
                let out = b.tick();
                let ghost ticked = self@;
                proof {
                    assert(ticked.nodes == before.with(
                        h as int,
                        Node::Bottleneck(before.nodes[h as int]->Bottleneck_0.tick()),
                    ).nodes);
                    assert forall|g: int| 0 <= g < ticked.nodes.len() implies #[trigger] ticked.node_ok(g) by {
                        assert(before.node_ok(g));
                    }
                }
                match out {
                    Some(pkt) => {
                        let next = match &self.elems[h] {
                            Element::Bottleneck(b) => b.route(pkt.addr),
                            _ => 0,
                        };
                        self.enqueue(next, &pkt);
                    },
                    None => {},
                }
            },
            Element::Acker(a) => {
                a.tick();
                proof {
                    assert(self@.nodes == before.nodes);
                }
            },
        }
    }
}

} // verus!
