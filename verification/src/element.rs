//! The closed family of path elements.
use crate::base::{Coord, Packet};
use crate::bottleneck::{intake_of, Bottleneck, Buffer};
use crate::simple_elems::{Acker, Sink};
use crate::transport::{Line, Transport};
use vstd::prelude::*;

verus! {

/// An element of a path. Elements name their downstream elements by handle:
/// the position of an element in the [`crate::network::Network`] that owns it.
pub enum Element {
    Sink(Sink),
    Transport(Transport<usize>),
    Bottleneck(Bottleneck),
    Acker(Acker),
}

/// The mathematical model of an element.
pub enum Node {
    Sink(Sink),
    Transport { line: Line, next: usize },
    Bottleneck(Buffer),
    Acker(Acker),
}

impl Node {
    /// Where the element accepts packets. A link has no such place.
    pub open spec fn intake(self) -> Coord
        recommends
            !(self is Transport),
    {
        match self {
            Node::Sink(s) => s.coord,
            Node::Transport { line, next } => Coord(0, 0),
            Node::Bottleneck(b) => intake_of(b.coord),
            Node::Acker(a) => a.rcv_coord,
        }
    }

    /// The packets that the element holds: those under way on a link, those
    /// waiting in a bottleneck, none elsewhere.
    pub open spec fn pkts(self) -> Seq<Packet> {
        match self {
            Node::Sink(_) => Seq::empty(),
            Node::Transport { line, next } => line.pkts(),
            Node::Bottleneck(b) => b.queue,
            Node::Acker(_) => Seq::empty(),
        }
    }

    /// The element's own invariant.
    pub open spec fn wf(self) -> bool {
        match self {
            Node::Sink(_) => true,
            Node::Transport { line, next } => line.wf(),
            Node::Bottleneck(b) => b.wf(),
            Node::Acker(_) => true,
        }
    }
}

impl View for Element {
    type V = Node;

    open spec fn view(&self) -> Node {
        match self {
            Element::Sink(s) => Node::Sink(*s),
            Element::Transport(t) => Node::Transport { line: t@, next: t.next_hop() },
            Element::Bottleneck(b) => Node::Bottleneck(b@),
            Element::Acker(a) => Node::Acker(*a),
        }
    }
}

impl Element {
    /// The element's own invariant.
    pub open spec fn wf(&self) -> bool {
        match self {
            Element::Sink(_) => true,
            Element::Transport(t) => t.wf(),
            Element::Bottleneck(b) => b.wf(),
            Element::Acker(_) => true,
        }
    }

    /// What [`Element::wf`] says of the model.
    pub proof fn lemma_wf(&self)
        requires
            self.wf(),
        ensures
            self@.wf(),
    {
        match self {
            Element::Bottleneck(b) => b.lemma_wf(),
            _ => {},
        }
    }

    /// Where packets headed for the element arrive. A link has no such
    /// place and must not be asked.
    pub fn get_enqueue_coord(&self) -> (at: Coord)
        requires
            self.wf(),
            !(self is Transport),
        ensures
            at == self@.intake(),
    {
        match self {
            Element::Sink(s) => s.get_enqueue_coord(),
            Element::Transport(_) => Coord(0, 0),
            Element::Bottleneck(b) => b.get_enqueue_coord(),
            Element::Acker(a) => a.get_enqueue_coord(),
        }
    }

    /// The packets that the element holds.
    pub fn get_pkts(&self) -> (held: Vec<Packet>)
        ensures
            held@ == self@.pkts(),
    {
        match self {
            Element::Sink(s) => s.get_pkts(),
            Element::Transport(t) => t.get_pkts(),
            Element::Bottleneck(b) => b.get_pkts(),
            Element::Acker(a) => a.get_pkts(),
        }
    }
}

} // verus!
