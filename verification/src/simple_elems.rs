//! The two stateless elements: the sink and the acker.
use crate::base::{Coord, Packet, ACK_PKT_WIDTH};
use vstd::prelude::*;

verus! {

/// A packet grave: whatever is enqueued is gone.
pub struct Sink {
    /// Where the sink accepts packets.
    pub coord: Coord,
}

impl Sink {
    /// Where packets headed for the sink arrive.
    pub fn get_enqueue_coord(&self) -> (at: Coord)
        ensures
            at == self.coord,
    {
        self.coord
    }

    /// Discards the packet.
    pub fn enqueue(&mut self, pkt: &Packet)
        ensures
            *final(self) == *old(self),
    {
    }

    /// The packets held: always none.
    pub fn get_pkts(&self) -> (held: Vec<Packet>)
        ensures
            held@ == Seq::<Packet>::empty(),
    {
        Vec::new()
    }

    /// A tick changes nothing.
    pub fn tick(&mut self)
        ensures
            *final(self) == *old(self),
    {
    }
}

/// A receiver that answers every packet with an acknowledgment, at once.
pub struct Acker {
    /// Where data packets arrive.
    pub rcv_coord: Coord,
    /// Where acknowledgments set out.
    pub snd_coord: Coord,
    /// Handle of the element that takes the acknowledgments.
    pub next: usize,
}

impl Acker {
    /// The acknowledgment for `pkt`: same address and style, the fixed
    /// acknowledgment size, placed where acknowledgments set out.
    pub open spec fn ack(self, pkt: Packet) -> Packet {
        Packet { size: ACK_PKT_WIDTH, coord: self.snd_coord, ..pkt }
    }

    /// Where packets headed for the acker arrive.
    pub fn get_enqueue_coord(&self) -> (at: Coord)
        ensures
            at == self.rcv_coord,
    {
        self.rcv_coord
    }

    /// Takes a packet and hands back the acknowledgment that `next` must
    /// receive in the same tick. The acker itself keeps nothing.
    pub fn enqueue(&mut self, pkt: &Packet) -> (reply: Packet)
        ensures
            *final(self) == *old(self),
            reply == old(self).ack(*pkt),
    {
        let mut reply = *pkt;
        reply.size = ACK_PKT_WIDTH;
        reply.coord = self.snd_coord;
        reply
    }

    /// The packets held: always none.
    pub fn get_pkts(&self) -> (held: Vec<Packet>)
        ensures
            held@ == Seq::<Packet>::empty(),
    {
        Vec::new()
    }

    /// A tick changes nothing.
    pub fn tick(&mut self)
        ensures
            *final(self) == *old(self),
    {
    }
}

} // verus!
