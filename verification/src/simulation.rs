//! Networks that are ready to run: wired for every address that their
//! packets bear, with the order in which their elements tick.
use crate::base::Packet;
use crate::network::{
    all_below, lemma_enqueue_wf, lemma_same_wiring_refl, lemma_same_wiring_trans, Network, Topology,
};
use crate::routing::{lemma_enqueue_addrs, lemma_routable, lemma_same_wiring_serves, lemma_tick_addrs, lemma_tick_wf};
use vstd::prelude::*;

verus! {

impl Topology {
    /// The network after the elements named in `order` ticked once each,
    /// first to last.
    pub open spec fn tick_each(self, order: Seq<usize>) -> Topology
        decreases order.len(),
    {
        if order.len() == 0 {
            self
        } else {
            self.tick_each(order.drop_last()).tick(order.last() as int)
        }
    }

    /// Whether the network can run in the given order with packets of
    /// addresses below `fan`: the order names elements that exist, every
    /// bottleneck has a downstream element for each such address, and no
    /// packet in the network bears another.
    pub open spec fn ready(self, order: Seq<usize>, fan: nat) -> bool {
        &&& all_below(order, self.nodes.len())
        &&& self.serves_addrs(fan)
        &&& self.addrs_below(fan)
    }
}

/// Ticking elements in any order keeps a network valid and its wiring as
/// it is.
pub proof fn lemma_tick_each_wf(net: Topology, order: Seq<usize>)
    requires
        net.wf(),
        all_below(order, net.nodes.len()),
    ensures
        net.tick_each(order).wf(),
        net.tick_each(order).same_wiring(net),
    decreases order.len(),
{
    if order.len() > 0 {
        let before = order.drop_last();
        assert forall|a: int| 0 <= a < before.len() implies (#[trigger] before[a]) < net.nodes.len() by {
            assert(before[a] == order[a]);
        }
        lemma_tick_each_wf(net, before);
        let mid = net.tick_each(before);
        lemma_tick_wf(mid, order.last() as int);
        lemma_same_wiring_trans(net.tick_each(order), mid, net);
    } else {
        lemma_same_wiring_refl(net);
    }
}

/// A network together with the order in which its elements tick. It can be
/// made only of a network that is ready to run, and stays so: every tick
/// finds the downstream element that it needs.
pub struct Simulation {
    net: Network,
    order: Vec<usize>,
    fan: usize,
}

impl Simulation {
    /// The network's model.
    pub closed spec fn net(&self) -> Topology {
        self.net@
    }

    /// The handles of the elements in the order in which they tick.
    pub closed spec fn order(&self) -> Seq<usize> {
        self.order@
    }

    /// The number of addresses that packets may bear.
    pub closed spec fn fan(&self) -> nat {
        self.fan as nat
    }

    /// The simulation's invariant: a valid network that is ready to run.
    pub closed spec fn wf(&self) -> bool {
        &&& self.net.wf()
        &&& self.net@.ready(self.order@, self.fan as nat)
    }

    /// What [`Simulation::wf`] says of the model.
    pub proof fn lemma_wf(&self)
        requires
            self.wf(),
        ensures
            self.net().wf(),
            self.net().ready(self.order(), self.fan()),
    {
        self.net.lemma_wf();
    }

    /// Takes a network into service if it is ready to run, and refuses it
    /// otherwise.
    pub fn new(net: Network, order: Vec<usize>, fan: usize) -> (sim: Option<Simulation>)
        requires
            net.wf(),
        ensures
            sim is Some <==> net@.ready(order@, fan as nat),
            sim matches Some(s) ==> s.wf() && s.net() == net@ && s.order() == order@ && s.fan() == fan,
    {
        if net.has_all(&order) && net.serves_addrs(fan) && net.addrs_below(fan) {
            Some(Simulation { net, order, fan })
        } else {
            None
        }
    }

    /// The network.
    pub fn network(&self) -> (net: &Network)
        ensures
            net@ == self.net(),
            self.wf() ==> net.wf(),
    {
        &self.net
    }

    /// The handles of the elements in the order in which they tick.
    pub fn stages(&self) -> (order: &Vec<usize>)
        ensures
            order@ == self.order(),
    {
        &self.order
    }

    /// Hands `pkt` to the element at `h`.
    pub fn enqueue(&mut self, h: usize, pkt: &Packet)
        requires
            old(self).wf(),
            h < old(self).net().nodes.len(),
            pkt.addr < old(self).fan(),
        ensures
            final(self).wf(),
            final(self).net() == old(self).net().enqueue(h as int, *pkt),
            final(self).net().same_wiring(old(self).net()),
            final(self).order() == old(self).order(),
            final(self).fan() == old(self).fan(),
    {
        proof {
            self.net.lemma_wf();
            lemma_enqueue_wf(self.net@, h as int, *pkt);
            lemma_enqueue_addrs(self.net@, h as int, *pkt, self.fan as nat);
            lemma_same_wiring_serves(self.net@.enqueue(h as int, *pkt), self.net@, self.fan as nat);
        }
        self.net.enqueue(h, pkt);
    }

    /// Ticks the element of the given stage.
    pub fn tick(&mut self, stage: usize)
        requires
            old(self).wf(),
            stage < old(self).order().len(),
        ensures
            final(self).wf(),
            final(self).net() == old(self).net().tick(old(self).order()[stage as int] as int),
            final(self).net().same_wiring(old(self).net()),
            final(self).order() == old(self).order(),
            final(self).fan() == old(self).fan(),
    {
        let h = self.order[stage];
        proof {
            self.net.lemma_wf();
            lemma_routable(self.net@, h as int, self.fan as nat);
            lemma_tick_wf(self.net@, h as int);
            lemma_tick_addrs(self.net@, h as int, self.fan as nat);
            lemma_same_wiring_serves(self.net@.tick(h as int), self.net@, self.fan as nat);
        }
        self.net.tick(h);
    }

    /// Ticks every element once, in order.
    pub fn tick_all(&mut self)
        requires
            old(self).wf(),
        ensures
            final(self).wf(),
            final(self).net() == old(self).net().tick_each(old(self).order()),
            final(self).net().same_wiring(old(self).net()),
            final(self).order() == old(self).order(),
            final(self).fan() == old(self).fan(),
    {
        proof {
            self.net.lemma_wf();
            lemma_tick_each_wf(self.net@, self.order@);
        }
        let mut stage: usize = 0;
        while stage < self.order.len()
            invariant
                stage <= self.order.len(),
                self.wf(),
                self.order() == old(self).order(),
                self.fan() == old(self).fan(),
                self.net() == old(self).net().tick_each(self.order@.take(stage as int)),
            decreases self.order.len() - stage,
        {
            proof {
                assert(self.order@.take(stage + 1).drop_last() == self.order@.take(stage as int));
            }
            self.tick(stage);
            stage += 1;
        }
        proof {
            assert(self.order@.take(stage as int) == self.order@);
        }
    }
}

} // verus!
