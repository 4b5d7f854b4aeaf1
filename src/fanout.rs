//! Carrying out the datagrams of one write, one send at a time, so that a
//! failed send to one peer does not keep the others from theirs.
use vstd::prelude::*;
use crate::addr::PeerAddr;
use crate::socket::Datagram;

verus! {

/// The progress through a write's datagrams: the datagrams, how many have
/// been sent (or tried), and the peers whose send failed, in order.
pub struct FanOut {
    plan: Vec<Datagram>,
    sent: usize,
    failed: Vec<PeerAddr>,
}

/// The progress after one more send, which succeeded when `ok`.
pub open spec fn spec_step(
    s: (Seq<Datagram>, nat, Seq<PeerAddr>),
    ok: bool,
) -> (Seq<Datagram>, nat, Seq<PeerAddr>) {
    (s.0, s.1 + 1, if ok {
        s.2
    } else {
        s.2.push(s.0[s.1 as int].peer)
    })
}

/// The progress after sends with outcomes `oks`, from the start.
pub open spec fn spec_run(plan: Seq<Datagram>, oks: Seq<bool>) -> (Seq<Datagram>, nat, Seq<PeerAddr>)
    decreases oks.len(),
{
    if oks.len() == 0 {
        (plan, 0, Seq::empty())
    } else {
        spec_step(spec_run(plan, oks.drop_last()), oks.last())
    }
}

/// The peers of the first datagrams whose outcome in `oks` is a failure.
pub open spec fn spec_failed_peers(plan: Seq<Datagram>, oks: Seq<bool>) -> Seq<PeerAddr>
    decreases oks.len(),
{
    if oks.len() == 0 {
        Seq::empty()
    } else if oks.last() {
        spec_failed_peers(plan, oks.drop_last())
    } else {
        spec_failed_peers(plan, oks.drop_last()).push(plan[oks.len() - 1].peer)
    }
}

impl View for FanOut {
    type V = (Seq<Datagram>, nat, Seq<PeerAddr>);

    closed spec fn view(&self) -> (Seq<Datagram>, nat, Seq<PeerAddr>) {
        (self.plan@, self.sent as nat, self.failed@)
    }
}

impl FanOut {
    pub open spec fn wf(&self) -> bool {
        self@.1 <= self@.0.len()
    }

    pub fn new(plan: Vec<Datagram>) -> (r: FanOut)
        ensures
            r.wf(),
            r@ == (plan@, 0nat, Seq::<PeerAddr>::empty()),
    {
        FanOut { plan, sent: 0, failed: Vec::new() }
    }

    /// The next datagram to send, if any is left.
    pub fn current(&self) -> (r: Option<&Datagram>)
        requires
            self.wf(),
        ensures
            self@.1 < self@.0.len() ==> r == Some(&self@.0[self@.1 as int]),
            self@.1 == self@.0.len() ==> r is None,
    {
        if self.sent < self.plan.len() {
            Some(&self.plan[self.sent])
        } else {
            None
        }
    }

    /// Records the outcome of sending the current datagram and moves on to
    /// the next, whatever the outcome.
    pub fn record(&mut self, ok: bool)
        requires
            old(self).wf(),
            old(self)@.1 < old(self)@.0.len(),
        ensures
            final(self).wf(),
            final(self)@ == spec_step(old(self)@, ok),
    {
        let total = self.plan.len();
        assert(self.sent < total);
        if !ok {
            let peer = self.plan[self.sent].peer;
            self.failed.push(peer);
        }
        self.sent = self.sent + 1;
    }

    /// The peers whose send failed, in order.
    pub fn failed(&self) -> (r: &Vec<PeerAddr>)
        ensures
            r@ == self@.2,
    {
        &self.failed
    }
}

/// Partial-failure isolation: whatever each send gives, after `n` outcomes
/// the first `n` datagrams have been sent (or tried) and the next one is
/// offered; the peers recorded as failed are exactly those whose own send
/// failed.
pub proof fn failures_do_not_stop_fan_out(plan: Seq<Datagram>, oks: Seq<bool>)
    requires
        oks.len() <= plan.len(),
    ensures
        spec_run(plan, oks) == (plan, oks.len(), spec_failed_peers(plan, oks)),
    decreases oks.len(),
{
    if oks.len() > 0 {
        failures_do_not_stop_fan_out(plan, oks.drop_last());
    }
}

} // verus!
