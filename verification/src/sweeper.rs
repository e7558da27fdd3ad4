//! The liveness sweep: a timer's worth of decisions.
//!
//! Every interval the sweeper evicts the entries that were not refreshed since
//! the sweep before, clears the flag of the others, and lets everybody know
//! the new membership if anybody left. The timer itself stays outside.

use vstd::prelude::*;

use crate::broadcast::{broadcast_user_list, user_list_broadcast, Delivery, DeliveryView};
use crate::registry::{evicted, survivors, PeerView, Registry};

verus! {

/// The time between two sweeps, in seconds.
pub const SWEEP_INTERVAL_SECS: u64 = 5;

/// What one sweep did.
#[derive(Debug, PartialEq, Eq)]
pub struct Sweep {
    /// The identities that were evicted, in registration order.
    pub evicted: Vec<String>,
    /// The deliveries to make.
    pub outbox: Vec<Delivery>,
}

/// What goes out after a sweep: the new snapshot to everybody who stays if
/// somebody was evicted, nothing otherwise.
pub open spec fn sweep_outbox(s: Seq<PeerView>) -> Seq<DeliveryView> {
    if evicted(s).len() > 0 {
        user_list_broadcast(survivors(s))
    } else {
        Seq::empty()
    }
}

/// One sweep cycle over the registry.
pub fn check_connections(registry: &mut Registry) -> (r: Sweep)
    ensures
        final(registry)@ == survivors(old(registry)@),
        r.evicted.deep_view() == evicted(old(registry)@),
        r.outbox.deep_view() == sweep_outbox(old(registry)@),
{
    let gone = registry.sweep_and_clear();
    let outbox = if gone.len() > 0 {
        broadcast_user_list(registry)
    } else {
        let none: Vec<Delivery> = Vec::new();
        assert(none.deep_view() =~= Seq::<DeliveryView>::empty());
        none
    };
    Sweep { evicted: gone, outbox }
}

/// The two states of the sweeper.
#[derive(Clone, Copy, Debug, PartialEq, Eq)]
pub enum SweeperState {
    /// Waiting for the interval to elapse.
    Idle,
    /// The interval elapsed; the sweep is due.
    Sweeping,
}

/// The sweeper: `Idle`, then `Sweeping` when the interval elapses, then
/// `Idle` again when the sweep is done, for as long as the process lives.
#[derive(Debug, PartialEq, Eq)]
pub struct Sweeper {
    state: SweeperState,
}

impl View for Sweeper {
    type V = SweeperState;

    closed spec fn view(&self) -> SweeperState {
        self.state
    }
}

impl Sweeper {
    /// A sweeper that waits for its first interval.
    pub fn new() -> (r: Sweeper)
        ensures
            r@ == SweeperState::Idle,
    {
        Sweeper { state: SweeperState::Idle }
    }

    /// The state of the sweeper.
    pub fn state(&self) -> (r: SweeperState)
        ensures
            r == self@,
    {
        self.state
    }

    /// The interval elapsed: the sweep is due.
    pub fn interval_elapsed(&mut self)
        ensures
            final(self)@ == SweeperState::Sweeping,
    {
        self.state = SweeperState::Sweeping;
    }

    /// Does the sweep that is due and goes back to waiting. Where none is
    /// due, nothing happens.
    pub fn sweep(&mut self, registry: &mut Registry) -> (r: Sweep)
        ensures
            final(self)@ == SweeperState::Idle,
            old(self)@ == SweeperState::Sweeping ==> {
                &&& final(registry)@ == survivors(old(registry)@)
                &&& r.evicted.deep_view() == evicted(old(registry)@)
                &&& r.outbox.deep_view() == sweep_outbox(old(registry)@)
            },
            old(self)@ == SweeperState::Idle ==> {
                &&& final(registry)@ == old(registry)@
                &&& r.evicted.deep_view() == Seq::<Seq<char>>::empty()
                &&& r.outbox.deep_view() == Seq::<DeliveryView>::empty()
            },
    {
        match self.state {
            SweeperState::Sweeping => {
                self.state = SweeperState::Idle;
                check_connections(registry)
            },
            SweeperState::Idle => {
                let evicted: Vec<String> = Vec::new();
                let outbox: Vec<Delivery> = Vec::new();
                assert(evicted.deep_view() =~= Seq::<Seq<char>>::empty());
                assert(outbox.deep_view() =~= Seq::<DeliveryView>::empty());
                Sweep { evicted, outbox }
            },
        }
    }

    /// Gives up the sweep that is due, because the registry could not be had
    /// in time, and goes back to waiting. The next interval tries again.
    pub fn skip(&mut self)
        ensures
            final(self)@ == SweeperState::Idle,
    {
        self.state = SweeperState::Idle;
    }
}

} // verus!
