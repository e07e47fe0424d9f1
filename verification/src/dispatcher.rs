//! Lifecycle dispatcher: the runtime state machine that starts the
//! handler, delivers classified events to its hooks strictly in arrival
//! order, and polls the exit predicate once per loop tick.

use vstd::prelude::*;

use crate::events::{Event, PeerAddr, RemoteMessage};
use crate::fanout::{BindError, FanoutServer};
use crate::game::{Game, GameView};

verus! {

/// Where the dispatcher is in its lifecycle.
#[derive(Clone, Copy, PartialEq, Eq, Structural, Debug)]
pub enum Phase {
    Uninitialized,
    Running,
    Exiting,
    Terminated,
}

/// One event of a tick's batch, already classified into its channel.
#[derive(Clone, PartialEq, Eq, Debug)]
pub enum TickEvent {
    Local(Event),
    Remote(PeerAddr, RemoteMessage),
}

/// Delivering one classified event to the handler's hooks.
pub open spec fn apply_tick(v: GameView, ev: TickEvent) -> GameView {
    match ev {
        TickEvent::Local(e) => v.after_local(e),
        TickEvent::Remote(a, m) => v.after_remote(a, m),
    }
}

/// Delivering a whole batch, strictly in arrival order.
pub open spec fn deliver_all(v: GameView, evs: Seq<TickEvent>) -> GameView
    decreases evs.len(),
{
    if evs.len() == 0 {
        v
    } else {
        apply_tick(deliver_all(v, evs.drop_last()), evs.last())
    }
}

/// The dispatcher: the handler it drives and its lifecycle phase.
pub struct Dispatcher {
    pub handler: Game,
    pub phase: Phase,
}

impl Dispatcher {
    /// Wraps a handler; no hook has fired yet.
    pub fn new(handler: Game) -> (d: Dispatcher)
        ensures
            d.phase == Phase::Uninitialized,
            d.handler@ == handler@,
    {
        Dispatcher { handler, phase: Phase::Uninitialized }
    }

    /// The one-time transition into `Running`: fires the handler's `start`
    /// hook before any event delivery.
    pub fn start(&mut self)
        requires
            old(self).phase == Phase::Uninitialized,
        ensures
            final(self).phase == Phase::Running,
            final(self).handler@ == old(self).handler@.after_start(),
    {
        self.handler.start();
        self.phase = Phase::Running;
    }

    /// One loop tick: delivers the batch of already-queued events to the
    /// hooks, one at a time and in order, then polls the exit predicate
    /// once. When the flag was raised by any event of this batch — or
    /// earlier — the dispatcher leaves `Running` this very tick.
    pub fn tick(&mut self, events: Vec<TickEvent>)
        requires
            old(self).phase == Phase::Running,
        ensures
            final(self).handler@ == deliver_all(old(self).handler@, events@),
            final(self).phase == (if deliver_all(old(self).handler@, events@).exit {
                Phase::Exiting
            } else {
                Phase::Running
            }),
    {
        let ghost orig = events@;
        let ghost h0 = self.handler@;
        let mut events = events;
        proof {
            assert(orig.take(0) =~= Seq::<TickEvent>::empty());
            assert(orig.skip(0) =~= orig);
        }
        while events.len() > 0
            invariant
                events@.len() <= orig.len(),
                events@ == orig.skip(orig.len() - events@.len()),
                self.handler@ == deliver_all(h0, orig.take(orig.len() - events@.len())),
                self.phase == Phase::Running,
            decreases events@.len(),
        {
            let ghost done = orig.len() - events@.len();
            let ev = events.remove(0);
            proof {
                assert(orig.skip(done)[0] == orig[done]);
                assert(ev == orig[done]);
                assert(events@ =~= orig.skip(done + 1));
                assert(orig.take(done + 1).drop_last() =~= orig.take(done));
                assert(orig.take(done + 1).last() == orig[done]);
            }
            match ev {
                TickEvent::Local(e) => {
                    self.handler.event(e);
                },
                TickEvent::Remote(a, m) => {
                    self.handler.net_event(a, m);
                },
            }
            proof {
                assert(self.handler@ == deliver_all(h0, orig.take(done + 1)));
            }
        }
        proof {
            assert(orig.take(orig.len() as int) =~= orig);
        }
        if self.handler.exit() {
            self.phase = Phase::Exiting;
        }
    }

    /// Releases resources after the cooperative exit; no further hook
    /// fires, since event delivery demands the `Running` phase.
    pub fn terminate(&mut self)
        requires
            old(self).phase == Phase::Exiting,
        ensures
            final(self).phase == Phase::Terminated,
            final(self).handler@ == old(self).handler@,
    {
        self.phase = Phase::Terminated;
    }
}

/// Boots the engine around a handler the way the program's entry point
/// does: bind the fan-out server, start accepting, then start the
/// dispatcher. A failed bind is a setup error: nothing is started, no
/// hook fires, and the dispatcher never enters `Running`.
pub fn boot(handler: Game, port: u16, transport_bound: bool) -> (r: Result<
    (Dispatcher, FanoutServer),
    BindError,
>)
    ensures
        r is Ok <==> transport_bound,
        r matches Ok(p) ==> {
            &&& p.0.phase == Phase::Running
            &&& p.0.handler@ == handler@.after_start()
            &&& p.1.port == port
            &&& p.1.started
            &&& p.1.history@.len() == 0
            &&& p.1.wf()
        },
        r is Err ==> r == Err::<(Dispatcher, FanoutServer), BindError>(BindError::PortUnavailable),
{
    let mut server = match FanoutServer::new_public_server(port, transport_bound) {
        Ok(s) => s,
        Err(e) => {
            return Err(e);
        },
    };
    server.start();
    let mut dispatcher = Dispatcher::new(handler);
    dispatcher.start();
    Ok((dispatcher, server))
}

/// Law: a whole tick's worth of deliveries keeps the handler well formed.
pub proof fn lemma_tick_preserves_wf(v: GameView, evs: Seq<TickEvent>)
    requires
        v.wf(),
    ensures
        deliver_all(v, evs).wf(),
    decreases evs.len(),
{
    if evs.len() > 0 {
        lemma_tick_preserves_wf(v, evs.drop_last());
        let w = deliver_all(v, evs.drop_last());
        match evs.last() {
            TickEvent::Local(e) => {
                crate::game::lemma_local_preserves_wf(w, e);
            },
            TickEvent::Remote(a, m) => {
                crate::game::lemma_remote_preserves_wf(w, a, m);
            },
        }
    }
}

/// Law: the exit flag latches — once raised, no later delivery lowers it.
pub proof fn lemma_exit_flag_latches(v: GameView, evs: Seq<TickEvent>)
    ensures
        v.exit ==> deliver_all(v, evs).exit,
    decreases evs.len(),
{
    if evs.len() > 0 {
        lemma_exit_flag_latches(v, evs.drop_last());
    }
}

/// Law: a tick whose batch contains an exit-requesting local event — a
/// window close request or a pressed escape key — leaves the handler
/// demanding exit, so `tick` moves the dispatcher out of `Running` within
/// that same loop tick.
pub proof fn lemma_exit_within_one_tick(v: GameView, evs: Seq<TickEvent>, i: int)
    requires
        0 <= i < evs.len(),
        evs[i] matches TickEvent::Local(e) && GameView::exit_event(e),
    ensures
        deliver_all(v, evs).exit,
    decreases evs.len(),
{
    if i == evs.len() - 1 {
        assert(evs.last() == evs[i]);
        assert(deliver_all(v, evs) == apply_tick(deliver_all(v, evs.drop_last()), evs.last()));
    } else {
        assert(evs.drop_last()[i] == evs[i]);
        lemma_exit_within_one_tick(v, evs.drop_last(), i);
    }
}

} // verus!
