//! The adapter between an actor and its mailbox.

use vstd::prelude::*;
use tokio::sync::mpsc::Receiver;
use crate::address::Address;
use crate::mailbox::close_receiver;
use crate::message::Message;
use crate::worker::Worker;

verus! {

/// Where a registered actor is in its life. An address that was never
/// registered has no state; a registered actor runs from the start.
#[derive(Debug, Clone, Copy, PartialEq, Eq, Structural)]
pub enum ActorState {
    /// The actor takes messages from its mailbox.
    Running,
    /// `Shutdown` is on its way to the actor, which has not ended yet.
    Draining,
    /// The actor's run loop has ended. It never runs again.
    Terminated,
}

/// What the run loop has to do with what it received.
#[derive(Debug, PartialEq, Eq, Structural)]
pub enum Step {
    /// Hand this message to the actor, wait for it to finish, then receive
    /// the next one.
    Process(Message),
    /// Leave the loop: the actor is done.
    Exit,
}

/// The state after an actor in `state` received `event`, where `None` stands
/// for a mailbox that is closed and empty. Only a running actor goes on, and
/// only on an application message.
pub open spec fn state_after(state: ActorState, event: Option<Message>) -> ActorState {
    match (state, event) {
        (ActorState::Running, Some(Message::Shutdown)) => ActorState::Terminated,
        (ActorState::Running, Some(_)) => ActorState::Running,
        _ => ActorState::Terminated,
    }
}

/// What the run loop does on `event` in `state`: an application message that
/// reaches a running actor is processed, anything else ends the loop.
/// `Shutdown` is never handed to the actor.
pub open spec fn step_on(state: ActorState, event: Option<Message>) -> Step {
    match (state, event) {
        (ActorState::Running, Some(Message::Shutdown)) => Step::Exit,
        (ActorState::Running, Some(m)) => Step::Process(m),
        _ => Step::Exit,
    }
}

/// Whether the mailbox has to be closed on `event` in `state`: exactly when
/// a running actor receives `Shutdown`.
pub open spec fn closes_on(state: ActorState, event: Option<Message>) -> bool {
    state == ActorState::Running && event == Some(Message::Shutdown)
}

/// The messages handed to the actor, in order, when the run loop starts in
/// `state` and receives `events` one after the other.
pub open spec fn processed(state: ActorState, events: Seq<Option<Message>>) -> Seq<Message>
    decreases events.len(),
{
    if events.len() == 0 {
        Seq::empty()
    } else {
        let rest = processed(state_after(state, events[0]), events.drop_first());
        match step_on(state, events[0]) {
            Step::Process(m) => seq![m] + rest,
            Step::Exit => rest,
        }
    }
}

/// The events that a mailbox yields for the messages `msgs`, one for each.
pub open spec fn received(msgs: Seq<Message>) -> Seq<Option<Message>> {
    Seq::new(msgs.len(), |i: int| Some(msgs[i]))
}

/// Whether `msgs` holds application messages only.
pub open spec fn no_shutdown(msgs: Seq<Message>) -> bool {
    forall|i: int| 0 <= i < msgs.len() ==> #[trigger] msgs[i] != Message::Shutdown
}

/// An actor that is not running is handed nothing, whatever arrives.
pub proof fn law_stopped_processes_nothing(state: ActorState, events: Seq<Option<Message>>)
    requires
        state != ActorState::Running,
    ensures
        processed(state, events) == Seq::<Message>::empty(),
    decreases events.len(),
{
    if events.len() > 0 {
        law_stopped_processes_nothing(state_after(state, events[0]), events.drop_first());
    }
}

/// Order: a running actor is handed the application messages that its
/// mailbox yields, each once and in the order in which they arrived, up to
/// the first `Shutdown`. Nothing that arrives after `Shutdown` is handed
/// over, and `Shutdown` itself never is.
pub proof fn law_processed_in_order(msgs: Seq<Message>, later: Seq<Option<Message>>)
    requires
        no_shutdown(msgs),
    ensures
        processed(ActorState::Running, received(msgs)) == msgs,
        processed(
            ActorState::Running,
            received(msgs) + seq![Some(Message::Shutdown)] + later,
        ) == msgs,
    decreases msgs.len(),
{
    let all = received(msgs) + seq![Some(Message::Shutdown)] + later;
    if msgs.len() == 0 {
        assert(received(msgs) =~= Seq::<Option<Message>>::empty());
        assert(all[0] == Some(Message::Shutdown));
        law_stopped_processes_nothing(ActorState::Terminated, all.drop_first());
        assert(processed(ActorState::Running, all) =~= msgs);
    } else {
        let tail = msgs.drop_first();
        assert(no_shutdown(tail)) by {
            assert forall|i: int| 0 <= i < tail.len() implies #[trigger] tail[i]
                != Message::Shutdown by {
                assert(tail[i] == msgs[i + 1]);
            }
        }
        law_processed_in_order(tail, later);
        assert(received(msgs).drop_first() =~= received(tail));
        assert(all.drop_first() =~= received(tail) + seq![Some(Message::Shutdown)] + later);
        assert(received(msgs)[0] == Some(msgs[0]));
        assert(all[0] == Some(msgs[0]));
        assert(msgs[0] != Message::Shutdown);
        assert(msgs =~= seq![msgs[0]] + tail);
    }
}

/// An actor together with its address and the receiving half of its mailbox.
pub struct WorkerWrapper<W> {
    addr: Address,
    worker: W,
    rx: Receiver<Message>,
    state: ActorState,
}

impl<W> WorkerWrapper<W> {
    /// The actor's address.
    pub closed spec fn address(&self) -> Seq<char> {
        self.addr@
    }

    /// The actor itself.
    pub closed spec fn worker(&self) -> W {
        self.worker
    }

    /// The receiving half of the actor's mailbox.
    pub closed spec fn receiver(&self) -> Receiver<Message> {
        self.rx
    }

    /// Where the actor is in its life.
    pub closed spec fn state(&self) -> ActorState {
        self.state
    }

    /// Binds a running actor to its address and mailbox.
    pub fn new(addr: Address, worker: W, rx: Receiver<Message>) -> (r: Self)
        ensures
            r.address() == addr@,
            r.worker() == worker,
            r.receiver() == rx,
            r.state() == ActorState::Running,
    {
        WorkerWrapper { addr, worker, rx, state: ActorState::Running }
    }

    /// Decides what the run loop does with `event`, the message just
    /// received, or `None` once the mailbox is closed and empty. On
    /// `Shutdown` the mailbox is closed, so that later sends fail at once.
    pub fn step(&mut self, event: Option<Message>) -> (r: Step)
        ensures
            r == step_on(old(self).state(), event),
            final(self).state() == state_after(old(self).state(), event),
            final(self).address() == old(self).address(),
            final(self).worker() == old(self).worker(),
            closes_on(old(self).state(), event) ==> crate::mailbox::receiver_closed(
                final(self).receiver(),
            ),
            !closes_on(old(self).state(), event) ==> final(self).receiver() == old(
                self,
            ).receiver(),
            crate::mailbox::receiver_bound(final(self).receiver())
                == crate::mailbox::receiver_bound(old(self).receiver()),
    {
        match self.state {
            ActorState::Running => match event {
                Some(Message::Shutdown) => {
                    close_receiver(&mut self.rx);
                    self.state = ActorState::Terminated;
                    Step::Exit
                },
                Some(m) => Step::Process(m),
                None => {
                    self.state = ActorState::Terminated;
                    Step::Exit
                },
            },
            _ => {
                self.state = ActorState::Terminated;
                Step::Exit
            },
        }
    }

    /// The actor's address.
    pub fn addr(&self) -> (r: &Address)
        ensures
            r@ == self.address(),
    {
        &self.addr
    }

    /// Where the actor is in its life.
    pub fn current_state(&self) -> (r: ActorState)
        ensures
            r == self.state(),
    {
        self.state
    }

    /// The receiving half of the mailbox, for the run loop to receive from.
    pub fn receiver_mut(&mut self) -> (r: &mut Receiver<Message>)
        ensures
            *r == old(self).receiver(),
            final(self).receiver() == *final(r),
            final(self).address() == old(self).address(),
            final(self).worker() == old(self).worker(),
            final(self).state() == old(self).state(),
    {
        &mut self.rx
    }

    /// The actor, for the run loop to hand it a message.
    pub fn worker_mut(&mut self) -> (r: &mut W)
        ensures
            *r == old(self).worker(),
            final(self).worker() == *final(r),
            final(self).address() == old(self).address(),
            final(self).receiver() == old(self).receiver(),
            final(self).state() == old(self).state(),
    {
        &mut self.worker
    }
}

impl<W: Worker> WorkerWrapper<W> {
    /// One turn of the run loop: decides as [`WorkerWrapper::step`] does and,
    /// where a message is to be processed, hands it to the actor with the
    /// actor's own address. Returns whether the loop goes on.
    pub fn handle(&mut self, event: Option<Message>) -> (r: bool)
        ensures
            r == (step_on(old(self).state(), event) is Process),
            final(self).state() == state_after(old(self).state(), event),
            final(self).address() == old(self).address(),
            !r ==> final(self).worker() == old(self).worker(),
            closes_on(old(self).state(), event) ==> crate::mailbox::receiver_closed(
                final(self).receiver(),
            ),
            !closes_on(old(self).state(), event) ==> final(self).receiver() == old(
                self,
            ).receiver(),
    {
        match self.step(event) {
            Step::Process(m) => {
                self.worker.run(&self.addr, &m);
                true
            },
            Step::Exit => false,
        }
    }
}

} // verus!
