//! The supervisor: the registry of actors and the rules of their shutdown.

use vstd::prelude::*;
use tokio::sync::mpsc::error::SendError;
use tokio::sync::mpsc::Sender;
use crate::address::Address;
use crate::mailbox::{bounded_channel, offer, Offer};
use crate::message::{Message, MAILBOX_CAPACITY};
use crate::worker_wrapper::{ActorState, WorkerWrapper};

verus! {

/// Why the supervisor refused an operation.
#[derive(Debug, Clone, Copy, PartialEq, Eq, Structural)]
pub enum ManagerError {
    /// An actor is already registered under the address.
    AddressInUse,
    /// No actor was ever registered under the address.
    UnknownAddress,
    /// The actor under the address has terminated, or its mailbox is closed.
    TargetClosed,
}

impl ManagerError {
    /// The error in words.
    pub fn to_string(&self) -> (r: String)
        ensures
            r@ == match *self {
                ManagerError::AddressInUse => "address is already in use"@,
                ManagerError::UnknownAddress => "unknown address"@,
                ManagerError::TargetClosed => "send error"@,
            },
    {
        match self {
            ManagerError::AddressInUse => "address is already in use".to_owned(),
            ManagerError::UnknownAddress => "unknown address".to_owned(),
            ManagerError::TargetClosed => "send error".to_owned(),
        }
    }
}

/// How far a message has come.
#[derive(Debug)]
pub enum Delivery<'a> {
    /// The message is in the target's mailbox.
    Done,
    /// The mailbox is full. The message is handed back with the sending half
    /// of the mailbox: the sender has to wait for room and put it in then.
    Pending(&'a Sender<Message>, Message),
}

/// What the supervisor is to do next while it shuts down.
#[derive(Debug, Clone, Copy, PartialEq, Eq, Structural)]
pub enum ShutdownStep {
    /// Every actor has terminated: shutdown is complete.
    Done,
    /// Wait for actors to terminate, for at most this many milliseconds.
    Wait(u64),
    /// The grace period is over: terminate the remaining actors by force.
    Abort,
}

/// The grace period, in milliseconds, that a supervisor grants by default.
pub const DEFAULT_GRACE_MILLIS: u64 = 5000;

/// What the registry records of one actor.
pub struct ActorRecord {
    pub address: Seq<char>,
    pub state: ActorState,
}

/// Whether an actor is registered under `address`.
pub open spec fn registered(reg: Seq<ActorRecord>, address: Seq<char>) -> bool {
    exists|i: int| 0 <= i < reg.len() && (#[trigger] reg[i]).address == address
}

/// The position of the actor registered under `address`.
pub open spec fn slot_of(reg: Seq<ActorRecord>, address: Seq<char>) -> int {
    choose|i: int| 0 <= i < reg.len() && (#[trigger] reg[i]).address == address
}

/// At most one actor is registered under any address.
pub open spec fn unique(reg: Seq<ActorRecord>) -> bool {
    forall|i: int, j: int|
        0 <= i < j < reg.len() ==> (#[trigger] reg[i]).address != (#[trigger] reg[j]).address
}

/// Whether the actor has not terminated yet.
pub open spec fn alive(record: ActorRecord) -> bool {
    record.state != ActorState::Terminated
}

/// Registering an actor under `address`: refused where the address is taken,
/// else the registry gains a running actor at its end.
pub open spec fn spawn_result(reg: Seq<ActorRecord>, address: Seq<char>) -> Result<
    Seq<ActorRecord>,
    ManagerError,
> {
    if registered(reg, address) {
        Err(ManagerError::AddressInUse)
    } else {
        Ok(reg.push(ActorRecord { address, state: ActorState::Running }))
    }
}

/// Routing a message to `address`: the position of the target, or why there
/// is none.
pub open spec fn route(reg: Seq<ActorRecord>, address: Seq<char>) -> Result<int, ManagerError> {
    if !registered(reg, address) {
        Err(ManagerError::UnknownAddress)
    } else if !alive(reg[slot_of(reg, address)]) {
        Err(ManagerError::TargetClosed)
    } else {
        Ok(slot_of(reg, address))
    }
}

/// What `send` reports for the answer `offer` of the mailbox behind `tx`: an
/// accepted message is delivered, one that found the mailbox full is pending
/// and neither failed nor lost, and one that found it closed is refused with
/// `TargetClosed`.
pub open spec fn delivery_of(tx: Sender<Message>, offer: Offer) -> Result<
    Delivery<'static>,
    ManagerError,
> {
    match offer {
        Offer::Accepted => Ok(Delivery::Done),
        Offer::Full(m) => Ok(Delivery::Pending(&tx, m)),
        Offer::Closed(_) => Err(ManagerError::TargetClosed),
    }
}

/// Whether `Shutdown` still has to be sent, with waiting, to a mailbox that
/// gave the answer `offer`: only where the mailbox was full.
pub open spec fn still_to_signal(offer: Offer) -> bool {
    offer is Full
}

/// The positions of the actors that have not terminated, in ascending order:
/// those to which `Shutdown` is sent.
pub open spec fn targets(reg: Seq<ActorRecord>) -> Seq<int>
    decreases reg.len(),
{
    if reg.len() == 0 {
        Seq::empty()
    } else if alive(reg.last()) {
        targets(reg.drop_last()).push(reg.len() - 1)
    } else {
        targets(reg.drop_last())
    }
}

/// The number of actors that have not terminated.
pub open spec fn outstanding(reg: Seq<ActorRecord>) -> nat {
    targets(reg).len()
}

/// The registry once `Shutdown` is on its way: running actors are draining.
pub open spec fn signalled(reg: Seq<ActorRecord>) -> Seq<ActorRecord> {
    Seq::new(
        reg.len(),
        |i: int|
            ActorRecord {
                address: reg[i].address,
                state: if reg[i].state == ActorState::Running {
                    ActorState::Draining
                } else {
                    reg[i].state
                },
            },
    )
}

/// The registry once the actor under `address` has ended. An address that is
/// not registered changes nothing.
pub open spec fn exited(reg: Seq<ActorRecord>, address: Seq<char>) -> Seq<ActorRecord> {
    if registered(reg, address) {
        reg.update(
            slot_of(reg, address),
            ActorRecord { address, state: ActorState::Terminated },
        )
    } else {
        reg
    }
}

/// The registry once every actor has ended.
pub open spec fn all_terminated(reg: Seq<ActorRecord>) -> Seq<ActorRecord> {
    Seq::new(
        reg.len(),
        |i: int| ActorRecord { address: reg[i].address, state: ActorState::Terminated },
    )
}

/// The next step of a shutdown that has waited `waited` of its `grace`
/// milliseconds: done once nobody is left, else wait out the rest of the
/// grace period, else terminate by force.
pub open spec fn shutdown_step_of(reg: Seq<ActorRecord>, grace: u64, waited: u64) -> ShutdownStep {
    if outstanding(reg) == 0 {
        ShutdownStep::Done
    } else if waited < grace {
        ShutdownStep::Wait((grace - waited) as u64)
    } else {
        ShutdownStep::Abort
    }
}

/// The targets of a shutdown are the actors that have not terminated: each
/// position among them is one of an actor that is alive, the positions
/// ascend, and no actor that is alive is left out.
pub proof fn law_targets_are_the_living(reg: Seq<ActorRecord>)
    ensures
        forall|k: int|
            0 <= k < targets(reg).len() ==> 0 <= (#[trigger] targets(reg)[k]) < reg.len() && alive(
                reg[targets(reg)[k]],
            ),
        forall|j: int, k: int|
            0 <= j < k < targets(reg).len() ==> (#[trigger] targets(reg)[j]) < (#[trigger] targets(
                reg,
            )[k]),
        forall|i: int| 0 <= i < reg.len() && alive(#[trigger] reg[i]) ==> targets(reg).contains(i),
    decreases reg.len(),
{
    if reg.len() > 0 {
        let front = reg.drop_last();
        let inner = targets(front);
        law_targets_are_the_living(front);
        assert forall|k: int| 0 <= k < targets(reg).len() implies 0 <= (#[trigger] targets(reg)[k])
            < reg.len() && alive(reg[targets(reg)[k]]) by {
            if k < inner.len() {
                assert(targets(reg)[k] == inner[k]);
                assert(front[inner[k]] == reg[inner[k]]);
            }
        }
        assert forall|j: int, k: int| 0 <= j < k < targets(reg).len() implies (#[trigger] targets(
            reg,
        )[j]) < (#[trigger] targets(reg)[k]) by {
            assert(targets(reg)[j] == inner[j]);
            if k < inner.len() {
                assert(targets(reg)[k] == inner[k]);
            }
        }
        assert forall|i: int| 0 <= i < reg.len() && alive(#[trigger] reg[i]) implies targets(
            reg,
        ).contains(i) by {
            if i < front.len() {
                assert(front[i] == reg[i]);
                let k = choose|k: int| 0 <= k < inner.len() && inner[k] == i;
                assert(targets(reg)[k] == i);
            } else {
                assert(targets(reg)[targets(reg).len() - 1] == i);
            }
        }
    }
}

/// Nobody is outstanding exactly when every actor has terminated.
pub proof fn lemma_none_outstanding(reg: Seq<ActorRecord>)
    ensures
        outstanding(reg) == 0 <==> forall|i: int| 0 <= i < reg.len() ==> !alive(#[trigger] reg[i]),
    decreases reg.len(),
{
    if reg.len() > 0 {
        let front = reg.drop_last();
        lemma_none_outstanding(front);
        assert forall|i: int| 0 <= i < front.len() implies front[i] == reg[i] by {}
        if outstanding(reg) == 0 {
            assert forall|i: int| 0 <= i < reg.len() implies !alive(#[trigger] reg[i]) by {
                if i < front.len() {
                    assert(!alive(front[i]));
                }
            }
        }
        if forall|i: int| 0 <= i < reg.len() ==> !alive(#[trigger] reg[i]) {
            assert(!alive(reg.last()));
            assert forall|i: int| 0 <= i < front.len() implies !alive(#[trigger] front[i]) by {
                assert(!alive(reg[i]));
            }
        }
    }
}

/// Sending `Shutdown` changes nobody's being alive: the actors that were
/// targets still are.
pub proof fn lemma_signal_keeps_targets(reg: Seq<ActorRecord>)
    ensures
        targets(signalled(reg)) == targets(reg),
    decreases reg.len(),
{
    if reg.len() > 0 {
        lemma_signal_keeps_targets(reg.drop_last());
        assert(signalled(reg).drop_last() =~= signalled(reg.drop_last()));
    }
}

/// Every actor that ends brings the shutdown one step nearer to its end.
pub proof fn law_exit_makes_progress(reg: Seq<ActorRecord>, address: Seq<char>)
    requires
        unique(reg),
        registered(reg, address),
        alive(reg[slot_of(reg, address)]),
    ensures
        outstanding(exited(reg, address)) + 1 == outstanding(reg),
{
    lemma_terminate_one(reg, slot_of(reg, address));
}

proof fn lemma_terminate_one(reg: Seq<ActorRecord>, slot: int)
    requires
        0 <= slot < reg.len(),
        alive(reg[slot]),
    ensures
        outstanding(
            reg.update(
                slot,
                ActorRecord { address: reg[slot].address, state: ActorState::Terminated },
            ),
        ) + 1 == outstanding(reg),
    decreases reg.len(),
{
    let record = ActorRecord { address: reg[slot].address, state: ActorState::Terminated };
    let next = reg.update(slot, record);
    if slot == reg.len() - 1 {
        assert(next.drop_last() =~= reg.drop_last());
    } else {
        lemma_terminate_one(reg.drop_last(), slot);
        assert(next.drop_last() =~= reg.drop_last().update(slot, record));
    }
}

/// Unique addresses: a second actor under an address that is taken is
/// refused with `AddressInUse`. Where the first registration succeeds, the
/// actor it registered is running and is the target of its address, every
/// earlier entry is as it was, and the registry still holds no address twice.
pub proof fn law_address_in_use(reg: Seq<ActorRecord>, address: Seq<char>)
    requires
        unique(reg),
    ensures
        registered(reg, address) ==> spawn_result(reg, address) == Err::<
            Seq<ActorRecord>,
            ManagerError,
        >(ManagerError::AddressInUse),
        spawn_result(reg, address) matches Ok(next) ==> {
            &&& unique(next)
            &&& spawn_result(next, address) == Err::<Seq<ActorRecord>, ManagerError>(
                ManagerError::AddressInUse,
            )
            &&& route(next, address) == Ok::<int, ManagerError>(reg.len() as int)
            &&& next.len() == reg.len() + 1
            &&& forall|i: int| 0 <= i < reg.len() ==> next[i] == reg[i]
        },
{
    if !registered(reg, address) {
        let next = reg.push(ActorRecord { address, state: ActorState::Running });
        assert(next[reg.len() as int].address == address);
        assert forall|i: int, j: int| 0 <= i < j < next.len() implies (#[trigger] next[i]).address
            != (#[trigger] next[j]).address by {
            if j < reg.len() {
                assert(reg[i].address != reg[j].address);
            } else {
                assert(reg[i].address != address);
            }
        }
        let k = slot_of(next, address);
        assert(next[k].address == address);
        if k < reg.len() {
            assert(reg[k].address == address);
        }
    }
}

/// Unknown targets: a message to an address that was never registered is
/// refused with `UnknownAddress`, and no mailbox is named to receive it.
pub proof fn law_unknown_address(reg: Seq<ActorRecord>, address: Seq<char>)
    requires
        !registered(reg, address),
    ensures
        route(reg, address) == Err::<int, ManagerError>(ManagerError::UnknownAddress),
{
}

/// Completion: once a shutdown is done, every registered actor has
/// terminated, and a message to any registered address is refused with
/// `TargetClosed`.
pub proof fn law_after_shutdown(reg: Seq<ActorRecord>, grace: u64, waited: u64, address: Seq<char>)
    requires
        shutdown_step_of(reg, grace, waited) == ShutdownStep::Done,
    ensures
        forall|i: int| 0 <= i < reg.len() ==> (#[trigger] reg[i]).state == ActorState::Terminated,
        registered(reg, address) ==> route(reg, address) == Err::<int, ManagerError>(
            ManagerError::TargetClosed,
        ),
{
    lemma_none_outstanding(reg);
    assert forall|i: int| 0 <= i < reg.len() implies (#[trigger] reg[i]).state
        == ActorState::Terminated by {
        assert(!alive(reg[i]));
    }
    if registered(reg, address) {
        let k = slot_of(reg, address);
        assert(!alive(reg[k]));
    }
}

/// Bounded wait: a shutdown never waits beyond its grace period, and once
/// the remaining actors were terminated by force it is done, with every
/// address still registered.
pub proof fn law_forced_shutdown_completes(reg: Seq<ActorRecord>, grace: u64, waited: u64)
    ensures
        waited >= grace ==> !(shutdown_step_of(reg, grace, waited) is Wait),
        shutdown_step_of(reg, grace, waited) matches ShutdownStep::Wait(rest) ==> waited + rest
            == grace,
        shutdown_step_of(all_terminated(reg), grace, waited) == ShutdownStep::Done,
        forall|a: Seq<char>| registered(reg, a) <==> registered(all_terminated(reg), a),
{
    let done = all_terminated(reg);
    lemma_none_outstanding(done);
    assert forall|a: Seq<char>| registered(reg, a) <==> registered(done, a) by {
        if registered(reg, a) {
            let k = slot_of(reg, a);
            assert(done[k].address == a);
        }
        if registered(done, a) {
            let k = slot_of(done, a);
            assert(reg[k].address == a);
        }
    }
}

/// Backpressure: a message that finds its mailbox full is neither refused
/// nor lost. It is pending, and comes back unchanged together with the
/// mailbox in which the sender has to wait for room.
pub proof fn law_full_mailbox_keeps_the_message(tx: Sender<Message>, msg: Message)
    ensures
        delivery_of(tx, Offer::Full(msg)) == Ok::<Delivery, ManagerError>(
            Delivery::Pending(&tx, msg),
        ),
{
}

/// Idempotence: a shutdown of a registry in which every actor has already
/// terminated, an empty one among them, has no target, changes nothing and
/// is done at once.
pub proof fn law_shutdown_idempotent(reg: Seq<ActorRecord>, grace: u64, waited: u64)
    requires
        outstanding(reg) == 0,
    ensures
        targets(reg) == Seq::<int>::empty(),
        signalled(reg) == reg,
        shutdown_step_of(signalled(reg), grace, waited) == ShutdownStep::Done,
{
    lemma_none_outstanding(reg);
    assert(targets(reg) =~= Seq::<int>::empty());
    assert forall|i: int| 0 <= i < reg.len() implies signalled(reg)[i] == reg[i] by {
        assert(!alive(reg[i]));
    }
    assert(signalled(reg) =~= reg);
}

/// The registry of actors. It owns the sending half of each actor's mailbox
/// and follows each actor through its life.
pub struct Manager {
    addrs: Vec<Address>,
    senders: Vec<Sender<Message>>,
    states: Vec<ActorState>,
    capacity: usize,
    grace_millis: u64,
}

impl View for Manager {
    type V = Seq<ActorRecord>;

    closed spec fn view(&self) -> Seq<ActorRecord> {
        Seq::new(
            self.addrs.len() as nat,
            |i: int| ActorRecord { address: self.addrs[i]@, state: self.states[i] },
        )
    }
}

impl Manager {
    /// The sending halves of the mailboxes, by position.
    pub closed spec fn handles(&self) -> Seq<Sender<Message>> {
        self.senders@
    }

    /// The capacity of each mailbox that this supervisor creates.
    pub closed spec fn mailbox_capacity(&self) -> usize {
        self.capacity
    }

    /// How long a shutdown waits before it terminates by force.
    pub closed spec fn grace_period(&self) -> u64 {
        self.grace_millis
    }

    /// The registry's invariant: one mailbox and one state for each actor,
    /// no address twice, and a capacity that a mailbox can have.
    pub closed spec fn wf(&self) -> bool {
        &&& self.senders.len() == self.addrs.len()
        &&& self.states.len() == self.addrs.len()
        &&& unique(self@)
        &&& 0 < self.capacity <= crate::mailbox::max_mailbox_capacity()
        &&& forall|i: int|
            0 <= i < self.senders.len() ==> crate::mailbox::sender_bound(#[trigger] self.senders[i])
                == self.capacity
    }

    /// What the invariant says of the public view.
    pub proof fn lemma_wf(&self)
        requires
            self.wf(),
        ensures
            unique(self@),
            self.handles().len() == self@.len(),
            0 < self.mailbox_capacity() <= crate::mailbox::max_mailbox_capacity(),
            forall|i: int|
                0 <= i < self@.len() ==> crate::mailbox::sender_bound(#[trigger] self.handles()[i])
                    == self.mailbox_capacity(),
    {
    }

    /// An empty registry with the default mailbox capacity and grace period.
    pub fn startup() -> (r: Manager)
        ensures
            r.wf(),
            r@ == Seq::<ActorRecord>::empty(),
            r.handles() == Seq::<Sender<Message>>::empty(),
            r.mailbox_capacity() == MAILBOX_CAPACITY,
            r.grace_period() == DEFAULT_GRACE_MILLIS,
    {
        Manager {
            addrs: Vec::new(),
            senders: Vec::new(),
            states: Vec::new(),
            capacity: MAILBOX_CAPACITY,
            grace_millis: DEFAULT_GRACE_MILLIS,
        }
    }

    /// An empty registry whose mailboxes hold `capacity` messages and whose
    /// shutdown waits `grace_millis` milliseconds. A capacity that no mailbox
    /// can have is refused.
    pub fn startup_with(capacity: usize, grace_millis: u64) -> (r: Option<Manager>)
        ensures
            r is Some <==> 0 < capacity <= crate::mailbox::max_mailbox_capacity(),
            r matches Some(m) ==> {
                &&& m.wf()
                &&& m@ == Seq::<ActorRecord>::empty()
                &&& m.handles() == Seq::<Sender<Message>>::empty()
                &&& m.mailbox_capacity() == capacity
                &&& m.grace_period() == grace_millis
            },
    {
        if capacity == 0 || capacity > usize::MAX / 8 {
            None
        } else {
            Some(
                Manager {
                    addrs: Vec::new(),
                    senders: Vec::new(),
                    states: Vec::new(),
                    capacity,
                    grace_millis,
                },
            )
        }
    }

    /// The number of actors ever registered.
    pub fn len(&self) -> (r: usize)
        ensures
            r == self@.len(),
    {
        self.addrs.len()
    }

    /// The position of the actor registered under `addr`, if there is one.
    pub fn find(&self, addr: &Address) -> (r: Option<usize>)
        requires
            self.wf(),
        ensures
            r is Some <==> registered(self@, addr@),
            r matches Some(i) ==> i == slot_of(self@, addr@) && i < self@.len(),
    {
        let mut i: usize = 0;
        while i < self.addrs.len()
            invariant
                self.wf(),
                i <= self.addrs.len(),
                forall|k: int| 0 <= k < i ==> (#[trigger] self@[k]).address != addr@,
            decreases self.addrs.len() - i,
        {
            if self.addrs[i] == *addr {
                proof {
                    let j = slot_of(self@, addr@);
                    assert(self@[i as int].address == addr@);
                    assert(self@[j].address == addr@);
                }
                return Some(i);
            }
            i = i + 1;
        }
        None
    }

    /// The state of the actor registered under `addr`, if there is one.
    pub fn state_of(&self, addr: &Address) -> (r: Option<ActorState>)
        requires
            self.wf(),
        ensures
            r is Some <==> registered(self@, addr@),
            r matches Some(s) ==> s == self@[slot_of(self@, addr@)].state,
    {
        match self.find(addr) {
            Some(i) => Some(self.states[i]),
            None => None,
        }
    }

    /// Registers `worker` under `addr`: creates its mailbox, keeps the
    /// sending half, and returns the running actor bound to the receiving
    /// half, for the caller to launch. Where the address is taken, nothing
    /// changes.
    pub fn spawn_worker<W>(&mut self, addr: Address, worker: W) -> (r: Result<
        WorkerWrapper<W>,
        ManagerError,
    >)
        requires
            old(self).wf(),
        ensures
            final(self).wf(),
            final(self).mailbox_capacity() == old(self).mailbox_capacity(),
            final(self).grace_period() == old(self).grace_period(),
            match r {
                Ok(w) => {
                    &&& spawn_result(old(self)@, addr@) == Ok::<Seq<ActorRecord>, ManagerError>(
                        final(self)@,
                    )
                    &&& final(self).handles().len() == old(self).handles().len() + 1
                    &&& final(self).handles().drop_last() == old(self).handles()
                    &&& w.address() == addr@
                    &&& w.worker() == worker
                    &&& w.state() == ActorState::Running
                    &&& !crate::mailbox::receiver_closed(w.receiver())
                    &&& crate::mailbox::receiver_bound(w.receiver()) == old(
                        self,
                    ).mailbox_capacity()
                },
                Err(e) => {
                    &&& spawn_result(old(self)@, addr@) == Err::<Seq<ActorRecord>, ManagerError>(e)
                    &&& final(self)@ == old(self)@
                    &&& final(self).handles() == old(self).handles()
                },
            },
    {
        if self.find(&addr).is_some() {
            return Err(ManagerError::AddressInUse);
        }
        let (tx, rx) = bounded_channel(self.capacity);
        let ghost before = self@;
        self.addrs.push(addr.clone());
        self.senders.push(tx);
        self.states.push(ActorState::Running);
        proof {
            assert(self@ =~= before.push(
                ActorRecord { address: addr@, state: ActorState::Running },
            ));
            assert(self.handles().drop_last() =~= old(self).handles());
        }
        Ok(WorkerWrapper::new(addr, worker, rx))
    }

    /// Resolves the target of a message: the sending half of the mailbox of
    /// the actor under `addr`. Nothing is sent, and the registry stays as it
    /// is.
    pub fn target(&self, addr: &Address) -> (r: Result<&Sender<Message>, ManagerError>)
        requires
            self.wf(),
        ensures
            match r {
                Ok(tx) => route(self@, addr@) matches Ok(slot) && *tx == self.handles()[slot],
                Err(e) => route(self@, addr@) == Err::<int, ManagerError>(e),
            },
    {
        match self.find(addr) {
            None => Err(ManagerError::UnknownAddress),
            Some(i) => {
                if self.states[i] == ActorState::Terminated {
                    Err(ManagerError::TargetClosed)
                } else {
                    Ok(&self.senders[i])
                }
            },
        }
    }

    /// What `send` reports for the answer that the mailbox behind `tx` gave
    /// to a message offered without waiting.
    pub fn delivery<'a>(tx: &'a Sender<Message>, answer: Offer) -> (r: Result<
        Delivery<'a>,
        ManagerError,
    >)
        ensures
            r == delivery_of(*tx, answer),
    {
        match answer {
            Offer::Accepted => Ok(Delivery::Done),
            Offer::Full(m) => Ok(Delivery::Pending(tx, m)),
            Offer::Closed(_) => Err(ManagerError::TargetClosed),
        }
    }

    /// Sends `msg` to the actor under `addr` as far as that goes without
    /// waiting. An address that has no target is refused, and the message
    /// goes nowhere. Else the message is offered to the target's mailbox, and
    /// the mailbox decides: the message is in, or it is pending and comes
    /// back with the mailbox to wait for, or the mailbox is closed.
    pub fn send(&self, addr: &Address, msg: Message) -> (r: Result<Delivery<'_>, ManagerError>)
        requires
            self.wf(),
        ensures
            match route(self@, addr@) {
                Err(e) => r == Err::<Delivery, ManagerError>(e),
                Ok(slot) => match r {
                    Ok(Delivery::Done) => true,
                    Ok(Delivery::Pending(tx, m)) => *tx == self.handles()[slot] && m == msg,
                    Err(e) => e == ManagerError::TargetClosed,
                },
            },
    {
        match self.target(addr) {
            Err(e) => Err(e),
            Ok(tx) => {
                let answer = offer(tx, msg);
                Manager::delivery(tx, answer)
            },
        }
    }

    /// What is reported of a pending message once the sender has waited and
    /// the mailbox has answered: success, or `TargetClosed` where the mailbox
    /// refused the message.
    pub fn sent(outcome: Result<(), SendError<Message>>) -> (r: Result<(), ManagerError>)
        ensures
            r is Ok <==> outcome is Ok,
            r is Err ==> r == Err::<(), ManagerError>(ManagerError::TargetClosed),
    {
        match outcome {
            Ok(()) => Ok(()),
            Err(_) => Err(ManagerError::TargetClosed),
        }
    }

    /// The sending half of the mailbox at `slot`, if there is such a slot.
    pub fn sender_at(&self, slot: usize) -> (r: Option<&Sender<Message>>)
        requires
            self.wf(),
        ensures
            r is Some <==> slot < self@.len(),
            r matches Some(tx) ==> *tx == self.handles()[slot as int],
    {
        if slot < self.senders.len() {
            Some(&self.senders[slot])
        } else {
            None
        }
    }

    /// Begins a shutdown: every running actor becomes draining, and the
    /// positions of all actors that have not terminated are returned, in
    /// ascending order. To each of them `Shutdown` is to be sent, none of
    /// them waiting for another.
    pub fn begin_shutdown(&mut self) -> (r: Vec<usize>)
        requires
            old(self).wf(),
        ensures
            final(self).wf(),
            final(self)@ == signalled(old(self)@),
            final(self).handles() == old(self).handles(),
            final(self).mailbox_capacity() == old(self).mailbox_capacity(),
            final(self).grace_period() == old(self).grace_period(),
            r@.len() == targets(old(self)@).len(),
            forall|k: int| 0 <= k < r@.len() ==> r@[k] == targets(old(self)@)[k],
            targets(final(self)@) == targets(old(self)@),
    {
        let ghost before = self@;
        let n = self.states.len();
        let mut out: Vec<usize> = Vec::new();
        let mut i: usize = 0;
        while i < n
            invariant
                i <= n,
                n == self.states.len(),
                self.addrs == old(self).addrs,
                self.senders == old(self).senders,
                self.capacity == old(self).capacity,
                self.grace_millis == old(self).grace_millis,
                old(self).wf(),
                before == old(self)@,
                before.len() == n,
                forall|k: int| 0 <= k < i ==> self.states[k] == signalled(before)[k].state,
                forall|k: int| i <= k < n ==> self.states[k] == before[k].state,
                out@.len() == targets(before.take(i as int)).len(),
                forall|k: int|
                    0 <= k < out@.len() ==> out@[k] == targets(before.take(i as int))[k],
            decreases n - i,
        {
            proof {
                assert(before.take(i + 1).drop_last() =~= before.take(i as int));
                assert(before.take(i + 1).last() == before[i as int]);
            }
            let state = self.states[i];
            if state != ActorState::Terminated {
                out.push(i);
            }
            if state == ActorState::Running {
                self.states.set(i, ActorState::Draining);
            }
            i = i + 1;
        }
        proof {
            assert(before.take(n as int) =~= before);
            assert(self@ =~= signalled(before));
            lemma_signal_keeps_targets(before);
            assert forall|a: int, b: int| 0 <= a < b < self@.len() implies (#[trigger] self@[a]).address
                != (#[trigger] self@[b]).address by {
                assert(before[a].address != before[b].address);
            }
        }
        out
    }

    /// Whether `Shutdown` still has to be sent, with waiting, to a mailbox
    /// that gave `answer` when the signal was offered to it.
    pub fn signal_pending(answer: &Offer) -> (r: bool)
        ensures
            r == still_to_signal(*answer),
    {
        match answer {
            Offer::Full(_) => true,
            _ => false,
        }
    }

    /// Shuts down: every running actor becomes draining, and `Shutdown` is
    /// offered to the mailbox of every actor that has not terminated, one
    /// after the other and without waiting, so that no mailbox holds up the
    /// signal to another. Returned are the positions, in ascending order, of
    /// the actors whose mailbox was full: to those the signal still has to be
    /// sent, with waiting.
    pub fn shutdown(&mut self) -> (r: Vec<usize>)
        requires
            old(self).wf(),
        ensures
            final(self).wf(),
            final(self)@ == signalled(old(self)@),
            final(self).handles() == old(self).handles(),
            final(self).mailbox_capacity() == old(self).mailbox_capacity(),
            final(self).grace_period() == old(self).grace_period(),
            forall|k: int|
                0 <= k < r@.len() ==> (#[trigger] r@[k]) < old(self)@.len() && alive(
                    old(self)@[r@[k] as int],
                ),
            forall|j: int, k: int| 0 <= j < k < r@.len() ==> (#[trigger] r@[j]) < (#[trigger] r@[k]),
    {
        let all = self.begin_shutdown();
        let ghost reg = old(self)@;
        proof {
            law_targets_are_the_living(reg);
        }
        let mut pending: Vec<usize> = Vec::new();
        let mut k: usize = 0;
        while k < all.len()
            invariant
                self.wf(),
                k <= all.len(),
                self.senders@.len() == reg.len(),
                all@.len() == targets(reg).len(),
                forall|i: int| 0 <= i < all@.len() ==> all@[i] == targets(reg)[i],
                forall|i: int|
                    0 <= i < targets(reg).len() ==> 0 <= (#[trigger] targets(reg)[i]) < reg.len()
                        && alive(reg[targets(reg)[i]]),
                forall|i: int, j: int|
                    0 <= i < j < targets(reg).len() ==> (#[trigger] targets(reg)[i]) < (
                    #[trigger] targets(reg)[j]),
                forall|i: int|
                    0 <= i < pending@.len() ==> (#[trigger] pending@[i]) < reg.len() && alive(
                        reg[pending@[i] as int],
                    ),
                forall|i: int, j: int|
                    0 <= i < j < pending@.len() ==> (#[trigger] pending@[i]) < (
                    #[trigger] pending@[j]),
                k == 0 ==> pending@.len() == 0,
                k > 0 ==> forall|i: int|
                    0 <= i < pending@.len() ==> (#[trigger] pending@[i]) <= all@[k - 1],
            decreases all.len() - k,
        {
            let slot = all[k];
            assert(slot == targets(reg)[k as int]);
            if k > 0 {
                assert(all@[k - 1] == targets(reg)[k - 1]);
                assert(targets(reg)[k - 1] < targets(reg)[k as int]);
            }
            let answer = offer(&self.senders[slot], Message::Shutdown);
            if Manager::signal_pending(&answer) {
                pending.push(slot);
            }
            k = k + 1;
        }
        pending
    }

    /// Records that the actor under `addr` has ended. Returns whether such an
    /// actor is registered; where none is, nothing changes.
    pub fn task_exited(&mut self, addr: &Address) -> (r: bool)
        requires
            old(self).wf(),
        ensures
            final(self).wf(),
            r == registered(old(self)@, addr@),
            final(self)@ == exited(old(self)@, addr@),
            final(self).handles() == old(self).handles(),
            final(self).mailbox_capacity() == old(self).mailbox_capacity(),
            final(self).grace_period() == old(self).grace_period(),
    {
        match self.find(addr) {
            None => false,
            Some(i) => {
                let ghost before = self@;
                self.states.set(i, ActorState::Terminated);
                proof {
                    assert(self@ =~= exited(before, addr@));
                    assert forall|a: int, b: int| 0 <= a < b < self@.len() implies (
                    #[trigger] self@[a]).address != (#[trigger] self@[b]).address by {
                        assert(before[a].address != before[b].address);
                    }
                }
                true
            },
        }
    }

    /// Records that every actor has ended: those that had not terminated
    /// were terminated by force. Their positions are returned, in ascending
    /// order: these are the actors that did not end in time.
    pub fn force_terminated(&mut self) -> (r: Vec<usize>)
        requires
            old(self).wf(),
        ensures
            final(self).wf(),
            final(self)@ == all_terminated(old(self)@),
            final(self).handles() == old(self).handles(),
            final(self).mailbox_capacity() == old(self).mailbox_capacity(),
            final(self).grace_period() == old(self).grace_period(),
            r@.len() == targets(old(self)@).len(),
            forall|k: int| 0 <= k < r@.len() ==> r@[k] == targets(old(self)@)[k],
    {
        let ghost before = self@;
        let n = self.states.len();
        let mut out: Vec<usize> = Vec::new();
        let mut i: usize = 0;
        while i < n
            invariant
                i <= n,
                n == self.states.len(),
                self.addrs == old(self).addrs,
                self.senders == old(self).senders,
                self.capacity == old(self).capacity,
                self.grace_millis == old(self).grace_millis,
                old(self).wf(),
                before == old(self)@,
                before.len() == n,
                forall|k: int| 0 <= k < i ==> self.states[k] == ActorState::Terminated,
                forall|k: int| i <= k < n ==> self.states[k] == before[k].state,
                out@.len() == targets(before.take(i as int)).len(),
                forall|k: int|
                    0 <= k < out@.len() ==> out@[k] == targets(before.take(i as int))[k],
            decreases n - i,
        {
            proof {
                assert(before.take(i + 1).drop_last() =~= before.take(i as int));
                assert(before.take(i + 1).last() == before[i as int]);
            }
            if self.states[i] != ActorState::Terminated {
                out.push(i);
                self.states.set(i, ActorState::Terminated);
            }
            i = i + 1;
        }
        proof {
            assert(before.take(n as int) =~= before);
            assert(self@ =~= all_terminated(before));
            assert forall|a: int, b: int| 0 <= a < b < self@.len() implies (#[trigger] self@[a]).address
                != (#[trigger] self@[b]).address by {
                assert(before[a].address != before[b].address);
            }
        }
        out
    }

    /// The number of actors that have not terminated.
    pub fn outstanding(&self) -> (r: usize)
        requires
            self.wf(),
        ensures
            r == outstanding(self@),
    {
        let n = self.states.len();
        let mut count: usize = 0;
        let mut i: usize = 0;
        while i < n
            invariant
                self.wf(),
                i <= n,
                n == self.states.len(),
                count <= i,
                count == outstanding(self@.take(i as int)),
            decreases n - i,
        {
            proof {
                assert(self@.take(i + 1).drop_last() =~= self@.take(i as int));
                assert(self@.take(i + 1).last() == self@[i as int]);
            }
            if self.states[i] != ActorState::Terminated {
                count = count + 1;
            }
            i = i + 1;
        }
        proof {
            assert(self@.take(n as int) =~= self@);
        }
        count
    }

    /// The next step of a shutdown that has been waiting for `waited_millis`
    /// milliseconds since `Shutdown` was sent.
    pub fn shutdown_step(&self, waited_millis: u64) -> (r: ShutdownStep)
        requires
            self.wf(),
        ensures
            r == shutdown_step_of(self@, self.grace_period(), waited_millis),
    {
        if self.outstanding() == 0 {
            ShutdownStep::Done
        } else if waited_millis < self.grace_millis {
            ShutdownStep::Wait(self.grace_millis - waited_millis)
        } else {
            ShutdownStep::Abort
        }
    }
}

} // verus!
