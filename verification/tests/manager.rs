use yak_core::manager::DEFAULT_GRACE_MILLIS;
use yak_core::message::MAILBOX_CAPACITY;
use yak_core::{
    ActorState, Address, Delivery, Manager, ManagerError, Message, Offer, ShutdownStep,
};

fn addr(s: &str) -> Address {
    Address::try_from(s).unwrap()
}

#[test]
fn startup_is_empty() {
    let m = Manager::startup();
    assert_eq!(m.len(), 0);
    assert_eq!(m.outstanding(), 0);
    assert_eq!(m.find(&addr("w1")), None);
    assert_eq!(m.state_of(&addr("w1")), None);
    assert!(m.sender_at(0).is_none());
    assert_eq!(MAILBOX_CAPACITY, 10);
    assert_eq!(DEFAULT_GRACE_MILLIS, 5000);
}

#[test]
fn startup_with_refuses_impossible_capacity() {
    assert!(Manager::startup_with(0, 100).is_none());
    assert!(Manager::startup_with(usize::MAX, 100).is_none());
    assert!(Manager::startup_with(usize::MAX / 8 + 1, 100).is_none());
    assert!(Manager::startup_with(1, 0).is_some());
    assert!(Manager::startup_with(usize::MAX / 8, 100).is_some());
}

#[test]
fn startup_with_sets_capacity_and_grace() {
    let mut m = Manager::startup_with(3, 250).unwrap();
    let mut w = m.spawn_worker(addr("w1"), ()).unwrap();
    assert_eq!(w.receiver_mut().max_capacity(), 3);
    assert_eq!(m.sender_at(0).unwrap().max_capacity(), 3);
    assert_eq!(m.shutdown_step(0), ShutdownStep::Wait(250));
    assert_eq!(m.shutdown_step(249), ShutdownStep::Wait(1));
    assert_eq!(m.shutdown_step(250), ShutdownStep::Abort);
}

#[test]
fn spawn_registers_a_running_actor() {
    let mut m = Manager::startup();
    let mut w = m.spawn_worker(addr("w1"), 7u8).unwrap();
    assert_eq!(w.addr(), &addr("w1"));
    assert_eq!(w.current_state(), ActorState::Running);
    assert_eq!(*w.worker_mut(), 7);
    assert_eq!(w.receiver_mut().max_capacity(), 10);
    assert!(!w.receiver_mut().is_closed());
    assert_eq!(m.len(), 1);
    assert_eq!(m.find(&addr("w1")), Some(0));
    assert_eq!(m.state_of(&addr("w1")), Some(ActorState::Running));
    assert_eq!(m.outstanding(), 1);
    assert_eq!(m.sender_at(0).unwrap().max_capacity(), 10);
    assert!(m.sender_at(1).is_none());
}

#[test]
fn second_spawn_under_same_address_is_refused() {
    let mut m = Manager::startup();
    let mut first = m.spawn_worker(addr("w1"), 1u8).unwrap();
    let second = m.spawn_worker(addr("w1"), 2u8);
    assert_eq!(second.err(), Some(ManagerError::AddressInUse));
    assert_eq!(m.len(), 1);
    assert_eq!(m.state_of(&addr("w1")), Some(ActorState::Running));

    // The first actor's mailbox still is the target of its address.
    assert!(matches!(m.send(&addr("w1"), Message::Ping(5)), Ok(Delivery::Done)));
    assert_eq!(first.receiver_mut().try_recv().unwrap(), Message::Ping(5));
}

#[test]
fn addresses_are_case_sensitive() {
    let mut m = Manager::startup();
    m.spawn_worker(addr("w1"), ()).unwrap();
    assert!(m.spawn_worker(addr("W1"), ()).is_ok());
    assert_eq!(m.find(&addr("W1")), Some(1));
}

#[test]
fn send_to_unknown_address_is_refused() {
    let mut m = Manager::startup();
    let mut w = m.spawn_worker(addr("w1"), ()).unwrap();
    let r = m.send(&addr("nobody"), Message::Ping(1));
    assert_eq!(r.err(), Some(ManagerError::UnknownAddress));
    assert_eq!(m.target(&addr("nobody")).err(), Some(ManagerError::UnknownAddress));
    assert!(w.receiver_mut().try_recv().is_err());
    assert_eq!(m.len(), 1);
}

#[test]
fn send_reaches_the_mailbox_of_the_address() {
    let mut m = Manager::startup();
    let mut w1 = m.spawn_worker(addr("w1"), ()).unwrap();
    let mut w2 = m.spawn_worker(addr("w2"), ()).unwrap();
    assert!(matches!(m.send(&addr("w2"), Message::Ping(9)), Ok(Delivery::Done)));
    assert!(w1.receiver_mut().try_recv().is_err());
    assert_eq!(w2.receiver_mut().try_recv().unwrap(), Message::Ping(9));
    assert!(w2.receiver_mut().try_recv().is_err());
}

#[test]
fn target_names_the_mailbox_of_the_address() {
    let mut m = Manager::startup();
    let mut w1 = m.spawn_worker(addr("w1"), ()).unwrap();
    let mut w2 = m.spawn_worker(addr("w2"), ()).unwrap();
    let tx = m.target(&addr("w2")).unwrap();
    assert!(tx.same_channel(m.sender_at(1).unwrap()));
    assert!(!tx.same_channel(m.sender_at(0).unwrap()));
    tx.try_send(Message::Pong).unwrap();
    assert!(w1.receiver_mut().try_recv().is_err());
    assert_eq!(w2.receiver_mut().try_recv().unwrap(), Message::Pong);
}

#[test]
fn send_to_a_closed_mailbox_is_refused() {
    let mut m = Manager::startup();
    let mut w = m.spawn_worker(addr("w1"), ()).unwrap();
    w.receiver_mut().close();
    assert_eq!(m.send(&addr("w1"), Message::Pong).err(), Some(ManagerError::TargetClosed));
    // The registry has not heard of the actor's end yet: the address still has a target.
    assert!(m.target(&addr("w1")).is_ok());
    drop(w);
    assert_eq!(m.send(&addr("w1"), Message::Pong).err(), Some(ManagerError::TargetClosed));
}

#[test]
fn delivery_follows_the_answer_of_the_mailbox() {
    let (tx, _rx) = yak_core::message_channel();
    assert!(matches!(Manager::delivery(&tx, Offer::Accepted), Ok(Delivery::Done)));
    match Manager::delivery(&tx, Offer::Full(Message::Ping(3))) {
        Ok(Delivery::Pending(again, msg)) => {
            assert!(again.same_channel(&tx));
            assert_eq!(msg, Message::Ping(3));
        }
        other => panic!("expected a pending message, got {:?}", other),
    }
    assert_eq!(
        Manager::delivery(&tx, Offer::Closed(Message::Pong)).err(),
        Some(ManagerError::TargetClosed)
    );
}

#[test]
fn signal_is_pending_only_on_a_full_mailbox() {
    assert!(Manager::signal_pending(&Offer::Full(Message::Shutdown)));
    assert!(!Manager::signal_pending(&Offer::Accepted));
    assert!(!Manager::signal_pending(&Offer::Closed(Message::Shutdown)));
}

#[test]
fn sent_maps_the_mailbox_answer() {
    let mut m = Manager::startup();
    let mut w = m.spawn_worker(addr("w1"), ()).unwrap();
    let tx = m.target(&addr("w1")).unwrap();
    assert_eq!(Manager::sent(tx.blocking_send(Message::Pong)), Ok(()));
    w.receiver_mut().close();
    assert_eq!(
        Manager::sent(tx.blocking_send(Message::Pong)),
        Err(ManagerError::TargetClosed)
    );
}

#[test]
fn begin_shutdown_targets_every_actor_that_has_not_terminated() {
    let mut m = Manager::startup();
    let mut w1 = m.spawn_worker(addr("w1"), ()).unwrap();
    let _w2 = m.spawn_worker(addr("w2"), ()).unwrap();
    let _w3 = m.spawn_worker(addr("w3"), ()).unwrap();
    assert!(m.task_exited(&addr("w2")));
    assert_eq!(m.begin_shutdown(), vec![0, 2]);
    assert_eq!(m.state_of(&addr("w1")), Some(ActorState::Draining));
    assert_eq!(m.state_of(&addr("w2")), Some(ActorState::Terminated));
    assert_eq!(m.state_of(&addr("w3")), Some(ActorState::Draining));
    assert_eq!(m.outstanding(), 2);
    // Nothing has been sent yet.
    assert!(w1.receiver_mut().try_recv().is_err());
    // A draining actor still is a target of messages and of a repeated shutdown.
    assert!(m.send(&addr("w1"), Message::Pong).is_ok());
    assert_eq!(m.begin_shutdown(), vec![0, 2]);
}

#[test]
fn shutdown_signals_every_actor_that_has_not_terminated() {
    let mut m = Manager::startup();
    let mut w1 = m.spawn_worker(addr("w1"), ()).unwrap();
    let mut w2 = m.spawn_worker(addr("w2"), ()).unwrap();
    let mut w3 = m.spawn_worker(addr("w3"), ()).unwrap();
    assert!(m.task_exited(&addr("w2")));
    assert!(matches!(m.send(&addr("w3"), Message::Ping(1)), Ok(Delivery::Done)));
    assert_eq!(m.shutdown(), Vec::<usize>::new());
    assert_eq!(m.state_of(&addr("w1")), Some(ActorState::Draining));
    assert_eq!(m.state_of(&addr("w2")), Some(ActorState::Terminated));
    assert_eq!(m.state_of(&addr("w3")), Some(ActorState::Draining));
    assert_eq!(w1.receiver_mut().try_recv(), Ok(Message::Shutdown));
    assert!(w2.receiver_mut().try_recv().is_err());
    // The signal queues up behind what was sent before it.
    assert_eq!(w3.receiver_mut().try_recv(), Ok(Message::Ping(1)));
    assert_eq!(w3.receiver_mut().try_recv(), Ok(Message::Shutdown));
}

#[test]
fn shutdown_is_not_held_up_by_a_full_mailbox() {
    let mut m = Manager::startup_with(2, 1000).unwrap();
    let mut w1 = m.spawn_worker(addr("w1"), ()).unwrap();
    let mut w2 = m.spawn_worker(addr("w2"), ()).unwrap();
    let mut w3 = m.spawn_worker(addr("w3"), ()).unwrap();
    for n in 0..2 {
        assert!(matches!(m.send(&addr("w2"), Message::Ping(n)), Ok(Delivery::Done)));
    }
    w1.receiver_mut().close();
    // The closed mailbox needs no signal, the full one still needs it, and
    // the one behind them has it.
    assert_eq!(m.shutdown(), vec![1]);
    assert_eq!(w3.receiver_mut().try_recv(), Ok(Message::Shutdown));
    assert_eq!(w2.receiver_mut().try_recv(), Ok(Message::Ping(0)));
    assert_eq!(w2.receiver_mut().try_recv(), Ok(Message::Ping(1)));
    assert!(w2.receiver_mut().try_recv().is_err());
    assert!(w1.receiver_mut().try_recv().is_err());
    for a in ["w1", "w2", "w3"] {
        assert_eq!(m.state_of(&addr(a)), Some(ActorState::Draining));
    }
}

#[test]
fn task_exited_marks_only_that_actor() {
    let mut m = Manager::startup();
    let _w1 = m.spawn_worker(addr("w1"), ()).unwrap();
    let _w2 = m.spawn_worker(addr("w2"), ()).unwrap();
    assert!(!m.task_exited(&addr("w9")));
    assert_eq!(m.outstanding(), 2);
    assert!(m.task_exited(&addr("w1")));
    assert_eq!(m.outstanding(), 1);
    assert_eq!(m.state_of(&addr("w1")), Some(ActorState::Terminated));
    assert_eq!(m.state_of(&addr("w2")), Some(ActorState::Running));
    assert_eq!(m.send(&addr("w1"), Message::Pong).err(), Some(ManagerError::TargetClosed));
    assert!(m.send(&addr("w2"), Message::Pong).is_ok());
    // An address stays taken after its actor has ended.
    assert_eq!(m.spawn_worker(addr("w1"), ()).err(), Some(ManagerError::AddressInUse));
}

#[test]
fn shutdown_step_follows_the_grace_period() {
    let mut m = Manager::startup();
    assert_eq!(m.shutdown_step(0), ShutdownStep::Done);
    let _w1 = m.spawn_worker(addr("w1"), ()).unwrap();
    m.shutdown();
    assert_eq!(m.shutdown_step(0), ShutdownStep::Wait(5000));
    assert_eq!(m.shutdown_step(1200), ShutdownStep::Wait(3800));
    assert_eq!(m.shutdown_step(4999), ShutdownStep::Wait(1));
    assert_eq!(m.shutdown_step(5000), ShutdownStep::Abort);
    assert_eq!(m.shutdown_step(u64::MAX), ShutdownStep::Abort);
    assert_eq!(m.force_terminated(), vec![0]);
    assert_eq!(m.force_terminated(), Vec::<usize>::new());
    assert_eq!(m.shutdown_step(u64::MAX), ShutdownStep::Done);
    assert_eq!(m.state_of(&addr("w1")), Some(ActorState::Terminated));
    assert_eq!(m.len(), 1);
}

#[test]
fn force_terminated_names_those_that_did_not_end_in_time() {
    let mut m = Manager::startup();
    let _w1 = m.spawn_worker(addr("w1"), ()).unwrap();
    let _w2 = m.spawn_worker(addr("w2"), ()).unwrap();
    let _w3 = m.spawn_worker(addr("w3"), ()).unwrap();
    m.shutdown();
    assert!(m.task_exited(&addr("w2")));
    assert_eq!(m.force_terminated(), vec![0, 2]);
    assert_eq!(m.outstanding(), 0);
    assert_eq!(m.len(), 3);
    for a in ["w1", "w2", "w3"] {
        assert_eq!(m.state_of(&addr(a)), Some(ActorState::Terminated));
        assert_eq!(m.send(&addr(a), Message::Pong).err(), Some(ManagerError::TargetClosed));
    }
}

#[test]
fn second_shutdown_is_a_no_op() {
    let mut m = Manager::startup();
    assert_eq!(m.shutdown(), Vec::<usize>::new());
    let mut w1 = m.spawn_worker(addr("w1"), ()).unwrap();
    let _w2 = m.spawn_worker(addr("w2"), ()).unwrap();
    assert_eq!(m.shutdown(), Vec::<usize>::new());
    assert_eq!(w1.receiver_mut().try_recv(), Ok(Message::Shutdown));
    m.task_exited(&addr("w1"));
    m.task_exited(&addr("w2"));
    assert_eq!(m.shutdown_step(0), ShutdownStep::Done);
    assert_eq!(m.begin_shutdown(), Vec::<usize>::new());
    assert_eq!(m.shutdown(), Vec::<usize>::new());
    assert!(w1.receiver_mut().try_recv().is_err());
    assert_eq!(m.shutdown_step(0), ShutdownStep::Done);
    assert_eq!(m.state_of(&addr("w1")), Some(ActorState::Terminated));
    assert_eq!(m.state_of(&addr("w2")), Some(ActorState::Terminated));
}

#[test]
fn manager_error_in_words() {
    assert_eq!(ManagerError::UnknownAddress.to_string(), "unknown address");
    assert_eq!(ManagerError::TargetClosed.to_string(), "send error");
    assert_eq!(ManagerError::AddressInUse.to_string(), "address is already in use");
}
