use tokio::sync::mpsc::error::{TryRecvError, TrySendError};
use yak_core::message::MAILBOX_CAPACITY;
use yak_core::{message_channel, Address, Delivery, Manager, Message};

#[test]
fn message_channel_has_the_default_capacity() {
    let (tx, rx) = message_channel();
    assert_eq!(MAILBOX_CAPACITY, 10);
    assert_eq!(tx.max_capacity(), 10);
    assert_eq!(rx.max_capacity(), 10);
    assert_eq!(tx.capacity(), 10);
    assert!(!rx.is_closed());
    assert!(rx.is_empty());
}

#[test]
fn mailbox_keeps_the_order_of_one_sender() {
    let (tx, mut rx) = message_channel();
    tx.try_send(Message::Ping(1)).unwrap();
    tx.try_send(Message::Ping(2)).unwrap();
    tx.try_send(Message::Ping(3)).unwrap();
    assert_eq!(rx.try_recv(), Ok(Message::Ping(1)));
    assert_eq!(rx.try_recv(), Ok(Message::Ping(2)));
    assert_eq!(rx.try_recv(), Ok(Message::Ping(3)));
    assert_eq!(rx.try_recv(), Err(TryRecvError::Empty));
}

#[test]
fn full_mailbox_holds_the_sender_back_and_drops_nothing() {
    let mut m = Manager::startup();
    let a = Address::try_from("w1").unwrap();
    let mut w = m.spawn_worker(a.clone(), ()).unwrap();
    for n in 0..10 {
        assert!(matches!(m.send(&a, Message::Ping(n)), Ok(Delivery::Done)));
    }
    // The eleventh message finds no room: the send neither fails nor loses
    // it, and the mailbox is not closed.
    let (tx, held) = match m.send(&a, Message::Ping(10)) {
        Ok(Delivery::Pending(tx, held)) => (tx.clone(), held),
        other => panic!("expected a pending message, got {:?}", other),
    };
    assert_eq!(held, Message::Ping(10));
    assert!(!tx.is_closed());
    assert!(matches!(tx.try_send(Message::Pong), Err(TrySendError::Full(Message::Pong))));

    // Once the actor has taken one message, the send goes through.
    assert_eq!(w.receiver_mut().try_recv(), Ok(Message::Ping(0)));
    assert!(matches!(m.send(&a, held), Ok(Delivery::Done)));
    for n in 1..=10 {
        assert_eq!(w.receiver_mut().try_recv(), Ok(Message::Ping(n)));
    }
    assert_eq!(w.receiver_mut().try_recv(), Err(TryRecvError::Empty));
}

#[test]
fn blocked_sender_resumes_when_the_actor_drains() {
    let (tx, mut rx) = message_channel();
    for n in 0..10 {
        tx.try_send(Message::Ping(n)).unwrap();
    }
    let rt = tokio::runtime::Builder::new_current_thread().enable_all().build().unwrap();
    rt.block_on(async {
        let sender = tokio::spawn(async move { tx.send(Message::Ping(10)).await });
        tokio::task::yield_now().await;
        assert!(!sender.is_finished());
        assert_eq!(rx.recv().await, Some(Message::Ping(0)));
        assert!(sender.await.unwrap().is_ok());
        for n in 1..=10 {
            assert_eq!(rx.recv().await, Some(Message::Ping(n)));
        }
    });
}
