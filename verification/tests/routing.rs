use crosslink::envelope::Envelope;
use crosslink::error::CommsError;
use crosslink::router::Router;

const PING: u64 = 1;
const PONG: u64 = 2;

#[derive(Debug, Clone, Copy, PartialEq, Eq)]
enum Payload {
    Ping(u32),
    Pong(u32),
}

#[test]
fn register_sender_distinct_then_duplicate() {
    let mut router: Router<u64> = Router::new();
    let (tx1, _rx1) = tokio::sync::mpsc::channel::<Envelope<u64>>(4);
    let (tx2, _rx2) = tokio::sync::mpsc::channel::<Envelope<u64>>(4);
    let (tx3, _rx3) = tokio::sync::mpsc::channel::<Envelope<u64>>(4);

    assert!(router.register_sender(1, 10, tx1).is_ok());
    assert!(router.register_sender(2, 10, tx2).is_ok());
    assert_eq!(
        router.register_sender(1, 11, tx3),
        Err(CommsError::DuplicateRegistration)
    );
    assert!(router.sender_registered(1));
    assert!(router.sender_registered(2));
    assert!(!router.sender_registered(3));
}

#[test]
fn register_receiver_duplicate() {
    let mut router: Router<u64> = Router::default();
    let (_tx1, rx1) = tokio::sync::mpsc::channel::<Envelope<u64>>(4);
    let (_tx2, rx2) = tokio::sync::mpsc::channel::<Envelope<u64>>(4);

    assert!(router.register_receiver(5, 9, rx1).is_ok());
    assert_eq!(
        router.register_receiver(5, 9, rx2),
        Err(CommsError::DuplicateRegistration)
    );
}

#[test]
fn take_receiver_succeeds_exactly_once() {
    let mut router: Router<u64> = Router::new();
    let (tx, rx) = tokio::sync::mpsc::channel::<Envelope<u64>>(4);
    router.register_receiver(5, 9, rx).unwrap();
    assert!(router.receiver_claimable(5));

    let claimed = router.take_receiver(5, 9);
    assert!(claimed.is_ok());
    assert!(!router.receiver_claimable(5));
    assert!(router.receiver_registered(5));

    let again = router.take_receiver(5, 9);
    assert!(matches!(again, Err(CommsError::AlreadyClaimed)));

    // The claimed handle is the registered one: it is connected to `tx`.
    let mut rx = claimed.unwrap();
    tx.try_send(Envelope::new(9, 77)).unwrap();
    let got = rx.try_recv().unwrap();
    assert_eq!(got.type_tag, 9);
    assert_eq!(got.body, 77);
}

#[test]
fn take_receiver_error_cases() {
    let mut router: Router<u64> = Router::new();
    let (_tx, rx) = tokio::sync::mpsc::channel::<Envelope<u64>>(4);
    router.register_receiver(5, 9, rx).unwrap();

    assert!(matches!(
        router.take_receiver(6, 9),
        Err(CommsError::PathwayNotFound)
    ));
    assert!(matches!(
        router.take_receiver(5, 8),
        Err(CommsError::TypeMismatch)
    ));
    // The failed attempts left the slot unclaimed.
    assert!(router.take_receiver(5, 9).is_ok());
}

#[test]
fn send_type_mismatch_leaves_pathway_unchanged() {
    let mut router: Router<u64> = Router::new();
    let (tx, mut rx) = tokio::sync::mpsc::channel::<Envelope<u64>>(4);
    router.register_sender(1, 10, tx).unwrap();

    assert_eq!(
        router.send(1, Envelope::new(11, 42)),
        Err(CommsError::InternalInconsistency)
    );
    assert!(matches!(
        rx.try_recv(),
        Err(tokio::sync::mpsc::error::TryRecvError::Empty)
    ));

    assert!(router.send(1, Envelope::new(10, 42)).is_ok());
    let got = rx.try_recv().unwrap();
    assert_eq!(got.type_tag, 10);
    assert_eq!(got.body, 42);
}

#[test]
fn send_unknown_identity() {
    let router: Router<u64> = Router::new();
    assert_eq!(
        router.send(12, Envelope::new(1, 0)),
        Err(CommsError::PathwayNotFound)
    );
    assert_eq!(
        router.try_send(12, Envelope::new(1, 0)),
        Err(CommsError::PathwayNotFound)
    );
}

#[test]
fn capacity_backpressure_and_fifo() {
    let mut router: Router<u64> = Router::new();
    let (tx, mut rx) = tokio::sync::mpsc::channel::<Envelope<u64>>(2);
    router.register_sender(1, 7, tx).unwrap();

    assert!(router.send(1, Envelope::new(7, 100)).is_ok());
    assert!(router.send(1, Envelope::new(7, 101)).is_ok());
    // The pathway holds two unacknowledged messages: a further send would
    // suspend, which its non-suspending variant reports as `PathwayFull`.
    assert_eq!(
        router.try_send(1, Envelope::new(7, 102)),
        Err(CommsError::PathwayFull)
    );

    // Dequeuing one value frees the capacity the suspended send waits for.
    let first = rx.blocking_recv().unwrap();
    assert_eq!(first.body, 100);
    assert!(router.try_send(1, Envelope::new(7, 102)).is_ok());

    // Per-pathway order is FIFO: arrival order equals delivery order.
    assert_eq!(rx.blocking_recv().unwrap().body, 101);
    assert_eq!(rx.blocking_recv().unwrap().body, 102);
}

#[test]
fn send_suspends_until_one_value_is_dequeued() {
    let mut router: Router<u64> = Router::new();
    let (tx, mut rx) = tokio::sync::mpsc::channel::<Envelope<u64>>(1);
    router.register_sender(1, 7, tx).unwrap();
    // One unacknowledged send fills the pathway of capacity one.
    assert!(router.send(1, Envelope::new(7, 0)).is_ok());

    // A second send must suspend; it runs on another thread and can only
    // complete once a value is dequeued here.
    let rt = tokio::runtime::Builder::new_multi_thread()
        .worker_threads(1)
        .build()
        .unwrap();
    let router = std::sync::Arc::new(router);
    let sender = std::sync::Arc::clone(&router);
    let suspended = rt.spawn_blocking(move || sender.send(1, Envelope::new(7, 1)));

    let first = rx.blocking_recv().unwrap();
    assert_eq!(first.body, 0);
    // The dequeue freed one slot, so the suspended send completes; were it
    // still suspended, this join would hang instead of returning.
    let outcome = rt.block_on(suspended).unwrap();
    assert_eq!(outcome, Ok(()));
    assert_eq!(rx.blocking_recv().unwrap().body, 1);
}

#[test]
fn send_after_receiver_dropped_fails() {
    let mut router: Router<u64> = Router::new();
    let (tx, rx) = tokio::sync::mpsc::channel::<Envelope<u64>>(1);
    router.register_sender(3, 2, tx).unwrap();
    drop(rx);

    assert_eq!(
        router.send(3, Envelope::new(2, 5)),
        Err(CommsError::SendFailed)
    );
    assert_eq!(
        router.try_send(3, Envelope::new(2, 6)),
        Err(CommsError::SendFailed)
    );
}

#[test]
fn error_descriptions_are_distinct() {
    let all = [
        CommsError::SendFailed,
        CommsError::PathwayFull,
        CommsError::DuplicateRegistration,
        CommsError::AmbiguousDispatch,
        CommsError::PathwayNotFound,
        CommsError::LinkNotFound,
        CommsError::TypeMismatch,
        CommsError::AlreadyClaimed,
        CommsError::InternalInconsistency,
    ];
    for (i, a) in all.iter().enumerate() {
        assert!(!a.describe().is_empty());
        for b in all.iter().skip(i + 1) {
            assert_ne!(a.describe(), b.describe());
        }
    }
    assert_eq!(
        CommsError::AlreadyClaimed.describe(),
        "receiver already claimed"
    );
}

#[test]
fn direct_roundtrip_with_enum_payload() {
    let mut router: Router<Payload> = Router::new();
    let (tx, rx) = tokio::sync::mpsc::channel::<Envelope<Payload>>(4);
    router.register_sender(1, PING, tx).unwrap();
    router.register_receiver(2, PING, rx).unwrap();

    assert!(router
        .send(1, Envelope::new(PING, Payload::Ping(3)))
        .is_ok());
    let mut rx = router.take_receiver(2, PING).unwrap();
    let got = rx.blocking_recv().unwrap();
    assert_eq!(got.type_tag, PING);
    assert_eq!(got.body, Payload::Ping(3));
}
