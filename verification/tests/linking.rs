use crosslink::envelope::Envelope;
use crosslink::error::CommsError;
use crosslink::link::{setup_link, EndpointPlan, LinkPlan};
use crosslink::router::{PathwayKey, Router};

const EXCHANGE: u64 = 100;
const PINGER: u64 = 1;
const PONGER: u64 = 2;
const PING: u64 = 1;
const PONG: u64 = 2;

#[derive(Debug, Clone, Copy, PartialEq, Eq)]
enum Payload {
    Ping(u32),
    Pong(u32),
}

fn exchange_plan(capacity: usize) -> LinkPlan {
    LinkPlan {
        link_id: EXCHANGE,
        first: EndpointPlan {
            name: PINGER,
            sender_id: 11,
            receiver_id: 12,
            sends_tag: PING,
        },
        second: EndpointPlan {
            name: PONGER,
            sender_id: 21,
            receiver_id: 22,
            sends_tag: PONG,
        },
        capacity,
    }
}

#[test]
fn register_pathway_ambiguous_same_link_independent_links() {
    let mut router: Router<u64> = Router::new();
    let (tx1, _rx1) = tokio::sync::mpsc::channel::<Envelope<u64>>(4);
    let (tx2, _rx2) = tokio::sync::mpsc::channel::<Envelope<u64>>(4);
    let (tx3, _rx3) = tokio::sync::mpsc::channel::<Envelope<u64>>(4);
    let (tx4, _rx4) = tokio::sync::mpsc::channel::<Envelope<u64>>(4);

    assert!(router.register_pathway(1, 1, 2, 5, tx1).is_ok());
    // The same message type twice under one link, even via another key.
    assert_eq!(
        router.register_pathway(1, 2, 1, 5, tx2),
        Err(CommsError::AmbiguousDispatch)
    );
    // The same message type under a different link is independent.
    assert!(router.register_pathway(2, 1, 2, 5, tx3).is_ok());
    // The same key twice.
    assert_eq!(
        router.register_pathway(1, 1, 2, 6, tx4),
        Err(CommsError::DuplicateRegistration)
    );
}

#[test]
fn send_on_link_error_cases() {
    let mut router: Router<u64> = Router::new();
    let (tx, _rx) = tokio::sync::mpsc::channel::<Envelope<u64>>(4);
    router.register_pathway(1, 1, 2, 5, tx).unwrap();

    assert_eq!(
        router.send_on_link(9, Envelope::new(5, 0)),
        Err(CommsError::LinkNotFound)
    );
    assert_eq!(
        router.send_on_link(1, Envelope::new(6, 0)),
        Err(CommsError::PathwayNotFound)
    );
}

#[test]
fn manually_registered_pathway_delivers() {
    let mut router: Router<u64> = Router::new();
    let (tx, mut rx) = tokio::sync::mpsc::channel::<Envelope<u64>>(4);
    router.register_pathway(1, 1, 2, 5, tx).unwrap();

    assert!(router.send_on_link(1, Envelope::new(5, 44)).is_ok());
    let got = rx.try_recv().unwrap();
    assert_eq!(got.type_tag, 5);
    assert_eq!(got.body, 44);
}

#[test]
fn setup_link_registers_both_schemes() {
    let mut router: Router<u64> = Router::new();
    setup_link(&mut router, &exchange_plan(8));

    assert!(router.sender_registered(11));
    assert!(router.sender_registered(21));
    assert!(router.receiver_claimable(12));
    assert!(router.receiver_claimable(22));
    assert!(router.link_registered(EXCHANGE));
    assert!(router.link_tag_mapped(EXCHANGE, PING));
    assert!(router.link_tag_mapped(EXCHANGE, PONG));
    assert!(router.pathway_registered(PathwayKey {
        link: EXCHANGE,
        source: PINGER,
        target: PONGER,
    }));
    assert!(router.pathway_registered(PathwayKey {
        link: EXCHANGE,
        source: PONGER,
        target: PINGER,
    }));
    assert!(!router.link_registered(EXCHANGE + 1));
}

#[test]
fn ping_pong_three_exchanges() {
    let mut router: Router<Payload> = Router::new();
    setup_link(&mut router, &exchange_plan(8));

    // The pinger receives pongs, the ponger receives pings.
    let mut pinger_rx = router.take_receiver(12, PONG).unwrap();
    let mut ponger_rx = router.take_receiver(22, PING).unwrap();

    let mut exchanges = 0u32;
    for n in 0..3u32 {
        // Pinger sends a ping; the tag selects the forward direction.
        assert!(router
            .send_on_link(EXCHANGE, Envelope::new(PING, Payload::Ping(n)))
            .is_ok());

        // Ponger receives it and echoes the same number back as a pong.
        let ping = ponger_rx.blocking_recv().unwrap();
        assert_eq!(ping.type_tag, PING);
        assert_eq!(ping.body, Payload::Ping(n));
        let echoed = match ping.body {
            Payload::Ping(k) => k,
            Payload::Pong(_) => panic!("ponger received a pong"),
        };
        assert!(router
            .send_on_link(EXCHANGE, Envelope::new(PONG, Payload::Pong(echoed)))
            .is_ok());

        // Pinger awaits the echo before the next ping.
        let pong = pinger_rx.blocking_recv().unwrap();
        assert_eq!(pong.type_tag, PONG);
        assert_eq!(pong.body, Payload::Pong(n));
        exchanges += 1;
    }
    assert_eq!(exchanges, 3);
}

#[test]
fn link_directions_are_fifo() {
    let mut router: Router<u64> = Router::new();
    setup_link(&mut router, &exchange_plan(8));
    let mut ponger_rx = router.take_receiver(22, PING).unwrap();
    let mut pinger_rx = router.take_receiver(12, PONG).unwrap();

    for n in 0..5u64 {
        router
            .send_on_link(EXCHANGE, Envelope::new(PING, n))
            .unwrap();
        router
            .send_on_link(EXCHANGE, Envelope::new(PONG, 100 + n))
            .unwrap();
    }
    for n in 0..5u64 {
        assert_eq!(ponger_rx.blocking_recv().unwrap().body, n);
        assert_eq!(pinger_rx.blocking_recv().unwrap().body, 100 + n);
    }
}

#[test]
fn direct_and_link_scheme_share_pathways() {
    let mut router: Router<u64> = Router::new();
    setup_link(&mut router, &exchange_plan(8));
    let mut ponger_rx = router.take_receiver(22, PING).unwrap();

    // A ping sent under the identity scheme and one sent under the link
    // scheme arrive on the same pathway, in order.
    router.send(11, Envelope::new(PING, 1)).unwrap();
    router.send_on_link(EXCHANGE, Envelope::new(PING, 2)).unwrap();
    assert_eq!(ponger_rx.blocking_recv().unwrap().body, 1);
    assert_eq!(ponger_rx.blocking_recv().unwrap().body, 2);
}

#[test]
fn link_end_of_stream_after_drop() {
    let mut router: Router<u64> = Router::new();
    setup_link(&mut router, &exchange_plan(1));
    let mut ponger_rx = router.take_receiver(22, PING).unwrap();

    router.send(11, Envelope::new(PING, 9)).unwrap();
    // Dropping the router drops every producer handle of the pathway; the
    // claimed receiver drains what was delivered, then observes end of
    // stream.
    drop(router);
    assert_eq!(ponger_rx.blocking_recv().unwrap().body, 9);
    assert!(ponger_rx.blocking_recv().is_none());
}
