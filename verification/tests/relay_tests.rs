use fiction_archiver::chapter::Chapter;
use fiction_archiver::relay::Relay;
use fiction_archiver::relay::RelayRecv;

fn chapter(name: &str, byte: u8) -> Chapter {
    Chapter { name: String::from(name), content: vec![byte] }
}

#[test]
fn overflow_drops_oldest_without_blocking_producer() {
    let mut relay = Relay::new(3);
    for k in 0..5u8 {
        let name = format!("ch{k}");
        let r = relay.send(chapter(&name, k));
        assert!(r.is_ok(), "a send must never block or fail while a consumer exists");
    }
    // The consumer stalled through 5 sends into capacity 3: its next read
    // observes how many chapters it missed, then resumes with the first
    // undropped one.
    match relay.recv() {
        RelayRecv::Lagged(n) => assert_eq!(n, 2),
        _ => panic!("expected a lag notification"),
    }
    match relay.recv() {
        RelayRecv::Item(c) => {
            assert_eq!(c.name, "ch2");
            assert_eq!(c.content, vec![2u8]);
        },
        _ => panic!("expected the first undropped chapter"),
    }
    match relay.recv() {
        RelayRecv::Item(c) => assert_eq!(c.name, "ch3"),
        _ => panic!("expected the next chapter"),
    }
    match relay.recv() {
        RelayRecv::Item(c) => assert_eq!(c.name, "ch4"),
        _ => panic!("expected the next chapter"),
    }
    // Nothing pending and the producer still open: the consumer waits.
    assert!(matches!(relay.recv(), RelayRecv::Empty));
}

#[test]
fn closed_producer_with_no_pending_items_signals_end_of_stream() {
    let mut relay = Relay::new(5);
    assert!(relay.send(chapter("a", 1)).is_ok());
    assert!(relay.send(chapter("b", 2)).is_ok());
    relay.close_sender();
    match relay.recv() {
        RelayRecv::Item(c) => assert_eq!(c.name, "a"),
        _ => panic!("expected the first chapter"),
    }
    match relay.recv() {
        RelayRecv::Item(c) => assert_eq!(c.name, "b"),
        _ => panic!("expected the second chapter"),
    }
    assert!(matches!(relay.recv(), RelayRecv::Closed));
    assert!(matches!(relay.recv(), RelayRecv::Closed));
}

#[test]
fn send_fails_only_without_a_consumer() {
    let mut relay = Relay::new(2);
    assert!(relay.send(chapter("a", 1)).is_ok());
    relay.close_receiver();
    assert!(relay.send(chapter("b", 2)).is_err());
}
