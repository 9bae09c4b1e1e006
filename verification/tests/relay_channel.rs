use robot_agent::relay::RelayChannel;
use robot_agent::relay::RelayRecv;

#[test]
fn chunks_arrive_in_send_order() {
    let mut ch = RelayChannel::new(10, 0);
    let mut cur = ch.subscribe();
    ch.send("one".to_string());
    ch.send("two".to_string());
    ch.send("three".to_string());
    let (chunks, missed) = ch.drain(&mut cur);
    assert_eq!(missed, 0);
    assert_eq!(chunks, vec!["one".to_string(), "two".to_string(), "three".to_string()]);
    assert!(matches!(ch.recv(&mut cur), RelayRecv::Empty));
}

#[test]
fn slow_subscriber_gets_explicit_overflow_then_newest_chunks() {
    let mut ch = RelayChannel::new(3, 0);
    let mut cur = ch.subscribe();
    for i in 0..5 {
        ch.send(format!("chunk-{}", i));
    }
    // first receive signals exactly how many chunks were lost
    match ch.recv(&mut cur) {
        RelayRecv::Lagged(n) => assert_eq!(n, 2),
        _ => panic!("expected an explicit overflow signal"),
    }
    // then the retained most recent `capacity` chunks follow, in order
    let (chunks, _) = ch.drain(&mut cur);
    assert_eq!(
        chunks,
        vec!["chunk-2".to_string(), "chunk-3".to_string(), "chunk-4".to_string()]
    );
    assert!(matches!(ch.recv(&mut cur), RelayRecv::Empty));
}

#[test]
fn drain_reports_overflow_count() {
    let mut ch = RelayChannel::new(2, 0);
    let mut cur = ch.subscribe();
    for i in 0..7 {
        ch.send(format!("{}", i));
    }
    let (chunks, missed) = ch.drain(&mut cur);
    assert_eq!(missed, 5);
    assert_eq!(chunks, vec!["5".to_string(), "6".to_string()]);
}

#[test]
fn subscriber_sees_only_chunks_sent_after_subscribing() {
    let mut ch = RelayChannel::new(5, 0);
    ch.send("before".to_string());
    let mut cur = ch.subscribe();
    ch.send("after".to_string());
    match ch.recv(&mut cur) {
        RelayRecv::Chunk(s) => assert_eq!(s, "after"),
        _ => panic!("expected only the chunk sent after subscribing"),
    }
    assert!(matches!(ch.recv(&mut cur), RelayRecv::Empty));
}
