use chirp::broadcaster::{Broadcaster, CHANNEL_CAPACITY};

#[test]
fn a_new_subscriber_immediately_receives_connected() {
    let mut b = Broadcaster::new();
    let id = b.new_client();
    let events = b.take_events(id);
    assert_eq!(events, vec!["data: connected\n\n".to_string()]);
}

#[test]
fn events_fan_out_to_every_open_subscriber() {
    let mut b = Broadcaster::new();
    let one = b.new_client();
    let two = b.new_client();
    b.take_events(one);
    b.take_events(two);
    b.send("hello");
    assert_eq!(b.take_events(one), vec!["data: hello\n\n".to_string()]);
    assert_eq!(b.take_events(two), vec!["data: hello\n\n".to_string()]);
}

#[test]
fn written_out_escapes_are_applied_before_framing() {
    let mut b = Broadcaster::new();
    let id = b.new_client();
    b.take_events(id);
    b.send("one\\ntwo");
    assert_eq!(b.take_events(id), vec!["data: one\ntwo\n\n".to_string()]);
}

#[test]
fn a_closed_subscriber_is_reaped_by_the_next_heartbeat() {
    let mut b = Broadcaster::new();
    let gone = b.new_client();
    let kept = b.new_client();
    b.take_events(gone);
    b.take_events(kept);

    b.close_client(gone);
    b.remove_stale_clients();

    // the closed channel is no longer registered; a subsequent send
    // delivers nothing to it
    b.send("after");
    assert_eq!(b.take_events(gone), Vec::<String>::new());
    // the surviving channel got the heartbeat ping and then the event
    assert_eq!(
        b.take_events(kept),
        vec!["data: ping\n\n".to_string(), "data: after\n\n".to_string()]
    );
    assert_eq!(b.clients.len(), 1);
}

#[test]
fn a_full_channel_drops_events_and_is_reaped() {
    let mut b = Broadcaster::new();
    let slow = b.new_client();
    let quick = b.new_client();
    b.take_events(slow);
    b.take_events(quick);

    // fill the slow channel to its capacity, draining the quick one
    for n in 0..CHANNEL_CAPACITY {
        b.send(&format!("event {}", n));
        b.take_events(quick);
    }
    // the overflowing event is dropped for the full channel only
    b.send("overflow");
    assert_eq!(b.take_events(quick), vec!["data: overflow\n\n".to_string()]);

    // refill and let the heartbeat observe the full channel
    for n in 0..CHANNEL_CAPACITY {
        b.send(&format!("again {}", n));
        b.take_events(quick);
        b.take_events(slow);
        if n == 0 {
            break;
        }
    }
    // fill slow to capacity once more without draining it
    for n in 0..CHANNEL_CAPACITY {
        b.send(&format!("fill {}", n));
        b.take_events(quick);
    }
    b.remove_stale_clients();
    assert_eq!(b.clients.len(), 1);
    assert_eq!(b.clients[0].id, quick);
}

#[test]
fn a_malformed_escape_drops_the_event_whole() {
    let mut b = Broadcaster::new();
    let id = b.new_client();
    b.take_events(id);
    // a trailing lone backslash is not a valid written-out escape
    b.send("broken\\");
    assert_eq!(b.take_events(id), Vec::<String>::new());
}
