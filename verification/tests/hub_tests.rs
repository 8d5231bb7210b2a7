use georacer_server::hub::Hub;
use georacer_server::models::GameMessage;

fn msg(d: u64) -> GameMessage {
    GameMessage::Countdown { duration: d }
}

fn duration_of(m: &GameMessage) -> u64 {
    match m {
        GameMessage::Countdown { duration } => *duration,
        other => panic!("expected a countdown message, got {other:?}"),
    }
}

#[test]
fn messages_arrive_in_publish_order() {
    let mut hub = Hub::new(10);
    let mut r = hub.subscribe();
    hub.publish(msg(1));
    hub.publish(msg(2));
    hub.publish(msg(3));
    assert_eq!(duration_of(&hub.poll(&mut r).unwrap()), 1);
    assert_eq!(duration_of(&hub.poll(&mut r).unwrap()), 2);
    assert_eq!(duration_of(&hub.poll(&mut r).unwrap()), 3);
    assert!(hub.poll(&mut r).is_none());
}

#[test]
fn a_subscription_sees_only_what_follows_it() {
    let mut hub = Hub::new(10);
    hub.publish(msg(1));
    hub.publish(msg(2));
    let mut r = hub.subscribe();
    assert!(hub.poll(&mut r).is_none());
    hub.publish(msg(3));
    assert_eq!(duration_of(&hub.poll(&mut r).unwrap()), 3);
}

#[test]
fn publishing_needs_no_reader() {
    let mut hub = Hub::new(4);
    for d in 0..20 {
        hub.publish(msg(d));
    }
    assert_eq!(hub.published_count(), 20);
}

#[test]
fn a_lagging_reader_misses_the_oldest_never_the_newest() {
    let mut hub = Hub::new(3);
    let mut r = hub.subscribe();
    for d in 1..=7 {
        hub.publish(msg(d));
    }
    // the window holds 5, 6, 7: the reader is moved to the oldest kept
    assert_eq!(duration_of(&hub.poll(&mut r).unwrap()), 5);
    assert_eq!(duration_of(&hub.poll(&mut r).unwrap()), 6);
    assert_eq!(duration_of(&hub.poll(&mut r).unwrap()), 7);
    assert!(hub.poll(&mut r).is_none());
}

#[test]
fn readers_are_independent() {
    let mut hub = Hub::new(10);
    let mut r1 = hub.subscribe();
    hub.publish(msg(1));
    let mut r2 = hub.subscribe();
    hub.publish(msg(2));
    assert_eq!(duration_of(&hub.poll(&mut r1).unwrap()), 1);
    assert_eq!(duration_of(&hub.poll(&mut r2).unwrap()), 2);
    assert_eq!(duration_of(&hub.poll(&mut r1).unwrap()), 2);
    assert!(hub.poll(&mut r1).is_none());
    assert!(hub.poll(&mut r2).is_none());
}

#[test]
fn a_reader_that_keeps_up_loses_nothing_at_full_window() {
    let mut hub = Hub::new(2);
    let mut r = hub.subscribe();
    for d in 1..=6 {
        hub.publish(msg(d));
        assert_eq!(duration_of(&hub.poll(&mut r).unwrap()), d);
    }
}
