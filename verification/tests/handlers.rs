use messera::contract::{announce, batch_entries, messages_channel_name, Error, LAST_MESSAGES};
use messera::state::Messera;
use messera::types::{ChainId, Destination, Operation, Outbound, Post, ProtocolMessage, ReceivedKey};

fn chain(n: u64) -> ChainId {
    ChainId { part1: n, part2: 0, part3: 0, part4: n }
}

fn post(timestamp: u64, text: &str) -> Post {
    Post { timestamp, text: text.to_string() }
}

#[test]
fn content_on_empty_log_announces_the_post() {
    let mut a = Messera::new();
    let effects = a.execute_operation(1_000, Operation::Content("hello".to_string()));
    assert_eq!(a.my_messages.count(), 1);
    assert_eq!(a.my_messages.get(0), Some(post(1_000, "hello")));
    assert_eq!(
        effects,
        vec![Outbound {
            destination: Destination::Subscribers,
            message: ProtocolMessage::MessageBatch {
                total_count: 1,
                messages: vec![post(1_000, "hello")],
            },
        }]
    );
}

#[test]
fn contents_fill_the_log_in_submission_order() {
    let mut a = Messera::new();
    let texts = ["one", "two", "three", "four", "five"];
    for (i, t) in texts.iter().enumerate() {
        let effects = a.execute_operation(10 + i as u64, Operation::Content(t.to_string()));
        assert_eq!(effects.len(), 1);
        assert_eq!(a.my_messages.count(), i + 1);
    }
    for (i, t) in texts.iter().enumerate() {
        assert_eq!(a.my_messages.get(i), Some(post(10 + i as u64, t)));
    }
    assert_eq!(a.my_messages.get(texts.len()), None);
}

#[test]
fn batch_counts_the_whole_log_and_holds_the_last_twenty() {
    assert_eq!(LAST_MESSAGES, 20);
    let mut a = Messera::new();
    let mut last = Vec::new();
    for i in 0..25u64 {
        last = a.execute_content_operation(i, format!("post {}", i));
    }
    assert_eq!(last.len(), 1);
    assert_eq!(last[0].destination, Destination::Subscribers);
    match &last[0].message {
        ProtocolMessage::MessageBatch { total_count, messages } => {
            assert_eq!(*total_count, 25);
            assert_eq!(messages.len(), 20);
            for (i, m) in messages.iter().enumerate() {
                let index = 24 - i as u64;
                assert_eq!(*m, post(index, &format!("post {}", index)));
            }
        }
        other => panic!("not a batch: {:?}", other),
    }
}

#[test]
fn subscribe_operation_sends_one_request_to_the_target() {
    let mut a = Messera::new();
    let effects = a.execute_operation(5, Operation::RequestSubscribe(chain(2)));
    assert_eq!(
        effects,
        vec![Outbound {
            destination: Destination::Recipient(chain(2)),
            message: ProtocolMessage::RequestSubscribe,
        }]
    );
    assert_eq!(a.my_messages.count(), 0);
    assert_eq!(a.subscribers.len(), 0);
    assert_eq!(a.received_messages.len(), 0);
    assert_eq!(a.recipients(effects[0].destination), vec![chain(2)]);
}

#[test]
fn unsubscribe_operation_sends_one_request_to_the_target() {
    let mut a = Messera::new();
    let effects = a.execute_operation(5, Operation::RequestUnsubscribe(chain(3)));
    assert_eq!(
        effects,
        vec![Outbound {
            destination: Destination::Recipient(chain(3)),
            message: ProtocolMessage::RequestUnsubscribe,
        }]
    );
    assert_eq!(a.my_messages.count(), 0);
}

#[test]
fn subscriber_becomes_a_recipient_and_gets_no_answer() {
    let a = chain(1);
    let mut b = Messera::new();
    let answer = b.execute_message(a, ProtocolMessage::RequestSubscribe);
    assert!(answer.is_empty());
    assert!(b.subscribers.contains(a));
    let effects = b.execute_operation(7, Operation::Content("news".to_string()));
    assert_eq!(effects.len(), 1);
    assert_eq!(b.recipients(effects[0].destination), vec![a]);
}

#[test]
fn subscribing_twice_is_subscribing_once() {
    let c = chain(9);
    let mut s = Messera::new();
    s.execute_message(chain(4), ProtocolMessage::RequestSubscribe);
    s.execute_message(c, ProtocolMessage::RequestSubscribe);
    let once = s.subscribers.members();
    s.execute_message(c, ProtocolMessage::RequestSubscribe);
    assert_eq!(s.subscribers.members(), once);
    assert_eq!(once, vec![chain(4), c]);
    assert_eq!(s.subscribers.len(), 2);
}

#[test]
fn unsubscribing_twice_is_unsubscribing_once() {
    let c = chain(9);
    let mut s = Messera::new();
    s.execute_message(chain(4), ProtocolMessage::RequestSubscribe);
    s.execute_message(c, ProtocolMessage::RequestSubscribe);
    s.execute_message(c, ProtocolMessage::RequestUnsubscribe);
    let once = s.subscribers.members();
    let answer = s.execute_message(c, ProtocolMessage::RequestUnsubscribe);
    assert!(answer.is_empty());
    assert_eq!(s.subscribers.members(), once);
    assert_eq!(once, vec![chain(4)]);
}

#[test]
fn unsubscribe_of_a_stranger_changes_nothing() {
    let mut s = Messera::new();
    s.execute_message(chain(1), ProtocolMessage::RequestUnsubscribe);
    assert_eq!(s.subscribers.len(), 0);
    assert!(!s.subscribers.contains(chain(1)));
}

#[test]
fn unsubscribe_after_repeated_requests_ends_the_membership() {
    let c = chain(6);
    let mut s = Messera::new();
    for _ in 0..3 {
        s.execute_message(c, ProtocolMessage::RequestSubscribe);
    }
    for _ in 0..2 {
        s.execute_message(c, ProtocolMessage::RequestUnsubscribe);
    }
    s.execute_message(c, ProtocolMessage::RequestSubscribe);
    s.execute_message(c, ProtocolMessage::RequestUnsubscribe);
    assert!(!s.subscribers.contains(c));
    assert!(s.subscribers.members().is_empty());
}

fn five() -> Vec<Post> {
    vec![post(50, "m0"), post(40, "m1"), post(30, "m2"), post(20, "m3"), post(10, "m4")]
}

fn dump(s: &Messera) -> Vec<(ReceivedKey, String)> {
    let mut all = Vec::new();
    let mut i: usize = 0;
    while let Some(e) = s.received_messages.entry_at(i) {
        all.push(e);
        i += 1;
    }
    assert_eq!(all.len(), s.received_messages.len());
    all
}

#[test]
fn batch_of_five_is_stored_under_its_keys() {
    let c = chain(3);
    let mut s = Messera::new();
    let answer =
        s.execute_message(c, ProtocolMessage::MessageBatch { total_count: 5, messages: five() });
    assert!(answer.is_empty());
    assert_eq!(s.received_messages.len(), 5);
    let expected = [(50, 4, "m0"), (40, 3, "m1"), (30, 2, "m2"), (20, 1, "m3"), (10, 0, "m4")];
    for (timestamp, sequence, text) in expected {
        let key = ReceivedKey { timestamp, author: c, sequence };
        assert_eq!(s.received_messages.get(&key), Some(text.to_string()));
    }
    let other = ReceivedKey { timestamp: 50, author: chain(4), sequence: 4 };
    assert_eq!(s.received_messages.get(&other), None);
}

#[test]
fn batch_delivered_twice_is_stored_once() {
    let c = chain(3);
    let mut s = Messera::new();
    s.execute_message(c, ProtocolMessage::MessageBatch { total_count: 5, messages: five() });
    let once = dump(&s);
    s.execute_message(c, ProtocolMessage::MessageBatch { total_count: 5, messages: five() });
    assert_eq!(dump(&s), once);
    assert_eq!(once.len(), 5);
    let timestamps: Vec<u64> = once.iter().map(|e| e.0.timestamp).collect();
    assert_eq!(timestamps, vec![10, 20, 30, 40, 50]);
}

#[test]
fn later_text_under_the_same_key_wins() {
    let c = chain(3);
    let mut s = Messera::new();
    s.execute_received_message(c, 1, vec![post(8, "first")]);
    s.execute_received_message(c, 1, vec![post(8, "second")]);
    let key = ReceivedKey { timestamp: 8, author: c, sequence: 0 };
    assert_eq!(s.received_messages.len(), 1);
    assert_eq!(s.received_messages.get(&key), Some("second".to_string()));
}

#[test]
fn overlapping_batches_share_their_keys() {
    let c = chain(3);
    let mut s = Messera::new();
    s.execute_received_message(c, 2, vec![post(20, "b"), post(10, "a")]);
    s.execute_received_message(c, 3, vec![post(30, "c"), post(20, "b"), post(10, "a")]);
    assert_eq!(
        dump(&s),
        vec![
            (ReceivedKey { timestamp: 10, author: c, sequence: 0 }, "a".to_string()),
            (ReceivedKey { timestamp: 20, author: c, sequence: 1 }, "b".to_string()),
            (ReceivedKey { timestamp: 30, author: c, sequence: 2 }, "c".to_string()),
        ]
    );
}

#[test]
fn batch_that_claims_a_shorter_log_is_cut() {
    let c = chain(3);
    let entries = batch_entries(c, 2, &five());
    assert_eq!(
        entries,
        vec![
            (ReceivedKey { timestamp: 50, author: c, sequence: 1 }, "m0".to_string()),
            (ReceivedKey { timestamp: 40, author: c, sequence: 0 }, "m1".to_string()),
        ]
    );
    let mut s = Messera::new();
    s.execute_received_message(c, 0, five());
    assert_eq!(s.received_messages.len(), 0);
    s.execute_received_message(c, 7, Vec::new());
    assert_eq!(s.received_messages.len(), 0);
}

#[test]
fn window_of_a_long_batch_keeps_high_sequence_numbers() {
    let c = chain(3);
    let entries = batch_entries(c, 100, &five());
    let sequences: Vec<u64> = entries.iter().map(|e| e.0.sequence).collect();
    assert_eq!(sequences, vec![99, 98, 97, 96, 95]);
}

#[test]
fn batch_leaves_log_and_registry_alone() {
    let c = chain(3);
    let mut s = Messera::new();
    s.execute_operation(1, Operation::Content("mine".to_string()));
    s.execute_message(chain(5), ProtocolMessage::RequestSubscribe);
    s.execute_message(c, ProtocolMessage::MessageBatch { total_count: 5, messages: five() });
    assert_eq!(s.my_messages.count(), 1);
    assert_eq!(s.subscribers.members(), vec![chain(5)]);
}

#[test]
fn initialize_sends_nothing() {
    let mut s = Messera::new();
    assert!(s.initialize().is_empty());
    assert_eq!(s.my_messages.count(), 0);
}

#[test]
fn calls_and_sessions_are_refused() {
    let mut s = Messera::new();
    assert_eq!(s.handle_application_call(), Err(Error::ApplicationCallsNotSupported));
    assert_eq!(s.handle_session_call(), Err(Error::SessionsNotSupported));
}

#[test]
fn contract_errors_describe_themselves() {
    assert_eq!(
        Error::SessionsNotSupported.message(),
        "Messera doesn't support any cross-application sessions"
    );
    assert_eq!(
        Error::ApplicationCallsNotSupported.message(),
        "Messera doesn't support any application calls"
    );
    assert_eq!(Error::View("disk".to_string()).message(), "disk");
    assert_eq!(Error::BcsError.message(), "Failed to deserialize BCS bytes");
    assert_eq!(Error::JsonError.message(), "Failed to deserialize JSON string");
}

#[test]
fn channel_is_named_messages() {
    assert_eq!(messages_channel_name(), b"messages".to_vec());
}

#[test]
fn announcement_carries_count_and_window() {
    let window = vec![post(9, "new"), post(8, "old")];
    assert_eq!(
        announce(7, window.clone()),
        Outbound {
            destination: Destination::Subscribers,
            message: ProtocolMessage::MessageBatch { total_count: 7, messages: window },
        }
    );
}
