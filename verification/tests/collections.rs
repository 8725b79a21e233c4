use messera::log::{window_from_fetched, window_indices, Log};
use messera::registry::Registry;
use messera::service::{Error, MutationRoot};
use messera::store::Store;
use messera::types::{ChainId, Operation, Post, ReceivedKey};

fn id(a: u64, b: u64, c: u64, d: u64) -> ChainId {
    ChainId { part1: a, part2: b, part3: c, part4: d }
}

fn key(timestamp: u64, author: ChainId, sequence: u64) -> ReceivedKey {
    ReceivedKey { timestamp, author, sequence }
}

#[test]
fn log_hands_out_the_index_of_each_post() {
    let mut log = Log::new();
    assert_eq!(log.count(), 0);
    assert_eq!(log.get(0), None);
    assert_eq!(log.push(Post { timestamp: 1, text: "a".to_string() }), 0);
    assert_eq!(log.push(Post { timestamp: 2, text: "b".to_string() }), 1);
    assert_eq!(log.count(), 2);
    assert_eq!(log.get(1), Some(Post { timestamp: 2, text: "b".to_string() }));
    assert_eq!(log.get(2), None);
}

#[test]
fn window_is_the_end_of_the_log_backwards() {
    let mut log = Log::new();
    assert!(log.build_window(20).is_empty());
    for (i, text) in ["a", "b", "c"].iter().enumerate() {
        log.push(Post { timestamp: i as u64, text: text.to_string() });
    }
    let texts = |w: Vec<Post>| w.into_iter().map(|p| p.text).collect::<Vec<String>>();
    assert_eq!(texts(log.build_window(20)), vec!["c", "b", "a"]);
    assert_eq!(texts(log.build_window(3)), vec!["c", "b", "a"]);
    assert_eq!(texts(log.build_window(2)), vec!["c", "b"]);
    assert_eq!(texts(log.build_window(1)), vec!["c"]);
    assert!(log.build_window(0).is_empty());
}

#[test]
fn window_of_exactly_twenty_posts_is_the_whole_log() {
    let mut log = Log::new();
    for i in 0..20u64 {
        log.push(Post { timestamp: i, text: i.to_string() });
    }
    let window = log.build_window(20);
    assert_eq!(window.len(), 20);
    assert_eq!(window[0].timestamp, 19);
    assert_eq!(window[19].timestamp, 0);
    log.push(Post { timestamp: 20, text: "20".to_string() });
    let window = log.build_window(20);
    assert_eq!(window.len(), 20);
    assert_eq!(window[0].timestamp, 20);
    assert_eq!(window[19].timestamp, 1);
}

#[test]
fn registry_keeps_each_chain_once() {
    let mut r = Registry::new();
    assert_eq!(r.len(), 0);
    r.subscribe(id(1, 2, 3, 4));
    r.subscribe(id(1, 2, 3, 5));
    r.subscribe(id(1, 2, 3, 4));
    assert_eq!(r.len(), 2);
    assert!(r.contains(id(1, 2, 3, 4)));
    assert!(!r.contains(id(4, 3, 2, 1)));
    r.unsubscribe(id(1, 2, 3, 4));
    assert_eq!(r.members(), vec![id(1, 2, 3, 5)]);
    r.unsubscribe(id(1, 2, 3, 4));
    assert_eq!(r.members(), vec![id(1, 2, 3, 5)]);
}

#[test]
fn keys_are_ordered_by_time_then_author_then_sequence() {
    let a = id(0, 0, 0, 1);
    let b = id(0, 0, 1, 0);
    assert!(a.precedes(&b));
    assert!(!b.precedes(&a));
    assert!(!a.precedes(&a));
    assert!(id(0, 9, 9, 9).precedes(&id(1, 0, 0, 0)));
    assert!(id(1, 0, 9, 9).precedes(&id(1, 1, 0, 0)));
    assert!(key(1, b, 9).precedes(&key(2, a, 0)));
    assert!(key(1, a, 9).precedes(&key(1, b, 0)));
    assert!(key(1, a, 0).precedes(&key(1, a, 1)));
    assert!(!key(1, a, 1).precedes(&key(1, a, 1)));
    assert!(!key(2, a, 0).precedes(&key(1, b, 9)));
}

#[test]
fn store_keeps_its_keys_in_order() {
    let a = id(0, 0, 0, 1);
    let b = id(0, 0, 0, 2);
    let mut s = Store::new();
    assert_eq!(s.len(), 0);
    assert_eq!(s.entry_at(0), None);
    s.upsert(key(5, a, 0), "five".to_string());
    s.upsert(key(3, b, 1), "three-b".to_string());
    s.upsert(key(3, a, 7), "three-a".to_string());
    s.upsert(key(9, a, 0), "nine".to_string());
    s.upsert(key(3, b, 0), "three-b0".to_string());
    assert_eq!(s.len(), 5);
    let order: Vec<ReceivedKey> = (0..5).map(|i| s.entry_at(i).unwrap().0).collect();
    assert_eq!(order, vec![key(3, a, 7), key(3, b, 0), key(3, b, 1), key(5, a, 0), key(9, a, 0)]);
    assert_eq!(s.entry_at(1), Some((key(3, b, 0), "three-b0".to_string())));
    assert_eq!(s.entry_at(5), None);
    assert_eq!(s.get(&key(3, b, 1)), Some("three-b".to_string()));
    assert_eq!(s.get(&key(4, a, 0)), None);
    s.upsert(key(5, a, 0), "cinq".to_string());
    assert_eq!(s.len(), 5);
    assert_eq!(s.get(&key(5, a, 0)), Some("cinq".to_string()));
}

#[test]
fn mutations_name_their_operations() {
    let c = id(7, 7, 7, 7);
    assert_eq!(MutationRoot.subscribe(c), Operation::RequestSubscribe(c));
    assert_eq!(MutationRoot.unsubscribe(c), Operation::RequestUnsubscribe(c));
    assert_eq!(MutationRoot.content("hi".to_string()), Operation::Content("hi".to_string()));
}

#[test]
fn service_errors_describe_themselves() {
    assert_eq!(Error::InvalidQuery.message(), "Invalid query");
    assert_eq!(Error::Serialization("bad".to_string()).message(), "bad");
    assert_eq!(Error::View("gone".to_string()).message(), "gone");
}

#[test]
fn window_indices_run_down_from_the_last_post() {
    assert_eq!(window_indices(0, 20), Vec::<usize>::new());
    assert_eq!(window_indices(3, 20), vec![2, 1, 0]);
    assert_eq!(window_indices(3, 2), vec![2, 1]);
    assert_eq!(window_indices(5, 0), Vec::<usize>::new());
    let long = window_indices(25, 20);
    assert_eq!(long.len(), 20);
    assert_eq!(long[0], 24);
    assert_eq!(long[19], 5);
}

#[test]
fn window_needs_every_fetched_post() {
    let a = Post { timestamp: 2, text: "a".to_string() };
    let b = Post { timestamp: 1, text: "b".to_string() };
    assert_eq!(window_from_fetched(Vec::new()), Some(Vec::new()));
    assert_eq!(
        window_from_fetched(vec![Some(a.clone()), Some(b.clone())]),
        Some(vec![a.clone(), b.clone()])
    );
    assert_eq!(window_from_fetched(vec![Some(a.clone()), None]), None);
    assert_eq!(window_from_fetched(vec![None, Some(b)]), None);
}

#[test]
fn fetching_by_window_indices_gives_the_window() {
    let mut log = Log::new();
    for i in 0..23u64 {
        log.push(Post { timestamp: i, text: format!("post {}", i) });
    }
    let fetched: Vec<Option<Post>> =
        window_indices(log.count(), 20).into_iter().map(|i| log.get(i)).collect();
    assert_eq!(window_from_fetched(fetched), Some(log.build_window(20)));
}
