use feed_scheduler::store::FeedStore;

#[test]
fn register_assigns_sequential_ids() {
    let mut s = FeedStore::new();
    let a = s.register("a".to_string(), "http://one".to_string(), 30);
    let b = s.register("b".to_string(), "http://two".to_string(), 60);
    let c = s.register("c".to_string(), "http://three".to_string(), 90);
    assert_eq!(a.id, 1);
    assert_eq!(b.id, 2);
    assert_eq!(c.id, 3);
    assert_eq!(s.next_id, 4);
    assert_eq!(s.feeds.len(), 3);
}

#[test]
fn register_returns_the_stored_record() {
    let mut s = FeedStore::new();
    let f = s.register("mta".to_string(), "http://mta/gtfs".to_string(), 15);
    assert_eq!(f.name, "mta");
    assert_eq!(f.url, "http://mta/gtfs");
    assert_eq!(f.frequency, 15);
    assert_eq!(s.feeds[0], f);
}

#[test]
fn get_finds_a_registered_feed() {
    let mut s = FeedStore::new();
    s.register("a".to_string(), "http://one".to_string(), 30);
    let b = s.register("b".to_string(), "http://two".to_string(), 60);
    let got = s.get(2).expect("feed 2 was registered");
    assert_eq!(*got, b);
}

#[test]
fn register_works_up_to_the_last_free_id() {
    let mut s = FeedStore { next_id: u32::MAX - 1, feeds: Vec::new() };
    let f = s.register("last".to_string(), "http://last".to_string(), 1);
    assert_eq!(f.id, u32::MAX - 1);
    assert_eq!(s.next_id, u32::MAX);
}

#[test]
fn get_of_unknown_id_is_none() {
    let mut s = FeedStore::new();
    assert!(s.get(1).is_none());
    s.register("a".to_string(), "http://one".to_string(), 30);
    assert!(s.get(7).is_none());
}
