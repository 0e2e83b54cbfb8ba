use feed_scheduler::fetcher::{count_trip_updates, Feed, FeedEntity};

fn entities(flags: &[bool]) -> Vec<FeedEntity> {
    flags.iter().map(|&f| FeedEntity { has_trip_update: f }).collect()
}

#[test]
fn count_of_empty_message_is_zero() {
    assert_eq!(count_trip_updates(&Vec::new()), 0);
}

#[test]
fn count_ignores_entities_without_trip_update() {
    let e = entities(&[true, false, true, true, false]);
    assert_eq!(count_trip_updates(&e), 3);
}

#[test]
fn count_of_all_trip_updates_is_len() {
    let e = entities(&[true; 243]);
    assert_eq!(count_trip_updates(&e), 243);
}

#[test]
fn count_of_no_trip_updates_is_zero() {
    let e = entities(&[false; 17]);
    assert_eq!(count_trip_updates(&e), 0);
}

#[test]
fn fetch_feed_carries_headers() {
    let feed = Feed {
        id: 1,
        name: "Test".to_string(),
        url: "http://localhost:5001/gtfs".to_string(),
        frequency: 5,
        headers: vec![("x-api-key".to_string(), "abc123".to_string())],
    };
    assert_eq!(feed.headers.len(), 1);
    assert_eq!(feed.headers[0].0, "x-api-key");
    assert_eq!(feed.frequency, 5);
}
