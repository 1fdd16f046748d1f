use atomizer::{
    add_feed, remove_feed, sync, sync_all, Config, Entry, Error, Feed, FeedConfig, Feeds,
    Timestamp,
};

const MINUTE: i64 = 60;
const T0: i64 = 1_700_000_000;

fn at(secs: i64) -> Timestamp {
    Timestamp { secs, nanos: 0, offset_secs: 0 }
}

fn entry(id: &str, categories: &[&str]) -> Entry {
    Entry {
        id: id.to_string(),
        title: format!("title of {id}"),
        categories: categories.iter().map(|c| c.to_string()).collect(),
        content: None,
    }
}

fn feed(id: &str, title: &str, updated: Timestamp, ids: &[&str]) -> Feed {
    Feed {
        id: id.to_string(),
        title: title.to_string(),
        updated,
        entries: ids.iter().map(|e| entry(e, &[])).collect(),
    }
}

fn subscription(id: &str, name: &str, last: Timestamp, read: &[&str]) -> FeedConfig {
    FeedConfig {
        id: id.to_string(),
        name: name.to_string(),
        url: format!("https://example.com/{id}.xml"),
        last_updated: last,
        read: read.iter().map(|r| r.to_string()).collect(),
        unread_count: 0,
    }
}

fn strings(v: &[&str]) -> Vec<String> {
    v.iter().map(|s| s.to_string()).collect()
}

#[test]
fn debounce_keeps_markers_of_removed_entries_within_59_minutes() {
    let mut sub = subscription("f", "F", at(T0), &["a", "gone"]);
    let mut cache = Feeds { feeds: vec![feed("f", "F", at(T0), &["a", "gone"])] };
    sync(&mut sub, &mut cache, feed("f", "F", at(T0 + 59 * MINUTE), &["a", "b"]));
    assert_eq!(sub.read, strings(&["a", "gone"]));
    assert_eq!(sub.last_updated, at(T0 + 59 * MINUTE));
    assert_eq!(sub.unread_count, 0);
}

#[test]
fn debounce_drops_markers_of_removed_entries_after_61_minutes() {
    let mut sub = subscription("f", "F", at(T0), &["a", "gone"]);
    let mut cache = Feeds { feeds: vec![feed("f", "F", at(T0), &["a", "gone"])] };
    sync(&mut sub, &mut cache, feed("f", "F", at(T0 + 61 * MINUTE), &["a", "b"]));
    assert_eq!(sub.read, strings(&["a"]));
    assert_eq!(sub.unread_count, 1);
}

#[test]
fn debounce_applies_to_earlier_documents_too() {
    let mut sub = subscription("f", "F", at(T0), &["a", "gone"]);
    let mut cache = Feeds { feeds: vec![] };
    sync(&mut sub, &mut cache, feed("f", "F", at(T0 - 61 * MINUTE), &["a"]));
    assert_eq!(sub.read, strings(&["a"]));
}

#[test]
fn debounce_keeps_markers_at_exactly_one_hour() {
    let mut sub = subscription("f", "F", at(T0), &["gone"]);
    let mut cache = Feeds { feeds: vec![] };
    sync(&mut sub, &mut cache, feed("f", "F", at(T0 + 60 * MINUTE), &["a"]));
    assert_eq!(sub.read, strings(&["gone"]));
    let mut sub = subscription("f", "F", at(T0), &["gone"]);
    let later = Timestamp { secs: T0 + 60 * MINUTE, nanos: 1, offset_secs: 3600 };
    sync(&mut sub, &mut cache, feed("f", "F", later, &["a"]));
    assert!(sub.read.is_empty());
}

#[test]
fn unread_count_is_never_negative() {
    let mut sub = subscription("f", "F", at(T0), &["a", "x", "y"]);
    let mut cache = Feeds { feeds: vec![] };
    sync(&mut sub, &mut cache, feed("f", "F", at(T0 + MINUTE), &["a"]));
    assert_eq!(sub.read.len(), 3);
    assert_eq!(sub.unread_count, 0);
}

#[test]
fn unread_count_is_entries_less_read_markers() {
    let mut sub = subscription("f", "F", at(T0), &["a"]);
    let mut cache = Feeds { feeds: vec![] };
    sync(&mut sub, &mut cache, feed("f", "F", at(T0 + MINUTE), &["a", "b", "c", "d"]));
    assert_eq!(sub.unread_count, 3);
}

#[test]
fn sync_after_61_minutes_with_same_five_entries() {
    let ids = ["e1", "e2", "e3", "e4", "e5"];
    let mut sub = subscription("f", "F", at(T0), &["e2", "e4"]);
    let mut cache = Feeds { feeds: vec![feed("f", "F", at(T0), &ids)] };
    let fetched = feed("f", "F", at(T0 + 61 * MINUTE), &ids);
    sync(&mut sub, &mut cache, fetched);
    assert_eq!(sub.read, strings(&["e2", "e4"]));
    assert_eq!(sub.unread_count, 3);
    assert_eq!(sub.last_updated, at(T0 + 61 * MINUTE));
    assert_eq!(cache.feeds.len(), 1);
    assert_eq!(cache.feeds[0].updated, at(T0 + 61 * MINUTE));
}

#[test]
fn sync_after_61_minutes_prunes_only_absent_ids() {
    let mut sub = subscription("f", "F", at(T0), &["e2", "e4"]);
    let mut cache = Feeds { feeds: vec![feed("f", "F", at(T0), &["e1", "e2", "e3", "e4", "e5"])] };
    let fetched = feed("f", "F", at(T0 + 61 * MINUTE), &["e2", "e3", "e5", "e6", "e7"]);
    sync(&mut sub, &mut cache, fetched);
    assert_eq!(sub.read, strings(&["e2"]));
    assert_eq!(sub.unread_count, 4);
}

#[test]
fn sync_replaces_the_cached_document_with_the_same_id() {
    let mut sub = subscription("b", "B", at(T0), &[]);
    let mut cache = Feeds {
        feeds: vec![
            feed("a", "A", at(T0), &["a1"]),
            feed("b", "B", at(T0), &["b1"]),
            feed("c", "C", at(T0), &["c1"]),
        ],
    };
    sync(&mut sub, &mut cache, feed("b", "B2", at(T0 + 5), &["b2", "b3"]));
    assert_eq!(cache.feeds.len(), 3);
    assert_eq!(cache.feeds[1].title, "B2");
    assert_eq!(cache.feeds[1].entries.len(), 2);
    assert_eq!(cache.feeds[0].title, "A");
    assert_eq!(cache.feeds[2].title, "C");
    assert_eq!(sub.unread_count, 2);
}

#[test]
fn sync_appends_when_nothing_is_cached() {
    let mut sub = subscription("n", "N", at(T0), &[]);
    let mut cache = Feeds { feeds: vec![feed("a", "A", at(T0), &["a1"])] };
    sync(&mut sub, &mut cache, feed("n", "N", at(T0 + 1), &["n1"]));
    assert_eq!(cache.feeds.len(), 2);
    assert_eq!(cache.feeds[1].id, "n");
    assert_eq!(sub.last_updated, at(T0 + 1));
    assert_eq!(sub.unread_count, 1);
}

#[test]
fn sync_all_merges_each_subscription_with_its_document() {
    let mut config = Config {
        feeds: vec![
            subscription("a", "A", at(T0), &["a1", "old"]),
            subscription("b", "B", at(T0), &["b1"]),
        ],
    };
    let mut cache = Feeds { feeds: vec![feed("a", "A", at(T0), &["a1", "old"])] };
    let fetched = vec![
        feed("a", "A", at(T0 + 2 * 3600), &["a1", "a2"]),
        feed("b", "B", at(T0 + 10), &["b1", "b2", "b3"]),
    ];
    sync_all(&mut config, &mut cache, fetched);
    assert_eq!(config.feeds[0].read, strings(&["a1"]));
    assert_eq!(config.feeds[0].unread_count, 1);
    assert_eq!(config.feeds[1].read, strings(&["b1"]));
    assert_eq!(config.feeds[1].unread_count, 2);
    assert_eq!(cache.feeds.len(), 2);
    assert_eq!(cache.feeds[0].entries.len(), 2);
    assert_eq!(cache.feeds[1].id, "b");
}

#[test]
fn mark_read_twice_keeps_the_markers() {
    let mut sub = subscription("f", "F", at(T0), &["a"]);
    sub.mark_read("b".to_string());
    let once = sub.read.clone();
    sub.mark_read("b".to_string());
    assert_eq!(sub.read, once);
    assert_eq!(sub.read.len(), 2);
    assert!(sub.is_read(&"b".to_string()));
    assert!(!sub.is_read(&"c".to_string()));
}

#[test]
fn add_feed_with_three_entries() {
    let mut config = Config::new();
    let mut cache = Feeds::new();
    let f = feed("tag:x", "X news", at(T0), &["1", "2", "3"]);
    add_feed(&mut config, &mut cache, "https://x.example/atom.xml".to_string(), f);
    assert_eq!(config.feeds.len(), 1);
    let sub = &config.feeds[0];
    assert!(sub.read.is_empty());
    assert_eq!(sub.unread_count, 3);
    assert_eq!(sub.id, "tag:x");
    assert_eq!(sub.name, "X news");
    assert_eq!(sub.url, "https://x.example/atom.xml");
    assert_eq!(sub.last_updated, at(T0));
    assert_eq!(cache.feeds.len(), 1);
    assert_eq!(cache.feeds[0].id, "tag:x");
}

#[test]
fn remove_feed_by_name_removes_only_the_match() {
    let mut config = Config {
        feeds: vec![subscription("a", "Alpha", at(T0), &[]), subscription("b", "Beta", at(T0), &[])],
    };
    let mut cache = Feeds {
        feeds: vec![feed("a", "Alpha", at(T0), &["a1"]), feed("b", "Beta", at(T0), &["b1"])],
    };
    assert_eq!(remove_feed(&mut config, &mut cache, &"Beta".to_string()), Ok(()));
    assert_eq!(config.feeds.len(), 1);
    assert_eq!(config.feeds[0].id, "a");
    assert_eq!(cache.feeds.len(), 1);
    assert_eq!(cache.feeds[0].id, "a");
}

#[test]
fn remove_feed_by_id() {
    let mut config = Config {
        feeds: vec![subscription("a", "Alpha", at(T0), &[]), subscription("b", "Beta", at(T0), &[])],
    };
    let mut cache = Feeds {
        feeds: vec![feed("a", "Alpha", at(T0), &["a1"]), feed("b", "Beta", at(T0), &["b1"])],
    };
    assert_eq!(remove_feed(&mut config, &mut cache, &"a".to_string()), Ok(()));
    assert_eq!(config.feeds[0].id, "b");
    assert_eq!(cache.feeds.len(), 1);
    assert_eq!(cache.feeds[0].id, "b");
}

#[test]
fn remove_missing_feed_is_an_error() {
    let mut config = Config { feeds: vec![subscription("a", "Alpha", at(T0), &[])] };
    let mut cache = Feeds { feeds: vec![feed("a", "Alpha", at(T0), &["a1"])] };
    assert_eq!(
        remove_feed(&mut config, &mut cache, &"Gamma".to_string()),
        Err(Error::MissingFeed("Gamma".to_string()))
    );
    assert_eq!(config.feeds.len(), 1);
    assert_eq!(cache.feeds.len(), 1);
}
