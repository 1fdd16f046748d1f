use atomizer::config::{config_command, parse_key};
use atomizer::fetch::{fetch_source, source_for_scheme};
use atomizer::reading::needs_conversion;
use atomizer::text::{has_prefix, has_suffix, same_text};
use atomizer::{
    build_category_index, check_setup, get_config_path, get_feeds_path, render_entry,
    visible_entries, Config, ConfigCommand, ConfigKey, Content, Entry, Error, Feed, FeedConfig,
    Feeds, FetchSource, Timestamp,
};

fn at(secs: i64) -> Timestamp {
    Timestamp { secs, nanos: 0, offset_secs: 0 }
}

fn entry(id: &str, categories: &[&str]) -> Entry {
    Entry {
        id: id.to_string(),
        title: format!("title of {id}"),
        categories: categories.iter().map(|c| c.to_string()).collect(),
        content: None,
    }
}

fn feed(id: &str, title: &str, entries: Vec<Entry>) -> Feed {
    Feed { id: id.to_string(), title: title.to_string(), updated: at(0), entries }
}

fn subscription(read: &[&str]) -> FeedConfig {
    FeedConfig {
        id: "f".to_string(),
        name: "F".to_string(),
        url: "https://example.com/f.xml".to_string(),
        last_updated: at(0),
        read: read.iter().map(|r| r.to_string()).collect(),
        unread_count: 0,
    }
}

fn with_content(content_type: Option<&str>, value: Option<&str>) -> Entry {
    let mut e = entry("c", &[]);
    e.content = Some(Content {
        content_type: content_type.map(|s| s.to_string()),
        value: value.map(|s| s.to_string()),
    });
    e
}

#[test]
fn category_filter_hides_read_entries_even_with_show_all() {
    let f = feed("f", "F", vec![entry("a", &["rust"]), entry("b", &["rust"]), entry("c", &["go"])]);
    let sub = subscription(&["a"]);
    let filter = Some("rust".to_string());
    assert_eq!(visible_entries(&f, &sub, &filter, true), vec![1]);
    assert_eq!(visible_entries(&f, &sub, &filter, false), vec![1]);
}

#[test]
fn no_filter_with_show_all_includes_read_entries() {
    let f = feed("f", "F", vec![entry("a", &["rust"]), entry("b", &[]), entry("c", &["go"])]);
    let sub = subscription(&["a", "c"]);
    assert_eq!(visible_entries(&f, &sub, &None, true), vec![0, 1, 2]);
    assert_eq!(visible_entries(&f, &sub, &None, false), vec![1]);
}

#[test]
fn category_filter_matches_term_prefixes() {
    let f = feed(
        "f",
        "F",
        vec![entry("a", &["news", "rustlang"]), entry("b", &["ru"]), entry("c", &["r"]), entry("d", &[])],
    );
    let sub = subscription(&[]);
    assert_eq!(visible_entries(&f, &sub, &Some("ru".to_string()), false), vec![0, 1]);
    assert_eq!(visible_entries(&f, &sub, &Some("zz".to_string()), true), Vec::<usize>::new());
}

#[test]
fn visible_entries_of_an_empty_feed() {
    let f = feed("f", "F", vec![]);
    assert!(visible_entries(&f, &subscription(&[]), &None, true).is_empty());
}

#[test]
fn category_index_counts_entries_per_feed_title() {
    let feeds = Feeds {
        feeds: vec![
            feed("f", "F", vec![entry("1", &["rust", "news"]), entry("2", &["rust"]), entry("3", &[])]),
            feed("g", "G", vec![entry("4", &["news"])]),
        ],
    };
    let idx = build_category_index(&feeds);
    let s = |x: &str| x.to_string();
    assert_eq!(idx.get(&s("rust"), &s("F")), 2);
    assert_eq!(idx.get(&s("news"), &s("F")), 1);
    assert_eq!(idx.get(&s("news"), &s("G")), 1);
    assert_eq!(idx.get(&s("rust"), &s("G")), 0);
    assert_eq!(idx.len(), 3);
    let total: usize = (0..idx.len()).map(|k| idx.bucket(k).count).sum();
    assert_eq!(total, 4);
    let mut seen: Vec<(String, String, usize)> = (0..idx.len())
        .map(|k| {
            let b = idx.bucket(k);
            (b.term.clone(), b.feed_title.clone(), b.count)
        })
        .collect();
    seen.sort();
    assert_eq!(
        seen,
        vec![(s("news"), s("F"), 1), (s("news"), s("G"), 1), (s("rust"), s("F"), 2)]
    );
}

#[test]
fn category_index_of_uncategorised_entries_is_empty() {
    let feeds = Feeds { feeds: vec![feed("f", "F", vec![entry("1", &[]), entry("2", &[])])] };
    assert_eq!(build_category_index(&feeds).len(), 0);
    assert_eq!(build_category_index(&Feeds::new()).len(), 0);
}

#[test]
fn category_index_merges_feeds_with_the_same_title() {
    let feeds = Feeds {
        feeds: vec![feed("f", "T", vec![entry("1", &["x"])]), feed("g", "T", vec![entry("2", &["x"])])],
    };
    let idx = build_category_index(&feeds);
    assert_eq!(idx.get(&"x".to_string(), &"T".to_string()), 2);
    assert_eq!(idx.len(), 1);
}

#[test]
fn render_plain_text_verbatim() {
    let e = with_content(Some("text"), Some("<b>as is</b>"));
    assert_eq!(render_entry(&e), Some("<b>as is</b>".to_string()));
    let e = with_content(None, Some("no hint"));
    assert_eq!(render_entry(&e), Some("no hint".to_string()));
    let e = with_content(Some("text"), None);
    assert_eq!(render_entry(&e), Some(String::new()));
}

#[test]
fn render_html_converts_to_text() {
    let e = with_content(Some("html"), Some("<p>Hello <strong>world</strong></p>"));
    let out = render_entry(&e).unwrap();
    assert_ne!(out, "<p>Hello <strong>world</strong></p>");
    assert!(out.contains("Hello"));
    assert!(!out.contains("<p>"));
    let e = with_content(Some("xhtml"), Some("<p>Hi</p>"));
    assert_eq!(render_entry(&e).unwrap().trim(), "Hi");
}

#[test]
fn render_without_content_is_skipped() {
    assert_eq!(render_entry(&entry("x", &[])), None);
}

#[test]
fn conversion_hint_must_end_with_html() {
    assert!(needs_conversion(&Some("text/html".to_string())));
    assert!(needs_conversion(&Some("xhtml".to_string())));
    assert!(!needs_conversion(&Some("html5".to_string())));
    assert!(!needs_conversion(&Some("text".to_string())));
    assert!(!needs_conversion(&None));
}

#[test]
fn text_helpers() {
    assert!(has_prefix("rustlang", "rust"));
    assert!(has_prefix("rust", ""));
    assert!(!has_prefix("ru", "rust"));
    assert!(has_suffix("text/html", "html"));
    assert!(!has_suffix("htm", "html"));
    assert!(same_text("feeds", "feeds"));
    assert!(!same_text("feed", "feeds"));
}

#[test]
fn config_keys() {
    assert_eq!(parse_key("feeds"), Ok(ConfigKey::Feeds));
    assert_eq!(parse_key("colour"), Err(Error::UnknownKey("colour".to_string())));
}

#[test]
fn config_key_report_lists_feeds() {
    let config = Config { feeds: vec![subscription(&[])] };
    assert_eq!(
        config.key_report("feeds"),
        Ok("Feeds\n    `F`: https://example.com/f.xml\n".to_string())
    );
    assert_eq!(Config::new().report_feeds(), "Feeds\n");
    assert_eq!(config.key_report("nope"), Err(Error::UnknownKey("nope".to_string())));
}

#[test]
fn config_delete_and_update_keys() {
    let mut config = Config { feeds: vec![subscription(&[])] };
    assert_eq!(config.update_key("feeds", "x".to_string()), Err(Error::ReadOnlyKey("feeds".to_string())));
    assert_eq!(config.feeds.len(), 1);
    assert_eq!(config.update_key("other", "x".to_string()), Err(Error::UnknownKey("other".to_string())));
    assert_eq!(config.delete_key("other"), Err(Error::UnknownKey("other".to_string())));
    assert_eq!(config.feeds.len(), 1);
    assert_eq!(config.delete_key("feeds"), Ok(()));
    assert!(config.feeds.is_empty());
}

#[test]
fn config_command_from_arguments() {
    let s = |x: &str| Some(x.to_string());
    assert!(matches!(config_command(false, None, None), Ok(ConfigCommand::ShowAll)));
    assert!(matches!(config_command(false, s("feeds"), None), Ok(ConfigCommand::Report(k)) if k == "feeds"));
    assert!(matches!(config_command(true, s("feeds"), None), Ok(ConfigCommand::Delete(k)) if k == "feeds"));
    assert!(matches!(
        config_command(false, s("k"), s("v")),
        Ok(ConfigCommand::Update(k, v)) if k == "k" && v == "v"
    ));
    assert!(matches!(config_command(false, None, s("v")), Err(Error::InvalidArgument(m)) if m == "no key value"));
}

#[test]
fn fetch_source_by_scheme() {
    assert_eq!(fetch_source("https://example.com/feed.xml"), Ok(FetchSource::Http));
    assert_eq!(fetch_source("HTTP://example.com/feed.xml"), Ok(FetchSource::Http));
    assert_eq!(fetch_source("file:///tmp/feed.xml"), Ok(FetchSource::File));
    assert_eq!(fetch_source("ftp://example.com/feed.xml"), Err(Error::UnknownScheme("ftp".to_string())));
    assert_eq!(fetch_source("not a url"), Err(Error::InvalidUrl("not a url".to_string())));
    assert_eq!(source_for_scheme("gopher"), Err(Error::UnknownScheme("gopher".to_string())));
    assert_eq!(source_for_scheme("file"), Ok(FetchSource::File));
}

#[test]
fn document_paths_in_a_directory() {
    assert_eq!(get_config_path("/home/u/.config/atomizer"), "/home/u/.config/atomizer/config.toml");
    assert_eq!(get_feeds_path("/data/"), "/data/feeds.toml");
    assert_eq!(get_config_path("/tmp/atomizer"), "/tmp/atomizer/config.toml");
    assert_eq!(get_feeds_path("/tmp/atomizer"), "/tmp/atomizer/feeds.toml");
    assert_eq!(get_config_path(""), "config.toml");
}

#[test]
fn setup_needs_force_over_existing_documents() {
    assert_eq!(check_setup(false, false, false), Ok(()));
    assert_eq!(check_setup(false, true, false), Err(Error::PreviouslySetup));
    assert_eq!(check_setup(false, false, true), Err(Error::PreviouslySetup));
    assert_eq!(check_setup(true, true, true), Ok(()));
}

#[test]
fn uncategorised_entry_anywhere_changes_no_count() {
    let base = Feeds {
        feeds: vec![
            feed("f", "F", vec![entry("1", &["a"]), entry("2", &["b", "a"])]),
            feed("g", "G", vec![entry("3", &["a"])]),
        ],
    };
    let mut more = base.clone();
    more.feeds[0].entries.insert(1, entry("new", &[]));
    let before = build_category_index(&base);
    let after = build_category_index(&more);
    assert_eq!(before.len(), after.len());
    for k in 0..before.len() {
        let b = before.bucket(k);
        assert_eq!(after.get(&b.term, &b.feed_title), b.count);
    }
}
