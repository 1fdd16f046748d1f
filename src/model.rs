//! The data the reader keeps: subscriptions with their read markers, and the
//! cached feed documents they are joined with by id.
use vstd::prelude::*;

verus! {

/// The views of a list of strings.
pub open spec fn strs(v: Seq<String>) -> Seq<Seq<char>> {
    v.map_values(|s: String| s@)
}

/// A point in time: whole seconds since the Unix epoch, the nanoseconds past
/// that second, and the UTC offset (in seconds) it was written with.
#[derive(Clone, Copy, Debug, PartialEq, Eq, Structural)]
pub struct Timestamp {
    pub secs: i64,
    pub nanos: u32,
    pub offset_secs: i32,
}

/// One hour, in nanoseconds.
pub const HOUR_NANOS: i128 = 3_600_000_000_000;

impl Timestamp {
    /// The instant, in nanoseconds since the epoch; the offset does not move it.
    pub open spec fn instant(self) -> int {
        self.secs as int * 1_000_000_000 + self.nanos as int
    }

    /// The instant, computed.
    pub fn instant_nanos(&self) -> (r: i128)
        ensures
            r as int == self.instant(),
    {
        let s: i128 = self.secs as i128;
        assert(-9_223_372_036_854_775_808 <= s <= 9_223_372_036_854_775_807);
        assert(-9_223_372_036_854_775_808_000_000_000 <= s * 1_000_000_000
            <= 9_223_372_036_854_775_807_000_000_000) by (nonlinear_arith)
            requires
                -9_223_372_036_854_775_808 <= s <= 9_223_372_036_854_775_807,
        ;
        s * 1_000_000_000 + self.nanos as i128
    }
}

/// Two instants at most an hour apart.
pub open spec fn within_an_hour(a: Timestamp, b: Timestamp) -> bool {
    let d = a.instant() - b.instant();
    -(HOUR_NANOS as int) <= d <= HOUR_NANOS as int
}

/// Whether two instants are at most an hour apart.
pub fn is_within_an_hour(a: &Timestamp, b: &Timestamp) -> (r: bool)
    ensures
        r == within_an_hour(*a, *b),
{
    let d: i128 = a.instant_nanos() - b.instant_nanos();
    -HOUR_NANOS <= d && d <= HOUR_NANOS
}

/// The body of an entry, with its content-type hint.
#[derive(Clone, Debug)]
pub struct Content {
    pub content_type: Option<String>,
    pub value: Option<String>,
}

pub ghost struct ContentView {
    pub content_type: Option<Seq<char>>,
    pub value: Option<Seq<char>>,
}

impl View for Content {
    type V = ContentView;

    open spec fn view(&self) -> ContentView {
        ContentView { content_type: self.content_type.deep_view(), value: self.value.deep_view() }
    }
}

/// One entry of a feed.
#[derive(Clone, Debug)]
pub struct Entry {
    pub id: String,
    pub title: String,
    /// The entry's category terms.
    pub categories: Vec<String>,
    pub content: Option<Content>,
}

pub ghost struct EntryView {
    pub id: Seq<char>,
    pub title: Seq<char>,
    pub categories: Seq<Seq<char>>,
    pub content: Option<ContentView>,
}

impl View for Entry {
    type V = EntryView;

    open spec fn view(&self) -> EntryView {
        EntryView {
            id: self.id@,
            title: self.title@,
            categories: strs(self.categories@),
            content: match self.content {
                Some(c) => Some(c@),
                None => None,
            },
        }
    }
}

/// A fetched feed document, as it is cached.
#[derive(Clone, Debug)]
pub struct Feed {
    pub id: String,
    pub title: String,
    pub updated: Timestamp,
    pub entries: Vec<Entry>,
}

pub ghost struct FeedView {
    pub id: Seq<char>,
    pub title: Seq<char>,
    pub updated: Timestamp,
    pub entries: Seq<EntryView>,
}

impl View for Feed {
    type V = FeedView;

    open spec fn view(&self) -> FeedView {
        FeedView {
            id: self.id@,
            title: self.title@,
            updated: self.updated,
            entries: self.entries@.map_values(|e: Entry| e@),
        }
    }
}

/// The feed cache: one document per subscription.
#[derive(Clone, Debug)]
pub struct Feeds {
    pub feeds: Vec<Feed>,
}

impl View for Feeds {
    type V = Seq<FeedView>;

    open spec fn view(&self) -> Seq<FeedView> {
        self.feeds@.map_values(|f: Feed| f@)
    }
}

impl Feeds {
    /// An empty cache.
    pub fn new() -> (r: Feeds)
        ensures
            r@ == Seq::<FeedView>::empty(),
    {
        let r = Feeds { feeds: Vec::new() };
        assert(r@ =~= Seq::<FeedView>::empty());
        r
    }
}

/// One followed feed, with what the user has read of it.
#[derive(Clone, Debug)]
pub struct FeedConfig {
    /// The feed's own id, taken when it was added.
    pub id: String,
    /// Display name: the feed's title when it was added.
    pub name: String,
    /// Where the feed is fetched from.
    pub url: String,
    /// The `updated` time of the last document merged in.
    pub last_updated: Timestamp,
    /// Ids of the entries marked read.
    pub read: Vec<String>,
    /// Entries of the cached document less the read markers, at the last sync.
    pub unread_count: usize,
}

pub ghost struct FeedConfigView {
    pub id: Seq<char>,
    pub name: Seq<char>,
    pub url: Seq<char>,
    pub last_updated: Timestamp,
    pub read: Seq<Seq<char>>,
    pub unread_count: nat,
}

impl View for FeedConfig {
    type V = FeedConfigView;

    open spec fn view(&self) -> FeedConfigView {
        FeedConfigView {
            id: self.id@,
            name: self.name@,
            url: self.url@,
            last_updated: self.last_updated,
            read: strs(self.read@),
            unread_count: self.unread_count as nat,
        }
    }
}

/// The subscription list.
#[derive(Clone, Debug)]
pub struct Config {
    pub feeds: Vec<FeedConfig>,
}

impl View for Config {
    type V = Seq<FeedConfigView>;

    open spec fn view(&self) -> Seq<FeedConfigView> {
        self.feeds@.map_values(|f: FeedConfig| f@)
    }
}

impl Config {
    /// An empty subscription list.
    pub fn new() -> (r: Config)
        ensures
            r@ == Seq::<FeedConfigView>::empty(),
    {
        let r = Config { feeds: Vec::new() };
        assert(r@ =~= Seq::<FeedConfigView>::empty());
        r
    }
}

} // verus!
