//! Choosing which entries of a feed to show, and what text to show for one.
use vstd::prelude::*;
use crate::model::{ContentView, Entry, EntryView, Feed, FeedConfig};
use crate::text::{has_prefix, has_suffix};
use vstd::string::*;

verus! {

/// Some category term of `e` starts with `filter`.
pub open spec fn matches_category(e: EntryView, filter: Seq<char>) -> bool {
    exists|k: int| 0 <= k < e.categories.len() && filter.is_prefix_of(#[trigger] e.categories[k])
}

/// Whether `e` is listed. With a category filter: it matches the filter and
/// is unread, whatever `show_all` says. Without one: it is unread, or
/// `show_all` is set.
pub open spec fn is_visible(
    e: EntryView,
    read: Seq<Seq<char>>,
    filter: Option<Seq<char>>,
    show_all: bool,
) -> bool {
    match filter {
        Some(f) => matches_category(e, f) && !read.contains(e.id),
        None => show_all || !read.contains(e.id),
    }
}

/// Positions, in order, of the listed entries among the first `n` of `entries`.
pub open spec fn visible_upto(
    entries: Seq<EntryView>,
    read: Seq<Seq<char>>,
    filter: Option<Seq<char>>,
    show_all: bool,
    n: nat,
) -> Seq<usize>
    decreases n,
{
    if n == 0 {
        Seq::empty()
    } else {
        let before = visible_upto(entries, read, filter, show_all, (n - 1) as nat);
        if is_visible(entries[n - 1], read, filter, show_all) {
            before.push((n - 1) as usize)
        } else {
            before
        }
    }
}

/// Positions of the entries of `feed` listed for `sub`, in the feed's order.
pub open spec fn visible_positions(
    entries: Seq<EntryView>,
    read: Seq<Seq<char>>,
    filter: Option<Seq<char>>,
    show_all: bool,
) -> Seq<usize> {
    visible_upto(entries, read, filter, show_all, entries.len())
}

/// Whether some category term of `e` starts with `filter`.
fn entry_matches_category(e: &Entry, filter: &String) -> (r: bool)
    ensures
        r == matches_category(e@, filter@),
{
    let mut k: usize = 0;
    while k < e.categories.len()
        invariant
            k <= e.categories.len(),
            forall|j: int| 0 <= j < k ==> !filter@.is_prefix_of(#[trigger] e@.categories[j]),
        decreases e.categories.len() - k,
    {
        if has_prefix(e.categories[k].as_str(), filter.as_str()) {
            assert(filter@.is_prefix_of(e@.categories[k as int]));
            return true;
        }
        k += 1;
    }
    false
}

/// Positions of the entries of `feed` to list for `sub`, in the feed's order:
/// with a category filter, the unread entries with a category term that
/// starts with it; without one, all entries when `show_all` is set, else the
/// unread ones.
pub fn visible_entries(
    feed: &Feed,
    sub: &FeedConfig,
    category_filter: &Option<String>,
    show_all: bool,
) -> (r: Vec<usize>)
    ensures
        r@ == visible_positions(feed@.entries, sub@.read, category_filter.deep_view(), show_all),
{
    let ghost entries = feed@.entries;
    let ghost filter = category_filter.deep_view();
    let mut r: Vec<usize> = Vec::new();
    let mut i: usize = 0;
    while i < feed.entries.len()
        invariant
            entries == feed@.entries,
            filter == category_filter.deep_view(),
            i <= feed.entries.len(),
            r@ == visible_upto(entries, sub@.read, filter, show_all, i as nat),
        decreases feed.entries.len() - i,
    {
        let e = &feed.entries[i];
        assert(e@ == entries[i as int]);
        let unread = !sub.is_read(&e.id);
        let shown = match category_filter {
            Some(f) => entry_matches_category(e, f) && unread,
            None => show_all || unread,
        };
        if shown {
            r.push(i);
        }
        i += 1;
    }
    r
}

/// Every listed position is that of an entry that `is_visible` admits.
pub proof fn lemma_visible_upto_members(
    entries: Seq<EntryView>,
    read: Seq<Seq<char>>,
    filter: Option<Seq<char>>,
    show_all: bool,
    n: nat,
)
    requires
        n <= entries.len(),
        entries.len() <= usize::MAX,
    ensures
        forall|k: int|
            0 <= k < visible_upto(entries, read, filter, show_all, n).len() ==> {
                let p = #[trigger] visible_upto(entries, read, filter, show_all, n)[k];
                &&& p < n
                &&& is_visible(entries[p as int], read, filter, show_all)
            },
    decreases n,
{
    if n > 0 {
        lemma_visible_upto_members(entries, read, filter, show_all, (n - 1) as nat);
        let prev = visible_upto(entries, read, filter, show_all, (n - 1) as nat);
        let cur = visible_upto(entries, read, filter, show_all, n);
        assert forall|k: int| 0 <= k < cur.len() implies cur[k] < n && is_visible(
            entries[cur[k] as int],
            read,
            filter,
            show_all,
        ) by {
            if k < prev.len() {
                assert(cur[k] == prev[k]);
            }
        }
    }
}

/// With a category filter, no entry that is marked read is listed, even with
/// `show_all` set; without a filter and with `show_all` set, every entry is
/// listed, read or not.
pub proof fn lemma_filter_asymmetry(
    entries: Seq<EntryView>,
    read: Seq<Seq<char>>,
    filter: Seq<char>,
)
    requires
        entries.len() <= usize::MAX,
    ensures
        forall|k: int|
            0 <= k < visible_positions(entries, read, Some(filter), true).len() ==> !read.contains(
                entries[#[trigger] visible_positions(entries, read, Some(filter), true)[k] as int].id,
            ),
        visible_positions(entries, read, None, true) == Seq::new(
            entries.len(),
            |i: int| i as usize,
        ),
{
    lemma_visible_upto_members(entries, read, Some(filter), true, entries.len());
    lemma_show_all_lists_every_entry(entries, read, entries.len());
}

/// Without a filter and with `show_all` set, the first `n` entries are all listed.
proof fn lemma_show_all_lists_every_entry(entries: Seq<EntryView>, read: Seq<Seq<char>>, n: nat)
    requires
        n <= entries.len(),
        entries.len() <= usize::MAX,
    ensures
        visible_upto(entries, read, None, true, n) == Seq::new(n, |i: int| i as usize),
    decreases n,
{
    if n > 0 {
        lemma_show_all_lists_every_entry(entries, read, (n - 1) as nat);
        assert(visible_upto(entries, read, None, true, n) =~= Seq::new(n, |i: int| i as usize));
    } else {
        assert(visible_upto(entries, read, None, true, n) =~= Seq::new(n, |i: int| i as usize));
    }
}

/// Whether a content-type hint asks for HTML conversion: it ends with "html".
/// A missing hint counts as plain text.
pub open spec fn is_html(hint: Option<Seq<char>>) -> bool {
    match hint {
        Some(h) => "html"@.is_suffix_of(h),
        None => false,
    }
}

/// The raw body of a content, empty where it has none.
pub open spec fn raw_body(c: ContentView) -> Seq<char> {
    match c.value {
        Some(v) => v,
        None => Seq::empty(),
    }
}

/// What `htmd::convert` makes of an HTML text.
pub uninterp spec fn markdown_of(html: Seq<char>) -> Seq<char>;

#[verifier::external_type_specification]
#[verifier::external_body]
pub struct ExIoError(std::io::Error);

/// Relies on `htmd::convert`: turns an HTML text into Markdown text; what it
/// gives depends on the text alone, and it does not fail.
#[verifier::external_body]
fn html_to_markdown(html: &str) -> (r: Result<String, std::io::Error>)
    ensures
        r is Ok,
        r matches Ok(s) ==> s@ == markdown_of(html@),
{
    htmd::convert(html)
}

/// Whether the content's type hint asks for HTML conversion.
pub fn needs_conversion(hint: &Option<String>) -> (r: bool)
    ensures
        r == is_html(hint.deep_view()),
{
    proof {
        reveal_strlit("html");
    }
    match hint {
        Some(h) => has_suffix(h.as_str(), "html"),
        None => false,
    }
}

/// The text to show for an entry: `None` where it has no body; its body
/// converted from HTML where the type hint ends with "html"; else the body
/// as it is.
pub fn render_entry(entry: &Entry) -> (r: Option<String>)
    ensures
        entry@.content is None ==> r is None,
        entry@.content matches Some(c) ==> (r matches Some(s) && s@ == (if is_html(c.content_type) {
            markdown_of(raw_body(c))
        } else {
            raw_body(c)
        })),
{
    match &entry.content {
        None => None,
        Some(c) => {
            let body: &str = match &c.value {
                Some(v) => v.as_str(),
                None => "",
            };
            proof {
                reveal_strlit("");
            }
            assert(entry@.content == Some(c@));
            assert(body@ == raw_body(c@));
            if needs_conversion(&c.content_type) {
                match html_to_markdown(body) {
                    Ok(s) => Some(s),
                    Err(_) => None,
                }
            } else {
                Some(String::from_str(body))
            }
        },
    }
}

} // verus!
