//! Merging a freshly fetched feed document into a subscription and the cache.
use vstd::prelude::*;
use crate::model::{
    is_within_an_hour, strs, within_an_hour, Config, Feed, FeedConfig, FeedConfigView, FeedView,
    Feeds, Timestamp,
};

verus! {

/// Whether `feed` has an entry with id `id`.
pub open spec fn has_entry(feed: FeedView, id: Seq<char>) -> bool {
    exists|j: int| 0 <= j < feed.entries.len() && #[trigger] feed.entries[j].id == id
}

/// Holds of the ids of entries that `feed` has.
pub open spec fn present_in(feed: FeedView) -> spec_fn(Seq<char>) -> bool {
    |id: Seq<char>| has_entry(feed, id)
}

/// The read markers kept by a sync: all of them when the fetched document is
/// at most an hour from the last sync, else those of entries still present.
pub open spec fn read_after_sync(sub: FeedConfigView, fetched: FeedView) -> Seq<Seq<char>> {
    if within_an_hour(sub.last_updated, fetched.updated) {
        sub.read
    } else {
        sub.read.filter(present_in(fetched))
    }
}

/// `entries - read`, or 0 where that would be negative.
pub open spec fn unread(entries: nat, read: nat) -> nat {
    if entries > read {
        (entries - read) as nat
    } else {
        0
    }
}

/// The subscription after a sync with `fetched`.
pub open spec fn synced(sub: FeedConfigView, fetched: FeedView) -> FeedConfigView {
    let read = read_after_sync(sub, fetched);
    FeedConfigView {
        last_updated: fetched.updated,
        read: read,
        unread_count: unread(fetched.entries.len(), read.len()),
        ..sub
    }
}

/// `k` is the first position of the cache that holds a document with id `id`.
pub open spec fn is_first_with_id(feeds: Seq<FeedView>, id: Seq<char>, k: int) -> bool {
    &&& 0 <= k < feeds.len()
    &&& feeds[k].id == id
    &&& forall|j: int| 0 <= j < k ==> #[trigger] feeds[j].id != id
}

/// The cache after a sync of the subscription `id` with `fetched`: the first
/// document with that id is replaced, or, where there is none, `fetched` is
/// appended.
pub open spec fn cache_after_sync(feeds: Seq<FeedView>, id: Seq<char>, fetched: FeedView) -> Seq<
    FeedView,
> {
    if exists|k: int| is_first_with_id(feeds, id, k) {
        feeds.update(choose|k: int| is_first_with_id(feeds, id, k), fetched)
    } else {
        feeds.push(fetched)
    }
}

/// Position of the first cached document with id `id`.
pub fn find_feed(cache: &Feeds, id: &String) -> (r: Option<usize>)
    ensures
        match r {
            Some(k) => is_first_with_id(cache@, id@, k as int),
            None => forall|j: int| 0 <= j < cache@.len() ==> #[trigger] cache@[j].id != id@,
        },
{
    let mut i: usize = 0;
    while i < cache.feeds.len()
        invariant
            i <= cache.feeds.len(),
            forall|j: int| 0 <= j < i ==> #[trigger] cache@[j].id != id@,
        decreases cache.feeds.len() - i,
    {
        if cache.feeds[i].id == *id {
            return Some(i);
        }
        i += 1;
    }
    None
}

/// Whether `feed` has an entry with id `id`.
pub fn feed_has_entry(feed: &Feed, id: &String) -> (r: bool)
    ensures
        r == has_entry(feed@, id@),
{
    let mut j: usize = 0;
    while j < feed.entries.len()
        invariant
            j <= feed.entries.len(),
            forall|k: int| 0 <= k < j ==> #[trigger] feed@.entries[k].id != id@,
        decreases feed.entries.len() - j,
    {
        if feed.entries[j].id == *id {
            assert(feed@.entries[j as int].id == id@);
            return true;
        }
        j += 1;
    }
    false
}

/// The read markers of `read` whose entries `feed` still holds, in order.
fn prune_read(read: &Vec<String>, feed: &Feed) -> (r: Vec<String>)
    ensures
        strs(r@) == strs(read@).filter(present_in(feed@)),
{
    let ghost pred = present_in(feed@);
    let mut kept: Vec<String> = Vec::new();
    let mut i: usize = 0;
    while i < read.len()
        invariant
            i <= read.len(),
            pred == present_in(feed@),
            strs(kept@) == strs(read@).subrange(0, i as int).filter(pred),
        decreases read.len() - i,
    {
        let ghost s = strs(read@).subrange(0, i as int + 1);
        proof {
            assert(s.drop_last() =~= strs(read@).subrange(0, i as int));
            assert(s.last() == read@[i as int]@);
        }
        let found = feed_has_entry(feed, &read[i]);
        if found {
            kept.push(read[i].clone());
            proof {
                reveal(Seq::filter);
                assert(pred(s.last()));
                assert(s.filter(pred) == s.drop_last().filter(pred).push(s.last()));
                assert(strs(kept@) =~= s.filter(pred));
            }
        } else {
            proof {
                reveal(Seq::filter);
                assert(!pred(s.last()));
                assert(s.filter(pred) == s.drop_last().filter(pred));
            }
        }
        i += 1;
    }
    assert(strs(read@).subrange(0, read@.len() as int) =~= strs(read@));
    kept
}

/// Merges the freshly fetched document `fetched` into the subscription `sub`
/// and the cache: read markers are pruned unless the document is at most an
/// hour from the last sync, the sync time and unread count are refreshed, and
/// the cached document with the subscription's id is replaced by `fetched`
/// (appended where there was none).
pub fn sync(sub: &mut FeedConfig, cache: &mut Feeds, fetched: Feed)
    ensures
        final(sub)@ == synced(old(sub)@, fetched@),
        final(cache)@ == cache_after_sync(old(cache)@, old(sub)@.id, fetched@),
{
    if !is_within_an_hour(&sub.last_updated, &fetched.updated) {
        sub.read = prune_read(&sub.read, &fetched);
    }
    sub.last_updated = fetched.updated;
    sub.unread_count = fetched.entries.len().saturating_sub(sub.read.len());
    let ghost fv = fetched@;
    match find_feed(cache, &sub.id) {
        Some(k) => {
            cache.feeds[k] = fetched;
            proof {
                assert(is_first_with_id(old(cache)@, old(sub)@.id, k as int));
                let c = choose|c: int| is_first_with_id(old(cache)@, old(sub)@.id, c);
                assert(c == k as int) by {
                    if c < k {
                        assert(old(cache)@[c].id != old(sub)@.id);
                    }
                    if k < c {
                        assert(old(cache)@[k as int].id != old(sub)@.id);
                    }
                }
                assert(cache@ =~= old(cache)@.update(k as int, fv));
            }
        },
        None => {
            cache.feeds.push(fetched);
            assert(cache@ =~= old(cache)@.push(fv));
        },
    }
}

/// The cache after the first `n` subscriptions of `subs` were synced, in
/// order, each with the document at the same position of `fetched`.
pub open spec fn cache_after_all(
    subs: Seq<FeedConfigView>,
    cache: Seq<FeedView>,
    fetched: Seq<FeedView>,
    n: nat,
) -> Seq<FeedView>
    decreases n,
{
    if n == 0 {
        cache
    } else {
        cache_after_sync(
            cache_after_all(subs, cache, fetched, (n - 1) as nat),
            subs[n - 1].id,
            fetched[n - 1],
        )
    }
}

/// Syncs every subscription, in order, with the document fetched for it
/// (`fetched[i]` for the `i`-th subscription).
pub fn sync_all(config: &mut Config, cache: &mut Feeds, fetched: Vec<Feed>)
    requires
        fetched@.len() == old(config)@.len(),
    ensures
        final(config)@.len() == old(config)@.len(),
        forall|i: int|
            0 <= i < old(config)@.len() ==> #[trigger] final(config)@[i] == synced(
                old(config)@[i],
                fetched@[i]@,
            ),
        final(cache)@ == cache_after_all(
            old(config)@,
            old(cache)@,
            fetched@.map_values(|f: Feed| f@),
            old(config)@.len(),
        ),
{
    let ghost subs = config@;
    let ghost docs = fetched@.map_values(|f: Feed| f@);
    let mut rest = fetched;
    let mut i: usize = 0;
    while i < config.feeds.len()
        invariant
            config@.len() == subs.len(),
            docs.len() == subs.len(),
            i <= subs.len(),
            rest@.len() == subs.len() - i,
            forall|j: int| 0 <= j < rest@.len() ==> #[trigger] rest@[j]@ == docs[j + i],
            forall|j: int| 0 <= j < i ==> #[trigger] config@[j] == synced(subs[j], docs[j]),
            forall|j: int| i <= j < subs.len() ==> #[trigger] config@[j] == subs[j],
            cache@ == cache_after_all(subs, old(cache)@, docs, i as nat),
        decreases subs.len() - i,
    {
        let f = rest.remove(0);
        assert(f@ == docs[i as int]);
        let ghost before = config.feeds@;
        let ghost before_view = config@;
        assert(config@[i as int] == subs[i as int]);
        assert(before[i as int]@ == subs[i as int]);
        sync(&mut config.feeds[i], cache, f);
        assert(config.feeds@.len() == before.len());
        assert(forall|j: int| 0 <= j < before.len() && j != i ==> config.feeds@[j] == before[j]);
        assert(config@ =~= before_view.update(i as int, synced(subs[i as int], docs[i as int])));
        i += 1;
    }
}

/// The subscription after `id` was marked read: the id is appended to the
/// read markers unless it is there already.
pub open spec fn marked_read(sub: FeedConfigView, id: Seq<char>) -> FeedConfigView {
    if sub.read.contains(id) {
        sub
    } else {
        FeedConfigView { read: sub.read.push(id), ..sub }
    }
}

impl FeedConfig {
    /// Whether the entry `entry_id` is marked read.
    pub fn is_read(&self, entry_id: &String) -> (r: bool)
        ensures
            r == self@.read.contains(entry_id@),
    {
        let mut i: usize = 0;
        while i < self.read.len()
            invariant
                i <= self.read.len(),
                forall|j: int| 0 <= j < i ==> #[trigger] self@.read[j] != entry_id@,
            decreases self.read.len() - i,
        {
            if self.read[i] == *entry_id {
                assert(self@.read[i as int] == entry_id@);
                return true;
            }
            i += 1;
        }
        false
    }

    /// Marks the entry `entry_id` read; marking it again changes nothing. The
    /// unread count is left for the next sync to refresh.
    pub fn mark_read(&mut self, entry_id: String)
        ensures
            final(self)@ == marked_read(old(self)@, entry_id@),
    {
        if !self.is_read(&entry_id) {
            let ghost id = entry_id@;
            self.read.push(entry_id);
            assert(self@.read =~= old(self)@.read.push(id));
        }
    }
}

/// Within an hour of the last sync every read marker survives a sync; beyond
/// an hour exactly the markers of entries that the fetched document still
/// has survive.
pub proof fn lemma_sync_debounce(sub: FeedConfigView, fetched: FeedView)
    ensures
        within_an_hour(sub.last_updated, fetched.updated) ==> synced(sub, fetched).read == sub.read,
        !within_an_hour(sub.last_updated, fetched.updated) ==> forall|id: Seq<char>|
            #[trigger] synced(sub, fetched).read.contains(id) <==> (sub.read.contains(id)
                && has_entry(fetched, id)),
{
    broadcast use vstd::seq_lib::group_filter_ensures;

    if !within_an_hour(sub.last_updated, fetched.updated) {
        let kept = sub.read.filter(present_in(fetched));
        assert forall|id: Seq<char>| #[trigger] kept.contains(id) <==> (sub.read.contains(id)
            && has_entry(fetched, id)) by {
            if kept.contains(id) {
                sub.read.lemma_filter_contains_rev(present_in(fetched), id);
                let k = choose|k: int| 0 <= k < kept.len() && kept[k] == id;
                assert(present_in(fetched)(kept[k]));
            }
            if sub.read.contains(id) && has_entry(fetched, id) {
                let k = choose|k: int| 0 <= k < sub.read.len() && sub.read[k] == id;
                assert(present_in(fetched)(sub.read[k]));
            }
        }
    }
}

/// After any sync the unread count is the number of fetched entries less the
/// number of read markers kept, and never below zero.
pub proof fn lemma_sync_unread_count(sub: FeedConfigView, fetched: FeedView)
    ensures
        synced(sub, fetched).unread_count == (if fetched.entries.len() >= synced(
            sub,
            fetched,
        ).read.len() {
            fetched.entries.len() - synced(sub, fetched).read.len()
        } else {
            0
        }),
        synced(sub, fetched).unread_count >= 0,
{
}

/// Marking an entry read a second time changes nothing, so the number of read
/// markers stays the same.
pub proof fn lemma_mark_read_idempotent(sub: FeedConfigView, id: Seq<char>)
    ensures
        marked_read(marked_read(sub, id), id) == marked_read(sub, id),
        marked_read(marked_read(sub, id), id).read.len() == marked_read(sub, id).read.len(),
{
    if !sub.read.contains(id) {
        assert(sub.read.push(id)[sub.read.len() as int] == id);
    }
}

} // verus!
