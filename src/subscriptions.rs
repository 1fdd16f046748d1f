//! Adding and removing a subscription together with its cached feed, and the
//! rule for setting up the data directory.
use vstd::prelude::*;
use crate::error::Error;
use crate::model::{Config, Feed, FeedConfig, FeedConfigView, FeedView, Feeds, strs};

verus! {

/// The subscription that adding `feed` from `url` creates: the feed's id and
/// title, its update time, no read markers, and all its entries unread.
pub open spec fn new_subscription(url: Seq<char>, feed: FeedView) -> FeedConfigView {
    FeedConfigView {
        id: feed.id,
        name: feed.title,
        url: url,
        last_updated: feed.updated,
        read: Seq::empty(),
        unread_count: feed.entries.len(),
    }
}

/// Adds a subscription to `feed`, fetched from `url`, and caches the feed.
pub fn add_feed(config: &mut Config, cache: &mut Feeds, url: String, feed: Feed)
    ensures
        final(config)@ == old(config)@.push(new_subscription(url@, feed@)),
        final(cache)@ == old(cache)@.push(feed@),
{
    let ghost fv = feed@;
    let ghost uv = url@;
    let sub = FeedConfig {
        id: feed.id.clone(),
        name: feed.title.clone(),
        url: url,
        last_updated: feed.updated,
        read: Vec::new(),
        unread_count: feed.entries.len(),
    };
    assert(strs(sub.read@) =~= Seq::<Seq<char>>::empty());
    assert(sub@ == new_subscription(uv, fv));
    config.feeds.push(sub);
    cache.feeds.push(feed);
    assert(config@ =~= old(config)@.push(new_subscription(uv, fv)));
    assert(cache@ =~= old(cache)@.push(fv));
}

/// The subscription has `x` as its id or as its name.
pub open spec fn is_named(sub: FeedConfigView, x: Seq<char>) -> bool {
    sub.id == x || sub.name == x
}

/// `k` is the first subscription with `x` as its id or name.
pub open spec fn is_first_named(subs: Seq<FeedConfigView>, x: Seq<char>, k: int) -> bool {
    &&& 0 <= k < subs.len()
    &&& is_named(subs[k], x)
    &&& forall|j: int| 0 <= j < k ==> !is_named(#[trigger] subs[j], x)
}

/// Holds of the cached feeds whose id is not `id`.
pub open spec fn other_than(id: Seq<char>) -> spec_fn(FeedView) -> bool {
    |f: FeedView| f.id != id
}

/// Removes the first subscription whose id or name is `id_or_name`, and every
/// cached feed with that subscription's id. Where no subscription has that
/// id or name, this is a `MissingFeed` and nothing changes.
pub fn remove_feed(config: &mut Config, cache: &mut Feeds, id_or_name: &String) -> (r: Result<
    (),
    Error,
>)
    ensures
        (exists|k: int| is_first_named(old(config)@, id_or_name@, k)) ==> {
            let k = choose|k: int| is_first_named(old(config)@, id_or_name@, k);
            &&& r is Ok
            &&& final(config)@ == old(config)@.remove(k)
            &&& final(cache)@ == old(cache)@.filter(other_than(old(config)@[k].id))
        },
        !(exists|k: int| is_first_named(old(config)@, id_or_name@, k)) ==> {
            &&& r matches Err(Error::MissingFeed(s)) && s@ == id_or_name@
            &&& final(config)@ == old(config)@
            &&& final(cache)@ == old(cache)@
        },
{
    let mut i: usize = 0;
    while i < config.feeds.len()
        invariant
            *config == *old(config),
            *cache == *old(cache),
            i <= config.feeds.len(),
            forall|j: int| 0 <= j < i ==> !is_named(#[trigger] config@[j], id_or_name@),
        decreases config.feeds.len() - i,
    {
        if config.feeds[i].id == *id_or_name || config.feeds[i].name == *id_or_name {
            assert(is_first_named(config@, id_or_name@, i as int));
            let ghost subs = config@;
            let removed = config.feeds.remove(i);
            proof {
                let c = choose|c: int| is_first_named(subs, id_or_name@, c);
                assert(c == i as int) by {
                    if c < i {
                        assert(!is_named(subs[c], id_or_name@));
                    }
                    if i < c {
                        assert(!is_named(subs[i as int], id_or_name@));
                    }
                }
                assert(config@ =~= subs.remove(i as int));
            }
            remove_cached(cache, &removed.id);
            return Ok(());
        }
        i += 1;
    }
    assert(!(exists|k: int| is_first_named(old(config)@, id_or_name@, k))) by {
        if exists|k: int| is_first_named(old(config)@, id_or_name@, k) {
            let k = choose|k: int| is_first_named(old(config)@, id_or_name@, k);
            assert(!is_named(config@[k], id_or_name@));
        }
    }
    Err(Error::MissingFeed(id_or_name.clone()))
}

/// Drops every cached feed whose id is `id`, keeping the others in order.
fn remove_cached(cache: &mut Feeds, id: &String)
    ensures
        final(cache)@ == old(cache)@.filter(other_than(id@)),
{
    let ghost all = cache@;
    let ghost pred = other_than(id@);
    let mut rest: Vec<Feed> = Vec::new();
    std::mem::swap(&mut rest, &mut cache.feeds);
    let ghost orig = rest@;
    let n: usize = rest.len();
    assert(all =~= orig.map_values(|f: Feed| f@));
    let mut i: usize = 0;
    while rest.len() > 0
        invariant
            pred == other_than(id@),
            all == orig.map_values(|f: Feed| f@),
            i + rest@.len() == orig.len(),
            orig.len() == n,
            forall|j: int| 0 <= j < rest@.len() ==> #[trigger] rest@[j] == orig[j + i],
            cache@ == all.subrange(0, i as int).filter(pred),
        decreases rest@.len(),
    {
        let f = rest.remove(0);
        assert(f == orig[i as int]);
        let ghost s = all.subrange(0, i as int + 1);
        proof {
            assert(s.drop_last() =~= all.subrange(0, i as int));
            assert(s.last() == f@);
        }
        if f.id == *id {
            proof {
                reveal(Seq::filter);
                assert(!pred(s.last()));
                assert(s.filter(pred) == s.drop_last().filter(pred));
            }
        } else {
            let ghost before = cache@;
            cache.feeds.push(f);
            proof {
                reveal(Seq::filter);
                assert(pred(s.last()));
                assert(s.filter(pred) == s.drop_last().filter(pred).push(s.last()));
                assert(cache@ =~= before.push(s.last()));
            }
        }
        i += 1;
    }
    assert(all.subrange(0, i as int) =~= all);
}

/// Whether the data directory may be set up: always with `force`, else only
/// where neither document exists yet (`PreviouslySetup` otherwise).
pub fn check_setup(force: bool, config_exists: bool, feeds_exists: bool) -> (r: Result<(), Error>)
    ensures
        r is Ok <==> (force || !(config_exists || feeds_exists)),
        r is Err ==> r == Err::<(), Error>(Error::PreviouslySetup),
{
    if !force && (config_exists || feeds_exists) {
        Err(Error::PreviouslySetup)
    } else {
        Ok(())
    }
}

} // verus!
