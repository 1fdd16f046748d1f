//! How often each category term occurs in the entries of each cached feed.
use vstd::prelude::*;
use crate::model::{strs, Entry, EntryView, Feed, FeedView, Feeds};

verus! {

/// How often `t` occurs in `terms`.
pub open spec fn occurrences(terms: Seq<Seq<char>>, t: Seq<char>) -> nat
    decreases terms.len(),
{
    if terms.len() == 0 {
        0
    } else {
        (if terms[0] == t {
            1nat
        } else {
            0nat
        }) + occurrences(terms.drop_first(), t)
    }
}

/// How often `t` occurs among the category terms of `entries`.
pub open spec fn entries_count(entries: Seq<EntryView>, t: Seq<char>) -> nat
    decreases entries.len(),
{
    if entries.len() == 0 {
        0
    } else {
        occurrences(entries[0].categories, t) + entries_count(entries.drop_first(), t)
    }
}

/// How often `t` occurs among the category terms of the entries of the feeds
/// titled `title`.
pub open spec fn category_count(feeds: Seq<FeedView>, t: Seq<char>, title: Seq<char>) -> nat
    decreases feeds.len(),
{
    if feeds.len() == 0 {
        0
    } else {
        (if feeds[0].title == title {
            entries_count(feeds[0].entries, t)
        } else {
            0
        }) + category_count(feeds.drop_first(), t, title)
    }
}

/// One bucket of the index: a term, a feed title and how often the term
/// occurs in that feed.
#[derive(Clone, Debug)]
pub struct CategoryCount {
    pub term: String,
    pub feed_title: String,
    pub count: usize,
}

pub ghost struct CategoryCountView {
    pub term: Seq<char>,
    pub feed_title: Seq<char>,
    pub count: nat,
}

impl View for CategoryCount {
    type V = CategoryCountView;

    open spec fn view(&self) -> CategoryCountView {
        CategoryCountView { term: self.term@, feed_title: self.feed_title@, count: self.count as nat }
    }
}

/// The sum of the counts of the buckets keyed `(t, title)`.
pub open spec fn bucket_sum(rows: Seq<CategoryCountView>, t: Seq<char>, title: Seq<char>) -> nat
    decreases rows.len(),
{
    if rows.len() == 0 {
        0
    } else {
        bucket_sum(rows.drop_last(), t, title) + (if rows.last().term == t && rows.last().feed_title
            == title {
            rows.last().count
        } else {
            0
        })
    }
}

/// The sum of the counts of all buckets.
pub open spec fn counts_total(rows: Seq<CategoryCountView>) -> nat
    decreases rows.len(),
{
    if rows.len() == 0 {
        0
    } else {
        counts_total(rows.drop_last()) + rows.last().count
    }
}

/// The number of category terms listed by `entries`, repeats included.
pub open spec fn entries_terms(entries: Seq<EntryView>) -> nat
    decreases entries.len(),
{
    if entries.len() == 0 {
        0
    } else {
        entries[0].categories.len() + entries_terms(entries.drop_first())
    }
}

/// The number of category terms listed by the entries of `feeds`, repeats included.
pub open spec fn terms_total(feeds: Seq<FeedView>) -> nat
    decreases feeds.len(),
{
    if feeds.len() == 0 {
        0
    } else {
        entries_terms(feeds[0].entries) + terms_total(feeds.drop_first())
    }
}

/// Raising the count of bucket `k` by one raises the total by one.
proof fn lemma_counts_total_bump(rows: Seq<CategoryCountView>, k: int)
    requires
        0 <= k < rows.len(),
    ensures
        counts_total(rows.update(k, CategoryCountView { count: rows[k].count + 1, ..rows[k] }))
            == counts_total(rows) + 1,
    decreases rows.len(),
{
    let new_rows = rows.update(k, CategoryCountView { count: rows[k].count + 1, ..rows[k] });
    if k == rows.len() - 1 {
        assert(new_rows.drop_last() =~= rows.drop_last());
    } else {
        lemma_counts_total_bump(rows.drop_last(), k);
        assert(new_rows.drop_last() =~= rows.drop_last().update(
            k,
            CategoryCountView { count: rows[k].count + 1, ..rows[k] },
        ));
    }
}

/// Where no bucket has the key `(t, title)`, its sum is zero.
proof fn lemma_sum_without_key(rows: Seq<CategoryCountView>, t: Seq<char>, title: Seq<char>)
    requires
        forall|j: int|
            0 <= j < rows.len() ==> !(#[trigger] rows[j].term == t && rows[j].feed_title == title),
    ensures
        bucket_sum(rows, t, title) == 0,
    decreases rows.len(),
{
    if rows.len() > 0 {
        let d = rows.drop_last();
        assert forall|j: int| 0 <= j < d.len() implies !(#[trigger] d[j].term == t && d[j].feed_title
            == title) by {
            assert(d[j] == rows[j]);
        }
        lemma_sum_without_key(d, t, title);
    }
}

/// The index from category term to feed title to count, kept as one bucket
/// per pair that occurs.
#[derive(Clone, Debug)]
pub struct CategoryIndex {
    buckets: Vec<CategoryCount>,
}

impl View for CategoryIndex {
    type V = Seq<CategoryCountView>;

    closed spec fn view(&self) -> Seq<CategoryCountView> {
        self.buckets@.map_values(|c: CategoryCount| c@)
    }
}

/// Raising the count of bucket `k` by one raises the sum of its key by one.
proof fn lemma_bucket_sum_bump(
    rows: Seq<CategoryCountView>,
    k: int,
    t: Seq<char>,
    title: Seq<char>,
)
    requires
        0 <= k < rows.len(),
    ensures
        bucket_sum(
            rows.update(k, CategoryCountView { count: rows[k].count + 1, ..rows[k] }),
            t,
            title,
        ) == bucket_sum(rows, t, title) + (if rows[k].term == t && rows[k].feed_title == title {
            1nat
        } else {
            0nat
        }),
    decreases rows.len(),
{
    let new_rows = rows.update(k, CategoryCountView { count: rows[k].count + 1, ..rows[k] });
    if k == rows.len() - 1 {
        assert(new_rows.drop_last() =~= rows.drop_last());
    } else {
        lemma_bucket_sum_bump(rows.drop_last(), k, t, title);
        assert(new_rows.drop_last() =~= rows.drop_last().update(
            k,
            CategoryCountView { count: rows[k].count + 1, ..rows[k] },
        ));
    }
}

impl CategoryIndex {
    /// Buckets have distinct keys and positive counts.
    pub open spec fn wf(&self) -> bool {
        &&& forall|a: int, b: int|
            0 <= a < b < self@.len() ==> !(#[trigger] self@[a].term == #[trigger] self@[b].term
                && self@[a].feed_title == self@[b].feed_title)
        &&& forall|a: int| 0 <= a < self@.len() ==> #[trigger] self@[a].count > 0
    }

    /// How often `t` occurs in the entries of the feeds titled `title`.
    pub open spec fn count(&self, t: Seq<char>, title: Seq<char>) -> nat {
        bucket_sum(self@, t, title)
    }

    /// An empty index.
    pub fn new() -> (r: CategoryIndex)
        ensures
            r.wf(),
            r@.len() == 0,
            forall|t: Seq<char>, title: Seq<char>| #[trigger] r.count(t, title) == 0,
    {
        let r = CategoryIndex { buckets: Vec::new() };
        assert(r@ =~= Seq::<CategoryCountView>::empty());
        r
    }

    /// Number of buckets.
    pub fn len(&self) -> (r: usize)
        ensures
            r == self@.len(),
    {
        self.buckets.len()
    }

    /// Term, feed title and count of the bucket at `k`.
    pub fn bucket(&self, k: usize) -> (r: &CategoryCount)
        requires
            k < self@.len(),
        ensures
            r@ == self@[k as int],
    {
        &self.buckets[k]
    }

    /// How often `term` occurs in the entries of the feeds titled `title`.
    pub fn get(&self, term: &String, title: &String) -> (r: usize)
        requires
            self.wf(),
        ensures
            r == self.count(term@, title@),
    {
        let mut i: usize = 0;
        while i < self.buckets.len()
            invariant
                i <= self.buckets.len(),
                self.wf(),
                bucket_sum(self@.subrange(0, i as int), term@, title@) == 0,
            decreases self.buckets.len() - i,
        {
            proof {
                assert(self@.subrange(0, i as int + 1).drop_last() =~= self@.subrange(0, i as int));
            }
            if self.buckets[i].term == *term && self.buckets[i].feed_title == *title {
                proof {
                    self.lemma_rest_of_key_is_zero(i as int);
                }
                return self.buckets[i].count;
            }
            i += 1;
        }
        assert(self@.subrange(0, self@.len() as int) =~= self@);
        0
    }

    /// With distinct keys, only bucket `k` counts towards its key.
    proof fn lemma_rest_of_key_is_zero(&self, k: int)
        requires
            self.wf(),
            0 <= k < self@.len(),
            bucket_sum(self@.subrange(0, k), self@[k].term, self@[k].feed_title) == 0,
        ensures
            bucket_sum(self@, self@[k].term, self@[k].feed_title) == self@[k].count,
    {
        self.lemma_key_sum_upto(k, self@.len() as int);
        assert(self@.subrange(0, self@.len() as int) =~= self@);
    }

    proof fn lemma_key_sum_upto(&self, k: int, n: int)
        requires
            self.wf(),
            0 <= k < n <= self@.len(),
            bucket_sum(self@.subrange(0, k), self@[k].term, self@[k].feed_title) == 0,
        ensures
            bucket_sum(self@.subrange(0, n), self@[k].term, self@[k].feed_title) == self@[k].count,
        decreases n,
    {
        assert(self@.subrange(0, n).drop_last() =~= self@.subrange(0, n - 1));
        if n > k + 1 {
            self.lemma_key_sum_upto(k, n - 1);
            assert(!(self@[k].term == self@[n - 1].term && self@[k].feed_title
                == self@[n - 1].feed_title));
        }
    }

    /// Adds one occurrence of `term` in the feed titled `title`.
    fn bump(&mut self, term: &String, title: &String)
        requires
            old(self).wf(),
            old(self).count(term@, title@) < usize::MAX,
        ensures
            final(self).wf(),
            counts_total(final(self)@) == counts_total(old(self)@) + 1,
            forall|t: Seq<char>, u: Seq<char>|
                #[trigger] final(self).count(t, u) == old(self).count(t, u) + (if t == term@ && u
                    == title@ {
                    1nat
                } else {
                    0nat
                }),
    {
        let mut i: usize = 0;
        while i < self.buckets.len()
            invariant
                i <= self.buckets.len(),
                *self == *old(self),
                old(self).count(term@, title@) < usize::MAX,
                self.wf(),
                bucket_sum(self@.subrange(0, i as int), term@, title@) == 0,
                forall|j: int|
                    0 <= j < i ==> !(#[trigger] self@[j].term == term@ && self@[j].feed_title
                        == title@),
            decreases self.buckets.len() - i,
        {
            proof {
                assert(self@.subrange(0, i as int + 1).drop_last() =~= self@.subrange(0, i as int));
            }
            if self.buckets[i].term == *term && self.buckets[i].feed_title == *title {
                proof {
                    self.lemma_rest_of_key_is_zero(i as int);
                }
                let ghost rows = self@;
                let c: usize = self.buckets[i].count;
                assert(self@[i as int].count == c);
                assert(c == self.count(term@, title@));
                self.buckets[i].count = c + 1;
                proof {
                    assert(self@ =~= rows.update(
                        i as int,
                        CategoryCountView { count: rows[i as int].count + 1, ..rows[i as int] },
                    ));
                    assert forall|t: Seq<char>, u: Seq<char>|
                        #[trigger] self.count(t, u) == old(self).count(t, u) + (if t == term@ && u
                            == title@ {
                            1nat
                        } else {
                            0nat
                        }) by {
                        lemma_bucket_sum_bump(rows, i as int, t, u);
                    }
                    lemma_counts_total_bump(rows, i as int);
                    assert(self.wf()) by {
                        assert forall|a: int| 0 <= a < self@.len() implies #[trigger] self@[a].count
                            > 0 by {
                            assert(old(self)@[a].count > 0);
                        }
                        assert forall|a: int, b: int|
                            0 <= a < b < self@.len() implies !(#[trigger] self@[a].term
                            == #[trigger] self@[b].term && self@[a].feed_title
                            == self@[b].feed_title) by {
                            assert(!(old(self)@[a].term == old(self)@[b].term && old(self)@[a].feed_title
                                == old(self)@[b].feed_title));
                        }
                    }
                }
                return ;
            }
            i += 1;
        }
        let ghost rows = self@;
        self.buckets.push(CategoryCount { term: term.clone(), feed_title: title.clone(), count: 1 });
        proof {
            assert(self@ =~= rows.push(CategoryCountView { term: term@, feed_title: title@, count: 1 }));
            assert(self@.drop_last() =~= rows);
            assert forall|t: Seq<char>, u: Seq<char>|
                #[trigger] self.count(t, u) == old(self).count(t, u) + (if t == term@ && u
                    == title@ {
                    1nat
                } else {
                    0nat
                }) by {}
        }
    }

    /// In a well-formed index each bucket holds the count of its own key.
    pub proof fn lemma_bucket_is_count(&self, k: int)
        requires
            self.wf(),
            0 <= k < self@.len(),
        ensures
            self.count(self@[k].term, self@[k].feed_title) == self@[k].count,
    {
        let before = self@.subrange(0, k);
        assert forall|j: int| 0 <= j < before.len() implies !(#[trigger] before[j].term
            == self@[k].term && before[j].feed_title == self@[k].feed_title) by {
            assert(before[j] == self@[j]);
        }
        lemma_sum_without_key(before, self@[k].term, self@[k].feed_title);
        self.lemma_rest_of_key_is_zero(k);
    }

    /// A pair with a positive count has a bucket.
    pub proof fn lemma_counted_pair_has_bucket(&self, t: Seq<char>, title: Seq<char>)
        requires
            self.count(t, title) > 0,
        ensures
            exists|k: int| 0 <= k < self@.len() && self@[k].term == t && self@[k].feed_title == title,
    {
        if !exists|k: int|
            0 <= k < self@.len() && self@[k].term == t && self@[k].feed_title == title {
            lemma_sum_without_key(self@, t, title);
        }
    }

    /// Adds the terms of one entry of the feed titled `title`.
    fn add_terms(&mut self, title: &String, terms: &Vec<String>)
        requires
            old(self).wf(),
            forall|t: Seq<char>|
                #[trigger] old(self).count(t, title@) + occurrences(strs(terms@), t) <= usize::MAX,
        ensures
            final(self).wf(),
            counts_total(final(self)@) == counts_total(old(self)@) + terms@.len(),
            forall|t: Seq<char>, u: Seq<char>|
                #[trigger] final(self).count(t, u) == old(self).count(t, u) + (if u == title@ {
                    occurrences(strs(terms@), t)
                } else {
                    0
                }),
    {
        let ghost all = strs(terms@);
        let mut k: usize = 0;
        assert(all.skip(0) =~= all);
        while k < terms.len()
            invariant
                all == strs(terms@),
                k <= terms.len(),
                self.wf(),
                counts_total(self@) == counts_total(old(self)@) + k,
                forall|t: Seq<char>, u: Seq<char>|
                    #[trigger] self.count(t, u) + (if u == title@ {
                        occurrences(all.skip(k as int), t)
                    } else {
                        0
                    }) == old(self).count(t, u) + (if u == title@ {
                        occurrences(all, t)
                    } else {
                        0
                    }),
                forall|t: Seq<char>|
                    #[trigger] old(self).count(t, title@) + occurrences(all, t) <= usize::MAX,
            decreases terms.len() - k,
        {
            let ghost rest = all.skip(k as int);
            assert(rest[0] == terms@[k as int]@);
            assert(rest.drop_first() =~= all.skip(k as int + 1));
            assert(self.count(terms@[k as int]@, title@) < usize::MAX) by {
                assert(old(self).count(terms@[k as int]@, title@) + occurrences(all, terms@[k as int]@)
                    <= usize::MAX);
            }
            let ghost before = *self;
            self.bump(&terms[k], title);
            assert forall|t: Seq<char>, u: Seq<char>|
                #[trigger] self.count(t, u) + (if u == title@ {
                    occurrences(all.skip(k as int + 1), t)
                } else {
                    0
                }) == old(self).count(t, u) + (if u == title@ {
                    occurrences(all, t)
                } else {
                    0
                }) by {
                assert(before.count(t, u) + (if u == title@ {
                    occurrences(rest, t)
                } else {
                    0
                }) == old(self).count(t, u) + (if u == title@ {
                    occurrences(all, t)
                } else {
                    0
                }));
            }
            k += 1;
        }
        assert(all.skip(k as int).len() == 0);
    }

    /// Adds the terms of all entries of `feed`.
    fn add_feed(&mut self, feed: &Feed)
        requires
            old(self).wf(),
            forall|t: Seq<char>|
                #[trigger] old(self).count(t, feed@.title) + entries_count(feed@.entries, t)
                    <= usize::MAX,
        ensures
            final(self).wf(),
            counts_total(final(self)@) == counts_total(old(self)@) + entries_terms(feed@.entries),
            forall|t: Seq<char>, u: Seq<char>|
                #[trigger] final(self).count(t, u) == old(self).count(t, u) + (if u == feed@.title {
                    entries_count(feed@.entries, t)
                } else {
                    0
                }),
    {
        let ghost all = feed@.entries;
        let ghost title = feed@.title;
        let mut j: usize = 0;
        assert(all.skip(0) =~= all);
        while j < feed.entries.len()
            invariant
                all == feed@.entries,
                title == feed@.title,
                j <= feed.entries.len(),
                self.wf(),
                counts_total(self@) + entries_terms(all.skip(j as int)) == counts_total(old(self)@)
                    + entries_terms(all),
                forall|t: Seq<char>, u: Seq<char>|
                    #[trigger] self.count(t, u) + (if u == title {
                        entries_count(all.skip(j as int), t)
                    } else {
                        0
                    }) == old(self).count(t, u) + (if u == title {
                        entries_count(all, t)
                    } else {
                        0
                    }),
                forall|t: Seq<char>|
                    #[trigger] old(self).count(t, title) + entries_count(all, t) <= usize::MAX,
            decreases feed.entries.len() - j,
        {
            let ghost rest = all.skip(j as int);
            let e: &Entry = &feed.entries[j];
            assert(rest[0] == e@);
            assert(e@.categories.len() == e.categories@.len());
            assert(rest.drop_first() =~= all.skip(j as int + 1));
            assert forall|t: Seq<char>|
                #[trigger] self.count(t, feed.title@) + occurrences(strs(e.categories@), t)
                    <= usize::MAX by {
                assert(old(self).count(t, title) + entries_count(all, t) <= usize::MAX);
            }
            let ghost before = *self;
            self.add_terms(&feed.title, &e.categories);
            assert forall|t: Seq<char>, u: Seq<char>|
                #[trigger] self.count(t, u) + (if u == title {
                    entries_count(all.skip(j as int + 1), t)
                } else {
                    0
                }) == old(self).count(t, u) + (if u == title {
                    entries_count(all, t)
                } else {
                    0
                }) by {
                assert(before.count(t, u) + (if u == title {
                    entries_count(rest, t)
                } else {
                    0
                }) == old(self).count(t, u) + (if u == title {
                    entries_count(all, t)
                } else {
                    0
                }));
            }
            j += 1;
        }
        assert(all.skip(j as int).len() == 0);
    }
}

/// Builds the index over every entry of every cached feed: for each category
/// term and feed title, how often the term occurs in that feed's entries.
/// The counts fit in `usize`, as each occurrence is a string held in memory.
pub fn build_category_index(feeds: &Feeds) -> (r: CategoryIndex)
    requires
        forall|t: Seq<char>, u: Seq<char>| #[trigger] category_count(feeds@, t, u) <= usize::MAX,
    ensures
        r.wf(),
        forall|t: Seq<char>, u: Seq<char>| #[trigger] r.count(t, u) == category_count(feeds@, t, u),
        forall|k: int|
            0 <= k < r@.len() ==> #[trigger] r@[k].count == category_count(
                feeds@,
                r@[k].term,
                r@[k].feed_title,
            ) && r@[k].count >= 1,
        forall|t: Seq<char>, u: Seq<char>|
            #[trigger] category_count(feeds@, t, u) > 0 ==> exists|k: int|
                0 <= k < r@.len() && r@[k].term == t && r@[k].feed_title == u,
        counts_total(r@) == terms_total(feeds@),
{
    let ghost all = feeds@;
    let mut idx = CategoryIndex::new();
    let mut i: usize = 0;
    assert(all.skip(0) =~= all);
    while i < feeds.feeds.len()
        invariant
            all == feeds@,
            i <= feeds.feeds.len(),
            idx.wf(),
            counts_total(idx@) + terms_total(all.skip(i as int)) == terms_total(all),
            forall|t: Seq<char>, u: Seq<char>|
                #[trigger] idx.count(t, u) + category_count(all.skip(i as int), t, u)
                    == category_count(all, t, u),
            forall|t: Seq<char>, u: Seq<char>| #[trigger] category_count(all, t, u) <= usize::MAX,
        decreases feeds.feeds.len() - i,
    {
        let ghost rest = all.skip(i as int);
        let f: &Feed = &feeds.feeds[i];
        assert(rest[0] == f@);
        assert(rest.drop_first() =~= all.skip(i as int + 1));
        assert forall|t: Seq<char>|
            #[trigger] idx.count(t, f@.title) + entries_count(f@.entries, t) <= usize::MAX by {
            assert(idx.count(t, f@.title) + category_count(rest, t, f@.title) == category_count(
                all,
                t,
                f@.title,
            ));
        }
        let ghost before = idx;
        idx.add_feed(f);
        assert forall|t: Seq<char>, u: Seq<char>|
            #[trigger] idx.count(t, u) + category_count(all.skip(i as int + 1), t, u)
                == category_count(all, t, u) by {
            assert(before.count(t, u) + category_count(rest, t, u) == category_count(all, t, u));
        }
        i += 1;
    }
    assert(all.skip(i as int).len() == 0);
    proof {
        assert forall|k: int| 0 <= k < idx@.len() implies #[trigger] idx@[k].count == category_count(
            feeds@,
            idx@[k].term,
            idx@[k].feed_title,
        ) && idx@[k].count >= 1 by {
            idx.lemma_bucket_is_count(k);
        }
        assert forall|t: Seq<char>, u: Seq<char>|
            #[trigger] category_count(feeds@, t, u) > 0 implies exists|k: int|
                0 <= k < idx@.len() && idx@[k].term == t && idx@[k].feed_title == u by {
            idx.lemma_counted_pair_has_bucket(t, u);
        }
    }
    idx
}

/// How many of `entries` have the category term `t`.
pub open spec fn entries_with_term(entries: Seq<EntryView>, t: Seq<char>) -> nat
    decreases entries.len(),
{
    if entries.len() == 0 {
        0
    } else {
        (if entries[0].categories.contains(t) {
            1nat
        } else {
            0nat
        }) + entries_with_term(entries.drop_first(), t)
    }
}

/// Each entry of `entries` lists each of its terms once.
pub open spec fn terms_distinct(entries: Seq<EntryView>) -> bool {
    forall|k: int| 0 <= k < entries.len() ==> (#[trigger] entries[k]).categories.no_duplicates()
}

proof fn lemma_occurrences_of_distinct(terms: Seq<Seq<char>>, t: Seq<char>)
    requires
        terms.no_duplicates(),
    ensures
        occurrences(terms, t) == (if terms.contains(t) {
            1nat
        } else {
            0nat
        }),
    decreases terms.len(),
{
    if terms.len() > 0 {
        let rest = terms.drop_first();
        assert(rest.no_duplicates());
        lemma_occurrences_of_distinct(rest, t);
        if terms[0] == t {
            assert(!rest.contains(t));
        } else {
            if terms.contains(t) {
                let k = choose|k: int| 0 <= k < terms.len() && terms[k] == t;
                assert(rest[k - 1] == t);
            }
            if rest.contains(t) {
                let k = choose|k: int| 0 <= k < rest.len() && rest[k] == t;
                assert(terms[k + 1] == t);
            }
        }
    }
}

proof fn lemma_entries_count_of_distinct(entries: Seq<EntryView>, t: Seq<char>)
    requires
        terms_distinct(entries),
    ensures
        entries_count(entries, t) == entries_with_term(entries, t),
    decreases entries.len(),
{
    if entries.len() > 0 {
        assert(entries[0].categories.no_duplicates());
        lemma_occurrences_of_distinct(entries[0].categories, t);
        let rest = entries.drop_first();
        assert forall|k: int| 0 <= k < rest.len() implies (#[trigger] rest[k]).categories.no_duplicates() by {
            assert(rest[k] == entries[k + 1]);
        }
        lemma_entries_count_of_distinct(rest, t);
    }
}

proof fn lemma_no_feed_titled(feeds: Seq<FeedView>, t: Seq<char>, title: Seq<char>)
    requires
        forall|q: int| 0 <= q < feeds.len() ==> #[trigger] feeds[q].title != title,
    ensures
        category_count(feeds, t, title) == 0,
    decreases feeds.len(),
{
    if feeds.len() > 0 {
        assert(feeds[0].title != title);
        let rest = feeds.drop_first();
        assert forall|q: int| 0 <= q < rest.len() implies #[trigger] rest[q].title != title by {
            assert(rest[q] == feeds[q + 1]);
        }
        lemma_no_feed_titled(rest, t, title);
    }
}

proof fn lemma_only_feed_titled(feeds: Seq<FeedView>, p: int, t: Seq<char>)
    requires
        0 <= p < feeds.len(),
        forall|q: int| 0 <= q < feeds.len() && q != p ==> #[trigger] feeds[q].title != feeds[p].title,
    ensures
        category_count(feeds, t, feeds[p].title) == entries_count(feeds[p].entries, t),
    decreases feeds.len(),
{
    let title = feeds[p].title;
    let rest = feeds.drop_first();
    if p == 0 {
        assert forall|q: int| 0 <= q < rest.len() implies #[trigger] rest[q].title != title by {
            assert(rest[q] == feeds[q + 1]);
        }
        lemma_no_feed_titled(rest, t, title);
    } else {
        assert(feeds[0].title != title);
        assert(rest[p - 1] == feeds[p]);
        assert forall|q: int| 0 <= q < rest.len() && q != p - 1 implies #[trigger] rest[q].title
            != rest[p - 1].title by {
            assert(rest[q] == feeds[q + 1]);
        }
        lemma_only_feed_titled(rest, p - 1, t);
    }
}

/// In a feed whose title no other feed has, and whose entries list each term
/// once, the count of a term under the feed's title is the number of its
/// entries that have that term.
pub proof fn lemma_index_counts_entries_with_term(feeds: Seq<FeedView>, p: int, t: Seq<char>)
    requires
        0 <= p < feeds.len(),
        forall|q: int| 0 <= q < feeds.len() && q != p ==> #[trigger] feeds[q].title != feeds[p].title,
        terms_distinct(feeds[p].entries),
    ensures
        category_count(feeds, t, feeds[p].title) == entries_with_term(feeds[p].entries, t),
{
    lemma_only_feed_titled(feeds, p, t);
    lemma_entries_count_of_distinct(feeds[p].entries, t);
}

proof fn lemma_entries_count_insert_uncategorised(
    entries: Seq<EntryView>,
    j: int,
    e: EntryView,
    t: Seq<char>,
)
    requires
        0 <= j <= entries.len(),
        e.categories.len() == 0,
    ensures
        entries_count(entries.insert(j, e), t) == entries_count(entries, t),
    decreases entries.len(),
{
    let ins = entries.insert(j, e);
    if j == 0 {
        assert(ins.drop_first() =~= entries);
        assert(ins[0] == e);
    } else {
        lemma_entries_count_insert_uncategorised(entries.drop_first(), j - 1, e, t);
        assert(ins.drop_first() =~= entries.drop_first().insert(j - 1, e));
        assert(ins[0] == entries[0]);
    }
}

proof fn lemma_category_count_same_feed_count(
    feeds: Seq<FeedView>,
    p: int,
    f: FeedView,
    t: Seq<char>,
    title: Seq<char>,
)
    requires
        0 <= p < feeds.len(),
        f.title == feeds[p].title,
        entries_count(f.entries, t) == entries_count(feeds[p].entries, t),
    ensures
        category_count(feeds.update(p, f), t, title) == category_count(feeds, t, title),
    decreases feeds.len(),
{
    let upd = feeds.update(p, f);
    if p == 0 {
        assert(upd.drop_first() =~= feeds.drop_first());
    } else {
        lemma_category_count_same_feed_count(feeds.drop_first(), p - 1, f, t, title);
        assert(upd.drop_first() =~= feeds.drop_first().update(p - 1, f));
        assert(upd[0] == feeds[0]);
    }
}

/// An entry without categories adds to no count: putting one anywhere in
/// any feed leaves every count as it was.
pub proof fn lemma_uncategorised_entry_counts_nothing(
    feeds: Seq<FeedView>,
    p: int,
    j: int,
    e: EntryView,
    t: Seq<char>,
    title: Seq<char>,
)
    requires
        0 <= p < feeds.len(),
        0 <= j <= feeds[p].entries.len(),
        e.categories.len() == 0,
    ensures
        category_count(
            feeds.update(p, FeedView { entries: feeds[p].entries.insert(j, e), ..feeds[p] }),
            t,
            title,
        ) == category_count(feeds, t, title),
{
    lemma_entries_count_insert_uncategorised(feeds[p].entries, j, e, t);
    lemma_category_count_same_feed_count(
        feeds,
        p,
        FeedView { entries: feeds[p].entries.insert(j, e), ..feeds[p] },
        t,
        title,
    );
}

} // verus!
