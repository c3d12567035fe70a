//! The per-feed photo cache: feed identifiers mapped to the photo list of
//! their last successful refresh.
//!
//! Entries are replaced atomically and wholesale — never merged — and a feed
//! that fails to refresh keeps its last known-good list. A wrapping layer
//! provides the lock and the timer; everything here is the work of one short
//! critical section.

use vstd::prelude::*;
use vstd::seq_lib::lemma_flatten_concat;
use crate::parser::{NewsPhoto, PhotoModel};
use crate::strutil::str_eq;

verus! {

/// The feeds in insertion order, each with its current photos.
pub struct FeedCache {
    entries: Vec<(String, Vec<NewsPhoto>)>,
}

/// How one feed's wholesale replacement relates the cache's contents before
/// (`m0`) and after (`m1`): an existing entry for `id` is overwritten in
/// place, a new feed is appended, and every other entry is untouched.
pub open spec fn updated_model(
    m0: Seq<(Seq<char>, Seq<PhotoModel>)>,
    id: Seq<char>,
    ps: Seq<PhotoModel>,
    m1: Seq<(Seq<char>, Seq<PhotoModel>)>,
) -> bool {
    if exists|i: int| 0 <= i < m0.len() && m0[i].0 == id {
        &&& m1.len() == m0.len()
        &&& forall|i: int|
            0 <= i < m0.len() ==> m1[i] == (if m0[i].0 == id {
                (id, ps)
            } else {
                m0[i]
            })
    } else {
        m1 == m0.push((id, ps))
    }
}

impl FeedCache {
    /// The feeds in insertion order with their photo lists.
    pub closed spec fn entries_model(&self) -> Seq<(Seq<char>, Seq<PhotoModel>)> {
        self.entries.deep_view()
    }

    /// Feed identifiers are unique: an entry is replaced wholesale, never
    /// duplicated.
    pub open spec fn wf(&self) -> bool {
        forall|i: int, j: int|
            0 <= i < j < self.entries_model().len() ==> self.entries_model()[i].0
                != self.entries_model()[j].0
    }

    /// Whether a feed has an entry.
    pub open spec fn spec_has_feed(&self, id: Seq<char>) -> bool {
        exists|i: int| 0 <= i < self.entries_model().len() && self.entries_model()[i].0 == id
    }

    pub open spec fn spec_feed_count(&self) -> int {
        self.entries_model().len() as int
    }

    /// The aggregate photo list: feeds in insertion order, photos in item
    /// order within each feed.
    pub open spec fn spec_photos(&self) -> Seq<PhotoModel> {
        self.entries_model().map_values(|e: (Seq<char>, Seq<PhotoModel>)| e.1).flatten()
    }

    pub open spec fn spec_photo_count(&self) -> int {
        self.spec_photos().len() as int
    }

    /// The cache every process starts from: no feeds at all.
    pub fn new() -> (r: Self)
        ensures
            r.wf(),
            r.entries_model() == Seq::<(Seq<char>, Seq<PhotoModel>)>::empty(),
    {
        let r = FeedCache { entries: Vec::new() };
        proof {
            assert(r.entries_model() =~= Seq::<(Seq<char>, Seq<PhotoModel>)>::empty());
        }
        r
    }

    /// Replace one feed's photo list wholesale, or append the feed when it
    /// is new. No merging: afterwards the entry holds exactly the list
    /// given, and no other entry has moved or changed.
    pub fn update(&mut self, feed_id: String, photos: Vec<NewsPhoto>)
        requires
            old(self).wf(),
        ensures
            final(self).wf(),
            updated_model(
                old(self).entries_model(),
                feed_id@,
                photos.deep_view(),
                final(self).entries_model(),
            ),
    {
        let ghost m0 = self.entries_model();
        let ghost e0 = self.entries@;
        let ghost pair_model = (feed_id@, photos.deep_view());
        proof {
            assert(forall|a: int, b: int|
                0 <= a < b < m0.len() ==> m0[a].0 != m0[b].0);
        }
        let n = self.entries.len();
        let mut i: usize = 0;
        while i < n
            invariant
                0 <= i <= n,
                n == self.entries@.len(),
                self.entries@ == e0,
                m0 == self.entries_model(),
                m0 == old(self).entries_model(),
                forall|a: int, b: int| 0 <= a < b < m0.len() ==> m0[a].0 != m0[b].0,
                forall|k: int| 0 <= k < i ==> m0[k].0 != feed_id@,
            decreases n - i,
        {
            proof {
                assert(m0[i as int] == self.entries@[i as int].deep_view());
            }
            if str_eq(self.entries[i].0.as_str(), feed_id.as_str()) {
                let ghost pairv = (feed_id, photos);
                let ghost pair_model = (feed_id@, photos.deep_view());
                proof {
                    assert(pairv.deep_view() == pair_model);
                }
                self.entries[i] = (feed_id, photos);
                proof {
                    let m1 = self.entries_model();
                    assert(self.entries@[i as int] == pairv);
                    assert(m1[i as int] == self.entries@[i as int].deep_view());
                    assert(m1[i as int] == pair_model);
                    assert(m1.len() == m0.len());
                    assert forall|k: int| 0 <= k < m1.len() && k != i implies m1[k] == m0[k] by {
                        assert(self.entries@[k] == e0[k]);
                        assert(m1[k] == self.entries@[k].deep_view());
                        assert(m0[k] == e0[k].deep_view());
                    }
                    assert(m0[i as int].0 == feed_id@);
                    assert forall|k: int| 0 <= k < m0.len() implies m1[k] == (if m0[k].0
                        == feed_id@ {
                        (feed_id@, photos.deep_view())
                    } else {
                        m0[k]
                    }) by {
                        if k != i && m0[k].0 == feed_id@ {
                            if k < i {
                                assert(m0[k].0 != feed_id@);
                            } else {
                                assert(m0[i as int].0 != m0[k].0);
                            }
                        }
                    }
                    assert forall|a: int, b: int|
                        0 <= a < b < m1.len() implies m1[a].0 != m1[b].0 by {
                        assert(m0[a].0 != m0[b].0);
                    }
                }
                return;
            }
            i = i + 1;
        }
        proof {
            assert(!(exists|k: int| 0 <= k < m0.len() && m0[k].0 == feed_id@));
        }
        let ghost pairv = (feed_id, photos);
        proof {
            assert(pairv.deep_view() == pair_model);
        }
        self.entries.push((feed_id, photos));
        proof {
            let m1 = self.entries_model();
            assert(self.entries@ == e0.push(pairv));
            assert(m1 =~= m0.push(pair_model));
            assert forall|a: int, b: int| 0 <= a < b < m1.len() implies m1[a].0 != m1[b].0 by {
                if b < m0.len() {
                    assert(m0[a].0 != m0[b].0);
                } else {
                    assert(m1[b].0 == feed_id@);
                    assert(m0[a].0 != feed_id@);
                }
            }
        }
    }

    /// Cheap counts for status reporting: how many feeds have an entry, and
    /// how many photos those entries hold in all.
    pub fn counts(&self) -> (r: (usize, usize))
        requires
            self.spec_photo_count() <= usize::MAX,
        ensures
            r.0 == self.spec_feed_count(),
            r.1 == self.spec_photo_count(),
    {
        let ghost lists = self.entries_model().map_values(
            |e: (Seq<char>, Seq<PhotoModel>)| e.1,
        );
        let n = self.entries.len();
        let mut photo_count: usize = 0;
        let mut i: usize = 0;
        while i < n
            invariant
                0 <= i <= n,
                n == self.entries@.len(),
                lists == self.entries_model().map_values(
                    |e: (Seq<char>, Seq<PhotoModel>)| e.1,
                ),
                lists.len() == n,
                lists.flatten().len() <= usize::MAX,
                photo_count == lists.take(i as int).flatten().len(),
            decreases n - i,
        {
            let len_i = self.entries[i].1.len();
            proof {
                assert(self.entries_model()[i as int] == self.entries@[i as int].deep_view());
                assert(lists[i as int] == self.entries_model()[i as int].1);
                assert(lists[i as int].len() == self.entries@[i as int].1@.len());
                lists.take(i as int).lemma_flatten_push(lists[i as int]);
                assert(lists.take(i as int).push(lists[i as int]) =~= lists.take(i + 1));
                assert(lists.take(i + 1).flatten().len() == lists.take(i as int).flatten().len()
                    + len_i);
                assert(lists =~= lists.take(i + 1) + lists.skip(i + 1));
                lemma_flatten_concat(lists.take(i + 1), lists.skip(i + 1));
                assert(lists.take(i + 1).flatten().len() <= lists.flatten().len());
            }
            photo_count = photo_count + len_i;
            i = i + 1;
        }
        proof {
            assert(lists.take(n as int) =~= lists);
        }
        (n, photo_count)
    }

    /// The full aggregate under one pass: every feed's photos copied out, in
    /// feed insertion order then item order, for the paginator and status
    /// layer to use without holding the cache.
    pub fn snapshot(&self) -> (r: Vec<NewsPhoto>)
        ensures
            r.deep_view() == self.spec_photos(),
    {
        let ghost lists = self.entries_model().map_values(
            |e: (Seq<char>, Seq<PhotoModel>)| e.1,
        );
        let n = self.entries.len();
        let mut r: Vec<NewsPhoto> = Vec::new();
        let mut i: usize = 0;
        while i < n
            invariant
                0 <= i <= n,
                n == self.entries@.len(),
                lists == self.entries_model().map_values(
                    |e: (Seq<char>, Seq<PhotoModel>)| e.1,
                ),
                lists.len() == n,
                r.deep_view() == lists.take(i as int).flatten(),
            decreases n - i,
        {
            proof {
                assert(self.entries_model()[i as int] == self.entries@[i as int].deep_view());
                assert(lists[i as int] == self.entries_model()[i as int].1);
            }
            let m = self.entries[i].1.len();
            let mut j: usize = 0;
            while j < m
                invariant
                    0 <= j <= m,
                    0 <= i < n,
                    n == self.entries@.len(),
                    m == self.entries@[i as int].1@.len(),
                    lists.len() == n,
                    lists[i as int] == self.entries@[i as int].deep_view().1,
                    r.deep_view() == lists.take(i as int).flatten() + lists[i as int].take(
                        j as int,
                    ),
                decreases m - j,
            {
                let ghost rd = r.deep_view();
                let p = self.entries[i].1[j].clone();
                proof {
                    assert(lists[i as int][j as int] == self.entries@[i as int].1@[j as int]@);
                }
                r.push(p);
                proof {
                    assert(r.deep_view() =~= rd.push(p@));
                    assert(lists[i as int].take(j + 1) =~= lists[i as int].take(j as int).push(
                        lists[i as int][j as int],
                    ));
                    assert(r.deep_view() =~= lists.take(i as int).flatten() + lists[
                        i as int
                    ].take(j + 1));
                }
                j = j + 1;
            }
            proof {
                assert(lists[i as int].len() == self.entries@[i as int].1@.len());
                assert(lists[i as int].take(m as int) =~= lists[i as int]);
                lists.take(i as int).lemma_flatten_push(lists[i as int]);
                assert(lists.take(i as int).push(lists[i as int]) =~= lists.take(i + 1));
                assert(r.deep_view() == lists.take(i + 1).flatten());
            }
            i = i + 1;
        }
        proof {
            assert(lists.take(n as int) =~= lists);
        }
        r
    }
}

/// One feed's refresh outcome: a successful fetch replaces the feed's entry
/// wholesale with what was extracted; a failed fetch changes nothing, so the
/// last known-good list keeps serving.
pub fn apply_fetch(cache: &mut FeedCache, feed_id: String, fetched: Option<Vec<NewsPhoto>>)
    requires
        old(cache).wf(),
    ensures
        final(cache).wf(),
        fetched matches Some(photos) ==> updated_model(
            old(cache).entries_model(),
            feed_id@,
            photos.deep_view(),
            final(cache).entries_model(),
        ),
        fetched is None ==> final(cache).entries_model() == old(cache).entries_model(),
{
    match fetched {
        Some(photos) => cache.update(feed_id, photos),
        None => {},
    }
}

} // verus!
