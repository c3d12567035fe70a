//! The serving layer's verified core: what one request computes once the
//! transport has parsed it — a stable per-client seed, one shuffled page of
//! the cache's aggregate, and the status counts.

use vstd::prelude::*;
use crate::cache::FeedCache;
use crate::parser::{NewsPhoto, PhotoModel};
use crate::shuffler::{page, spec_page};

verus! {

/// What every request handler holds: the feed cache and the page size.
pub struct AppState {
    pub feeds: FeedCache,
    pub next_size: usize,
}

/// The sum of the decimal digit values occurring in a string; every other
/// character contributes nothing.
pub open spec fn spec_digit_sum(s: Seq<char>) -> int
    decreases s.len(),
{
    if s.len() == 0 {
        0
    } else {
        spec_digit_sum(s.drop_last()) + if '0' <= s.last() && s.last() <= '9' {
            s.last() as int - '0' as int
        } else {
            0
        }
    }
}

proof fn lemma_digit_sum_bound(s: Seq<char>)
    ensures
        0 <= spec_digit_sum(s) <= 9 * s.len(),
    decreases s.len(),
{
    if s.len() > 0 {
        lemma_digit_sum_bound(s.drop_last());
    }
}

/// The stable, non-secret seed a client address yields: one more than the
/// sum of its decimal digits, so one client keeps one ordering across its
/// paged requests.
pub fn seed_from_address(addr: &str) -> (r: u64)
    requires
        9 * addr@.len() + 1 <= u64::MAX,
    ensures
        r == 1 + spec_digit_sum(addr@),
{
    let n = addr.unicode_len();
    let mut sum: u64 = 1;
    let mut i: usize = 0;
    while i < n
        invariant
            0 <= i <= n,
            n == addr@.len(),
            9 * n + 1 <= u64::MAX,
            sum == 1 + spec_digit_sum(addr@.take(i as int)),
            sum <= 1 + 9 * i,
        decreases n - i,
    {
        proof {
            lemma_digit_sum_bound(addr@.take(i as int));
            assert(addr@.take(i + 1).drop_last() =~= addr@.take(i as int));
            assert(addr@.take(i + 1).last() == addr@[i as int]);
        }
        let c = addr.get_char(i);
        if c >= '0' && c <= '9' {
            let d = c as u32;
            sum = sum + ((d - 48) as u64);
        }
        i = i + 1;
    }
    proof {
        assert(addr@.take(n as int) =~= addr@);
    }
    sum
}

/// The photos a page of the seeded permutation picks out of the aggregate.
pub open spec fn spec_select(
    photos: Seq<PhotoModel>,
    seed: u64,
    start: int,
    size: int,
) -> Seq<PhotoModel> {
    spec_page(seed, photos.len() as int, start, size).map_values(|i: usize| photos[i as int])
}

/// One page of photos: the aggregate, shuffled by the seed's deterministic
/// permutation, sliced from `start` on. A `start` at or past the end yields
/// an empty page, never an error, and every index the permutation hands
/// back is in range — no photo can be missing.
pub fn select_page(photos: &Vec<NewsPhoto>, seed: u64, start: usize, size: usize) -> (r: Vec<
    NewsPhoto,
>)
    ensures
        r.deep_view() == spec_select(photos.deep_view(), seed, start as int, size as int),
        start >= photos@.len() ==> r@.len() == 0,
{
    let ghost pm = photos.deep_view();
    let total = photos.len();
    let idx = page(seed, total, start, size);
    let ghost ids = idx@;
    let mut r: Vec<NewsPhoto> = Vec::new();
    let mut k: usize = 0;
    while k < idx.len()
        invariant
            0 <= k <= idx@.len(),
            ids == idx@,
            pm == photos.deep_view(),
            pm.len() == photos@.len(),
            forall|t: int| 0 <= t < ids.len() ==> ids[t] < pm.len(),
            r.deep_view() == ids.take(k as int).map_values(|i: usize| pm[i as int]),
        decreases idx@.len() - k,
    {
        let j = idx[k];
        let p = photos[j].clone();
        let ghost rd = r.deep_view();
        r.push(p);
        proof {
            assert(r.deep_view() =~= rd.push(p.deep_view()));
            assert(ids.take(k + 1).drop_last() =~= ids.take(k as int));
            assert(ids.take(k + 1).map_values(|i: usize| pm[i as int]).drop_last() =~= ids.take(
                k as int,
            ).map_values(|i: usize| pm[i as int]));
            assert(r.deep_view() =~= ids.take(k + 1).map_values(|i: usize| pm[i as int]));
        }
        k = k + 1;
    }
    proof {
        assert(ids.take(idx@.len() as int) =~= ids);
    }
    r
}

impl AppState {
    /// A request state over a cache and a page size.
    pub fn new(feeds: FeedCache, next_size: usize) -> (r: Self)
        ensures
            r.feeds == feeds,
            r.next_size == next_size,
    {
        AppState { feeds, next_size }
    }

    /// What one page request returns: the cache's aggregate, shuffled by
    /// the client's seed, sliced at the parsed offset.
    pub fn get_next(&self, seed: u64, start: usize) -> (r: Vec<NewsPhoto>)
        ensures
            r.deep_view() == spec_select(
                self.feeds.spec_photos(),
                seed,
                start as int,
                self.next_size as int,
            ),
            start >= self.feeds.spec_photos().len() ==> r@.len() == 0,
    {
        let photos = self.feeds.snapshot();
        select_page(&photos, seed, start, self.next_size)
    }

    /// What the status endpoint reports: how many feeds are present and how
    /// many photos they hold in all.
    pub fn health(&self) -> (r: (usize, usize))
        requires
            self.feeds.spec_photo_count() <= usize::MAX,
        ensures
            r.0 == self.feeds.spec_feed_count(),
            r.1 == self.feeds.spec_photo_count(),
    {
        self.feeds.counts()
    }
}

} // verus!

