//! The refresh scheduler and the decisions of the background worker.
//!
//! The worker receives [`BackendCommand`]s, fetches feeds and stores them
//! in the cache. Receiving, the network and the clock are the
//! application's; what to fetch, what to store and what to answer is
//! decided here.

use vstd::prelude::*;
use crate::cache::{Cache, FeedRefresh, FeedRefreshSummary, stored, index_of, offer_refreshes, index_after, record_metas, summary_matches};
use crate::cli::marked_all_read;
use crate::config::FeedConfig;
use crate::datetime::{datetime_sort_key, key_outcome};
use crate::feed::Article;
use crate::text::{same_text, trim_seq};

verus! {

/// A request to the background worker.
pub enum BackendCommand {
    FetchAllFeeds,
    FetchFeed { url: String },
    MarkRead { hash: String, read: bool },
    MarkFeedRead { feed_url: String },
    Shutdown,
}

/// An answer of the background worker.
pub enum BackendResponse {
    RefreshCompleted { reports: Vec<FeedRefreshReport> },
    ArticleMutation { hash: String, read: bool },
    FeedMarkedRead { feed_url: String },
}

/// The outcome of refreshing one feed.
pub struct FeedRefreshReport {
    pub feed_url: String,
    pub feed_name: String,
    pub fetched_at: Option<String>,
    pub new_articles: usize,
    pub total: usize,
    pub unread: usize,
    pub error: Option<String>,
}

/// `i64::saturating_sub`.
pub open spec fn sat_sub(a: i64, b: i64) -> i64 {
    let d = a - b;
    if d < i64::MIN {
        i64::MIN
    } else if d > i64::MAX {
        i64::MAX
    } else {
        d as i64
    }
}

fn saturating_sub_i64(a: i64, b: i64) -> (r: i64)
    ensures
        r == sat_sub(a, b),
{
    let d: i128 = a as i128 - b as i128;
    if d < i64::MIN as i128 {
        i64::MIN
    } else if d > i64::MAX as i128 {
        i64::MAX
    } else {
        d as i64
    }
}

/// Whether `k` is the time a feed was last fetched, as its metadata
/// records it.
pub open spec fn last_fetched_of(c: Cache, url: Seq<char>, k: Option<i64>) -> bool {
    match stored(c.feed_table(), url) {
        None => k is None,
        Some(m) => key_outcome(trim_seq(m.last_fetched@), k),
    }
}

/// The time a feed was last fetched, when its metadata records one.
pub fn last_fetched_key(cache: &Cache, url: &str) -> (r: Option<i64>)
    ensures
        last_fetched_of(*cache, url@, r),
{
    match cache.get_feed_meta(url) {
        Some(meta) => datetime_sort_key(Some(meta.last_fetched.as_str())),
        None => None,
    }
}

/// Whether a feed last fetched at `last` is due at `now`: never fetched,
/// or at least the interval ago.
pub open spec fn is_due(now: i64, last: Option<i64>, interval: i64) -> bool {
    match last {
        Some(ts) => sat_sub(now, ts) >= interval,
        None => true,
    }
}

/// The positions of the due feeds, in order.
pub open spec fn due_positions(now: i64, lasts: Seq<Option<i64>>, interval: i64) -> Seq<usize>
    decreases lasts.len(),
{
    if lasts.len() == 0 {
        seq![]
    } else {
        let rest = due_positions(now, lasts.drop_last(), interval);
        if is_due(now, lasts.last(), interval) {
            rest.push((lasts.len() - 1) as usize)
        } else {
            rest
        }
    }
}

/// Whether `lasts` are the last fetch times of the feeds.
pub open spec fn fetch_times(c: Cache, feeds: Seq<FeedConfig>, lasts: Seq<Option<i64>>) -> bool {
    &&& lasts.len() == feeds.len()
    &&& forall|i: int| 0 <= i < feeds.len() ==> last_fetched_of(c, (#[trigger] feeds[i]).url@, lasts[i])
}

fn collect_fetch_times(cache: &Cache, feeds: &[FeedConfig]) -> (r: Vec<Option<i64>>)
    ensures
        fetch_times(*cache, feeds@, r@),
{
    let mut lasts: Vec<Option<i64>> = Vec::new();
    let mut i: usize = 0;
    while i < feeds.len()
        invariant
            i <= feeds.len(),
            lasts.len() == i,
            forall|j: int| 0 <= j < i ==> last_fetched_of(*cache, (#[trigger] feeds@[j]).url@, lasts@[j]),
        decreases feeds.len() - i,
    {
        lasts.push(last_fetched_key(cache, feeds[i].url.as_str()));
        i = i + 1;
    }
    lasts
}

/// The feeds to refresh at `now`: those never fetched or fetched at least
/// the interval ago, in configuration order.
pub fn due_feed_indices(now: i64, cache: &Cache, feeds: &[FeedConfig], sync_interval_secs: u64) -> (r: Vec<usize>)
    ensures
        exists|lasts: Seq<Option<i64>>|
            fetch_times(*cache, feeds@, lasts) && r@ == due_positions(now, lasts, sync_interval_secs as i64),
{
    let interval = sync_interval_secs as i64;
    let lasts = collect_fetch_times(cache, feeds);
    let mut due: Vec<usize> = Vec::new();
    let mut i: usize = 0;
    while i < lasts.len()
        invariant
            i <= lasts.len(),
            interval == sync_interval_secs as i64,
            due@ == due_positions(now, lasts@.take(i as int), interval),
        decreases lasts.len() - i,
    {
        assert(lasts@.take(i + 1).drop_last() =~= lasts@.take(i as int));
        let d = match lasts[i] {
            Some(ts) => saturating_sub_i64(now, ts) >= interval,
            None => true,
        };
        if d {
            due.push(i);
        }
        i = i + 1;
    }
    assert(lasts@.take(lasts@.len() as int) =~= lasts@);
    due
}

/// Whether a last fetch time makes the wait zero.
pub open spec fn is_due_or_new(now: i64, last: Option<i64>, interval: i64) -> bool {
    match last {
        None => true,
        Some(ts) => sat_sub(now, ts) >= interval,
    }
}

/// The least time left among the feeds, starting from the interval, or
/// zero when a feed is due.
pub open spec fn time_left(now: i64, lasts: Seq<Option<i64>>, interval: i64) -> int {
    if exists|j: int| 0 <= j < lasts.len() && is_due_or_new(now, #[trigger] lasts[j], interval) {
        0
    } else {
        least_left(now, lasts, interval)
    }
}

/// The least of the interval and each feed's time left.
pub open spec fn least_left(now: i64, lasts: Seq<Option<i64>>, interval: i64) -> int
    decreases lasts.len(),
{
    if lasts.len() == 0 {
        interval as int
    } else {
        let rest = least_left(now, lasts.drop_last(), interval);
        let left = match lasts.last() {
            Some(ts) => interval - sat_sub(now, ts),
            None => 0,
        };
        if left < rest { left } else { rest }
    }
}

/// How long the worker waits for a command before refreshing, in seconds:
/// the interval when no feed is configured; zero when a feed was never
/// fetched or is due; otherwise the least time left until one is due.
pub fn next_refresh_timeout(now: i64, cache: &Cache, feeds: &[FeedConfig], sync_interval_secs: u64) -> (r: u64)
    ensures
        feeds@.len() == 0 ==> r == sync_interval_secs,
        feeds@.len() > 0 ==> exists|lasts: Seq<Option<i64>>|
            fetch_times(*cache, feeds@, lasts) && r == time_left(now, lasts, sync_interval_secs as i64) as u64,
{
    if feeds.len() == 0 {
        return sync_interval_secs;
    }
    let interval = sync_interval_secs as i64;
    let lasts = collect_fetch_times(cache, feeds);
    let mut min_remaining: i64 = interval;
    let mut i: usize = 0;
    while i < lasts.len()
        invariant
            i <= lasts.len(),
            interval == sync_interval_secs as i64,
            fetch_times(*cache, feeds@, lasts@),
            forall|j: int| 0 <= j < i ==> !is_due_or_new(now, #[trigger] lasts@[j], interval),
            min_remaining == least_left(now, lasts@.take(i as int), interval),
            min_remaining <= interval,
        decreases lasts.len() - i,
    {
        assert(lasts@.take(i + 1).drop_last() =~= lasts@.take(i as int));
        match lasts[i] {
            Some(ts) => {
                let elapsed = saturating_sub_i64(now, ts);
                if elapsed >= interval {
                    assert(is_due_or_new(now, lasts@[i as int], interval));
                    assert(time_left(now, lasts@, interval) == 0);
                    assert(fetch_times(*cache, feeds@, lasts@));
                    return 0;
                }
                let left: i128 = interval as i128 - elapsed as i128;
                if left < min_remaining as i128 {
                    min_remaining = left as i64;
                }
            },
            None => {
                assert(is_due_or_new(now, lasts@[i as int], interval));
                assert(time_left(now, lasts@, interval) == 0);
                assert(fetch_times(*cache, feeds@, lasts@));
                return 0;
            },
        }
        i = i + 1;
    }
    assert(lasts@.take(lasts@.len() as int) =~= lasts@);
    assert(time_left(now, lasts@, interval) == min_remaining);
    assert(fetch_times(*cache, feeds@, lasts@));
    min_remaining as u64
}

/// The report of a stored fetch.
pub open spec fn report_of(s: FeedRefreshSummary) -> FeedRefreshReport {
    FeedRefreshReport {
        feed_url: s.feed_url,
        feed_name: s.feed_name,
        fetched_at: Some(s.fetched_at),
        new_articles: s.new_articles,
        total: s.total,
        unread: s.unread,
        error: None,
    }
}

/// The report of a stored fetch.
pub fn report_from_summary(summary: FeedRefreshSummary) -> (r: FeedRefreshReport)
    ensures
        r == report_of(summary),
{
    FeedRefreshReport {
        feed_url: summary.feed_url,
        feed_name: summary.feed_name,
        fetched_at: Some(summary.fetched_at),
        new_articles: summary.new_articles,
        total: summary.total,
        unread: summary.unread,
        error: None,
    }
}

/// The fetch of a feed made ready to store, stamped with the time it was
/// fetched; a failed fetch passes its error on.
pub fn fetch_one_feed(
    url: &str,
    name: &str,
    fetched: Result<(String, Vec<Article>), String>,
    fetched_at: String,
) -> (r: Result<FeedRefresh, String>)
    ensures
        match fetched {
            Ok((title, articles)) => r matches Ok(f) && f.url@ == url@ && f.name@ == name@ && f.title == title
                && f.fetched_at == fetched_at && f.articles == articles,
            Err(e) => r == Err::<FeedRefresh, String>(e),
        },
{
    match fetched {
        Ok((title, articles)) => Ok(FeedRefresh {
            url: url.to_owned(),
            name: name.to_owned(),
            title,
            fetched_at,
            articles,
        }),
        Err(e) => Err(e),
    }
}

impl FeedRefreshSummary {
    /// A copy of the summary.
    pub fn duplicate(&self) -> (r: FeedRefreshSummary)
        ensures
            r == *self,
    {
        FeedRefreshSummary {
            feed_url: self.feed_url.clone(),
            feed_name: self.feed_name.clone(),
            fetched_at: self.fetched_at.clone(),
            new_articles: self.new_articles,
            total: self.total,
            unread: self.unread,
        }
    }
}

/// The fetches that succeeded, in order.
pub open spec fn ok_refreshes(outs: Seq<Result<FeedRefresh, String>>) -> Seq<FeedRefresh>
    decreases outs.len(),
{
    if outs.len() == 0 {
        seq![]
    } else {
        let rest = ok_refreshes(outs.drop_last());
        match outs.last() {
            Ok(r) => rest.push(r),
            Err(_) => rest,
        }
    }
}

/// The summary of the last stored fetch of a URL.
pub open spec fn last_summary(sums: Seq<FeedRefreshSummary>, url: Seq<char>) -> Option<FeedRefreshSummary>
    decreases sums.len(),
{
    if sums.len() == 0 {
        None
    } else if sums.last().feed_url@ == url {
        Some(sums.last())
    } else {
        last_summary(sums.drop_last(), url)
    }
}

/// Whether the fetch succeeded and was of the URL.
pub open spec fn ok_with_url(o: Result<FeedRefresh, String>, url: Seq<char>) -> bool {
    o matches Ok(r) && r.url@ == url
}

/// Whether a fetch of the URL succeeded before position `i`.
pub open spec fn fetched_before(outs: Seq<Result<FeedRefresh, String>>, i: int, url: Seq<char>) -> bool {
    exists|j: int| 0 <= j < i && ok_with_url(#[trigger] outs[j], url)
}

/// The report of a failed fetch.
pub open spec fn error_report(feed: FeedConfig, e: String) -> FeedRefreshReport {
    FeedRefreshReport {
        feed_url: feed.url,
        feed_name: feed.name,
        fetched_at: None,
        new_articles: 0,
        total: 0,
        unread: 0,
        error: Some(e),
    }
}

/// The reports of a refresh, in the order of the feeds: a failed fetch
/// reports its error; a feed URL fetched successfully reports, once, the
/// summary of its last stored fetch.
pub open spec fn reports_of(
    feeds: Seq<FeedConfig>,
    outs: Seq<Result<FeedRefresh, String>>,
    sums: Seq<FeedRefreshSummary>,
) -> Seq<FeedRefreshReport>
    decreases outs.len(),
{
    if outs.len() == 0 {
        seq![]
    } else {
        let n = outs.len() - 1;
        let rest = reports_of(feeds.take(n), outs.drop_last(), sums);
        match outs.last() {
            Err(e) => rest.push(error_report(feeds[n], e)),
            Ok(r) => if fetched_before(outs, n, r.url@) {
                rest
            } else {
                match last_summary(sums, r.url@) {
                    Some(s) => rest.push(report_of(s)),
                    None => rest,
                }
            },
        }
    }
}

fn find_last_summary(sums: &Vec<FeedRefreshSummary>, url: &str) -> (r: Option<usize>)
    ensures
        match r {
            Some(k) => k < sums.len() && last_summary(sums@, url@) == Some(sums@[k as int]),
            None => last_summary(sums@, url@) is None,
        },
{
    let mut i: usize = sums.len();
    assert(sums@.take(sums@.len() as int) =~= sums@);
    while i > 0
        invariant
            i <= sums.len(),
            last_summary(sums@, url@) == last_summary(sums@.take(i as int), url@),
        decreases i,
    {
        assert(sums@.take(i as int).drop_last() =~= sums@.take(i - 1));
        if same_text(sums[i - 1].feed_url.as_str(), url) {
            return Some(i - 1);
        }
        i = i - 1;
    }
    None
}

/// Stores the successful fetches of a refresh in one batch and reports
/// on every feed, in the order of the feeds.
pub fn refresh_feeds(
    cache: &mut Cache,
    feeds: &[FeedConfig],
    outcomes: Vec<Result<FeedRefresh, String>>,
) -> (r: Vec<FeedRefreshReport>)
    requires
        feeds@.len() == outcomes@.len(),
    ensures
        ({
            let refs = ok_refreshes(outcomes@);
            let (arts, news) = offer_refreshes(old(cache).article_table(), refs);
            let idx = index_after(old(cache).index_table(), news, refs);
            &&& final(cache).article_table() == arts
            &&& final(cache).feed_table() == record_metas(old(cache).feed_table(), refs)
            &&& final(cache).index_table() == idx
            &&& exists|sums: Seq<FeedRefreshSummary>|
                sums.len() == refs.len() && (forall|i: int|
                    0 <= i < sums.len() ==> summary_matches(#[trigger] sums[i], refs[i], arts, news, idx))
                    && r@ == reports_of(feeds@, outcomes@, sums)
        }),
{
    let ghost outs = outcomes@;
    let total = outcomes.len();
    let mut outcomes = outcomes;
    let mut refreshes: Vec<FeedRefresh> = Vec::new();
    let mut order: Vec<Result<String, FeedRefreshReport>> = Vec::new();
    let mut i: usize = 0;
    while outcomes.len() > 0
        invariant
            i + outcomes@.len() == outs.len(),
            outs.len() == total,
            feeds@.len() == outs.len(),
            outcomes@ == outs.skip(i as int),
            refreshes@ == ok_refreshes(outs.take(i as int)),
            order@.len() == i,
            forall|j: int| 0 <= j < i ==> match #[trigger] order@[j] {
                Ok(u) => outs[j] matches Ok(f) && u@ == f.url@,
                Err(rep) => outs[j] matches Err(e) && rep == error_report(feeds@[j], e),
            },
        decreases outcomes@.len(),
    {
        let item = outcomes.remove(0);
        assert(item == outs[i as int]);
        assert(outs.take(i + 1).drop_last() =~= outs.take(i as int));
        assert(outcomes@ =~= outs.skip(i + 1));
        match item {
            Ok(refresh) => {
                order.push(Ok(refresh.url.clone()));
                refreshes.push(refresh);
            },
            Err(error) => {
                order.push(Err(FeedRefreshReport {
                    feed_url: feeds[i].url.clone(),
                    feed_name: feeds[i].name.clone(),
                    fetched_at: None,
                    new_articles: 0,
                    total: 0,
                    unread: 0,
                    error: Some(error),
                }));
            },
        }
        i = i + 1;
    }
    assert(outs.take(outs.len() as int) =~= outs);
    let summaries = cache.apply_refresh_batch(refreshes.as_slice());
    let mut reports: Vec<FeedRefreshReport> = Vec::new();
    let mut used: Vec<String> = Vec::new();
    let mut k: usize = 0;
    while k < order.len()
        invariant
            k <= order.len(),
            order@.len() == outs.len(),
            feeds@.len() == outs.len(),
            forall|j: int| 0 <= j < outs.len() ==> match #[trigger] order@[j] {
                Ok(u) => outs[j] matches Ok(f) && u@ == f.url@,
                Err(rep) => outs[j] matches Err(e) && rep == error_report(feeds@[j], e),
            },
            reports@ == reports_of(feeds@.take(k as int), outs.take(k as int), summaries@),
            forall|u: Seq<char>| #[trigger] used.deep_view().contains(u) <==> fetched_before(outs, k as int, u),
        decreases order.len() - k,
    {
        proof {
            assert(outs.take(k + 1).drop_last() =~= outs.take(k as int));
            assert(feeds@.take(k + 1).take(k as int) =~= feeds@.take(k as int));
            assert(outs.take(k + 1).last() == outs[k as int]);
            assert(feeds@.take(k + 1)[k as int] == feeds@[k as int]);
            assert forall|u: Seq<char>| fetched_before(outs.take(k + 1), k as int, u) == fetched_before(outs, k as int, u) by {
                if fetched_before(outs, k as int, u) {
                    let j = choose|j: int| 0 <= j < k && ok_with_url(#[trigger] outs[j], u);
                    assert(outs.take(k + 1)[j] == outs[j]);
                }
                if fetched_before(outs.take(k + 1), k as int, u) {
                    let j = choose|j: int| 0 <= j < k && ok_with_url(#[trigger] outs.take(k + 1)[j], u);
                    assert(outs.take(k + 1)[j] == outs[j]);
                }
            }
        }
        let ghost before_used = used.deep_view();
        match &order[k] {
            Ok(url) => {
                if !crate::cache::has_text(&used, url.as_str()) {
                    match find_last_summary(&summaries, url.as_str()) {
                        Some(x) => {
                            reports.push(report_from_summary(summaries[x].duplicate()));
                        },
                        None => {},
                    }
                    used.push(url.clone());
                    assert(used.deep_view() =~= before_used.push(url@));
                }
                assert(ok_with_url(outs[k as int], url@));
                assert(used.deep_view() == before_used || used.deep_view() == before_used.push(url@));
                assert(before_used.contains(url@) || used.deep_view() == before_used.push(url@));
                assert forall|u: Seq<char>| #[trigger] used.deep_view().contains(u) <==> fetched_before(outs, k + 1, u) by {
                    if used.deep_view() == before_used.push(url@) {
                        assert(used.deep_view()[before_used.len() as int] == url@);
                    }
                    if before_used.contains(u) {
                        let a = choose|a: int| 0 <= a < before_used.len() && before_used[a] == u;
                        assert(used.deep_view()[a] == u);
                        assert(fetched_before(outs, k as int, u));
                        let j = choose|j: int| 0 <= j < k && ok_with_url(#[trigger] outs[j], u);
                        assert(ok_with_url(outs[j], u));
                    }
                    if used.deep_view().contains(u) && !before_used.contains(u) {
                        let a = choose|a: int| 0 <= a < used.deep_view().len() && used.deep_view()[a] == u;
                        assert(used.deep_view() == before_used.push(url@));
                        if a < before_used.len() {
                            assert(before_used[a] == u);
                        }
                        assert(u == url@);
                        assert(ok_with_url(outs[k as int], u));
                    }
                    if fetched_before(outs, k + 1, u) {
                        let j = choose|j: int| 0 <= j < k + 1 && ok_with_url(#[trigger] outs[j], u);
                        if j < k {
                            assert(ok_with_url(outs[j], u));
                            assert(fetched_before(outs, k as int, u));
                            assert(before_used.contains(u));
                            let a = choose|a: int| 0 <= a < before_used.len() && before_used[a] == u;
                            assert(used.deep_view()[a] == u);
                        } else {
                            assert(u == url@);
                            if before_used.contains(u) {
                                let a = choose|a: int| 0 <= a < before_used.len() && before_used[a] == u;
                                assert(used.deep_view()[a] == u);
                            }
                        }
                    }
                }
            },
            Err(rep) => {
                reports.push(FeedRefreshReport {
                    feed_url: rep.feed_url.clone(),
                    feed_name: rep.feed_name.clone(),
                    fetched_at: None,
                    new_articles: 0,
                    total: 0,
                    unread: 0,
                    error: crate::feed::copy_opt(&rep.error),
                });
                assert forall|u: Seq<char>| #[trigger] used.deep_view().contains(u) <==> fetched_before(outs, k + 1, u) by {
                    if fetched_before(outs, k + 1, u) {
                        let j = choose|j: int| 0 <= j < k + 1 && ok_with_url(#[trigger] outs[j], u);
                        assert(j != k);
                        assert(fetched_before(outs, k as int, u));
                    }
                    if fetched_before(outs, k as int, u) {
                        let j = choose|j: int| 0 <= j < k && ok_with_url(#[trigger] outs[j], u);
                        assert(ok_with_url(outs[j], u));
                    }
                }
            },
        }
        k = k + 1;
    }
    assert(outs.take(outs.len() as int) =~= outs);
    assert(feeds@.take(feeds@.len() as int) =~= feeds@);
    reports
}

/// Marks every article in a feed's index read.
pub fn mark_feed_read(cache: &mut Cache, feed_url: &str)
    ensures
        final(cache).article_table() == marked_all_read(old(cache).article_table(), index_of(old(cache).index_table(), feed_url@)),
        final(cache).feed_table() == old(cache).feed_table(),
        final(cache).index_table() == old(cache).index_table(),
{
    if let Some(hashes) = cache.get_feed_index(feed_url) {
        let ghost t0 = cache.article_table();
        let ghost hs = hashes.deep_view();
        let mut i: usize = 0;
        while i < hashes.len()
            invariant
                i <= hashes.len(),
                hs == hashes.deep_view(),
                cache.article_table() == marked_all_read(t0, hs.take(i as int)),
                cache.feed_table() == old(cache).feed_table(),
                cache.index_table() == old(cache).index_table(),
            decreases hashes.len() - i,
        {
            assert(hs.take(i + 1).drop_last() =~= hs.take(i as int));
            assert(hs.take(i + 1).last() == hashes@[i as int]@);
            cache.mark_read(hashes[i].as_str(), true);
            i = i + 1;
        }
        assert(hs.take(hs.len() as int) =~= hs);
    } else {
        assert(marked_all_read(cache.article_table(), seq![]) == cache.article_table());
    }
}

/// What the worker does next.
pub enum BackendStep {
    /// Fetch these feeds (positions in the configuration) and store them.
    Refresh { feeds: Vec<usize> },
    /// Send this answer; the cache has been updated.
    Reply { response: BackendResponse },
    /// Stop the worker.
    Stop,
}

/// The positions of the feeds with the URL.
pub open spec fn feeds_with_url(feeds: Seq<FeedConfig>, url: Seq<char>) -> Seq<usize>
    decreases feeds.len(),
{
    if feeds.len() == 0 {
        seq![]
    } else {
        let rest = feeds_with_url(feeds.drop_last(), url);
        if feeds.last().url@ == url {
            rest.push((feeds.len() - 1) as usize)
        } else {
            rest
        }
    }
}

/// All positions `0..n`.
pub open spec fn all_positions(n: nat) -> Seq<usize> {
    Seq::new(n, |i: int| i as usize)
}

/// Decides what a command asks of the worker, updating the cache for the
/// commands that mark articles read.
pub fn plan_command(cache: &mut Cache, feeds: &[FeedConfig], command: BackendCommand) -> (r: BackendStep)
    ensures
        match command {
            BackendCommand::FetchAllFeeds => *final(cache) == *old(cache) && (r matches BackendStep::Refresh { feeds: f } && f@ == all_positions(feeds@.len())),
            BackendCommand::FetchFeed { url } => *final(cache) == *old(cache) && (r matches BackendStep::Refresh { feeds: f } && f@ == feeds_with_url(feeds@, url@)),
            BackendCommand::MarkRead { hash, read } => {
                &&& final(cache).article_table() == crate::cache::read_marked(old(cache).article_table(), hash@, read)
                &&& final(cache).feed_table() == old(cache).feed_table()
                &&& final(cache).index_table() == old(cache).index_table()
                &&& r == BackendStep::Reply { response: BackendResponse::ArticleMutation { hash, read } }
            },
            BackendCommand::MarkFeedRead { feed_url } => {
                &&& final(cache).article_table() == marked_all_read(old(cache).article_table(), index_of(old(cache).index_table(), feed_url@))
                &&& final(cache).feed_table() == old(cache).feed_table()
                &&& final(cache).index_table() == old(cache).index_table()
                &&& r == BackendStep::Reply { response: BackendResponse::FeedMarkedRead { feed_url } }
            },
            BackendCommand::Shutdown => *final(cache) == *old(cache) && r is Stop,
        },
{
    match command {
        BackendCommand::FetchAllFeeds => {
            let mut all: Vec<usize> = Vec::new();
            let mut i: usize = 0;
            while i < feeds.len()
                invariant
                    i <= feeds.len(),
                    all@ == all_positions(i as nat),
                decreases feeds.len() - i,
            {
                all.push(i);
                assert(all@ =~= all_positions((i + 1) as nat));
                i = i + 1;
            }
            BackendStep::Refresh { feeds: all }
        },
        BackendCommand::FetchFeed { url } => {
            let mut sel: Vec<usize> = Vec::new();
            let mut i: usize = 0;
            while i < feeds.len()
                invariant
                    i <= feeds.len(),
                    sel@ == feeds_with_url(feeds@.take(i as int), url@),
                decreases feeds.len() - i,
            {
                assert(feeds@.take(i + 1).drop_last() =~= feeds@.take(i as int));
                if same_text(feeds[i].url.as_str(), url.as_str()) {
                    sel.push(i);
                }
                i = i + 1;
            }
            assert(feeds@.take(feeds@.len() as int) =~= feeds@);
            BackendStep::Refresh { feeds: sel }
        },
        BackendCommand::MarkRead { hash, read } => {
            cache.mark_read(hash.as_str(), read);
            BackendStep::Reply { response: BackendResponse::ArticleMutation { hash, read } }
        },
        BackendCommand::MarkFeedRead { feed_url } => {
            mark_feed_read(cache, feed_url.as_str());
            BackendStep::Reply { response: BackendResponse::FeedMarkedRead { feed_url } }
        },
        BackendCommand::Shutdown => BackendStep::Stop,
    }
}

} // verus!
