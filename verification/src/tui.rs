//! The state machine of the terminal interface.
//!
//! [`App`] holds what the interface shows and where its cursors stand.
//! Each key, mouse event and answer of the background worker is one step
//! of it. A step decides; the requests it makes of the worker and of the
//! browser come back as [`Effect`]s, which the application carries out.

use vstd::prelude::*;
use crate::backend::{BackendCommand, BackendResponse, FeedRefreshReport};
use crate::cache::{Cache, count_unread, index_of, present_articles, stored, unread_only, with_read};
use crate::cli::{search_haystack, sorted_articles, unread_count};
use crate::config::{Config, FeedConfig, Theme, color_components, color_shape_ok};
use crate::datetime::{display_outcome, key_outcome};
use crate::feed::Article;
use crate::input::{InputEvent, Key, MouseEvent};
use crate::text::{decimal, has_substring, lowercase_of, trim_seq};

verus! {

/// One line of the feed list: a configured feed and its counts.
pub struct FeedRow {
    pub name: String,
    pub url: String,
    pub total: usize,
    pub unread: usize,
    pub last_updated: Option<String>,
    pub last_error: Option<String>,
}

/// The screen the interface shows.
#[derive(Clone, Copy, PartialEq, Eq, Structural, Debug)]
pub enum Screen {
    FeedList,
    ArticleList,
    ArticleView,
    Log,
    Help,
}

/// Which articles the article list holds.
pub enum FeedScope {
    /// Every configured feed's articles.
    All,
    /// Every configured feed's unread articles.
    Unread,
    /// One feed's articles, by its URL.
    Feed(String),
}

/// Which log the log screen shows.
#[derive(Clone, Copy, PartialEq, Eq, Structural, Debug)]
pub enum LogTab {
    News,
    Debug,
}

/// The colors of the interface, each an RGB triple when configured.
#[derive(Clone, Copy)]
pub struct UiTheme {
    pub selection_bg: Option<(u8, u8, u8)>,
    pub selection_fg: Option<(u8, u8, u8)>,
    pub status_bg: Option<(u8, u8, u8)>,
    pub status_fg: Option<(u8, u8, u8)>,
    pub header_fg: Option<(u8, u8, u8)>,
    pub bold_fg: Option<(u8, u8, u8)>,
}

/// A request that a step makes of the world outside.
pub enum Effect {
    /// A command for the background worker.
    Send(BackendCommand),
    /// Open a link in the browser; the outcome comes back through
    /// [`App::browser_result`].
    OpenBrowser(String),
}

/// The state of the interface.
pub struct App {
    pub screen: Screen,
    pub feeds: Vec<FeedRow>,
    pub selected_feed: usize,
    pub selected_article: usize,
    pub article_scroll: usize,
    pub selected_feed_scope: Option<FeedScope>,
    pub articles: Vec<Article>,
    pub search: String,
    pub search_mode: bool,
    pub status: String,
    pub last_updated: Option<String>,
    pub last_size: (usize, usize),
    pub page_size: usize,
    pub theme: UiTheme,
    pub log_tab: LogTab,
    pub log_scroll: usize,
    pub quitting: bool,
    pub pending_redraw: bool,
}

impl FeedRow {
    /// A copy of the row.
    pub fn duplicate(&self) -> (r: FeedRow)
        ensures
            r == *self,
    {
        FeedRow {
            name: self.name.clone(),
            url: self.url.clone(),
            total: self.total,
            unread: self.unread,
            last_updated: crate::feed::copy_opt(&self.last_updated),
            last_error: crate::feed::copy_opt(&self.last_error),
        }
    }
}

impl FeedScope {
    /// A copy of the scope.
    pub fn duplicate(&self) -> (r: FeedScope)
        ensures
            r == *self,
    {
        match self {
            FeedScope::All => FeedScope::All,
            FeedScope::Unread => FeedScope::Unread,
            FeedScope::Feed(u) => FeedScope::Feed(u.clone()),
        }
    }
}

/// Whether an article passes the search: an empty query passes all,
/// another must occur, lowercased, in the article's lowercased text.
pub open spec fn passes(a: Article, q: Seq<char>) -> bool {
    q.len() == 0 || has_substring(search_haystack(a), lowercase_of(q))
}

/// The positions, below `n`, of the articles that pass the search.
pub open spec fn visible_upto(arts: Seq<Article>, q: Seq<char>, n: nat) -> Seq<usize>
    decreases n,
{
    if n == 0 {
        seq![]
    } else {
        let before = visible_upto(arts, q, (n - 1) as nat);
        if passes(arts[n - 1], q) {
            before.push((n - 1) as usize)
        } else {
            before
        }
    }
}

/// The positions of the articles that pass the search, in order.
pub open spec fn visible_indices(arts: Seq<Article>, q: Seq<char>) -> Seq<usize> {
    visible_upto(arts, q, arts.len())
}

/// The visible positions lie below `n`, increase, and are at most `n`.
pub proof fn lemma_visible_upto(arts: Seq<Article>, q: Seq<char>, n: nat)
    requires
        n <= arts.len(),
        n <= usize::MAX,
    ensures
        visible_upto(arts, q, n).len() <= n,
        forall|i: int|
            0 <= i < visible_upto(arts, q, n).len() ==> (#[trigger] visible_upto(arts, q, n)[i]) < n,
        forall|i: int, j: int|
            0 <= i < j < visible_upto(arts, q, n).len() ==> (#[trigger] visible_upto(arts, q, n)[i])
                < (#[trigger] visible_upto(arts, q, n)[j]),
    decreases n,
{
    if n > 0 {
        lemma_visible_upto(arts, q, (n - 1) as nat);
        let before = visible_upto(arts, q, (n - 1) as nat);
        assert(visible_upto(arts, q, n) == if passes(arts[n - 1], q) {
            before.push((n - 1) as usize)
        } else {
            before
        });
        assert forall|i: int, j: int|
            0 <= i < j < visible_upto(arts, q, n).len() implies (#[trigger] visible_upto(arts, q, n)[i])
                < (#[trigger] visible_upto(arts, q, n)[j]) by {
            if passes(arts[n - 1], q) {
                if j < before.len() {
                    assert(before[i] < before[j]);
                } else {
                    assert(before[i] < n - 1);
                }
            } else {
                assert(before[i] < before[j]);
            }
        }
    }
}

/// The first position, from `i` on, of a row with the URL.
pub open spec fn row_from(rows: Seq<FeedRow>, url: Seq<char>, i: int) -> Option<int>
    decreases rows.len() - i,
{
    if i < 0 || i >= rows.len() {
        None
    } else if rows[i].url@ == url {
        Some(i)
    } else {
        row_from(rows, url, i + 1)
    }
}

/// The first position, from `i` on, of an article with the hash.
pub open spec fn article_from(arts: Seq<Article>, hash: Seq<char>, i: int) -> Option<int>
    decreases arts.len() - i,
{
    if i < 0 || i >= arts.len() {
        None
    } else if arts[i].hash@ == hash {
        Some(i)
    } else {
        article_from(arts, hash, i + 1)
    }
}

pub(crate) proof fn lemma_row_from(rows: Seq<FeedRow>, url: Seq<char>, i: int)
    requires
        0 <= i,
    ensures
        row_from(rows, url, i) matches Some(k) ==> i <= k < rows.len() && rows[k].url@ == url,
    decreases rows.len() - i,
{
    if i < rows.len() && rows[i].url@ != url {
        lemma_row_from(rows, url, i + 1);
    }
}

pub(crate) proof fn lemma_article_from(arts: Seq<Article>, hash: Seq<char>, i: int)
    requires
        0 <= i,
    ensures
        article_from(arts, hash, i) matches Some(k) ==> i <= k < arts.len() && arts[k].hash@ == hash,
    decreases arts.len() - i,
{
    if i < arts.len() && arts[i].hash@ != hash {
        lemma_article_from(arts, hash, i + 1);
    }
}

/// The articles with the read flag of the first one with the hash set.
pub open spec fn set_read_first(arts: Seq<Article>, hash: Seq<char>, read: bool) -> Seq<Article> {
    match article_from(arts, hash, 0) {
        Some(i) => arts.update(i, with_read(arts[i], read)),
        None => arts,
    }
}

/// The rows with the counts of the first one with the URL replaced.
pub open spec fn set_row_counts(rows: Seq<FeedRow>, url: Seq<char>, total: usize, unread: usize) -> Seq<
    FeedRow,
> {
    match row_from(rows, url, 0) {
        Some(i) => rows.update(i, FeedRow { total, unread, ..rows[i] }),
        None => rows,
    }
}

/// Finds the first row with the URL.
pub fn find_feed_row(rows: &Vec<FeedRow>, url: &str) -> (r: Option<usize>)
    ensures
        match r {
            Some(i) => i < rows@.len() && row_from(rows@, url@, 0) == Some(i as int),
            None => row_from(rows@, url@, 0) is None,
        },
{
    let mut i: usize = 0;
    while i < rows.len()
        invariant
            i <= rows.len(),
            row_from(rows@, url@, 0) == row_from(rows@, url@, i as int),
        decreases rows.len() - i,
    {
        if crate::text::same_text(rows[i].url.as_str(), url) {
            return Some(i);
        }
        i = i + 1;
    }
    None
}

/// Finds the first article with the hash.
pub fn find_article(arts: &Vec<Article>, hash: &str) -> (r: Option<usize>)
    ensures
        match r {
            Some(i) => i < arts@.len() && article_from(arts@, hash@, 0) == Some(i as int),
            None => article_from(arts@, hash@, 0) is None,
        },
{
    let mut i: usize = 0;
    while i < arts.len()
        invariant
            i <= arts.len(),
            article_from(arts@, hash@, 0) == article_from(arts@, hash@, i as int),
        decreases arts.len() - i,
    {
        if crate::text::same_text(arts[i].hash.as_str(), hash) {
            return Some(i);
        }
        i = i + 1;
    }
    None
}

/// Whether the text of an article holds the lowercased query.
fn article_matches(a: &Article, q_lower: &str) -> (r: bool)
    ensures
        r == has_substring(search_haystack(*a), q_lower@),
{
    let mut hay = crate::text::lowercase(a.title.as_str());
    hay.append(" ");
    hay.append(crate::text::lowercase(a.description.as_str()).as_str());
    hay.append(" ");
    hay.append(crate::text::lowercase(a.content.as_str()).as_str());
    crate::text::contains_text(hay.as_str(), q_lower)
}

/// `a - b` for sizes, or zero.
pub open spec fn sat(a: int, b: int) -> int {
    if a >= b {
        a - b
    } else {
        0
    }
}

/// The sum of the rows' totals.
pub open spec fn sum_totals(rows: Seq<FeedRow>) -> int
    decreases rows.len(),
{
    if rows.len() == 0 {
        0
    } else {
        sum_totals(rows.drop_last()) + rows.last().total
    }
}

/// The sum of the rows' unread counts.
pub open spec fn sum_unread(rows: Seq<FeedRow>) -> int
    decreases rows.len(),
{
    if rows.len() == 0 {
        0
    } else {
        sum_unread(rows.drop_last()) + rows.last().unread
    }
}

/// A sum that stops at the largest size.
pub open spec fn capped(n: int) -> usize {
    if n > usize::MAX {
        usize::MAX
    } else {
        n as usize
    }
}

impl App {
    /// The positions of the articles the list shows.
    pub open spec fn visible(self) -> Seq<usize> {
        visible_indices(self.articles@, self.search@)
    }

    /// The position, among the articles, of the selected one.
    pub open spec fn current(self) -> Option<int> {
        if self.selected_article < self.visible().len() {
            Some(self.visible()[self.selected_article as int] as int)
        } else {
            None
        }
    }

    /// The number of lines of the feed list: the feeds and three more.
    pub open spec fn row_count(self) -> int {
        self.feeds@.len() + 3int
    }

    /// The line of the feed list that opens the log.
    pub open spec fn log_row(self) -> int {
        self.feeds@.len() + 2int
    }

    /// How many list lines fit on a page.
    pub open spec fn list_rows(self) -> int {
        let fit = sat(self.last_size.1 as int, 3);
        if fit <= self.page_size {
            fit
        } else {
            self.page_size as int
        }
    }

    /// The scope that opening the selected line of the feed list gives.
    pub open spec fn scope_for(self) -> FeedScope {
        if self.selected_feed == 0 {
            FeedScope::All
        } else if self.selected_feed == 1 {
            FeedScope::Unread
        } else if self.selected_feed >= self.log_row() {
            FeedScope::All
        } else {
            FeedScope::Feed(self.feeds@[self.selected_feed - 2].url)
        }
    }

    /// The rows after the counts of the open feed are taken from the list.
    pub open spec fn recounted(self) -> Seq<FeedRow> {
        recount_rows(self.selected_feed_scope, self.feeds@, self.articles@)
    }

    /// Number of lines of the feed list.
    pub fn feed_row_count(&self) -> (r: usize)
        requires
            self.feeds@.len() + 3 <= usize::MAX,
        ensures
            r == self.row_count(),
    {
        self.feeds.len() + 3
    }

    /// The line of the feed list that opens the log.
    pub fn log_row_index(&self) -> (r: usize)
        requires
            self.feeds@.len() + 2 <= usize::MAX,
        ensures
            r == self.log_row(),
    {
        self.feeds.len() + 2
    }

    /// The scope that opening the selected line gives.
    pub fn scope_for_selected_feed(&self) -> (r: FeedScope)
        requires
            self.feeds@.len() + 2 <= usize::MAX,
        ensures
            r == self.scope_for(),
    {
        if self.selected_feed == 0 {
            FeedScope::All
        } else if self.selected_feed == 1 {
            FeedScope::Unread
        } else if self.selected_feed >= self.log_row_index() {
            FeedScope::All
        } else {
            FeedScope::Feed(self.feeds[self.selected_feed - 2].url.clone())
        }
    }

    /// The articles of all feeds, summed.
    pub fn total_articles(&self) -> (r: usize)
        ensures
            r == capped(sum_totals(self.feeds@)),
    {
        let mut n: usize = 0;
        let mut i: usize = 0;
        while i < self.feeds.len()
            invariant
                i <= self.feeds.len(),
                n == capped(sum_totals(self.feeds@.take(i as int))),
                0 <= sum_totals(self.feeds@.take(i as int)),
            decreases self.feeds.len() - i,
        {
            assert(self.feeds@.take(i + 1).drop_last() =~= self.feeds@.take(i as int));
            assert(self.feeds@.take(i + 1).last() == self.feeds@[i as int]);
            n = n.saturating_add(self.feeds[i].total);
            i = i + 1;
        }
        assert(self.feeds@.take(self.feeds@.len() as int) =~= self.feeds@);
        n
    }

    /// The unread articles of all feeds, summed.
    pub fn total_unread(&self) -> (r: usize)
        ensures
            r == capped(sum_unread(self.feeds@)),
    {
        let mut n: usize = 0;
        let mut i: usize = 0;
        while i < self.feeds.len()
            invariant
                i <= self.feeds.len(),
                n == capped(sum_unread(self.feeds@.take(i as int))),
                0 <= sum_unread(self.feeds@.take(i as int)),
            decreases self.feeds.len() - i,
        {
            assert(self.feeds@.take(i + 1).drop_last() =~= self.feeds@.take(i as int));
            assert(self.feeds@.take(i + 1).last() == self.feeds@[i as int]);
            n = n.saturating_add(self.feeds[i].unread);
            i = i + 1;
        }
        assert(self.feeds@.take(self.feeds@.len() as int) =~= self.feeds@);
        n
    }

    /// How many feed lines fit on a page.
    pub fn feed_list_rows(&self) -> (r: usize)
        ensures
            r == self.list_rows(),
    {
        let fit = self.last_size.1.saturating_sub(3);
        if fit <= self.page_size {
            fit
        } else {
            self.page_size
        }
    }

    /// How many article lines fit on a page.
    pub fn article_list_rows(&self) -> (r: usize)
        ensures
            r == self.list_rows(),
    {
        let fit = self.last_size.1.saturating_sub(3);
        if fit <= self.page_size {
            fit
        } else {
            self.page_size
        }
    }

    /// The positions of the articles that pass the search.
    pub fn filtered_article_indices(&self) -> (r: Vec<usize>)
        ensures
            r@ == self.visible(),
    {
        let mut out: Vec<usize> = Vec::new();
        let empty = self.search.as_str().is_empty();
        let q = crate::text::lowercase(self.search.as_str());
        let mut i: usize = 0;
        while i < self.articles.len()
            invariant
                i <= self.articles.len(),
                empty == (self.search@.len() == 0),
                q@ == lowercase_of(self.search@),
                out@ == visible_upto(self.articles@, self.search@, i as nat),
            decreases self.articles.len() - i,
        {
            if empty || article_matches(&self.articles[i], q.as_str()) {
                out.push(i);
            }
            i = i + 1;
        }
        out
    }

    /// The selected article, if the list shows one.
    pub fn current_article(&self) -> (r: Option<&Article>)
        ensures
            match r {
                Some(a) => self.current() matches Some(i) && *a == self.articles@[i],
                None => self.current() is None,
            },
    {
        let visible = self.filtered_article_indices();
        let n = self.articles.len();
        proof {
            lemma_visible_upto(self.articles@, self.search@, n as nat);
        }
        if self.selected_article < visible.len() {
            let idx = visible[self.selected_article];
            Some(&self.articles[idx])
        } else {
            None
        }
    }

    /// Takes the counts of the open feed's line from the article list.
    pub fn recount_current_feed_unread(&mut self)
        ensures
            final(self).feeds@ == old(self).recounted(),
            *final(self) == (App { feeds: final(self).feeds, ..*old(self) }),
    {
        let url = match &self.selected_feed_scope {
            Some(FeedScope::Feed(u)) => u.clone(),
            _ => return,
        };
        let unread = crate::cli::count_unread_articles(&self.articles);
        match find_feed_row(&self.feeds, url.as_str()) {
            Some(i) => {
                let mut row = self.feeds[i].duplicate();
                row.unread = unread;
                row.total = self.articles.len();
                self.feeds.set(i, row);
                assert(self.feeds@ =~= old(self).recounted());
            },
            None => {},
        }
    }
}

/// The rows after the line of the open feed takes its counts from the
/// article list; in the combined scopes the rows stay as they are.
pub open spec fn recount_rows(scope: Option<FeedScope>, rows: Seq<FeedRow>, arts: Seq<Article>) -> Seq<
    FeedRow,
> {
    match scope {
        Some(FeedScope::Feed(url)) => set_row_counts(
            rows,
            url@,
            arts.len() as usize,
            unread_count(arts) as usize,
        ),
        _ => rows,
    }
}

/// Whether `new` is `old` with the read flag of the first article with
/// the hash set, the open feed's line recounted, and the redraw flag as
/// given; nothing else changes.
pub open spec fn read_set(old: App, new: App, hash: Seq<char>, read: bool, redraw: bool) -> bool {
    &&& new.articles@ == set_read_first(old.articles@, hash, read)
    &&& new.feeds@ == recount_rows(old.selected_feed_scope, old.feeds@, new.articles@)
    &&& new == (App { articles: new.articles, feeds: new.feeds, pending_redraw: redraw, ..old })
}

/// The articles of one feed, as the cache holds them.
pub open spec fn feed_articles(c: Cache, url: Seq<char>) -> Seq<Article> {
    present_articles(c.article_table(), index_of(c.index_table(), url))
}

/// The articles of each row's feed, or only the unread ones.
pub open spec fn per_feed(c: Cache, rows: Seq<FeedRow>, only_unread: bool) -> Seq<Seq<Article>> {
    Seq::new(
        rows.len(),
        |f: int|
            if only_unread {
                unread_only(feed_articles(c, rows[f].url@))
            } else {
                feed_articles(c, rows[f].url@)
            },
    )
}

/// The article at position `pos` of each list that has one, list after
/// list.
pub open spec fn round(lists: Seq<Seq<Article>>, pos: int) -> Seq<Article>
    decreases lists.len(),
{
    if lists.len() == 0 {
        seq![]
    } else {
        round(lists.drop_last(), pos) + if 0 <= pos < lists.last().len() {
            seq![lists.last()[pos]]
        } else {
            seq![]
        }
    }
}

/// The first `n` rounds, one after the other.
pub open spec fn rounds(lists: Seq<Seq<Article>>, n: nat) -> Seq<Article>
    decreases n,
{
    if n == 0 {
        seq![]
    } else {
        rounds(lists, (n - 1) as nat) + round(lists, n - 1)
    }
}

/// The length of the longest list.
pub open spec fn longest(lists: Seq<Seq<Article>>) -> nat
    decreases lists.len(),
{
    if lists.len() == 0 {
        0
    } else if longest(lists.drop_last()) >= lists.last().len() {
        longest(lists.drop_last())
    } else {
        lists.last().len()
    }
}

/// The lists taken in turns: the first article of each, then the second
/// of each, and so on.
pub open spec fn interleave(lists: Seq<Seq<Article>>) -> Seq<Article> {
    rounds(lists, longest(lists))
}

/// The articles an article list gathers before it is sorted.
pub open spec fn gathered(app: App, c: Cache) -> Seq<Article> {
    match app.selected_feed_scope {
        None => seq![],
        Some(FeedScope::Feed(url)) => feed_articles(c, url@),
        Some(FeedScope::All) => interleave(per_feed(c, app.feeds@, false)),
        Some(FeedScope::Unread) => interleave(per_feed(c, app.feeds@, true)),
    }
}

/// The selection, moved onto the last visible article if it stood past it.
pub open spec fn clamped(sel: usize, n: nat) -> usize {
    if sel >= n {
        sat(n as int, 1) as usize
    } else {
        sel
    }
}

/// Whether `after` is `before` with its article list loaded afresh from
/// the cache: gathered for the scope, sorted newest first, and the
/// selection kept on a visible article; nothing else changes.
pub open spec fn reload_ok(before: App, c: Cache, after: App) -> bool {
    &&& sorted_articles(gathered(before, c), after.articles@)
    &&& after.selected_article == clamped(
        before.selected_article,
        visible_indices(after.articles@, before.search@).len(),
    )
    &&& after == (App { articles: after.articles, selected_article: after.selected_article, ..before })
}

/// Takes the lists in turns.
fn interleave_lists(lists: &Vec<Vec<Article>>) -> (r: Vec<Article>)
    ensures
        r@ == interleave(lists.deep_view()),
{
    let ghost ls = lists.deep_view();
    let mut most: usize = 0;
    let mut f: usize = 0;
    while f < lists.len()
        invariant
            f <= lists.len(),
            ls == lists.deep_view(),
            most == longest(ls.take(f as int)),
        decreases lists.len() - f,
    {
        assert(ls.take(f + 1).drop_last() =~= ls.take(f as int));
        assert(ls[f as int] == lists@[f as int]@);
        if most < lists[f].len() {
            most = lists[f].len();
        }
        f = f + 1;
    }
    assert(ls.take(ls.len() as int) =~= ls);
    let mut out: Vec<Article> = Vec::new();
    let mut pos: usize = 0;
    while pos < most
        invariant
            pos <= most,
            ls == lists.deep_view(),
            most == longest(ls),
            out@ == rounds(ls, pos as nat),
        decreases most - pos,
    {
        let mut g: usize = 0;
        while g < lists.len()
            invariant
                g <= lists.len(),
                ls == lists.deep_view(),
                out@ == rounds(ls, pos as nat) + round(ls.take(g as int), pos as int),
            decreases lists.len() - g,
        {
            assert(ls.take(g + 1).drop_last() =~= ls.take(g as int));
            assert(ls[g as int] == lists@[g as int]@);
            if pos < lists[g].len() {
                out.push(lists[g][pos].duplicate());
            }
            assert(out@ =~= rounds(ls, pos as nat) + round(ls.take(g + 1), pos as int));
            g = g + 1;
        }
        assert(ls.take(ls.len() as int) =~= ls);
        pos = pos + 1;
    }
    out
}

impl App {
    /// Loads the article list afresh from the cache.
    pub fn reload_articles(&mut self, cache: &Cache)
        ensures
            reload_ok(*old(self), *cache, *final(self)),
    {
        let gathered: Vec<Article> = match &self.selected_feed_scope {
            None => Vec::new(),
            Some(FeedScope::Feed(url)) => cache.list_feed_articles(url.as_str()),
            Some(scope) => {
                let only_unread = match scope {
                    FeedScope::Unread => true,
                    _ => false,
                };
                let mut lists: Vec<Vec<Article>> = Vec::new();
                let mut f: usize = 0;
                while f < self.feeds.len()
                    invariant
                        f <= self.feeds.len(),
                        lists.deep_view() == per_feed(*cache, self.feeds@, only_unread).take(f as int),
                    decreases self.feeds.len() - f,
                {
                    let l = cache.list_feed_articles(self.feeds[f].url.as_str());
                    let l = if only_unread {
                        crate::cache::keep_unread(&l)
                    } else {
                        l
                    };
                    assert(l.deep_view() =~= l@);
                    assert(l@ == per_feed(*cache, self.feeds@, only_unread)[f as int]);
                    let ghost before = lists.deep_view();
                    lists.push(l);
                    assert(lists.deep_view() =~= before.push(l.deep_view()));
                    assert(lists.deep_view() =~= per_feed(*cache, self.feeds@, only_unread).take(f + 1));
                    f = f + 1;
                }
                assert(per_feed(*cache, self.feeds@, only_unread).take(self.feeds@.len() as int)
                    =~= per_feed(*cache, self.feeds@, only_unread));
                interleave_lists(&lists)
            },
        };
        assert(gathered@ == crate::tui::gathered(*old(self), *cache));
        self.articles = crate::cli::sort_articles(gathered);
        let visible_len = self.filtered_article_indices().len();
        if self.selected_article >= visible_len {
            self.selected_article = visible_len.saturating_sub(1);
        }
    }

    /// Marks the selected article read, if it is unread, and asks the
    /// worker to store that.
    pub fn mark_current_article_read(&mut self, effects: &mut Vec<Effect>)
        ensures
            marked_current(*old(self), *final(self), old(effects)@, final(effects)@),
    {
        let (hash, read) = match self.current_article() {
            Some(a) => (a.hash.clone(), a.read),
            None => return,
        };
        if read {
            return;
        }
        effects.push(Effect::Send(BackendCommand::MarkRead { hash: hash.clone(), read: true }));
        self.set_read(hash.as_str(), true);
    }

    /// Sets the read flag of the first article with the hash and recounts
    /// the open feed's line.
    fn set_read(&mut self, hash: &str, read: bool)
        ensures
            read_set(*old(self), *final(self), hash@, read, old(self).pending_redraw),
    {
        match find_article(&self.articles, hash) {
            Some(i) => {
                let a = self.articles[i].duplicate();
                let a = Article { read, ..a };
                self.articles.set(i, a);
                assert(self.articles@ =~= set_read_first(old(self).articles@, hash@, read));
            },
            None => {},
        }
        self.recount_current_feed_unread();
    }

    /// Flips the read flag of the selected article and asks the worker to
    /// store it.
    pub fn toggle_current_read(&mut self, effects: &mut Vec<Effect>)
        ensures
            toggled_current(*old(self), *final(self), old(effects)@, final(effects)@),
    {
        let (hash, read) = match self.current_article() {
            Some(a) => (a.hash.clone(), a.read),
            None => return,
        };
        effects.push(Effect::Send(BackendCommand::MarkRead { hash: hash.clone(), read: !read }));
        self.pending_redraw = true;
        self.set_read(hash.as_str(), !read);
    }

    /// Asks for the selected article's link to be opened in the browser.
    pub fn open_current_article(&self, effects: &mut Vec<Effect>)
        ensures
            opened_current(*self, old(effects)@, final(effects)@),
    {
        match self.current_article() {
            Some(a) => effects.push(Effect::OpenBrowser(a.link.clone())),
            None => {},
        }
    }

    /// Reports how opening the browser went.
    pub fn browser_result(&mut self, outcome: Result<(), String>)
        ensures
            final(self).status@ == match outcome {
                Ok(()) => "Opened in browser"@,
                Err(e) => "Failed to open browser: "@ + e@,
            },
            *final(self) == (App { status: final(self).status, pending_redraw: true, ..*old(self) }),
    {
        self.status = match outcome {
            Ok(()) => "Opened in browser".to_owned(),
            Err(e) => {
                let mut m = "Failed to open browser: ".to_owned();
                m.append(e.as_str());
                m
            },
        };
        proof {
            reveal_strlit("Opened in browser");
            reveal_strlit("Failed to open browser: ");
        }
        self.pending_redraw = true;
    }
}

/// `a + b` for sizes, stopping at the largest.
pub open spec fn sat_add(a: usize, b: usize) -> usize {
    if a + b > usize::MAX {
        usize::MAX
    } else {
        (a + b) as usize
    }
}

/// `a - b` for sizes, stopping at zero.
pub open spec fn sat_sub(a: usize, b: usize) -> usize {
    sat(a as int, b as int) as usize
}

/// Whether a character is a control code (general category `Cc`: C0,
/// DEL and C1), as `char::is_control` tests.
pub open spec fn is_control_char(c: char) -> bool {
    (c as u32) < 0x20 || (0x7f <= (c as u32) && (c as u32) <= 0x9f)
}

/// `char::is_control`.
pub fn is_control(c: char) -> (r: bool)
    ensures
        r == is_control_char(c),
{
    let u = c as u32;
    u < 0x20 || (0x7f <= u && u <= 0x9f)
}

/// The effect that asks the worker to store a read flag.
pub open spec fn mark_read_effect(hash: String, read: bool) -> Effect {
    Effect::Send(BackendCommand::MarkRead { hash, read })
}

/// Whether `a` and `e1` are what marking the selected article of `b`
/// read gives: an unread selected article is marked and the worker told;
/// otherwise nothing happens.
pub open spec fn marked_current(b: App, a: App, e0: Seq<Effect>, e1: Seq<Effect>) -> bool {
    match b.current() {
        Some(i) => if b.articles@[i].read {
            a == b && e1 == e0
        } else {
            &&& read_set(b, a, b.articles@[i].hash@, true, b.pending_redraw)
            &&& e1 == e0.push(mark_read_effect(b.articles@[i].hash, true))
        },
        None => a == b && e1 == e0,
    }
}

/// Whether `a` and `e1` are what flipping the read flag of the selected
/// article of `b` gives.
pub open spec fn toggled_current(b: App, a: App, e0: Seq<Effect>, e1: Seq<Effect>) -> bool {
    match b.current() {
        Some(i) => {
            &&& read_set(b, a, b.articles@[i].hash@, !b.articles@[i].read, true)
            &&& e1 == e0.push(mark_read_effect(b.articles@[i].hash, !b.articles@[i].read))
        },
        None => a == b && e1 == e0,
    }
}

/// Whether `e1` asks for the link of the selected article of `b` to be
/// opened, when there is one.
pub open spec fn opened_current(b: App, e0: Seq<Effect>, e1: Seq<Effect>) -> bool {
    match b.current() {
        Some(i) => e1 == e0.push(Effect::OpenBrowser(b.articles@[i].link)),
        None => e1 == e0,
    }
}

impl App {
    /// The same state, to be drawn again.
    pub open spec fn redrawn(self) -> App {
        App { pending_redraw: true, ..self }
    }

    /// The first line a list shows, for the selection and the page.
    pub open spec fn list_start(self, sel: usize) -> int {
        sat(sel as int, sat(self.list_rows(), 1))
    }

    /// The article screen, opened on the article at position `k` of the
    /// list and shown from its top.
    pub open spec fn opened_at(self, k: int) -> App {
        App { selected_article: k as usize, article_scroll: 0, screen: Screen::ArticleView, pending_redraw: true, ..self }
    }

    /// How far the paging keys move: a page, and at least one line.
    pub open spec fn page_step(self) -> int {
        if self.list_rows() >= 1 {
            self.list_rows()
        } else {
            1
        }
    }

    /// Whether the feeds leave room for the three extra lines.
    pub open spec fn fits(self) -> bool {
        self.feeds@.len() + 3 <= usize::MAX
    }
}

/// The log screen after a key: scrolling, the two tabs, and `q` back.
pub open spec fn log_key_step(app: App, input: InputEvent) -> App {
    match input {
        InputEvent::Key(Key::Char('q')) => App { screen: Screen::FeedList, pending_redraw: true, ..app },
        InputEvent::Key(Key::Down) | InputEvent::Key(Key::Char('j')) => App {
            log_scroll: sat_add(app.log_scroll, 1),
            pending_redraw: true, ..app
        },
        InputEvent::Key(Key::Up) | InputEvent::Key(Key::Char('k')) => App {
            log_scroll: sat_sub(app.log_scroll, 1),
            pending_redraw: true, ..app
        },
        InputEvent::Mouse(MouseEvent::ScrollDown) | InputEvent::Key(Key::PageDown) => App {
            log_scroll: sat_add(app.log_scroll, 15),
            pending_redraw: true, ..app
        },
        InputEvent::Mouse(MouseEvent::ScrollUp) | InputEvent::Key(Key::PageUp) => App {
            log_scroll: sat_sub(app.log_scroll, 15),
            pending_redraw: true, ..app
        },
        InputEvent::Key(Key::Home) => App { log_scroll: 0, pending_redraw: true, ..app },
        InputEvent::Key(Key::End) => App { log_scroll: usize::MAX, pending_redraw: true, ..app },
        InputEvent::Key(Key::Char('n')) => App { log_tab: LogTab::News, log_scroll: 0, pending_redraw: true, ..app },
        InputEvent::Key(Key::Char('d')) => App { log_tab: LogTab::Debug, log_scroll: 0, pending_redraw: true, ..app },
        _ => app,
    }
}

/// The article screen after a key that only moves the view: scrolling
/// and `q` back to the list.
pub open spec fn view_key_step(app: App, input: InputEvent) -> App {
    match input {
        InputEvent::Key(Key::Char('q')) => App { screen: Screen::ArticleList, pending_redraw: true, ..app },
        InputEvent::Key(Key::Down) | InputEvent::Key(Key::Char('j')) => App {
            article_scroll: sat_add(app.article_scroll, 1),
            pending_redraw: true, ..app
        },
        InputEvent::Key(Key::Up) | InputEvent::Key(Key::Char('k')) => App {
            article_scroll: sat_sub(app.article_scroll, 1),
            pending_redraw: true, ..app
        },
        InputEvent::Mouse(MouseEvent::ScrollDown) | InputEvent::Key(Key::PageDown) | InputEvent::Key(
            Key::Char(' '),
        ) => App { article_scroll: sat_add(app.article_scroll, 15), pending_redraw: true, ..app },
        InputEvent::Mouse(MouseEvent::ScrollUp) | InputEvent::Key(Key::PageUp) => App {
            article_scroll: sat_sub(app.article_scroll, 15),
            pending_redraw: true, ..app
        },
        _ => app,
    }
}

/// Whether `a` and `e1` are what a key on the article screen gives from
/// `b`: `n` and `p` move to the next or previous article, mark it read
/// and show it from its top; `u` flips the read flag; `o` opens the link;
/// the other keys move the view.
pub open spec fn view_keys_ok(b: App, a: App, e0: Seq<Effect>, e1: Seq<Effect>, input: InputEvent) -> bool {
    match input {
        InputEvent::Key(Key::Char('n')) => if b.selected_article + 1 < b.visible().len() {
            marked_current(
                App { selected_article: (b.selected_article + 1) as usize, article_scroll: 0, pending_redraw: true, ..b },
                a,
                e0,
                e1,
            )
        } else {
            a == b && e1 == e0
        },
        InputEvent::Key(Key::Char('p')) => if b.selected_article > 0 {
            marked_current(
                App { selected_article: (b.selected_article - 1) as usize, article_scroll: 0, pending_redraw: true, ..b },
                a,
                e0,
                e1,
            )
        } else {
            a == b && e1 == e0
        },
        InputEvent::Key(Key::Char('u')) => toggled_current(b, a, e0, e1),
        InputEvent::Key(Key::Char('o')) => a == b && opened_current(b, e0, e1),
        _ => a == view_key_step(b, input) && e1 == e0,
    }
}

impl App {
    /// Handles a key on the log screen.
    pub fn handle_log_keys(&mut self, input: InputEvent)
        ensures
            *final(self) == log_key_step(*old(self), input),
    {
        match input {
            InputEvent::Key(Key::Char('q')) => {
                self.screen = Screen::FeedList;
                self.pending_redraw = true;
            },
            InputEvent::Key(Key::Down) | InputEvent::Key(Key::Char('j')) => {
                self.log_scroll = self.log_scroll.saturating_add(1);
                self.pending_redraw = true;
            },
            InputEvent::Key(Key::Up) | InputEvent::Key(Key::Char('k')) => {
                self.log_scroll = self.log_scroll.saturating_sub(1);
                self.pending_redraw = true;
            },
            InputEvent::Mouse(MouseEvent::ScrollDown) | InputEvent::Key(Key::PageDown) => {
                self.log_scroll = self.log_scroll.saturating_add(15);
                self.pending_redraw = true;
            },
            InputEvent::Mouse(MouseEvent::ScrollUp) | InputEvent::Key(Key::PageUp) => {
                self.log_scroll = self.log_scroll.saturating_sub(15);
                self.pending_redraw = true;
            },
            InputEvent::Key(Key::Home) => {
                self.log_scroll = 0;
                self.pending_redraw = true;
            },
            InputEvent::Key(Key::End) => {
                self.log_scroll = usize::MAX;
                self.pending_redraw = true;
            },
            InputEvent::Key(Key::Char('n')) => {
                self.log_tab = LogTab::News;
                self.log_scroll = 0;
                self.pending_redraw = true;
            },
            InputEvent::Key(Key::Char('d')) => {
                self.log_tab = LogTab::Debug;
                self.log_scroll = 0;
                self.pending_redraw = true;
            },
            _ => {},
        }
    }

    /// Handles a key on the article screen.
    pub fn handle_article_view_keys(&mut self, input: InputEvent, effects: &mut Vec<Effect>)
        ensures
            view_keys_ok(*old(self), *final(self), old(effects)@, final(effects)@, input),
    {
        match input {
            InputEvent::Key(Key::Char('q')) => {
                self.screen = Screen::ArticleList;
                self.pending_redraw = true;
            },
            InputEvent::Key(Key::Down) | InputEvent::Key(Key::Char('j')) => {
                self.article_scroll = self.article_scroll.saturating_add(1);
                self.pending_redraw = true;
            },
            InputEvent::Key(Key::Up) | InputEvent::Key(Key::Char('k')) => {
                self.article_scroll = self.article_scroll.saturating_sub(1);
                self.pending_redraw = true;
            },
            InputEvent::Mouse(MouseEvent::ScrollDown) | InputEvent::Key(Key::PageDown) | InputEvent::Key(
                Key::Char(' '),
            ) => {
                self.article_scroll = self.article_scroll.saturating_add(15);
                self.pending_redraw = true;
            },
            InputEvent::Mouse(MouseEvent::ScrollUp) | InputEvent::Key(Key::PageUp) => {
                self.article_scroll = self.article_scroll.saturating_sub(15);
                self.pending_redraw = true;
            },
            InputEvent::Key(Key::Char('n')) => {
                let visible = self.filtered_article_indices();
                if self.selected_article < visible.len() && self.selected_article + 1 < visible.len() {
                    self.selected_article = self.selected_article + 1;
                    self.article_scroll = 0;
                    self.pending_redraw = true;
                    self.mark_current_article_read(effects);
                }
            },
            InputEvent::Key(Key::Char('p')) => {
                if self.selected_article > 0 {
                    self.selected_article = self.selected_article - 1;
                    self.article_scroll = 0;
                    self.pending_redraw = true;
                    self.mark_current_article_read(effects);
                }
            },
            InputEvent::Key(Key::Char('u')) => self.toggle_current_read(effects),
            InputEvent::Key(Key::Char('o')) => self.open_current_article(effects),
            _ => {},
        }
    }
}

/// The effects that ask the worker to mark each row's feed read.
pub open spec fn mark_all_effects(rows: Seq<FeedRow>) -> Seq<Effect> {
    Seq::new(rows.len(), |k: int| Effect::Send(BackendCommand::MarkFeedRead { feed_url: rows[k].url }))
}

/// The smaller of two numbers.
pub open spec fn min_int(a: int, b: int) -> int {
    if a <= b {
        a
    } else {
        b
    }
}

/// Whether `a` is `b` with a new status and redrawn.
pub open spec fn with_status(b: App, a: App, status: Seq<char>) -> bool {
    &&& a.status@ == status
    &&& a == (App { status: a.status, pending_redraw: true, ..b })
}

/// Whether `a` and `e1` are what a key on the article list gives from
/// `b`. The cursor keys and the wheel move the selection, the paging keys
/// by a page, `Home` and `End` to either end; `Enter` and a click on an
/// article open it and mark it read; `/` starts a search; `g` asks for
/// the list's feeds to be fetched; `u` flips the read flag; `o` opens
/// the link; `q` goes back to the feed list.
pub open spec fn list_keys_ok(b: App, a: App, e0: Seq<Effect>, e1: Seq<Effect>, input: InputEvent) -> bool {
    match input {
        InputEvent::Key(Key::Char('q')) => a == (App {
            screen: Screen::FeedList,
            selected_feed_scope: None,
            pending_redraw: true, ..b
        }) && e1 == e0,
        InputEvent::Key(Key::Down) | InputEvent::Key(Key::Char('j')) | InputEvent::Key(Key::Char('n'))
        | InputEvent::Mouse(MouseEvent::ScrollDown) => e1 == e0 && if b.selected_article + 1 < b.visible().len() {
            a == (App { selected_article: (b.selected_article + 1) as usize, pending_redraw: true, ..b })
        } else {
            a == b
        },
        InputEvent::Key(Key::Up) | InputEvent::Key(Key::Char('k')) | InputEvent::Key(Key::Char('p'))
        | InputEvent::Mouse(MouseEvent::ScrollUp) => e1 == e0 && if b.selected_article > 0 {
            a == (App { selected_article: (b.selected_article - 1) as usize, pending_redraw: true, ..b })
        } else {
            a == b
        },
        InputEvent::Mouse(MouseEvent::LeftClick { row }) => if row >= 3 && b.list_start(b.selected_article)
            + row - 3 < b.visible().len() {
            marked_current(b.opened_at(b.list_start(b.selected_article) + row - 3), a, e0, e1)
        } else {
            a == b && e1 == e0
        },
        InputEvent::Key(Key::Enter) => if b.visible().len() > 0 {
            marked_current(App { article_scroll: 0, screen: Screen::ArticleView, pending_redraw: true, ..b }, a, e0, e1)
        } else {
            a == b && e1 == e0
        },
        InputEvent::Key(Key::PageDown) => e1 == e0 && if b.visible().len() > 0 {
            a == (App { selected_article: min_int(b.selected_article + b.page_step(), b.visible().len() - 1) as usize, pending_redraw: true, ..b })
        } else {
            a == b
        },
        InputEvent::Key(Key::PageUp) => e1 == e0 && if b.visible().len() > 0 {
            a == (App { selected_article: sat(b.selected_article as int, b.page_step()) as usize, pending_redraw: true, ..b })
        } else {
            a == b
        },
        InputEvent::Key(Key::Home) => e1 == e0 && if b.visible().len() > 0 {
            a == (App { selected_article: 0, pending_redraw: true, ..b })
        } else {
            a == b
        },
        InputEvent::Key(Key::End) => e1 == e0 && if b.visible().len() > 0 {
            a == (App { selected_article: (b.visible().len() - 1) as usize, pending_redraw: true, ..b })
        } else {
            a == b
        },
        InputEvent::Key(Key::Char('/')) => a == (App { search_mode: true, pending_redraw: true, ..b }) && e1 == e0,
        InputEvent::Key(Key::Char('g')) => match b.selected_feed_scope {
            Some(FeedScope::Feed(url)) => with_status(b, a, "Refreshing feed..."@) && e1 == e0.push(
                Effect::Send(BackendCommand::FetchFeed { url }),
            ),
            Some(_) => with_status(b, a, "Refreshing feeds..."@) && e1 == e0.push(
                Effect::Send(BackendCommand::FetchAllFeeds),
            ),
            None => a == b && e1 == e0,
        },
        InputEvent::Key(Key::Char('u')) => toggled_current(b, a, e0, e1),
        InputEvent::Key(Key::Char('o')) => a == b && opened_current(b, e0, e1),
        _ => a == b && e1 == e0,
    }
}

/// Whether `a` and `e1` are what a key on the feed list gives from `b`.
/// The cursor keys move the selection, a click selects a line; `Enter`
/// opens the selected feed, `[All]` or `[Unread]` as an article list
/// loaded from the cache (or the log, from its line); `g` asks for every
/// feed to be fetched; `u` asks for the selected feed, or every feed from
/// the combined lines, to be marked read; `q` quits.
pub open spec fn feed_keys_ok(
    b: App,
    a: App,
    e0: Seq<Effect>,
    e1: Seq<Effect>,
    input: InputEvent,
    c: Cache,
) -> bool {
    match input {
        InputEvent::Key(Key::Char('q')) => a == (App { quitting: true, ..b }) && e1 == e0,
        InputEvent::Key(Key::Down) | InputEvent::Key(Key::Char('j')) | InputEvent::Key(Key::Char('n')) => e1
            == e0 && if b.selected_feed + 1 < b.row_count() {
            a == (App { selected_feed: (b.selected_feed + 1) as usize, pending_redraw: true, ..b })
        } else {
            a == b
        },
        InputEvent::Key(Key::Up) | InputEvent::Key(Key::Char('k')) | InputEvent::Key(Key::Char('p')) => e1
            == e0 && if b.selected_feed > 0 {
            a == (App { selected_feed: (b.selected_feed - 1) as usize, pending_redraw: true, ..b })
        } else {
            a == b
        },
        InputEvent::Mouse(MouseEvent::LeftClick { row }) => {
            e1 == e0 && if row >= 2 && b.list_start(b.selected_feed) + row - 2 < b.row_count() {
                a == (App { selected_feed: (b.list_start(b.selected_feed) + row - 2) as usize, pending_redraw: true, ..b })
            } else {
                a == b
            }
        },
        InputEvent::Key(Key::Enter) => e1 == e0 && if b.selected_feed == b.log_row() {
            a == (App { screen: Screen::Log, log_scroll: 0, pending_redraw: true, ..b })
        } else {
            &&& a.search@.len() == 0
            &&& reload_ok(
                App {
                    selected_feed_scope: Some(b.scope_for()),
                    selected_article: 0,
                    article_scroll: 0,
                    search: a.search,
                    screen: Screen::ArticleList,
                    pending_redraw: true, ..b
                },
                c,
                a,
            )
        },
        InputEvent::Key(Key::Char('g')) => with_status(b, a, "Refreshing feeds..."@) && e1 == e0.push(
            Effect::Send(BackendCommand::FetchAllFeeds),
        ),
        InputEvent::Key(Key::Char('u')) => if b.selected_feed == b.log_row() {
            a == b && e1 == e0
        } else {
            match b.scope_for() {
                FeedScope::Feed(url) => match row_from(b.feeds@, url@, 0) {
                    Some(k) => with_status(b, a, "Marking "@ + b.feeds@[k].name@ + " read..."@) && e1
                        == e0.push(Effect::Send(BackendCommand::MarkFeedRead { feed_url: b.feeds@[k].url })),
                    None => a == b && e1 == e0,
                },
                _ => with_status(b, a, "Marking all feeds read..."@) && e1 == e0 + mark_all_effects(b.feeds@),
            }
        },
        _ => a == b && e1 == e0,
    }
}

impl App {
    /// Goes back from the article list to the feed list.
    fn leave_article_list(&mut self)
        ensures
            *final(self) == (App { screen: Screen::FeedList, selected_feed_scope: None, pending_redraw: true, ..*old(self) }),
    {
        self.screen = Screen::FeedList;
        self.selected_feed_scope = None;
        self.pending_redraw = true;
    }

    /// Opens the article on the clicked line of the list.
    fn click_article(&mut self, row: usize, effects: &mut Vec<Effect>)
        ensures
            if row >= 3 && old(self).list_start(old(self).selected_article) + row - 3 < old(self).visible().len() {
                marked_current(
                    old(self).opened_at(old(self).list_start(old(self).selected_article) + row - 3),
                    *final(self),
                    old(effects)@,
                    final(effects)@,
                )
            } else {
                *final(self) == *old(self) && final(effects)@ == old(effects)@
            },
    {
        if row >= 3 {
            let list_rows = self.article_list_rows();
            let start = self.selected_article.saturating_sub(list_rows.saturating_sub(1));
            let visible = self.filtered_article_indices();
            let n = visible.len();
            match start.checked_add(row - 3) {
                Some(idx) => {
                    if idx < n {
                        self.selected_article = idx;
                        self.article_scroll = 0;
                        self.screen = Screen::ArticleView;
                        self.pending_redraw = true;
                        assert(*self == old(self).opened_at(
                            old(self).list_start(old(self).selected_article) + row - 3,
                        ));
                        self.mark_current_article_read(effects);
                    }
                },
                None => {},
            }
        }
    }

    /// Handles a key on the article list.
    #[verifier::rlimit(30)]
    pub fn handle_article_list_keys(&mut self, input: InputEvent, effects: &mut Vec<Effect>)
        ensures
            list_keys_ok(*old(self), *final(self), old(effects)@, final(effects)@, input),
    {
        match input {
            InputEvent::Key(Key::Char('q')) => {
                self.leave_article_list();
            },
            InputEvent::Key(Key::Down) | InputEvent::Key(Key::Char('j')) | InputEvent::Key(Key::Char('n'))
            | InputEvent::Mouse(MouseEvent::ScrollDown) => {
                let visible = self.filtered_article_indices();
                if self.selected_article < visible.len() && self.selected_article + 1 < visible.len() {
                    self.selected_article = self.selected_article + 1;
                    self.pending_redraw = true;
                }
            },
            InputEvent::Key(Key::Up) | InputEvent::Key(Key::Char('k')) | InputEvent::Key(Key::Char('p'))
            | InputEvent::Mouse(MouseEvent::ScrollUp) => {
                if self.selected_article > 0 {
                    self.selected_article = self.selected_article - 1;
                    self.pending_redraw = true;
                }
            },
            InputEvent::Mouse(MouseEvent::LeftClick { row }) => {
                self.click_article(row, effects);
                assert(list_keys_ok(*old(self), *self, old(effects)@, effects@, input));
            },
            InputEvent::Key(Key::Enter) => {
                let visible = self.filtered_article_indices();
                if visible.len() > 0 {
                    self.article_scroll = 0;
                    self.screen = Screen::ArticleView;
                    self.pending_redraw = true;
                    self.mark_current_article_read(effects);
                }
                assert(list_keys_ok(*old(self), *self, old(effects)@, effects@, input));
            },
            InputEvent::Key(Key::PageDown) => {
                let visible = self.filtered_article_indices();
                if visible.len() > 0 {
                    let rows = self.article_list_rows();
                    let step = if rows >= 1 {
                        rows
                    } else {
                        1
                    };
                    let target = self.selected_article.saturating_add(step);
                    self.selected_article = if target <= visible.len() - 1 {
                        target
                    } else {
                        visible.len() - 1
                    };
                    self.pending_redraw = true;
                }
            },
            InputEvent::Key(Key::PageUp) => {
                let visible = self.filtered_article_indices();
                if visible.len() > 0 {
                    let rows = self.article_list_rows();
                    let step = if rows >= 1 {
                        rows
                    } else {
                        1
                    };
                    self.selected_article = self.selected_article.saturating_sub(step);
                    self.pending_redraw = true;
                }
            },
            InputEvent::Key(Key::Home) => {
                let visible = self.filtered_article_indices();
                if visible.len() > 0 {
                    self.selected_article = 0;
                    self.pending_redraw = true;
                }
            },
            InputEvent::Key(Key::End) => {
                let visible = self.filtered_article_indices();
                if visible.len() > 0 {
                    self.selected_article = visible.len() - 1;
                    self.pending_redraw = true;
                }
            },
            InputEvent::Key(Key::Char('/')) => {
                self.search_mode = true;
                self.pending_redraw = true;
            },
            InputEvent::Key(Key::Char('g')) => {
                let cmd = match &self.selected_feed_scope {
                    Some(FeedScope::Feed(url)) => Some(
                        (BackendCommand::FetchFeed { url: url.clone() }, "Refreshing feed..."),
                    ),
                    Some(_) => Some((BackendCommand::FetchAllFeeds, "Refreshing feeds...")),
                    None => None,
                };
                match cmd {
                    Some((c, text)) => {
                        effects.push(Effect::Send(c));
                        self.status = text.to_owned();
                        self.pending_redraw = true;
                        proof {
                            reveal_strlit("Refreshing feed...");
                            reveal_strlit("Refreshing feeds...");
                        }
                    },
                    None => {},
                }
                assert(list_keys_ok(*old(self), *self, old(effects)@, effects@, input));
            },
            InputEvent::Key(Key::Char('u')) => {
                self.toggle_current_read(effects);
                assert(list_keys_ok(*old(self), *self, old(effects)@, effects@, input));
            },
            InputEvent::Key(Key::Char('o')) => {
                self.open_current_article(effects);
                assert(list_keys_ok(*old(self), *self, old(effects)@, effects@, input));
            },
            _ => {},
        }
    }

    /// Handles a key on the feed list.
    #[verifier::rlimit(30)]
    pub fn handle_feed_keys(&mut self, input: InputEvent, cache: &Cache, effects: &mut Vec<Effect>)
        requires
            old(self).fits(),
        ensures
            feed_keys_ok(*old(self), *final(self), old(effects)@, final(effects)@, input, *cache),
    {
        match input {
            InputEvent::Key(Key::Char('q')) => {
                self.quitting = true;
            },
            InputEvent::Key(Key::Down) | InputEvent::Key(Key::Char('j')) | InputEvent::Key(Key::Char('n')) => {
                if self.selected_feed < self.feed_row_count() && self.selected_feed + 1 < self.feed_row_count() {
                    self.selected_feed = self.selected_feed + 1;
                    self.pending_redraw = true;
                }
            },
            InputEvent::Key(Key::Up) | InputEvent::Key(Key::Char('k')) | InputEvent::Key(Key::Char('p')) => {
                if self.selected_feed > 0 {
                    self.selected_feed = self.selected_feed - 1;
                    self.pending_redraw = true;
                }
            },
            InputEvent::Mouse(MouseEvent::LeftClick { row }) => {
                if row >= 2 {
                    let list_rows = self.feed_list_rows();
                    let start = self.selected_feed.saturating_sub(list_rows.saturating_sub(1));
                    match start.checked_add(row - 2) {
                        Some(idx) => {
                            if idx < self.feed_row_count() {
                                self.selected_feed = idx;
                                self.pending_redraw = true;
                            }
                        },
                        None => {},
                    }
                }
            },
            InputEvent::Key(Key::Enter) => {
                if self.selected_feed == self.log_row_index() {
                    self.screen = Screen::Log;
                    self.log_scroll = 0;
                    self.pending_redraw = true;
                } else {
                    self.selected_feed_scope = Some(self.scope_for_selected_feed());
                    self.selected_article = 0;
                    self.article_scroll = 0;
                    self.search = String::new();
                    self.screen = Screen::ArticleList;
                    self.pending_redraw = true;
                    self.reload_articles(cache);
                }
            },
            InputEvent::Key(Key::Char('g')) => {
                effects.push(Effect::Send(BackendCommand::FetchAllFeeds));
                self.status = "Refreshing feeds...".to_owned();
                self.pending_redraw = true;
                proof {
                    reveal_strlit("Refreshing feeds...");
                }
            },
            InputEvent::Key(Key::Char('u')) => {
                if self.selected_feed != self.log_row_index() {
                    match self.scope_for_selected_feed() {
                        FeedScope::Feed(url) => {
                            match find_feed_row(&self.feeds, url.as_str()) {
                                Some(k) => {
                                    effects.push(
                                        Effect::Send(BackendCommand::MarkFeedRead { feed_url: self.feeds[k].url.clone() }),
                                    );
                                    let mut m = "Marking ".to_owned();
                                    m.append(self.feeds[k].name.as_str());
                                    m.append(" read...");
                                    self.status = m;
                                    self.pending_redraw = true;
                                    proof {
                                        reveal_strlit("Marking ");
                                        reveal_strlit(" read...");
                                    }
                                },
                                None => {},
                            }
                        },
                        _ => {
                            let mut k: usize = 0;
                            while k < self.feeds.len()
                                invariant
                                    k <= self.feeds@.len(),
                                    self.feeds@ == old(self).feeds@,
                                    effects@ == old(effects)@ + mark_all_effects(self.feeds@).take(k as int),
                                decreases self.feeds.len() - k,
                            {
                                effects.push(
                                    Effect::Send(BackendCommand::MarkFeedRead { feed_url: self.feeds[k].url.clone() }),
                                );
                                assert(mark_all_effects(self.feeds@).take(k + 1) =~= mark_all_effects(
                                    self.feeds@,
                                ).take(k as int).push(mark_all_effects(self.feeds@)[k as int]));
                                k = k + 1;
                            }
                            assert(mark_all_effects(self.feeds@).take(self.feeds@.len() as int) =~= mark_all_effects(
                                self.feeds@,
                            ));
                            self.status = "Marking all feeds read...".to_owned();
                            self.pending_redraw = true;
                            proof {
                                reveal_strlit("Marking all feeds read...");
                            }
                        },
                    }
                }
            },
            _ => {},
        }
    }
}

/// Whether `a` is what a key gives from `b` while a search is typed:
/// `Enter` ends the search, `Backspace` takes off its last character, a
/// printable character is added; each goes back to the first article.
pub open spec fn search_edit(b: App, a: App, input: InputEvent) -> bool {
    match input {
        InputEvent::Key(Key::Enter) => a == (App { search_mode: false, selected_article: 0, pending_redraw: true, ..b }),
        InputEvent::Key(Key::Backspace) => {
            &&& a.search@ == if b.search@.len() > 0 {
                b.search@.drop_last()
            } else {
                b.search@
            }
            &&& a == (App { search: a.search, selected_article: 0, pending_redraw: true, ..b })
        },
        InputEvent::Key(Key::Char(c)) => if !is_control_char(c) {
            &&& a.search@ == b.search@.push(c)
            &&& a == (App { search: a.search, selected_article: 0, pending_redraw: true, ..b })
        } else {
            a == b
        },
        _ => a == b,
    }
}

/// Whether `a`, `e1` and `quit` are what one input event gives from `b`.
/// Once quitting, every event answers quit. `?` opens the help, which
/// only `q` leaves; while a search is typed the keys edit it; otherwise
/// the screen's own keys apply.
pub open spec fn input_ok(
    b: App,
    a: App,
    e0: Seq<Effect>,
    e1: Seq<Effect>,
    input: InputEvent,
    c: Cache,
    quit: bool,
) -> bool {
    if b.quitting {
        quit && a == b && e1 == e0
    } else if input == InputEvent::Key(Key::Char('?')) && b.screen != Screen::Help {
        !quit && e1 == e0 && a == (App { screen: Screen::Help, pending_redraw: true, ..b })
    } else if b.screen == Screen::Help {
        &&& !quit
        &&& e1 == e0
        &&& if input == InputEvent::Key(Key::Char('q')) {
            a == (App {
                screen: if b.selected_feed_scope is Some {
                    Screen::ArticleList
                } else {
                    Screen::FeedList
                },
                pending_redraw: true, ..b
            })
        } else {
            a == b
        }
    } else if b.search_mode {
        !quit && e1 == e0 && search_edit(b, a, input)
    } else {
        &&& quit == a.quitting
        &&& match b.screen {
            Screen::FeedList => feed_keys_ok(b, a, e0, e1, input, c),
            Screen::ArticleList => list_keys_ok(b, a, e0, e1, input),
            Screen::ArticleView => view_keys_ok(b, a, e0, e1, input),
            Screen::Log => a == log_key_step(b, input) && e1 == e0,
            Screen::Help => a == b && e1 == e0,
        }
    }
}

impl App {
    /// Handles one input event; answers whether the interface should quit.
    pub fn handle_input(&mut self, input: InputEvent, cache: &Cache, effects: &mut Vec<Effect>) -> (quit: bool)
        requires
            old(self).fits(),
        ensures
            input_ok(*old(self), *final(self), old(effects)@, final(effects)@, input, *cache, quit),
    {
        if self.quitting {
            return true;
        }
        let is_help = match self.screen {
            Screen::Help => true,
            _ => false,
        };
        match input {
            InputEvent::Key(Key::Char('?')) => {
                if !is_help {
                    self.screen = Screen::Help;
                    self.pending_redraw = true;
                    return false;
                }
            },
            _ => {},
        }
        if is_help {
            match input {
                InputEvent::Key(Key::Char('q')) => {
                    self.screen = match self.selected_feed_scope {
                        Some(_) => Screen::ArticleList,
                        None => Screen::FeedList,
                    };
                    self.pending_redraw = true;
                },
                _ => {},
            }
            return false;
        }
        if self.search_mode {
            match input {
                InputEvent::Key(Key::Enter) => {
                    self.search_mode = false;
                    self.selected_article = 0;
                    self.pending_redraw = true;
                },
                InputEvent::Key(Key::Backspace) => {
                    let cs = crate::text::chars_of(self.search.as_str());
                    let keep = if cs.len() > 0 {
                        cs.len() - 1
                    } else {
                        0
                    };
                    let mut kept: Vec<char> = Vec::new();
                    let mut i: usize = 0;
                    while i < keep
                        invariant
                            i <= keep,
                            keep <= cs@.len(),
                            kept@ == cs@.take(i as int),
                        decreases keep - i,
                    {
                        kept.push(cs[i]);
                        assert(cs@.take(i + 1) =~= cs@.take(i as int).push(cs@[i as int]));
                        i = i + 1;
                    }
                    self.search = crate::text::string_of(kept.as_slice());
                    assert(self.search@ =~= if old(self).search@.len() > 0 {
                        old(self).search@.drop_last()
                    } else {
                        old(self).search@
                    });
                    self.selected_article = 0;
                    self.pending_redraw = true;
                },
                InputEvent::Key(Key::Char(c)) => {
                    if !is_control(c) {
                        crate::text::push_char(&mut self.search, c);
                        self.selected_article = 0;
                        self.pending_redraw = true;
                    }
                },
                _ => {},
            }
            return false;
        }
        match self.screen {
            Screen::FeedList => self.handle_feed_keys(input, cache, effects),
            Screen::ArticleList => self.handle_article_list_keys(input, effects),
            Screen::ArticleView => self.handle_article_view_keys(input, effects),
            Screen::Log => self.handle_log_keys(input),
            Screen::Help => {},
        }
        self.quitting
    }
}

/// Whether the article list of the scope holds the feed's articles: the
/// feed's own list or a combined one.
pub open spec fn scope_shows(scope: Option<FeedScope>, url: Seq<char>) -> bool {
    match scope {
        Some(FeedScope::Feed(u)) => u@ == url,
        Some(_) => true,
        None => false,
    }
}

/// The status line after a successful refresh of a feed.
pub open spec fn refreshed_status(r: FeedRefreshReport) -> Seq<char> {
    if r.new_articles == 0 {
        r.feed_name@ + ": no new items"@
    } else {
        r.feed_name@ + ": "@ + decimal(r.new_articles as nat) + " new item(s), "@ + decimal(r.total as nat)
            + " total ("@ + decimal(r.unread as nat) + " unread)"@
    }
}

/// Whether `d` is a display date for the fetch time `t`.
pub open spec fn fetched_display(t: Option<String>, d: Option<String>) -> bool {
    match t {
        Some(s) => display_outcome(trim_seq(s@), d),
        None => d is None,
    }
}

/// The rows with the first one with the URL marked with a fetch error.
pub open spec fn rows_with_error(rows: Seq<FeedRow>, url: Seq<char>, e: String) -> Seq<FeedRow> {
    match row_from(rows, url, 0) {
        Some(k) => rows.update(k, FeedRow { last_error: Some(e), ..rows[k] }),
        None => rows,
    }
}

/// Whether `new` is `rows` with the first row with the report's URL
/// taking its counts, a display date of its fetch time, and no error.
pub open spec fn rows_refreshed(rows: Seq<FeedRow>, new: Seq<FeedRow>, r: FeedRefreshReport) -> bool {
    match row_from(rows, r.feed_url@, 0) {
        Some(k) => {
            &&& new == rows.update(
                k,
                FeedRow {
                    total: r.total,
                    unread: r.unread,
                    last_updated: new[k].last_updated,
                    last_error: None,
                    ..rows[k]
                },
            )
            &&& fetched_display(r.fetched_at, new[k].last_updated)
        },
        None => new == rows,
    }
}

/// Whether the article list of `a` is that of `b`, reloaded from the
/// cache if the list shows the feed, and left alone otherwise.
pub open spec fn list_after_refresh(b: App, a: App, url: Seq<char>, c: Cache) -> bool {
    if scope_shows(b.selected_feed_scope, url) {
        reload_ok(
            App { feeds: a.feeds, ..b },
            c,
            App { feeds: a.feeds, articles: a.articles, selected_article: a.selected_article, ..b },
        )
    } else {
        a.articles == b.articles && a.selected_article == b.selected_article
    }
}

/// Whether `a` is what one refresh report makes of `b`: a failed fetch
/// marks the feed's line and reports the error; a successful one updates
/// the line's counts and date, reloads the list if it shows the feed,
/// records the fetch time and reports what came in.
pub open spec fn report_applied(b: App, a: App, r: FeedRefreshReport, c: Cache) -> bool {
    match r.error {
        Some(e) => {
            &&& a.feeds@ == rows_with_error(b.feeds@, r.feed_url@, e)
            &&& a.status@ == "Fetch error: "@ + e@
            &&& a == (App { feeds: a.feeds, status: a.status, pending_redraw: true, ..b })
        },
        None => {
            &&& rows_refreshed(b.feeds@, a.feeds@, r)
            &&& a.status@ == refreshed_status(r)
            &&& list_after_refresh(b, a, r.feed_url@, c)
            &&& a == (App {
                feeds: a.feeds,
                articles: a.articles,
                selected_article: a.selected_article,
                last_updated: r.fetched_at,
                status: a.status,
                pending_redraw: true,
                ..b
            })
        },
    }
}

/// Whether `a` is what the reports make of `b`, one after the other.
pub open spec fn reports_applied(b: App, a: App, rs: Seq<FeedRefreshReport>, c: Cache) -> bool {
    exists|st: Seq<App>|
        st.len() == rs.len() + 1 && st[0] == b && st[rs.len() as int] == a && forall|i: int|
            0 <= i < rs.len() ==> report_applied(#[trigger] st[i], st[i + 1], rs[i], c)
}

/// The articles, all marked read.
pub open spec fn all_read(arts: Seq<Article>) -> Seq<Article> {
    Seq::new(arts.len(), |i: int| with_read(arts[i], true))
}

/// The rows with the first one with the URL showing no unread article.
pub open spec fn rows_read(rows: Seq<FeedRow>, url: Seq<char>) -> Seq<FeedRow> {
    match row_from(rows, url, 0) {
        Some(k) => rows.update(k, FeedRow { unread: 0, ..rows[k] }),
        None => rows,
    }
}

/// Whether `a` is what the news that a feed was marked read makes of
/// `b`: the feed's line shows no unread article, and the list is marked
/// read if it is the feed's own, or reloaded if it is a combined one.
pub open spec fn feed_marked(b: App, a: App, url: Seq<char>, c: Cache) -> bool {
    &&& a.feeds@ == rows_read(b.feeds@, url)
    &&& a.status@ == "Marked feed as read"@
    &&& match b.selected_feed_scope {
        Some(FeedScope::Feed(u)) => a.selected_article == b.selected_article && if u@ == url {
            a.articles@ == all_read(b.articles@)
        } else {
            a.articles == b.articles
        },
        Some(_) => reload_ok(
            App { feeds: a.feeds, ..b },
            c,
            App { feeds: a.feeds, articles: a.articles, selected_article: a.selected_article, ..b },
        ),
        None => a.articles == b.articles && a.selected_article == b.selected_article,
    }
    &&& a == (App {
        feeds: a.feeds,
        articles: a.articles,
        selected_article: a.selected_article,
        status: a.status,
        pending_redraw: true,
        ..b
    })
}

/// Whether `a` is what an answer of the worker makes of `b`.
pub open spec fn backend_ok(b: App, a: App, msg: BackendResponse, c: Cache) -> bool {
    match msg {
        BackendResponse::RefreshCompleted { reports } => reports_applied(b, a, reports@, c),
        BackendResponse::ArticleMutation { hash, read } => read_set(b, a, hash@, read, true),
        BackendResponse::FeedMarkedRead { feed_url } => feed_marked(b, a, feed_url@, c),
    }
}

impl App {
    /// Applies one refresh report.
    fn apply_report(&mut self, r: &FeedRefreshReport, cache: &Cache)
        ensures
            report_applied(*old(self), *final(self), *r, *cache),
    {
        match &r.error {
            Some(e) => {
                match find_feed_row(&self.feeds, r.feed_url.as_str()) {
                    Some(k) => {
                        let mut row = self.feeds[k].duplicate();
                        row.last_error = Some(e.clone());
                        self.feeds.set(k, row);
                    },
                    None => {},
                }
                assert(self.feeds@ =~= rows_with_error(old(self).feeds@, r.feed_url@, *e));
                self.status = crate::text::concat("Fetch error: ", e.as_str());
                self.pending_redraw = true;
                proof {
                    reveal_strlit("Fetch error: ");
                }
            },
            None => {
                match find_feed_row(&self.feeds, r.feed_url.as_str()) {
                    Some(k) => {
                        let mut row = self.feeds[k].duplicate();
                        row.total = r.total;
                        row.unread = r.unread;
                        row.last_updated = match &r.fetched_at {
                            Some(t) => crate::datetime::normalize_datetime_to_local(t.as_str()),
                            None => None,
                        };
                        row.last_error = None;
                        self.feeds.set(k, row);
                        assert(rows_refreshed(old(self).feeds@, self.feeds@, *r));
                    },
                    None => {},
                }
                let ghost refreshed = *self;
                let shows = match &self.selected_feed_scope {
                    Some(FeedScope::Feed(u)) => crate::text::same_text(u.as_str(), r.feed_url.as_str()),
                    Some(_) => true,
                    None => false,
                };
                if shows {
                    self.reload_articles(cache);
                }
                self.last_updated = crate::feed::copy_opt(&r.fetched_at);
                self.status = refreshed_status_text(r);
                self.pending_redraw = true;
            },
        }
    }

    /// Applies an answer of the background worker.
    pub fn handle_backend(&mut self, msg: BackendResponse, cache: &Cache)
        ensures
            backend_ok(*old(self), *final(self), msg, *cache),
    {
        match msg {
            BackendResponse::RefreshCompleted { reports } => {
                let ghost mut st: Seq<App> = seq![*self];
                let mut i: usize = 0;
                while i < reports.len()
                    invariant
                        i <= reports@.len(),
                        st.len() == i + 1,
                        st[0] == *old(self),
                        st[i as int] == *self,
                        forall|j: int| 0 <= j < i ==> report_applied(#[trigger] st[j], st[j + 1], reports@[j], *cache),
                    decreases reports.len() - i,
                {
                    self.apply_report(&reports[i], cache);
                    proof {
                        st = st.push(*self);
                    }
                    i = i + 1;
                }
                assert(reports_applied(*old(self), *self, reports@, *cache));
                assert(backend_ok(*old(self), *self, msg, *cache));
            },
            BackendResponse::ArticleMutation { hash, read } => {
                self.pending_redraw = true;
                self.set_read(hash.as_str(), read);
                assert(backend_ok(*old(self), *self, msg, *cache));
            },
            BackendResponse::FeedMarkedRead { feed_url } => {
                match find_feed_row(&self.feeds, feed_url.as_str()) {
                    Some(k) => {
                        let mut row = self.feeds[k].duplicate();
                        row.unread = 0;
                        self.feeds.set(k, row);
                    },
                    None => {},
                }
                assert(self.feeds@ =~= rows_read(old(self).feeds@, feed_url@));
                let which: u8 = match &self.selected_feed_scope {
                    Some(FeedScope::Feed(u)) => if crate::text::same_text(u.as_str(), feed_url.as_str()) {
                        1
                    } else {
                        0
                    },
                    Some(_) => 2,
                    None => 0,
                };
                if which == 1 {
                    let mut j: usize = 0;
                    while j < self.articles.len()
                        invariant
                            j <= self.articles@.len(),
                            self.articles@.len() == old(self).articles@.len(),
                            forall|x: int| 0 <= x < j ==> self.articles@[x] == with_read(old(self).articles@[x], true),
                            forall|x: int| j <= x < self.articles@.len() ==> self.articles@[x] == old(self).articles@[x],
                            *self == (App { feeds: self.feeds, articles: self.articles, ..*old(self) }),
                            self.feeds@ == rows_read(old(self).feeds@, feed_url@),
                            which == 1,
                            old(self).selected_feed_scope matches Some(FeedScope::Feed(u)) && u@ == feed_url@,
                        decreases self.articles.len() - j,
                    {
                        let a = self.articles[j].duplicate();
                        self.articles.set(j, Article { read: true, ..a });
                        j = j + 1;
                    }
                    assert(self.articles@ =~= all_read(old(self).articles@));
                } else if which == 2 {
                    self.reload_articles(cache);
                }
                self.status = "Marked feed as read".to_owned();
                self.pending_redraw = true;
                proof {
                    reveal_strlit("Marked feed as read");
                }
                assert(backend_ok(*old(self), *self, msg, *cache));
            },
        }
    }
}

/// The status line after a successful refresh of a feed.
fn refreshed_status_text(r: &FeedRefreshReport) -> (s: String)
    ensures
        s@ == refreshed_status(*r),
{
    proof {
        reveal_strlit(": no new items");
        reveal_strlit(": ");
        reveal_strlit(" new item(s), ");
        reveal_strlit(" total (");
        reveal_strlit(" unread)");
    }
    if r.new_articles == 0 {
        crate::text::concat(r.feed_name.as_str(), ": no new items")
    } else {
        let mut s = crate::text::concat(r.feed_name.as_str(), ": ");
        s.append(crate::text::decimal_string(r.new_articles).as_str());
        s.append(" new item(s), ");
        s.append(crate::text::decimal_string(r.total).as_str());
        s.append(" total (");
        s.append(crate::text::decimal_string(r.unread).as_str());
        s.append(" unread)");
        s
    }
}

/// A configured color, when it is present and reads as `#RRGGBB`.
pub open spec fn color_opt(o: Option<String>) -> Option<(u8, u8, u8)> {
    match o {
        Some(h) => if color_shape_ok(h@) {
            color_components(h@)
        } else {
            None
        },
        None => None,
    }
}

/// Reads a configured color; a missing or malformed one gives none.
pub fn parse_color_opt(v: &Option<String>) -> (r: Option<(u8, u8, u8)>)
    ensures
        r == color_opt(*v),
{
    match v {
        Some(h) => match Theme::parse_color(h.as_str()) {
            Ok(c) => Some(c),
            Err(_) => None,
        },
        None => None,
    }
}

/// The interface colors of a configured theme.
pub open spec fn ui_theme_of(t: Theme) -> UiTheme {
    UiTheme {
        selection_bg: color_opt(t.selection_bg),
        selection_fg: color_opt(t.selection_fg),
        status_bg: color_opt(t.status_bg),
        status_fg: color_opt(t.status_fg),
        header_fg: color_opt(t.header_fg),
        bold_fg: color_opt(t.bold_fg),
    }
}

impl UiTheme {
    /// The interface colors of a configured theme.
    pub fn from_config(theme: &Theme) -> (r: UiTheme)
        ensures
            r == ui_theme_of(*theme),
    {
        UiTheme {
            selection_bg: parse_color_opt(&theme.selection_bg),
            selection_fg: parse_color_opt(&theme.selection_fg),
            status_bg: parse_color_opt(&theme.status_bg),
            status_fg: parse_color_opt(&theme.status_fg),
            header_fg: parse_color_opt(&theme.header_fg),
            bold_fg: parse_color_opt(&theme.bold_fg),
        }
    }
}

/// Whether `row` is the first line for a configured feed: its name and
/// URL, how many articles its index holds and how many of them are
/// unread, a display date of its last fetch, and no error.
pub open spec fn row_for(fc: FeedConfig, c: Cache, row: FeedRow) -> bool {
    &&& row.name == fc.name
    &&& row.url == fc.url
    &&& row.total == index_of(c.index_table(), fc.url@).len()
    &&& row.unread == count_unread(c.article_table(), index_of(c.index_table(), fc.url@))
    &&& row.last_error is None
    &&& match stored(c.feed_table(), fc.url@) {
        Some(m) => display_outcome(trim_seq(m.last_fetched@), row.last_updated),
        None => row.last_updated is None,
    }
}

/// The position, among the first `n`, of the first largest key.
pub open spec fn latest(keys: Seq<Option<i64>>, n: nat) -> Option<int>
    decreases n,
{
    if n == 0 {
        None
    } else {
        match (keys[n - 1], latest(keys, (n - 1) as nat)) {
            (Some(t), Some(j)) => if keys[j] matches Some(u) && t > u {
                Some(n - 1)
            } else {
                Some(j)
            },
            (Some(t), None) => Some(n - 1),
            (None, p) => p,
        }
    }
}

proof fn lemma_latest_push(keys: Seq<Option<i64>>, x: Option<i64>, n: nat)
    requires
        n <= keys.len(),
    ensures
        latest(keys.push(x), n) == latest(keys, n),
        latest(keys, n) matches Some(j) ==> 0 <= j < n && keys[j] is Some,
    decreases n,
{
    if n > 0 {
        lemma_latest_push(keys, x, (n - 1) as nat);
    }
}

/// Whether `keys` and `disps` are sort keys and display dates of the
/// feeds' last fetches.
pub open spec fn fetch_dates(feeds: Seq<FeedConfig>, c: Cache, keys: Seq<Option<i64>>, disps: Seq<Option<String>>) -> bool {
    &&& keys.len() == feeds.len()
    &&& disps.len() == feeds.len()
    &&& forall|k: int|
        0 <= k < feeds.len() ==> match stored(c.feed_table(), (#[trigger] feeds[k]).url@) {
            Some(m) => key_outcome(trim_seq(m.last_fetched@), keys[k]) && display_outcome(
                trim_seq(m.last_fetched@),
                disps[k],
            ),
            None => keys[k] is None,
        }
}

/// Whether `app` is the interface as it starts: the feed list, one line
/// per configured feed, the latest fetch as the time of the last update,
/// and the status telling whether it is offline.
pub open spec fn started(config: Config, c: Cache, offline: bool, app: App) -> bool {
    &&& app.feeds@.len() == config.feeds@.len()
    &&& forall|k: int| 0 <= k < app.feeds@.len() ==> row_for(config.feeds@[k], c, #[trigger] app.feeds@[k])
    &&& exists|keys: Seq<Option<i64>>, disps: Seq<Option<String>>|
        fetch_dates(config.feeds@, c, keys, disps) && app.last_updated == match latest(keys, keys.len()) {
            Some(j) => disps[j],
            None => None,
        }
    &&& app.screen == Screen::FeedList
    &&& app.selected_feed == 0
    &&& app.selected_article == 0
    &&& app.article_scroll == 0
    &&& app.selected_feed_scope is None
    &&& app.articles@.len() == 0
    &&& app.search@.len() == 0
    &&& !app.search_mode
    &&& app.status@ == if offline {
        "Offline mode: browsing cache"@
    } else {
        "Ready"@
    }
    &&& app.last_size == (80usize, 24usize)
    &&& app.page_size == if config.ui.page_size >= 1 {
        config.ui.page_size
    } else {
        1
    }
    &&& app.theme == ui_theme_of(config.theme)
    &&& app.log_tab == LogTab::News
    &&& app.log_scroll == 0
    &&& !app.quitting
    &&& app.pending_redraw
}

impl App {
    /// The interface as it starts, from the configuration and the cache.
    pub fn new(config: &Config, cache: &Cache, offline: bool) -> (r: App)
        ensures
            started(*config, *cache, offline, r),
    {
        let mut feeds: Vec<FeedRow> = Vec::new();
        let mut last_updated: Option<String> = None;
        let mut last_ts: Option<i64> = None;
        let ghost mut keys: Seq<Option<i64>> = seq![];
        let ghost mut disps: Seq<Option<String>> = seq![];
        let mut i: usize = 0;
        while i < config.feeds.len()
            invariant
                i <= config.feeds@.len(),
                feeds@.len() == i,
                forall|k: int| 0 <= k < i ==> row_for(config.feeds@[k], *cache, #[trigger] feeds@[k]),
                fetch_dates(config.feeds@.take(i as int), *cache, keys, disps),
                last_ts == match latest(keys, keys.len()) {
                    Some(j) => keys[j],
                    None => None,
                },
                last_updated == match latest(keys, keys.len()) {
                    Some(j) => disps[j],
                    None => None,
                },
                latest(keys, keys.len()) matches Some(j) ==> 0 <= j < keys.len() && keys[j] is Some,
            decreases config.feeds.len() - i,
        {
            let fc = &config.feeds[i];
            let hashes = match cache.get_feed_index(fc.url.as_str()) {
                Some(v) => v,
                None => Vec::new(),
            };
            assert(hashes.deep_view() =~= index_of(cache.index_table(), fc.url@));
            let unread = cache.unread_among(&hashes);
            let meta = cache.get_feed_meta(fc.url.as_str());
            let ghost mut key: Option<i64> = None;
            let ghost mut disp: Option<String> = None;
            match &meta {
                Some(m) => {
                    let ts = crate::datetime::datetime_sort_key(Some(m.last_fetched.as_str()));
                    proof {
                        key = ts;
                    }
                    match ts {
                        Some(t) => {
                            let newer = match last_ts {
                                Some(cur) => t > cur,
                                None => true,
                            };
                            if newer {
                                last_ts = Some(t);
                                last_updated = crate::datetime::normalize_datetime_to_local(m.last_fetched.as_str());
                                proof {
                                    disp = last_updated;
                                }
                            } else {
                                let d = crate::datetime::normalize_datetime_to_local(m.last_fetched.as_str());
                                proof {
                                    disp = d;
                                }
                            }
                        },
                        None => {
                            let d = crate::datetime::normalize_datetime_to_local(m.last_fetched.as_str());
                            proof {
                                disp = d;
                            }
                        },
                    }
                },
                None => {},
            }
            let row_updated = match &meta {
                Some(m) => crate::datetime::normalize_datetime_to_local(m.last_fetched.as_str()),
                None => None,
            };
            feeds.push(
                FeedRow {
                    name: fc.name.clone(),
                    url: fc.url.clone(),
                    total: hashes.len(),
                    unread,
                    last_updated: row_updated,
                    last_error: None,
                },
            );
            proof {
                let old_keys = keys;
                lemma_latest_push(keys, key, keys.len());
                keys = keys.push(key);
                disps = disps.push(disp);
                assert(keys.drop_last() =~= old_keys);
                assert(config.feeds@.take(i + 1).drop_last() =~= config.feeds@.take(i as int));
                assert(forall|k: int| 0 <= k < i ==> config.feeds@.take(i + 1)[k] == config.feeds@.take(i as int)[k]);
            }
            i = i + 1;
        }
        assert(config.feeds@.take(config.feeds@.len() as int) =~= config.feeds@);
        App {
            screen: Screen::FeedList,
            feeds,
            selected_feed: 0,
            selected_article: 0,
            article_scroll: 0,
            selected_feed_scope: None,
            articles: Vec::new(),
            search: String::new(),
            search_mode: false,
            status: if offline {
                proof {
                    reveal_strlit("Offline mode: browsing cache");
                }
                "Offline mode: browsing cache".to_owned()
            } else {
                proof {
                    reveal_strlit("Ready");
                }
                "Ready".to_owned()
            },
            last_updated,
            last_size: (80, 24),
            page_size: if config.ui.page_size >= 1 {
                config.ui.page_size
            } else {
                1
            },
            theme: UiTheme::from_config(&config.theme),
            log_tab: LogTab::News,
            log_scroll: 0,
            quitting: false,
            pending_redraw: true,
        }
    }
}

} // verus!
