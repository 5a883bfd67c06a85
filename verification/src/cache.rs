//! The article cache.
//!
//! The cache holds three tables keyed by text: articles by hash, feed
//! metadata by feed URL, and each feed's index (the hashes of its
//! articles, newest first) by feed URL. A stored value that does not
//! decode is kept as `None`: its key is present but it reads as nothing.
//! A table is a sequence of rows in which the last row of a key is the
//! one that counts; its model is the map [`table`] builds. Loading the
//! tables from the database file and storing them back is done by the
//! application.

use vstd::prelude::*;
use crate::feed::{Article, FeedMeta};
use crate::text::{strictly_sorted, insert_sorted_unique};

verus! {

impl DeepView for Article {
    type V = Article;

    open spec fn deep_view(&self) -> Article {
        *self
    }
}

impl DeepView for FeedMeta {
    type V = FeedMeta;

    open spec fn deep_view(&self) -> FeedMeta {
        *self
    }
}

/// One row of a table: a key and its value, `None` when the stored value
/// does not decode.
pub struct Row<T> {
    pub key: String,
    pub value: Option<T>,
}

/// The model of an optional stored value.
pub open spec fn opt_deep<T: DeepView>(o: Option<T>) -> Option<T::V> {
    match o {
        Some(v) => Some(v.deep_view()),
        None => None,
    }
}

/// The map a table's rows stand for: each key to its last row's value.
pub open spec fn table<T: DeepView>(rows: Seq<Row<T>>) -> Map<Seq<char>, Option<T::V>>
    decreases rows.len(),
{
    if rows.len() == 0 {
        Map::empty()
    } else {
        table(rows.drop_last()).insert(rows.last().key@, opt_deep(rows.last().value))
    }
}

/// The value stored under a key, if any decodes.
pub open spec fn stored<V>(m: Map<Seq<char>, Option<V>>, k: Seq<char>) -> Option<V> {
    if m.contains_key(k) {
        m[k]
    } else {
        None
    }
}

proof fn lemma_table_push<T: DeepView>(rows: Seq<Row<T>>, r: Row<T>)
    ensures
        table(rows.push(r)) == table(rows).insert(r.key@, opt_deep(r.value)),
{
    assert(rows.push(r).drop_last() =~= rows);
}

proof fn lemma_table_take<T: DeepView>(rows: Seq<Row<T>>, i: int)
    requires
        0 <= i < rows.len(),
    ensures
        table(rows.take(i + 1)) == table(rows.take(i)).insert(
            rows[i].key@,
            opt_deep(rows[i].value),
        ),
{
    assert(rows.take(i + 1).drop_last() =~= rows.take(i));
}

/// The position of the row that counts for a key.
pub fn find_row<T: DeepView>(rows: &Vec<Row<T>>, key: &str) -> (r: Option<usize>)
    ensures
        match r {
            Some(i) => {
                &&& i < rows@.len()
                &&& rows@[i as int].key@ == key@
                &&& table(rows@).contains_key(key@)
                &&& table(rows@)[key@] == opt_deep(rows@[i as int].value)
            },
            None => !table(rows@).contains_key(key@),
        },
{
    let mut i: usize = rows.len();
    assert(rows@.take(rows@.len() as int) =~= rows@);
    while i > 0
        invariant
            i <= rows@.len(),
            table(rows@).contains_key(key@) == table(rows@.take(i as int)).contains_key(key@),
            table(rows@).contains_key(key@) ==> table(rows@)[key@] == table(
                rows@.take(i as int),
            )[key@],
        decreases i,
    {
        proof {
            lemma_table_take(rows@, i - 1);
        }
        if crate::text::same_text(rows[i - 1].key.as_str(), key) {
            return Some(i - 1);
        }
        i = i - 1;
    }
    None
}

/// A copy of a list of texts.
pub fn copy_texts(v: &[String]) -> (r: Vec<String>)
    ensures
        r@ == v@,
        r.deep_view() == v.deep_view(),
{
    let mut r: Vec<String> = Vec::new();
    let mut i: usize = 0;
    while i < v.len()
        invariant
            i <= v.len(),
            r@ == v@.take(i as int),
        decreases v.len() - i,
    {
        r.push(v[i].clone());
        assert(v@.take(i + 1) =~= v@.take(i as int).push(v@[i as int]));
        i = i + 1;
    }
    assert(v@.take(v@.len() as int) =~= v@);
    assert(r.deep_view() =~= v.deep_view());
    r
}

/// Whether a text is in a list of texts.
pub fn has_text(v: &Vec<String>, s: &str) -> (r: bool)
    ensures
        r == v.deep_view().contains(s@),
{
    let mut i: usize = 0;
    while i < v.len()
        invariant
            i <= v.len(),
            forall|j: int| 0 <= j < i ==> v.deep_view()[j] != s@,
        decreases v.len() - i,
    {
        if crate::text::same_text(v[i].as_str(), s) {
            assert(v.deep_view()[i as int] == s@);
            return true;
        }
        i = i + 1;
    }
    false
}

/// The three tables of the cache.
pub struct Cache {
    pub articles: Vec<Row<Article>>,
    pub feeds: Vec<Row<FeedMeta>>,
    pub feed_index: Vec<Row<Vec<String>>>,
}

impl Cache {
    /// The articles table.
    pub open spec fn article_table(&self) -> Map<Seq<char>, Option<Article>> {
        table(self.articles@)
    }

    /// The feeds table.
    pub open spec fn feed_table(&self) -> Map<Seq<char>, Option<FeedMeta>> {
        table(self.feeds@)
    }

    /// The feed index table.
    pub open spec fn index_table(&self) -> Map<Seq<char>, Option<Seq<Seq<char>>>> {
        table(self.feed_index@)
    }

    /// An empty cache.
    pub fn new() -> (r: Cache)
        ensures
            r.article_table() == Map::<Seq<char>, Option<Article>>::empty(),
            r.feed_table() == Map::<Seq<char>, Option<FeedMeta>>::empty(),
            r.index_table() == Map::<Seq<char>, Option<Seq<Seq<char>>>>::empty(),
    {
        Cache { articles: Vec::new(), feeds: Vec::new(), feed_index: Vec::new() }
    }

    /// The article stored under a hash.
    pub fn get_article(&self, hash: &str) -> (r: Option<Article>)
        ensures
            r == stored(self.article_table(), hash@),
    {
        match find_row(&self.articles, hash) {
            Some(i) => match &self.articles[i].value {
                Some(a) => Some(a.duplicate()),
                None => None,
            },
            None => None,
        }
    }

    /// The metadata stored for a feed.
    pub fn get_feed_meta(&self, url: &str) -> (r: Option<FeedMeta>)
        ensures
            r == stored(self.feed_table(), url@),
    {
        match find_row(&self.feeds, url) {
            Some(i) => match &self.feeds[i].value {
                Some(m) => Some(m.duplicate()),
                None => None,
            },
            None => None,
        }
    }

    /// The hashes of a feed's articles, newest first.
    pub fn get_feed_index(&self, feed_url: &str) -> (r: Option<Vec<String>>)
        ensures
            opt_deep(r) == stored(self.index_table(), feed_url@),
    {
        match find_row(&self.feed_index, feed_url) {
            Some(i) => match &self.feed_index[i].value {
                Some(v) => Some(copy_texts(v)),
                None => None,
            },
            None => None,
        }
    }

    /// Stores articles under their hashes, in order; the other tables are
    /// unchanged.
    pub fn put_articles(&mut self, articles: &[Article])
        ensures
            final(self).article_table() == stored_all(old(self).article_table(), articles@),
            final(self).feed_table() == old(self).feed_table(),
            final(self).index_table() == old(self).index_table(),
    {
        let mut i: usize = 0;
        while i < articles.len()
            invariant
                i <= articles.len(),
                self.article_table() == stored_all(old(self).article_table(), articles@.take(i as int)),
                self.feed_table() == old(self).feed_table(),
                self.index_table() == old(self).index_table(),
            decreases articles.len() - i,
        {
            let a = articles[i].duplicate();
            let row = Row { key: a.hash.clone(), value: Some(a) };
            proof {
                lemma_table_push(self.articles@, row);
                assert(articles@.take(i + 1).drop_last() =~= articles@.take(i as int));
            }
            self.articles.push(row);
            i = i + 1;
        }
        assert(articles@.take(articles@.len() as int) =~= articles@);
    }

    /// Stores the metadata of a feed under its URL.
    pub fn put_feed_meta(&mut self, meta: &FeedMeta)
        ensures
            final(self).feed_table() == old(self).feed_table().insert(meta.url@, Some(*meta)),
            final(self).article_table() == old(self).article_table(),
            final(self).index_table() == old(self).index_table(),
    {
        let row = Row { key: meta.url.clone(), value: Some(meta.duplicate()) };
        proof {
            lemma_table_push(self.feeds@, row);
        }
        self.feeds.push(row);
    }

    /// Stores a feed's index.
    pub fn put_feed_index(&mut self, feed_url: &str, hashes: &[String])
        ensures
            final(self).index_table() == old(self).index_table().insert(
                feed_url@,
                Some(hashes.deep_view()),
            ),
            final(self).article_table() == old(self).article_table(),
            final(self).feed_table() == old(self).feed_table(),
    {
        let v = copy_texts(hashes);
        let row = Row { key: feed_url.to_owned(), value: Some(v) };
        proof {
            lemma_table_push(self.feed_index@, row);
        }
        self.feed_index.push(row);
    }
}

/// A table after storing the articles, in order, each under its hash.
pub open spec fn stored_all(m: Map<Seq<char>, Option<Article>>, arts: Seq<Article>) -> Map<
    Seq<char>,
    Option<Article>,
>
    decreases arts.len(),
{
    if arts.len() == 0 {
        m
    } else {
        stored_all(m, arts.drop_last()).insert(arts.last().hash@, Some(arts.last()))
    }
}

/// One feed's fetch, ready to be stored.
pub struct FeedRefresh {
    pub url: String,
    pub name: String,
    pub title: String,
    pub fetched_at: String,
    pub articles: Vec<Article>,
}

/// What storing one feed's fetch changed.
pub struct FeedRefreshSummary {
    pub feed_url: String,
    pub feed_name: String,
    pub fetched_at: String,
    pub new_articles: usize,
    pub total: usize,
    pub unread: usize,
}

/// The hashes recorded as new for a feed so far.
pub open spec fn news_of(news: Map<Seq<char>, Option<Seq<Seq<char>>>>, u: Seq<char>) -> Seq<
    Seq<char>,
> {
    match stored(news, u) {
        Some(v) => v,
        None => seq![],
    }
}

/// The articles table and the new hashes per feed URL after offering an
/// article of the feed `u`: an article whose hash has a row already is
/// left as it is; any other is stored and recorded as new for the feed.
pub open spec fn offer_article(
    arts: Map<Seq<char>, Option<Article>>,
    news: Map<Seq<char>, Option<Seq<Seq<char>>>>,
    u: Seq<char>,
    a: Article,
) -> (Map<Seq<char>, Option<Article>>, Map<Seq<char>, Option<Seq<Seq<char>>>>) {
    if arts.contains_key(a.hash@) {
        (arts, news)
    } else {
        (arts.insert(a.hash@, Some(a)), news.insert(u, Some(news_of(news, u).push(a.hash@))))
    }
}

/// [`offer_article`] over the articles of one feed, in order.
pub open spec fn offer_articles(
    arts: Map<Seq<char>, Option<Article>>,
    news: Map<Seq<char>, Option<Seq<Seq<char>>>>,
    u: Seq<char>,
    items: Seq<Article>,
) -> (Map<Seq<char>, Option<Article>>, Map<Seq<char>, Option<Seq<Seq<char>>>>)
    decreases items.len(),
{
    if items.len() == 0 {
        (arts, news)
    } else {
        let (a2, n2) = offer_articles(arts, news, u, items.drop_last());
        offer_article(a2, n2, u, items.last())
    }
}

/// [`offer_articles`] over the fetches, in order.
pub open spec fn offer_refreshes(
    arts: Map<Seq<char>, Option<Article>>,
    refs: Seq<FeedRefresh>,
) -> (Map<Seq<char>, Option<Article>>, Map<Seq<char>, Option<Seq<Seq<char>>>>)
    decreases refs.len(),
{
    if refs.len() == 0 {
        (arts, Map::empty())
    } else {
        let (a2, n2) = offer_refreshes(arts, refs.drop_last());
        offer_articles(a2, n2, refs.last().url@, refs.last().articles@)
    }
}

/// The metadata recorded for a fetch.
pub open spec fn meta_of(r: FeedRefresh) -> FeedMeta {
    FeedMeta { url: r.url, title: r.title, last_fetched: r.fetched_at }
}

/// The feeds table after recording each fetch's metadata, in order.
pub open spec fn record_metas(m: Map<Seq<char>, Option<FeedMeta>>, refs: Seq<FeedRefresh>) -> Map<
    Seq<char>,
    Option<FeedMeta>,
>
    decreases refs.len(),
{
    if refs.len() == 0 {
        m
    } else {
        record_metas(m, refs.drop_last()).insert(refs.last().url@, Some(meta_of(refs.last())))
    }
}

/// An index with new hashes put in front, each one that is not there yet
/// going before those put in before it.
pub open spec fn prepend_new(hs: Seq<Seq<char>>, news: Seq<Seq<char>>) -> Seq<Seq<char>>
    decreases news.len(),
{
    if news.len() == 0 {
        hs
    } else {
        let h0 = prepend_new(hs, news.drop_last());
        if h0.contains(news.last()) {
            h0
        } else {
            seq![news.last()] + h0
        }
    }
}

/// A feed's index as stored, empty when none decodes.
pub open spec fn index_of(idx: Map<Seq<char>, Option<Seq<Seq<char>>>>, u: Seq<char>) -> Seq<
    Seq<char>,
> {
    match stored(idx, u) {
        Some(v) => v,
        None => seq![],
    }
}

/// The index table after each fetch's feed gets its new hashes in front.
pub open spec fn index_after(
    idx: Map<Seq<char>, Option<Seq<Seq<char>>>>,
    news: Map<Seq<char>, Option<Seq<Seq<char>>>>,
    refs: Seq<FeedRefresh>,
) -> Map<Seq<char>, Option<Seq<Seq<char>>>>
    decreases refs.len(),
{
    if refs.len() == 0 {
        idx
    } else {
        let m = index_after(idx, news, refs.drop_last());
        let u = refs.last().url@;
        m.insert(u, Some(prepend_new(index_of(m, u), news_of(news, u))))
    }
}

/// How many of the hashes name a stored article that is unread.
pub open spec fn count_unread(arts: Map<Seq<char>, Option<Article>>, hs: Seq<Seq<char>>) -> nat
    decreases hs.len(),
{
    if hs.len() == 0 {
        0
    } else {
        count_unread(arts, hs.drop_last()) + (if stored(arts, hs.last()) matches Some(a) && !a.read {
            1nat
        } else {
            0nat
        })
    }
}

/// The summary of one fetch after the batch is stored.
pub open spec fn summary_matches(
    s: FeedRefreshSummary,
    r: FeedRefresh,
    arts: Map<Seq<char>, Option<Article>>,
    news: Map<Seq<char>, Option<Seq<Seq<char>>>>,
    idx: Map<Seq<char>, Option<Seq<Seq<char>>>>,
) -> bool {
    &&& s.feed_url == r.url
    &&& s.feed_name == r.name
    &&& s.fetched_at == r.fetched_at
    &&& s.new_articles == news_of(news, r.url@).len()
    &&& s.total == index_of(idx, r.url@).len()
    &&& s.unread == count_unread(arts, index_of(idx, r.url@))
}

impl Cache {
    /// Counts the unread stored articles among the hashes.
    pub fn unread_among(&self, hs: &Vec<String>) -> (r: usize)
        ensures
            r == count_unread(self.article_table(), hs.deep_view()),
    {
        let mut n: usize = 0;
        let mut i: usize = 0;
        while i < hs.len()
            invariant
                i <= hs.len(),
                n == count_unread(self.article_table(), hs.deep_view().take(i as int)),
                n <= i,
            decreases hs.len() - i,
        {
            assert(hs.deep_view().take(i + 1).drop_last() =~= hs.deep_view().take(i as int));
            assert(hs.deep_view().take(i + 1).last() == hs@[i as int]@);
            match self.get_article(hs[i].as_str()) {
                Some(a) => {
                    if !a.read {
                        n = n + 1;
                    }
                },
                None => {},
            }
            i = i + 1;
        }
        assert(hs.deep_view().take(hs.deep_view().len() as int) =~= hs.deep_view());
        n
    }

    /// Stores a batch of fetches in one go and summarizes each.
    ///
    /// Articles whose hash has a row already are left as they are, so a
    /// stored article keeps its read state; the others are stored and put
    /// in front of their feed's index, the newest first. Each feed's
    /// metadata records the fetch. A summary tells, per fetch, how many
    /// articles were new to the cache, how long the feed's index is, and
    /// how many of its articles are unread.
    pub fn apply_refresh_batch(&mut self, refreshes: &[FeedRefresh]) -> (r: Vec<FeedRefreshSummary>)
        ensures
            ({
                let (arts, news) = offer_refreshes(old(self).article_table(), refreshes@);
                let idx = index_after(old(self).index_table(), news, refreshes@);
                &&& final(self).article_table() == arts
                &&& final(self).feed_table() == record_metas(old(self).feed_table(), refreshes@)
                &&& final(self).index_table() == idx
                &&& r@.len() == refreshes@.len()
                &&& forall|i: int|
                    0 <= i < r@.len() ==> summary_matches(
                        #[trigger] r@[i],
                        refreshes@[i],
                        arts,
                        news,
                        idx,
                    )
            }),
    {
        if refreshes.len() == 0 {
            return Vec::new();
        }
        let ghost arts0 = self.article_table();
        let ghost metas0 = self.feed_table();
        let ghost idx0 = self.index_table();
        // Store the articles that are new to the cache.
        let mut news: Vec<Row<Vec<String>>> = Vec::new();
        let mut i: usize = 0;
        while i < refreshes.len()
            invariant
                i <= refreshes.len(),
                (self.article_table(), table(news@)) == offer_refreshes(arts0, refreshes@.take(i as int)),
                self.feed_table() == metas0,
                self.index_table() == idx0,
            decreases refreshes.len() - i,
        {
            let refresh = &refreshes[i];
            let ghost start = (self.article_table(), table(news@));
            let mut j: usize = 0;
            while j < refresh.articles.len()
                invariant
                    j <= refresh.articles.len(),
                    i < refreshes.len(),
                    refresh == refreshes@[i as int],
                    self.article_table() == offer_articles(
                        start.0,
                        start.1,
                        refresh.url@,
                        refresh.articles@.take(j as int),
                    ).0,
                    table(news@) == offer_articles(
                        start.0,
                        start.1,
                        refresh.url@,
                        refresh.articles@.take(j as int),
                    ).1,
                    self.feed_table() == metas0,
                    self.index_table() == idx0,
                decreases refresh.articles.len() - j,
            {
                let article = &refresh.articles[j];
                assert(refresh.articles@.take(j + 1).drop_last() =~= refresh.articles@.take(j as int));
                assert(refresh.articles@.take(j + 1).last() == *article);
                let exists = find_row(&self.articles, article.hash.as_str()).is_some();
                if !exists {
                    let row = Row { key: article.hash.clone(), value: Some(article.duplicate()) };
                    proof {
                        lemma_table_push(self.articles@, row);
                    }
                    self.articles.push(row);
                    let mut hs = match find_row(&news, refresh.url.as_str()) {
                        Some(k) => match &news[k].value {
                            Some(v) => copy_texts(v),
                            None => Vec::new(),
                        },
                        None => Vec::new(),
                    };
                    let ghost prev = hs.deep_view();
                    assert(prev =~= news_of(table(news@), refresh.url@));
                    hs.push(article.hash.clone());
                    assert(hs.deep_view() =~= prev.push(article.hash@));
                    let nrow = Row { key: refresh.url.clone(), value: Some(hs) };
                    proof {
                        lemma_table_push(news@, nrow);
                    }
                    news.push(nrow);
                }
                j = j + 1;
            }
            assert(refresh.articles@.take(refresh.articles@.len() as int) =~= refresh.articles@);
            assert(refreshes@.take(i + 1).drop_last() =~= refreshes@.take(i as int));
            assert(refreshes@.take(i + 1).last() == *refresh);
            i = i + 1;
        }
        assert(refreshes@.take(refreshes@.len() as int) =~= refreshes@);
        let ghost arts1 = self.article_table();
        let ghost news1 = table(news@);
        // Record each feed's metadata.
        let mut i: usize = 0;
        while i < refreshes.len()
            invariant
                i <= refreshes.len(),
                self.article_table() == arts1,
                self.feed_table() == record_metas(metas0, refreshes@.take(i as int)),
                self.index_table() == idx0,
            decreases refreshes.len() - i,
        {
            let refresh = &refreshes[i];
            let meta = FeedMeta {
                url: refresh.url.clone(),
                title: refresh.title.clone(),
                last_fetched: refresh.fetched_at.clone(),
            };
            assert(refreshes@.take(i + 1).drop_last() =~= refreshes@.take(i as int));
            self.put_feed_meta(&meta);
            i = i + 1;
        }
        // Put the new hashes in front of each feed's index.
        let mut i: usize = 0;
        while i < refreshes.len()
            invariant
                i <= refreshes.len(),
                self.article_table() == arts1,
                self.feed_table() == record_metas(metas0, refreshes@),
                self.index_table() == index_after(idx0, news1, refreshes@.take(i as int)),
                table(news@) == news1,
            decreases refreshes.len() - i,
        {
            let refresh = &refreshes[i];
            assert(refreshes@.take(i + 1).drop_last() =~= refreshes@.take(i as int));
            assert(refreshes@.take(i + 1).last() == *refresh);
            let mut hashes = match self.get_feed_index(refresh.url.as_str()) {
                Some(v) => v,
                None => Vec::new(),
            };
            let ghost base = hashes.deep_view();
            assert(base =~= index_of(self.index_table(), refresh.url@));
            let (fresh, has_fresh) = match find_row(&news, refresh.url.as_str()) {
                Some(k) => match &news[k].value {
                    Some(v) => (copy_texts(v), true),
                    None => (Vec::new(), false),
                },
                None => (Vec::new(), false),
            };
            assert(fresh.deep_view() =~= news_of(news1, refresh.url@));
            let mut k: usize = 0;
            while k < fresh.len()
                invariant
                    k <= fresh.len(),
                    hashes.deep_view() == prepend_new(base, fresh.deep_view().take(k as int)),
                decreases fresh.len() - k,
            {
                assert(fresh.deep_view().take(k + 1).drop_last() =~= fresh.deep_view().take(k as int));
                assert(fresh.deep_view().take(k + 1).last() == fresh@[k as int]@);
                if !has_text(&hashes, fresh[k].as_str()) {
                    let ghost prev = hashes.deep_view();
                    hashes.insert(0, fresh[k].clone());
                    assert(hashes.deep_view() =~= seq![fresh@[k as int]@] + prev);
                }
                k = k + 1;
            }
            assert(fresh.deep_view().take(fresh.deep_view().len() as int) =~= fresh.deep_view());
            let row = Row { key: refresh.url.clone(), value: Some(hashes) };
            proof {
                lemma_table_push(self.feed_index@, row);
            }
            self.feed_index.push(row);
            i = i + 1;
        }
        let ghost idx1 = self.index_table();
        // Summarize each fetch.
        let mut summaries: Vec<FeedRefreshSummary> = Vec::new();
        let mut i: usize = 0;
        while i < refreshes.len()
            invariant
                i <= refreshes.len(),
                self.article_table() == arts1,
                self.index_table() == idx1,
                table(news@) == news1,
                summaries@.len() == i,
                forall|j: int|
                    0 <= j < i ==> summary_matches(
                        #[trigger] summaries@[j],
                        refreshes@[j],
                        arts1,
                        news1,
                        idx1,
                    ),
            decreases refreshes.len() - i,
        {
            let refresh = &refreshes[i];
            let hashes = match self.get_feed_index(refresh.url.as_str()) {
                Some(v) => v,
                None => Vec::new(),
            };
            let unread = self.unread_among(&hashes);
            let new_articles = match find_row(&news, refresh.url.as_str()) {
                Some(k) => match &news[k].value {
                    Some(v) => v.len(),
                    None => 0,
                },
                None => 0,
            };
            let s = FeedRefreshSummary {
                feed_url: refresh.url.clone(),
                feed_name: refresh.name.clone(),
                fetched_at: refresh.fetched_at.clone(),
                new_articles,
                total: hashes.len(),
                unread,
            };
            summaries.push(s);
            i = i + 1;
        }
        summaries
    }
}

proof fn lemma_table_keys<T: DeepView>(rows: Seq<Row<T>>, k: Seq<char>)
    ensures
        table(rows).contains_key(k) <==> exists|i: int| 0 <= i < rows.len() && #[trigger] rows[i].key@ == k,
    decreases rows.len(),
{
    if rows.len() > 0 {
        lemma_table_keys(rows.drop_last(), k);
        if exists|i: int| 0 <= i < rows.drop_last().len() && #[trigger] rows.drop_last()[i].key@ == k {
            let i = choose|i: int| 0 <= i < rows.drop_last().len() && #[trigger] rows.drop_last()[i].key@ == k;
            assert(rows[i].key@ == k);
        }
        if exists|i: int| 0 <= i < rows.len() && #[trigger] rows[i].key@ == k {
            let i = choose|i: int| 0 <= i < rows.len() && #[trigger] rows[i].key@ == k;
            if i < rows.len() - 1 {
                assert(rows.drop_last()[i].key@ == k);
            }
        }
    }
}

/// Whether `urls` lists, in increasing order and once each, the URLs that
/// have an index or metadata.
pub open spec fn is_feed_listing(c: Cache, urls: Seq<Seq<char>>) -> bool {
    &&& strictly_sorted(urls)
    &&& forall|k: Seq<char>|
        #[trigger] urls.contains(k) <==> (c.index_table().contains_key(k) || c.feed_table().contains_key(
            k,
        ))
}

/// The stored articles among the hashes, in order.
pub open spec fn present_articles(arts: Map<Seq<char>, Option<Article>>, hs: Seq<Seq<char>>) -> Seq<
    Article,
>
    decreases hs.len(),
{
    if hs.len() == 0 {
        seq![]
    } else {
        let rest = present_articles(arts, hs.drop_last());
        match stored(arts, hs.last()) {
            Some(a) => rest.push(a),
            None => rest,
        }
    }
}

/// The stored articles of each feed in `urls`, feed after feed.
pub open spec fn feeds_articles(c: Cache, urls: Seq<Seq<char>>) -> Seq<Article>
    decreases urls.len(),
{
    if urls.len() == 0 {
        seq![]
    } else {
        feeds_articles(c, urls.drop_last()) + present_articles(
            c.article_table(),
            index_of(c.index_table(), urls.last()),
        )
    }
}

/// The articles that are unread, in order.
pub open spec fn unread_only(arts: Seq<Article>) -> Seq<Article>
    decreases arts.len(),
{
    if arts.len() == 0 {
        seq![]
    } else if arts.last().read {
        unread_only(arts.drop_last())
    } else {
        unread_only(arts.drop_last()).push(arts.last())
    }
}

/// The articles table after the article stored under a hash gets its
/// read flag set; a hash with no article changes nothing.
pub open spec fn read_marked(t: Map<Seq<char>, Option<Article>>, hash: Seq<char>, read: bool) -> Map<
    Seq<char>,
    Option<Article>,
> {
    match stored(t, hash) {
        Some(a) => t.insert(a.hash@, Some(with_read(a, read))),
        None => t,
    }
}

/// Whether each stored article sits under its own hash.
pub open spec fn keyed(t: Map<Seq<char>, Option<Article>>) -> bool {
    forall|k: Seq<char>| #[trigger] stored(t, k) matches Some(a) ==> a.hash@ == k
}

/// An article with its read flag set.
pub open spec fn with_read(a: Article, read: bool) -> Article {
    Article { read, ..a }
}

impl Cache {
    /// Sets the read flag of the article stored under a hash; a hash with
    /// no article changes nothing.
    pub fn mark_read(&mut self, hash: &str, read: bool)
        ensures
            final(self).article_table() == read_marked(old(self).article_table(), hash@, read),
            final(self).feed_table() == old(self).feed_table(),
            final(self).index_table() == old(self).index_table(),
    {
        let ghost t0 = self.article_table();
        if let Some(mut article) = self.get_article(hash) {
            let ghost a0 = article;
            article.read = read;
            assert(article == with_read(a0, read));
            let mut v: Vec<Article> = Vec::new();
            v.push(article);
            self.put_articles(v.as_slice());
            proof {
                let arts = v@;
                assert(arts.drop_last() =~= Seq::<Article>::empty());
                assert(arts.last() == with_read(a0, read));
                assert(stored_all(t0, arts.drop_last()) == t0);
                assert(stored_all(t0, arts) == t0.insert(a0.hash@, Some(with_read(a0, read))));
            }
        }
    }

    /// The URLs of the feeds that have an index or metadata, sorted, each
    /// once.
    pub fn list_feed_urls(&self) -> (r: Vec<String>)
        ensures
            is_feed_listing(*self, r.deep_view()),
    {
        let mut urls: Vec<String> = Vec::new();
        let mut i: usize = 0;
        while i < self.feed_index.len()
            invariant
                i <= self.feed_index.len(),
                strictly_sorted(urls.deep_view()),
                forall|k: Seq<char>|
                    #[trigger] urls.deep_view().contains(k) <==> exists|j: int|
                        0 <= j < i && #[trigger] self.feed_index@[j].key@ == k,
            decreases self.feed_index.len() - i,
        {
            let ghost before = urls.deep_view();
            insert_sorted_unique(&mut urls, self.feed_index[i].key.clone());
            assert forall|k: Seq<char>|
                #[trigger] urls.deep_view().contains(k) <==> exists|j: int|
                    0 <= j < i + 1 && #[trigger] self.feed_index@[j].key@ == k by {
                if k == self.feed_index@[i as int].key@ {
                    assert(self.feed_index@[i as int].key@ == k);
                }
                if before.contains(k) {
                    let j = choose|j: int| 0 <= j < i && #[trigger] self.feed_index@[j].key@ == k;
                    assert(self.feed_index@[j].key@ == k);
                }
                if exists|j: int| 0 <= j < i + 1 && #[trigger] self.feed_index@[j].key@ == k {
                    let j = choose|j: int| 0 <= j < i + 1 && #[trigger] self.feed_index@[j].key@ == k;
                    if j < i {
                        assert(before.contains(k));
                    }
                }
            }
            i = i + 1;
        }
        let mut i: usize = 0;
        while i < self.feeds.len()
            invariant
                i <= self.feeds.len(),
                strictly_sorted(urls.deep_view()),
                forall|k: Seq<char>|
                    #[trigger] urls.deep_view().contains(k) <==> (exists|j: int|
                        0 <= j < self.feed_index@.len() && #[trigger] self.feed_index@[j].key@ == k)
                        || (exists|j: int| 0 <= j < i && #[trigger] self.feeds@[j].key@ == k),
            decreases self.feeds.len() - i,
        {
            let ghost before = urls.deep_view();
            insert_sorted_unique(&mut urls, self.feeds[i].key.clone());
            assert forall|k: Seq<char>|
                #[trigger] urls.deep_view().contains(k) <==> (exists|j: int|
                    0 <= j < self.feed_index@.len() && #[trigger] self.feed_index@[j].key@ == k)
                    || (exists|j: int| 0 <= j < i + 1 && #[trigger] self.feeds@[j].key@ == k) by {
                if k == self.feeds@[i as int].key@ {
                    assert(self.feeds@[i as int].key@ == k);
                }
                if exists|j: int| 0 <= j < i && #[trigger] self.feeds@[j].key@ == k {
                    let j = choose|j: int| 0 <= j < i && #[trigger] self.feeds@[j].key@ == k;
                    assert(self.feeds@[j].key@ == k);
                }
                if exists|j: int| 0 <= j < i + 1 && #[trigger] self.feeds@[j].key@ == k {
                    let j = choose|j: int| 0 <= j < i + 1 && #[trigger] self.feeds@[j].key@ == k;
                    if j < i {
                        assert(self.feeds@[j].key@ == k);
                    }
                }
            }
            i = i + 1;
        }
        assert forall|k: Seq<char>|
            #[trigger] urls.deep_view().contains(k) <==> (self.index_table().contains_key(k)
                || self.feed_table().contains_key(k)) by {
            lemma_table_keys(self.feed_index@, k);
            lemma_table_keys(self.feeds@, k);
        }
        urls
    }

    /// The stored articles of a feed, in the order of its index.
    pub fn list_feed_articles(&self, feed_url: &str) -> (r: Vec<Article>)
        ensures
            r@ == present_articles(self.article_table(), index_of(self.index_table(), feed_url@)),
    {
        let hashes = match self.get_feed_index(feed_url) {
            Some(v) => v,
            None => Vec::new(),
        };
        let ghost hs = hashes.deep_view();
        assert(hs =~= index_of(self.index_table(), feed_url@));
        let mut out: Vec<Article> = Vec::new();
        let mut i: usize = 0;
        while i < hashes.len()
            invariant
                i <= hashes.len(),
                hs == hashes.deep_view(),
                out@ == present_articles(self.article_table(), hs.take(i as int)),
            decreases hashes.len() - i,
        {
            assert(hs.take(i + 1).drop_last() =~= hs.take(i as int));
            assert(hs.take(i + 1).last() == hashes@[i as int]@);
            match self.get_article(hashes[i].as_str()) {
                Some(a) => out.push(a),
                None => {},
            }
            i = i + 1;
        }
        assert(hs.take(hs.len() as int) =~= hs);
        out
    }

    /// The articles of every feed, feed after feed in the order of
    /// [`Cache::list_feed_urls`].
    pub fn list_all_articles(&self) -> (r: Vec<Article>)
        ensures
            exists|urls: Seq<Seq<char>>| is_feed_listing(*self, urls) && r@ == feeds_articles(*self, urls),
    {
        let urls = self.list_feed_urls();
        let ghost us = urls.deep_view();
        let mut out: Vec<Article> = Vec::new();
        let mut i: usize = 0;
        while i < urls.len()
            invariant
                i <= urls.len(),
                us == urls.deep_view(),
                out@ == feeds_articles(*self, us.take(i as int)),
            decreases urls.len() - i,
        {
            assert(us.take(i + 1).drop_last() =~= us.take(i as int));
            assert(us.take(i + 1).last() == urls@[i as int]@);
            let mut more = self.list_feed_articles(urls[i].as_str());
            out.append(&mut more);
            i = i + 1;
        }
        assert(us.take(us.len() as int) =~= us);
        out
    }

    /// The unread articles of every feed, in the order of
    /// [`Cache::list_all_articles`].
    pub fn list_unread_articles(&self) -> (r: Vec<Article>)
        ensures
            exists|urls: Seq<Seq<char>>|
                is_feed_listing(*self, urls) && r@ == unread_only(feeds_articles(*self, urls)),
    {
        let all = self.list_all_articles();
        keep_unread(&all)
    }
}

/// The unread articles among the given ones, in order.
pub fn keep_unread(arts: &Vec<Article>) -> (r: Vec<Article>)
    ensures
        r@ == unread_only(arts@),
{
    let mut out: Vec<Article> = Vec::new();
    let mut i: usize = 0;
    while i < arts.len()
        invariant
            i <= arts.len(),
            out@ == unread_only(arts@.take(i as int)),
        decreases arts.len() - i,
    {
        assert(arts@.take(i + 1).drop_last() =~= arts@.take(i as int));
        if !arts[i].read {
            out.push(arts[i].duplicate());
        }
        i = i + 1;
    }
    assert(arts@.take(arts@.len() as int) =~= arts@);
    out
}

} // verus!
