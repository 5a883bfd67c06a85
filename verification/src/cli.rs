//! The line-oriented command protocol: each request is decoded by the
//! application into a [`Command`]; [`handle_command`] runs it against the
//! cache and gives the [`Response`] that the application encodes.

use vstd::prelude::*;
use crate::cache::{Cache, is_feed_listing, feeds_articles, unread_only, present_articles, index_of, read_marked, stored, with_read};
use crate::datetime::{datetime_sort_key, key_outcome};
use crate::feed::Article;
use crate::text::{text_less, text_lt, same_text, trim_seq, lowercase, lowercase_of, has_substring, contains_text};

verus! {

/// Whether article `i` goes before article `j`: the newer first, then by
/// title, then in the order given (the sort is stable).
pub open spec fn goes_before(keys: Seq<i64>, arts: Seq<Article>, i: int, j: int) -> bool {
    ||| keys[i] > keys[j]
    ||| (keys[i] == keys[j] && text_less(arts[i].title@, arts[j].title@))
    ||| (keys[i] == keys[j] && arts[i].title@ == arts[j].title@ && i < j)
}

/// Whether `perm` orders the positions `0..n` by [`goes_before`].
pub open spec fn sorted_order(perm: Seq<usize>, keys: Seq<i64>, arts: Seq<Article>) -> bool {
    &&& perm.len() == arts.len()
    &&& forall|a: int| 0 <= a < perm.len() ==> (#[trigger] perm[a]) < arts.len()
    &&& forall|a: int, b: int|
        0 <= a < b < perm.len() ==> goes_before(keys, arts, #[trigger] perm[a] as int, #[trigger] perm[b] as int)
}

/// The articles taken in the order `perm`.
pub open spec fn permuted(arts: Seq<Article>, perm: Seq<usize>) -> Seq<Article> {
    Seq::new(perm.len(), |a: int| arts[perm[a] as int])
}

proof fn lemma_before_total(keys: Seq<i64>, arts: Seq<Article>, i: int, j: int)
    requires
        i != j,
    ensures
        goes_before(keys, arts, i, j) || goes_before(keys, arts, j, i),
{
    crate::text::lemma_text_less_total(arts[i].title@, arts[j].title@);
}

proof fn lemma_before_trans(keys: Seq<i64>, arts: Seq<Article>, i: int, j: int, k: int)
    requires
        goes_before(keys, arts, i, j),
        goes_before(keys, arts, j, k),
    ensures
        goes_before(keys, arts, i, k),
{
    if keys[i] == keys[j] && keys[j] == keys[k] {
        let (ti, tj, tk) = (arts[i].title@, arts[j].title@, arts[k].title@);
        if text_less(ti, tj) && text_less(tj, tk) {
            crate::text::lemma_text_less_trans(ti, tj, tk);
        }
    }
}

fn goes_before_exec(keys: &Vec<i64>, arts: &Vec<Article>, i: usize, j: usize) -> (r: bool)
    requires
        i < keys.len(),
        j < keys.len(),
        keys.len() == arts.len(),
    ensures
        r == goes_before(keys@, arts@, i as int, j as int),
{
    if keys[i] != keys[j] {
        keys[i] > keys[j]
    } else if text_lt(arts[i].title.as_str(), arts[j].title.as_str()) {
        true
    } else {
        same_text(arts[i].title.as_str(), arts[j].title.as_str()) && i < j
    }
}

/// Orders articles by the keys: a larger key first, then by title; equal
/// ones keep their order.
pub fn sort_by_keys(arts: &Vec<Article>, keys: &Vec<i64>) -> (r: Vec<Article>)
    requires
        keys.len() == arts.len(),
    ensures
        exists|perm: Seq<usize>|
            sorted_order(perm, keys@, arts@) && (forall|a: int, b: int|
                0 <= a < b < perm.len() ==> #[trigger] perm[a] != #[trigger] perm[b]) && r@
                == permuted(arts@, perm),
{
    let n = arts.len();
    let mut perm: Vec<usize> = Vec::new();
    let mut i: usize = 0;
    while i < n
        invariant
            i <= n,
            n == arts.len(),
            keys.len() == n,
            perm.len() == i,
            forall|a: int| 0 <= a < perm.len() ==> (#[trigger] perm@[a]) < i,
            forall|a: int, b: int| 0 <= a < b < perm.len() ==> #[trigger] perm@[a] != #[trigger] perm@[b],
            forall|a: int, b: int|
                0 <= a < b < perm.len() ==> goes_before(keys@, arts@, #[trigger] perm@[a] as int, #[trigger] perm@[b] as int),
        decreases n - i,
    {
        let mut p: usize = 0;
        while p < perm.len() && goes_before_exec(keys, arts, perm[p], i)
            invariant
                p <= perm.len(),
                perm.len() == i,
                i < n,
                n == arts.len(),
                keys.len() == n,
                forall|a: int| 0 <= a < perm.len() ==> (#[trigger] perm@[a]) < i,
                forall|a: int| 0 <= a < p ==> goes_before(keys@, arts@, #[trigger] perm@[a] as int, i as int),
            decreases perm.len() - p,
        {
            p = p + 1;
        }
        let ghost old_perm = perm@;
        proof {
            if p < old_perm.len() {
                lemma_before_total(keys@, arts@, old_perm[p as int] as int, i as int);
            }
        }
        perm.insert(p, i);
        let ghost np = perm@;
        assert(np =~= old_perm.subrange(0, p as int).push(i) + old_perm.subrange(p as int, old_perm.len() as int));
        assert forall|a: int| 0 <= a < np.len() implies (#[trigger] np[a]) < i + 1 by {
            if a < p {
                assert(np[a] == old_perm[a]);
            } else if a > p {
                assert(np[a] == old_perm[a - 1]);
            }
        }
        assert forall|a: int, b: int| 0 <= a < b < np.len() implies #[trigger] np[a] != #[trigger] np[b] by {
            if a < p && b < p {
                assert(np[a] == old_perm[a] && np[b] == old_perm[b]);
            } else if a < p && b == p {
                assert(np[a] == old_perm[a]);
            } else if a < p && b > p {
                assert(np[a] == old_perm[a] && np[b] == old_perm[b - 1]);
            } else if a == p {
                assert(np[b] == old_perm[b - 1]);
            } else {
                assert(np[a] == old_perm[a - 1] && np[b] == old_perm[b - 1]);
            }
        }
        assert forall|a: int, b: int| 0 <= a < b < np.len() implies goes_before(
            keys@,
            arts@,
            #[trigger] np[a] as int,
            #[trigger] np[b] as int,
        ) by {
            let ii = i as int;
            if b < p {
                assert(np[a] == old_perm[a] && np[b] == old_perm[b]);
            } else if b == p {
                assert(np[a] == old_perm[a]);
            } else if a == p {
                assert(np[b] == old_perm[b - 1]);
                if b - 1 > p {
                    lemma_before_trans(keys@, arts@, ii, old_perm[p as int] as int, old_perm[b - 1] as int);
                }
            } else if a < p {
                assert(np[a] == old_perm[a] && np[b] == old_perm[b - 1]);
                if b - 1 >= p {
                    lemma_before_trans(keys@, arts@, old_perm[a] as int, ii, old_perm[p as int] as int);
                    if b - 1 > p {
                        lemma_before_trans(keys@, arts@, old_perm[a] as int, old_perm[p as int] as int, old_perm[b - 1] as int);
                    }
                }
            } else {
                assert(np[a] == old_perm[a - 1] && np[b] == old_perm[b - 1]);
            }
        }
        i = i + 1;
    }
    let mut out: Vec<Article> = Vec::new();
    let mut a: usize = 0;
    while a < perm.len()
        invariant
            a <= perm.len(),
            perm.len() == n,
            n == arts.len(),
            forall|x: int| 0 <= x < perm.len() ==> (#[trigger] perm@[x]) < n,
            out@ == permuted(arts@, perm@.take(a as int)),
        decreases perm.len() - a,
    {
        out.push(arts[perm[a]].duplicate());
        assert(out@ =~= permuted(arts@, perm@.take(a + 1)));
        a = a + 1;
    }
    assert(perm@.take(perm@.len() as int) =~= perm@);
    out
}

/// Whether `k` is the sort key of a publication date: its timestamp, or
/// the smallest key when it has none.
pub open spec fn sort_key_of(published: Option<String>, k: i64) -> bool {
    match published {
        None => k == i64::MIN,
        Some(p) => exists|o: Option<i64>|
            key_outcome(trim_seq(p@), o) && k == match o {
                Some(t) => t,
                None => i64::MIN,
            },
    }
}

/// Whether `r` is the articles sorted newest first, then by title, for
/// some sort keys of their dates.
pub open spec fn sorted_articles(arts: Seq<Article>, r: Seq<Article>) -> bool {
    exists|keys: Seq<i64>, perm: Seq<usize>|
        keys.len() == arts.len() && (forall|i: int| 0 <= i < arts.len() ==> sort_key_of(#[trigger] arts[i].published, keys[i]))
            && sorted_order(perm, keys, arts) && (forall|a: int, b: int|
            0 <= a < b < perm.len() ==> #[trigger] perm[a] != #[trigger] perm[b]) && r
            == permuted(arts, perm)
}

/// Sorts articles newest first (by the timestamp of their date; those
/// without one last), then by title.
pub fn sort_articles(articles: Vec<Article>) -> (r: Vec<Article>)
    ensures
        sorted_articles(articles@, r@),
{
    let mut keys: Vec<i64> = Vec::new();
    let mut i: usize = 0;
    while i < articles.len()
        invariant
            i <= articles.len(),
            keys.len() == i,
            forall|j: int| 0 <= j < i ==> sort_key_of(#[trigger] articles@[j].published, keys@[j]),
        decreases articles.len() - i,
    {
        let k = match &articles[i].published {
            Some(p) => {
                let o = datetime_sort_key(Some(p.as_str()));
                match o {
                    Some(t) => t,
                    None => i64::MIN,
                }
            },
            None => i64::MIN,
        };
        keys.push(k);
        assert(sort_key_of(articles@[i as int].published, keys@[i as int]));
        i = i + 1;
    }
    sort_by_keys(&articles, &keys)
}

/// The largest page a listing gives.
pub const MAX_LIMIT: usize = 1000;

/// The folder a search looks in when the request names none.
pub fn default_search_folder() -> (r: String)
    ensures
        r@ == "all"@,
{
    "all".to_owned()
}

/// A request of the protocol.
pub enum Command {
    ListFolders,
    ListArticles { folder: String, offset: usize, limit: Option<usize> },
    GetArticle { hash: String },
    MarkRead { hash: String, read: bool },
    MarkFolderRead { folder: String },
    SearchArticles { query: String, folder: String, offset: usize, limit: Option<usize> },
    Help,
    Quit,
}

/// One folder of a folder listing: a virtual one (all, unread) or a feed.
pub struct Folder {
    pub id: String,
    pub name: String,
    pub url: Option<String>,
    pub total: usize,
    pub unread: usize,
    pub last_fetched: Option<String>,
    pub is_virtual: bool,
}

/// The answer to a request.
pub enum Response {
    /// `{"ok":false,"error":...}`
    Failure { error: String },
    Folders { folders: Vec<Folder> },
    Articles { folder: String, offset: usize, limit: usize, total: usize, articles: Vec<Article> },
    SearchResults {
        query: String,
        folder: String,
        offset: usize,
        limit: usize,
        total: usize,
        articles: Vec<Article>,
    },
    ArticleFound { article: Article },
    ReadMarked { hash: String, read: bool },
    FolderMarked { folder: String, updated: usize },
    Help { help: String },
    Quit,
}

/// The documentation of the protocol.
pub const HELP_TEXT: &'static str = "CLI mode protocol (newline-delimited JSON):
- Input: one JSON object per line on stdin
- Output: one JSON object per line on stdout

Commands:
- {\"cmd\":\"list_folders\"}
  Returns folders at root level. Includes virtual folders: all, unread.

- {\"cmd\":\"list_articles\",\"folder\":\"all|unread|<feed_url>\",\"offset\":0,\"limit\":100}
  Lists article summaries for a folder. limit is capped at 1000.

- {\"cmd\":\"get_article\",\"hash\":\"<article_hash>\"}
  Returns full article contents.

- {\"cmd\":\"mark_read\",\"hash\":\"<article_hash>\",\"read\":true}
  Sets an article read/unread flag in cache.

- {\"cmd\":\"mark_folder_read\",\"folder\":\"all|unread|<feed_url>\"}
  Marks all articles in a folder as read.

- {\"cmd\":\"search_articles\",\"query\":\"<text>\",\"folder\":\"all\",\"offset\":0,\"limit\":100}
  Case-insensitive substring search on title, description, and content.
  folder defaults to \"all\". Returns matching articles with total match count.

- {\"cmd\":\"help\"}
  Returns this command documentation as a string.

- {\"cmd\":\"quit\"}
  Requests graceful shutdown of CLI mode.

Response format:
- Success: {\"ok\":true,...}
- Error: {\"ok\":false,\"error\":\"...\"}";

/// The documentation of the protocol, one line per command and rule.
pub fn help_text() -> (r: String)
    ensures
        r@ == HELP_TEXT@,
{
    HELP_TEXT.to_owned()
}

/// The number of unread articles.
pub open spec fn unread_count(arts: Seq<Article>) -> nat {
    unread_only(arts).len()
}

pub(crate) fn count_unread_articles(arts: &Vec<Article>) -> (r: usize)
    ensures
        r == unread_count(arts@),
{
    let mut n: usize = 0;
    let mut i: usize = 0;
    while i < arts.len()
        invariant
            i <= arts.len(),
            n == unread_count(arts@.take(i as int)),
            n <= i,
        decreases arts.len() - i,
    {
        assert(arts@.take(i + 1).drop_last() =~= arts@.take(i as int));
        if !arts[i].read {
            n = n + 1;
        }
        i = i + 1;
    }
    assert(arts@.take(arts@.len() as int) =~= arts@);
    n
}

/// What a folder holds: every article, the unread ones, or a known feed's;
/// any other folder is unknown.
pub open spec fn folder_result(c: Cache, folder: Seq<char>, r: Result<Vec<Article>, String>) -> bool {
    if folder == "all"@ {
        r matches Ok(v) && exists|urls: Seq<Seq<char>>|
            is_feed_listing(c, urls) && v@ == feeds_articles(c, urls)
    } else if folder == "unread"@ {
        r matches Ok(v) && exists|urls: Seq<Seq<char>>|
            is_feed_listing(c, urls) && v@ == unread_only(feeds_articles(c, urls))
    } else if c.index_table().contains_key(folder) || c.feed_table().contains_key(folder) {
        r matches Ok(v) && v@ == present_articles(c.article_table(), index_of(c.index_table(), folder))
    } else {
        r matches Err(e) && e@ == "unknown folder: "@ + folder
    }
}

/// The articles of a folder.
pub fn folder_articles(cache: &Cache, folder: &str) -> (r: Result<Vec<Article>, String>)
    ensures
        folder_result(*cache, folder@, r),
{
    if same_text(folder, "all") {
        Ok(cache.list_all_articles())
    } else if same_text(folder, "unread") {
        Ok(cache.list_unread_articles())
    } else {
        let urls = cache.list_feed_urls();
        let mut known = false;
        let mut i: usize = 0;
        while i < urls.len()
            invariant
                i <= urls.len(),
                known == exists|j: int| 0 <= j < i && #[trigger] urls.deep_view()[j] == folder@,
            decreases urls.len() - i,
        {
            if same_text(urls[i].as_str(), folder) {
                assert(urls.deep_view()[i as int] == folder@);
                known = true;
            }
            i = i + 1;
        }
        assert(known == urls.deep_view().contains(folder@));
        if !known {
            let mut m = "unknown folder: ".to_owned();
            m.append(folder);
            return Err(m);
        }
        Ok(cache.list_feed_articles(folder))
    }
}

/// The page of a listing that starts at `offset` and holds at most
/// `limit` items.
pub open spec fn page(arts: Seq<Article>, offset: usize, limit: usize) -> Seq<Article> {
    let start = if offset < arts.len() { offset as int } else { arts.len() as int };
    let end = if offset + limit < arts.len() { offset + limit } else { arts.len() as int };
    arts.subrange(start, end)
}

fn take_page(arts: &Vec<Article>, offset: usize, limit: usize) -> (r: Vec<Article>)
    ensures
        r@ == page(arts@, offset, limit),
{
    let n = arts.len();
    let start = if offset < n { offset } else { n };
    let end = if limit <= n - start { start + limit } else { n };
    let mut out: Vec<Article> = Vec::new();
    let mut i = start;
    while i < end
        invariant
            start <= i <= end <= n,
            n == arts.len(),
            out@ == arts@.subrange(start as int, i as int),
        decreases end - i,
    {
        out.push(arts[i].duplicate());
        assert(arts@.subrange(start as int, i + 1) =~= arts@.subrange(start as int, i as int).push(arts@[i as int]));
        i = i + 1;
    }
    out
}

/// A requested page size, capped at [`MAX_LIMIT`].
pub open spec fn capped_limit(limit: Option<usize>) -> usize {
    match limit {
        Some(l) => if l < 1000 { l } else { 1000 },
        None => 1000,
    }
}

fn cap_limit(limit: Option<usize>) -> (r: usize)
    ensures
        r == capped_limit(limit),
{
    let l = match limit {
        Some(l) => l,
        None => MAX_LIMIT,
    };
    if l < MAX_LIMIT {
        l
    } else {
        MAX_LIMIT
    }
}

/// The text a search looks in: title, description and content, each
/// lowercased, separated by single spaces.
pub open spec fn search_haystack(a: Article) -> Seq<char> {
    lowercase_of(a.title@) + " "@ + lowercase_of(a.description@) + " "@ + lowercase_of(a.content@)
}

/// The articles whose haystack holds the lowercased query.
pub open spec fn matching(arts: Seq<Article>, q: Seq<char>) -> Seq<Article>
    decreases arts.len(),
{
    if arts.len() == 0 {
        seq![]
    } else if has_substring(search_haystack(arts.last()), lowercase_of(q)) {
        matching(arts.drop_last(), q).push(arts.last())
    } else {
        matching(arts.drop_last(), q)
    }
}

fn search_in(arts: &Vec<Article>, query: &str) -> (r: Vec<Article>)
    ensures
        r@ == matching(arts@, query@),
{
    let q = lowercase(query);
    let mut out: Vec<Article> = Vec::new();
    let mut i: usize = 0;
    while i < arts.len()
        invariant
            i <= arts.len(),
            q@ == lowercase_of(query@),
            out@ == matching(arts@.take(i as int), query@),
        decreases arts.len() - i,
    {
        assert(arts@.take(i + 1).drop_last() =~= arts@.take(i as int));
        let a = &arts[i];
        let mut hay = lowercase(a.title.as_str());
        hay.append(" ");
        hay.append(lowercase(a.description.as_str()).as_str());
        hay.append(" ");
        hay.append(lowercase(a.content.as_str()).as_str());
        assert(hay@ == search_haystack(*a));
        if contains_text(hay.as_str(), q.as_str()) {
            out.push(a.duplicate());
        }
        i = i + 1;
    }
    assert(arts@.take(arts@.len() as int) =~= arts@);
    out
}

/// The article table after marking each hash read, in order.
pub open spec fn marked_all_read(m: Map<Seq<char>, Option<Article>>, hs: Seq<Seq<char>>) -> Map<
    Seq<char>,
    Option<Article>,
>
    decreases hs.len(),
{
    if hs.len() == 0 {
        m
    } else {
        read_marked(marked_all_read(m, hs.drop_last()), hs.last(), true)
    }
}

/// The hashes of the articles.
pub open spec fn hashes_of(arts: Seq<Article>) -> Seq<Seq<char>> {
    Seq::new(arts.len(), |i: int| arts[i].hash@)
}

/// The folder of a feed in a listing.
pub open spec fn feed_folder(c: Cache, url: Seq<char>, f: Folder) -> bool {
    let arts = present_articles(c.article_table(), index_of(c.index_table(), url));
    let meta = stored(c.feed_table(), url);
    &&& f.id@ == url
    &&& f.name@ == match meta {
        Some(m) => m.title@,
        None => if arts.len() > 0 {
            arts[0].feed_name@
        } else {
            url
        },
    }
    &&& f.url == match meta {
        Some(m) => Some(m.url),
        None => None::<String>,
    }
    &&& f.total == arts.len()
    &&& f.unread == unread_count(arts)
    &&& f.last_fetched == match meta {
        Some(m) => Some(m.last_fetched),
        None => None::<String>,
    }
    &&& !f.is_virtual
}

/// The folder listing: all articles, unread articles, then each feed in
/// the order of the URL listing.
pub open spec fn folder_listing(c: Cache, urls: Seq<Seq<char>>, fs: Seq<Folder>) -> bool {
    let all = feeds_articles(c, urls);
    let u = unread_count(all);
    &&& fs.len() == urls.len() + 2
    &&& fs[0].id@ == "all"@ && fs[0].name@ == "All"@ && fs[0].url is None && fs[0].total == all.len()
        && fs[0].unread == u && fs[0].last_fetched is None && fs[0].is_virtual
    &&& fs[1].id@ == "unread"@ && fs[1].name@ == "Unread"@ && fs[1].url is None && fs[1].total == u
        && fs[1].unread == u && fs[1].last_fetched is None && fs[1].is_virtual
    &&& forall|k: int| 0 <= k < urls.len() ==> feed_folder(c, urls[k], #[trigger] fs[k + 2])
}

fn feed_folder_of(cache: &Cache, url: &String) -> (f: Folder)
    ensures
        feed_folder(*cache, url@, f),
{
    let articles = cache.list_feed_articles(url.as_str());
    let total = articles.len();
    let unread = count_unread_articles(&articles);
    let meta = cache.get_feed_meta(url.as_str());
    let name = match &meta {
        Some(m) => m.title.clone(),
        None => if articles.len() > 0 {
            articles[0].feed_name.clone()
        } else {
            url.clone()
        },
    };
    let (furl, last) = match &meta {
        Some(m) => (Some(m.url.clone()), Some(m.last_fetched.clone())),
        None => (None, None),
    };
    Folder { id: url.clone(), name, url: furl, total, unread, last_fetched: last, is_virtual: false }
}

fn list_folders(cache: &Cache) -> (r: Vec<Folder>)
    ensures
        exists|urls: Seq<Seq<char>>| is_feed_listing(*cache, urls) && folder_listing(*cache, urls, r@),
{
    // Counting does not depend on the order, so the listing counts the
    // articles as they come.
    let all = cache.list_all_articles();
    let unread = count_unread_articles(&all);
    let mut folders: Vec<Folder> = Vec::new();
    folders.push(Folder {
        id: "all".to_owned(),
        name: "All".to_owned(),
        url: None,
        total: all.len(),
        unread,
        last_fetched: None,
        is_virtual: true,
    });
    folders.push(Folder {
        id: "unread".to_owned(),
        name: "Unread".to_owned(),
        url: None,
        total: unread,
        unread,
        last_fetched: None,
        is_virtual: true,
    });
    let urls = cache.list_feed_urls();
    let ghost us = urls.deep_view();
    proof {
        let w = choose|w: Seq<Seq<char>>| is_feed_listing(*cache, w) && all@ == feeds_articles(*cache, w);
        assert forall|k: Seq<char>| #[trigger] w.contains(k) <==> us.contains(k) by {}
        crate::text::lemma_sorted_unique(w, us);
    }
    let mut i: usize = 0;
    while i < urls.len()
        invariant
            i <= urls.len(),
            us == urls.deep_view(),
            folders@.len() == i + 2,
            folders@[0].id@ == "all"@ && folders@[0].name@ == "All"@ && folders@[0].url is None
                && folders@[0].total == feeds_articles(*cache, us).len() && folders@[0].unread
                == unread_count(feeds_articles(*cache, us)) && folders@[0].last_fetched is None
                && folders@[0].is_virtual,
            folders@[1].id@ == "unread"@ && folders@[1].name@ == "Unread"@ && folders@[1].url is None
                && folders@[1].total == unread_count(feeds_articles(*cache, us))
                && folders@[1].unread == unread_count(feeds_articles(*cache, us))
                && folders@[1].last_fetched is None && folders@[1].is_virtual,
            forall|k: int| 0 <= k < i ==> feed_folder(*cache, us[k], #[trigger] folders@[k + 2]),
        decreases urls.len() - i,
    {
        let f = feed_folder_of(cache, &urls[i]);
        folders.push(f);
        i = i + 1;
    }
    folders
}

/// Runs one request against the cache.
///
/// Listings are sorted newest first and paged; a page is at most
/// [`MAX_LIMIT`] long. Marking a hash that has no article, and naming a
/// folder that is neither virtual nor a known feed, are refused with a
/// message; nothing else is refused.
pub fn handle_command(cache: &mut Cache, command: Command) -> (r: Response)
    ensures
        match command {
            Command::ListFolders => {
                &&& *final(cache) == *old(cache)
                &&& r matches Response::Folders { folders } && exists|urls: Seq<Seq<char>>|
                    is_feed_listing(*old(cache), urls) && folder_listing(*old(cache), urls, folders@)
            },
            Command::ListArticles { folder, offset, limit } => {
                &&& *final(cache) == *old(cache)
                &&& exists|fr: Result<Vec<Article>, String>| folder_result(*old(cache), folder@, fr) && match fr {
                    Err(e) => r matches Response::Failure { error } && error@ == e@,
                    Ok(v) => r matches Response::Articles { folder: f, offset: o, limit: l, total, articles }
                        && f == folder && o == offset && l == capped_limit(limit) && total == v@.len()
                        && exists|sorted: Seq<Article>| sorted_articles(v@, sorted) && articles@ == page(sorted, offset, capped_limit(limit)),
                }
            },
            Command::GetArticle { hash } => {
                &&& *final(cache) == *old(cache)
                &&& match stored(old(cache).article_table(), hash@) {
                    Some(a) => r == Response::ArticleFound { article: a },
                    None => r matches Response::Failure { error } && error@ == "article not found: "@ + hash@,
                }
            },
            Command::MarkRead { hash, read } => match stored(old(cache).article_table(), hash@) {
                Some(a) => {
                    &&& r == Response::ReadMarked { hash, read }
                    &&& final(cache).article_table() == old(cache).article_table().insert(a.hash@, Some(with_read(a, read)))
                    &&& final(cache).feed_table() == old(cache).feed_table()
                    &&& final(cache).index_table() == old(cache).index_table()
                },
                None => {
                    &&& *final(cache) == *old(cache)
                    &&& r matches Response::Failure { error } && error@ == "article not found: "@ + hash@
                },
            },
            Command::MarkFolderRead { folder } => exists|fr: Result<Vec<Article>, String>|
                folder_result(*old(cache), folder@, fr) && match fr {
                    Err(e) => *final(cache) == *old(cache) && (r matches Response::Failure { error } && error@ == e@),
                    Ok(v) => {
                        &&& r matches Response::FolderMarked { folder: f, updated } && f == folder && updated == v@.len()
                        &&& final(cache).article_table() == marked_all_read(old(cache).article_table(), hashes_of(v@))
                        &&& final(cache).feed_table() == old(cache).feed_table()
                        &&& final(cache).index_table() == old(cache).index_table()
                    },
                },
            Command::SearchArticles { query, folder, offset, limit } => {
                &&& *final(cache) == *old(cache)
                &&& exists|fr: Result<Vec<Article>, String>| folder_result(*old(cache), folder@, fr) && match fr {
                    Err(e) => r matches Response::Failure { error } && error@ == e@,
                    Ok(v) => r matches Response::SearchResults { query: q, folder: f, offset: o, limit: l, total, articles }
                        && q == query && f == folder && o == offset && l == capped_limit(limit)
                        && exists|sorted: Seq<Article>| sorted_articles(v@, sorted)
                            && total == matching(sorted, query@).len()
                            && articles@ == page(matching(sorted, query@), offset, capped_limit(limit)),
                }
            },
            Command::Help => *final(cache) == *old(cache) && (r matches Response::Help { help } && help@ == HELP_TEXT@),
            Command::Quit => *final(cache) == *old(cache) && r is Quit,
        },
{
    match command {
        Command::ListFolders => Response::Folders { folders: list_folders(cache) },
        Command::ListArticles { folder, offset, limit } => {
            let limit = cap_limit(limit);
            let fr = folder_articles(cache, folder.as_str());
            match fr {
                Ok(articles) => {
                    let sorted = sort_articles(articles);
                    let total = sorted.len();
                    let items = take_page(&sorted, offset, limit);
                    Response::Articles { folder, offset, limit, total, articles: items }
                },
                Err(error) => Response::Failure { error },
            }
        },
        Command::GetArticle { hash } => match cache.get_article(hash.as_str()) {
            Some(article) => Response::ArticleFound { article },
            None => {
                let mut m = "article not found: ".to_owned();
                m.append(hash.as_str());
                Response::Failure { error: m }
            },
        },
        Command::MarkRead { hash, read } => {
            if cache.get_article(hash.as_str()).is_none() {
                let mut m = "article not found: ".to_owned();
                m.append(hash.as_str());
                Response::Failure { error: m }
            } else {
                cache.mark_read(hash.as_str(), read);
                Response::ReadMarked { hash, read }
            }
        },
        Command::MarkFolderRead { folder } => {
            let fr = folder_articles(cache, folder.as_str());
            match fr {
                Ok(articles) => {
                    let ghost t0 = cache.article_table();
                    let ghost hs = hashes_of(articles@);
                    let mut i: usize = 0;
                    while i < articles.len()
                        invariant
                            i <= articles.len(),
                            hs == hashes_of(articles@),
                            cache.article_table() == marked_all_read(t0, hs.take(i as int)),
                            cache.feed_table() == old(cache).feed_table(),
                            cache.index_table() == old(cache).index_table(),
                        decreases articles.len() - i,
                    {
                        assert(hs.take(i + 1).drop_last() =~= hs.take(i as int));
                        assert(hs.take(i + 1).last() == articles@[i as int].hash@);
                        cache.mark_read(articles[i].hash.as_str(), true);
                        i = i + 1;
                    }
                    assert(hs.take(hs.len() as int) =~= hs);
                    Response::FolderMarked { folder, updated: articles.len() }
                },
                Err(error) => Response::Failure { error },
            }
        },
        Command::SearchArticles { query, folder, offset, limit } => {
            let limit = cap_limit(limit);
            let fr = folder_articles(cache, folder.as_str());
            match fr {
                Ok(articles) => {
                    let sorted = sort_articles(articles);
                    let matched = search_in(&sorted, query.as_str());
                    let total = matched.len();
                    let items = take_page(&matched, offset, limit);
                    Response::SearchResults { query, folder, offset, limit, total, articles: items }
                },
                Err(error) => Response::Failure { error },
            }
        },
        Command::Help => Response::Help { help: help_text() },
        Command::Quit => Response::Quit,
    }
}

} // verus!
