//! Properties that hold across the operations of the library.

use vstd::prelude::*;
use crate::backend::{BackendResponse, due_positions, fetch_times, is_due, is_due_or_new, least_left, time_left};
use crate::config::FeedConfig;
use crate::datetime::{display_outcome, key_outcome, naive_formats_accept, rfc2822_instant, rfc3339_instant};
use crate::text::{has_substring, lowercase_of, occurs_at, trim_seq};
use crate::cache::{
    Cache, FeedRefresh, index_after, index_of, keyed, meta_of, news_of, offer_article, offer_articles,
    offer_refreshes, prepend_new, read_marked, record_metas, stored, stored_all, unread_only, with_read,
};
use crate::cli::{MAX_LIMIT, capped_limit, marked_all_read, search_haystack};
use crate::datetime::{display_of, zero_padded};
use crate::feed::{Article, FeedMeta};
use crate::text::decimal;
use crate::input::{InputEvent, Key, MouseEvent};
use crate::log::{escaped, log_record};
use crate::tui::{
    App, Effect, FeedScope, Screen, article_from, backend_ok, gathered, input_ok, interleave, list_keys_ok,
    longest, mark_read_effect, marked_current, per_feed, read_set, reload_ok, report_applied, round, rounds,
    row_from, toggled_current, view_keys_ok, visible_upto,
};

verus! {

/// Marking an article read or unread and reading it back gives the
/// article with the new flag; every other hash reads as before, and each
/// article still sits under its own hash.
pub proof fn law_mark_read_then_get(
    t: Map<Seq<char>, Option<Article>>,
    hash: Seq<char>,
    read: bool,
    other: Seq<char>,
)
    requires
        keyed(t),
    ensures
        stored(read_marked(t, hash, read), hash) == match stored(t, hash) {
            Some(a) => Some(with_read(a, read)),
            None => None,
        },
        other != hash ==> stored(read_marked(t, hash, read), other) == stored(t, other),
        keyed(read_marked(t, hash, read)),
{
    assert(stored(t, hash) matches Some(a) ==> a.hash@ == hash);
    let t2 = read_marked(t, hash, read);
    assert forall|k: Seq<char>| (#[trigger] stored(t2, k)) is Some implies stored(t2, k)->Some_0.hash@ == k by {
        assert(stored(t, k) matches Some(b) ==> b.hash@ == k);
    }
}

proof fn lemma_offer_articles_keeps(
    arts: Map<Seq<char>, Option<Article>>,
    news: Map<Seq<char>, Option<Seq<Seq<char>>>>,
    u: Seq<char>,
    items: Seq<Article>,
    h: Seq<char>,
)
    requires
        arts.contains_key(h),
    ensures
        offer_articles(arts, news, u, items).0.contains_key(h),
        offer_articles(arts, news, u, items).0[h] == arts[h],
    decreases items.len(),
{
    if items.len() > 0 {
        lemma_offer_articles_keeps(arts, news, u, items.drop_last(), h);
    }
}

proof fn lemma_offer_refreshes_keeps(arts: Map<Seq<char>, Option<Article>>, refs: Seq<FeedRefresh>, h: Seq<char>)
    requires
        arts.contains_key(h),
    ensures
        offer_refreshes(arts, refs).0.contains_key(h),
        offer_refreshes(arts, refs).0[h] == arts[h],
    decreases refs.len(),
{
    if refs.len() > 0 {
        lemma_offer_refreshes_keeps(arts, refs.drop_last(), h);
        let (a2, n2) = offer_refreshes(arts, refs.drop_last());
        lemma_offer_articles_keeps(a2, n2, refs.last().url@, refs.last().articles@, h);
    }
}

/// A refresh never replaces an article the cache holds already: whatever
/// is stored under a hash, its read flag among it, is stored there after.
pub proof fn law_refresh_keeps_stored_articles(
    arts: Map<Seq<char>, Option<Article>>,
    refs: Seq<FeedRefresh>,
    hash: Seq<char>,
)
    requires
        arts.contains_key(hash),
    ensures
        stored(offer_refreshes(arts, refs).0, hash) == stored(arts, hash),
{
    lemma_offer_refreshes_keeps(arts, refs, hash);
}

proof fn lemma_offer_articles_stores(
    arts: Map<Seq<char>, Option<Article>>,
    news: Map<Seq<char>, Option<Seq<Seq<char>>>>,
    u: Seq<char>,
    items: Seq<Article>,
    j: int,
)
    requires
        0 <= j < items.len(),
    ensures
        offer_articles(arts, news, u, items).0.contains_key(items[j].hash@),
    decreases items.len(),
{
    let (a2, n2) = offer_articles(arts, news, u, items.drop_last());
    if j < items.len() - 1 {
        lemma_offer_articles_stores(arts, news, u, items.drop_last(), j);
        assert(items.drop_last()[j] == items[j]);
    }
    let (a3, n3) = offer_article(a2, n2, u, items.last());
    assert(a3.contains_key(items.last().hash@));
    if a2.contains_key(items[j].hash@) {
        assert(a3.contains_key(items[j].hash@));
    }
}

proof fn lemma_offer_refreshes_stores(arts: Map<Seq<char>, Option<Article>>, refs: Seq<FeedRefresh>, i: int, j: int)
    requires
        0 <= i < refs.len(),
        0 <= j < refs[i].articles@.len(),
    ensures
        offer_refreshes(arts, refs).0.contains_key(refs[i].articles@[j].hash@),
    decreases refs.len(),
{
    let (a2, n2) = offer_refreshes(arts, refs.drop_last());
    let h = refs[i].articles@[j].hash@;
    if i < refs.len() - 1 {
        lemma_offer_refreshes_stores(arts, refs.drop_last(), i, j);
        assert(refs.drop_last()[i] == refs[i]);
        lemma_offer_articles_keeps(a2, n2, refs.last().url@, refs.last().articles@, h);
    } else {
        lemma_offer_articles_stores(a2, n2, refs.last().url@, refs.last().articles@, j);
    }
}

/// After a refresh the cache holds an article under the hash of every
/// article that was fetched.
pub proof fn law_refresh_stores_every_article(
    arts: Map<Seq<char>, Option<Article>>,
    refs: Seq<FeedRefresh>,
    i: int,
    j: int,
)
    requires
        0 <= i < refs.len(),
        0 <= j < refs[i].articles@.len(),
    ensures
        offer_refreshes(arts, refs).0.contains_key(refs[i].articles@[j].hash@),
{
    lemma_offer_refreshes_stores(arts, refs, i, j);
}

proof fn lemma_marked_all_read_keys(t: Map<Seq<char>, Option<Article>>, hs: Seq<Seq<char>>)
    requires
        keyed(t),
    ensures
        keyed(marked_all_read(t, hs)),
        forall|k: Seq<char>| (#[trigger] stored(marked_all_read(t, hs), k) is Some) == (stored(t, k) is Some),
    decreases hs.len(),
{
    if hs.len() > 0 {
        lemma_marked_all_read_keys(t, hs.drop_last());
        let m0 = marked_all_read(t, hs.drop_last());
        law_mark_read_then_get(m0, hs.last(), true, hs.last());
        assert forall|k: Seq<char>| (#[trigger] stored(marked_all_read(t, hs), k) is Some) == (stored(t, k) is Some) by {
            law_mark_read_then_get(m0, hs.last(), true, k);
        }
    }
}

/// Marking a feed read leaves every article of its index that the cache
/// holds marked read.
pub proof fn law_feed_marked_read(t: Map<Seq<char>, Option<Article>>, hs: Seq<Seq<char>>, hash: Seq<char>)
    requires
        keyed(t),
        hs.contains(hash),
        stored(t, hash) is Some,
    ensures
        stored(marked_all_read(t, hs), hash) matches Some(a) && a.read,
    decreases hs.len(),
{
    let m0 = marked_all_read(t, hs.drop_last());
    lemma_marked_all_read_keys(t, hs.drop_last());
    law_mark_read_then_get(m0, hs.last(), true, hash);
    if hash != hs.last() {
        let k = choose|k: int| 0 <= k < hs.len() && hs[k] == hash;
        assert(hs.drop_last()[k] == hash);
        law_feed_marked_read(t, hs.drop_last(), hash);
    }
}

proof fn lemma_escaped_one_line(msg: Seq<char>)
    ensures
        forall|i: int| 0 <= i < escaped(msg).len() ==> escaped(msg)[i] != '\n',
    decreases msg.len(),
{
    if msg.len() > 0 {
        lemma_escaped_one_line(msg.drop_last());
        let e0 = escaped(msg.drop_last());
        let e = escaped(msg);
        assert forall|i: int| 0 <= i < e.len() implies e[i] != '\n' by {
            if i < e0.len() {
                assert(e[i] == e0[i]);
            }
        }
    }
}

/// A log record is one line: it ends with a line feed and holds no other,
/// whatever the message holds.
pub proof fn law_log_record_is_one_line(timestamp: Seq<char>, level: Seq<char>, msg: Seq<char>)
    requires
        forall|i: int| 0 <= i < timestamp.len() ==> timestamp[i] != '\n',
        forall|i: int| 0 <= i < level.len() ==> level[i] != '\n',
    ensures
        log_record(timestamp, level, msg).last() == '\n',
        forall|i: int|
            0 <= i < log_record(timestamp, level, msg).len() - 1 ==> log_record(timestamp, level, msg)[i] != '\n',
{
    reveal_strlit(" [");
    reveal_strlit("] ");
    reveal_strlit("\n");
    lemma_escaped_one_line(msg);
    let r = log_record(timestamp, level, msg);
    assert forall|i: int| 0 <= i < r.len() - 1 implies r[i] != '\n' by {
        let a = timestamp.len() as int;
        let b = a + 2 + level.len();
        let c = b + 2;
        if i < a {
            assert(r[i] == timestamp[i]);
        } else if i < a + 2 {
        } else if i < b {
            assert(r[i] == level[i - a - 2]);
        } else if i < c {
        } else {
            assert(r[i] == escaped(msg)[i - c]);
        }
    }
}

proof fn lemma_least_left_positive(now: i64, lasts: Seq<Option<i64>>, interval: i64)
    requires
        interval > 0,
        forall|j: int| 0 <= j < lasts.len() ==> !is_due_or_new(now, #[trigger] lasts[j], interval),
    ensures
        least_left(now, lasts, interval) > 0,
    decreases lasts.len(),
{
    if lasts.len() > 0 {
        assert(!is_due_or_new(now, lasts[lasts.len() - 1], interval));
        lemma_least_left_positive(now, lasts.drop_last(), interval);
    }
}

proof fn lemma_due_positions(now: i64, lasts: Seq<Option<i64>>, interval: i64)
    ensures
        due_positions(now, lasts, interval).len() > 0 <==> exists|j: int|
            0 <= j < lasts.len() && is_due(now, #[trigger] lasts[j], interval),
    decreases lasts.len(),
{
    if lasts.len() > 0 {
        lemma_due_positions(now, lasts.drop_last(), interval);
        if exists|j: int| 0 <= j < lasts.len() && is_due(now, #[trigger] lasts[j], interval) {
            let j = choose|j: int| 0 <= j < lasts.len() && is_due(now, #[trigger] lasts[j], interval);
            if j < lasts.len() - 1 {
                assert(lasts.drop_last()[j] == lasts[j]);
            }
        }
        if exists|j: int| 0 <= j < lasts.len() - 1 && is_due(now, #[trigger] lasts.drop_last()[j], interval) {
            let j = choose|j: int| 0 <= j < lasts.len() - 1 && is_due(now, #[trigger] lasts.drop_last()[j], interval);
            assert(lasts[j] == lasts.drop_last()[j]);
        }
    }
}

/// With a positive interval, the worker waits no time at all exactly when
/// some feed is due for a refresh.
pub proof fn law_no_wait_iff_due(now: i64, lasts: Seq<Option<i64>>, interval: i64)
    requires
        interval > 0,
    ensures
        (time_left(now, lasts, interval) == 0) == (due_positions(now, lasts, interval).len() > 0),
{
    lemma_due_positions(now, lasts, interval);
    if !(exists|j: int| 0 <= j < lasts.len() && is_due_or_new(now, #[trigger] lasts[j], interval)) {
        lemma_least_left_positive(now, lasts, interval);
        assert(!(exists|j: int| 0 <= j < lasts.len() && is_due(now, #[trigger] lasts[j], interval))) by {
            assert forall|j: int| 0 <= j < lasts.len() implies !is_due(now, #[trigger] lasts[j], interval) by {
                assert(!is_due_or_new(now, lasts[j], interval));
            }
        }
    } else {
        let j = choose|j: int| 0 <= j < lasts.len() && is_due_or_new(now, #[trigger] lasts[j], interval);
        assert(is_due(now, lasts[j], interval));
    }
}

/// After the article list is loaded afresh, the selection stands on a
/// visible article, unless none is visible.
pub proof fn law_reload_keeps_selection_visible(b: App, c: crate::cache::Cache, a: App)
    requires
        reload_ok(b, c, a),
    ensures
        a.visible().len() == 0 || a.selected_article < a.visible().len(),
{
}

proof fn lemma_visible_ignores_read(x: Seq<Article>, y: Seq<Article>, q: Seq<char>, n: nat)
    requires
        x.len() == y.len(),
        n <= x.len(),
        forall|k: int| 0 <= k < x.len() ==> search_haystack(#[trigger] x[k]) == search_haystack(y[k]),
    ensures
        visible_upto(x, q, n) == visible_upto(y, q, n),
    decreases n,
{
    if n > 0 {
        lemma_visible_ignores_read(x, y, q, (n - 1) as nat);
        assert(search_haystack(x[n - 1]) == search_haystack(y[n - 1]));
    }
}

proof fn lemma_article_from_update(arts: Seq<Article>, h: Seq<char>, k: int, v: Article, i: int)
    requires
        0 <= k < arts.len(),
        v.hash == arts[k].hash,
        0 <= i,
    ensures
        article_from(arts.update(k, v), h, i) == article_from(arts, h, i),
    decreases arts.len() - i,
{
    if i < arts.len() {
        lemma_article_from_update(arts, h, k, v, i + 1);
    }
}

/// Flipping the read flag of the selected article twice gives back the
/// article list, after telling the worker the new flag and then the old
/// one. The selected article is the first of the list with its hash.
pub proof fn law_toggle_twice(b: App, m: App, a: App, e0: Seq<Effect>, e1: Seq<Effect>, e2: Seq<Effect>)
    requires
        toggled_current(b, m, e0, e1),
        toggled_current(m, a, e1, e2),
        b.current() matches Some(i) && article_from(b.articles@, b.articles@[i].hash@, 0) == Some(i),
    ensures
        a.articles@ == b.articles@,
        e2 == e0.push(mark_read_effect(b.articles@[b.current()->Some_0].hash, !b.articles@[b.current()->Some_0].read)).push(
            mark_read_effect(b.articles@[b.current()->Some_0].hash, b.articles@[b.current()->Some_0].read),
        ),
{
    let i = b.current()->Some_0;
    let x = b.articles@[i];
    let h = x.hash@;
    let n = b.articles@.len();
    crate::tui::lemma_article_from(b.articles@, h, 0);
    assert(m.articles@ == b.articles@.update(i, with_read(x, !x.read)));
    assert(forall|k: int| 0 <= k < n ==> search_haystack(#[trigger] b.articles@[k]) == search_haystack(m.articles@[k]));
    lemma_visible_ignores_read(b.articles@, m.articles@, b.search@, n as nat);
    assert(m.search == b.search);
    assert(m.visible() == b.visible());
    assert(m.current() == Some(i));
    lemma_article_from_update(b.articles@, h, i, with_read(x, !x.read), 0);
    assert(m.articles@[i] == with_read(x, !x.read));
    assert(a.articles@ == m.articles@.update(i, with_read(with_read(x, !x.read), x.read)));
    assert(with_read(with_read(x, !x.read), x.read) == x);
    assert(a.articles@ =~= b.articles@);
}

proof fn lemma_row_update_len(rows: Seq<crate::tui::FeedRow>, url: Seq<char>)
    ensures
        row_from(rows, url, 0) matches Some(k) ==> 0 <= k < rows.len(),
{
    crate::tui::lemma_row_from(rows, url, 0);
}

proof fn lemma_read_set_rows(b: App, a: App, h: Seq<char>, r: bool, d: bool)
    requires
        read_set(b, a, h, r, d),
    ensures
        a.feeds@.len() == b.feeds@.len(),
        a.selected_feed == b.selected_feed,
{
    match b.selected_feed_scope {
        Some(FeedScope::Feed(url)) => lemma_row_update_len(b.feeds@, url@),
        _ => {},
    }
}

proof fn lemma_marked_rows(b: App, a: App, e0: Seq<Effect>, e1: Seq<Effect>)
    requires
        marked_current(b, a, e0, e1),
    ensures
        a.feeds@.len() == b.feeds@.len(),
        a.selected_feed == b.selected_feed,
{
    match b.current() {
        Some(i) => if !b.articles@[i].read {
            lemma_read_set_rows(b, a, b.articles@[i].hash@, true, b.pending_redraw);
        },
        None => {},
    }
}

proof fn lemma_toggled_rows(b: App, a: App, e0: Seq<Effect>, e1: Seq<Effect>)
    requires
        toggled_current(b, a, e0, e1),
    ensures
        a.feeds@.len() == b.feeds@.len(),
        a.selected_feed == b.selected_feed,
{
    match b.current() {
        Some(i) => lemma_read_set_rows(b, a, b.articles@[i].hash@, !b.articles@[i].read, true),
        None => {},
    }
}

proof fn lemma_input_rows(
    b: App,
    a: App,
    e0: Seq<Effect>,
    e1: Seq<Effect>,
    input: InputEvent,
    c: Cache,
    quit: bool,
)
    requires
        input_ok(b, a, e0, e1, input, c, quit),
    ensures
        a.feeds@.len() == b.feeds@.len(),
        b.screen != Screen::FeedList ==> a.selected_feed == b.selected_feed,
{
    if !b.quitting && !(input == InputEvent::Key(Key::Char('?')) && b.screen != Screen::Help) && b.screen
        != Screen::Help && !b.search_mode {
        match b.screen {
            Screen::ArticleList => {
                assert(list_keys_ok(b, a, e0, e1, input));
                match input {
                    InputEvent::Key(Key::Char('u')) => lemma_toggled_rows(b, a, e0, e1),
                    InputEvent::Key(Key::Enter) => if b.visible().len() > 0 {
                        let o = App { article_scroll: 0, screen: Screen::ArticleView, pending_redraw: true, ..b };
                        lemma_marked_rows(o, a, e0, e1);
                    },
                    InputEvent::Mouse(MouseEvent::LeftClick { row }) => {
                        if row >= 3 && b.list_start(b.selected_article) + row - 3 < b.visible().len() {
                            lemma_marked_rows(b.opened_at(b.list_start(b.selected_article) + row - 3), a, e0, e1);
                        }
                    },
                    _ => {},
                }
            },
            Screen::ArticleView => {
                assert(view_keys_ok(b, a, e0, e1, input));
                match input {
                    InputEvent::Key(Key::Char('u')) => lemma_toggled_rows(b, a, e0, e1),
                    InputEvent::Key(Key::Char('n')) => if b.selected_article + 1 < b.visible().len() {
                        let o = App {
                            selected_article: (b.selected_article + 1) as usize,
                            article_scroll: 0,
                            pending_redraw: true,
                            ..b
                        };
                        lemma_marked_rows(o, a, e0, e1);
                    },
                    InputEvent::Key(Key::Char('p')) => if b.selected_article > 0 {
                        let o = App {
                            selected_article: (b.selected_article - 1) as usize,
                            article_scroll: 0,
                            pending_redraw: true,
                            ..b
                        };
                        lemma_marked_rows(o, a, e0, e1);
                    },
                    _ => {},
                }
            },
            _ => {},
        }
    }
}

/// No input event adds or removes a line of the feed list: the feeds the
/// interface shows stay those it started with.
pub proof fn law_input_keeps_feed_count(
    b: App,
    a: App,
    e0: Seq<Effect>,
    e1: Seq<Effect>,
    input: InputEvent,
    c: Cache,
    quit: bool,
)
    requires
        input_ok(b, a, e0, e1, input, c, quit),
    ensures
        a.feeds@.len() == b.feeds@.len(),
{
    lemma_input_rows(b, a, e0, e1, input, c, quit);
}

/// The selection of the feed list stays on one of its lines, whatever
/// input comes.
pub proof fn law_input_keeps_feed_selection(
    b: App,
    a: App,
    e0: Seq<Effect>,
    e1: Seq<Effect>,
    input: InputEvent,
    c: Cache,
    quit: bool,
)
    requires
        input_ok(b, a, e0, e1, input, c, quit),
        b.selected_feed < b.row_count(),
    ensures
        a.selected_feed < a.row_count(),
{
    lemma_input_rows(b, a, e0, e1, input, c, quit);
}

proof fn lemma_report_rows(b: App, a: App, r: crate::backend::FeedRefreshReport, c: Cache)
    requires
        report_applied(b, a, r, c),
    ensures
        a.feeds@.len() == b.feeds@.len(),
        a.selected_feed == b.selected_feed,
{
    lemma_row_update_len(b.feeds@, r.feed_url@);
}

proof fn lemma_reports_rows(b: App, rs: Seq<crate::backend::FeedRefreshReport>, c: Cache, st: Seq<App>, i: int)
    requires
        st.len() == rs.len() + 1,
        st[0] == b,
        forall|j: int| 0 <= j < rs.len() ==> report_applied(#[trigger] st[j], st[j + 1], rs[j], c),
        0 <= i <= rs.len(),
    ensures
        st[i].feeds@.len() == b.feeds@.len(),
        st[i].selected_feed == b.selected_feed,
    decreases i,
{
    if i > 0 {
        lemma_reports_rows(b, rs, c, st, i - 1);
        lemma_report_rows(st[i - 1], st[i], rs[i - 1], c);
    }
}

/// No answer of the worker adds or removes a line of the feed list, or
/// moves its selection.
pub proof fn law_backend_keeps_feed_list(b: App, a: App, msg: BackendResponse, c: Cache)
    requires
        backend_ok(b, a, msg, c),
    ensures
        a.feeds@.len() == b.feeds@.len(),
        a.selected_feed == b.selected_feed,
{
    match msg {
        BackendResponse::RefreshCompleted { reports } => {
            let st = choose|st: Seq<App>|
                st.len() == reports@.len() + 1 && st[0] == b && st[reports@.len() as int] == a && forall|i: int|
                    0 <= i < reports@.len() ==> report_applied(#[trigger] st[i], st[i + 1], reports@[i], c);
            lemma_reports_rows(b, reports@, c, st, reports@.len() as int);
        },
        BackendResponse::ArticleMutation { hash, read } => lemma_read_set_rows(b, a, hash@, read, true),
        BackendResponse::FeedMarkedRead { feed_url } => lemma_row_update_len(b.feeds@, feed_url@),
    }
}

/// A page of a listing or a search never holds more than the largest
/// page, whatever limit the request asks for.
pub proof fn law_limit_is_capped(limit: Option<usize>)
    ensures
        capped_limit(limit) <= MAX_LIMIT,
        limit is Some && limit->Some_0 <= MAX_LIMIT ==> capped_limit(limit) == limit->Some_0,
        limit is None ==> capped_limit(limit) == MAX_LIMIT,
{
}

/// A refresh only puts hashes in front of a feed's index: the index as
/// it was stays, in its order, at the end.
pub proof fn law_index_keeps_old_entries(hs: Seq<Seq<char>>, news: Seq<Seq<char>>)
    ensures
        exists|front: Seq<Seq<char>>| prepend_new(hs, news) == front + hs,
    decreases news.len(),
{
    if news.len() == 0 {
        assert(prepend_new(hs, news) == Seq::<Seq<char>>::empty() + hs);
    } else {
        law_index_keeps_old_entries(hs, news.drop_last());
        let front = choose|front: Seq<Seq<char>>| prepend_new(hs, news.drop_last()) == front + hs;
        let h0 = prepend_new(hs, news.drop_last());
        if h0.contains(news.last()) {
            assert(prepend_new(hs, news) == front + hs);
        } else {
            assert(prepend_new(hs, news) =~= (seq![news.last()] + front) + hs);
        }
    }
}

proof fn lemma_unread_only_unread(arts: Seq<Article>)
    ensures
        forall|k: int| 0 <= k < unread_only(arts).len() ==> !(#[trigger] unread_only(arts)[k]).read,
    decreases arts.len(),
{
    if arts.len() > 0 {
        lemma_unread_only_unread(arts.drop_last());
    }
}

proof fn lemma_round_unread(lists: Seq<Seq<Article>>, pos: int)
    requires
        forall|f: int, j: int| 0 <= f < lists.len() && 0 <= j < lists[f].len() ==> !(#[trigger] lists[f][j]).read,
    ensures
        forall|k: int| 0 <= k < round(lists, pos).len() ==> !(#[trigger] round(lists, pos)[k]).read,
    decreases lists.len(),
{
    if lists.len() > 0 {
        let rest = lists.drop_last();
        assert forall|f: int, j: int| 0 <= f < rest.len() && 0 <= j < rest[f].len() implies !(#[trigger] rest[f][j]).read by {
            assert(rest[f] == lists[f]);
        }
        lemma_round_unread(rest, pos);
        let r0 = round(rest, pos);
        assert forall|k: int| 0 <= k < round(lists, pos).len() implies !(#[trigger] round(lists, pos)[k]).read by {
            if k < r0.len() {
                assert(round(lists, pos)[k] == r0[k]);
            } else {
                assert(round(lists, pos)[k] == lists[lists.len() - 1][pos]);
            }
        }
    }
}

proof fn lemma_rounds_unread(lists: Seq<Seq<Article>>, n: nat)
    requires
        forall|f: int, j: int| 0 <= f < lists.len() && 0 <= j < lists[f].len() ==> !(#[trigger] lists[f][j]).read,
    ensures
        forall|k: int| 0 <= k < rounds(lists, n).len() ==> !(#[trigger] rounds(lists, n)[k]).read,
    decreases n,
{
    if n > 0 {
        lemma_rounds_unread(lists, (n - 1) as nat);
        lemma_round_unread(lists, n - 1);
        let r0 = rounds(lists, (n - 1) as nat);
        assert forall|k: int| 0 <= k < rounds(lists, n).len() implies !(#[trigger] rounds(lists, n)[k]).read by {
            if k < r0.len() {
                assert(rounds(lists, n)[k] == r0[k]);
            } else {
                assert(rounds(lists, n)[k] == round(lists, n - 1)[k - r0.len()]);
            }
        }
    }
}

/// The `[Unread]` list holds unread articles only: after it is loaded
/// from the cache, no article in it is marked read.
pub proof fn law_unread_list_holds_only_unread(b: App, c: Cache, a: App)
    requires
        reload_ok(b, c, a),
        b.selected_feed_scope matches Some(FeedScope::Unread),
    ensures
        forall|k: int| 0 <= k < a.articles@.len() ==> !(#[trigger] a.articles@[k]).read,
{
    let lists = per_feed(c, b.feeds@, true);
    assert forall|f: int, j: int| 0 <= f < lists.len() && 0 <= j < lists[f].len() implies !(#[trigger] lists[f][j]).read by {
        lemma_unread_only_unread(crate::tui::feed_articles(c, b.feeds@[f].url@));
    }
    lemma_rounds_unread(lists, longest(lists));
    let g = gathered(b, c);
    assert(g == interleave(lists));
    let (keys, perm) = choose|keys: Seq<i64>, perm: Seq<usize>|
        keys.len() == g.len() && (forall|i: int| 0 <= i < g.len() ==> crate::cli::sort_key_of(#[trigger] g[i].published, keys[i]))
            && crate::cli::sorted_order(perm, keys, g) && (forall|x: int, y: int|
            0 <= x < y < perm.len() ==> #[trigger] perm[x] != #[trigger] perm[y]) && a.articles@ == crate::cli::permuted(g, perm);
    assert forall|k: int| 0 <= k < a.articles@.len() implies !(#[trigger] a.articles@[k]).read by {
        assert(perm[k] < g.len());
        assert(a.articles@[k] == g[perm[k] as int]);
    }
}

/// Articles stored together read back as stored: each one whose hash no
/// later article of the batch takes is found under its hash, and a hash
/// the batch does not name reads as before.
pub proof fn law_put_then_get(t: Map<Seq<char>, Option<Article>>, arts: Seq<Article>, k: int, other: Seq<char>)
    requires
        0 <= k < arts.len(),
        forall|j: int| k < j < arts.len() ==> (#[trigger] arts[j]).hash@ != arts[k].hash@,
    ensures
        stored(stored_all(t, arts), arts[k].hash@) == Some(arts[k]),
        (forall|j: int| 0 <= j < arts.len() ==> (#[trigger] arts[j]).hash@ != other) ==> stored(
            stored_all(t, arts),
            other,
        ) == stored(t, other),
    decreases arts.len(),
{
    if k < arts.len() - 1 {
        let rest = arts.drop_last();
        assert forall|j: int| k < j < rest.len() implies (#[trigger] rest[j]).hash@ != rest[k].hash@ by {
            assert(rest[j] == arts[j]);
        }
        law_put_then_get(t, rest, k, other);
        assert(arts[arts.len() - 1].hash@ != arts[k].hash@);
    }
    lemma_put_other(t, arts, other);
}

proof fn lemma_put_other(t: Map<Seq<char>, Option<Article>>, arts: Seq<Article>, other: Seq<char>)
    ensures
        (forall|j: int| 0 <= j < arts.len() ==> (#[trigger] arts[j]).hash@ != other) ==> stored(
            stored_all(t, arts),
            other,
        ) == stored(t, other),
    decreases arts.len(),
{
    if arts.len() > 0 {
        if forall|j: int| 0 <= j < arts.len() ==> (#[trigger] arts[j]).hash@ != other {
            let rest = arts.drop_last();
            assert forall|j: int| 0 <= j < rest.len() implies (#[trigger] rest[j]).hash@ != other by {
                assert(rest[j] == arts[j]);
            }
            lemma_put_other(t, rest, other);
            assert(arts[arts.len() - 1].hash@ != other);
        }
    }
}

/// Ten to the power `k`.
pub open spec fn pow10(k: nat) -> nat
    decreases k,
{
    if k == 0 {
        1
    } else {
        10 * pow10((k - 1) as nat)
    }
}

proof fn lemma_decimal_len(n: nat, k: nat)
    requires
        1 <= k,
        n < pow10(k),
    ensures
        1 <= decimal(n).len() <= k,
    decreases k,
{
    if n >= 10 {
        if k == 1 {
            assert(pow10(1) == 10 * pow10(0));
        } else {
            let p = pow10((k - 1) as nat);
            assert(n / 10 < p) by (nonlinear_arith)
                requires
                    n < 10 * p,
                    n >= 10,
            ;
            lemma_decimal_len(n / 10, (k - 1) as nat);
        }
    }
}

proof fn lemma_padded_len(n: nat, w: nat)
    requires
        1 <= w,
        n < pow10(w),
    ensures
        zero_padded(n, w).len() == w,
        forall|i: int| 0 <= i < w ==> zero_padded(n, w)[i] != '-' && zero_padded(n, w)[i] != ':' && zero_padded(n, w)[i] != ' ',
{
    lemma_decimal_len(n, w);
    lemma_decimal_digits(n);
    let z = zero_padded(n, w);
    assert forall|i: int| 0 <= i < w implies z[i] != '-' && z[i] != ':' && z[i] != ' ' by {
        if decimal(n).len() < w {
            let pad = (w - decimal(n).len()) as nat;
            if i >= pad {
                assert(z[i] == decimal(n)[i - pad]);
            }
        }
    }
}

proof fn lemma_decimal_digits(n: nat)
    ensures
        forall|i: int| 0 <= i < decimal(n).len() ==> '0' <= #[trigger] decimal(n)[i] <= '9',
    decreases n,
{
    let c = crate::text::digit_char(n % 10);
    assert('0' <= c <= '9');
    if n >= 10 {
        lemma_decimal_digits(n / 10);
        let p = decimal(n / 10);
        assert(decimal(n) == p.push(c));
        assert forall|i: int| 0 <= i < decimal(n).len() implies '0' <= #[trigger] decimal(n)[i] <= '9' by {
            if i < p.len() {
                assert(decimal(n)[i] == p[i]);
            }
        }
    } else {
        assert(n % 10 == n);
    }
}

/// A date from year 0 to 9999 is displayed in 19 characters: the
/// year, `-`, the month, `-`, the day, a space, the hour, `:`, the
/// minute, `:`, the second, each field in its fixed place.
pub proof fn law_display_layout(y: int, mo: nat, d: nat, h: nat, mi: nat, sec: nat)
    requires
        0 <= y <= 9999,
        1 <= mo <= 12,
        1 <= d <= 31,
        h <= 23,
        mi <= 59,
        sec <= 60,
    ensures
        display_of(y, mo, d, h, mi, sec).len() == 19,
        display_of(y, mo, d, h, mi, sec)[4] == '-',
        display_of(y, mo, d, h, mi, sec)[7] == '-',
        display_of(y, mo, d, h, mi, sec)[10] == ' ',
        display_of(y, mo, d, h, mi, sec)[13] == ':',
        display_of(y, mo, d, h, mi, sec)[16] == ':',
        forall|i: int|
            0 <= i < 19 && i != 4 && i != 7 && i != 10 && i != 13 && i != 16 ==> '0' <= #[trigger] display_of(
                y,
                mo,
                d,
                h,
                mi,
                sec,
            )[i] <= '9',
{
    reveal_strlit("-");
    reveal_strlit(" ");
    reveal_strlit(":");
    reveal_with_fuel(pow10, 5);
    lemma_padded_len(y as nat, 4);
    lemma_padded_len(mo, 2);
    lemma_padded_len(d, 2);
    lemma_padded_len(h, 2);
    lemma_padded_len(mi, 2);
    lemma_padded_len(sec, 2);
    lemma_padded_digits(y as nat, 4);
    lemma_padded_digits(mo, 2);
    lemma_padded_digits(d, 2);
    lemma_padded_digits(h, 2);
    lemma_padded_digits(mi, 2);
    lemma_padded_digits(sec, 2);
    let t = display_of(y, mo, d, h, mi, sec);
    assert(t == zero_padded(y as nat, 4) + "-"@ + zero_padded(mo, 2) + "-"@ + zero_padded(d, 2) + " "@
        + zero_padded(h, 2) + ":"@ + zero_padded(mi, 2) + ":"@ + zero_padded(sec, 2));
}

proof fn lemma_padded_digits(n: nat, w: nat)
    ensures
        forall|i: int| 0 <= i < zero_padded(n, w).len() ==> '0' <= #[trigger] zero_padded(n, w)[i] <= '9',
{
    lemma_decimal_digits(n);
    let z = zero_padded(n, w);
    assert forall|i: int| 0 <= i < z.len() implies '0' <= #[trigger] z[i] <= '9' by {
        if decimal(n).len() < w {
            let pad = (w - decimal(n).len()) as nat;
            if i >= pad {
                assert(z[i] == decimal(n)[i - pad]);
            }
        }
    }
}


/// A refresh keeps a feed's index free of repeated hashes: a hash put in
/// front is one the index does not hold yet.
pub proof fn law_index_stays_unique(hs: Seq<Seq<char>>, news: Seq<Seq<char>>)
    requires
        hs.no_duplicates(),
    ensures
        prepend_new(hs, news).no_duplicates(),
    decreases news.len(),
{
    if news.len() > 0 {
        law_index_stays_unique(hs, news.drop_last());
        let h0 = prepend_new(hs, news.drop_last());
        if !h0.contains(news.last()) {
            let h1 = seq![news.last()] + h0;
            assert forall|i: int, j: int| 0 <= i < h1.len() && 0 <= j < h1.len() && i != j implies h1[i]
                != h1[j] by {
                if i > 0 && j > 0 {
                    assert(h1[i] == h0[i - 1] && h1[j] == h0[j - 1]);
                } else if i == 0 {
                    assert(h1[j] == h0[j - 1]);
                } else {
                    assert(h1[i] == h0[i - 1]);
                }
            }
        }
    }
}

/// Over a whole batch, every feed whose index held no hash twice still
/// holds none twice.
pub proof fn law_batch_keeps_indexes_unique(
    idx: Map<Seq<char>, Option<Seq<Seq<char>>>>,
    news: Map<Seq<char>, Option<Seq<Seq<char>>>>,
    refs: Seq<FeedRefresh>,
    u: Seq<char>,
)
    requires
        forall|v: Seq<char>| #[trigger] index_of(idx, v).no_duplicates(),
    ensures
        index_of(index_after(idx, news, refs), u).no_duplicates(),
    decreases refs.len(),
{
    if refs.len() > 0 {
        let m = index_after(idx, news, refs.drop_last());
        let w = refs.last().url@;
        law_batch_keeps_indexes_unique(idx, news, refs.drop_last(), w);
        law_index_stays_unique(index_of(m, w), news_of(news, w));
        if u != w {
            law_batch_keeps_indexes_unique(idx, news, refs.drop_last(), u);
        }
    }
}

proof fn lemma_offer_articles_known(
    arts: Map<Seq<char>, Option<Article>>,
    news: Map<Seq<char>, Option<Seq<Seq<char>>>>,
    u: Seq<char>,
    items: Seq<Article>,
)
    requires
        forall|j: int| 0 <= j < items.len() ==> arts.contains_key(#[trigger] items[j].hash@),
    ensures
        offer_articles(arts, news, u, items) == (arts, news),
    decreases items.len(),
{
    if items.len() > 0 {
        lemma_offer_articles_known(arts, news, u, items.drop_last());
        assert(arts.contains_key(items[items.len() - 1].hash@));
    }
}

proof fn lemma_offer_refreshes_known(arts: Map<Seq<char>, Option<Article>>, refs: Seq<FeedRefresh>)
    requires
        forall|i: int, j: int|
            0 <= i < refs.len() && 0 <= j < refs[i].articles@.len() ==> arts.contains_key(
                #[trigger] refs[i].articles@[j].hash@,
            ),
    ensures
        offer_refreshes(arts, refs) == (arts, Map::<Seq<char>, Option<Seq<Seq<char>>>>::empty()),
    decreases refs.len(),
{
    if refs.len() > 0 {
        assert forall|i: int, j: int|
            0 <= i < refs.drop_last().len() && 0 <= j < refs.drop_last()[i].articles@.len() implies arts.contains_key(
            #[trigger] refs.drop_last()[i].articles@[j].hash@,
        ) by {
            assert(refs.drop_last()[i] == refs[i]);
        }
        lemma_offer_refreshes_known(arts, refs.drop_last());
        let last = refs[refs.len() - 1];
        assert forall|j: int| 0 <= j < last.articles@.len() implies arts.contains_key(
            #[trigger] last.articles@[j].hash@,
        ) by {
            assert(arts.contains_key(refs[refs.len() - 1].articles@[j].hash@));
        }
        lemma_offer_articles_known(arts, Map::empty(), last.url@, last.articles@);
    }
}

proof fn lemma_index_after_has(
    idx: Map<Seq<char>, Option<Seq<Seq<char>>>>,
    news: Map<Seq<char>, Option<Seq<Seq<char>>>>,
    refs: Seq<FeedRefresh>,
    i: int,
)
    requires
        0 <= i < refs.len(),
    ensures
        stored(index_after(idx, news, refs), refs[i].url@) is Some,
    decreases refs.len(),
{
    if i < refs.len() - 1 {
        lemma_index_after_has(idx, news, refs.drop_last(), i);
        assert(refs.drop_last()[i] == refs[i]);
    }
}

proof fn lemma_index_after_no_news(idx: Map<Seq<char>, Option<Seq<Seq<char>>>>, refs: Seq<FeedRefresh>)
    requires
        forall|i: int| 0 <= i < refs.len() ==> stored(idx, #[trigger] refs[i].url@) is Some,
    ensures
        index_after(idx, Map::empty(), refs) == idx,
    decreases refs.len(),
{
    if refs.len() > 0 {
        assert forall|i: int| 0 <= i < refs.drop_last().len() implies stored(idx, #[trigger] refs.drop_last()[i].url@) is Some by {
            assert(refs.drop_last()[i] == refs[i]);
        }
        lemma_index_after_no_news(idx, refs.drop_last());
        let u = refs[refs.len() - 1].url@;
        assert(stored(idx, u) is Some);
        let e = Map::<Seq<char>, Option<Seq<Seq<char>>>>::empty();
        assert(news_of(e, u) == Seq::<Seq<char>>::empty());
        assert(idx.insert(u, Some(prepend_new(index_of(idx, u), news_of(e, u)))) =~= idx);
    }
}

/// The position of the last fetch of the feed `k`, or -1.
pub open spec fn last_fetch_of(refs: Seq<FeedRefresh>, k: Seq<char>) -> int
    decreases refs.len(),
{
    if refs.len() == 0 {
        -1
    } else if refs.last().url@ == k {
        refs.len() - 1
    } else {
        last_fetch_of(refs.drop_last(), k)
    }
}

proof fn lemma_record_metas_at(m: Map<Seq<char>, Option<FeedMeta>>, refs: Seq<FeedRefresh>, k: Seq<char>)
    ensures
        -1 <= last_fetch_of(refs, k) < refs.len(),
        last_fetch_of(refs, k) >= 0 ==> record_metas(m, refs).contains_key(k) && record_metas(m, refs)[k] == Some(
            meta_of(refs[last_fetch_of(refs, k)]),
        ),
        last_fetch_of(refs, k) < 0 ==> record_metas(m, refs).contains_key(k) == m.contains_key(k) && record_metas(
            m,
            refs,
        )[k] == m[k],
    decreases refs.len(),
{
    if refs.len() > 0 {
        lemma_record_metas_at(m, refs.drop_last(), k);
        if refs.last().url@ != k {
            let i = last_fetch_of(refs.drop_last(), k);
            if i >= 0 {
                assert(refs.drop_last()[i] == refs[i]);
            }
        }
    }
}

/// Storing the same batch a second time, right after the first, adds no
/// article, records no hash as new, and leaves the articles, the feeds'
/// metadata and the indexes as the first time left them; so each summary
/// of the second time has no new article and the same total and unread
/// count.
pub proof fn law_batch_twice_adds_nothing(
    arts: Map<Seq<char>, Option<Article>>,
    metas: Map<Seq<char>, Option<FeedMeta>>,
    idx: Map<Seq<char>, Option<Seq<Seq<char>>>>,
    refs: Seq<FeedRefresh>,
)
    ensures
        ({
            let (arts1, news1) = offer_refreshes(arts, refs);
            let idx1 = index_after(idx, news1, refs);
            let metas1 = record_metas(metas, refs);
            let (arts2, news2) = offer_refreshes(arts1, refs);
            &&& arts2 == arts1
            &&& news2 == Map::<Seq<char>, Option<Seq<Seq<char>>>>::empty()
            &&& forall|u: Seq<char>| #[trigger] news_of(news2, u).len() == 0
            &&& index_after(idx1, news2, refs) == idx1
            &&& record_metas(metas1, refs) == metas1
        }),
{
    let (arts1, news1) = offer_refreshes(arts, refs);
    let idx1 = index_after(idx, news1, refs);
    let metas1 = record_metas(metas, refs);
    assert forall|i: int, j: int|
        0 <= i < refs.len() && 0 <= j < refs[i].articles@.len() implies arts1.contains_key(
        #[trigger] refs[i].articles@[j].hash@,
    ) by {
        lemma_offer_refreshes_stores(arts, refs, i, j);
    }
    lemma_offer_refreshes_known(arts1, refs);
    let e = Map::<Seq<char>, Option<Seq<Seq<char>>>>::empty();
    assert forall|u: Seq<char>| #[trigger] news_of(e, u).len() == 0 by {}
    assert forall|i: int| 0 <= i < refs.len() implies stored(idx1, #[trigger] refs[i].url@) is Some by {
        lemma_index_after_has(idx, news1, refs, i);
    }
    lemma_index_after_no_news(idx1, refs);
    assert forall|k: Seq<char>| #[trigger] record_metas(metas1, refs).contains_key(k) == metas1.contains_key(k)
        && (metas1.contains_key(k) ==> record_metas(metas1, refs)[k] == metas1[k]) by {
        lemma_record_metas_at(metas, refs, k);
        lemma_record_metas_at(metas1, refs, k);
    }
    assert(record_metas(metas1, refs) =~= metas1);
}


/// Whether the time a stamp stands for is fixed by the text alone: blank,
/// with an offset, or in no known format. A date-time without offset is
/// read in the machine's zone, so its instant is not.
pub open spec fn stamp_fixed(t: Seq<char>) -> bool {
    ||| t.len() == 0
    ||| rfc3339_instant(t) is Some
    ||| rfc2822_instant(t) is Some
    ||| !naive_formats_accept(t)
}

proof fn lemma_fixed_key_unique(t: Seq<char>, a: Option<i64>, b: Option<i64>)
    requires
        stamp_fixed(t),
        key_outcome(t, a),
        key_outcome(t, b),
    ensures
        a == b,
{
}

/// Reading the fetch times twice gives the same times when every feed's
/// recorded fetch time is fixed by its text; so the worker waits no time
/// at all exactly when some feed is due, though the wait and the due
/// feeds are each worked out from their own reading.
pub proof fn law_wait_and_due_agree(
    c: Cache,
    feeds: Seq<FeedConfig>,
    now: i64,
    interval: i64,
    waited: Seq<Option<i64>>,
    due: Seq<Option<i64>>,
)
    requires
        interval > 0,
        fetch_times(c, feeds, waited),
        fetch_times(c, feeds, due),
        forall|i: int|
            0 <= i < feeds.len() ==> (stored(c.feed_table(), (#[trigger] feeds[i]).url@) matches Some(m)
                ==> stamp_fixed(trim_seq(m.last_fetched@))),
    ensures
        waited == due,
        (time_left(now, waited, interval) == 0) == (due_positions(now, due, interval).len() > 0),
{
    assert forall|i: int| 0 <= i < feeds.len() implies waited[i] == due[i] by {
        let f = feeds[i];
        match stored(c.feed_table(), f.url@) {
            Some(m) => lemma_fixed_key_unique(trim_seq(m.last_fetched@), waited[i], due[i]),
            None => {},
        }
    }
    assert(waited =~= due);
    law_no_wait_iff_due(now, due, interval);
}


/// For a stamp whose instant is fixed by its text, the sort key and the
/// displayed date agree on whether the text is a date at all.
pub proof fn law_key_and_display_agree(t: Seq<char>, key: Option<i64>, shown: Option<String>)
    requires
        stamp_fixed(t),
        key_outcome(t, key),
        display_outcome(t, shown),
    ensures
        (key is Some) == (shown is Some),
{
}


proof fn lemma_substring_in_concat(x: Seq<char>, y: Seq<char>, n: Seq<char>)
    ensures
        has_substring(x, n) ==> has_substring(x + y, n),
        has_substring(y, n) ==> has_substring(x + y, n),
{
    if has_substring(x, n) {
        let at = choose|at: int| occurs_at(x, n, at);
        assert((x + y).subrange(at, at + n.len()) =~= x.subrange(at, at + n.len()));
        assert(occurs_at(x + y, n, at));
    }
    if has_substring(y, n) {
        let at = choose|at: int| occurs_at(y, n, at);
        let at2 = at + x.len();
        assert((x + y).subrange(at2, at2 + n.len()) =~= y.subrange(at, at + n.len()));
        assert(occurs_at(x + y, n, at2));
    }
}

/// Whether the lowercased query occurs in the lowercased title,
/// description or content of the article.
pub open spec fn found_in_article(a: Article, q: Seq<char>) -> bool {
    ||| has_substring(lowercase_of(a.title@), lowercase_of(q))
    ||| has_substring(lowercase_of(a.description@), lowercase_of(q))
    ||| has_substring(lowercase_of(a.content@), lowercase_of(q))
}

proof fn lemma_found_in_haystack(a: Article, q: Seq<char>)
    requires
        found_in_article(a, q),
    ensures
        has_substring(search_haystack(a), lowercase_of(q)),
{
    let n = lowercase_of(q);
    let t = lowercase_of(a.title@);
    let d = lowercase_of(a.description@);
    let c = lowercase_of(a.content@);
    lemma_substring_in_concat(t, " "@, n);
    lemma_substring_in_concat(t + " "@, d, n);
    lemma_substring_in_concat(t + " "@ + d, " "@, n);
    lemma_substring_in_concat(t + " "@ + d + " "@, c, n);
}

proof fn lemma_matching_keeps(arts: Seq<Article>, q: Seq<char>, i: int)
    requires
        0 <= i < arts.len(),
        has_substring(search_haystack(arts[i]), lowercase_of(q)),
    ensures
        crate::cli::matching(arts, q).contains(arts[i]),
    decreases arts.len(),
{
    let m = crate::cli::matching(arts, q);
    if i == arts.len() - 1 {
        assert(m.last() == arts[i]);
    } else {
        lemma_matching_keeps(arts.drop_last(), q, i);
        assert(arts.drop_last()[i] == arts[i]);
        let m0 = crate::cli::matching(arts.drop_last(), q);
        let j = choose|j: int| 0 <= j < m0.len() && m0[j] == arts[i];
        if has_substring(search_haystack(arts.last()), lowercase_of(q)) {
            assert(m == m0.push(arts.last()));
            assert(m[j] == arts[i]);
        }
    }
}

/// A search, case-insensitive, looks in the title, the description and
/// the content: an article whose title, description or content holds the
/// query, whatever the case of either, is among the results of a search
/// in any list that holds it, and the article list's filter shows it.
pub proof fn law_search_finds_title_description_content(arts: Seq<Article>, q: Seq<char>, i: int)
    requires
        0 <= i < arts.len(),
        found_in_article(arts[i], q),
    ensures
        crate::cli::matching(arts, q).contains(arts[i]),
        crate::tui::passes(arts[i], q),
{
    lemma_found_in_haystack(arts[i], q);
    lemma_matching_keeps(arts, q, i);
}

proof fn lemma_least_left_bounds(now: i64, lasts: Seq<Option<i64>>, interval: i64)
    ensures
        least_left(now, lasts, interval) <= interval,
        forall|j: int|
            0 <= j < lasts.len() ==> match #[trigger] lasts[j] {
                Some(ts) => least_left(now, lasts, interval) <= interval - crate::backend::sat_sub(now, ts),
                None => least_left(now, lasts, interval) <= 0,
            },
        least_left(now, lasts, interval) == interval || exists|j: int|
            0 <= j < lasts.len() && match #[trigger] lasts[j] {
                Some(ts) => least_left(now, lasts, interval) == interval - crate::backend::sat_sub(now, ts),
                None => least_left(now, lasts, interval) == 0,
            },
    decreases lasts.len(),
{
    if lasts.len() > 0 {
        let p = lasts.drop_last();
        lemma_least_left_bounds(now, p, interval);
        let n = lasts.len() - 1;
        assert forall|j: int| 0 <= j < n implies lasts[j] == #[trigger] p[j] by {}
        if least_left(now, p, interval) != interval {
            let j = choose|j: int|
                0 <= j < p.len() && match #[trigger] p[j] {
                    Some(ts) => least_left(now, p, interval) == interval - crate::backend::sat_sub(now, ts),
                    None => least_left(now, p, interval) == 0,
                };
            assert(lasts[j] == p[j]);
        }
        assert(lasts[n] == lasts.last());
        let t = least_left(now, lasts, interval);
        assert forall|j: int| 0 <= j < lasts.len() implies match #[trigger] lasts[j] {
            Some(ts) => t <= interval - crate::backend::sat_sub(now, ts),
            None => t <= 0,
        } by {
            if j < n {
                assert(lasts[j] == p[j]);
            }
        }
    }
}

/// How long the worker waits when no feed is due: the least time left
/// over all the configured feeds, and never more than the interval. Every
/// feed that is not due yet is refreshed no later than its time comes.
pub proof fn law_wait_is_least_time_left(now: i64, lasts: Seq<Option<i64>>, interval: i64)
    requires
        interval > 0,
    ensures
        0 <= time_left(now, lasts, interval) <= interval,
        forall|j: int|
            0 <= j < lasts.len() && (#[trigger] lasts[j] matches Some(ts) && crate::backend::sat_sub(now, ts)
                < interval) ==> time_left(now, lasts, interval) <= interval - crate::backend::sat_sub(
                now,
                lasts[j]->0,
            ),
        time_left(now, lasts, interval) == 0 || time_left(now, lasts, interval) == interval || exists|j: int|
            0 <= j < lasts.len() && (#[trigger] lasts[j] matches Some(ts) && time_left(now, lasts, interval)
                == interval - crate::backend::sat_sub(now, ts)),
{
    lemma_least_left_bounds(now, lasts, interval);
    if !(exists|j: int| 0 <= j < lasts.len() && is_due_or_new(now, #[trigger] lasts[j], interval)) {
        lemma_least_left_positive(now, lasts, interval);
        let t = least_left(now, lasts, interval);
        if t != interval {
            let j = choose|j: int|
                0 <= j < lasts.len() && match #[trigger] lasts[j] {
                    Some(ts) => t == interval - crate::backend::sat_sub(now, ts),
                    None => t == 0,
                };
            assert(!is_due_or_new(now, lasts[j], interval));
        }
    }
}

/// Whether event `k` is a `link` tag whose `href` is `h` and whose `rel`
/// is missing or `alternate`.
pub open spec fn alternate_link_at(evs: Seq<crate::xml::XmlEvent>, k: int, h: Seq<char>) -> bool {
    &&& 0 <= k < evs.len()
    &&& evs[k] matches crate::xml::XmlEvent::Start { name, attributes } && name@ == "link"@
        && crate::feed::link_attributes(attributes@).0 == h && (crate::feed::link_attributes(attributes@).1.len()
        == 0 || crate::feed::link_attributes(attributes@).1 == "alternate"@)
}

/// Whether a link is empty or, up to `f`, the `href` of an alternate link
/// among the events.
pub open spec fn from_alternate(evs: Seq<crate::xml::XmlEvent>, l: Seq<char>, trimmed: bool) -> bool {
    l.len() == 0 || exists|k: int, h: Seq<char>|
        #[trigger] alternate_link_at(evs, k, h) && l == (if trimmed {
            trim_seq(h)
        } else {
            h
        })
}

proof fn lemma_from_alternate_grows(
    p: Seq<crate::xml::XmlEvent>,
    evs: Seq<crate::xml::XmlEvent>,
    l: Seq<char>,
    trimmed: bool,
)
    requires
        p.len() <= evs.len(),
        forall|k: int| 0 <= k < p.len() ==> #[trigger] p[k] == evs[k],
        from_alternate(p, l, trimmed),
    ensures
        from_alternate(evs, l, trimmed),
{
    if l.len() != 0 {
        let (k, h) = choose|k: int, h: Seq<char>|
            #[trigger] alternate_link_at(p, k, h) && l == (if trimmed {
                trim_seq(h)
            } else {
                h
            });
        assert(p[k] == evs[k]);
        assert(alternate_link_at(evs, k, h));
    }
}

proof fn lemma_atom_links(evs: Seq<crate::xml::XmlEvent>)
    ensures
        from_alternate(evs, crate::feed::atom_scan(evs).link, false),
        forall|i: int|
            0 <= i < crate::feed::atom_scan(evs).entries.len() ==> from_alternate(
                evs,
                (#[trigger] crate::feed::atom_scan(evs).entries[i]).link,
                true,
            ),
    decreases evs.len(),
{
    if evs.len() > 0 {
        let p = evs.drop_last();
        lemma_atom_links(p);
        let st = crate::feed::atom_scan(p);
        let st2 = crate::feed::atom_scan(evs);
        assert(st2 == crate::feed::atom_step(st, evs.last()));
        lemma_from_alternate_grows(p, evs, st.link, false);
        assert forall|i: int| 0 <= i < st.entries.len() implies from_alternate(evs, #[trigger] st.entries[i].link, true) by {
            lemma_from_alternate_grows(p, evs, st.entries[i].link, true);
        }
        let n = evs.len() - 1;
        match evs.last() {
            crate::xml::XmlEvent::Start { name, attributes } => {
                if name@ == "link"@ && st2.link != st.link {
                    assert(evs[n] == evs.last());
                    reveal_strlit("link");
                    reveal_strlit("feed");
                    reveal_strlit("entry");
                    assert("link"@[0] != "feed"@[0]);
                    assert("link"@.len() != "entry"@.len());
                    assert(name@ != "feed"@ && name@ != "entry"@);
                    assert(st2.link == crate::feed::atom_link(st, attributes@));
                    assert(alternate_link_at(evs, n, st2.link));
                }
            },
            crate::xml::XmlEvent::End { name } => {
                if name@ == "entry"@ {
                    let e = st2.entries.last();
                    if st.link.len() == 0 {
                        assert(trim_seq(st.link) =~= st.link);
                    } else {
                        let (k, h) = choose|k: int, h: Seq<char>| #[trigger] alternate_link_at(evs, k, h) && st.link == h;
                        assert(alternate_link_at(evs, k, h) && e.link == trim_seq(h));
                    }
                    assert forall|i: int| 0 <= i < st2.entries.len() implies from_alternate(
                        evs,
                        #[trigger] st2.entries[i].link,
                        true,
                    ) by {
                        if i < st.entries.len() {
                            assert(st2.entries[i] == st.entries[i]);
                        }
                    }
                }
            },
            _ => {},
        }
    }
}

/// An Atom entry's link is the `href` of one of its `link` tags whose
/// `rel` is missing or `alternate`, trimmed, or empty when there is none:
/// a `self`, `replies` or `edit` link never becomes the article's link.
pub proof fn law_atom_link_is_alternate(
    evs: Seq<crate::xml::XmlEvent>,
    feed_name: Seq<char>,
    r: Result<(String, Vec<Article>), String>,
)
    requires
        crate::feed::parse_matches(r, crate::feed::atom_result(evs, feed_name), feed_name),
    ensures
        r matches Ok((t, arts)) ==> forall|i: int|
            0 <= i < arts@.len() ==> from_alternate(evs, (#[trigger] arts@[i]).link@, true),
{
    let st = if exists|k: int| crate::feed::first_terminal_at(evs, k) {
        let k = choose|k: int| crate::feed::first_terminal_at(evs, k);
        let p = evs.take(k);
        lemma_atom_links(p);
        assert forall|i: int| 0 <= i < crate::feed::atom_scan(p).entries.len() implies from_alternate(
            evs,
            #[trigger] crate::feed::atom_scan(p).entries[i].link,
            true,
        ) by {
            lemma_from_alternate_grows(p, evs, crate::feed::atom_scan(p).entries[i].link, true);
        }
        crate::feed::atom_scan(p)
    } else {
        lemma_atom_links(evs);
        crate::feed::atom_scan(evs)
    };
    if let Ok((t, arts)) = r {
        assert forall|i: int| 0 <= i < arts@.len() implies from_alternate(evs, (#[trigger] arts@[i]).link@, true) by {
            assert(crate::feed::article_from_entry(arts@[i], st.entries[i], feed_name));
        }
    }
}

/// A listing is newest first, then by title: of two articles, the earlier
/// one has a later date, or the same date and a title that is not after
/// the other's in text order.
pub proof fn law_listing_newest_first_then_title(arts: Seq<Article>, r: Seq<Article>)
    requires
        crate::cli::sorted_articles(arts, r),
    ensures
        exists|ks: Seq<i64>|
            ks.len() == r.len() && (forall|a: int| 0 <= a < r.len() ==> crate::cli::sort_key_of(#[trigger] r[a].published, ks[a]))
                && (forall|a: int, b: int|
                0 <= a < b < r.len() ==> #[trigger] ks[a] > #[trigger] ks[b] || (ks[a] == ks[b] && !crate::text::text_less(
                    r[b].title@,
                    r[a].title@,
                ))),
{
    let (keys, perm) = choose|keys: Seq<i64>, perm: Seq<usize>|
        keys.len() == arts.len() && (forall|i: int| 0 <= i < arts.len() ==> crate::cli::sort_key_of(#[trigger] arts[i].published, keys[i]))
            && crate::cli::sorted_order(perm, keys, arts) && (forall|a: int, b: int|
            0 <= a < b < perm.len() ==> #[trigger] perm[a] != #[trigger] perm[b]) && r
            == crate::cli::permuted(arts, perm);
    let ks = Seq::new(perm.len(), |a: int| keys[perm[a] as int]);
    assert forall|a: int| 0 <= a < r.len() implies crate::cli::sort_key_of(#[trigger] r[a].published, ks[a]) by {
        assert(r[a] == arts[perm[a] as int]);
    }
    assert forall|a: int, b: int| 0 <= a < b < r.len() implies #[trigger] ks[a] > #[trigger] ks[b] || (ks[a] == ks[b]
        && !crate::text::text_less(r[b].title@, r[a].title@)) by {
        let (i, j) = (perm[a] as int, perm[b] as int);
        assert(crate::cli::goes_before(keys, arts, i, j));
        crate::text::lemma_text_less_asym(arts[i].title@, arts[j].title@);
        assert(r[a] == arts[i] && r[b] == arts[j]);
    }
    assert(ks.len() == r.len());
}

/// The unread count summed over the feed list adds up each feed's own
/// unread count: one feed gives its count, and two lists together give
/// the sum of theirs. When every feed has no more unread articles than
/// articles, the sum is no more than the total, and equals it only when
/// every article of every feed is unread.
pub proof fn law_unread_sum_adds_feed_counts(x: crate::tui::FeedRow, a: Seq<crate::tui::FeedRow>, b: Seq<crate::tui::FeedRow>)
    ensures
        crate::tui::sum_unread(seq![x]) == x.unread,
        crate::tui::sum_unread(a + b) == crate::tui::sum_unread(a) + crate::tui::sum_unread(b),
        (forall|i: int| 0 <= i < a.len() ==> (#[trigger] a[i]).unread <= a[i].total) ==> {
            &&& crate::tui::sum_unread(a) <= crate::tui::sum_totals(a)
            &&& crate::tui::sum_unread(a) == crate::tui::sum_totals(a) ==> forall|i: int|
                0 <= i < a.len() ==> (#[trigger] a[i]).unread == a[i].total
        },
    decreases b.len(),
{
    assert(seq![x].drop_last() =~= Seq::<crate::tui::FeedRow>::empty());
    assert(seq![x].last() == x);
    assert(crate::tui::sum_unread(Seq::<crate::tui::FeedRow>::empty()) == 0);
    assert(crate::tui::sum_unread(seq![x]) == crate::tui::sum_unread(seq![x].drop_last()) + x.unread);
    if b.len() > 0 {
        law_unread_sum_adds_feed_counts(x, a, b.drop_last());
        assert((a + b).drop_last() =~= a + b.drop_last());
    } else {
        assert(a + b =~= a);
    }
    lemma_unread_within_totals(a);
}

proof fn lemma_unread_within_totals(a: Seq<crate::tui::FeedRow>)
    ensures
        (forall|i: int| 0 <= i < a.len() ==> (#[trigger] a[i]).unread <= a[i].total) ==> {
            &&& crate::tui::sum_unread(a) <= crate::tui::sum_totals(a)
            &&& crate::tui::sum_unread(a) == crate::tui::sum_totals(a) ==> forall|i: int|
                0 <= i < a.len() ==> (#[trigger] a[i]).unread == a[i].total
        },
    decreases a.len(),
{
    if a.len() > 0 && (forall|i: int| 0 <= i < a.len() ==> (#[trigger] a[i]).unread <= a[i].total) {
        let p = a.drop_last();
        assert forall|i: int| 0 <= i < p.len() implies (#[trigger] p[i]).unread <= p[i].total by {
            assert(p[i] == a[i]);
        }
        lemma_unread_within_totals(p);
        assert(a.last() == a[a.len() - 1]);
        if crate::tui::sum_unread(a) == crate::tui::sum_totals(a) {
            assert forall|i: int| 0 <= i < a.len() implies (#[trigger] a[i]).unread == a[i].total by {
                if i < p.len() {
                    assert(p[i] == a[i]);
                }
            }
        }
    }
}


/// The text a search reads of an article: its title, description and
/// content, lowercased, with a space between them.
pub open spec fn article_search_text(a: Article) -> Seq<char> {
    lowercase_of(a.title@) + " "@ + lowercase_of(a.description@) + " "@ + lowercase_of(a.content@)
}

proof fn lemma_matching_only(arts: Seq<Article>, q: Seq<char>)
    ensures
        forall|k: int|
            0 <= k < crate::cli::matching(arts, q).len() ==> arts.contains(#[trigger] crate::cli::matching(arts, q)[k])
                && has_substring(search_haystack(crate::cli::matching(arts, q)[k]), lowercase_of(q)),
        crate::cli::matching(arts, q).len() <= arts.len(),
    decreases arts.len(),
{
    if arts.len() > 0 {
        let p = arts.drop_last();
        lemma_matching_only(p, q);
        let m0 = crate::cli::matching(p, q);
        let m = crate::cli::matching(arts, q);
        assert forall|k: int| 0 <= k < m.len() implies arts.contains(#[trigger] m[k]) && has_substring(
            search_haystack(m[k]),
            lowercase_of(q),
        ) by {
            if k < m0.len() {
                assert(m[k] == m0[k]);
                let j = choose|j: int| 0 <= j < p.len() && p[j] == m0[k];
                assert(arts[j] == p[j]);
            } else {
                assert(m[k] == arts[arts.len() - 1]);
            }
        }
    }
}

/// A search gives only articles of the list searched, each one whose
/// lowercased title, description and content, read together, hold the
/// lowercased query; the article list's filter shows an article exactly
/// when the query is empty or so held.
pub proof fn law_search_gives_only_matches(arts: Seq<Article>, q: Seq<char>, a: Article)
    ensures
        crate::cli::matching(arts, q).contains(a) ==> arts.contains(a) && has_substring(
            article_search_text(a),
            lowercase_of(q),
        ),
        crate::tui::passes(a, q) <==> (q.len() == 0 || has_substring(article_search_text(a), lowercase_of(q))),
{
    lemma_matching_only(arts, q);
    if crate::cli::matching(arts, q).contains(a) {
        let k = choose|k: int| 0 <= k < crate::cli::matching(arts, q).len() && crate::cli::matching(arts, q)[k] == a;
        assert(arts.contains(crate::cli::matching(arts, q)[k]));
    }
}

proof fn lemma_due_positions_exact(now: i64, lasts: Seq<Option<i64>>, interval: i64)
    requires
        lasts.len() <= usize::MAX,
    ensures
        forall|k: int|
            0 <= k < due_positions(now, lasts, interval).len() ==> (#[trigger] due_positions(now, lasts, interval)[k])
                < lasts.len(),
        forall|j: int|
            0 <= j < lasts.len() ==> (due_positions(now, lasts, interval).contains(j as usize) <==> is_due(
                now,
                #[trigger] lasts[j],
                interval,
            )),
        forall|a: int, b: int|
            0 <= a < b < due_positions(now, lasts, interval).len() ==> #[trigger] due_positions(now, lasts, interval)[a]
                < #[trigger] due_positions(now, lasts, interval)[b],
    decreases lasts.len(),
{
    if lasts.len() > 0 {
        let p = lasts.drop_last();
        lemma_due_positions_exact(now, p, interval);
        let d0 = due_positions(now, p, interval);
        let d = due_positions(now, lasts, interval);
        let n = lasts.len() - 1;
        assert(lasts[n] == lasts.last());
        let hit = is_due(now, lasts.last(), interval);
        if hit {
            assert(d == d0.push(n as usize));
        } else {
            assert(d == d0);
        }
        assert forall|k: int| 0 <= k < d.len() implies (#[trigger] d[k]) < lasts.len() by {
            if k < d0.len() {
                assert(d[k] == d0[k]);
            }
        }
        assert forall|j: int| 0 <= j < lasts.len() implies (d.contains(j as usize) <==> is_due(
            now,
            #[trigger] lasts[j],
            interval,
        )) by {
            if d.contains(j as usize) {
                let k = choose|k: int| 0 <= k < d.len() && d[k] == j as usize;
                if k < d0.len() {
                    assert(d[k] == d0[k]);
                    assert(d0.contains(j as usize));
                    assert(j < n);
                    assert(lasts[j] == p[j]);
                } else {
                    assert(j == n);
                }
            }
            if is_due(now, lasts[j], interval) {
                if j < n {
                    assert(lasts[j] == p[j]);
                    assert(d0.contains(j as usize));
                    let k = choose|k: int| 0 <= k < d0.len() && d0[k] == j as usize;
                    assert(d[k] == d0[k]);
                } else {
                    assert(d[d.len() - 1] == j as usize);
                }
            }
        }
        assert forall|a: int, b: int| 0 <= a < b < d.len() implies #[trigger] d[a] < #[trigger] d[b] by {
            assert(d[a] == d0[a]);
            if b < d0.len() {
                assert(d[b] == d0[b]);
            } else {
                assert(d[b] == n as usize);
            }
        }
    }
}

/// The feeds refreshed at `now` are, in configuration order, exactly
/// those never fetched or fetched at least the interval ago.
pub proof fn law_due_feeds_are_those_past_interval(now: i64, lasts: Seq<Option<i64>>, interval: i64, j: int)
    requires
        interval > 0,
        lasts.len() <= usize::MAX,
        0 <= j < lasts.len(),
    ensures
        due_positions(now, lasts, interval).contains(j as usize) <==> match lasts[j] {
            None => true,
            Some(ts) => now - ts >= interval,
        },
        forall|a: int, b: int|
            0 <= a < b < due_positions(now, lasts, interval).len() ==> #[trigger] due_positions(now, lasts, interval)[a]
                < #[trigger] due_positions(now, lasts, interval)[b] < lasts.len(),
{
    lemma_due_positions_exact(now, lasts, interval);
    assert(due_positions(now, lasts, interval).contains(j as usize) <==> is_due(now, lasts[j], interval));
}

/// The article total summed over the feed list adds up each feed's own
/// total: one feed gives its total, two lists together the sum of theirs.
pub proof fn law_total_sum_adds_feed_totals(x: crate::tui::FeedRow, a: Seq<crate::tui::FeedRow>, b: Seq<crate::tui::FeedRow>)
    ensures
        crate::tui::sum_totals(seq![x]) == x.total,
        crate::tui::sum_totals(a + b) == crate::tui::sum_totals(a) + crate::tui::sum_totals(b),
    decreases b.len(),
{
    assert(seq![x].drop_last() =~= Seq::<crate::tui::FeedRow>::empty());
    assert(seq![x].last() == x);
    assert(crate::tui::sum_totals(Seq::<crate::tui::FeedRow>::empty()) == 0);
    assert(crate::tui::sum_totals(seq![x]) == crate::tui::sum_totals(seq![x].drop_last()) + x.total);
    if b.len() > 0 {
        law_total_sum_adds_feed_totals(x, a, b.drop_last());
        assert((a + b).drop_last() =~= a + b.drop_last());
    } else {
        assert(a + b =~= a);
    }
}

} // verus!
