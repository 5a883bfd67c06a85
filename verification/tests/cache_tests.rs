use tn::cache::{Cache, FeedRefresh};
use tn::feed::Article;

const FEED_URL: &str = "https://example.com/feed";
const FEED_NAME: &str = "Example Feed";

fn article(hash: &str, read: bool) -> Article {
    Article {
        hash: hash.to_string(),
        title: format!("Article {}", hash),
        link: format!("https://example.com/{}", hash),
        description: "desc".to_string(),
        content: "content".to_string(),
        published: Some("2026-04-30 09:00:00".to_string()),
        feed_name: FEED_NAME.to_string(),
        read,
    }
}

#[test]
fn refresh_batch_inserts_articles_and_summarizes_feed() {
    let mut cache = Cache::new();
    let summaries = cache.apply_refresh_batch(&[FeedRefresh {
        url: FEED_URL.to_string(),
        name: FEED_NAME.to_string(),
        title: FEED_NAME.to_string(),
        fetched_at: "2026-04-30 10:00:00".to_string(),
        articles: vec![article("a1", false)],
    }]);

    assert_eq!(summaries.len(), 1);
    assert_eq!(summaries[0].new_articles, 1);
    assert_eq!(summaries[0].total, 1);
    assert_eq!(summaries[0].unread, 1);
    assert!(cache.get_article("a1").is_some());
    assert_eq!(cache.get_feed_index(FEED_URL).unwrap(), vec!["a1"]);
}

#[test]
fn refresh_batch_preserves_existing_read_state() {
    let mut cache = Cache::new();
    cache.put_articles(&[article("a1", true)]);
    cache.put_feed_index(FEED_URL, &["a1".to_string()]);

    let summaries = cache.apply_refresh_batch(&[FeedRefresh {
        url: FEED_URL.to_string(),
        name: FEED_NAME.to_string(),
        title: FEED_NAME.to_string(),
        fetched_at: "2026-04-30 10:00:00".to_string(),
        articles: vec![article("a1", false)],
    }]);

    assert_eq!(summaries[0].new_articles, 0);
    assert_eq!(summaries[0].unread, 0);
    assert!(cache.get_article("a1").unwrap().read);
}

#[test]
fn refresh_puts_new_articles_in_front() {
    let mut cache = Cache::new();
    cache.put_articles(&[article("old", false)]);
    cache.put_feed_index(FEED_URL, &["old".to_string()]);
    let summaries = cache.apply_refresh_batch(&[FeedRefresh {
        url: FEED_URL.to_string(),
        name: FEED_NAME.to_string(),
        title: FEED_NAME.to_string(),
        fetched_at: "2026-04-30 10:00:00".to_string(),
        articles: vec![article("n1", false), article("n2", false), article("old", false)],
    }]);
    assert_eq!(summaries[0].new_articles, 2);
    assert_eq!(summaries[0].total, 3);
    assert_eq!(summaries[0].unread, 3);
    assert_eq!(
        cache.get_feed_index(FEED_URL).unwrap(),
        vec!["n2".to_string(), "n1".to_string(), "old".to_string()]
    );
    let meta = cache.get_feed_meta(FEED_URL).unwrap();
    assert_eq!(meta.last_fetched, "2026-04-30 10:00:00");
    assert_eq!(meta.title, FEED_NAME);
}

#[test]
fn mark_read_then_get() {
    let mut cache = Cache::new();
    cache.put_articles(&[article("a1", false), article("a2", false)]);
    cache.mark_read("a1", true);
    assert!(cache.get_article("a1").unwrap().read);
    assert!(!cache.get_article("a2").unwrap().read);
    cache.mark_read("a1", false);
    assert!(!cache.get_article("a1").unwrap().read);
    cache.mark_read("missing", true);
    assert!(cache.get_article("missing").is_none());
}

#[test]
fn listings_follow_feed_order() {
    let mut cache = Cache::new();
    cache.put_articles(&[article("a1", false), article("b1", true)]);
    cache.put_feed_index("https://b.example/feed", &["b1".to_string()]);
    cache.put_feed_index("https://a.example/feed", &["a1".to_string(), "gone".to_string()]);
    assert_eq!(
        cache.list_feed_urls(),
        vec!["https://a.example/feed".to_string(), "https://b.example/feed".to_string()]
    );
    let all: Vec<String> = cache.list_all_articles().into_iter().map(|a| a.hash).collect();
    assert_eq!(all, vec!["a1".to_string(), "b1".to_string()]);
    let unread: Vec<String> = cache.list_unread_articles().into_iter().map(|a| a.hash).collect();
    assert_eq!(unread, vec!["a1".to_string()]);
    assert_eq!(cache.list_feed_articles("https://a.example/feed").len(), 1);
    assert!(cache.list_feed_articles("https://none.example").is_empty());
}

#[test]
fn put_then_get() {
    let mut cache = Cache::new();
    cache.put_articles(&[article("p1", false), article("p2", true)]);
    assert_eq!(cache.get_article("p1").unwrap().title, "Article p1");
    assert!(cache.get_article("p2").unwrap().read);
    let mut replaced = article("p1", true);
    replaced.title = "Changed".to_string();
    cache.put_articles(&[replaced]);
    assert_eq!(cache.get_article("p1").unwrap().title, "Changed");
    assert!(cache.get_article("p3").is_none());
}

fn batch() -> Vec<FeedRefresh> {
    vec![FeedRefresh {
        url: FEED_URL.to_string(),
        name: FEED_NAME.to_string(),
        title: FEED_NAME.to_string(),
        fetched_at: "2026-04-30 10:00:00".to_string(),
        articles: vec![article("a1", false), article("a2", true), article("a1", false)],
    }]
}

#[test]
fn same_batch_twice_adds_nothing() {
    let mut cache = Cache::new();
    let first = cache.apply_refresh_batch(&batch());
    let index_after_first = cache.get_feed_index(FEED_URL).unwrap();
    let second = cache.apply_refresh_batch(&batch());
    assert_eq!(first[0].new_articles, 2);
    assert_eq!(second[0].new_articles, 0);
    assert_eq!(second[0].total, first[0].total);
    assert_eq!(second[0].unread, first[0].unread);
    assert_eq!(cache.get_feed_index(FEED_URL).unwrap(), index_after_first);
    assert!(cache.get_article("a2").unwrap().read);
}

#[test]
fn batch_keeps_index_free_of_repeats() {
    let mut cache = Cache::new();
    cache.put_articles(&[article("old", false)]);
    cache.put_feed_index(FEED_URL, &["old".to_string()]);
    let mut refs = batch();
    refs[0].articles.push(article("old", false));
    refs[0].articles.push(article("a2", false));
    let summaries = cache.apply_refresh_batch(&refs);
    let index = cache.get_feed_index(FEED_URL).unwrap();
    assert_eq!(index, vec!["a2".to_string(), "a1".to_string(), "old".to_string()]);
    assert_eq!(summaries[0].total, index.len());
}
