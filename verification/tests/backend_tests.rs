use tn::backend::{
    due_feed_indices, fetch_one_feed, mark_feed_read, next_refresh_timeout, plan_command, refresh_feeds,
    BackendCommand, BackendResponse, BackendStep,
};
use tn::cache::Cache;
use tn::config::FeedConfig;
use tn::datetime::datetime_sort_key;
use tn::feed::{Article, FeedMeta};

fn feeds() -> Vec<FeedConfig> {
    vec![
        FeedConfig { name: "A".to_string(), url: "https://a/feed".to_string() },
        FeedConfig { name: "B".to_string(), url: "https://b/feed".to_string() },
    ]
}

fn article(hash: &str) -> Article {
    Article {
        hash: hash.to_string(),
        title: hash.to_string(),
        link: format!("https://x/{}", hash),
        description: String::new(),
        content: String::new(),
        published: None,
        feed_name: "A".to_string(),
        read: false,
    }
}

#[test]
fn schedule_follows_last_fetch() {
    let mut cache = Cache::new();
    let fetched = "2024-01-01T00:00:00Z";
    let t = datetime_sort_key(Some(fetched)).unwrap();
    cache.put_feed_meta(&FeedMeta {
        url: "https://a/feed".to_string(),
        title: "A".to_string(),
        last_fetched: fetched.to_string(),
    });
    assert_eq!(due_feed_indices(t + 100, &cache, &feeds(), 300), vec![1]);
    assert_eq!(next_refresh_timeout(t + 100, &cache, &feeds()[..1], 300), 200);
    assert_eq!(next_refresh_timeout(t + 100, &cache, &feeds(), 300), 0);
    assert_eq!(due_feed_indices(t + 300, &cache, &feeds()[..1], 300), vec![0]);
    assert_eq!(next_refresh_timeout(t + 300, &cache, &feeds()[..1], 300), 0);
    assert_eq!(next_refresh_timeout(t, &cache, &[], 300), 300);
}

#[test]
fn refresh_reports_in_order() {
    let mut cache = Cache::new();
    let ok = fetch_one_feed(
        "https://b/feed",
        "B",
        Ok(("B title".to_string(), vec![article("b1")])),
        "2024-01-01 00:00:00".to_string(),
    );
    let err = fetch_one_feed("https://a/feed", "A", Err("timeout".to_string()), "x".to_string());
    assert!(err.is_err());
    let reports = refresh_feeds(&mut cache, &feeds(), vec![err, ok]);
    assert_eq!(reports.len(), 2);
    assert_eq!(reports[0].feed_url, "https://a/feed");
    assert_eq!(reports[0].error.as_deref(), Some("timeout"));
    assert_eq!(reports[1].feed_url, "https://b/feed");
    assert_eq!(reports[1].new_articles, 1);
    assert_eq!(reports[1].total, 1);
    assert_eq!(reports[1].fetched_at.as_deref(), Some("2024-01-01 00:00:00"));
    assert!(cache.get_article("b1").is_some());
}

#[test]
fn commands_are_planned() {
    let mut cache = Cache::new();
    cache.put_articles(&[article("a1"), article("a2")]);
    cache.put_feed_index("https://a/feed", &["a1".to_string(), "a2".to_string()]);
    match plan_command(&mut cache, &feeds(), BackendCommand::FetchAllFeeds) {
        BackendStep::Refresh { feeds } => assert_eq!(feeds, vec![0, 1]),
        _ => panic!("expected refresh"),
    }
    match plan_command(&mut cache, &feeds(), BackendCommand::FetchFeed { url: "https://b/feed".to_string() }) {
        BackendStep::Refresh { feeds } => assert_eq!(feeds, vec![1]),
        _ => panic!("expected refresh"),
    }
    match plan_command(&mut cache, &feeds(), BackendCommand::MarkRead { hash: "a1".to_string(), read: true }) {
        BackendStep::Reply { response: BackendResponse::ArticleMutation { hash, read } } => {
            assert_eq!(hash, "a1");
            assert!(read);
        }
        _ => panic!("expected reply"),
    }
    assert!(cache.get_article("a1").unwrap().read);
    assert!(matches!(plan_command(&mut cache, &feeds(), BackendCommand::Shutdown), BackendStep::Stop));
    mark_feed_read(&mut cache, "https://a/feed");
    assert!(cache.get_article("a2").unwrap().read);
}
