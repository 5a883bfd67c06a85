use tn::cache::{Cache, FeedRefresh};
use tn::cli::{handle_command, help_text, Command, Response};
use tn::feed::Article;

const FEED: &str = "https://example.com/feed";

fn article(hash: &str, title: &str, published: Option<&str>) -> Article {
    Article {
        hash: hash.to_string(),
        title: title.to_string(),
        link: format!("https://example.com/{}", hash),
        description: "desc".to_string(),
        content: "Body text".to_string(),
        published: published.map(|p| p.to_string()),
        feed_name: "Example".to_string(),
        read: false,
    }
}

fn cache() -> Cache {
    let mut cache = Cache::new();
    cache.apply_refresh_batch(&[FeedRefresh {
        url: FEED.to_string(),
        name: "Example".to_string(),
        title: "Example".to_string(),
        fetched_at: "2026-04-30 10:00:00".to_string(),
        articles: vec![
            article("a1", "First", Some("2024-01-01T00:00:00Z")),
            article("a2", "Second", Some("2024-02-01T00:00:00Z")),
            article("a3", "Alpha", None),
        ],
    }]);
    cache
}

#[test]
fn help_lists_the_commands() {
    let h = help_text();
    assert!(h.contains("list_folders"));
    assert!(h.contains("list_articles"));
    assert!(h.contains("get_article"));
    assert!(matches!(handle_command(&mut cache(), Command::Help), Response::Help { help } if help == h));
}

#[test]
fn folders_and_listing() {
    let mut c = cache();
    match handle_command(&mut c, Command::ListFolders) {
        Response::Folders { folders } => {
            assert_eq!(folders.len(), 3);
            assert_eq!(folders[0].id, "all");
            assert_eq!(folders[1].id, "unread");
            assert_eq!(folders[2].id, FEED);
            assert_eq!(folders[2].total, 3);
            assert_eq!(folders[2].unread, 3);
        }
        _ => panic!("expected folders"),
    }
    match handle_command(
        &mut c,
        Command::ListArticles { folder: FEED.to_string(), offset: 0, limit: Some(2) },
    ) {
        Response::Articles { total, articles, limit, .. } => {
            assert_eq!(total, 3);
            assert_eq!(limit, 2);
            let hs: Vec<&str> = articles.iter().map(|a| a.hash.as_str()).collect();
            assert_eq!(hs, vec!["a2", "a1"]);
        }
        _ => panic!("expected articles"),
    }
    match handle_command(
        &mut c,
        Command::ListArticles { folder: "all".to_string(), offset: 2, limit: Some(5000) },
    ) {
        Response::Articles { limit, articles, .. } => {
            assert_eq!(limit, 1000);
            assert_eq!(articles.len(), 1);
            assert_eq!(articles[0].hash, "a3");
        }
        _ => panic!("expected articles"),
    }
    assert!(matches!(
        handle_command(&mut c, Command::ListArticles { folder: "nope".to_string(), offset: 0, limit: None }),
        Response::Failure { error } if error == "unknown folder: nope"
    ));
}

#[test]
fn reading_and_marking() {
    let mut c = cache();
    assert!(matches!(
        handle_command(&mut c, Command::GetArticle { hash: "a1".to_string() }),
        Response::ArticleFound { article } if article.title == "First"
    ));
    assert!(matches!(
        handle_command(&mut c, Command::GetArticle { hash: "zz".to_string() }),
        Response::Failure { .. }
    ));
    assert!(matches!(
        handle_command(&mut c, Command::MarkRead { hash: "a1".to_string(), read: true }),
        Response::ReadMarked { read: true, .. }
    ));
    assert!(c.get_article("a1").unwrap().read);
    match handle_command(&mut c, Command::MarkFolderRead { folder: "unread".to_string() }) {
        Response::FolderMarked { updated, .. } => assert_eq!(updated, 2),
        _ => panic!("expected folder marked"),
    }
    assert!(c.list_unread_articles().is_empty());
    assert!(matches!(handle_command(&mut c, Command::Quit), Response::Quit));
}

#[test]
fn search_is_case_insensitive() {
    let mut c = cache();
    match handle_command(
        &mut c,
        Command::SearchArticles { query: "SECOND".to_string(), folder: "all".to_string(), offset: 0, limit: None },
    ) {
        Response::SearchResults { total, articles, .. } => {
            assert_eq!(total, 1);
            assert_eq!(articles[0].hash, "a2");
        }
        _ => panic!("expected search results"),
    }
}
