use tn::backend::{BackendCommand, BackendResponse, FeedRefreshReport};
use tn::cache::Cache;
use tn::config::{Config, FeedConfig, Theme, UiConfig};
use tn::datetime::normalize_datetime_to_local;
use tn::feed::Article;
use tn::input::{InputEvent, Key, MouseEvent};
use tn::tui::{App, Effect, FeedScope, LogTab, Screen};

const A: &str = "https://a.example/feed";
const B: &str = "https://b.example/feed";

fn article(hash: &str, title: &str, feed: &str, published: &str, read: bool) -> Article {
    Article {
        hash: hash.to_string(),
        title: title.to_string(),
        link: format!("https://example.com/{}", hash),
        description: format!("about {}", title),
        content: String::new(),
        published: Some(published.to_string()),
        feed_name: feed.to_string(),
        read,
    }
}

fn setup() -> (Config, Cache) {
    let config = Config {
        ui: UiConfig::default_values(),
        theme: Theme::empty(),
        feeds: vec![
            FeedConfig { name: "Alpha".to_string(), url: A.to_string() },
            FeedConfig { name: "Beta".to_string(), url: B.to_string() },
        ],
    };
    let mut cache = Cache::new();
    cache.put_articles(&[
        article("a1", "First A", "Alpha", "2024-01-02T00:00:00Z", false),
        article("a2", "Second A", "Alpha", "2024-01-01T00:00:00Z", true),
        article("b1", "First B", "Beta", "2024-01-03T00:00:00Z", false),
    ]);
    cache.put_feed_index(A, &["a1".to_string(), "a2".to_string()]);
    cache.put_feed_index(B, &["b1".to_string()]);
    (config, cache)
}

fn key(k: Key) -> InputEvent {
    InputEvent::Key(k)
}

fn press(app: &mut App, cache: &Cache, input: InputEvent) -> (bool, Vec<Effect>) {
    let mut effects = Vec::new();
    let quit = app.handle_input(input, cache, &mut effects);
    (quit, effects)
}

fn hashes(app: &App) -> Vec<String> {
    app.articles.iter().map(|a| a.hash.clone()).collect()
}

#[test]
fn app_starts_on_the_feed_list() {
    let (config, cache) = setup();
    let app = App::new(&config, &cache, false);
    assert_eq!(app.screen, Screen::FeedList);
    assert_eq!(app.feeds.len(), 2);
    assert_eq!(app.feeds[0].name, "Alpha");
    assert_eq!(app.feeds[0].total, 2);
    assert_eq!(app.feeds[0].unread, 1);
    assert_eq!(app.feeds[1].total, 1);
    assert_eq!(app.feeds[1].unread, 1);
    assert_eq!(app.status, "Ready");
    assert!(app.last_updated.is_none());
    assert_eq!(app.page_size, 100);
    assert!(app.pending_redraw);
    let offline = App::new(&config, &cache, true);
    assert_eq!(offline.status, "Offline mode: browsing cache");
}

#[test]
fn app_takes_the_latest_fetch_as_last_update() {
    let (config, mut cache) = setup();
    cache.put_feed_meta(&tn::feed::FeedMeta {
        url: A.to_string(),
        title: "Alpha".to_string(),
        last_fetched: "2024-03-01T10:00:00Z".to_string(),
    });
    cache.put_feed_meta(&tn::feed::FeedMeta {
        url: B.to_string(),
        title: "Beta".to_string(),
        last_fetched: "2024-03-02T10:00:00Z".to_string(),
    });
    let app = App::new(&config, &cache, false);
    assert_eq!(app.last_updated, normalize_datetime_to_local("2024-03-02T10:00:00Z"));
    assert_eq!(app.feeds[0].last_updated, normalize_datetime_to_local("2024-03-01T10:00:00Z"));
}

#[test]
fn feed_list_navigation_and_open() {
    let (config, cache) = setup();
    let mut app = App::new(&config, &cache, false);
    press(&mut app, &cache, key(Key::Up));
    assert_eq!(app.selected_feed, 0);
    press(&mut app, &cache, key(Key::Down));
    press(&mut app, &cache, key(Key::Char('j')));
    assert_eq!(app.selected_feed, 2);
    let (quit, effects) = press(&mut app, &cache, key(Key::Enter));
    assert!(!quit);
    assert!(effects.is_empty());
    assert_eq!(app.screen, Screen::ArticleList);
    assert!(matches!(&app.selected_feed_scope, Some(FeedScope::Feed(u)) if u == A));
    assert_eq!(hashes(&app), vec!["a1", "a2"]);
    assert_eq!(app.selected_article, 0);
}

#[test]
fn combined_lists_interleave_and_sort() {
    let (config, cache) = setup();
    let mut app = App::new(&config, &cache, false);
    press(&mut app, &cache, key(Key::Enter));
    assert!(matches!(app.selected_feed_scope, Some(FeedScope::All)));
    assert_eq!(hashes(&app), vec!["b1", "a1", "a2"]);
    press(&mut app, &cache, key(Key::Char('q')));
    assert_eq!(app.screen, Screen::FeedList);
    assert!(app.selected_feed_scope.is_none());
    press(&mut app, &cache, key(Key::Down));
    press(&mut app, &cache, key(Key::Enter));
    assert!(matches!(app.selected_feed_scope, Some(FeedScope::Unread)));
    assert_eq!(hashes(&app), vec!["b1", "a1"]);
}

#[test]
fn opening_an_article_marks_it_read() {
    let (config, cache) = setup();
    let mut app = App::new(&config, &cache, false);
    press(&mut app, &cache, key(Key::Down));
    press(&mut app, &cache, key(Key::Down));
    press(&mut app, &cache, key(Key::Enter));
    let (_, effects) = press(&mut app, &cache, key(Key::Enter));
    assert_eq!(app.screen, Screen::ArticleView);
    assert_eq!(effects.len(), 1);
    assert!(matches!(&effects[0], Effect::Send(BackendCommand::MarkRead { hash, read: true }) if hash == "a1"));
    assert!(app.articles[0].read);
    assert_eq!(app.feeds[0].unread, 0);
    assert_eq!(app.feeds[0].total, 2);
    let (_, effects) = press(&mut app, &cache, key(Key::Char('n')));
    assert_eq!(app.selected_article, 1);
    assert!(effects.is_empty());
    press(&mut app, &cache, key(Key::Char('j')));
    assert_eq!(app.article_scroll, 1);
    press(&mut app, &cache, key(Key::Char(' ')));
    assert_eq!(app.article_scroll, 16);
    press(&mut app, &cache, key(Key::PageUp));
    assert_eq!(app.article_scroll, 1);
    press(&mut app, &cache, key(Key::Char('q')));
    assert_eq!(app.screen, Screen::ArticleList);
}

#[test]
fn toggle_twice_restores_the_list() {
    let (config, cache) = setup();
    let mut app = App::new(&config, &cache, false);
    press(&mut app, &cache, key(Key::Down));
    press(&mut app, &cache, key(Key::Down));
    press(&mut app, &cache, key(Key::Enter));
    let before: Vec<bool> = app.articles.iter().map(|a| a.read).collect();
    let (_, e1) = press(&mut app, &cache, key(Key::Char('u')));
    assert!(app.articles[0].read);
    assert_eq!(app.feeds[0].unread, 0);
    let (_, e2) = press(&mut app, &cache, key(Key::Char('u')));
    let after: Vec<bool> = app.articles.iter().map(|a| a.read).collect();
    assert_eq!(before, after);
    assert_eq!(app.feeds[0].unread, 1);
    assert!(matches!(&e1[0], Effect::Send(BackendCommand::MarkRead { read: true, .. })));
    assert!(matches!(&e2[0], Effect::Send(BackendCommand::MarkRead { read: false, .. })));
}

#[test]
fn search_filters_case_insensitively() {
    let (config, cache) = setup();
    let mut app = App::new(&config, &cache, false);
    press(&mut app, &cache, key(Key::Enter));
    press(&mut app, &cache, key(Key::Char('/')));
    assert!(app.search_mode);
    for c in "SECONDX".chars() {
        press(&mut app, &cache, key(Key::Char(c)));
    }
    press(&mut app, &cache, key(Key::Backspace));
    press(&mut app, &cache, key(Key::Char('\u{1}')));
    assert_eq!(app.search, "SECOND");
    press(&mut app, &cache, key(Key::Enter));
    assert!(!app.search_mode);
    assert_eq!(app.filtered_article_indices(), vec![2]);
    assert_eq!(app.current_article().map(|a| a.hash.clone()), Some("a2".to_string()));
}

#[test]
fn list_paging_and_ends() {
    let (config, cache) = setup();
    let mut app = App::new(&config, &cache, false);
    press(&mut app, &cache, key(Key::Enter));
    press(&mut app, &cache, key(Key::End));
    assert_eq!(app.selected_article, 2);
    press(&mut app, &cache, key(Key::Home));
    assert_eq!(app.selected_article, 0);
    press(&mut app, &cache, key(Key::PageDown));
    assert_eq!(app.selected_article, 2);
    press(&mut app, &cache, InputEvent::Mouse(MouseEvent::ScrollUp));
    assert_eq!(app.selected_article, 1);
    let (_, effects) = press(&mut app, &cache, InputEvent::Mouse(MouseEvent::LeftClick { row: 3 }));
    assert_eq!(app.selected_article, 0);
    assert_eq!(app.screen, Screen::ArticleView);
    assert_eq!(effects.len(), 1);
}

#[test]
fn refresh_and_mark_keys_ask_the_worker() {
    let (config, cache) = setup();
    let mut app = App::new(&config, &cache, false);
    let (_, effects) = press(&mut app, &cache, key(Key::Char('g')));
    assert!(matches!(effects[..], [Effect::Send(BackendCommand::FetchAllFeeds)]));
    assert_eq!(app.status, "Refreshing feeds...");
    let (_, effects) = press(&mut app, &cache, key(Key::Char('u')));
    assert_eq!(effects.len(), 2);
    assert_eq!(app.status, "Marking all feeds read...");
    press(&mut app, &cache, key(Key::Down));
    press(&mut app, &cache, key(Key::Down));
    press(&mut app, &cache, key(Key::Down));
    let (_, effects) = press(&mut app, &cache, key(Key::Char('u')));
    assert!(matches!(&effects[..], [Effect::Send(BackendCommand::MarkFeedRead { feed_url })] if feed_url == B));
    assert_eq!(app.status, "Marking Beta read...");
    press(&mut app, &cache, key(Key::Enter));
    let (_, effects) = press(&mut app, &cache, key(Key::Char('g')));
    assert!(matches!(&effects[..], [Effect::Send(BackendCommand::FetchFeed { url })] if url == B));
    assert_eq!(app.status, "Refreshing feed...");
    let (_, effects) = press(&mut app, &cache, key(Key::Char('o')));
    assert!(matches!(&effects[..], [Effect::OpenBrowser(link)] if link == "https://example.com/b1"));
    app.browser_result(Err("no browser".to_string()));
    assert_eq!(app.status, "Failed to open browser: no browser");
}

#[test]
fn help_log_and_quit() {
    let (config, cache) = setup();
    let mut app = App::new(&config, &cache, false);
    press(&mut app, &cache, key(Key::Char('?')));
    assert_eq!(app.screen, Screen::Help);
    press(&mut app, &cache, key(Key::Char('x')));
    assert_eq!(app.screen, Screen::Help);
    press(&mut app, &cache, key(Key::Char('q')));
    assert_eq!(app.screen, Screen::FeedList);
    for _ in 0..4 {
        press(&mut app, &cache, key(Key::Down));
    }
    assert_eq!(app.selected_feed, 4);
    press(&mut app, &cache, key(Key::Down));
    assert_eq!(app.selected_feed, 4);
    press(&mut app, &cache, key(Key::Enter));
    assert_eq!(app.screen, Screen::Log);
    press(&mut app, &cache, key(Key::End));
    assert_eq!(app.log_scroll, usize::MAX);
    press(&mut app, &cache, key(Key::Char('d')));
    assert_eq!(app.log_tab, LogTab::Debug);
    assert_eq!(app.log_scroll, 0);
    press(&mut app, &cache, key(Key::Char('q')));
    let (quit, _) = press(&mut app, &cache, key(Key::Char('q')));
    assert!(quit);
    let (quit, _) = press(&mut app, &cache, key(Key::Down));
    assert!(quit);
    assert_eq!(app.feeds.len(), 2);
}

#[test]
fn worker_answers_update_the_lines() {
    let (config, cache) = setup();
    let mut app = App::new(&config, &cache, false);
    press(&mut app, &cache, key(Key::Down));
    press(&mut app, &cache, key(Key::Down));
    press(&mut app, &cache, key(Key::Enter));
    app.handle_backend(
        BackendResponse::RefreshCompleted {
            reports: vec![
                FeedRefreshReport {
                    feed_url: B.to_string(),
                    feed_name: "Beta".to_string(),
                    fetched_at: None,
                    new_articles: 0,
                    total: 0,
                    unread: 0,
                    error: Some("timeout".to_string()),
                },
                FeedRefreshReport {
                    feed_url: A.to_string(),
                    feed_name: "Alpha".to_string(),
                    fetched_at: Some("2024-05-01 10:00:00".to_string()),
                    new_articles: 3,
                    total: 12,
                    unread: 4,
                    error: None,
                },
            ],
        },
        &cache,
    );
    assert_eq!(app.feeds[1].last_error.as_deref(), Some("timeout"));
    assert_eq!(app.feeds[0].total, 12);
    assert_eq!(app.feeds[0].unread, 4);
    assert!(app.feeds[0].last_error.is_none());
    assert_eq!(app.last_updated.as_deref(), Some("2024-05-01 10:00:00"));
    assert_eq!(app.status, "Alpha: 3 new item(s), 12 total (4 unread)");
    assert_eq!(hashes(&app), vec!["a1", "a2"]);
    app.handle_backend(BackendResponse::ArticleMutation { hash: "a2".to_string(), read: false }, &cache);
    assert!(!app.articles[1].read);
    assert_eq!(app.feeds[0].unread, 2);
    app.handle_backend(BackendResponse::FeedMarkedRead { feed_url: A.to_string() }, &cache);
    assert!(app.articles.iter().all(|a| a.read));
    assert_eq!(app.feeds[0].unread, 0);
    assert_eq!(app.status, "Marked feed as read");
    app.handle_backend(
        BackendResponse::RefreshCompleted {
            reports: vec![FeedRefreshReport {
                feed_url: B.to_string(),
                feed_name: "Beta".to_string(),
                fetched_at: Some("2024-05-01 11:00:00".to_string()),
                new_articles: 0,
                total: 1,
                unread: 1,
                error: None,
            }],
        },
        &cache,
    );
    assert_eq!(app.status, "Beta: no new items");
    assert_eq!(app.feeds.len(), 2);
}

#[test]
fn theme_colors_are_read_from_the_config() {
    let mut theme = Theme::empty();
    theme.header_fg = Some("#268bd2".to_string());
    theme.status_bg = Some("bad".to_string());
    let ui = tn::tui::UiTheme::from_config(&theme);
    assert_eq!(ui.header_fg, Some((0x26, 0x8b, 0xd2)));
    assert_eq!(ui.status_bg, None);
    assert_eq!(ui.selection_bg, None);
}
