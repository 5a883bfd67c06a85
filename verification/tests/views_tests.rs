use tn::cache::Cache;
use tn::config::{Config, FeedConfig, Theme, UiConfig};
use tn::datetime::normalize_datetime_to_local;
use tn::feed::Article;
use tn::input::{InputEvent, Key};
use tn::tui::App;
use tn::views::{
    base_theme_sequence, frame_output, pad_left_text, pad_right_text, split_lines, strip_newlines, style_line,
    truncate,
};

fn setup() -> (Config, Cache) {
    let config = Config {
        ui: UiConfig::default_values(),
        theme: Theme::empty(),
        feeds: vec![FeedConfig { name: "Alpha".to_string(), url: "https://a.example/feed".to_string() }],
    };
    let mut cache = Cache::new();
    cache.put_articles(&[Article {
        hash: "a1".to_string(),
        title: "First\nA".to_string(),
        link: "https://example.com/a1".to_string(),
        description: "desc".to_string(),
        content: "<p>Hello world</p>".to_string(),
        published: Some("2024-01-02T00:00:00Z".to_string()),
        feed_name: "Alpha".to_string(),
        read: false,
    }]);
    cache.put_feed_index("https://a.example/feed", &["a1".to_string()]);
    (config, cache)
}

#[test]
fn text_helpers() {
    assert_eq!(truncate("hello", 3), "hel");
    assert_eq!(truncate("héllo", 2), "hé");
    assert_eq!(truncate("hi", 5), "hi");
    assert_eq!(strip_newlines("a\nb\r\nc"), "a b  c");
    assert_eq!(pad_right_text("ab", 4), "ab  ");
    assert_eq!(pad_left_text("7", 3), "  7");
    assert_eq!(pad_left_text("1234", 3), "1234");
}

#[test]
fn lines_split_like_str_lines() {
    let cases = ["", "a", "a\n", "a\r\nb", "a\n\nb\n", "x\ry", "\n"];
    for c in cases {
        let expected: Vec<String> = c.lines().map(|l| l.to_string()).collect();
        assert_eq!(split_lines(c), expected, "{:?}", c);
    }
}

#[test]
fn styling_sequences() {
    assert_eq!(style_line("x", None, None, false, false), "x");
    assert_eq!(style_line("x", None, None, true, true), "\x1b[1m\x1b[7mx");
    assert_eq!(
        style_line("x", Some((1, 2, 3)), Some((40, 50, 60)), false, true),
        "\x1b[38;2;1;2;3m\x1b[48;2;40;50;60mx"
    );
    let mut theme = Theme::empty();
    theme.bg = Some("#002b36".to_string());
    theme.fg = Some("#839496".to_string());
    assert_eq!(base_theme_sequence(&theme), "\x1b[48;2;0;43;54m\x1b[38;2;131;148;150m");
    let out = frame_output("B", &vec!["one".to_string(), "two".to_string()]);
    assert_eq!(out, "\x1b[H\x1b[2J\x1b[2KBone\x1b[K\x1b[0m\r\n\x1b[2KBtwo\x1b[K\x1b[0m\r\n");
}

#[test]
fn feed_list_screen() {
    let (config, cache) = setup();
    let mut app = App::new(&config, &cache, false);
    let frame = app.draw_frame(80, 9, "", "").unwrap();
    assert_eq!(app.last_size, (80, 9));
    assert_eq!(frame.len(), 9);
    assert_eq!(frame[0], "\x1b[1mTimmy's News Console - Last Updated never");
    assert_eq!(
        frame[1],
        "\x1b[1mFeeds (Enter open feed/log, g refresh, u mark read, ? help, q quit)"
    );
    let row = |marker: &str, name: &str, total: usize, unread: usize| {
        format!("{} {:<22} {:<19} {:>5} total {:>5} unread{}", marker, name, "-", total, unread, "")
    };
    assert_eq!(frame[2], format!("\x1b[7m{}", row(">", "[All]", 1, 1)));
    assert_eq!(frame[3], row(" ", "[Unread]", 1, 1));
    assert_eq!(frame[4], row(" ", "Alpha", 1, 1));
    assert_eq!(frame[5], row(" ", "[Log]", 0, 0));
    assert_eq!(frame[6], "");
    assert_eq!(frame[7], "");
    assert_eq!(frame[8], "\x1b[7mReady");
    app.frame_shown();
    assert!(app.draw_frame(80, 9, "", "").is_none());
}

#[test]
fn article_screens() {
    let (config, cache) = setup();
    let mut app = App::new(&config, &cache, false);
    let mut effects = Vec::new();
    app.handle_input(InputEvent::Key(Key::Enter), &cache, &mut effects);
    let lines = app.render_article_list(60, 5);
    let date = normalize_datetime_to_local("2024-01-02T00:00:00Z").unwrap();
    assert_eq!(lines.len(), 5);
    assert_eq!(
        lines[0],
        "\x1b[1m[All] (Enter open, / search, u toggle read, o open, q back)"
    );
    assert_eq!(lines[1], format!("\x1b[1m\x1b[7m{}", truncate(&format!(">* [{}] [Alpha] First A", date), 60)));
    assert_eq!(lines[2], "");
    assert_eq!(lines[3], "");
    assert_eq!(lines[4], "\x1b[7mReady");
    app.handle_input(InputEvent::Key(Key::Enter), &cache, &mut effects);
    let lines = app.render_article_view(80, 5);
    assert_eq!(lines.len(), 5);
    assert_eq!(
        lines[0],
        "\x1b[1mFirst A [read] (q back, j/k scroll, PgUp/PgDn, n/p next/prev, u toggle, o open)"
    );
    assert_eq!(lines[1], "Hello world");
    assert_eq!(lines[2], "");
    assert_eq!(lines[4], format!("\x1b[7mhttps://example.com/a1 | {}", date));
    let text = app.article_view_from(20, 4, "l1\nl2\nl3", "foot");
    assert_eq!(text[1], "l1");
    assert_eq!(text[2], "l2");
    assert_eq!(text[3], "\x1b[7mfoot");
}

#[test]
fn help_and_log_screens() {
    let (config, cache) = setup();
    let app = App::new(&config, &cache, false);
    let help = app.render_help(40, 30);
    assert_eq!(help[0], "\x1b[1mHelp (q to close)");
    assert_eq!(help[1], "Global: ? help");
    assert_eq!(help.len(), 30);
    assert_eq!(help[29], "\x1b[7mReady");
    let log = app.render_log_view(80, 5, "one\ntwo\nthree\nfour\n", "/tmp/news.log");
    assert_eq!(log[0], "\x1b[1m[News Log] (n news, d debug, j/k scroll, PgUp/PgDn, q back)");
    assert_eq!(log[1], "one");
    assert_eq!(log[2], "two");
    assert_eq!(log[3], "three");
    assert_eq!(log[4], "\x1b[7m4 lines | /tmp/news.log");
    let empty = app.render_log_view(40, 4, "", "p");
    assert_eq!(empty[1], "Log is empty");
    assert_eq!(empty[3], "\x1b[7m1 lines | p");
}
