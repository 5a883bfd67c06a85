use tn::config::{Config, FeedConfig, Theme, UiConfig};

fn hex(s: &str) -> String {
    format!("#{}", s)
}

#[test]
fn parse_color_valid() {
    assert_eq!(Theme::parse_color(&hex("002b36")), Ok((0, 43, 54)));
    assert_eq!(Theme::parse_color(&hex("ffffff")), Ok((255, 255, 255)));
}

#[test]
fn parse_color_invalid() {
    assert!(Theme::parse_color("002b36").is_err());
    assert!(Theme::parse_color(&hex("gggggg")).is_err());
    assert!(Theme::parse_color(&hex("abc")).is_err());
}

#[test]
fn parse_color_error_messages() {
    assert_eq!(
        Theme::parse_color("abc"),
        Err("invalid color 'abc': expected #RRGGBB".to_string())
    );
    assert_eq!(
        Theme::parse_color(&hex("gggggg")),
        Err("invalid color '#gggggg'".to_string())
    );
    assert_eq!(Theme::parse_color(&hex("A0b1C2")), Ok((160, 177, 194)));
}

fn config(feeds: usize, theme: Theme) -> Config {
    Config {
        ui: UiConfig::default_values(),
        theme,
        feeds: (0..feeds)
            .map(|i| FeedConfig {
                name: format!("Feed {}", i),
                url: format!("https://example.com/{}", i),
            })
            .collect(),
    }
}

#[test]
fn validate_requires_a_feed() {
    assert_eq!(
        config(0, Theme::empty()).validate(),
        Err("no [[feed]] entries in config".to_string())
    );
    assert_eq!(config(1, Theme::empty()).validate(), Ok(()));
}

#[test]
fn validate_reports_first_bad_color() {
    let mut theme = Theme::empty();
    theme.bg = Some(hex("002b36"));
    theme.status_fg = Some("red".to_string());
    theme.header_fg = Some(hex("zzzzzz"));
    assert_eq!(
        config(1, theme).validate(),
        Err("theme.status_fg: invalid color 'red': expected #RRGGBB".to_string())
    );
}

#[test]
fn ui_defaults() {
    let ui = UiConfig::default_values();
    assert_eq!(ui.page_size, 100);
    assert_eq!(ui.scrolloff, 0);
    assert!(ui.mouse);
    assert_eq!(ui.sync_interval_secs, 300);
    assert!(ui.browser.is_none());
}

#[test]
fn colors_need_six_hex_digits() {
    assert_eq!(Theme::parse_color("#+f+f+f"), Err("invalid color '#+f+f+f'".to_string()));
    assert_eq!(Theme::parse_color("#0a0B0c"), Ok((10, 11, 12)));
}
