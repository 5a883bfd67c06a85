use tn::feed::{article_hash, parse_feed};

#[test]
fn parse_rss_feed() {
    let xml = r#"<?xml version="1.0" encoding="UTF-8"?>
<rss version="2.0">
  <channel>
    <title>Test Feed</title>
    <link>https://example.com</link>
    <item>
      <title>First Post</title>
      <link>https://example.com/1</link>
      <description>Hello world</description>
      <pubDate>Mon, 01 Jan 2024 00:00:00 GMT</pubDate>
    </item>
    <item>
      <title>Second Post</title>
      <link>https://example.com/2</link>
      <description>Another post</description>
    </item>
  </channel>
</rss>"#;
    let (title, articles) = parse_feed(xml, "Test").unwrap();
    assert_eq!(title, "Test Feed");
    assert_eq!(articles.len(), 2);
    assert_eq!(articles[0].title, "First Post");
    assert_eq!(articles[0].link, "https://example.com/1");
    assert_eq!(articles[0].description, "Hello world");
    assert!(articles[0].published.is_some());
    assert_eq!(articles[1].title, "Second Post");
    assert!(articles[1].published.is_none());
    assert!(!articles[0].read);
    assert_eq!(articles[0].feed_name, "Test");
}

#[test]
fn parse_atom_feed() {
    let xml = r#"<?xml version="1.0" encoding="UTF-8"?>
<feed xmlns="http://www.w3.org/2005/Atom">
  <title>Atom Feed</title>
  <entry>
    <title>Atom Entry</title>
    <link href="https://example.com/atom/1" rel="alternate" />
    <summary>An atom summary</summary>
    <content>Full content here</content>
    <published>2024-01-01T00:00:00Z</published>
  </entry>
</feed>"#;
    let (title, articles) = parse_feed(xml, "AtomTest").unwrap();
    assert_eq!(title, "Atom Feed");
    assert_eq!(articles.len(), 1);
    assert_eq!(articles[0].title, "Atom Entry");
    assert_eq!(articles[0].link, "https://example.com/atom/1");
    assert_eq!(articles[0].description, "An atom summary");
    assert_eq!(articles[0].content, "Full content here");
    assert!(articles[0].published.is_some());
}

#[test]
fn parse_rss_with_cdata() {
    let xml = r#"<?xml version="1.0" encoding="UTF-8"?>
<rss version="2.0">
  <channel>
    <title>CDATA Feed</title>
    <item>
      <title><![CDATA[Post with <special> chars]]></title>
      <link>https://example.com/cdata</link>
      <description><![CDATA[<p>HTML content</p>]]></description>
    </item>
  </channel>
</rss>"#;
    let (_, articles) = parse_feed(xml, "Test").unwrap();
    assert_eq!(articles.len(), 1);
    assert_eq!(articles[0].title, "Post with <special> chars");
    assert_eq!(articles[0].description, "<p>HTML content</p>");
}

#[test]
fn article_hash_deterministic() {
    let h1 = article_hash("title", "link");
    let h2 = article_hash("title", "link");
    assert_eq!(h1, h2);
    assert_eq!(h1.len(), 16);
}

#[test]
fn article_hash_differs() {
    let h1 = article_hash("title1", "link");
    let h2 = article_hash("title2", "link");
    assert_ne!(h1, h2);
}

#[test]
fn article_hash_is_lowercase_hex() {
    let h = article_hash("Some title", "https://example.com/x");
    assert_eq!(h.len(), 16);
    assert!(h.chars().all(|c| c.is_ascii_digit() || ('a'..='f').contains(&c)));
    assert_ne!(article_hash("title", "link1"), article_hash("title", "link2"));
}

#[test]
fn parse_feed_finds_nothing_in_other_documents() {
    let (title, articles) = parse_feed("<html><body>nope</body></html>", "X").unwrap();
    assert_eq!(title, "X");
    assert!(articles.is_empty());
}

#[test]
fn parse_feed_reports_malformed_xml() {
    let r = parse_feed("<rss><channel><title>T</title></item></channel></rss>", "X");
    assert!(r.is_err());
}

#[test]
fn parse_atom_uses_updated_when_no_published() {
    let xml = r#"<feed xmlns="http://www.w3.org/2005/Atom"><title>F</title>
<entry><title>E</title><link href="https://e/1"/><updated>2024-02-03T04:05:06Z</updated></entry></feed>"#;
    let (_, articles) = parse_feed(xml, "F").unwrap();
    assert_eq!(articles.len(), 1);
    assert!(articles[0].published.is_some());
    assert_eq!(articles[0].hash, article_hash("E", "https://e/1"));
}

#[test]
fn rss_dates_without_offset_keep_their_wall_clock_time() {
    let xml = "<rss><channel><item><title> A </title><link>L</link><content:encoded>C</content:encoded><dc:date>2024-01-01 00:00:00</dc:date></item></channel></rss>";
    let (title, articles) = parse_feed(xml, "N").unwrap();
    assert_eq!(title, "N");
    assert_eq!(articles.len(), 1);
    let a = &articles[0];
    assert_eq!(a.hash, article_hash("A", "L"));
    assert_eq!(a.title, "A");
    assert_eq!(a.link, "L");
    assert_eq!(a.description, "");
    assert_eq!(a.content, "C");
    assert_eq!(a.published.as_deref(), Some("2024-01-01 00:00:00"));
    assert_eq!(a.feed_name, "N");
    assert!(!a.read);
    let bad = parse_feed("<rss><channel></rss>", "N").unwrap_err();
    assert!(bad.starts_with("XML parse error: "));
}

#[test]
fn atom_takes_the_first_date_of_an_entry() {
    let xml = "<feed><title>F</title><entry><title>E</title><updated>2024-02-01 00:00:00</updated><published>2024-01-01 00:00:00</published></entry></feed>";
    let (title, articles) = parse_feed(xml, "N").unwrap();
    assert_eq!(title, "F");
    assert_eq!(articles.len(), 1);
    assert_eq!(articles[0].title, "E");
    assert_eq!(articles[0].link, "");
    assert_eq!(articles[0].published.as_deref(), Some("2024-02-01 00:00:00"));
}
