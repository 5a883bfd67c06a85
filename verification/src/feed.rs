//! Feed articles and the RSS 2.0 and Atom parsers.
//!
//! A document is read as a sequence of [`XmlEvent`]s; the parsers are
//! state machines over that sequence. Their results are stated over the
//! spec functions [`rss_result`] and [`atom_result`], which fold the
//! events into the feed title and the entries found.

use vstd::prelude::*;
use crate::datetime::{display_outcome, normalize_optional_datetime};
use crate::text::{same_text, trim, trim_seq, contains_text, has_substring};
use crate::xml::{XmlEvent, XmlAttribute, is_terminal, read_from, read_xml_events, reading_stopped};
use std::collections::hash_map::DefaultHasher;
use std::hash::{Hash, Hasher};
use vstd::std_specs::hash::DefaultHasherAdditionalSpecFns;

verus! {

/// A normalized article parsed from an RSS or Atom feed.
#[derive(Debug)]
pub struct Article {
    pub hash: String,
    pub title: String,
    pub link: String,
    pub description: String,
    pub content: String,
    pub published: Option<String>,
    pub feed_name: String,
    pub read: bool,
}

/// Metadata about a feed after fetching.
#[derive(Debug)]
pub struct FeedMeta {
    pub url: String,
    pub title: String,
    pub last_fetched: String,
}

/// A copy of an optional text.
pub fn copy_opt(s: &Option<String>) -> (r: Option<String>)
    ensures
        r == *s,
{
    match s {
        Some(t) => Some(t.clone()),
        None => None,
    }
}

impl Article {
    /// A copy of the article.
    pub fn duplicate(&self) -> (r: Article)
        ensures
            r == *self,
    {
        Article {
            hash: self.hash.clone(),
            title: self.title.clone(),
            link: self.link.clone(),
            description: self.description.clone(),
            content: self.content.clone(),
            published: copy_opt(&self.published),
            feed_name: self.feed_name.clone(),
            read: self.read,
        }
    }
}

impl FeedMeta {
    /// A copy of the metadata.
    pub fn duplicate(&self) -> (r: FeedMeta)
        ensures
            r == *self,
    {
        FeedMeta {
            url: self.url.clone(),
            title: self.title.clone(),
            last_fetched: self.last_fetched.clone(),
        }
    }
}

/// What `Hash::hash` writes into a hasher for a text: a sequence of byte
/// strings that depends on the text alone.
pub uninterp spec fn text_hash_writes(s: Seq<char>) -> Seq<Seq<u8>>;

/// `<str as Hash>::hash` into a `DefaultHasher`: the hasher's writes so
/// far are followed by the writes for the text.
#[verifier::external_body]
fn feed_text_to_hasher(s: &str, hasher: &mut DefaultHasher)
    ensures
        final(hasher)@ == old(hasher)@ + text_hash_writes(s@),
{
    s.hash(hasher)
}

/// The 64-bit digest that a fresh `DefaultHasher` gives after hashing the
/// title and then the link.
pub open spec fn article_digest(title: Seq<char>, link: Seq<char>) -> u64 {
    DefaultHasher::spec_finish(text_hash_writes(title) + text_hash_writes(link))
}

/// Hashes the title and then the link with a fresh `DefaultHasher`, whose
/// keys are fixed, and finishes it.
fn title_link_digest(title: &str, link: &str) -> (d: u64)
    ensures
        d == article_digest(title@, link@),
{
    let mut hasher = DefaultHasher::new();
    feed_text_to_hasher(title, &mut hasher);
    feed_text_to_hasher(link, &mut hasher);
    assert(hasher@ =~= text_hash_writes(title@) + text_hash_writes(link@));
    hasher.finish()
}

/// The lowercase hexadecimal digit of a value below 16.
pub open spec fn hex_char(d: u64) -> char {
    (if d < 10 {
        (48 + d) as u8
    } else {
        (87 + d) as u8
    }) as char
}

/// The last `n` hexadecimal digits of `x`, most significant first.
pub open spec fn hex_digits(x: u64, n: nat) -> Seq<char>
    decreases n,
{
    if n == 0 {
        seq![]
    } else {
        hex_digits(x / 16, (n - 1) as nat).push(hex_char(x % 16))
    }
}

/// The hash text of an article: its digest as 16 lowercase hex digits.
pub open spec fn hash_text(title: Seq<char>, link: Seq<char>) -> Seq<char> {
    hex_digits(article_digest(title, link), 16)
}

proof fn lemma_hex_digits_len(x: u64, n: nat)
    ensures
        hex_digits(x, n).len() == n,
    decreases n,
{
    if n > 0 {
        lemma_hex_digits_len(x / 16, (n - 1) as nat);
    }
}

fn hex_char_exec(d: u64) -> (c: char)
    requires
        d < 16,
    ensures
        c == hex_char(d),
{
    if d < 10 {
        (48 + d as u8) as char
    } else {
        (87 + d as u8) as char
    }
}

fn hex_digits_exec(x: u64, n: usize) -> (v: Vec<char>)
    ensures
        v@ == hex_digits(x, n as nat),
    decreases n,
{
    if n == 0 {
        Vec::new()
    } else {
        let mut v = hex_digits_exec(x / 16, n - 1);
        v.push(hex_char_exec(x % 16));
        v
    }
}

/// Computes the deduplication hash of an article: the title and link
/// hashed together, written as 16 lowercase hexadecimal digits.
pub fn article_hash(title: &str, link: &str) -> (r: String)
    ensures
        r@ == hash_text(title@, link@),
        r@.len() == 16,
{
    let d = title_link_digest(title, link);
    let v = hex_digits_exec(d, 16);
    proof {
        lemma_hex_digits_len(d, 16);
    }
    crate::text::string_of(v.as_slice())
}

/// The text fields of one item or entry, as the parser collected them:
/// title, link, description and content trimmed, the date as found.
pub struct FeedEntry {
    pub title: Seq<char>,
    pub link: Seq<char>,
    pub description: Seq<char>,
    pub content: Seq<char>,
    pub published: Seq<char>,
}

/// How an article is made from an entry of the feed `feed_name`: hashed,
/// unread, and its date normalized in the local zone.
pub open spec fn article_from_entry(a: Article, e: FeedEntry, feed_name: Seq<char>) -> bool {
    &&& a.hash@ == hash_text(e.title, e.link)
    &&& a.title@ == e.title
    &&& a.link@ == e.link
    &&& a.description@ == e.description
    &&& a.content@ == e.content
    &&& display_outcome(trim_seq(e.published), a.published)
    &&& a.feed_name@ == feed_name
    &&& !a.read
}

/// The articles made from the entries, one for one.
pub open spec fn articles_from_entries(
    arts: Seq<Article>,
    entries: Seq<FeedEntry>,
    feed_name: Seq<char>,
) -> bool {
    &&& arts.len() == entries.len()
    &&& forall|i: int|
        0 <= i < arts.len() ==> article_from_entry(#[trigger] arts[i], entries[i], feed_name)
}

/// Makes the article of an entry.
fn make_article(
    title: &str,
    link: &str,
    description: &str,
    content: &str,
    published: &str,
    feed_name: &str,
) -> (a: Article)
    ensures
        article_from_entry(
            a,
            FeedEntry {
                title: trim_seq(title@),
                link: trim_seq(link@),
                description: trim_seq(description@),
                content: trim_seq(content@),
                published: published@,
            },
            feed_name@,
        ),
{
    let link = trim(link);
    let title = trim(title);
    let hash = article_hash(title.as_str(), link.as_str());
    Article {
        hash,
        title,
        link,
        description: trim(description),
        content: trim(content),
        published: normalize_optional_datetime(published),
        feed_name: feed_name.to_owned(),
        read: false,
    }
}

/// The text an event carries: character data (empty when it does not
/// unescape) or a CDATA section.
pub open spec fn event_text(ev: XmlEvent) -> Seq<char> {
    match ev {
        XmlEvent::Text { text } => match text {
            Some(t) => t@,
            None => seq![],
        },
        XmlEvent::CData { data } => data@,
        _ => seq![],
    }
}

/// `cur`, with `text` appended when `hit`.
pub open spec fn appended(cur: Seq<char>, text: Seq<char>, hit: bool) -> Seq<char> {
    if hit {
        cur + text
    } else {
        cur
    }
}

/// The field of an RSS item that character data goes to.
pub enum RssField {
    Title,
    Link,
    Description,
    Content,
    PubDate,
    FeedTitle,
    Nothing,
}

/// Where text goes in RSS: inside an item by the current tag; outside,
/// only a `title` inside the channel names the feed.
pub open spec fn rss_field(in_item: bool, in_channel: bool, tag: Seq<char>) -> RssField {
    if in_item {
        if tag == "title"@ {
            RssField::Title
        } else if tag == "link"@ {
            RssField::Link
        } else if tag == "description"@ {
            RssField::Description
        } else if tag == "content:encoded"@ || tag == "content"@ {
            RssField::Content
        } else if tag == "pubDate"@ || tag == "dc:date"@ {
            RssField::PubDate
        } else {
            RssField::Nothing
        }
    } else if in_channel && tag == "title"@ {
        RssField::FeedTitle
    } else {
        RssField::Nothing
    }
}

/// Appends character data of an RSS document to the field it belongs to.
#[allow(clippy::too_many_arguments)]
pub fn rss_apply_text(
    text: &str,
    in_item: bool,
    in_channel: bool,
    current_tag: &str,
    item_title: &mut String,
    item_link: &mut String,
    item_description: &mut String,
    item_content: &mut String,
    item_pub_date: &mut String,
    feed_title: &mut String,
)
    ensures
        final(item_title)@ == appended(old(item_title)@, text@, rss_field(in_item, in_channel, current_tag@) is Title),
        final(item_link)@ == appended(old(item_link)@, text@, rss_field(in_item, in_channel, current_tag@) is Link),
        final(item_description)@ == appended(old(item_description)@, text@, rss_field(in_item, in_channel, current_tag@) is Description),
        final(item_content)@ == appended(old(item_content)@, text@, rss_field(in_item, in_channel, current_tag@) is Content),
        final(item_pub_date)@ == appended(old(item_pub_date)@, text@, rss_field(in_item, in_channel, current_tag@) is PubDate),
        final(feed_title)@ == appended(old(feed_title)@, text@, rss_field(in_item, in_channel, current_tag@) is FeedTitle),
{
    if in_item {
        if same_text(current_tag, "title") {
            item_title.append(text);
        } else if same_text(current_tag, "link") {
            item_link.append(text);
        } else if same_text(current_tag, "description") {
            item_description.append(text);
        } else if same_text(current_tag, "content:encoded") || same_text(current_tag, "content") {
            item_content.append(text);
        } else if same_text(current_tag, "pubDate") || same_text(current_tag, "dc:date") {
            item_pub_date.append(text);
        }
    } else if in_channel && same_text(current_tag, "title") {
        feed_title.append(text);
    }
}

/// The state of the RSS parser.
pub struct RssScan {
    pub in_channel: bool,
    pub in_item: bool,
    pub tag: Seq<char>,
    pub title: Seq<char>,
    pub link: Seq<char>,
    pub description: Seq<char>,
    pub content: Seq<char>,
    pub pub_date: Seq<char>,
    pub feed_title: Seq<char>,
    pub entries: Seq<FeedEntry>,
}

pub open spec fn rss_initial() -> RssScan {
    RssScan {
        in_channel: false,
        in_item: false,
        tag: seq![],
        title: seq![],
        link: seq![],
        description: seq![],
        content: seq![],
        pub_date: seq![],
        feed_title: seq![],
        entries: seq![],
    }
}

/// The RSS parser's state after character data.
pub open spec fn rss_text(st: RssScan, text: Seq<char>) -> RssScan {
    let f = rss_field(st.in_item, st.in_channel, st.tag);
    RssScan {
        title: appended(st.title, text, f is Title),
        link: appended(st.link, text, f is Link),
        description: appended(st.description, text, f is Description),
        content: appended(st.content, text, f is Content),
        pub_date: appended(st.pub_date, text, f is PubDate),
        feed_title: appended(st.feed_title, text, f is FeedTitle),
        ..st
    }
}

/// The RSS parser's state after an event that does not end the reading:
/// `channel` and `item` tags open and close those scopes (a closed item
/// becomes an entry), other start tags become the current tag, every end
/// tag clears it, and character data goes to its field.
pub open spec fn rss_step(st: RssScan, ev: XmlEvent) -> RssScan {
    match ev {
        XmlEvent::Start { name, .. } => if name@ == "channel"@ {
            RssScan { in_channel: true, ..st }
        } else if name@ == "item"@ {
            RssScan {
                in_item: true,
                title: seq![],
                link: seq![],
                description: seq![],
                content: seq![],
                pub_date: seq![],
                ..st
            }
        } else {
            RssScan { tag: name@, ..st }
        },
        XmlEvent::End { name } => {
            let st2 = if name@ == "item"@ {
                RssScan {
                    entries: st.entries.push(
                        FeedEntry {
                            title: trim_seq(st.title),
                            link: trim_seq(st.link),
                            description: trim_seq(st.description),
                            content: trim_seq(st.content),
                            published: st.pub_date,
                        },
                    ),
                    in_item: false,
                    ..st
                }
            } else if name@ == "channel"@ {
                RssScan { in_channel: false, ..st }
            } else {
                st
            };
            RssScan { tag: seq![], ..st2 }
        },
        XmlEvent::Text { .. } => rss_text(st, event_text(ev)),
        XmlEvent::CData { .. } => rss_text(st, event_text(ev)),
        _ => st,
    }
}

/// The RSS parser's state after the events, in order.
pub open spec fn rss_scan(evs: Seq<XmlEvent>) -> RssScan
    decreases evs.len(),
{
    if evs.len() == 0 {
        rss_initial()
    } else {
        rss_step(rss_scan(evs.drop_last()), evs.last())
    }
}

/// Whether `k` is the first event that ends the reading.
pub open spec fn first_terminal_at(evs: Seq<XmlEvent>, k: int) -> bool {
    &&& 0 <= k < evs.len()
    &&& is_terminal(evs[k])
    &&& forall|j: int| 0 <= j < k ==> !is_terminal(#[trigger] evs[j])
}

/// The message of a syntax error.
pub open spec fn xml_error_message(ev: XmlEvent) -> Seq<char> {
    match ev {
        XmlEvent::Error { message } => "XML parse error: "@ + message@,
        _ => seq![],
    }
}

/// The outcome of a parse that read to its end: the feed title, or the
/// feed's name when the document gave none, and the entries.
pub open spec fn finished(
    feed_title: Seq<char>,
    entries: Seq<FeedEntry>,
    feed_name: Seq<char>,
) -> Result<(Seq<char>, Seq<FeedEntry>), Seq<char>> {
    Ok((if feed_title.len() == 0 { feed_name } else { feed_title }, entries))
}

/// What the RSS parser gives for the events: reading stops at the first
/// end of input or error; an error gives its message; otherwise the feed
/// title (the feed's name when the channel has none) and the entries.
pub open spec fn rss_result(evs: Seq<XmlEvent>, feed_name: Seq<char>) -> Result<
    (Seq<char>, Seq<FeedEntry>),
    Seq<char>,
> {
    if exists|k: int| first_terminal_at(evs, k) {
        let k = choose|k: int| first_terminal_at(evs, k);
        if evs[k] is Error {
            Err(xml_error_message(evs[k]))
        } else {
            let st = rss_scan(evs.take(k));
            finished(st.feed_title, st.entries, feed_name)
        }
    } else {
        let st = rss_scan(evs);
        finished(st.feed_title, st.entries, feed_name)
    }
}

/// Whether a parser's result is the articles of the spec result.
pub open spec fn parse_matches(
    r: Result<(String, Vec<Article>), String>,
    s: Result<(Seq<char>, Seq<FeedEntry>), Seq<char>>,
    feed_name: Seq<char>,
) -> bool {
    match (r, s) {
        (Ok((title, arts)), Ok((t, entries))) => title@ == t && articles_from_entries(
            arts@,
            entries,
            feed_name,
        ),
        (Err(e), Err(m)) => e@ == m,
        _ => false,
    }
}

proof fn lemma_first_terminal_unique(evs: Seq<XmlEvent>, i: int)
    requires
        first_terminal_at(evs, i),
    ensures
        (choose|k: int| first_terminal_at(evs, k)) == i,
{
    let k = choose|k: int| first_terminal_at(evs, k);
    assert(first_terminal_at(evs, k));
    if k < i {
        assert(!is_terminal(evs[k]));
    }
    if k > i {
        assert(!is_terminal(evs[i]));
    }
}

proof fn lemma_no_terminal(evs: Seq<XmlEvent>)
    requires
        forall|j: int| 0 <= j < evs.len() ==> !is_terminal(#[trigger] evs[j]),
    ensures
        !exists|k: int| first_terminal_at(evs, k),
{
    if exists|k: int| first_terminal_at(evs, k) {
        let k = choose|k: int| first_terminal_at(evs, k);
        assert(!is_terminal(evs[k]));
    }
}

/// Parses the events of an RSS 2.0 document.
pub fn parse_rss_events(evs: &Vec<XmlEvent>, feed_name: &str) -> (r: Result<
    (String, Vec<Article>),
    String,
>)
    ensures
        parse_matches(r, rss_result(evs@, feed_name@), feed_name@),
{
    let mut in_channel = false;
    let mut in_item = false;
    let mut current_tag = String::new();
    let mut item_title = String::new();
    let mut item_link = String::new();
    let mut item_description = String::new();
    let mut item_content = String::new();
    let mut item_pub_date = String::new();
    let mut feed_title = String::new();
    let mut articles: Vec<Article> = Vec::new();
    let mut i: usize = 0;
    while i < evs.len()
        invariant
            i <= evs.len(),
            forall|j: int| 0 <= j < i ==> !is_terminal(#[trigger] evs@[j]),
            ({
                let st = rss_scan(evs@.take(i as int));
                &&& st.in_channel == in_channel
                &&& st.in_item == in_item
                &&& st.tag == current_tag@
                &&& st.title == item_title@
                &&& st.link == item_link@
                &&& st.description == item_description@
                &&& st.content == item_content@
                &&& st.pub_date == item_pub_date@
                &&& st.feed_title == feed_title@
                &&& articles_from_entries(articles@, st.entries, feed_name@)
            }),
        decreases evs.len() - i,
    {
        let ghost before = rss_scan(evs@.take(i as int));
        let ghost ev = evs@[i as int];
        assert(evs@.take(i + 1).drop_last() =~= evs@.take(i as int));
        assert(evs@.take(i + 1).last() == ev);
        match &evs[i] {
            XmlEvent::Start { name, .. } => {
                if same_text(name.as_str(), "channel") {
                    in_channel = true;
                } else if same_text(name.as_str(), "item") {
                    in_item = true;
                    item_title = String::new();
                    item_link = String::new();
                    item_description = String::new();
                    item_content = String::new();
                    item_pub_date = String::new();
                } else {
                    current_tag = name.clone();
                }
            },
            XmlEvent::End { name } => {
                if same_text(name.as_str(), "item") {
                    let a = make_article(
                        item_title.as_str(),
                        item_link.as_str(),
                        item_description.as_str(),
                        item_content.as_str(),
                        item_pub_date.as_str(),
                        feed_name,
                    );
                    let ghost old_arts = articles@;
                    articles.push(a);
                    proof {
                        let after = rss_scan(evs@.take(i + 1));
                        assert(articles@ == old_arts.push(a));
                        assert forall|j: int| 0 <= j < articles@.len() implies article_from_entry(
                            #[trigger] articles@[j],
                            after.entries[j],
                            feed_name@,
                        ) by {
                            if j < old_arts.len() {
                                assert(articles@[j] == old_arts[j]);
                            }
                        }
                    }
                    in_item = false;
                } else if same_text(name.as_str(), "channel") {
                    in_channel = false;
                }
                current_tag = String::new();
            },
            XmlEvent::Text { text } => {
                let t = match text {
                    Some(t) => t.clone(),
                    None => String::new(),
                };
                rss_apply_text(
                    t.as_str(),
                    in_item,
                    in_channel,
                    current_tag.as_str(),
                    &mut item_title,
                    &mut item_link,
                    &mut item_description,
                    &mut item_content,
                    &mut item_pub_date,
                    &mut feed_title,
                );
            },
            XmlEvent::CData { data } => {
                rss_apply_text(
                    data.as_str(),
                    in_item,
                    in_channel,
                    current_tag.as_str(),
                    &mut item_title,
                    &mut item_link,
                    &mut item_description,
                    &mut item_content,
                    &mut item_pub_date,
                    &mut feed_title,
                );
            },
            XmlEvent::Other => {},
            XmlEvent::Eof => {
                proof {
                    assert(first_terminal_at(evs@, i as int));
                    lemma_first_terminal_unique(evs@, i as int);
                }
                if feed_title.as_str().is_empty() {
                    feed_title = feed_name.to_owned();
                }
                return Ok((feed_title, articles));
            },
            XmlEvent::Error { message } => {
                proof {
                    assert(first_terminal_at(evs@, i as int));
                    lemma_first_terminal_unique(evs@, i as int);
                }
                let mut m = "XML parse error: ".to_owned();
                m.append(message.as_str());
                return Err(m);
            },
        }
        i = i + 1;
    }
    proof {
        lemma_no_terminal(evs@);
        assert(evs@.take(evs@.len() as int) =~= evs@);
    }
    if feed_title.as_str().is_empty() {
        feed_title = feed_name.to_owned();
    }
    Ok((feed_title, articles))
}

/// The field of an Atom entry that character data goes to.
pub enum AtomField {
    Title,
    Summary,
    Content,
    Published,
    FeedTitle,
    Nothing,
}

/// Where text goes in Atom: inside an entry by the current tag; outside,
/// only a `title` inside the feed names the feed.
pub open spec fn atom_field(in_entry: bool, in_feed: bool, tag: Seq<char>) -> AtomField {
    if in_entry {
        if tag == "title"@ {
            AtomField::Title
        } else if tag == "summary"@ {
            AtomField::Summary
        } else if tag == "content"@ {
            AtomField::Content
        } else if tag == "published"@ || tag == "updated"@ {
            AtomField::Published
        } else {
            AtomField::Nothing
        }
    } else if in_feed && tag == "title"@ {
        AtomField::FeedTitle
    } else {
        AtomField::Nothing
    }
}

/// The date of an entry after character data: the first non-empty date
/// text wins.
pub open spec fn first_date(cur: Seq<char>, text: Seq<char>, hit: bool) -> Seq<char> {
    if hit && cur.len() == 0 {
        text
    } else {
        cur
    }
}

/// Appends character data of an Atom document to the field it belongs to;
/// a date is kept only while none has been seen.
#[allow(clippy::too_many_arguments)]
pub fn atom_apply_text(
    text: &str,
    in_entry: bool,
    in_feed: bool,
    current_tag: &str,
    entry_title: &mut String,
    entry_summary: &mut String,
    entry_content: &mut String,
    entry_published: &mut String,
    feed_title: &mut String,
)
    ensures
        final(entry_title)@ == appended(old(entry_title)@, text@, atom_field(in_entry, in_feed, current_tag@) is Title),
        final(entry_summary)@ == appended(old(entry_summary)@, text@, atom_field(in_entry, in_feed, current_tag@) is Summary),
        final(entry_content)@ == appended(old(entry_content)@, text@, atom_field(in_entry, in_feed, current_tag@) is Content),
        final(entry_published)@ == first_date(old(entry_published)@, text@, atom_field(in_entry, in_feed, current_tag@) is Published),
        final(feed_title)@ == appended(old(feed_title)@, text@, atom_field(in_entry, in_feed, current_tag@) is FeedTitle),
{
    if in_entry {
        if same_text(current_tag, "title") {
            entry_title.append(text);
        } else if same_text(current_tag, "summary") {
            entry_summary.append(text);
        } else if same_text(current_tag, "content") {
            entry_content.append(text);
        } else if same_text(current_tag, "published") || same_text(current_tag, "updated") {
            if entry_published.as_str().is_empty() {
                entry_published.append(text);
            }
        }
    } else if in_feed && same_text(current_tag, "title") {
        feed_title.append(text);
    }
}

/// The `href` and `rel` of a `link` tag: the last well-formed attribute of
/// each name, empty when there is none.
pub open spec fn link_attributes(attrs: Seq<Option<XmlAttribute>>) -> (Seq<char>, Seq<char>)
    decreases attrs.len(),
{
    if attrs.len() == 0 {
        (seq![], seq![])
    } else {
        let (href, rel) = link_attributes(attrs.drop_last());
        match attrs.last() {
            Some(a) => if a.key@ == "href"@ {
                (a.value@, rel)
            } else if a.key@ == "rel"@ {
                (href, a.value@)
            } else {
                (href, rel)
            },
            None => (href, rel),
        }
    }
}

/// The state of the Atom parser.
pub struct AtomScan {
    pub in_feed: bool,
    pub in_entry: bool,
    pub tag: Seq<char>,
    pub title: Seq<char>,
    pub link: Seq<char>,
    pub summary: Seq<char>,
    pub content: Seq<char>,
    pub published: Seq<char>,
    pub feed_title: Seq<char>,
    pub entries: Seq<FeedEntry>,
}

pub open spec fn atom_initial() -> AtomScan {
    AtomScan {
        in_feed: false,
        in_entry: false,
        tag: seq![],
        title: seq![],
        link: seq![],
        summary: seq![],
        content: seq![],
        published: seq![],
        feed_title: seq![],
        entries: seq![],
    }
}

/// The Atom parser's state after character data.
pub open spec fn atom_text(st: AtomScan, text: Seq<char>) -> AtomScan {
    let f = atom_field(st.in_entry, st.in_feed, st.tag);
    AtomScan {
        title: appended(st.title, text, f is Title),
        summary: appended(st.summary, text, f is Summary),
        content: appended(st.content, text, f is Content),
        published: first_date(st.published, text, f is Published),
        feed_title: appended(st.feed_title, text, f is FeedTitle),
        ..st
    }
}

/// The link of an entry after a `link` tag: inside an entry, the first
/// link whose `rel` is missing or `alternate` is kept.
pub open spec fn atom_link(st: AtomScan, attrs: Seq<Option<XmlAttribute>>) -> Seq<char> {
    let (href, rel) = link_attributes(attrs);
    if st.in_entry && (rel.len() == 0 || rel == "alternate"@) && st.link.len() == 0 {
        href
    } else {
        st.link
    }
}

/// The Atom parser's state after an event that does not end the reading:
/// `feed` and `entry` tags open and close those scopes (a closed entry is
/// recorded), a `link` tag may give the entry its link, other start tags
/// become the current tag, every end tag clears it, and character data
/// goes to its field.
pub open spec fn atom_step(st: AtomScan, ev: XmlEvent) -> AtomScan {
    match ev {
        XmlEvent::Start { name, attributes } => if name@ == "feed"@ {
            AtomScan { in_feed: true, ..st }
        } else if name@ == "entry"@ {
            AtomScan {
                in_entry: true,
                title: seq![],
                link: seq![],
                summary: seq![],
                content: seq![],
                published: seq![],
                ..st
            }
        } else if name@ == "link"@ {
            AtomScan { link: atom_link(st, attributes@), ..st }
        } else {
            AtomScan { tag: name@, ..st }
        },
        XmlEvent::End { name } => {
            let st2 = if name@ == "entry"@ {
                AtomScan {
                    entries: st.entries.push(
                        FeedEntry {
                            title: trim_seq(st.title),
                            link: trim_seq(st.link),
                            description: trim_seq(st.summary),
                            content: trim_seq(st.content),
                            published: st.published,
                        },
                    ),
                    in_entry: false,
                    ..st
                }
            } else if name@ == "feed"@ {
                AtomScan { in_feed: false, ..st }
            } else {
                st
            };
            AtomScan { tag: seq![], ..st2 }
        },
        XmlEvent::Text { .. } => atom_text(st, event_text(ev)),
        XmlEvent::CData { .. } => atom_text(st, event_text(ev)),
        _ => st,
    }
}

/// The Atom parser's state after the events, in order.
pub open spec fn atom_scan(evs: Seq<XmlEvent>) -> AtomScan
    decreases evs.len(),
{
    if evs.len() == 0 {
        atom_initial()
    } else {
        atom_step(atom_scan(evs.drop_last()), evs.last())
    }
}

/// What the Atom parser gives for the events, as [`rss_result`] does for
/// RSS.
pub open spec fn atom_result(evs: Seq<XmlEvent>, feed_name: Seq<char>) -> Result<
    (Seq<char>, Seq<FeedEntry>),
    Seq<char>,
> {
    if exists|k: int| first_terminal_at(evs, k) {
        let k = choose|k: int| first_terminal_at(evs, k);
        if evs[k] is Error {
            Err(xml_error_message(evs[k]))
        } else {
            let st = atom_scan(evs.take(k));
            finished(st.feed_title, st.entries, feed_name)
        }
    } else {
        let st = atom_scan(evs);
        finished(st.feed_title, st.entries, feed_name)
    }
}

/// Reads the `href` and `rel` attributes of a `link` tag.
fn read_link_attributes(attrs: &Vec<Option<XmlAttribute>>) -> (r: (String, String))
    ensures
        (r.0@, r.1@) == link_attributes(attrs@),
{
    let mut href = String::new();
    let mut rel = String::new();
    let mut i: usize = 0;
    while i < attrs.len()
        invariant
            i <= attrs.len(),
            (href@, rel@) == link_attributes(attrs@.take(i as int)),
        decreases attrs.len() - i,
    {
        assert(attrs@.take(i + 1).drop_last() =~= attrs@.take(i as int));
        match &attrs[i] {
            Some(a) => {
                if same_text(a.key.as_str(), "href") {
                    href = a.value.clone();
                } else if same_text(a.key.as_str(), "rel") {
                    rel = a.value.clone();
                }
            },
            None => {},
        }
        i = i + 1;
    }
    assert(attrs@.take(attrs@.len() as int) =~= attrs@);
    (href, rel)
}

/// Parses the events of an Atom document.
pub fn parse_atom_events(evs: &Vec<XmlEvent>, feed_name: &str) -> (r: Result<
    (String, Vec<Article>),
    String,
>)
    ensures
        parse_matches(r, atom_result(evs@, feed_name@), feed_name@),
{
    let mut in_feed = false;
    let mut in_entry = false;
    let mut current_tag = String::new();
    let mut entry_title = String::new();
    let mut entry_link = String::new();
    let mut entry_summary = String::new();
    let mut entry_content = String::new();
    let mut entry_published = String::new();
    let mut feed_title = String::new();
    let mut articles: Vec<Article> = Vec::new();
    let mut i: usize = 0;
    while i < evs.len()
        invariant
            i <= evs.len(),
            forall|j: int| 0 <= j < i ==> !is_terminal(#[trigger] evs@[j]),
            ({
                let st = atom_scan(evs@.take(i as int));
                &&& st.in_feed == in_feed
                &&& st.in_entry == in_entry
                &&& st.tag == current_tag@
                &&& st.title == entry_title@
                &&& st.link == entry_link@
                &&& st.summary == entry_summary@
                &&& st.content == entry_content@
                &&& st.published == entry_published@
                &&& st.feed_title == feed_title@
                &&& articles_from_entries(articles@, st.entries, feed_name@)
            }),
        decreases evs.len() - i,
    {
        let ghost ev = evs@[i as int];
        assert(evs@.take(i + 1).drop_last() =~= evs@.take(i as int));
        assert(evs@.take(i + 1).last() == ev);
        match &evs[i] {
            XmlEvent::Start { name, attributes } => {
                if same_text(name.as_str(), "feed") {
                    in_feed = true;
                } else if same_text(name.as_str(), "entry") {
                    in_entry = true;
                    entry_title = String::new();
                    entry_link = String::new();
                    entry_summary = String::new();
                    entry_content = String::new();
                    entry_published = String::new();
                } else if same_text(name.as_str(), "link") {
                    let (href, rel) = read_link_attributes(attributes);
                    if in_entry && (rel.as_str().is_empty() || same_text(rel.as_str(), "alternate"))
                        && entry_link.as_str().is_empty() {
                        entry_link = href;
                    }
                } else {
                    current_tag = name.clone();
                }
            },
            XmlEvent::End { name } => {
                if same_text(name.as_str(), "entry") {
                    let a = make_article(
                        entry_title.as_str(),
                        entry_link.as_str(),
                        entry_summary.as_str(),
                        entry_content.as_str(),
                        entry_published.as_str(),
                        feed_name,
                    );
                    let ghost old_arts = articles@;
                    articles.push(a);
                    proof {
                        let after = atom_scan(evs@.take(i + 1));
                        assert(articles@ == old_arts.push(a));
                        assert forall|j: int| 0 <= j < articles@.len() implies article_from_entry(
                            #[trigger] articles@[j],
                            after.entries[j],
                            feed_name@,
                        ) by {
                            if j < old_arts.len() {
                                assert(articles@[j] == old_arts[j]);
                            }
                        }
                    }
                    in_entry = false;
                } else if same_text(name.as_str(), "feed") {
                    in_feed = false;
                }
                current_tag = String::new();
            },
            XmlEvent::Text { text } => {
                let t = match text {
                    Some(t) => t.clone(),
                    None => String::new(),
                };
                atom_apply_text(
                    t.as_str(),
                    in_entry,
                    in_feed,
                    current_tag.as_str(),
                    &mut entry_title,
                    &mut entry_summary,
                    &mut entry_content,
                    &mut entry_published,
                    &mut feed_title,
                );
            },
            XmlEvent::CData { data } => {
                atom_apply_text(
                    data.as_str(),
                    in_entry,
                    in_feed,
                    current_tag.as_str(),
                    &mut entry_title,
                    &mut entry_summary,
                    &mut entry_content,
                    &mut entry_published,
                    &mut feed_title,
                );
            },
            XmlEvent::Other => {},
            XmlEvent::Eof => {
                proof {
                    assert(first_terminal_at(evs@, i as int));
                    lemma_first_terminal_unique(evs@, i as int);
                }
                if feed_title.as_str().is_empty() {
                    feed_title = feed_name.to_owned();
                }
                return Ok((feed_title, articles));
            },
            XmlEvent::Error { message } => {
                proof {
                    assert(first_terminal_at(evs@, i as int));
                    lemma_first_terminal_unique(evs@, i as int);
                }
                let mut m = "XML parse error: ".to_owned();
                m.append(message.as_str());
                return Err(m);
            },
        }
        i = i + 1;
    }
    proof {
        lemma_no_terminal(evs@);
        assert(evs@.take(evs@.len() as int) =~= evs@);
    }
    if feed_title.as_str().is_empty() {
        feed_title = feed_name.to_owned();
    }
    Ok((feed_title, articles))
}

/// Whether a document is read as Atom: it has a `<feed` and no `<rss`.
/// (Leading white space, which the detection skips, cannot change this,
/// since both markers start with `<`.)
pub open spec fn is_atom_document(xml: Seq<char>) -> bool {
    has_substring(xml, "<feed"@) && !has_substring(xml, "<rss"@)
}

/// Parses an RSS or Atom document into the feed title and its articles.
///
/// The document is read as the events quick-xml's reader hands out over
/// it, up to the first end of input or error; the result is the one
/// [`parse_rss_events`] or [`parse_atom_events`] states for them.
pub fn parse_feed(xml: &str, feed_name: &str) -> (r: Result<(String, Vec<Article>), String>)
    ensures
        exists|evs: Seq<XmlEvent>|
            #[trigger] read_from(xml@, evs) && reading_stopped(evs, xml.len() as nat) && parse_matches(
                r,
                if is_atom_document(xml@) {
                    atom_result(evs, feed_name@)
                } else {
                    rss_result(evs, feed_name@)
                },
                feed_name@,
            ),
{
    let evs = read_xml_events(xml);
    if contains_text(xml, "<feed") && !contains_text(xml, "<rss") {
        parse_atom_events(&evs, feed_name)
    } else {
        parse_rss_events(&evs, feed_name)
    }
}

} // verus!
