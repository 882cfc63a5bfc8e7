//! Reads the bytes of a feed: tells the wire format, parses JSON, brings
//! what an XML parser made of an XML payload into the same normal form, and
//! derives the key by which an entry is recognised again.

use vstd::prelude::*;
use vstd::slice::slice_subrange;
use crate::feed::types::{
    clone_opt, entry_views, opt_view, FeedFormat, ParsedEntry, ParsedEntryView, ParsedFeed,
    ParsedFeedView,
};
use crate::json::{
    find_member, json_document, member, optional_text, parse_json, read_optional_text,
    read_record_text, record_text, JsonValue,
};
use crate::text::{concat2, concat3, is_blank, str_is_blank, trim, trimmed};

verus! {

/// Why a payload could not be turned into a feed.
#[derive(Debug)]
pub enum FeedParseError {
    /// The payload is empty or holds white space only.
    EmptyPayload,
    /// An XML parser refused the payload; the text is its message.
    Xml(String),
    /// The payload is no JSON document, or not one of the feed's shape.
    Json(String),
}

impl FeedParseError {
    /// The error as a line of text.
    pub open spec fn text(self) -> Seq<char> {
        match self {
            FeedParseError::EmptyPayload => "feed payload is empty"@,
            FeedParseError::Xml(m) => "xml feed parse error: "@ + m@,
            FeedParseError::Json(m) => "json feed parse error: "@ + m@,
        }
    }

    /// The error as a line of text.
    pub fn message(&self) -> (r: String)
        ensures
            r@ == self.text(),
    {
        match self {
            FeedParseError::EmptyPayload => "feed payload is empty".to_owned(),
            FeedParseError::Xml(m) => concat2("xml feed parse error: ", m.as_str()),
            FeedParseError::Json(m) => concat2("json feed parse error: ", m.as_str()),
        }
    }
}

/// The bytes that count as ASCII white space: space, tab, line feed, form
/// feed and carriage return.
pub open spec fn is_ascii_whitespace(b: u8) -> bool {
    b == 0x20 || b == 0x09 || b == 0x0A || b == 0x0C || b == 0x0D
}

/// `raw` without its longest prefix of ASCII white space.
pub open spec fn skip_ascii_whitespace(raw: Seq<u8>) -> Seq<u8>
    decreases raw.len(),
{
    if raw.len() > 0 && is_ascii_whitespace(raw[0]) {
        skip_ascii_whitespace(raw.drop_first())
    } else {
        raw
    }
}

proof fn lemma_skip_ascii_whitespace(raw: Seq<u8>, i: int)
    requires
        0 <= i <= raw.len(),
        forall|k: int| 0 <= k < i ==> is_ascii_whitespace(#[trigger] raw[k]),
        i == raw.len() || !is_ascii_whitespace(raw[i]),
    ensures
        skip_ascii_whitespace(raw) == raw.skip(i),
    decreases i,
{
    if i == 0 {
        assert(raw.skip(0) =~= raw);
    } else {
        let t = raw.drop_first();
        assert forall|k: int| 0 <= k < i - 1 implies is_ascii_whitespace(#[trigger] t[k]) by {
            assert(t[k] == raw[k + 1]);
        }
        lemma_skip_ascii_whitespace(t, i - 1);
        assert(t.skip(i - 1) =~= raw.skip(i));
    }
}

/// The payload from its first byte that is not ASCII white space.
pub fn trim_leading_ascii_whitespace(raw: &[u8]) -> (r: &[u8])
    ensures
        r@ == skip_ascii_whitespace(raw@),
{
    let n: usize = raw.len();
    let mut index: usize = 0;
    while index < n && (raw[index] == 0x20 || raw[index] == 0x09 || raw[index] == 0x0A
        || raw[index] == 0x0C || raw[index] == 0x0D)
        invariant
            index <= n == raw.len(),
            forall|k: int| 0 <= k < index ==> is_ascii_whitespace(#[trigger] raw@[k]),
        decreases n - index,
    {
        index += 1;
    }
    proof {
        lemma_skip_ascii_whitespace(raw@, index as int);
    }
    slice_subrange(raw, index, n)
}

/// The key by which an entry of the feed at `feed_url` is recognised again:
/// by its id where it has one, else by its link, else by its title and the
/// time it was published. Id, link and title count trimmed.
pub open spec fn dedup_key(feed_url: Seq<char>, entry: ParsedEntryView) -> Seq<char> {
    if !is_blank(entry.id) {
        feed_url + "::id::"@ + trimmed(entry.id)
    } else if !is_blank(entry.link) {
        feed_url + "::link::"@ + trimmed(entry.link)
    } else {
        feed_url + "::fallback::"@ + trimmed(entry.title) + "::"@ + match entry.published_at {
            Some(p) => p,
            None => Seq::<char>::empty(),
        }
    }
}

/// Builds the deduplication key of `entry`.
pub fn build_dedup_key(feed_url: &str, entry: &ParsedEntry) -> (r: String)
    ensures
        r@ == dedup_key(feed_url@, entry@),
{
    if !str_is_blank(entry.id.as_str()) {
        let id = trim(entry.id.as_str());
        return concat3(feed_url, "::id::", id.as_str());
    }
    if !str_is_blank(entry.link.as_str()) {
        let link = trim(entry.link.as_str());
        return concat3(feed_url, "::link::", link.as_str());
    }
    let title = trim(entry.title.as_str());
    let head = concat3(feed_url, "::fallback::", title.as_str());
    match &entry.published_at {
        Some(p) => concat3(head.as_str(), "::", p.as_str()),
        None => {
            let r = concat2(head.as_str(), "::");
            assert(r@ =~= head@ + "::"@ + Seq::<char>::empty());
            r
        },
    }
}

/// One entry of an XML feed, as an XML parser has read it: the native id,
/// empty where the entry has none, the links in document order, and
/// `published` and `updated` as RFC 3339 timestamps.
#[derive(Debug)]
pub struct XmlEntry {
    pub id: String,
    pub title: Option<String>,
    pub links: Vec<String>,
    pub summary: Option<String>,
    pub content: Option<String>,
    pub published: Option<String>,
    pub updated: Option<String>,
}

/// An XML feed, as an XML parser has read it.
#[derive(Debug)]
pub struct XmlDocument {
    pub title: Option<String>,
    pub links: Vec<String>,
    pub entries: Vec<XmlEntry>,
}

/// `o`, or `default` where `o` is nothing.
pub open spec fn or_default(o: Option<Seq<char>>, default: Seq<char>) -> Seq<char> {
    match o {
        Some(s) => s,
        None => default,
    }
}

/// `a`, or `b` where `a` is nothing.
pub open spec fn or_else(a: Option<Seq<char>>, b: Option<Seq<char>>) -> Option<Seq<char>> {
    match a {
        Some(_) => a,
        None => b,
    }
}

/// The first of `links`, if there is one.
pub open spec fn first_link(links: Seq<String>) -> Option<Seq<char>> {
    if links.len() > 0 {
        Some(links[0]@)
    } else {
        None
    }
}

/// The normalised form of an XML entry. A blank id gives way to the first
/// link, then to `unknown`; the link is the first link or empty; the time
/// is `published`, or `updated` where that is missing.
pub open spec fn xml_entry(e: XmlEntry) -> ParsedEntryView {
    ParsedEntryView {
        id: if is_blank(e.id@) {
            or_default(first_link(e.links@), "unknown"@)
        } else {
            e.id@
        },
        title: or_default(opt_view(e.title), "Untitled Entry"@),
        link: or_default(first_link(e.links@), Seq::<char>::empty()),
        summary: opt_view(e.summary),
        content: opt_view(e.content),
        published_at: or_else(opt_view(e.published), opt_view(e.updated)),
    }
}

/// The normalised form of an XML feed.
pub open spec fn xml_feed(doc: XmlDocument) -> ParsedFeedView {
    ParsedFeedView {
        format: FeedFormat::XmlFeed,
        title: or_default(opt_view(doc.title), "Untitled Feed"@),
        home_page_url: first_link(doc.links@),
        feed_url: None,
        entries: Seq::new(doc.entries@.len(), |i: int| xml_entry(doc.entries@[i])),
    }
}

fn first_of(links: &Vec<String>) -> (r: Option<String>)
    ensures
        opt_view(r) == first_link(links@),
{
    if links.len() > 0 {
        Some(links[0].clone())
    } else {
        None
    }
}

fn text_or(o: Option<String>, default: &str) -> (r: String)
    ensures
        r@ == or_default(opt_view(o), default@),
{
    match o {
        Some(s) => s,
        None => default.to_owned(),
    }
}

fn text_or_else(a: Option<String>, b: Option<String>) -> (r: Option<String>)
    ensures
        opt_view(r) == or_else(opt_view(a), opt_view(b)),
{
    match a {
        Some(s) => Some(s),
        None => b,
    }
}

/// Normalises one XML entry.
pub fn entry_from_xml(entry: &XmlEntry) -> (r: ParsedEntry)
    ensures
        r@ == xml_entry(*entry),
{
    let id = if str_is_blank(entry.id.as_str()) {
        text_or(first_of(&entry.links), "unknown")
    } else {
        entry.id.clone()
    };
    let title = text_or(clone_opt(&entry.title), "Untitled Entry");
    let link = text_or(first_of(&entry.links), "");
    proof {
        reveal_strlit("");
        assert(""@ =~= Seq::<char>::empty());
    }
    let summary = clone_opt(&entry.summary);
    let content = clone_opt(&entry.content);
    let published_at = text_or_else(clone_opt(&entry.published), clone_opt(&entry.updated));
    ParsedEntry { id, title, link, summary, content, published_at }
}

/// Normalises an XML feed.
pub fn feed_from_xml(doc: &XmlDocument) -> (r: ParsedFeed)
    ensures
        r@ == xml_feed(*doc),
{
    let title = text_or(clone_opt(&doc.title), "Untitled Feed");
    let home_page_url = first_of(&doc.links);
    let mut entries: Vec<ParsedEntry> = Vec::new();
    let mut i: usize = 0;
    while i < doc.entries.len()
        invariant
            i <= doc.entries.len(),
            entries.len() == i,
            forall|k: int| 0 <= k < i ==> (#[trigger] entries@[k])@ == xml_entry(doc.entries@[k]),
        decreases doc.entries.len() - i,
    {
        entries.push(entry_from_xml(&doc.entries[i]));
        i += 1;
    }
    let r = ParsedFeed { format: FeedFormat::XmlFeed, title, home_page_url, feed_url: None, entries };
    assert(r@.entries =~= xml_feed(*doc).entries);
    r
}

/// The normalised form of one item of a JSON feed. An item is a record of
/// seven fields, each a string or `null`: `id`, `title`, `url`, `summary`,
/// `content_text`, `content_html` and `date_published`; anything else is
/// refused. The id falls back to the URL, then to `unknown`; HTML content
/// goes before plain text.
pub open spec fn json_entry(item: JsonValue) -> Result<ParsedEntryView, ()> {
    match (
        record_text(item, "id"@, 0, 7),
        record_text(item, "title"@, 1, 7),
        record_text(item, "url"@, 2, 7),
        record_text(item, "summary"@, 3, 7),
        record_text(item, "content_text"@, 4, 7),
        record_text(item, "content_html"@, 5, 7),
        record_text(item, "date_published"@, 6, 7),
    ) {
        (Ok(id), Ok(title), Ok(url), Ok(summary), Ok(text), Ok(html), Ok(date)) => Ok(
            ParsedEntryView {
                id: or_default(or_else(id, url), "unknown"@),
                title: or_default(title, "Untitled Entry"@),
                link: or_default(url, Seq::<char>::empty()),
                summary: summary,
                content: or_else(html, text),
                published_at: date,
            },
        ),
        _ => Err(()),
    }
}

/// The items of a JSON feed: none where the member is missing, those of
/// the array where it is one, `Err` for any other value or for an item that
/// `json_entry` refuses.
pub open spec fn json_entries(items: Option<JsonValue>) -> Result<Seq<ParsedEntryView>, ()> {
    match items {
        None => Ok(Seq::empty()),
        Some(JsonValue::Array(a)) => json_entry_list(a@),
        Some(_) => Err(()),
    }
}

/// The normalised form of a JSON feed, or `Err` where the document is not
/// of the feed's shape.
pub open spec fn json_feed(doc: JsonValue) -> Result<ParsedFeedView, ()> {
    match doc {
        JsonValue::Object(m) => {
            let title = optional_text(member(m@, "title"@));
            let home = optional_text(member(m@, "home_page_url"@));
            let feed_url = optional_text(member(m@, "feed_url"@));
            let entries = json_entries(member(m@, "items"@));
            match (title, home, feed_url, entries) {
                (Ok(title), Ok(home), Ok(feed_url), Ok(entries)) => Ok(
                    ParsedFeedView {
                        format: FeedFormat::JsonFeed,
                        title: or_default(title, "Untitled Feed"@),
                        home_page_url: home,
                        feed_url: feed_url,
                        entries: entries,
                    },
                ),
                _ => Err(()),
            }
        },
        _ => Err(()),
    }
}

/// Normalises one item of a JSON feed.
pub fn entry_from_json(item: &JsonValue) -> (r: Result<ParsedEntry, ()>)
    ensures
        match r {
            Ok(e) => json_entry(*item) == Ok::<ParsedEntryView, ()>(e@),
            Err(_) => json_entry(*item) is Err,
        },
{
    let id = read_record_text(item, "id", 0, 7)?;
    let title = read_record_text(item, "title", 1, 7)?;
    let url = read_record_text(item, "url", 2, 7)?;
    let summary = read_record_text(item, "summary", 3, 7)?;
    let content_text = read_record_text(item, "content_text", 4, 7)?;
    let content_html = read_record_text(item, "content_html", 5, 7)?;
    let date_published = read_record_text(item, "date_published", 6, 7)?;
    proof {
        reveal_strlit("");
        assert(""@ =~= Seq::<char>::empty());
    }
    Ok(
        ParsedEntry {
            id: text_or(text_or_else(id, clone_opt(&url)), "unknown"),
            title: text_or(title, "Untitled Entry"),
            link: text_or(url, ""),
            summary,
            content: text_or_else(content_html, content_text),
            published_at: date_published,
        },
    )
}

/// The entries of an array of items, where `json_entry` takes each.
pub open spec fn json_entry_list(a: Seq<JsonValue>) -> Result<Seq<ParsedEntryView>, ()> {
    if forall|i: int| 0 <= i < a.len() ==> (#[trigger] json_entry(a[i])) is Ok {
        Ok(Seq::new(a.len(), |i: int| json_entry(a[i])->Ok_0))
    } else {
        Err(())
    }
}

fn entry_list_from_json(a: &Vec<JsonValue>) -> (r: Result<Vec<ParsedEntry>, ()>)
    ensures
        match r {
            Ok(v) => json_entry_list(a@) == Ok::<Seq<ParsedEntryView>, ()>(entry_views(v@)),
            Err(_) => json_entry_list(a@) is Err,
        },
{
    let mut out: Vec<ParsedEntry> = Vec::new();
    let mut i: usize = 0;
    while i < a.len()
        invariant
            i <= a.len(),
            out.len() == i,
            forall|k: int|
                0 <= k < i ==> (#[trigger] json_entry(a@[k])) == Ok::<ParsedEntryView, ()>(
                    out@[k]@,
                ),
        decreases a.len() - i,
    {
        match entry_from_json(&a[i]) {
            Ok(e) => {
                out.push(e);
            },
            Err(_) => {
                assert(json_entry(a@[i as int]) is Err);
                return Err(());
            },
        }
        i += 1;
    }
    assert(entry_views(out@) =~= Seq::new(a@.len(), |i: int| json_entry(a@[i])->Ok_0));
    Ok(out)
}

fn entries_from_json(items: Option<&JsonValue>) -> (r: Result<Vec<ParsedEntry>, ()>)
    ensures
        match r {
            Ok(v) => json_entries(
                match items {
                    Some(i) => Some(*i),
                    None => None,
                },
            ) == Ok::<Seq<ParsedEntryView>, ()>(entry_views(v@)),
            Err(_) => json_entries(
                match items {
                    Some(i) => Some(*i),
                    None => None,
                },
            ) is Err,
        },
{
    match items {
        None => {
            let v: Vec<ParsedEntry> = Vec::new();
            assert(entry_views(v@) =~= Seq::<ParsedEntryView>::empty());
            Ok(v)
        },
        Some(JsonValue::Array(a)) => entry_list_from_json(a),
        Some(_) => Err(()),
    }
}

/// Normalises a JSON feed.
pub fn feed_from_json(doc: &JsonValue) -> (r: Result<ParsedFeed, ()>)
    ensures
        match r {
            Ok(f) => json_feed(*doc) == Ok::<ParsedFeedView, ()>(f@),
            Err(_) => json_feed(*doc) is Err,
        },
{
    match doc {
        JsonValue::Object(m) => {
            let title = read_optional_text(m, "title")?;
            let home_page_url = read_optional_text(m, "home_page_url")?;
            let feed_url = read_optional_text(m, "feed_url")?;
            let entries = entries_from_json(find_member(m, "items"))?;
            Ok(
                ParsedFeed {
                    format: FeedFormat::JsonFeed,
                    title: text_or(title, "Untitled Feed"),
                    home_page_url,
                    feed_url,
                    entries,
                },
            )
        },
        _ => Err(()),
    }
}

/// What a JSON payload comes to once `serde_json` has read it: the feed,
/// the parser's own message where the payload is no JSON document, or a
/// fixed message where the document is not of the feed's shape.
pub open spec fn json_feed_outcome(doc: Result<JsonValue, Seq<char>>) -> Result<
    ParsedFeedView,
    Seq<char>,
> {
    match doc {
        Err(m) => Err(m),
        Ok(v) => match json_feed(v) {
            Ok(f) => Ok(f),
            Err(_) => Err("document is not of the shape of a JSON feed"@),
        },
    }
}

/// Parses a payload in the JSON wire format.
pub fn parse_json_feed(raw: &[u8]) -> (r: Result<ParsedFeed, FeedParseError>)
    ensures
        match r {
            Ok(f) => json_feed_outcome(json_document(raw@)) == Ok::<ParsedFeedView, Seq<char>>(f@),
            Err(FeedParseError::Json(m)) => json_feed_outcome(json_document(raw@)) == Err::<
                ParsedFeedView,
                Seq<char>,
            >(m@),
            Err(_) => false,
        },
{
    match parse_json(raw) {
        Err(m) => Err(FeedParseError::Json(m)),
        Ok(doc) => match feed_from_json(&doc) {
            Ok(f) => Ok(f),
            Err(_) => Err(
                FeedParseError::Json("document is not of the shape of a JSON feed".to_owned()),
            ),
        },
    }
}

/// What reading a payload comes to before an XML parser is asked.
#[derive(Debug)]
pub enum FeedReading<'a> {
    /// The payload was JSON, and this is its feed.
    Feed(ParsedFeed),
    /// The payload is XML: these bytes, the payload from its first byte
    /// that is not white space, are to be handed to an XML parser, and its
    /// answer to `parse_xml_feed`.
    Xml(&'a [u8]),
}

/// Finishes the reading of an XML payload with what the XML parser made of
/// it: the normal form of its document, or its error.
pub fn parse_xml_feed(parsed: Result<XmlDocument, String>) -> (r: Result<ParsedFeed, FeedParseError>)
    ensures
        match parsed {
            Ok(doc) => r matches Ok(f) && f@ == xml_feed(doc),
            Err(m) => r == Err::<ParsedFeed, FeedParseError>(FeedParseError::Xml(m)),
        },
{
    match parsed {
        Err(m) => Err(FeedParseError::Xml(m)),
        Ok(doc) => Ok(feed_from_xml(&doc)),
    }
}

/// `r` is the reading of the payload `raw`. A payload of white space only
/// is refused as empty. One whose first byte after leading white space is
/// `{` is read as JSON, and comes to what `json_feed_outcome` says. Any
/// other is XML, and is handed back from its first byte that is not white
/// space.
pub open spec fn is_reading_of(raw: Seq<u8>, r: Result<FeedReading, FeedParseError>) -> bool {
    let t = skip_ascii_whitespace(raw);
    if t.len() == 0 {
        r matches Err(FeedParseError::EmptyPayload)
    } else if t[0] == 0x7B {
        match r {
            Ok(FeedReading::Feed(f)) => json_feed_outcome(json_document(t)) == Ok::<
                ParsedFeedView,
                Seq<char>,
            >(f@),
            Err(FeedParseError::Json(m)) => json_feed_outcome(json_document(t)) == Err::<
                ParsedFeedView,
                Seq<char>,
            >(m@),
            _ => false,
        }
    } else {
        r matches Ok(FeedReading::Xml(bytes)) && bytes@ == t
    }
}

/// Reads the bytes of a feed as far as it goes without an XML parser: it
/// tells the wire format, and parses JSON.
pub fn parse_feed_bytes(raw: &[u8]) -> (r: Result<FeedReading<'_>, FeedParseError>)
    ensures
        is_reading_of(raw@, r),
{
    let trimmed = trim_leading_ascii_whitespace(raw);
    if trimmed.len() == 0 {
        return Err(FeedParseError::EmptyPayload);
    }
    if trimmed[0] == 0x7B {
        return match parse_json_feed(trimmed) {
            Ok(feed) => Ok(FeedReading::Feed(feed)),
            Err(e) => Err(e),
        };
    }
    Ok(FeedReading::Xml(trimmed))
}

} // verus!
