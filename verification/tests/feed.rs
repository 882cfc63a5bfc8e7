use rssr::feed::fetcher::{
    conditional_headers, decide_retry, interpret_response, FetchError, FetchStatus, RetryDecision,
};
use rssr::feed::parser::{
    build_dedup_key, entry_from_xml, feed_from_json, feed_from_xml, parse_feed_bytes,
    parse_xml_feed, trim_leading_ascii_whitespace, FeedParseError, FeedReading, XmlDocument,
    XmlEntry,
};
use rssr::feed::types::{FeedFormat, ParsedEntry, ParsedFeed};
use rssr::feed::FeedService;
use rssr::json::{parse_json, JsonValue};

const SAMPLE_RSS: &str = r#"<?xml version="1.0" encoding="UTF-8"?>
<rss version="2.0">
  <channel>
    <title>Sample Feed</title>
    <link>https://example.com/</link>
    <description>A sample feed</description>
    <item>
      <title>First post</title>
      <link>https://example.com/posts/1</link>
      <guid>post-1</guid>
      <description>Summary of the first post</description>
      <pubDate>Tue, 24 Feb 2026 10:00:00 GMT</pubDate>
    </item>
    <item>
      <title>Second post</title>
      <link>https://example.com/posts/2</link>
      <guid>post-2</guid>
      <description>Summary of the second post</description>
      <pubDate>Tue, 24 Feb 2026 11:00:00 GMT</pubDate>
    </item>
  </channel>
</rss>
"#;

const SAMPLE_JSON_FEED: &str = r#"{
  "version": "https://jsonfeed.org/version/1.1",
  "title": "Sample JSON Feed",
  "home_page_url": "https://example.com/",
  "feed_url": "https://example.com/feed.json",
  "items": [
    {
      "id": "1",
      "title": "First entry",
      "url": "https://example.com/entries/1",
      "summary": "first",
      "content_text": "plain one",
      "content_html": "<p>html one</p>",
      "date_published": "2026-02-24T00:00:00Z"
    },
    {
      "url": "https://example.com/entries/2",
      "content_text": "plain two"
    }
  ]
}"#;

fn xml_entry(entry: feed_rs::model::Entry) -> XmlEntry {
    XmlEntry {
        id: entry.id,
        title: entry.title.map(|text| text.content),
        links: entry.links.into_iter().map(|link| link.href).collect(),
        summary: entry.summary.map(|text| text.content),
        content: entry.content.and_then(|content| content.body),
        published: entry.published.map(|timestamp| timestamp.to_rfc3339()),
        updated: entry.updated.map(|timestamp| timestamp.to_rfc3339()),
    }
}

fn xml_document(raw: &[u8]) -> Result<XmlDocument, String> {
    let parser = feed_rs::parser::Builder::new()
        .id_generator(|_, _, _| String::new())
        .build();
    let feed = parser.parse(raw).map_err(|error| error.to_string())?;
    Ok(XmlDocument {
        title: feed.title.map(|text| text.content),
        links: feed.links.into_iter().map(|link| link.href).collect(),
        entries: feed.entries.into_iter().map(xml_entry).collect(),
    })
}

fn read_feed(raw: &[u8]) -> Result<ParsedFeed, FeedParseError> {
    match parse_feed_bytes(raw)? {
        FeedReading::Feed(feed) => Ok(feed),
        FeedReading::Xml(bytes) => parse_xml_feed(xml_document(bytes)),
    }
}

fn entry(id: &str, title: &str, link: &str, published_at: Option<&str>) -> ParsedEntry {
    ParsedEntry {
        id: id.to_string(),
        title: title.to_string(),
        link: link.to_string(),
        summary: None,
        content: None,
        published_at: published_at.map(|s| s.to_string()),
    }
}

#[test]
fn parses_xml_fixture_feed() {
    let parsed = match read_feed(SAMPLE_RSS.as_bytes()) {
        Ok(feed) => feed,
        Err(error) => panic!("xml fixture must parse: {}", error.message()),
    };

    assert_eq!(parsed.format, FeedFormat::XmlFeed);
    assert!(!parsed.title.trim().is_empty());
    assert_eq!(parsed.entries.len(), 2);
}

#[test]
fn parses_json_feed() {
    let parsed = match read_feed(SAMPLE_JSON_FEED.as_bytes()) {
        Ok(feed) => feed,
        Err(error) => panic!("json feed must parse: {}", error.message()),
    };

    assert_eq!(parsed.format, FeedFormat::JsonFeed);
    assert_eq!(parsed.entries.len(), 2);
    assert_eq!(parsed.entries[0].title, "First entry");
}

#[test]
fn dedup_key_prefers_entry_id() {
    let entry = ParsedEntry {
        id: "entry-1".to_string(),
        title: "Title".to_string(),
        link: "https://example.com/entry".to_string(),
        summary: None,
        content: None,
        published_at: Some("2026-02-24T00:00:00Z".to_string()),
    };
    let key = build_dedup_key("https://example.com/feed.xml", &entry);
    assert_eq!(key, "https://example.com/feed.xml::id::entry-1");
}

#[test]
fn dedup_key_falls_back_to_link_then_to_title_and_time() {
    let by_link = entry("  ", "Title", " https://example.com/entry ", None);
    assert_eq!(
        build_dedup_key("https://example.com/feed.xml", &by_link),
        "https://example.com/feed.xml::link::https://example.com/entry"
    );
    let by_title = entry("", " Title ", "\t", Some("2026-02-24T00:00:00Z"));
    assert_eq!(
        build_dedup_key("https://example.com/feed.xml", &by_title),
        "https://example.com/feed.xml::fallback::Title::2026-02-24T00:00:00Z"
    );
    let bare = entry("", "Title", "", None);
    assert_eq!(build_dedup_key("f", &bare), "f::fallback::Title::");
}

#[test]
fn dedup_key_trims_the_id() {
    let padded = entry("  entry-1\n", "Title", "https://example.com/entry", None);
    assert_eq!(build_dedup_key("u", &padded), "u::id::entry-1");
}

#[test]
fn entries_that_share_a_title_do_not_share_a_key() {
    let a = entry("", "Same", "https://example.com/a", None);
    let b = entry("", "Same", "https://example.com/b", None);
    assert_ne!(build_dedup_key("u", &a), build_dedup_key("u", &b));
}

#[test]
fn empty_payload_is_refused() {
    assert!(matches!(parse_feed_bytes(b""), Err(FeedParseError::EmptyPayload)));
    assert!(matches!(parse_feed_bytes(b" \t\r\n\x0c"), Err(FeedParseError::EmptyPayload)));
    match read_feed(b"   ") {
        Err(error) => assert_eq!(error.message(), "feed payload is empty"),
        Ok(_) => panic!("a blank payload is no feed"),
    }
}

#[test]
fn vertical_tab_is_no_ascii_whitespace() {
    assert_eq!(trim_leading_ascii_whitespace(b" \t\n\x0c\r{}"), b"{}");
    assert_eq!(trim_leading_ascii_whitespace(b"\x0b{}"), b"\x0b{}");
    assert_eq!(trim_leading_ascii_whitespace(b"  "), b"");
}

#[test]
fn leading_brace_selects_json() {
    assert!(matches!(parse_feed_bytes(b"  {not json"), Err(FeedParseError::Json(_))));
    assert!(matches!(parse_feed_bytes(b" \n<rss/>"), Ok(FeedReading::Xml(b"<rss/>"))));
    assert!(matches!(parse_feed_bytes(b"[1, 2]"), Ok(FeedReading::Xml(b"[1, 2]"))));
    assert!(matches!(parse_feed_bytes(b"\t{}"), Ok(FeedReading::Feed(_))));
    assert!(matches!(read_feed(b"not a feed"), Err(FeedParseError::Xml(_))));
    assert!(matches!(read_feed(b"[1, 2]"), Err(FeedParseError::Xml(_))));
}

#[test]
fn json_feed_of_the_wrong_shape_is_refused() {
    match parse_feed_bytes(br#"{"title": 3}"#) {
        Err(FeedParseError::Json(message)) => {
            assert_eq!(message, "document is not of the shape of a JSON feed")
        }
        other => panic!("a number is no title: {:?}", other),
    }
    assert!(matches!(parse_feed_bytes(br#"{"items": null}"#), Err(FeedParseError::Json(_))));
    assert!(matches!(parse_feed_bytes(br#"{"items": [1]}"#), Err(FeedParseError::Json(_))));
    match parse_feed_bytes(br#"{"items": [{"id": "a"},"#) {
        Err(error) => assert!(error.message().starts_with("json feed parse error: ")),
        Ok(_) => panic!("a cut document is no feed"),
    }
}

#[test]
fn json_feed_fills_in_what_is_missing() {
    let parsed = match read_feed(SAMPLE_JSON_FEED.as_bytes()) {
        Ok(feed) => feed,
        Err(error) => panic!("{}", error.message()),
    };
    assert_eq!(parsed.title, "Sample JSON Feed");
    assert_eq!(parsed.home_page_url.as_deref(), Some("https://example.com/"));
    assert_eq!(parsed.feed_url.as_deref(), Some("https://example.com/feed.json"));
    let first = &parsed.entries[0];
    assert_eq!(first.id, "1");
    assert_eq!(first.link, "https://example.com/entries/1");
    assert_eq!(first.summary.as_deref(), Some("first"));
    assert_eq!(first.content.as_deref(), Some("<p>html one</p>"));
    assert_eq!(first.published_at.as_deref(), Some("2026-02-24T00:00:00Z"));
    let second = &parsed.entries[1];
    assert_eq!(second.id, "https://example.com/entries/2");
    assert_eq!(second.title, "Untitled Entry");
    assert_eq!(second.content.as_deref(), Some("plain two"));
    assert_eq!(second.published_at, None);

    let bare = match read_feed(br#"{"items": [{}]}"#) {
        Ok(feed) => feed,
        Err(error) => panic!("{}", error.message()),
    };
    assert_eq!(bare.title, "Untitled Feed");
    assert_eq!(bare.entries[0].id, "unknown");
    assert_eq!(bare.entries[0].link, "");
    let empty = match read_feed(b"{}") {
        Ok(feed) => feed,
        Err(error) => panic!("{}", error.message()),
    };
    assert!(empty.entries.is_empty());
}

#[test]
fn json_document_is_read_into_plain_values() {
    let doc = match parse_json(br#"{"a": [1, "x", null, true]}"#) {
        Ok(doc) => doc,
        Err(message) => panic!("{}", message),
    };
    match doc {
        JsonValue::Object(members) => {
            assert_eq!(members.len(), 1);
            assert_eq!(members[0].0, "a");
            match &members[0].1 {
                JsonValue::Array(items) => {
                    assert!(matches!(&items[0], JsonValue::Number(n) if n == "1"));
                    assert!(matches!(&items[1], JsonValue::Text(t) if t == "x"));
                    assert!(matches!(&items[2], JsonValue::Null));
                    assert!(matches!(&items[3], JsonValue::Bool(true)));
                }
                other => panic!("an array was written: {:?}", other),
            }
        }
        other => panic!("an object was written: {:?}", other),
    }
    assert!(parse_json(b"{").is_err());
    assert!(feed_from_json(&JsonValue::Null).is_err());
}

#[test]
fn xml_feed_is_normalised() {
    let parsed = match read_feed(SAMPLE_RSS.as_bytes()) {
        Ok(feed) => feed,
        Err(error) => panic!("{}", error.message()),
    };
    assert_eq!(parsed.title, "Sample Feed");
    assert_eq!(parsed.home_page_url.as_deref(), Some("https://example.com/"));
    assert_eq!(parsed.feed_url, None);
    let first = &parsed.entries[0];
    assert_eq!(first.id, "post-1");
    assert_eq!(first.title, "First post");
    assert_eq!(first.link, "https://example.com/posts/1");
    assert_eq!(first.summary.as_deref(), Some("Summary of the first post"));
    assert_eq!(first.published_at.as_deref(), Some("2026-02-24T10:00:00+00:00"));
}

#[test]
fn xml_entry_falls_back_as_described() {
    let entry = XmlEntry {
        id: "  ".to_string(),
        title: None,
        links: vec!["https://example.com/a".to_string(), "https://example.com/b".to_string()],
        summary: None,
        content: Some("body".to_string()),
        published: None,
        updated: Some("2026-02-24T00:00:00+00:00".to_string()),
    };
    let parsed = entry_from_xml(&entry);
    assert_eq!(parsed.id, "https://example.com/a");
    assert_eq!(parsed.title, "Untitled Entry");
    assert_eq!(parsed.link, "https://example.com/a");
    assert_eq!(parsed.content.as_deref(), Some("body"));
    assert_eq!(parsed.published_at.as_deref(), Some("2026-02-24T00:00:00+00:00"));

    let bare = XmlEntry {
        id: "".to_string(),
        title: Some("T".to_string()),
        links: vec![],
        summary: None,
        content: None,
        published: Some("p".to_string()),
        updated: Some("u".to_string()),
    };
    let parsed = entry_from_xml(&bare);
    assert_eq!(parsed.id, "unknown");
    assert_eq!(parsed.link, "");
    assert_eq!(parsed.published_at.as_deref(), Some("p"));

    let doc = XmlDocument { title: None, links: vec![], entries: vec![bare] };
    let feed = feed_from_xml(&doc);
    assert_eq!(feed.title, "Untitled Feed");
    assert_eq!(feed.home_page_url, None);
    assert_eq!(feed.format, FeedFormat::XmlFeed);
    assert_eq!(feed.entries.len(), 1);
}

#[test]
fn not_modified_answer_carries_no_payload() {
    let answer = interpret_response(304, b"ignored".to_vec(), None, Some("\"v1\"".to_string()), None);
    assert!(matches!(answer, Ok(FetchStatus::NotModified)));
}

#[test]
fn success_answer_carries_body_and_validators() {
    let answer = interpret_response(
        200,
        b"<?xml".to_vec(),
        Some("application/rss+xml".to_string()),
        Some("\"rssr-feed-v1\"".to_string()),
        None,
    );
    match answer {
        Ok(FetchStatus::Updated(payload)) => {
            assert!(payload.body.starts_with(b"<?xml"));
            assert_eq!(payload.content_type.as_deref(), Some("application/rss+xml"));
            assert_eq!(payload.etag.as_deref(), Some("\"rssr-feed-v1\""));
            assert_eq!(payload.last_modified, None);
        }
        other => panic!("200 is an update: {:?}", other),
    }
    assert!(matches!(interpret_response(299, vec![], None, None, None), Ok(FetchStatus::Updated(_))));
}

#[test]
fn other_statuses_are_refused() {
    for status in [100u16, 199, 300, 301, 404, 500, 503] {
        match interpret_response(status, vec![], None, None, None) {
            Err(FetchError::HttpStatus(code)) => assert_eq!(code, status),
            other => panic!("{} is no answer to read: {:?}", status, other),
        }
    }
}

#[test]
fn fetch_errors_read_as_text() {
    assert_eq!(FetchError::HttpStatus(503).message(), "unexpected status code: 503");
    assert_eq!(FetchError::HttpStatus(0).message(), "unexpected status code: 0");
    assert_eq!(FetchError::Request("timed out".to_string()).message(), "request failed: timed out");
    assert_eq!(FeedParseError::Xml("bad".to_string()).message(), "xml feed parse error: bad");
    assert_eq!(FeedParseError::Json("bad".to_string()).message(), "json feed parse error: bad");
}

#[test]
fn validators_become_request_headers() {
    let both = conditional_headers(&Some("\"v1\"".to_string()), &Some("Tue, 24 Feb 2026".to_string()));
    assert_eq!(both.len(), 2);
    assert_eq!(both[0].name, "If-None-Match");
    assert_eq!(both[0].value, "\"v1\"");
    assert_eq!(both[1].name, "If-Modified-Since");
    assert_eq!(both[1].value, "Tue, 24 Feb 2026");
    assert!(conditional_headers(&None, &None).is_empty());
    let only_time = conditional_headers(&None, &Some("t".to_string()));
    assert_eq!(only_time.len(), 1);
    assert_eq!(only_time[0].name, "If-Modified-Since");
}

#[test]
fn retry_only_on_server_and_transport_errors() {
    let server = FetchError::HttpStatus(500);
    let client = FetchError::HttpStatus(404);
    let transport = FetchError::Request("connection reset".to_string());
    assert_eq!(decide_retry(&server, 0, 2), RetryDecision::RetryAfter(40));
    assert_eq!(decide_retry(&server, 1, 2), RetryDecision::RetryAfter(80));
    assert_eq!(decide_retry(&server, 2, 2), RetryDecision::GiveUp);
    assert_eq!(decide_retry(&transport, 0, 1), RetryDecision::RetryAfter(40));
    assert_eq!(decide_retry(&client, 0, 4), RetryDecision::GiveUp);
    assert_eq!(decide_retry(&FetchError::HttpStatus(499), 0, 4), RetryDecision::GiveUp);
    assert_eq!(decide_retry(&server, 0, 0), RetryDecision::GiveUp);
}

#[test]
fn persistent_server_error_takes_max_retries_plus_one_attempts() {
    for max_retries in 0usize..5 {
        let mut attempts = 0usize;
        let mut retries = 0usize;
        let last = loop {
            attempts += 1;
            let error = FetchError::HttpStatus(500);
            match decide_retry(&error, retries, max_retries) {
                RetryDecision::GiveUp => break error,
                RetryDecision::RetryAfter(delay) => {
                    retries += 1;
                    assert_eq!(delay, 40 * retries as u64);
                }
            }
        };
        assert_eq!(attempts, max_retries + 1);
        assert!(matches!(last, FetchError::HttpStatus(500)));
    }
}

#[test]
fn retry_delay_stops_at_the_largest_value() {
    let error = FetchError::HttpStatus(502);
    assert_eq!(decide_retry(&error, usize::MAX - 1, usize::MAX), RetryDecision::RetryAfter(u64::MAX));
}

#[test]
fn feed_service_is_ready() {
    assert_eq!(FeedService.name(), "feed");
    assert_eq!(FeedService.status(), "ready");
}

#[test]
fn xml_parser_answer_finishes_the_reading() {
    match parse_xml_feed(Err("unexpected end of input".to_string())) {
        Err(error) => assert_eq!(error.message(), "xml feed parse error: unexpected end of input"),
        Ok(_) => panic!("the parser refused the payload"),
    }
    let doc = XmlDocument {
        title: Some("T".to_string()),
        links: vec!["https://example.com/".to_string()],
        entries: vec![],
    };
    match parse_xml_feed(Ok(doc)) {
        Ok(feed) => {
            assert_eq!(feed.title, "T");
            assert_eq!(feed.format, FeedFormat::XmlFeed);
            assert_eq!(feed.home_page_url.as_deref(), Some("https://example.com/"));
        }
        Err(error) => panic!("{}", error.message()),
    }
}

#[test]
fn xml_entry_without_native_id_is_named_by_its_link() {
    let atom = br#"<?xml version="1.0"?>
<feed xmlns="http://www.w3.org/2005/Atom">
  <title>Atom</title>
  <entry>
    <title>With link</title>
    <link href="https://example.com/a"/>
    <updated>2026-02-24T00:00:00Z</updated>
  </entry>
  <entry>
    <title>Bare</title>
    <updated>2026-02-24T01:00:00Z</updated>
  </entry>
</feed>"#;
    let first = match read_feed(atom) {
        Ok(feed) => feed,
        Err(error) => panic!("{}", error.message()),
    };
    assert_eq!(first.entries.len(), 2);
    assert_eq!(first.entries[0].id, "https://example.com/a");
    assert_eq!(first.entries[0].link, "https://example.com/a");
    assert_eq!(first.entries[1].id, "unknown");
    assert_eq!(first.entries[1].link, "");
    assert_eq!(first.entries[1].published_at.as_deref(), Some("2026-02-24T01:00:00+00:00"));
    let second = match read_feed(atom) {
        Ok(feed) => feed,
        Err(error) => panic!("{}", error.message()),
    };
    assert_eq!(first, second);
    assert_eq!(
        build_dedup_key("https://example.com/atom.xml", &first.entries[0]),
        build_dedup_key("https://example.com/atom.xml", &second.entries[0])
    );
}

#[test]
fn json_item_written_as_an_array_is_read_by_position() {
    let payload = br#"{"items": [["i1", "T", "https://example.com/1", null, "plain", "<p>html</p>", "2026-02-24T00:00:00Z"]]}"#;
    let feed = match read_feed(payload) {
        Ok(feed) => feed,
        Err(error) => panic!("{}", error.message()),
    };
    assert_eq!(feed.entries.len(), 1);
    assert_eq!(feed.entries[0].id, "i1");
    assert_eq!(feed.entries[0].title, "T");
    assert_eq!(feed.entries[0].link, "https://example.com/1");
    assert_eq!(feed.entries[0].summary, None);
    assert_eq!(feed.entries[0].content.as_deref(), Some("<p>html</p>"));
    assert_eq!(feed.entries[0].published_at.as_deref(), Some("2026-02-24T00:00:00Z"));
    for refused in [
        &br#"{"items": [["i1", "T"]]}"#[..],
        &br#"{"items": [[null, null, null, null, null, null, null, null]]}"#[..],
        &br#"{"items": [[1, null, null, null, null, null, null]]}"#[..],
        &br#"{"items": [[]]}"#[..],
    ] {
        assert!(matches!(read_feed(refused), Err(FeedParseError::Json(_))));
    }
}
