//! The normalised feed model that both wire formats are parsed into.

use vstd::prelude::*;

verus! {

/// The view of an optional string.
pub open spec fn opt_view(o: Option<String>) -> Option<Seq<char>> {
    match o {
        Some(s) => Some(s@),
        None => None,
    }
}

/// A copy of an optional string.
pub fn clone_opt(o: &Option<String>) -> (r: Option<String>)
    ensures
        r == *o,
{
    match o {
        Some(s) => Some(s.clone()),
        None => None,
    }
}

/// The wire format a feed arrived in.
#[derive(Debug, Clone, Copy, PartialEq, Eq, Structural)]
pub enum FeedFormat {
    XmlFeed,
    JsonFeed,
}

/// One article of a feed, normalised.
#[derive(Debug, PartialEq, Eq)]
pub struct ParsedEntry {
    pub id: String,
    pub title: String,
    pub link: String,
    pub summary: Option<String>,
    pub content: Option<String>,
    pub published_at: Option<String>,
}

/// What a `ParsedEntry` holds, as plain sequences of characters.
pub struct ParsedEntryView {
    pub id: Seq<char>,
    pub title: Seq<char>,
    pub link: Seq<char>,
    pub summary: Option<Seq<char>>,
    pub content: Option<Seq<char>>,
    pub published_at: Option<Seq<char>>,
}

impl View for ParsedEntry {
    type V = ParsedEntryView;

    open spec fn view(&self) -> ParsedEntryView {
        ParsedEntryView {
            id: self.id@,
            title: self.title@,
            link: self.link@,
            summary: opt_view(self.summary),
            content: opt_view(self.content),
            published_at: opt_view(self.published_at),
        }
    }
}

impl Clone for ParsedEntry {
    fn clone(&self) -> (r: Self)
        ensures
            r == *self,
    {
        ParsedEntry {
            id: self.id.clone(),
            title: self.title.clone(),
            link: self.link.clone(),
            summary: clone_opt(&self.summary),
            content: clone_opt(&self.content),
            published_at: clone_opt(&self.published_at),
        }
    }
}

/// A whole feed, normalised.
#[derive(Debug, PartialEq, Eq)]
pub struct ParsedFeed {
    pub format: FeedFormat,
    pub title: String,
    pub home_page_url: Option<String>,
    pub feed_url: Option<String>,
    pub entries: Vec<ParsedEntry>,
}

/// What a `ParsedFeed` holds, as plain values.
pub struct ParsedFeedView {
    pub format: FeedFormat,
    pub title: Seq<char>,
    pub home_page_url: Option<Seq<char>>,
    pub feed_url: Option<Seq<char>>,
    pub entries: Seq<ParsedEntryView>,
}

/// A copy of a list of entries.
pub fn clone_entries(entries: &Vec<ParsedEntry>) -> (r: Vec<ParsedEntry>)
    ensures
        r@ == entries@,
{
    let mut out: Vec<ParsedEntry> = Vec::new();
    let mut i: usize = 0;
    while i < entries.len()
        invariant
            i <= entries.len(),
            out@ == entries@.take(i as int),
        decreases entries.len() - i,
    {
        out.push(entries[i].clone());
        assert(entries@.take(i + 1) =~= entries@.take(i as int).push(entries@[i as int]));
        i += 1;
    }
    assert(entries@.take(entries.len() as int) =~= entries@);
    out
}

impl Clone for ParsedFeed {
    fn clone(&self) -> (r: Self)
        ensures
            r@ == self@,
            r.entries@ == self.entries@,
    {
        ParsedFeed {
            format: self.format,
            title: self.title.clone(),
            home_page_url: clone_opt(&self.home_page_url),
            feed_url: clone_opt(&self.feed_url),
            entries: clone_entries(&self.entries),
        }
    }
}

/// The views of the entries of `entries`, in order.
pub open spec fn entry_views(entries: Seq<ParsedEntry>) -> Seq<ParsedEntryView> {
    Seq::new(entries.len(), |i: int| entries[i]@)
}

impl View for ParsedFeed {
    type V = ParsedFeedView;

    open spec fn view(&self) -> ParsedFeedView {
        ParsedFeedView {
            format: self.format,
            title: self.title@,
            home_page_url: opt_view(self.home_page_url),
            feed_url: opt_view(self.feed_url),
            entries: entry_views(self.entries@),
        }
    }
}

} // verus!
