//! The sync of one source, step by step: the caller does what an action
//! asks (a fetch, the parsing of XML, a write to the store) and reports how
//! it went; the steps here decide what follows.

use vstd::prelude::*;
use vstd::slice::slice_to_vec;
use crate::feed::fetcher::{FetchError, FetchStatus, FetchedFeed};
use crate::feed::parser::{
    json_feed_outcome, parse_feed_bytes, parse_xml_feed, skip_ascii_whitespace, xml_feed,
    FeedParseError, FeedReading, XmlDocument,
};
use crate::feed::types::{clone_opt, entry_views, ParsedEntry, ParsedEntryView, ParsedFeed};
use crate::json::json_document;
use crate::storage::models::SourceRecord;
use crate::sync::batch::SyncSourceResponse;
use crate::sync::settings::{normalize_sync_settings, normalized, SyncSettings};

verus! {

/// Where the sync of a source stands.
#[derive(Debug)]
pub enum SourceSyncState {
    /// The fetch is under way.
    Fetching,
    /// The XML of the answer is being parsed; the validators of the answer
    /// wait to be recorded.
    ParsingXml { etag: Option<String>, last_modified: Option<String> },
    /// The entries are being written; the validators of the answer wait to
    /// be recorded.
    Upserting { etag: Option<String>, last_modified: Option<String> },
    /// The success is being recorded.
    RecordingSuccess { updated: bool, upserted_entries: usize },
    /// The failure is being recorded.
    RecordingFailure { reason: String },
    /// The sync has ended.
    Finished,
}

/// What the caller reports.
#[derive(Debug)]
pub enum SourceSyncEvent {
    /// The fetch, retries included, ended like this.
    Fetched(Result<FetchStatus, FetchError>),
    /// The XML parser made this document of the payload, or refused it
    /// with this message.
    XmlParsed(Result<XmlDocument, String>),
    /// The store has taken the entries, this many.
    EntriesUpserted(usize),
    /// The store has recorded the success or the failure.
    Recorded,
    /// The store failed, with this message.
    StoreFailed(String),
}

/// What the caller is to do next.
#[derive(Debug)]
pub enum SourceSyncAction {
    /// Fetch the feed, with these validators, retries and timeout.
    Fetch {
        url: String,
        etag: Option<String>,
        last_modified: Option<String>,
        max_retries: usize,
        timeout_secs: u64,
    },
    /// Hand these bytes to the XML parser.
    ParseXml { payload: Vec<u8> },
    /// Upsert these entries for the source.
    UpsertEntries { source_id: i64, entries: Vec<ParsedEntry> },
    /// Record a successful sync with these validators.
    RecordSuccess { source_id: i64, etag: Option<String>, last_modified: Option<String> },
    /// Record one more failure.
    RecordFailure { source_id: i64 },
    /// The sync is over, with this result.
    Finish(Result<SyncSourceResponse, String>),
}

/// The sync of one source.
#[derive(Debug)]
pub struct SourceSync {
    pub source: SourceRecord,
    pub state: SourceSyncState,
}

/// The step that records a failure of fetching or reading: the text of
/// the error is kept as the reason.
pub open spec fn fails(
    source: SourceRecord,
    reason: Seq<char>,
    post: SourceSyncState,
    action: SourceSyncAction,
) -> bool {
    &&& post matches SourceSyncState::RecordingFailure { reason: kept }
    &&& kept@ == reason
    &&& action == (SourceSyncAction::RecordFailure { source_id: source.id })
}

/// The step that upserts the entries of a feed that was read: the
/// validators of the answer wait until the store has taken the entries.
pub open spec fn upserts(
    source: SourceRecord,
    etag: Option<String>,
    last_modified: Option<String>,
    entries: Seq<ParsedEntryView>,
    post: SourceSyncState,
    action: SourceSyncAction,
) -> bool {
    &&& post == (SourceSyncState::Upserting { etag, last_modified })
    &&& action matches SourceSyncAction::UpsertEntries { source_id, entries: handed }
    &&& source_id == source.id
    &&& entry_views(handed@) == entries
}

/// The step taken when the server has answered that nothing changed: the
/// success is recorded with the validators the source had, and no entry is
/// upserted.
pub open spec fn after_not_modified(
    source: SourceRecord,
    post: SourceSyncState,
    action: SourceSyncAction,
) -> bool {
    &&& post == (SourceSyncState::RecordingSuccess { updated: false, upserted_entries: 0 })
    &&& action == (SourceSyncAction::RecordSuccess {
        source_id: source.id,
        etag: source.etag,
        last_modified: source.last_modified,
    })
}

/// The step taken when a payload has been read as `parsed`: the entries of
/// a feed are upserted; a payload that could not be read is recorded as a
/// failure.
pub open spec fn after_parse(
    source: SourceRecord,
    etag: Option<String>,
    last_modified: Option<String>,
    parsed: Result<ParsedFeed, FeedParseError>,
    post: SourceSyncState,
    action: SourceSyncAction,
) -> bool {
    match parsed {
        Ok(feed) => upserts(source, etag, last_modified, feed@.entries, post, action),
        Err(error) => fails(source, error.text(), post, action),
    }
}

/// The step taken when the server has answered with a payload. A blank
/// payload is recorded as a failure. A JSON payload is read at once: its
/// entries are upserted, or the failure to read it is recorded. An XML
/// payload is handed to the XML parser, from its first byte that is not
/// white space.
pub open spec fn after_payload(
    source: SourceRecord,
    payload: FetchedFeed,
    post: SourceSyncState,
    action: SourceSyncAction,
) -> bool {
    let t = skip_ascii_whitespace(payload.body@);
    if t.len() == 0 {
        fails(source, FeedParseError::EmptyPayload.text(), post, action)
    } else if t[0] == 0x7B {
        match json_feed_outcome(json_document(t)) {
            Ok(feed) => upserts(
                source,
                payload.etag,
                payload.last_modified,
                feed.entries,
                post,
                action,
            ),
            Err(m) => fails(source, "json feed parse error: "@ + m, post, action),
        }
    } else {
        &&& post == (SourceSyncState::ParsingXml {
            etag: payload.etag,
            last_modified: payload.last_modified,
        })
        &&& action matches SourceSyncAction::ParseXml { payload: handed }
        &&& handed@ == t
    }
}

/// The step taken when the XML parser has answered: the entries of the
/// normal form of its document are upserted, or its error is recorded as a
/// failure.
pub open spec fn after_xml(
    source: SourceRecord,
    etag: Option<String>,
    last_modified: Option<String>,
    parsed: Result<XmlDocument, String>,
    post: SourceSyncState,
    action: SourceSyncAction,
) -> bool {
    match parsed {
        Ok(doc) => upserts(source, etag, last_modified, xml_feed(doc).entries, post, action),
        Err(m) => fails(source, "xml feed parse error: "@ + m@, post, action),
    }
}

/// The last step: the outcome that was recorded is the result.
pub open spec fn after_recorded(
    source: SourceRecord,
    pre: SourceSyncState,
    action: SourceSyncAction,
) -> bool {
    match pre {
        SourceSyncState::RecordingSuccess { updated, upserted_entries } => {
            &&& action matches SourceSyncAction::Finish(Ok(response))
            &&& response.source_id == source.id
            &&& response.upserted_entries == upserted_entries
            &&& response.status@ == if updated {
                "updated"@
            } else {
                "not_modified"@
            }
        },
        SourceSyncState::RecordingFailure { reason } => action == SourceSyncAction::Finish(
            Err(reason),
        ),
        _ => false,
    }
}

/// An event that the state does not wait for ends the sync with an error.
pub open spec fn after_misfit(post: SourceSyncState, action: SourceSyncAction) -> bool {
    &&& post is Finished
    &&& action matches SourceSyncAction::Finish(Err(reason))
    &&& reason@ == "event does not fit the state of the sync"@
}

/// `post` and `action` are what follows `event` in the state `pre`.
pub open spec fn is_step(
    source: SourceRecord,
    pre: SourceSyncState,
    event: SourceSyncEvent,
    post: SourceSyncState,
    action: SourceSyncAction,
) -> bool {
    match (pre, event) {
        (SourceSyncState::Finished, _) => after_misfit(post, action),
        (_, SourceSyncEvent::StoreFailed(message)) => {
            &&& post is Finished
            &&& action == SourceSyncAction::Finish(Err(message))
        },
        (SourceSyncState::Fetching, SourceSyncEvent::Fetched(Err(error))) => fails(
            source,
            error.text(),
            post,
            action,
        ),
        (
            SourceSyncState::Fetching,
            SourceSyncEvent::Fetched(Ok(FetchStatus::NotModified)),
        ) => after_not_modified(source, post, action),
        (
            SourceSyncState::Fetching,
            SourceSyncEvent::Fetched(Ok(FetchStatus::Updated(payload))),
        ) => after_payload(source, payload, post, action),
        (
            SourceSyncState::ParsingXml { etag, last_modified },
            SourceSyncEvent::XmlParsed(parsed),
        ) => after_xml(source, etag, last_modified, parsed, post, action),
        (
            SourceSyncState::Upserting { etag, last_modified },
            SourceSyncEvent::EntriesUpserted(count),
        ) => {
            &&& post == (SourceSyncState::RecordingSuccess {
                updated: true,
                upserted_entries: count,
            })
            &&& action == (SourceSyncAction::RecordSuccess {
                source_id: source.id,
                etag,
                last_modified,
            })
        },
        (SourceSyncState::RecordingSuccess { .. }, SourceSyncEvent::Recorded) => {
            &&& post is Finished
            &&& after_recorded(source, pre, action)
        },
        (SourceSyncState::RecordingFailure { .. }, SourceSyncEvent::Recorded) => {
            &&& post is Finished
            &&& after_recorded(source, pre, action)
        },
        _ => after_misfit(post, action),
    }
}

fn misfit() -> (r: (SourceSyncState, SourceSyncAction))
    ensures
        after_misfit(r.0, r.1),
{
    (
        SourceSyncState::Finished,
        SourceSyncAction::Finish(Err("event does not fit the state of the sync".to_owned())),
    )
}

/// Decides what follows the reading of a payload.
pub fn plan_after_parse(
    source: &SourceRecord,
    etag: Option<String>,
    last_modified: Option<String>,
    parsed: Result<ParsedFeed, FeedParseError>,
) -> (r: (SourceSyncState, SourceSyncAction))
    ensures
        after_parse(*source, etag, last_modified, parsed, r.0, r.1),
{
    match parsed {
        Ok(feed) => (
            SourceSyncState::Upserting { etag, last_modified },
            SourceSyncAction::UpsertEntries { source_id: source.id, entries: feed.entries },
        ),
        Err(error) => (
            SourceSyncState::RecordingFailure { reason: error.message() },
            SourceSyncAction::RecordFailure { source_id: source.id },
        ),
    }
}

/// Decides what follows an answer with a payload.
pub fn plan_after_payload(source: &SourceRecord, payload: FetchedFeed) -> (r: (
    SourceSyncState,
    SourceSyncAction,
))
    ensures
        after_payload(*source, payload, r.0, r.1),
{
    let FetchedFeed { body, content_type: _, etag, last_modified } = payload;
    match parse_feed_bytes(body.as_slice()) {
        Err(error) => plan_after_parse(source, etag, last_modified, Err(error)),
        Ok(FeedReading::Feed(feed)) => plan_after_parse(source, etag, last_modified, Ok(feed)),
        Ok(FeedReading::Xml(bytes)) => (
            SourceSyncState::ParsingXml { etag, last_modified },
            SourceSyncAction::ParseXml { payload: slice_to_vec(bytes) },
        ),
    }
}

/// Decides what follows the answer of the XML parser.
pub fn plan_after_xml(
    source: &SourceRecord,
    etag: Option<String>,
    last_modified: Option<String>,
    parsed: Result<XmlDocument, String>,
) -> (r: (SourceSyncState, SourceSyncAction))
    ensures
        after_xml(*source, etag, last_modified, parsed, r.0, r.1),
{
    plan_after_parse(source, etag, last_modified, parse_xml_feed(parsed))
}

impl SourceSync {
    /// Starts the sync of `source`: the feed is fetched with the validators
    /// the source has, and with the retries and the timeout of `settings`
    /// moved into their safe bounds.
    pub fn begin(source: SourceRecord, settings: SyncSettings) -> (r: (SourceSync, SourceSyncAction))
        ensures
            r.0.source == source,
            r.0.state is Fetching,
            r.1 == (SourceSyncAction::Fetch {
                url: source.feed_url,
                etag: source.etag,
                last_modified: source.last_modified,
                max_retries: normalized(settings).retry_count as usize,
                timeout_secs: normalized(settings).timeout_secs,
            }),
    {
        let bounded = normalize_sync_settings(settings);
        let action = SourceSyncAction::Fetch {
            url: source.feed_url.clone(),
            etag: clone_opt(&source.etag),
            last_modified: clone_opt(&source.last_modified),
            max_retries: bounded.retry_count as usize,
            timeout_secs: bounded.timeout_secs,
        };
        (SourceSync { source, state: SourceSyncState::Fetching }, action)
    }

    /// Takes the caller's report and says what follows. The source stays
    /// as it is; the failure of a fetch or of the reading of a payload is
    /// recorded and then becomes the result; a failure of the store ends the
    /// sync at once.
    pub fn step(&mut self, event: SourceSyncEvent) -> (action: SourceSyncAction)
        ensures
            final(self).source == old(self).source,
            is_step(old(self).source, old(self).state, event, final(self).state, action),
    {
        let mut state = SourceSyncState::Finished;
        core::mem::swap(&mut self.state, &mut state);
        let (post, action) = match (state, event) {
            (SourceSyncState::Finished, _) => misfit(),
            (_, SourceSyncEvent::StoreFailed(message)) => (
                SourceSyncState::Finished,
                SourceSyncAction::Finish(Err(message)),
            ),
            (SourceSyncState::Fetching, SourceSyncEvent::Fetched(Err(error))) => (
                SourceSyncState::RecordingFailure { reason: error.message() },
                SourceSyncAction::RecordFailure { source_id: self.source.id },
            ),
            (SourceSyncState::Fetching, SourceSyncEvent::Fetched(Ok(FetchStatus::NotModified))) => (
                SourceSyncState::RecordingSuccess { updated: false, upserted_entries: 0 },
                SourceSyncAction::RecordSuccess {
                    source_id: self.source.id,
                    etag: clone_opt(&self.source.etag),
                    last_modified: clone_opt(&self.source.last_modified),
                },
            ),
            (
                SourceSyncState::Fetching,
                SourceSyncEvent::Fetched(Ok(FetchStatus::Updated(payload))),
            ) => plan_after_payload(&self.source, payload),
            (
                SourceSyncState::ParsingXml { etag, last_modified },
                SourceSyncEvent::XmlParsed(parsed),
            ) => plan_after_xml(&self.source, etag, last_modified, parsed),
            (
                SourceSyncState::Upserting { etag, last_modified },
                SourceSyncEvent::EntriesUpserted(count),
            ) => (
                SourceSyncState::RecordingSuccess { updated: true, upserted_entries: count },
                SourceSyncAction::RecordSuccess { source_id: self.source.id, etag, last_modified },
            ),
            (
                SourceSyncState::RecordingSuccess { updated, upserted_entries },
                SourceSyncEvent::Recorded,
            ) => {
                let status = if updated {
                    "updated".to_owned()
                } else {
                    "not_modified".to_owned()
                };
                (
                    SourceSyncState::Finished,
                    SourceSyncAction::Finish(
                        Ok(
                            SyncSourceResponse {
                                source_id: self.source.id,
                                status,
                                upserted_entries,
                            },
                        ),
                    ),
                )
            },
            (SourceSyncState::RecordingFailure { reason }, SourceSyncEvent::Recorded) => (
                SourceSyncState::Finished,
                SourceSyncAction::Finish(Err(reason)),
            ),
            _ => misfit(),
        };
        self.state = post;
        action
    }
}

} // verus!
