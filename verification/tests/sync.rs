use rssr::feed::fetcher::{FetchError, FetchStatus, FetchedFeed};
use rssr::storage::models::SourceRecord;
use rssr::storage::StorageService;
use rssr::subscription::SubscriptionService;
use rssr::sync::batch::{BatchAction, BatchScheduler, SyncBatchResponse, SyncSourceResponse};
use rssr::sync::runtime::SyncRuntime;
use rssr::sync::settings::{effective_sync_settings, normalize_sync_settings, SyncSettings};
use rssr::sync::source::{
    plan_after_parse, SourceSync, SourceSyncAction, SourceSyncEvent, SourceSyncState,
};
use rssr::sync::SyncService;
use rssr::feed::parser::{parse_feed_bytes, FeedParseError, FeedReading, XmlDocument, XmlEntry};

fn xml_entry(entry: feed_rs::model::Entry) -> XmlEntry {
    XmlEntry {
        id: entry.id,
        title: entry.title.map(|text| text.content),
        links: entry.links.into_iter().map(|link| link.href).collect(),
        summary: entry.summary.map(|text| text.content),
        content: entry.content.and_then(|content| content.body),
        published: entry.published.map(|timestamp| timestamp.to_rfc3339()),
        updated: entry.updated.map(|timestamp| timestamp.to_rfc3339()),
    }
}

fn xml_document(raw: &[u8]) -> Result<XmlDocument, String> {
    let parser = feed_rs::parser::Builder::new()
        .id_generator(|_, _, _| String::new())
        .build();
    let feed = parser.parse(raw).map_err(|error| error.to_string())?;
    Ok(XmlDocument {
        title: feed.title.map(|text| text.content),
        links: feed.links.into_iter().map(|link| link.href).collect(),
        entries: feed.entries.into_iter().map(xml_entry).collect(),
    })
}

fn source(id: i64) -> SourceRecord {
    SourceRecord {
        id,
        title: format!("source {}", id),
        site_url: None,
        feed_url: format!("https://example.com/{}.xml", id),
        category: None,
        is_active: 1,
        failure_count: 0,
        etag: Some(format!("\"etag-{}\"", id)),
        last_modified: Some("Tue, 24 Feb 2026 10:00:00 GMT".to_string()),
        last_synced_at: None,
        created_at: "2026-02-24 00:00:00".to_string(),
        updated_at: "2026-02-24 00:00:00".to_string(),
    }
}

fn settings(max_concurrency: u32, batch_limit: u32) -> SyncSettings {
    SyncSettings {
        interval_secs: 600,
        max_concurrency,
        batch_limit,
        timeout_secs: 12,
        retry_count: 1,
    }
}

fn synced(source_id: i64, upserted_entries: usize) -> Result<SyncSourceResponse, String> {
    Ok(SyncSourceResponse { source_id, status: "updated".to_string(), upserted_entries })
}

const FEED: &str = r#"{"title": "T", "items": [{"id": "a", "url": "https://example.com/a"}, {"id": "b"}]}"#;

#[test]
fn sync_settings_are_normalized_to_safe_bounds() {
    let normalized = normalize_sync_settings(SyncSettings {
        interval_secs: 1,
        max_concurrency: 100,
        batch_limit: 9999,
        timeout_secs: 1,
        retry_count: 99,
    });

    assert_eq!(normalized.interval_secs, 60);
    assert_eq!(normalized.max_concurrency, 16);
    assert_eq!(normalized.batch_limit, 200);
    assert_eq!(normalized.timeout_secs, 5);
    assert_eq!(normalized.retry_count, 4);
}

#[test]
fn sync_settings_inside_the_bounds_stay() {
    let low = SyncSettings {
        interval_secs: 60,
        max_concurrency: 1,
        batch_limit: 1,
        timeout_secs: 5,
        retry_count: 0,
    };
    assert_eq!(normalize_sync_settings(low), low);
    let high = SyncSettings {
        interval_secs: 3600,
        max_concurrency: 16,
        batch_limit: 200,
        timeout_secs: 60,
        retry_count: 4,
    };
    assert_eq!(normalize_sync_settings(high), high);
    let raised = normalize_sync_settings(SyncSettings {
        interval_secs: 3601,
        max_concurrency: 0,
        batch_limit: 0,
        timeout_secs: 61,
        retry_count: 5,
    });
    assert_eq!(
        raised,
        SyncSettings {
            interval_secs: 3600,
            max_concurrency: 1,
            batch_limit: 1,
            timeout_secs: 60,
            retry_count: 4,
        }
    );
}

#[test]
fn default_settings_are_used_where_none_are_stored() {
    let defaults = SyncSettings::default();
    assert_eq!(
        defaults,
        SyncSettings {
            interval_secs: 600,
            max_concurrency: 6,
            batch_limit: 24,
            timeout_secs: 12,
            retry_count: 1,
        }
    );
    assert_eq!(effective_sync_settings(None), defaults);
    assert_eq!(effective_sync_settings(Some(settings(99, 24))).max_concurrency, 16);
}

#[test]
fn batch_of_ten_with_three_failures_reports_seven_synced() {
    let sources: Vec<SourceRecord> = (1..=10).map(source).collect();
    let mut scheduler = BatchScheduler::new(sources, settings(4, 24));
    let mut in_flight: Vec<i64> = Vec::new();
    let mut expected_entries = 0usize;
    let report = loop {
        match scheduler.next_action() {
            BatchAction::Start(source) => in_flight.push(source.id),
            BatchAction::Wait => {
                let id = in_flight.remove(0);
                let result = if id % 3 == 0 {
                    Err(format!("fetch of {} failed", id))
                } else {
                    expected_entries += id as usize;
                    synced(id, id as usize)
                };
                assert!(scheduler.complete(&result));
            }
            BatchAction::Finished(report) => break report,
        }
    };
    assert!(in_flight.is_empty());
    assert_eq!(report.synced_sources, 7);
    assert_eq!(report.failed_sources, 3);
    assert_eq!(report.total_upserted_entries, expected_entries);
    assert_eq!(expected_entries, 1 + 2 + 4 + 5 + 7 + 8 + 10);
    assert_eq!(scheduler.current_report(), report);
}

#[test]
fn never_more_in_flight_than_the_ceiling() {
    for ceiling in 1u32..=5 {
        let sources: Vec<SourceRecord> = (1..=12).map(source).collect();
        let mut scheduler = BatchScheduler::new(sources, settings(ceiling, 200));
        let mut in_flight = 0usize;
        let mut most = 0usize;
        let mut started: Vec<i64> = Vec::new();
        loop {
            match scheduler.next_action() {
                BatchAction::Start(source) => {
                    in_flight += 1;
                    started.push(source.id);
                    most = most.max(in_flight);
                    assert!(in_flight <= ceiling as usize);
                }
                BatchAction::Wait => {
                    assert!(in_flight > 0);
                    assert!(scheduler.complete(&synced(0, 1)));
                    in_flight -= 1;
                }
                BatchAction::Finished(report) => {
                    assert_eq!(report.synced_sources, 12);
                    break;
                }
            }
        }
        assert_eq!(most, ceiling as usize);
        assert_eq!(started, (1..=12).collect::<Vec<i64>>());
    }
}

#[test]
fn batch_takes_no_more_than_the_limit() {
    let sources: Vec<SourceRecord> = (1..=5).map(source).collect();
    let mut scheduler = BatchScheduler::new(sources, settings(16, 3));
    let mut started = 0usize;
    loop {
        match scheduler.next_action() {
            BatchAction::Start(_) => started += 1,
            BatchAction::Wait => {
                scheduler.complete(&Err("failed".to_string()));
            }
            BatchAction::Finished(report) => {
                assert_eq!(
                    report,
                    SyncBatchResponse {
                        synced_sources: 0,
                        failed_sources: 3,
                        total_upserted_entries: 0
                    }
                );
                break;
            }
        }
    }
    assert_eq!(started, 3);
}

#[test]
fn empty_batch_is_over_at_once() {
    let mut scheduler = BatchScheduler::new(vec![], settings(0, 0));
    assert!(!scheduler.complete(&synced(1, 1)));
    match scheduler.next_action() {
        BatchAction::Finished(report) => assert_eq!(
            report,
            SyncBatchResponse { synced_sources: 0, failed_sources: 0, total_upserted_entries: 0 }
        ),
        other => panic!("nothing is left to do: {:?}", other),
    }
}

#[test]
fn total_of_entries_stops_at_the_largest_value() {
    let sources: Vec<SourceRecord> = (1..=2).map(source).collect();
    let mut scheduler = BatchScheduler::new(sources, settings(2, 2));
    assert!(matches!(scheduler.next_action(), BatchAction::Start(_)));
    assert!(matches!(scheduler.next_action(), BatchAction::Start(_)));
    assert!(matches!(scheduler.next_action(), BatchAction::Wait));
    assert!(scheduler.complete(&synced(1, usize::MAX)));
    assert!(scheduler.complete(&synced(2, 5)));
    assert!(!scheduler.complete(&synced(3, 5)));
    assert_eq!(scheduler.current_report().total_upserted_entries, usize::MAX);
    assert_eq!(scheduler.current_report().synced_sources, 2);
}

#[test]
fn runs_do_not_overlap() {
    let mut runtime = SyncRuntime::default();
    assert!(!runtime.status().running);
    assert!(runtime.try_begin());
    assert!(!runtime.try_begin());
    assert!(runtime.status().running);
    let report =
        SyncBatchResponse { synced_sources: 2, failed_sources: 1, total_upserted_entries: 9 };
    assert!(runtime.finish(Ok(report)));
    let status = runtime.status();
    assert!(!status.running);
    assert_eq!(status.last_report, Some(report));
    assert_eq!(status.last_error, None);
    assert!(runtime.try_begin());
    assert!(!runtime.finish(Err("store is unreachable".to_string())));
    let status = runtime.status();
    assert_eq!(status.last_report, Some(report));
    assert_eq!(status.last_error.as_deref(), Some("store is unreachable"));
    assert!(runtime.try_begin());
    assert!(runtime.finish(Ok(report)));
    assert_eq!(runtime.status().last_error, None);
}

#[test]
fn unchanged_source_records_success_without_entries() {
    let (mut sync, first) = SourceSync::begin(source(7), settings(6, 24));
    match first {
        SourceSyncAction::Fetch { url, etag, last_modified, max_retries, timeout_secs } => {
            assert_eq!(url, "https://example.com/7.xml");
            assert_eq!(etag.as_deref(), Some("\"etag-7\""));
            assert_eq!(last_modified.as_deref(), Some("Tue, 24 Feb 2026 10:00:00 GMT"));
            assert_eq!(max_retries, 1);
            assert_eq!(timeout_secs, 12);
        }
        other => panic!("a sync starts with a fetch: {:?}", other),
    }
    match sync.step(SourceSyncEvent::Fetched(Ok(FetchStatus::NotModified))) {
        SourceSyncAction::RecordSuccess { source_id, etag, last_modified } => {
            assert_eq!(source_id, 7);
            assert_eq!(etag.as_deref(), Some("\"etag-7\""));
            assert_eq!(last_modified.as_deref(), Some("Tue, 24 Feb 2026 10:00:00 GMT"));
        }
        other => panic!("nothing was upserted: {:?}", other),
    }
    match sync.step(SourceSyncEvent::Recorded) {
        SourceSyncAction::Finish(Ok(response)) => {
            assert_eq!(response.source_id, 7);
            assert_eq!(response.status, "not_modified");
            assert_eq!(response.upserted_entries, 0);
        }
        other => panic!("the sync went well: {:?}", other),
    }
    assert!(matches!(sync.state, SourceSyncState::Finished));
}

#[test]
fn updated_source_upserts_then_records_new_validators() {
    let (mut sync, _) = SourceSync::begin(source(3), settings(6, 24));
    let payload = FetchedFeed {
        body: FEED.as_bytes().to_vec(),
        content_type: Some("application/feed+json".to_string()),
        etag: Some("\"new\"".to_string()),
        last_modified: None,
    };
    match sync.step(SourceSyncEvent::Fetched(Ok(FetchStatus::Updated(payload)))) {
        SourceSyncAction::UpsertEntries { source_id, entries } => {
            assert_eq!(source_id, 3);
            assert_eq!(entries.len(), 2);
            assert_eq!(entries[0].link, "https://example.com/a");
        }
        other => panic!("the feed has two entries: {:?}", other),
    }
    match sync.step(SourceSyncEvent::EntriesUpserted(2)) {
        SourceSyncAction::RecordSuccess { source_id, etag, last_modified } => {
            assert_eq!(source_id, 3);
            assert_eq!(etag.as_deref(), Some("\"new\""));
            assert_eq!(last_modified, None);
        }
        other => panic!("the entries are stored: {:?}", other),
    }
    match sync.step(SourceSyncEvent::Recorded) {
        SourceSyncAction::Finish(Ok(response)) => {
            assert_eq!(response.status, "updated");
            assert_eq!(response.upserted_entries, 2);
        }
        other => panic!("the sync went well: {:?}", other),
    }
}

#[test]
fn failed_fetch_and_unreadable_payload_are_recorded_as_failures() {
    let (mut sync, _) = SourceSync::begin(source(4), settings(6, 24));
    assert!(matches!(
        sync.step(SourceSyncEvent::Fetched(Err(FetchError::HttpStatus(503)))),
        SourceSyncAction::RecordFailure { source_id: 4 }
    ));
    match sync.step(SourceSyncEvent::Recorded) {
        SourceSyncAction::Finish(Err(reason)) => assert_eq!(reason, "unexpected status code: 503"),
        other => panic!("the fetch failed: {:?}", other),
    }

    let (mut sync, _) = SourceSync::begin(source(5), settings(6, 24));
    let payload =
        FetchedFeed { body: b"   ".to_vec(), content_type: None, etag: None, last_modified: None };
    assert!(matches!(
        sync.step(SourceSyncEvent::Fetched(Ok(FetchStatus::Updated(payload)))),
        SourceSyncAction::RecordFailure { source_id: 5 }
    ));
    match sync.step(SourceSyncEvent::Recorded) {
        SourceSyncAction::Finish(Err(reason)) => assert_eq!(reason, "feed payload is empty"),
        other => panic!("the payload is blank: {:?}", other),
    }
}

#[test]
fn store_failure_and_misfit_events_end_the_sync() {
    let (mut sync, _) = SourceSync::begin(source(6), settings(6, 24));
    match sync.step(SourceSyncEvent::StoreFailed("database is locked".to_string())) {
        SourceSyncAction::Finish(Err(reason)) => assert_eq!(reason, "database is locked"),
        other => panic!("the store failed: {:?}", other),
    }
    match sync.step(SourceSyncEvent::Recorded) {
        SourceSyncAction::Finish(Err(reason)) => {
            assert_eq!(reason, "event does not fit the state of the sync")
        }
        other => panic!("the sync is over: {:?}", other),
    }
    let (mut sync, _) = SourceSync::begin(source(6), settings(6, 24));
    assert!(matches!(
        sync.step(SourceSyncEvent::EntriesUpserted(3)),
        SourceSyncAction::Finish(Err(_))
    ));
    assert_eq!(sync.source.id, 6);
}

#[test]
fn plan_after_parse_follows_the_reading() {
    let good = match parse_feed_bytes(FEED.as_bytes()) {
        Ok(FeedReading::Feed(feed)) => Ok(feed),
        other => panic!("the payload is a JSON feed: {:?}", other),
    };
    let (state, action) = plan_after_parse(&source(1), Some("e".to_string()), None, good);
    assert!(matches!(state, SourceSyncState::Upserting { etag: Some(_), last_modified: None }));
    assert!(matches!(action, SourceSyncAction::UpsertEntries { source_id: 1, .. }));
    let (state, action) =
        plan_after_parse(&source(1), None, None, Err(FeedParseError::Xml("bad".to_string())));
    match state {
        SourceSyncState::RecordingFailure { reason } => {
            assert_eq!(reason, "xml feed parse error: bad")
        }
        other => panic!("the payload was refused: {:?}", other),
    }
    assert!(matches!(action, SourceSyncAction::RecordFailure { source_id: 1 }));
}

#[test]
fn fetch_uses_bounded_retries_and_timeout() {
    let wild = SyncSettings {
        interval_secs: 0,
        max_concurrency: 0,
        batch_limit: 0,
        timeout_secs: 600,
        retry_count: 50,
    };
    match SourceSync::begin(source(1), wild).1 {
        SourceSyncAction::Fetch { max_retries, timeout_secs, .. } => {
            assert_eq!(max_retries, 4);
            assert_eq!(timeout_secs, 60);
        }
        other => panic!("a sync starts with a fetch: {:?}", other),
    }
}

#[test]
fn remaining_services_are_ready() {
    assert_eq!(SyncService.name(), "sync");
    assert_eq!(SyncService.status(), "ready");
    assert_eq!(StorageService.name(), "storage");
    assert_eq!(StorageService.status(), "ready");
    assert_eq!(SubscriptionService.name(), "subscription");
    assert_eq!(SubscriptionService.status(), "ready");
}

const RSS: &str = r#"
<rss version="2.0"><channel><title>T</title>
<item><title>One</title><link>https://example.com/1</link><guid>g1</guid></item>
<item><title>Two</title><link>https://example.com/2</link></item>
</channel></rss>"#;

#[test]
fn xml_payload_is_parsed_at_the_edge_then_upserted() {
    let (mut sync, _) = SourceSync::begin(source(8), settings(6, 24));
    let payload = FetchedFeed {
        body: RSS.as_bytes().to_vec(),
        content_type: Some("application/rss+xml".to_string()),
        etag: Some("\"x1\"".to_string()),
        last_modified: Some("Tue, 24 Feb 2026 10:00:00 GMT".to_string()),
    };
    let handed = match sync.step(SourceSyncEvent::Fetched(Ok(FetchStatus::Updated(payload)))) {
        SourceSyncAction::ParseXml { payload } => payload,
        other => panic!("the payload is XML: {:?}", other),
    };
    assert_eq!(handed, RSS.trim_start().as_bytes());
    assert!(matches!(sync.state, SourceSyncState::ParsingXml { .. }));
    match sync.step(SourceSyncEvent::XmlParsed(xml_document(&handed))) {
        SourceSyncAction::UpsertEntries { source_id, entries } => {
            assert_eq!(source_id, 8);
            assert_eq!(entries.len(), 2);
            assert_eq!(entries[0].id, "g1");
            assert_eq!(entries[1].id, "https://example.com/2");
        }
        other => panic!("the document has two entries: {:?}", other),
    }
    match sync.step(SourceSyncEvent::EntriesUpserted(2)) {
        SourceSyncAction::RecordSuccess { source_id, etag, last_modified } => {
            assert_eq!(source_id, 8);
            assert_eq!(etag.as_deref(), Some("\"x1\""));
            assert_eq!(last_modified.as_deref(), Some("Tue, 24 Feb 2026 10:00:00 GMT"));
        }
        other => panic!("the entries are stored: {:?}", other),
    }
}

#[test]
fn refused_xml_is_recorded_as_a_failure() {
    let (mut sync, _) = SourceSync::begin(source(9), settings(6, 24));
    let payload = FetchedFeed {
        body: b"<html>not a feed</html>".to_vec(),
        content_type: None,
        etag: None,
        last_modified: None,
    };
    let handed = match sync.step(SourceSyncEvent::Fetched(Ok(FetchStatus::Updated(payload)))) {
        SourceSyncAction::ParseXml { payload } => payload,
        other => panic!("the payload is taken for XML: {:?}", other),
    };
    let answer = xml_document(&handed);
    assert!(answer.is_err());
    assert!(matches!(
        sync.step(SourceSyncEvent::XmlParsed(answer)),
        SourceSyncAction::RecordFailure { source_id: 9 }
    ));
    match sync.step(SourceSyncEvent::Recorded) {
        SourceSyncAction::Finish(Err(reason)) => {
            assert!(reason.starts_with("xml feed parse error: "))
        }
        other => panic!("the parser refused the payload: {:?}", other),
    }
    let (mut sync, _) = SourceSync::begin(source(9), settings(6, 24));
    let doc = XmlDocument { title: None, links: vec![], entries: vec![] };
    assert!(matches!(
        sync.step(SourceSyncEvent::XmlParsed(Ok(doc))),
        SourceSyncAction::Finish(Err(_))
    ));
}

#[test]
fn result_is_recorded_before_the_next_run_is_let_in() {
    let mut runtime = SyncRuntime::default();
    assert!(runtime.try_begin());
    let report =
        SyncBatchResponse { synced_sources: 1, failed_sources: 0, total_upserted_entries: 3 };
    assert!(runtime.record(Ok(report)));
    assert!(runtime.status().running);
    assert_eq!(runtime.status().last_report, Some(report));
    assert!(!runtime.try_begin());
    runtime.release();
    assert!(!runtime.status().running);
    assert_eq!(runtime.status().last_report, Some(report));
    assert!(runtime.try_begin());
    assert!(!runtime.record(Err("store is unreachable".to_string())));
    assert!(runtime.status().running);
    assert_eq!(runtime.status().last_error.as_deref(), Some("store is unreachable"));
    assert_eq!(runtime.status().last_report, Some(report));
}
