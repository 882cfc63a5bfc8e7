use rssr::feed::types::ParsedEntry;
use rssr::importer::{build_import_preview, parse_opml};
use rssr::storage::models::{NewSource, SourceRecord};
use rssr::storage::query::{contains_keyword, is_text_before, order_entries, select_entries};
use rssr::storage::repository::SourceRepository;
use rssr::storage::store::{
    entries_are_sound, find_entry_by_id, find_entry_by_link, find_source_by_id,
    find_source_by_url, sources_are_sound, CacheRow, SettingRow, StorageError, StoredEntry,
};

fn now() -> String {
    "2026-02-24 00:00:00".to_string()
}

fn later() -> String {
    "2026-02-25 12:00:00".to_string()
}

fn make_source(title: &str, feed_url: &str) -> NewSource {
    NewSource {
        title: title.to_string(),
        site_url: Some("https://example.com".to_string()),
        feed_url: feed_url.to_string(),
        category: Some("tech".to_string()),
        is_active: true,
    }
}

fn parsed(id: &str, title: &str, link: &str, summary: &str, published_at: &str) -> ParsedEntry {
    ParsedEntry {
        id: id.to_string(),
        title: title.to_string(),
        link: link.to_string(),
        summary: Some(summary.to_string()),
        content: Some(format!("content of {}", id)),
        published_at: Some(published_at.to_string()),
    }
}

fn upsert(repository: &mut SourceRepository, source: &NewSource) -> SourceRecord {
    match repository.upsert_source(source, &now()) {
        Ok(row) => row,
        Err(error) => panic!("upsert must succeed: {}", error.message()),
    }
}

fn stored_entry(id: i64, source_id: i64, link: &str) -> StoredEntry {
    StoredEntry {
        id,
        source_id,
        guid: None,
        link: link.to_string(),
        title: format!("entry {}", id),
        translated_title: None,
        summary: None,
        content: None,
        published_at: None,
        is_read: 0,
        is_starred: 0,
        created_at: now(),
    }
}

#[test]
fn upsert_source_is_idempotent_for_same_feed_url() {
    let mut repository = SourceRepository::new();
    let first = upsert(
        &mut repository,
        &make_source("Hacker News", "https://news.ycombinator.com/rss"),
    );

    let second = upsert(
        &mut repository,
        &make_source("HN Updated", "https://news.ycombinator.com/rss"),
    );

    let all = repository.list_sources();

    assert_eq!(all.len(), 1);
    assert_eq!(first.id, second.id);
    assert_eq!(all[0].title, "HN Updated");
}

#[test]
fn delete_source_removes_row() {
    let mut repository = SourceRepository::new();
    let created = upsert(
        &mut repository,
        &make_source("Rust Blog", "https://blog.rust-lang.org/feed.xml"),
    );

    let affected = repository.delete_source(created.id);
    let all = repository.list_sources();

    assert_eq!(affected, 1);
    assert!(all.is_empty());
}

#[test]
fn set_sources_active_updates_batch_rows() {
    let mut repository = SourceRepository::new();
    let first = upsert(&mut repository, &make_source("A", "https://a.com/feed.xml"));
    let second = upsert(&mut repository, &make_source("B", "https://b.com/feed.xml"));

    let affected = repository.set_sources_active(&vec![first.id, second.id], false, &later());
    let rows = repository.list_sources();

    assert_eq!(affected, 2);
    assert!(rows.iter().all(|row| row.is_active == 0));
}

#[test]
fn e2e_import_then_delete_flow() {
    let mut repository = SourceRepository::new();
    let mut opml = String::from("<opml version=\"2.0\"><body>");
    for index in 0..8 {
        opml.push_str(&format!(
            "<outline text=\"Blog {index}\" xmlUrl=\"https://blog{index}.example.com/feed.xml\"/>"
        ));
    }
    opml.push_str("</body></opml>");
    let parsed_sources = match parse_opml(&opml) {
        Ok(sources) => sources,
        Err(error) => panic!("opml parse should succeed: {}", error.message()),
    };
    let preview = build_import_preview(parsed_sources, &vec![]);
    let batch: Vec<NewSource> = preview
        .new_sources
        .into_iter()
        .take(5)
        .map(|source| NewSource {
            title: source.title,
            site_url: source.site_url,
            feed_url: source.feed_url,
            category: source.category,
            is_active: true,
        })
        .collect();

    assert_eq!(repository.upsert_sources_batch(&batch, &now()).ok(), Some(5));
    let current = repository.list_sources();
    let deleted = repository.delete_source(current[0].id);
    let after_delete = repository.list_sources();

    assert_eq!(current.len(), 5);
    assert_eq!(deleted, 1);
    assert_eq!(after_delete.len(), 4);
}

#[test]
fn entry_upsert_and_read_filter_flow() {
    let mut repository = SourceRepository::new();
    let source = upsert(
        &mut repository,
        &make_source("Reader Source", "https://reader.example.com/feed.xml"),
    );
    let entries = vec![
        ParsedEntry {
            id: "entry-1".to_string(),
            title: "Rust release".to_string(),
            link: "https://reader.example.com/posts/1".to_string(),
            summary: Some("Rust update".to_string()),
            content: Some("content 1".to_string()),
            published_at: Some("2026-02-24T00:00:00Z".to_string()),
        },
        ParsedEntry {
            id: "entry-2".to_string(),
            title: "AI news".to_string(),
            link: "https://reader.example.com/posts/2".to_string(),
            summary: Some("AI summary".to_string()),
            content: Some("content 2".to_string()),
            published_at: Some("2026-02-24T01:00:00Z".to_string()),
        },
    ];
    assert_eq!(repository.upsert_entries(source.id, &entries, &now()).ok(), Some(2));

    let all = repository.list_entries(Some(source.id), None, false, 50);
    let rust_only = repository.list_entries(Some(source.id), Some("Rust"), false, 50);
    let marked = repository.mark_entry_read(all[0].id, true);
    let unread = repository.list_entries(Some(source.id), None, true, 50);

    assert_eq!(all.len(), 2);
    assert_eq!(rust_only.len(), 1);
    assert_eq!(marked, 1);
    assert_eq!(unread.len(), 1);
}

#[test]
fn list_entries_respects_limit_for_large_dataset() {
    let mut repository = SourceRepository::new();
    let source = upsert(
        &mut repository,
        &make_source("Perf Source", "https://perf.example.com/feed.xml"),
    );
    let entries: Vec<ParsedEntry> = (0..120)
        .map(|index| ParsedEntry {
            id: format!("entry-{index}"),
            title: format!("Entry {index}"),
            link: format!("https://perf.example.com/posts/{index}"),
            summary: Some(format!("summary {index}")),
            content: Some(format!("content {index}")),
            published_at: Some("2026-02-24T00:00:00Z".to_string()),
        })
        .collect();

    assert_eq!(repository.upsert_entries(source.id, &entries, &now()).ok(), Some(120));
    let limited = repository.list_entries(Some(source.id), None, false, 50);

    assert_eq!(limited.len(), 50);
}

#[test]
fn upsert_source_updates_metadata_and_keeps_the_cursor() {
    let mut repository = SourceRepository::new();
    let first = upsert(&mut repository, &make_source("A", "https://a.com/feed.xml"));
    assert_eq!(first.id, 1);
    assert_eq!(first.is_active, 1);
    assert_eq!(first.failure_count, 0);
    assert_eq!(first.etag, None);
    assert_eq!(first.created_at, now());
    repository.update_source_sync_success(1, &Some("\"v1\"".to_string()), &None, &later());
    let changed = NewSource {
        title: "A2".to_string(),
        site_url: None,
        feed_url: "https://a.com/feed.xml".to_string(),
        category: None,
        is_active: false,
    };
    let second = match repository.upsert_source(&changed, &later()) {
        Ok(row) => row,
        Err(error) => panic!("{}", error.message()),
    };
    assert_eq!(second.id, 1);
    assert_eq!(second.title, "A2");
    assert_eq!(second.site_url, None);
    assert_eq!(second.category, None);
    assert_eq!(second.is_active, 0);
    assert_eq!(second.etag.as_deref(), Some("\"v1\""));
    assert_eq!(second.last_synced_at, Some(later()));
    assert_eq!(second.created_at, now());
    assert_eq!(second.updated_at, later());
    let other = upsert(&mut repository, &make_source("B", "https://a.com/feed.xml/"));
    assert_eq!(other.id, 2);
    let listed: Vec<i64> = repository.list_sources().iter().map(|row| row.id).collect();
    assert_eq!(listed, vec![2, 1]);
}

#[test]
fn failure_counter_follows_the_outcomes() {
    let mut repository = SourceRepository::new();
    let source = upsert(&mut repository, &make_source("A", "https://a.com/feed.xml"));
    repository.increment_source_failure(source.id, &later());
    repository.increment_source_failure(source.id, &later());
    repository.increment_source_failure(99, &later());
    let row = repository.get_source_by_id(source.id);
    match &row {
        Some(row) => {
            assert_eq!(row.failure_count, 2);
            assert_eq!(row.is_active, 1);
            assert_eq!(row.updated_at, later());
            assert_eq!(row.last_synced_at, None);
        }
        None => panic!("the source is stored"),
    }
    repository.update_source_sync_success(
        source.id,
        &Some("\"v2\"".to_string()),
        &Some("Tue, 24 Feb 2026 10:00:00 GMT".to_string()),
        &later(),
    );
    match repository.get_source_by_id(source.id) {
        Some(row) => {
            assert_eq!(row.failure_count, 0);
            assert_eq!(row.etag.as_deref(), Some("\"v2\""));
            assert_eq!(row.last_modified.as_deref(), Some("Tue, 24 Feb 2026 10:00:00 GMT"));
            assert_eq!(row.last_synced_at, Some(later()));
        }
        None => panic!("the source is stored"),
    }
    assert!(repository.get_source_by_id(99).is_none());
}

#[test]
fn sync_candidates_are_the_active_sources_up_to_the_limit() {
    let mut repository = SourceRepository::new();
    for index in 1..=5 {
        upsert(
            &mut repository,
            &make_source(&format!("S{}", index), &format!("https://s{}.example/feed", index)),
        );
    }
    assert_eq!(repository.set_sources_active(&vec![2, 4, 77], false, &later()), 2);
    let ids = |rows: Vec<SourceRecord>| rows.iter().map(|row| row.id).collect::<Vec<i64>>();
    assert_eq!(ids(repository.list_sync_candidates(24)), vec![1, 3, 5]);
    assert_eq!(ids(repository.list_sync_candidates(2)), vec![1, 3]);
    assert_eq!(ids(repository.list_sync_candidates(3)), vec![1, 3, 5]);
    assert_eq!(ids(repository.list_sync_candidates(0)), Vec::<i64>::new());
    assert_eq!(ids(repository.list_sync_candidates(-1)), vec![1, 3, 5]);
    assert_eq!(repository.set_sources_active(&vec![], true, &later()), 0);
}

#[test]
fn upserting_a_link_again_keeps_one_entry_with_its_flags() {
    let mut repository = SourceRepository::new();
    let source = upsert(&mut repository, &make_source("A", "https://a.com/feed.xml"));
    let first = parsed("g1", "Old title", "https://a.com/1", "s", "2026-02-24T00:00:00Z");
    assert_eq!(repository.upsert_entries(source.id, &vec![first], &now()).ok(), Some(1));
    let stored = repository.list_entries(None, None, false, 10);
    assert_eq!(stored.len(), 1);
    assert_eq!(stored[0].is_read, 0);
    assert_eq!(stored[0].is_starred, 0);
    assert_eq!(stored[0].source_title, "A");
    assert_eq!(repository.mark_entry_read(stored[0].id, true), 1);
    assert_eq!(
        repository.set_entry_translated_title(stored[0].id, &"旧标题".to_string()),
        1
    );

    let second = parsed("g2", "New title", "https://a.com/1", "s2", "2026-02-24T05:00:00Z");
    assert_eq!(repository.upsert_entries(source.id, &vec![second], &later()).ok(), Some(1));
    let again = repository.list_entries(None, None, false, 10);
    assert_eq!(again.len(), 1);
    assert_eq!(again[0].id, stored[0].id);
    assert_eq!(again[0].title, "New title");
    assert_eq!(again[0].guid.as_deref(), Some("g2"));
    assert_eq!(again[0].summary.as_deref(), Some("s2"));
    assert_eq!(again[0].published_at.as_deref(), Some("2026-02-24T05:00:00Z"));
    assert_eq!(again[0].is_read, 1);
    assert_eq!(again[0].is_starred, 0);
    assert_eq!(again[0].translated_title.as_deref(), Some("旧标题"));
    assert_eq!(again[0].created_at, now());

    let other = upsert(&mut repository, &make_source("B", "https://b.com/feed.xml"));
    let same_link = parsed("g3", "Elsewhere", "https://a.com/1", "s", "2026-02-24T00:00:00Z");
    assert_eq!(repository.upsert_entries(other.id, &vec![same_link], &now()).ok(), Some(1));
    assert_eq!(repository.list_entries(None, None, false, 10).len(), 2);
}

#[test]
fn upserting_a_link_twice_in_one_call_counts_both() {
    let mut repository = SourceRepository::new();
    let source = upsert(&mut repository, &make_source("A", "https://a.com/feed.xml"));
    let entries = vec![
        parsed("g1", "One", "https://a.com/1", "s", "2026-02-24T00:00:00Z"),
        parsed("g2", "Two", "https://a.com/1", "s", "2026-02-24T00:00:00Z"),
    ];
    assert_eq!(repository.upsert_entries(source.id, &entries, &now()).ok(), Some(2));
    let stored = repository.list_entries(None, None, false, -1);
    assert_eq!(stored.len(), 1);
    assert_eq!(stored[0].title, "Two");
    assert_eq!(repository.upsert_entries(source.id, &vec![], &now()).ok(), Some(0));
}

#[test]
fn entries_of_an_unknown_source_are_refused() {
    let mut repository = SourceRepository::new();
    let entries = vec![parsed("g1", "One", "https://a.com/1", "s", "2026-02-24T00:00:00Z")];
    match repository.upsert_entries(5, &entries, &now()) {
        Err(StorageError::Database(message)) => {
            assert_eq!(message, "the source of the entries is not stored")
        }
        Ok(_) => panic!("there is no source 5"),
    }
    assert!(repository.list_entries(None, None, false, 10).is_empty());
    assert_eq!(
        StorageError::Database("x".to_string()).message(),
        "database error: x"
    );
}

#[test]
fn keyword_and_unread_filters_are_both_applied() {
    let mut repository = SourceRepository::new();
    let a = upsert(&mut repository, &make_source("A", "https://a.com/feed.xml"));
    let b = upsert(&mut repository, &make_source("B", "https://b.com/feed.xml"));
    let entries = vec![
        parsed("1", "Rust 1.90 released", "https://a.com/1", "notes", "2026-02-24T01:00:00Z"),
        parsed("2", "Weekly digest", "https://a.com/2", "all about rust", "2026-02-24T03:00:00Z"),
        parsed("3", "Go release", "https://a.com/3", "notes", "2026-02-24T02:00:00Z"),
        parsed("4", "More RUST", "https://a.com/4", "notes", "2026-02-24T04:00:00Z"),
    ];
    assert!(repository.upsert_entries(a.id, &entries, &now()).is_ok());
    let elsewhere = vec![parsed("5", "rust elsewhere", "https://b.com/1", "x", "2026-02-24T09:00:00Z")];
    assert!(repository.upsert_entries(b.id, &elsewhere, &now()).is_ok());
    let titles = |rows: Vec<rssr::storage::models::EntryRecord>| {
        rows.iter().map(|row| row.title.clone()).collect::<Vec<String>>()
    };
    assert_eq!(
        titles(repository.list_entries(Some(a.id), Some("  rust "), false, 50)),
        vec!["More RUST", "Weekly digest", "Rust 1.90 released"]
    );
    let read = repository.list_entries(Some(a.id), Some("digest"), false, 50);
    assert_eq!(repository.mark_entry_read(read[0].id, true), 1);
    assert_eq!(
        titles(repository.list_entries(Some(a.id), Some("rust"), true, 50)),
        vec!["More RUST", "Rust 1.90 released"]
    );
    assert_eq!(
        titles(repository.list_entries(Some(a.id), Some("rust"), true, 1)),
        vec!["More RUST"]
    );
    assert_eq!(
        titles(repository.list_entries(None, Some("rust"), true, 50)),
        vec!["rust elsewhere", "More RUST", "Rust 1.90 released"]
    );
    assert_eq!(titles(repository.list_entries(Some(a.id), Some("python"), false, 50)).len(), 0);
    assert_eq!(repository.list_entries(Some(a.id), None, true, 0).len(), 0);
    assert_eq!(repository.list_entries(Some(a.id), Some("   "), false, 50).len(), 4);
    assert_eq!(repository.mark_entry_read(read[0].id, false), 1);
    assert_eq!(repository.list_entries(Some(a.id), Some("rust"), true, 50).len(), 3);
    assert_eq!(repository.mark_entry_read(999, true), 0);
}

#[test]
fn entries_without_publication_time_are_ordered_by_creation() {
    let mut repository = SourceRepository::new();
    let a = upsert(&mut repository, &make_source("A", "https://a.com/feed.xml"));
    let mut undated = parsed("1", "undated", "https://a.com/1", "s", "");
    undated.published_at = None;
    assert!(repository.upsert_entries(a.id, &vec![undated], &"2026-02-24 02:00:00".to_string()).is_ok());
    let dated = parsed("2", "dated", "https://a.com/2", "s", "2026-02-24 01:00:00");
    assert!(repository.upsert_entries(a.id, &vec![dated], &"2026-02-24 03:00:00".to_string()).is_ok());
    let rows = repository.list_entries(None, None, false, 10);
    assert_eq!(rows[0].title, "undated");
    assert_eq!(rows[1].title, "dated");
}

#[test]
fn keyword_is_read_as_a_pattern() {
    assert!(contains_keyword("Rust release", "rust"));
    assert!(contains_keyword("Rust release", "ST REL"));
    assert!(contains_keyword("Rust release", ""));
    assert!(contains_keyword("", ""));
    assert!(!contains_keyword("", "a"));
    assert!(contains_keyword("Rust release", "r_st"));
    assert!(contains_keyword("Rust release", "R%e"));
    assert!(!contains_keyword("Rust release", "r_ust"));
    assert!(!contains_keyword("Ärger", "ärger"));
    assert!(contains_keyword("Ärger", "Ärger"));
    assert!(contains_keyword("100% sure", "0% s"));
}

#[test]
fn texts_are_compared_like_in_a_dictionary() {
    assert!(is_text_before("a", "b"));
    assert!(is_text_before("", "a"));
    assert!(is_text_before("2026-02-24T00:00:00Z", "2026-02-24T01:00:00Z"));
    assert!(is_text_before("ab", "abc"));
    assert!(!is_text_before("abc", "ab"));
    assert!(!is_text_before("a", "a"));
    assert!(!is_text_before("", ""));
    assert!(is_text_before("Z", "a"));
    for (a, b) in [("é", "z"), ("z", "é"), ("😀", "é"), ("a😀", "aé")] {
        assert_eq!(is_text_before(a, b), a < b);
    }
}

#[test]
fn deleting_a_source_takes_its_entries_along() {
    let mut repository = SourceRepository::new();
    let a = upsert(&mut repository, &make_source("A", "https://a.com/feed.xml"));
    let b = upsert(&mut repository, &make_source("B", "https://b.com/feed.xml"));
    let of_a = vec![parsed("1", "a1", "https://a.com/1", "s", "t")];
    let of_b = vec![parsed("2", "b1", "https://b.com/1", "s", "t")];
    assert!(repository.upsert_entries(a.id, &of_a, &now()).is_ok());
    assert!(repository.upsert_entries(b.id, &of_b, &now()).is_ok());
    assert_eq!(repository.delete_source(a.id), 1);
    assert_eq!(repository.delete_source(a.id), 0);
    let left = repository.list_entries(None, None, false, -1);
    assert_eq!(left.len(), 1);
    assert_eq!(left[0].title, "b1");
    assert_eq!(repository.stored_entries().len(), 1);
    let again = upsert(&mut repository, &make_source("A", "https://a.com/feed.xml"));
    assert_eq!(again.id, 3);
}

#[test]
fn titles_wait_for_translation_until_one_is_set() {
    let mut repository = SourceRepository::new();
    let a = upsert(&mut repository, &make_source("A", "https://a.com/feed.xml"));
    let entries: Vec<ParsedEntry> = (1..=4)
        .map(|i| parsed(&format!("{}", i), &format!("Title {}", i), &format!("https://a.com/{}", i), "s", "t"))
        .collect();
    assert!(repository.upsert_entries(a.id, &entries, &now()).is_ok());
    let waiting = repository.list_entries_without_translated_title(60);
    assert_eq!(waiting.len(), 4);
    assert_eq!(waiting[0].title, "Title 1");
    assert_eq!(repository.set_entry_translated_title(waiting[0].id, &"标题一".to_string()), 1);
    assert_eq!(repository.set_entry_translated_title(404, &"x".to_string()), 0);
    let waiting = repository.list_entries_without_translated_title(2);
    assert_eq!(waiting.len(), 2);
    assert_eq!(waiting[0].title, "Title 2");
    assert_eq!(waiting[1].title, "Title 3");
    assert_eq!(repository.list_entries_without_translated_title(-1).len(), 3);
    match repository.get_entry_by_id(1) {
        Some(entry) => {
            assert_eq!(entry.translated_title.as_deref(), Some("标题一"));
            assert_eq!(entry.source_title, "A");
            assert_eq!(entry.link, "https://a.com/1");
        }
        None => panic!("the entry is stored"),
    }
    assert!(repository.get_entry_by_id(404).is_none());
}

#[test]
fn cache_returns_what_was_put_under_the_key() {
    let mut repository = SourceRepository::new();
    let row = |task: &str, model: &str, hash: &str, output: &str| CacheRow {
        task_type: task.to_string(),
        model: model.to_string(),
        input_hash: hash.to_string(),
        output: output.to_string(),
    };
    assert_eq!(repository.get_llm_cache("summary", "m", "h"), None);
    repository.set_llm_cache(row("summary", "m", "h", "first"));
    repository.set_llm_cache(row("translate:zh", "m", "h", "other task"));
    repository.set_llm_cache(row("summary", "m2", "h", "other model"));
    assert_eq!(repository.get_llm_cache("summary", "m", "h").as_deref(), Some("first"));
    repository.set_llm_cache(row("summary", "m", "h", "second"));
    assert_eq!(repository.get_llm_cache("summary", "m", "h").as_deref(), Some("second"));
    assert_eq!(repository.get_llm_cache("translate:zh", "m", "h").as_deref(), Some("other task"));
    assert_eq!(repository.get_llm_cache("summary", "m2", "h").as_deref(), Some("other model"));
    assert_eq!(repository.get_llm_cache("summary", "m", "h2"), None);
    assert_eq!(repository.cached_texts().len(), 3);
}

#[test]
fn settings_are_kept_by_name() {
    let mut repository = SourceRepository::new();
    let row = |key: &str, value: &str| SettingRow { key: key.to_string(), value: value.to_string() };
    assert_eq!(repository.get_setting("sync_settings"), None);
    repository.set_setting(row("sync_settings", "{}"));
    repository.set_setting(row("llm_config", "{\"model\":\"m\"}"));
    repository.set_setting(row("sync_settings", "{\"retry_count\":2}"));
    assert_eq!(repository.get_setting("sync_settings").as_deref(), Some("{\"retry_count\":2}"));
    assert_eq!(repository.get_setting("llm_config").as_deref(), Some("{\"model\":\"m\"}"));
    assert_eq!(repository.stored_settings().len(), 2);
}

#[test]
fn store_is_rebuilt_from_sound_rows_only() {
    let mut repository = SourceRepository::new();
    let a = upsert(&mut repository, &make_source("A", "https://a.com/feed.xml"));
    upsert(&mut repository, &make_source("B", "https://b.com/feed.xml"));
    assert!(repository
        .upsert_entries(a.id, &vec![parsed("1", "t", "https://a.com/1", "s", "p")], &now())
        .is_ok());
    let mut sources = repository.list_sources();
    sources.reverse();
    let rebuilt = match SourceRepository::restore(
        sources,
        repository.stored_entries(),
        repository.cached_texts(),
        repository.stored_settings(),
    ) {
        Ok(store) => store,
        Err(error) => panic!("{}", error.message()),
    };
    assert_eq!(rebuilt.list_sources().len(), 2);
    assert_eq!(rebuilt.list_entries(None, None, false, -1).len(), 1);
    let mut rebuilt = rebuilt;
    assert_eq!(upsert(&mut rebuilt, &make_source("C", "https://c.com/feed.xml")).id, 3);

    let record = |id: i64, url: &str| SourceRecord {
        id,
        title: "t".to_string(),
        site_url: None,
        feed_url: url.to_string(),
        category: None,
        is_active: 1,
        failure_count: 0,
        etag: None,
        last_modified: None,
        last_synced_at: None,
        created_at: now(),
        updated_at: now(),
    };
    assert!(sources_are_sound(&vec![record(1, "a"), record(5, "b")]));
    assert!(sources_are_sound(&vec![]));
    assert!(!sources_are_sound(&vec![record(1, "a"), record(2, "a")]));
    assert!(!sources_are_sound(&vec![record(2, "a"), record(1, "b")]));
    assert!(!sources_are_sound(&vec![record(1, "a"), record(1, "b")]));
    assert!(!sources_are_sound(&vec![record(0, "a")]));
    assert!(!sources_are_sound(&vec![record(i64::MAX, "a")]));
    let sources = vec![record(1, "a"), record(2, "b")];
    assert!(entries_are_sound(&vec![stored_entry(1, 1, "x"), stored_entry(2, 2, "x")], &sources));
    assert!(!entries_are_sound(&vec![stored_entry(1, 1, "x"), stored_entry(2, 1, "x")], &sources));
    assert!(!entries_are_sound(&vec![stored_entry(1, 3, "x")], &sources));
    assert!(!entries_are_sound(&vec![stored_entry(2, 1, "x"), stored_entry(1, 1, "y")], &sources));
    assert!(SourceRepository::restore(vec![record(1, "a"), record(2, "a")], vec![], vec![], vec![]).is_err());
    assert!(SourceRepository::restore(vec![], vec![stored_entry(1, 1, "x")], vec![], vec![]).is_err());

    assert_eq!(find_source_by_id(&sources, 2), Some(1));
    assert_eq!(find_source_by_id(&sources, 3), None);
    assert_eq!(find_source_by_url(&sources, "a"), Some(0));
    assert_eq!(find_source_by_url(&sources, "A"), None);
    let entries = vec![stored_entry(1, 1, "x"), stored_entry(2, 2, "x")];
    assert_eq!(find_entry_by_link(&entries, 2, "x"), Some(1));
    assert_eq!(find_entry_by_link(&entries, 2, "y"), None);
    assert_eq!(find_entry_by_id(&entries, 1), Some(0));
    assert_eq!(find_entry_by_id(&entries, 9), None);
    let ordered = order_entries(&entries, &sources, None, "", false);
    assert_eq!(ordered.len(), 2);
    assert_eq!(ordered[0].id, 1);
    assert_eq!(select_entries(&entries, &sources, Some(2), None, false, 5).len(), 1);
}

#[test]
fn batch_upsert_counts_every_source() {
    let mut repository = SourceRepository::new();
    let batch = vec![
        make_source("A", "https://a.com/feed.xml"),
        make_source("B", "https://b.com/feed.xml"),
        make_source("A2", "https://a.com/feed.xml"),
    ];
    assert_eq!(repository.upsert_sources_batch(&batch, &now()).ok(), Some(3));
    let rows = repository.list_sources();
    assert_eq!(rows.len(), 2);
    assert_eq!(rows[1].title, "A2");
    assert_eq!(repository.upsert_sources_batch(&vec![], &now()).ok(), Some(0));
}
