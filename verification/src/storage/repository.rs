//! The repository: the tables of the store behind the operations that the
//! rest of the application calls. Every operation keeps the tables
//! together; what it does to them is stated by the rules of the store.

use vstd::prelude::*;
use vstd::pervasive::VecAdditionalExecFns;
use crate::feed::types::{clone_opt, ParsedEntry};
use crate::storage::models::{EntryRecord, EntryTitleRecord, NewSource, SourceRecord};
use crate::storage::query::{keyword_of, listed, record_of, select_entries};
use crate::storage::store::{
    lemma_active_prefix,
    active_sources, cached_at, count_among, created_entry, created_source, entries_are_owned,
    entries_are_sound, entries_hold, entry_by_id, failed_source, find_entry_by_id,
    find_entry_by_link, find_source_by_id, find_source_by_url, id_after, last_entry_id,
    last_source_id, lemma_cached_at, lemma_changed_is_update, lemma_entry_by_id,
    lemma_entry_by_link, lemma_remove_source, lemma_same_entry_keys_hold, lemma_same_ids_own,
    lemma_same_keys_hold, lemma_setting_at, lemma_source_by_id, lemma_source_by_url,
    lemma_source_place_is_unique, lemma_untranslated_prefix, lemma_upsert_keeps_entries,
    lemma_upsert_keeps_sources, lemma_without_source, limited, next_after_upsert, setting_at,
    source_by_id, source_by_url, sources_are_sound, sources_hold, synced_source, untranslated,
    updated_entry, updated_source, upserted_batch, upserted_entries, upserted_entry,
    upserted_sources, with_activity, with_cached, with_read_flag, with_setting,
    with_source_changed, with_translated_title, without_source, CacheRow, SettingRow,
    StorageError, StoredEntry,
};
use crate::text::str_eq;


verus! {

/// The tables of the store.
struct Tables {
    sources: Vec<SourceRecord>,
    next_source_id: i64,
    entries: Vec<StoredEntry>,
    next_entry_id: i64,
    cache: Vec<CacheRow>,
    settings: Vec<SettingRow>,
}

impl Tables {
    spec fn holds(self) -> bool {
        &&& 0 < self.next_source_id
        &&& 0 < self.next_entry_id
        &&& sources_hold(self.sources@, self.next_source_id)
        &&& entries_hold(self.entries@, self.next_entry_id)
        &&& entries_are_owned(self.entries@, self.sources@)
    }

    fn empty() -> (r: Self)
        ensures
            r.holds(),
            r.sources@.len() == 0,
            r.entries@.len() == 0,
            r.cache@.len() == 0,
            r.settings@.len() == 0,
            r.next_source_id == 1,
            r.next_entry_id == 1,
    {
        Tables {
            sources: Vec::new(),
            next_source_id: 1,
            entries: Vec::new(),
            next_entry_id: 1,
            cache: Vec::new(),
            settings: Vec::new(),
        }
    }

    fn upsert_source(&mut self, source: &NewSource, now: &String) -> (r: Result<
        SourceRecord,
        StorageError,
    >)
        requires
            old(self).holds(),
        ensures
            final(self).holds(),
            final(self).entries == old(self).entries,
            final(self).next_entry_id == old(self).next_entry_id,
            final(self).cache == old(self).cache,
            final(self).settings == old(self).settings,
            match r {
                Ok(row) => {
                    &&& final(self).sources@ == upserted_sources(
                        old(self).sources@,
                        *source,
                        old(self).next_source_id,
                        *now,
                    )
                    &&& source_by_url(final(self).sources@, source.feed_url@) matches Some(at)
                    &&& row == final(self).sources@[at]
                    &&& final(self).next_source_id == if source_by_url(
                        old(self).sources@,
                        source.feed_url@,
                    ) is Some {
                        old(self).next_source_id
                    } else {
                        (old(self).next_source_id + 1) as i64
                    }
                },
                Err(_) => {
                    &&& source_by_url(old(self).sources@, source.feed_url@) is None
                    &&& old(self).next_source_id == i64::MAX
                    &&& final(self).sources == old(self).sources
                    &&& final(self).next_source_id == old(self).next_source_id
                },
            },
    {
        proof {
            lemma_source_by_url(self.sources@, source.feed_url@);
        }
        let ghost before = self.sources@;
        let ghost next = self.next_source_id;
        match find_source_by_url(&self.sources, source.feed_url.as_str()) {
            Some(at) => {
                let old_row = &self.sources[at];
                let row = SourceRecord {
                    id: old_row.id,
                    title: source.title.clone(),
                    site_url: clone_opt(&source.site_url),
                    feed_url: old_row.feed_url.clone(),
                    category: clone_opt(&source.category),
                    is_active: if source.is_active {
                        1
                    } else {
                        0
                    },
                    failure_count: old_row.failure_count,
                    etag: clone_opt(&old_row.etag),
                    last_modified: clone_opt(&old_row.last_modified),
                    last_synced_at: clone_opt(&old_row.last_synced_at),
                    created_at: old_row.created_at.clone(),
                    updated_at: now.clone(),
                };
                let stored = row.clone();
                proof {
                    let after = before.update(at as int, row);
                    assert(row == updated_source(before[at as int], *source, *now));
                    lemma_same_keys_hold(before, after, next);
                    lemma_same_ids_own(before, after, self.entries@);
                    lemma_source_place_is_unique(after, next, at as int);
                }
                self.sources.set(at, row);
                Ok(stored)
            },
            None => {
                if self.next_source_id == i64::MAX {
                    return Err(StorageError::Database("no id is left for a source".to_owned()));
                }
                let id: i64 = self.next_source_id;
                let row = SourceRecord {
                    id,
                    title: source.title.clone(),
                    site_url: clone_opt(&source.site_url),
                    feed_url: source.feed_url.clone(),
                    category: clone_opt(&source.category),
                    is_active: if source.is_active {
                        1
                    } else {
                        0
                    },
                    failure_count: 0,
                    etag: None,
                    last_modified: None,
                    last_synced_at: None,
                    created_at: now.clone(),
                    updated_at: now.clone(),
                };
                let stored = row.clone();
                proof {
                    let after = before.push(row);
                    assert(row == created_source(*source, id, *now));
                    lemma_upsert_keeps_sources(before, next, *source, *now);
                    lemma_same_ids_own(before, after, self.entries@);
                    lemma_source_place_is_unique(after, (next + 1) as i64, before.len() as int);
                }
                self.next_source_id = id + 1;
                self.sources.push(row);
                Ok(stored)
            },
        }
    }

    fn delete_source(&mut self, id: i64) -> (affected: u64)
        requires
            old(self).holds(),
        ensures
            final(self).holds(),
            final(self).next_source_id == old(self).next_source_id,
            final(self).next_entry_id == old(self).next_entry_id,
            final(self).cache == old(self).cache,
            final(self).settings == old(self).settings,
            match source_by_id(old(self).sources@, id) {
                Some(at) => {
                    &&& affected == 1
                    &&& final(self).sources@ == old(self).sources@.remove(at)
                    &&& final(self).entries@ == without_source(old(self).entries@, id)
                },
                None => {
                    &&& affected == 0
                    &&& final(self).sources == old(self).sources
                    &&& final(self).entries == old(self).entries
                },
            },
    {
        proof {
            lemma_source_by_id(self.sources@, id);
        }
        match find_source_by_id(&self.sources, id) {
            None => 0,
            Some(at) => {
                let ghost before = self.entries@;
                let ghost rows = self.sources@;
                let mut kept: Vec<StoredEntry> = Vec::new();
                let mut i: usize = 0;
                assert(before.take(0) =~= Seq::<StoredEntry>::empty());
                while i < self.entries.len()
                    invariant
                        i <= self.entries.len(),
                        self.entries@ == before,
                        kept@ == without_source(before.take(i as int), id),
                    decreases self.entries.len() - i,
                {
                    proof {
                        let now = before.take(i + 1);
                        assert(now.drop_last() =~= before.take(i as int));
                        assert(now.last() == before[i as int]);
                    }
                    if self.entries[i].source_id != id {
                        kept.push(self.entries[i].clone());
                    }
                    i += 1;
                }
                proof {
                    assert(before.take(before.len() as int) =~= before);
                    lemma_without_source(before, self.next_entry_id, id);
                    lemma_remove_source(rows, self.next_source_id, at as int, id);
                    let after = rows.remove(at as int);
                    assert forall|k: int| 0 <= k < kept@.len() implies source_by_id(
                        after,
                        (#[trigger] kept@[k]).source_id,
                    ) is Some by {
                        let owner = kept@[k].source_id;
                        assert(before.contains(kept@[k]));
                        let m = choose|m: int| 0 <= m < before.len() && before[m] == kept@[k];
                        assert(source_by_id(rows, before[m].source_id) is Some);
                        lemma_remove_source(rows, self.next_source_id, at as int, owner);
                    }
                }
                self.entries = kept;
                self.sources.remove(at);
                1
            },
        }
    }

    fn change_source(&mut self, at: usize, row: SourceRecord)
        requires
            old(self).holds(),
            at < old(self).sources@.len(),
            row.id == old(self).sources@[at as int].id,
            row.feed_url == old(self).sources@[at as int].feed_url,
        ensures
            final(self).holds(),
            final(self).sources@ == old(self).sources@.update(at as int, row),
            final(self).next_source_id == old(self).next_source_id,
            final(self).entries == old(self).entries,
            final(self).next_entry_id == old(self).next_entry_id,
            final(self).cache == old(self).cache,
            final(self).settings == old(self).settings,
    {
        proof {
            let before = self.sources@;
            let after = before.update(at as int, row);
            lemma_same_keys_hold(before, after, self.next_source_id);
            lemma_same_ids_own(before, after, self.entries@);
        }
        self.sources.set(at, row);
    }

    fn set_sources_active(&mut self, source_ids: &Vec<i64>, is_active: bool, now: &String) -> (affected:
        u64)
        requires
            old(self).holds(),
        ensures
            final(self).holds(),
            final(self).sources@ == with_activity(old(self).sources@, source_ids@, is_active, *now),
            affected == count_among(old(self).sources@, source_ids@),
            final(self).next_source_id == old(self).next_source_id,
            final(self).entries == old(self).entries,
            final(self).next_entry_id == old(self).next_entry_id,
            final(self).cache == old(self).cache,
            final(self).settings == old(self).settings,
    {
        let ghost before = self.sources@;
        let ghost target = with_activity(before, source_ids@, is_active, *now);
        let mut affected: u64 = 0;
        let mut i: usize = 0;
        assert(before.take(0) =~= Seq::<SourceRecord>::empty());
        while i < self.sources.len()
            invariant
                i <= self.sources.len(),
                self.holds(),
                self.sources@.len() == before.len(),
                target == with_activity(before, source_ids@, is_active, *now),
                forall|k: int| 0 <= k < i ==> #[trigger] self.sources@[k] == target[k],
                forall|k: int| i <= k < before.len() ==> #[trigger] self.sources@[k] == before[k],
                affected == count_among(before.take(i as int), source_ids@),
                affected <= i,
                self.next_source_id == old(self).next_source_id,
                self.entries == old(self).entries,
                self.next_entry_id == old(self).next_entry_id,
                self.cache == old(self).cache,
                self.settings == old(self).settings,
            decreases self.sources.len() - i,
        {
            proof {
                let now_rows = before.take(i + 1);
                assert(now_rows.drop_last() =~= before.take(i as int));
                assert(now_rows.last() == before[i as int]);
            }
            if id_in(source_ids, self.sources[i].id) {
                let old_row = &self.sources[i];
                let row = SourceRecord {
                    id: old_row.id,
                    title: old_row.title.clone(),
                    site_url: clone_opt(&old_row.site_url),
                    feed_url: old_row.feed_url.clone(),
                    category: clone_opt(&old_row.category),
                    is_active: if is_active {
                        1
                    } else {
                        0
                    },
                    failure_count: old_row.failure_count,
                    etag: clone_opt(&old_row.etag),
                    last_modified: clone_opt(&old_row.last_modified),
                    last_synced_at: clone_opt(&old_row.last_synced_at),
                    created_at: old_row.created_at.clone(),
                    updated_at: now.clone(),
                };
                self.change_source(i, row);
                affected += 1;
            }
            i += 1;
        }
        assert(before.take(before.len() as int) =~= before);
        assert(self.sources@ =~= target);
        affected
    }

    fn update_source_sync_success(
        &mut self,
        source_id: i64,
        etag: &Option<String>,
        last_modified: &Option<String>,
        now: &String,
    )
        requires
            old(self).holds(),
        ensures
            final(self).holds(),
            final(self).sources@ == with_source_changed(
                old(self).sources@,
                source_id,
                |row: SourceRecord| synced_source(row, *etag, *last_modified, *now),
            ),
            final(self).next_source_id == old(self).next_source_id,
            final(self).entries == old(self).entries,
            final(self).next_entry_id == old(self).next_entry_id,
            final(self).cache == old(self).cache,
            final(self).settings == old(self).settings,
    {
        proof {
            lemma_source_by_id(self.sources@, source_id);
            lemma_changed_is_update(
                self.sources@,
                self.next_source_id,
                source_id,
                |row: SourceRecord| synced_source(row, *etag, *last_modified, *now),
            );
        }
        match find_source_by_id(&self.sources, source_id) {
            Some(at) => {
                let old_row = &self.sources[at];
                let row = SourceRecord {
                    id: old_row.id,
                    title: old_row.title.clone(),
                    site_url: clone_opt(&old_row.site_url),
                    feed_url: old_row.feed_url.clone(),
                    category: clone_opt(&old_row.category),
                    is_active: old_row.is_active,
                    failure_count: 0,
                    etag: clone_opt(etag),
                    last_modified: clone_opt(last_modified),
                    last_synced_at: Some(now.clone()),
                    created_at: old_row.created_at.clone(),
                    updated_at: now.clone(),
                };
                self.change_source(at, row);
            },
            None => {},
        }
    }

    fn increment_source_failure(&mut self, source_id: i64, now: &String)
        requires
            old(self).holds(),
        ensures
            final(self).holds(),
            final(self).sources@ == with_source_changed(
                old(self).sources@,
                source_id,
                |row: SourceRecord| failed_source(row, *now),
            ),
            final(self).next_source_id == old(self).next_source_id,
            final(self).entries == old(self).entries,
            final(self).next_entry_id == old(self).next_entry_id,
            final(self).cache == old(self).cache,
            final(self).settings == old(self).settings,
    {
        proof {
            lemma_source_by_id(self.sources@, source_id);
            lemma_changed_is_update(
                self.sources@,
                self.next_source_id,
                source_id,
                |row: SourceRecord| failed_source(row, *now),
            );
        }
        match find_source_by_id(&self.sources, source_id) {
            Some(at) => {
                let old_row = &self.sources[at];
                let row = SourceRecord {
                    id: old_row.id,
                    title: old_row.title.clone(),
                    site_url: clone_opt(&old_row.site_url),
                    feed_url: old_row.feed_url.clone(),
                    category: clone_opt(&old_row.category),
                    is_active: old_row.is_active,
                    failure_count: if old_row.failure_count < i64::MAX {
                        old_row.failure_count + 1
                    } else {
                        i64::MAX
                    },
                    etag: clone_opt(&old_row.etag),
                    last_modified: clone_opt(&old_row.last_modified),
                    last_synced_at: clone_opt(&old_row.last_synced_at),
                    created_at: old_row.created_at.clone(),
                    updated_at: now.clone(),
                };
                self.change_source(at, row);
            },
            None => {},
        }
    }

    fn upsert_entry(&mut self, source_id: i64, parsed: &ParsedEntry, now: &String)
        requires
            old(self).holds(),
            old(self).next_entry_id < i64::MAX,
            source_by_id(old(self).sources@, source_id) is Some,
        ensures
            final(self).holds(),
            final(self).entries@ == upserted_entry(
                old(self).entries@,
                source_id,
                *parsed,
                old(self).next_entry_id,
                *now,
            ),
            final(self).next_entry_id == next_after_upsert(
                old(self).entries@,
                source_id,
                *parsed,
                old(self).next_entry_id,
            ),
            final(self).sources == old(self).sources,
            final(self).next_source_id == old(self).next_source_id,
            final(self).cache == old(self).cache,
            final(self).settings == old(self).settings,
    {
        let ghost before = self.entries@;
        let ghost next = self.next_entry_id;
        proof {
            lemma_entry_by_link(before, source_id, parsed.link@);
            lemma_upsert_keeps_entries(before, next, source_id, *parsed, *now);
        }
        match find_entry_by_link(&self.entries, source_id, parsed.link.as_str()) {
            Some(at) => {
                let old_row = &self.entries[at];
                let row = StoredEntry {
                    id: old_row.id,
                    source_id: old_row.source_id,
                    guid: Some(parsed.id.clone()),
                    link: old_row.link.clone(),
                    title: parsed.title.clone(),
                    translated_title: clone_opt(&old_row.translated_title),
                    summary: clone_opt(&parsed.summary),
                    content: clone_opt(&parsed.content),
                    published_at: clone_opt(&parsed.published_at),
                    is_read: old_row.is_read,
                    is_starred: old_row.is_starred,
                    created_at: old_row.created_at.clone(),
                };
                proof {
                    assert(row == updated_entry(before[at as int], *parsed));
                    lemma_same_entry_keys_hold(
                        before,
                        before.update(at as int, row),
                        next,
                        self.sources@,
                    );
                }
                self.entries.set(at, row);
            },
            None => {
                let id: i64 = self.next_entry_id;
                let row = StoredEntry {
                    id,
                    source_id,
                    guid: Some(parsed.id.clone()),
                    link: parsed.link.clone(),
                    title: parsed.title.clone(),
                    translated_title: None,
                    summary: clone_opt(&parsed.summary),
                    content: clone_opt(&parsed.content),
                    published_at: clone_opt(&parsed.published_at),
                    is_read: 0,
                    is_starred: 0,
                    created_at: now.clone(),
                };
                proof {
                    assert(row == created_entry(source_id, *parsed, id, *now));
                    let after = before.push(row);
                    assert forall|i: int| 0 <= i < after.len() implies source_by_id(
                        self.sources@,
                        (#[trigger] after[i]).source_id,
                    ) is Some by {
                        if i < before.len() {
                            assert(after[i] == before[i]);
                        }
                    }
                }
                self.next_entry_id = id + 1;
                self.entries.push(row);
            },
        }
    }

    fn upsert_entries(&mut self, source_id: i64, entries: &Vec<ParsedEntry>, now: &String) -> (r:
        Result<usize, StorageError>)
        requires
            old(self).holds(),
        ensures
            final(self).holds(),
            final(self).sources == old(self).sources,
            final(self).next_source_id == old(self).next_source_id,
            final(self).cache == old(self).cache,
            final(self).settings == old(self).settings,
            match r {
                Ok(count) => {
                    &&& source_by_id(old(self).sources@, source_id) is Some
                    &&& old(self).next_entry_id + entries@.len() <= i64::MAX
                    &&& count == entries@.len()
                    &&& (final(self).entries@, final(self).next_entry_id) == upserted_entries(
                        old(self).entries@,
                        old(self).next_entry_id,
                        source_id,
                        entries@,
                        *now,
                    )
                },
                Err(_) => {
                    &&& source_by_id(old(self).sources@, source_id) is None || old(
                        self,
                    ).next_entry_id + entries@.len() > i64::MAX
                    &&& final(self).entries == old(self).entries
                    &&& final(self).next_entry_id == old(self).next_entry_id
                },
            },
    {
        if find_source_by_id(&self.sources, source_id).is_none() {
            return Err(StorageError::Database("the source of the entries is not stored".to_owned()));
        }
        let room: i64 = i64::MAX - self.next_entry_id;
        if entries.len() as u64 > room as u64 {
            return Err(StorageError::Database("no id is left for an entry".to_owned()));
        }
        let ghost before = self.entries@;
        let ghost next = self.next_entry_id;
        let mut i: usize = 0;
        assert(entries@.take(0) =~= Seq::<ParsedEntry>::empty());
        while i < entries.len()
            invariant
                i <= entries.len(),
                self.holds(),
                next + entries@.len() <= i64::MAX,
                self.next_entry_id <= next + i,
                source_by_id(self.sources@, source_id) is Some,
                (self.entries@, self.next_entry_id) == upserted_entries(
                    before,
                    next,
                    source_id,
                    entries@.take(i as int),
                    *now,
                ),
                self.sources == old(self).sources,
                self.next_source_id == old(self).next_source_id,
                self.cache == old(self).cache,
                self.settings == old(self).settings,
            decreases entries.len() - i,
        {
            proof {
                let more = entries@.take(i + 1);
                assert(more.drop_last() =~= entries@.take(i as int));
                assert(more.last() == entries@[i as int]);
                lemma_upsert_keeps_entries(
                    self.entries@,
                    self.next_entry_id,
                    source_id,
                    entries@[i as int],
                    *now,
                );
            }
            self.upsert_entry(source_id, &entries[i], now);
            i += 1;
        }
        assert(entries@.take(entries.len() as int) =~= entries@);
        Ok(entries.len())
    }

    fn change_entry(&mut self, at: usize, row: StoredEntry)
        requires
            old(self).holds(),
            at < old(self).entries@.len(),
            row.id == old(self).entries@[at as int].id,
            row.source_id == old(self).entries@[at as int].source_id,
            row.link == old(self).entries@[at as int].link,
        ensures
            final(self).holds(),
            final(self).entries@ == old(self).entries@.update(at as int, row),
            final(self).next_entry_id == old(self).next_entry_id,
            final(self).sources == old(self).sources,
            final(self).next_source_id == old(self).next_source_id,
            final(self).cache == old(self).cache,
            final(self).settings == old(self).settings,
    {
        proof {
            let before = self.entries@;
            lemma_same_entry_keys_hold(
                before,
                before.update(at as int, row),
                self.next_entry_id,
                self.sources@,
            );
        }
        self.entries.set(at, row);
    }

    fn mark_entry_read(&mut self, entry_id: i64, is_read: bool) -> (affected: u64)
        requires
            old(self).holds(),
        ensures
            final(self).holds(),
            final(self).entries@ == with_read_flag(old(self).entries@, entry_id, is_read),
            affected == if entry_by_id(old(self).entries@, entry_id) is Some {
                1u64
            } else {
                0u64
            },
            final(self).next_entry_id == old(self).next_entry_id,
            final(self).sources == old(self).sources,
            final(self).next_source_id == old(self).next_source_id,
            final(self).cache == old(self).cache,
            final(self).settings == old(self).settings,
    {
        proof {
            lemma_entry_by_id(self.entries@, entry_id);
        }
        match find_entry_by_id(&self.entries, entry_id) {
            Some(at) => {
                let mut row = self.entries[at].clone();
                row.is_read = if is_read {
                    1
                } else {
                    0
                };
                self.change_entry(at, row);
                1
            },
            None => 0,
        }
    }

    fn set_entry_translated_title(&mut self, entry_id: i64, text: &String) -> (affected: u64)
        requires
            old(self).holds(),
        ensures
            final(self).holds(),
            final(self).entries@ == with_translated_title(old(self).entries@, entry_id, *text),
            affected == if entry_by_id(old(self).entries@, entry_id) is Some {
                1u64
            } else {
                0u64
            },
            final(self).next_entry_id == old(self).next_entry_id,
            final(self).sources == old(self).sources,
            final(self).next_source_id == old(self).next_source_id,
            final(self).cache == old(self).cache,
            final(self).settings == old(self).settings,
    {
        proof {
            lemma_entry_by_id(self.entries@, entry_id);
        }
        match find_entry_by_id(&self.entries, entry_id) {
            Some(at) => {
                let mut row = self.entries[at].clone();
                row.translated_title = Some(text.clone());
                self.change_entry(at, row);
                1
            },
            None => 0,
        }
    }

    fn upsert_sources_batch(&mut self, sources: &Vec<NewSource>, now: &String) -> (r: Result<
        usize,
        StorageError,
    >)
        requires
            old(self).holds(),
        ensures
            final(self).holds(),
            final(self).entries == old(self).entries,
            final(self).next_entry_id == old(self).next_entry_id,
            final(self).cache == old(self).cache,
            final(self).settings == old(self).settings,
            ({
                let outcome = upserted_batch(
                    old(self).sources@,
                    old(self).next_source_id,
                    sources@,
                    *now,
                );
                &&& final(self).sources@ == outcome.0
                &&& final(self).next_source_id == outcome.1
                &&& match r {
                    Ok(count) => outcome.2 && count == sources@.len(),
                    Err(_) => !outcome.2,
                }
            }),
    {
        let ghost before = self.sources@;
        let ghost next = self.next_source_id;
        let mut i: usize = 0;
        assert(sources@.take(0) =~= Seq::<NewSource>::empty());
        while i < sources.len()
            invariant
                i <= sources.len(),
                self.holds(),
                before == old(self).sources@,
                next == old(self).next_source_id,
                upserted_batch(before, next, sources@.take(i as int), *now) == (
                    self.sources@,
                    self.next_source_id,
                    true,
                ),
                self.entries == old(self).entries,
                self.next_entry_id == old(self).next_entry_id,
                self.cache == old(self).cache,
                self.settings == old(self).settings,
            decreases sources.len() - i,
        {
            proof {
                let more = sources@.take(i + 1);
                assert(more.drop_last() =~= sources@.take(i as int));
                assert(more.last() == sources@[i as int]);
            }
            match self.upsert_source(&sources[i], now) {
                Ok(_) => {},
                Err(e) => {
                    proof {
                        let more = sources@.take(i + 1);
                        let so_far = upserted_batch(before, next, more.drop_last(), *now);
                        assert(so_far == (self.sources@, self.next_source_id, true));
                        assert(upserted_batch(before, next, more, *now) == (
                            self.sources@,
                            self.next_source_id,
                            false,
                        ));
                        lemma_batch_stays_failed(before, next, sources@, i + 1, *now);
                    }
                    return Err(e);
                },
            }
            i += 1;
        }
        assert(sources@.take(sources.len() as int) =~= sources@);
        Ok(sources.len())
    }

    fn set_llm_cache(&mut self, row: CacheRow)
        requires
            old(self).holds(),
        ensures
            final(self).holds(),
            final(self).cache@ == with_cached(old(self).cache@, row),
            final(self).sources == old(self).sources,
            final(self).next_source_id == old(self).next_source_id,
            final(self).entries == old(self).entries,
            final(self).next_entry_id == old(self).next_entry_id,
            final(self).settings == old(self).settings,
    {
        proof {
            lemma_cached_at(self.cache@, row.task_type@, row.model@, row.input_hash@);
        }
        match find_cached(
            &self.cache,
            row.task_type.as_str(),
            row.model.as_str(),
            row.input_hash.as_str(),
        ) {
            Some(at) => {
                self.cache.set(at, row);
            },
            None => {
                self.cache.push(row);
            },
        }
    }

    fn set_setting(&mut self, row: SettingRow)
        requires
            old(self).holds(),
        ensures
            final(self).holds(),
            final(self).settings@ == with_setting(old(self).settings@, row),
            final(self).sources == old(self).sources,
            final(self).next_source_id == old(self).next_source_id,
            final(self).entries == old(self).entries,
            final(self).next_entry_id == old(self).next_entry_id,
            final(self).cache == old(self).cache,
    {
        proof {
            lemma_setting_at(self.settings@, row.key@);
        }
        match find_setting(&self.settings, row.key.as_str()) {
            Some(at) => {
                self.settings.set(at, row);
            },
            None => {
                self.settings.push(row);
            },
        }
    }
}

/// The store: sources, entries, cached texts and settings.
pub struct SourceRepository {
    tables: Tables,
}

impl SourceRepository {
    #[verifier::type_invariant]
    spec fn inv(self) -> bool {
        self.tables.holds()
    }

    /// The sources, in the order of their ids.
    pub closed spec fn sources(self) -> Seq<SourceRecord> {
        self.tables.sources@
    }

    /// The id that the next new source gets.
    pub closed spec fn next_source_id(self) -> i64 {
        self.tables.next_source_id
    }

    /// The entries, in the order of their ids.
    pub closed spec fn entries(self) -> Seq<StoredEntry> {
        self.tables.entries@
    }

    /// The id that the next new entry gets.
    pub closed spec fn next_entry_id(self) -> i64 {
        self.tables.next_entry_id
    }

    /// The cached texts.
    pub closed spec fn cache(self) -> Seq<CacheRow> {
        self.tables.cache@
    }

    /// The settings.
    pub closed spec fn settings(self) -> Seq<SettingRow> {
        self.tables.settings@
    }

    /// The tables hold together: one source to a feed URL, one entry to a
    /// source and link, every entry with its source.
    pub open spec fn holds(self) -> bool {
        &&& 0 < self.next_source_id()
        &&& 0 < self.next_entry_id()
        &&& sources_hold(self.sources(), self.next_source_id())
        &&& entries_hold(self.entries(), self.next_entry_id())
        &&& entries_are_owned(self.entries(), self.sources())
    }

    fn take(&mut self) -> (t: Tables)
        ensures
            t == old(self).tables,
            t.holds(),
    {
        proof {
            use_type_invariant(&*self);
        }
        let mut t = Tables::empty();
        core::mem::swap(&mut self.tables, &mut t);
        t
    }

    fn put(&mut self, t: Tables)
        requires
            t.holds(),
        ensures
            final(self).tables == t,
    {
        let mut t = t;
        core::mem::swap(&mut self.tables, &mut t);
    }

    /// An empty store.
    pub fn new() -> (r: Self)
        ensures
            r.holds(),
            r.sources().len() == 0,
            r.entries().len() == 0,
            r.cache().len() == 0,
            r.settings().len() == 0,
            r.next_source_id() == 1,
            r.next_entry_id() == 1,
    {
        SourceRepository { tables: Tables::empty() }
    }

    /// Inserts the source, or updates the one with its feed URL, and
    /// returns the row as it is stored then. Refused, with nothing changed,
    /// only where the source is new and no id is left.
    pub fn upsert_source(&mut self, source: &NewSource, now: &String) -> (r: Result<
        SourceRecord,
        StorageError,
    >)
        ensures
            final(self).holds(),
            final(self).entries() == old(self).entries(),
            final(self).next_entry_id() == old(self).next_entry_id(),
            final(self).cache() == old(self).cache(),
            final(self).settings() == old(self).settings(),
            match r {
                Ok(row) => {
                    &&& final(self).sources() == upserted_sources(
                        old(self).sources(),
                        *source,
                        old(self).next_source_id(),
                        *now,
                    )
                    &&& source_by_url(final(self).sources(), source.feed_url@) matches Some(at)
                    &&& row == final(self).sources()[at]
                    &&& final(self).next_source_id() == if source_by_url(
                        old(self).sources(),
                        source.feed_url@,
                    ) is Some {
                        old(self).next_source_id()
                    } else {
                        (old(self).next_source_id() + 1) as i64
                    }
                },
                Err(_) => {
                    &&& source_by_url(old(self).sources(), source.feed_url@) is None
                    &&& old(self).next_source_id() == i64::MAX
                    &&& final(self).sources() == old(self).sources()
                    &&& final(self).next_source_id() == old(self).next_source_id()
                },
            },
    {
        let mut t = self.take();
        let r = t.upsert_source(source, now);
        self.put(t);
        r
    }

    /// Deletes the source with the id `id`, and its entries with it.
    /// Returns the number of sources deleted: one, or none where there is
    /// no such source.
    pub fn delete_source(&mut self, id: i64) -> (affected: u64)
        ensures
            final(self).holds(),
            final(self).next_source_id() == old(self).next_source_id(),
            final(self).next_entry_id() == old(self).next_entry_id(),
            final(self).cache() == old(self).cache(),
            final(self).settings() == old(self).settings(),
            match source_by_id(old(self).sources(), id) {
                Some(at) => {
                    &&& affected == 1
                    &&& final(self).sources() == old(self).sources().remove(at)
                    &&& final(self).entries() == without_source(old(self).entries(), id)
                },
                None => {
                    &&& affected == 0
                    &&& final(self).sources() == old(self).sources()
                    &&& final(self).entries() == old(self).entries()
                },
            },
    {
        let mut t = self.take();
        let affected = t.delete_source(id);
        self.put(t);
        affected
    }

    /// Sets the activity of the sources whose id is among `source_ids`,
    /// and returns how many there are.
    pub fn set_sources_active(&mut self, source_ids: &Vec<i64>, is_active: bool, now: &String) -> (affected:
        u64)
        ensures
            final(self).holds(),
            final(self).sources() == with_activity(
                old(self).sources(),
                source_ids@,
                is_active,
                *now,
            ),
            affected == count_among(old(self).sources(), source_ids@),
            final(self).next_source_id() == old(self).next_source_id(),
            final(self).entries() == old(self).entries(),
            final(self).next_entry_id() == old(self).next_entry_id(),
            final(self).cache() == old(self).cache(),
            final(self).settings() == old(self).settings(),
    {
        let mut t = self.take();
        let affected = t.set_sources_active(source_ids, is_active, now);
        self.put(t);
        affected
    }

    /// Records a sync that went well: the source gets the validators
    /// given, its count of failures goes back to zero, and `now` becomes the
    /// time of its last sync. Without such a source nothing changes.
    pub fn update_source_sync_success(
        &mut self,
        source_id: i64,
        etag: &Option<String>,
        last_modified: &Option<String>,
        now: &String,
    )
        ensures
            final(self).holds(),
            final(self).sources() == with_source_changed(
                old(self).sources(),
                source_id,
                |row: SourceRecord| synced_source(row, *etag, *last_modified, *now),
            ),
            final(self).next_source_id() == old(self).next_source_id(),
            final(self).entries() == old(self).entries(),
            final(self).next_entry_id() == old(self).next_entry_id(),
            final(self).cache() == old(self).cache(),
            final(self).settings() == old(self).settings(),
    {
        let mut t = self.take();
        t.update_source_sync_success(source_id, etag, last_modified, now);
        self.put(t);
    }

    /// Records a sync that failed: the source's count of failures goes up
    /// by one. The source stays active. Without such a source nothing
    /// changes.
    pub fn increment_source_failure(&mut self, source_id: i64, now: &String)
        ensures
            final(self).holds(),
            final(self).sources() == with_source_changed(
                old(self).sources(),
                source_id,
                |row: SourceRecord| failed_source(row, *now),
            ),
            final(self).next_source_id() == old(self).next_source_id(),
            final(self).entries() == old(self).entries(),
            final(self).next_entry_id() == old(self).next_entry_id(),
            final(self).cache() == old(self).cache(),
            final(self).settings() == old(self).settings(),
    {
        let mut t = self.take();
        t.increment_source_failure(source_id, now);
        self.put(t);
    }

    /// The active sources to sync, in the order of their ids, no more than
    /// `limit` of them; all of them where `limit` is negative.
    pub fn list_sync_candidates(&self, limit: i64) -> (r: Vec<SourceRecord>)
        ensures
            r@ == limited(active_sources(self.sources()), limit),
    {
        let rows = &self.tables.sources;
        let mut out: Vec<SourceRecord> = Vec::new();
        let mut i: usize = 0;
        assert(rows@.take(0) =~= Seq::<SourceRecord>::empty());
        while i < rows.len() && (limit < 0 || (out.len() as u64) < limit as u64)
            invariant
                i <= rows.len(),
                out@ == active_sources(rows@.take(i as int)),
                limit < 0 || out@.len() <= limit,
            decreases rows.len() - i,
        {
            proof {
                let now = rows@.take(i + 1);
                assert(now.drop_last() =~= rows@.take(i as int));
                assert(now.last() == rows@[i as int]);
            }
            if rows[i].is_active == 1 {
                out.push(rows[i].clone());
            }
            i += 1;
        }
        proof {
            lemma_active_prefix(rows@, i as int);
            assert(rows@.take(rows@.len() as int) =~= rows@);
            let all = active_sources(rows@);
            if i < rows.len() {
                assert(out@.len() == limit);
                assert(out@ =~= all.take(limit as int));
            }
        }
        out
    }

    /// Upserts the entries for the source, one after the other: the entry
    /// with the same link is updated, a new one is added. Returns the number
    /// of entries taken. Refused, with nothing changed, where the source is
    /// not stored or the ids could run out.
    pub fn upsert_entries(&mut self, source_id: i64, entries: &Vec<ParsedEntry>, now: &String) -> (r:
        Result<usize, StorageError>)
        ensures
            final(self).holds(),
            final(self).sources() == old(self).sources(),
            final(self).next_source_id() == old(self).next_source_id(),
            final(self).cache() == old(self).cache(),
            final(self).settings() == old(self).settings(),
            match r {
                Ok(count) => {
                    &&& source_by_id(old(self).sources(), source_id) is Some
                    &&& old(self).next_entry_id() + entries@.len() <= i64::MAX
                    &&& count == entries@.len()
                    &&& (final(self).entries(), final(self).next_entry_id()) == upserted_entries(
                        old(self).entries(),
                        old(self).next_entry_id(),
                        source_id,
                        entries@,
                        *now,
                    )
                },
                Err(_) => {
                    &&& source_by_id(old(self).sources(), source_id) is None || old(
                        self,
                    ).next_entry_id() + entries@.len() > i64::MAX
                    &&& final(self).entries() == old(self).entries()
                    &&& final(self).next_entry_id() == old(self).next_entry_id()
                },
            },
    {
        let mut t = self.take();
        let r = t.upsert_entries(source_id, entries, now);
        self.put(t);
        r
    }

    /// Lists the entries that a query asks for: of the source given, with
    /// the keyword of the search in title or summary, unread where only
    /// those are wanted; the latest first, and no more than `limit`.
    pub fn list_entries(
        &self,
        source_id: Option<i64>,
        search: Option<&str>,
        unread_only: bool,
        limit: i64,
    ) -> (r: Vec<EntryRecord>)
        ensures
            ({
                let out = listed(
                    self.entries(),
                    self.sources(),
                    source_id,
                    keyword_of(
                        match search {
                            Some(s) => Some(s@),
                            None => None,
                        },
                    ),
                    unread_only,
                    limit,
                );
                &&& r@.len() == out.len()
                &&& forall|i: int|
                    0 <= i < r@.len() ==> #[trigger] r@[i] == record_of(out[i], self.sources())
            }),
    {
        select_entries(
            &self.tables.entries,
            &self.tables.sources,
            source_id,
            search,
            unread_only,
            limit,
        )
    }

    /// Marks the entry as read or unread, and returns the number of entries
    /// marked: one, or none where there is no such entry.
    pub fn mark_entry_read(&mut self, entry_id: i64, is_read: bool) -> (affected: u64)
        ensures
            final(self).holds(),
            final(self).entries() == with_read_flag(old(self).entries(), entry_id, is_read),
            affected == if entry_by_id(old(self).entries(), entry_id) is Some {
                1u64
            } else {
                0u64
            },
            final(self).next_entry_id() == old(self).next_entry_id(),
            final(self).sources() == old(self).sources(),
            final(self).next_source_id() == old(self).next_source_id(),
            final(self).cache() == old(self).cache(),
            final(self).settings() == old(self).settings(),
    {
        let mut t = self.take();
        let affected = t.mark_entry_read(entry_id, is_read);
        self.put(t);
        affected
    }

    /// Sets the translated title of the entry, and returns the number of
    /// entries changed: one, or none where there is no such entry.
    pub fn set_entry_translated_title(&mut self, entry_id: i64, text: &String) -> (affected: u64)
        ensures
            final(self).holds(),
            final(self).entries() == with_translated_title(old(self).entries(), entry_id, *text),
            affected == if entry_by_id(old(self).entries(), entry_id) is Some {
                1u64
            } else {
                0u64
            },
            final(self).next_entry_id() == old(self).next_entry_id(),
            final(self).sources() == old(self).sources(),
            final(self).next_source_id() == old(self).next_source_id(),
            final(self).cache() == old(self).cache(),
            final(self).settings() == old(self).settings(),
    {
        let mut t = self.take();
        let affected = t.set_entry_translated_title(entry_id, text);
        self.put(t);
        affected
    }

    /// The entry with the id `id`, with the title of its source, if it is
    /// stored.
    pub fn get_entry_by_id(&self, entry_id: i64) -> (r: Option<EntryRecord>)
        ensures
            match r {
                Some(row) => entry_by_id(self.entries(), entry_id) matches Some(at) && row
                    == record_of(self.entries()[at], self.sources()),
                None => entry_by_id(self.entries(), entry_id) is None,
            },
    {
        proof {
            use_type_invariant(self);
            lemma_entry_by_id(self.tables.entries@, entry_id);
        }
        match find_entry_by_id(&self.tables.entries, entry_id) {
            None => None,
            Some(at) => {
                let entry = &self.tables.entries[at];
                proof {
                    lemma_source_by_id(self.tables.sources@, entry.source_id);
                }
                let source_title = match find_source_by_id(&self.tables.sources, entry.source_id) {
                    Some(place) => self.tables.sources[place].title.clone(),
                    None => String::new(),
                };
                Some(
                    EntryRecord {
                        id: entry.id,
                        source_id: entry.source_id,
                        source_title,
                        guid: clone_opt(&entry.guid),
                        link: entry.link.clone(),
                        title: entry.title.clone(),
                        translated_title: clone_opt(&entry.translated_title),
                        summary: clone_opt(&entry.summary),
                        content: clone_opt(&entry.content),
                        published_at: clone_opt(&entry.published_at),
                        is_read: entry.is_read,
                        is_starred: entry.is_starred,
                        created_at: entry.created_at.clone(),
                    },
                )
            },
        }
    }

    /// The entries that wait for a translated title, in the order of their
    /// ids, no more than `limit` of them; all of them where `limit` is
    /// negative.
    pub fn list_entries_without_translated_title(&self, limit: i64) -> (r: Vec<EntryTitleRecord>)
        ensures
            r@ == limited(untranslated(self.entries()), limit),
    {
        let rows = &self.tables.entries;
        let mut out: Vec<EntryTitleRecord> = Vec::new();
        let mut i: usize = 0;
        assert(rows@.take(0) =~= Seq::<StoredEntry>::empty());
        while i < rows.len() && (limit < 0 || (out.len() as u64) < limit as u64)
            invariant
                i <= rows.len(),
                out@ == untranslated(rows@.take(i as int)),
                limit < 0 || out@.len() <= limit,
            decreases rows.len() - i,
        {
            proof {
                let now = rows@.take(i + 1);
                assert(now.drop_last() =~= rows@.take(i as int));
                assert(now.last() == rows@[i as int]);
            }
            if rows[i].translated_title.is_none() {
                out.push(EntryTitleRecord { id: rows[i].id, title: rows[i].title.clone() });
            }
            i += 1;
        }
        proof {
            lemma_untranslated_prefix(rows@, i as int);
            assert(rows@.take(rows@.len() as int) =~= rows@);
            let all = untranslated(rows@);
            if i < rows.len() {
                assert(out@.len() == limit);
                assert(out@ =~= all.take(limit as int));
            }
        }
        out
    }

    /// Upserts the sources one after the other, and returns how many there
    /// are. Stops, with the earlier ones stored, at a source that is new
    /// when no id is left.
    pub fn upsert_sources_batch(&mut self, sources: &Vec<NewSource>, now: &String) -> (r: Result<
        usize,
        StorageError,
    >)
        ensures
            final(self).holds(),
            final(self).entries() == old(self).entries(),
            final(self).next_entry_id() == old(self).next_entry_id(),
            final(self).cache() == old(self).cache(),
            final(self).settings() == old(self).settings(),
            ({
                let outcome = upserted_batch(
                    old(self).sources(),
                    old(self).next_source_id(),
                    sources@,
                    *now,
                );
                &&& final(self).sources() == outcome.0
                &&& final(self).next_source_id() == outcome.1
                &&& match r {
                    Ok(count) => outcome.2 && count == sources@.len(),
                    Err(_) => !outcome.2,
                }
            }),
    {
        let mut t = self.take();
        let r = t.upsert_sources_batch(sources, now);
        self.put(t);
        r
    }

    /// The text cached under the key, if there is one.
    pub fn get_llm_cache(&self, task_type: &str, model: &str, input_hash: &str) -> (r: Option<
        String,
    >)
        ensures
            match r {
                Some(text) => cached_at(self.cache(), task_type@, model@, input_hash@) matches Some(
                    at,
                ) && text == self.cache()[at].output,
                None => cached_at(self.cache(), task_type@, model@, input_hash@) is None,
            },
    {
        proof {
            lemma_cached_at(self.tables.cache@, task_type@, model@, input_hash@);
        }
        match find_cached(&self.tables.cache, task_type, model, input_hash) {
            Some(at) => Some(self.tables.cache[at].output.clone()),
            None => None,
        }
    }

    /// Puts a text into the cache under its key, in place of what was
    /// there.
    pub fn set_llm_cache(&mut self, row: CacheRow)
        ensures
            final(self).holds(),
            final(self).cache() == with_cached(old(self).cache(), row),
            final(self).sources() == old(self).sources(),
            final(self).next_source_id() == old(self).next_source_id(),
            final(self).entries() == old(self).entries(),
            final(self).next_entry_id() == old(self).next_entry_id(),
            final(self).settings() == old(self).settings(),
    {
        let mut t = self.take();
        t.set_llm_cache(row);
        self.put(t);
    }

    /// The value of the setting named `key`, if there is one.
    pub fn get_setting(&self, key: &str) -> (r: Option<String>)
        ensures
            match r {
                Some(value) => setting_at(self.settings(), key@) matches Some(at) && value
                    == self.settings()[at].value,
                None => setting_at(self.settings(), key@) is None,
            },
    {
        proof {
            lemma_setting_at(self.tables.settings@, key@);
        }
        match find_setting(&self.tables.settings, key) {
            Some(at) => Some(self.tables.settings[at].value.clone()),
            None => None,
        }
    }

    /// Puts a setting under its name, in place of what was there.
    pub fn set_setting(&mut self, row: SettingRow)
        ensures
            final(self).holds(),
            final(self).settings() == with_setting(old(self).settings(), row),
            final(self).sources() == old(self).sources(),
            final(self).next_source_id() == old(self).next_source_id(),
            final(self).entries() == old(self).entries(),
            final(self).next_entry_id() == old(self).next_entry_id(),
            final(self).cache() == old(self).cache(),
    {
        let mut t = self.take();
        t.set_setting(row);
        self.put(t);
    }

    /// Rebuilds a store from the rows of its tables. Refused where the rows
    /// do not hold together: where two sources share a feed URL or two
    /// entries a source and link, where ids are not above zero, below the
    /// largest there is and in rising order, or where an entry has no
    /// source.
    pub fn restore(
        sources: Vec<SourceRecord>,
        entries: Vec<StoredEntry>,
        cache: Vec<CacheRow>,
        settings: Vec<SettingRow>,
    ) -> (r: Result<Self, StorageError>)
        ensures
            match r {
                Ok(store) => {
                    &&& store.holds()
                    &&& store.sources() == sources@
                    &&& store.entries() == entries@
                    &&& store.cache() == cache@
                    &&& store.settings() == settings@
                    &&& store.next_source_id() == id_after(last_source_id(sources@))
                    &&& store.next_entry_id() == id_after(last_entry_id(entries@))
                },
                Err(_) => !(sources_hold(sources@, i64::MAX) && entries_hold(entries@, i64::MAX)
                    && entries_are_owned(entries@, sources@)),
            },
    {
        if !sources_are_sound(&sources) || !entries_are_sound(&entries, &sources) {
            return Err(StorageError::Database("the rows do not hold together".to_owned()));
        }
        let next_source_id: i64 = if sources.len() == 0 {
            1
        } else {
            sources[sources.len() - 1].id + 1
        };
        let next_entry_id: i64 = if entries.len() == 0 {
            1
        } else {
            entries[entries.len() - 1].id + 1
        };
        proof {
            assert forall|i: int| 0 <= i < sources@.len() implies 0 < (#[trigger] sources@[i]).id
                < next_source_id by {
                if i < sources@.len() - 1 {
                    assert(sources@[i].id < sources@[sources@.len() - 1].id);
                }
            }
            assert forall|i: int| 0 <= i < entries@.len() implies 0 < (#[trigger] entries@[i]).id
                < next_entry_id by {
                if i < entries@.len() - 1 {
                    assert(entries@[i].id < entries@[entries@.len() - 1].id);
                }
            }
        }
        Ok(
            SourceRepository {
                tables: Tables { sources, next_source_id, entries, next_entry_id, cache, settings },
            },
        )
    }

    /// The entries as they are stored, in the order of their ids.
    pub fn stored_entries(&self) -> (r: Vec<StoredEntry>)
        ensures
            r@ == self.entries(),
    {
        let rows = &self.tables.entries;
        let mut out: Vec<StoredEntry> = Vec::new();
        let mut i: usize = 0;
        while i < rows.len()
            invariant
                i <= rows.len(),
                out@ == rows@.take(i as int),
            decreases rows.len() - i,
        {
            out.push(rows[i].clone());
            assert(rows@.take(i + 1) =~= rows@.take(i as int).push(rows@[i as int]));
            i += 1;
        }
        assert(rows@.take(rows.len() as int) =~= rows@);
        out
    }

    /// The cached texts as they are stored.
    pub fn cached_texts(&self) -> (r: Vec<CacheRow>)
        ensures
            r@ == self.cache(),
    {
        let rows = &self.tables.cache;
        let mut out: Vec<CacheRow> = Vec::new();
        let mut i: usize = 0;
        while i < rows.len()
            invariant
                i <= rows.len(),
                out@ == rows@.take(i as int),
            decreases rows.len() - i,
        {
            out.push(rows[i].clone());
            assert(rows@.take(i + 1) =~= rows@.take(i as int).push(rows@[i as int]));
            i += 1;
        }
        assert(rows@.take(rows.len() as int) =~= rows@);
        out
    }

    /// The settings as they are stored.
    pub fn stored_settings(&self) -> (r: Vec<SettingRow>)
        ensures
            r@ == self.settings(),
    {
        let rows = &self.tables.settings;
        let mut out: Vec<SettingRow> = Vec::new();
        let mut i: usize = 0;
        while i < rows.len()
            invariant
                i <= rows.len(),
                out@ == rows@.take(i as int),
            decreases rows.len() - i,
        {
            out.push(rows[i].clone());
            assert(rows@.take(i + 1) =~= rows@.take(i as int).push(rows@[i as int]));
            i += 1;
        }
        assert(rows@.take(rows.len() as int) =~= rows@);
        out
    }

    /// The sources, the latest id first.
    pub fn list_sources(&self) -> (r: Vec<SourceRecord>)
        ensures
            r@ == self.sources().reverse(),
    {
        let rows = &self.tables.sources;
        let mut out: Vec<SourceRecord> = Vec::new();
        let mut i: usize = rows.len();
        while i > 0
            invariant
                i <= rows.len(),
                out.len() == rows.len() - i,
                forall|k: int|
                    0 <= k < out.len() ==> #[trigger] out@[k] == rows@[rows.len() - 1 - k],
            decreases i,
        {
            i -= 1;
            out.push(rows[i].clone());
        }
        assert(out@ =~= rows@.reverse());
        out
    }

    /// The source with the id `id`, if it is stored.
    pub fn get_source_by_id(&self, id: i64) -> (r: Option<SourceRecord>)
        ensures
            match r {
                Some(row) => source_by_id(self.sources(), id) matches Some(at) && row
                    == self.sources()[at],
                None => source_by_id(self.sources(), id) is None,
            },
    {
        match find_source_by_id(&self.tables.sources, id) {
            Some(at) => {
                proof {
                    lemma_source_by_id(self.tables.sources@, id);
                }
                Some(self.tables.sources[at].clone())
            },
            None => None,
        }
    }
}

fn id_in(ids: &Vec<i64>, id: i64) -> (r: bool)
    ensures
        r == ids@.contains(id),
{
    let mut i: usize = 0;
    while i < ids.len()
        invariant
            i <= ids.len(),
            forall|k: int| 0 <= k < i ==> ids@[k] != id,
        decreases ids.len() - i,
    {
        if ids[i] == id {
            return true;
        }
        i += 1;
    }
    false
}

proof fn lemma_batch_stays_failed(
    rows: Seq<SourceRecord>,
    next_id: i64,
    sources: Seq<NewSource>,
    count: int,
    now: String,
)
    requires
        0 <= count <= sources.len(),
        !upserted_batch(rows, next_id, sources.take(count), now).2,
    ensures
        upserted_batch(rows, next_id, sources, now) == upserted_batch(
            rows,
            next_id,
            sources.take(count),
            now,
        ),
    decreases sources.len() - count,
{
    if count == sources.len() {
        assert(sources.take(count) =~= sources);
    } else {
        let more = sources.take(count + 1);
        assert(more.drop_last() =~= sources.take(count));
        lemma_batch_stays_failed(rows, next_id, sources, count + 1, now);
    }
}

fn find_cached(rows: &Vec<CacheRow>, task_type: &str, model: &str, input_hash: &str) -> (r: Option<
    usize,
>)
    ensures
        match r {
            Some(at) => cached_at(rows@, task_type@, model@, input_hash@) == Some(at as int),
            None => cached_at(rows@, task_type@, model@, input_hash@) is None,
        },
{
    let mut i: usize = rows.len();
    assert(rows@.take(i as int) =~= rows@);
    while i > 0
        invariant
            i <= rows.len(),
            cached_at(rows@, task_type@, model@, input_hash@) == cached_at(
                rows@.take(i as int),
                task_type@,
                model@,
                input_hash@,
            ),
        decreases i,
    {
        assert(rows@.take(i as int).last() == rows@[i - 1]);
        let row = &rows[i - 1];
        if str_eq(row.task_type.as_str(), task_type) && str_eq(row.model.as_str(), model) && str_eq(
            row.input_hash.as_str(),
            input_hash,
        ) {
            return Some(i - 1);
        }
        assert(rows@.take(i as int).drop_last() =~= rows@.take(i - 1));
        i -= 1;
    }
    None
}

fn find_setting(rows: &Vec<SettingRow>, key: &str) -> (r: Option<usize>)
    ensures
        match r {
            Some(at) => setting_at(rows@, key@) == Some(at as int),
            None => setting_at(rows@, key@) is None,
        },
{
    let mut i: usize = rows.len();
    assert(rows@.take(i as int) =~= rows@);
    while i > 0
        invariant
            i <= rows.len(),
            setting_at(rows@, key@) == setting_at(rows@.take(i as int), key@),
        decreases i,
    {
        assert(rows@.take(i as int).last() == rows@[i - 1]);
        if str_eq(rows[i - 1].key.as_str(), key) {
            return Some(i - 1);
        }
        assert(rows@.take(i as int).drop_last() =~= rows@.take(i - 1));
        i -= 1;
    }
    None
}

} // verus!
