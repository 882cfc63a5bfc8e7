//! The tables of the store and the rules their operations keep: one row
//! to a feed URL, one entry to a source and link, counters that follow the
//! outcome of each sync.

use vstd::prelude::*;
use crate::feed::types::{clone_opt, ParsedEntry};
use crate::storage::models::{EntryTitleRecord, NewSource, SourceRecord};
use crate::text::{concat2, str_eq};

verus! {

/// Why the store refused an operation.
#[derive(Debug)]
pub enum StorageError {
    /// The tables do not hold together, or no id is left to give out.
    Database(String),
}

impl StorageError {
    /// The error as a line of text.
    pub open spec fn text(self) -> Seq<char> {
        match self {
            StorageError::Database(m) => "database error: "@ + m@,
        }
    }

    /// The error as a line of text.
    pub fn message(&self) -> (r: String)
        ensures
            r@ == self.text(),
    {
        match self {
            StorageError::Database(m) => concat2("database error: ", m.as_str()),
        }
    }
}

/// The place of the source with the feed URL `url` among `rows`, if there
/// is one.
pub open spec fn source_by_url(rows: Seq<SourceRecord>, url: Seq<char>) -> Option<int>
    decreases rows.len(),
{
    if rows.len() == 0 {
        None
    } else if rows.last().feed_url@ == url {
        Some(rows.len() - 1)
    } else {
        source_by_url(rows.drop_last(), url)
    }
}

/// The place of the source with the id `id` among `rows`, if there is one.
pub open spec fn source_by_id(rows: Seq<SourceRecord>, id: i64) -> Option<int>
    decreases rows.len(),
{
    if rows.len() == 0 {
        None
    } else if rows.last().id == id {
        Some(rows.len() - 1)
    } else {
        source_by_id(rows.drop_last(), id)
    }
}

/// No two of `rows` share a feed URL; the rows stand in the order of their
/// ids, and every id is above zero and below `next_id`.
pub open spec fn sources_hold(rows: Seq<SourceRecord>, next_id: i64) -> bool {
    &&& forall|i: int, j: int|
        0 <= i < j < rows.len() ==> (#[trigger] rows[i]).feed_url@ != (#[trigger] rows[j]).feed_url@
    &&& forall|i: int, j: int|
        0 <= i < j < rows.len() ==> (#[trigger] rows[i]).id < (#[trigger] rows[j]).id
    &&& forall|i: int| 0 <= i < rows.len() ==> 0 < (#[trigger] rows[i]).id < next_id
}

/// 1 for an active source, 0 for one that is not.
pub open spec fn flag(on: bool) -> i64 {
    if on {
        1
    } else {
        0
    }
}

/// The row that `source` makes of `row`: title, site URL, category and
/// activity are the new ones, the time of the last change is `now`; id,
/// feed URL, sync cursor and time of creation stay.
pub open spec fn updated_source(row: SourceRecord, source: NewSource, now: String) -> SourceRecord {
    SourceRecord {
        title: source.title,
        site_url: source.site_url,
        category: source.category,
        is_active: flag(source.is_active),
        updated_at: now,
        ..row
    }
}

/// The row that `source` starts as: no failure, no validators, never
/// synced.
pub open spec fn created_source(source: NewSource, id: i64, now: String) -> SourceRecord {
    SourceRecord {
        id,
        title: source.title,
        site_url: source.site_url,
        feed_url: source.feed_url,
        category: source.category,
        is_active: flag(source.is_active),
        failure_count: 0,
        etag: None,
        last_modified: None,
        last_synced_at: None,
        created_at: now,
        updated_at: now,
    }
}

/// The sources after `source` has been upserted: the row with its feed URL
/// is updated in place, or a row with the id `id` is added at the end.
pub open spec fn upserted_sources(
    rows: Seq<SourceRecord>,
    source: NewSource,
    id: i64,
    now: String,
) -> Seq<SourceRecord> {
    match source_by_url(rows, source.feed_url@) {
        Some(at) => rows.update(at, updated_source(rows[at], source, now)),
        None => rows.push(created_source(source, id, now)),
    }
}

/// A place found by feed URL holds a row with that URL; where none is
/// found, no row has it.
pub proof fn lemma_source_by_url(rows: Seq<SourceRecord>, url: Seq<char>)
    ensures
        match source_by_url(rows, url) {
            Some(at) => 0 <= at < rows.len() && rows[at].feed_url@ == url,
            None => forall|i: int| 0 <= i < rows.len() ==> (#[trigger] rows[i]).feed_url@ != url,
        },
    decreases rows.len(),
{
    if rows.len() > 0 && rows.last().feed_url@ != url {
        lemma_source_by_url(rows.drop_last(), url);
        if source_by_url(rows, url) is None {
            assert forall|i: int| 0 <= i < rows.len() implies (#[trigger] rows[i]).feed_url@
                != url by {
                if i < rows.len() - 1 {
                    assert(rows.drop_last()[i] == rows[i]);
                }
            }
        }
    }
}

/// A place found by id holds a row with that id; where none is found, no
/// row has it.
pub proof fn lemma_source_by_id(rows: Seq<SourceRecord>, id: i64)
    ensures
        match source_by_id(rows, id) {
            Some(at) => 0 <= at < rows.len() && rows[at].id == id,
            None => forall|i: int| 0 <= i < rows.len() ==> (#[trigger] rows[i]).id != id,
        },
    decreases rows.len(),
{
    if rows.len() > 0 && rows.last().id != id {
        lemma_source_by_id(rows.drop_last(), id);
        if source_by_id(rows, id) is None {
            assert forall|i: int| 0 <= i < rows.len() implies (#[trigger] rows[i]).id != id by {
                if i < rows.len() - 1 {
                    assert(rows.drop_last()[i] == rows[i]);
                }
            }
        }
    }
}

/// Where the rows hold together, a place found by URL or by id is the only
/// one with that URL or id.
pub proof fn lemma_source_place_is_unique(rows: Seq<SourceRecord>, next_id: i64, at: int)
    requires
        sources_hold(rows, next_id),
        0 <= at < rows.len(),
    ensures
        source_by_url(rows, rows[at].feed_url@) == Some(at),
        source_by_id(rows, rows[at].id) == Some(at),
{
    lemma_source_by_url(rows, rows[at].feed_url@);
    lemma_source_by_id(rows, rows[at].id);
    let u = source_by_url(rows, rows[at].feed_url@);
    let d = source_by_id(rows, rows[at].id);
    assert(u is Some);
    assert(d is Some);
    if u->Some_0 != at {
        if u->Some_0 < at {
            assert(rows[u->Some_0].feed_url@ != rows[at].feed_url@);
        } else {
            assert(rows[at].feed_url@ != rows[u->Some_0].feed_url@);
        }
    }
    if d->Some_0 != at {
        if d->Some_0 < at {
            assert(rows[d->Some_0].id < rows[at].id);
        } else {
            assert(rows[at].id < rows[d->Some_0].id);
        }
    }
}

/// Upserting keeps the sources together.
pub proof fn lemma_upsert_keeps_sources(
    rows: Seq<SourceRecord>,
    next_id: i64,
    source: NewSource,
    now: String,
)
    requires
        sources_hold(rows, next_id),
        0 < next_id < i64::MAX,
    ensures
        sources_hold(upserted_sources(rows, source, next_id, now), (next_id + 1) as i64),
{
    lemma_source_by_url(rows, source.feed_url@);
    let after = upserted_sources(rows, source, next_id, now);
    match source_by_url(rows, source.feed_url@) {
        Some(at) => {
            assert forall|i: int, j: int| 0 <= i < j < after.len() implies (#[trigger] after[i]).feed_url@
                != (#[trigger] after[j]).feed_url@ by {
                assert(after[i].feed_url@ == rows[i].feed_url@);
                assert(after[j].feed_url@ == rows[j].feed_url@);
            }
            assert forall|i: int, j: int| 0 <= i < j < after.len() implies (#[trigger] after[i]).id
                < (#[trigger] after[j]).id by {
                assert(after[i].id == rows[i].id);
                assert(after[j].id == rows[j].id);
            }
            assert forall|i: int| 0 <= i < after.len() implies 0 < (#[trigger] after[i]).id
                < next_id + 1 by {
                assert(after[i].id == rows[i].id);
            }
        },
        None => {
            assert forall|i: int, j: int| 0 <= i < j < after.len() implies (#[trigger] after[i]).feed_url@
                != (#[trigger] after[j]).feed_url@ by {
                if j < rows.len() {
                    assert(after[i] == rows[i] && after[j] == rows[j]);
                } else {
                    assert(after[i] == rows[i]);
                }
            }
            assert forall|i: int, j: int| 0 <= i < j < after.len() implies (#[trigger] after[i]).id
                < (#[trigger] after[j]).id by {
                if j < rows.len() {
                    assert(after[i] == rows[i] && after[j] == rows[j]);
                } else {
                    assert(after[i] == rows[i]);
                }
            }
            assert forall|i: int| 0 <= i < after.len() implies 0 < (#[trigger] after[i]).id
                < next_id + 1 by {
                if i < rows.len() {
                    assert(after[i] == rows[i]);
                }
            }
        },
    }
}

/// Upserting twice under one feed URL leaves one row for that URL, with the
/// second title: the second upsert adds no row, and the row it finds is the
/// one the first upsert left, with the same id.
pub proof fn lemma_upsert_source_is_idempotent(
    rows: Seq<SourceRecord>,
    next_id: i64,
    first: NewSource,
    second: NewSource,
    first_now: String,
    second_now: String,
)
    requires
        sources_hold(rows, next_id),
        0 < next_id < i64::MAX - 1,
        first.feed_url@ == second.feed_url@,
    ensures
        ({
            let once = upserted_sources(rows, first, next_id, first_now);
            let twice = upserted_sources(once, second, (next_id + 1) as i64, second_now);
            let at = source_by_url(twice, first.feed_url@);
            &&& twice.len() == once.len()
            &&& at is Some
            &&& at == source_by_url(once, first.feed_url@)
            &&& twice[at->Some_0].title == second.title
            &&& twice[at->Some_0].id == once[at->Some_0].id
            &&& forall|i: int|
                0 <= i < twice.len() && i != at->Some_0 ==> #[trigger] twice[i] == once[i]
                    && twice[i].feed_url@ != first.feed_url@
        }),
{
    let url = first.feed_url@;
    let once = upserted_sources(rows, first, next_id, first_now);
    lemma_upsert_keeps_sources(rows, next_id, first, first_now);
    lemma_source_by_url(rows, url);
    assert(exists|k: int| 0 <= k < once.len() && once[k].feed_url@ == url) by {
        match source_by_url(rows, url) {
            Some(at) => {
                assert(once[at].feed_url@ == url);
            },
            None => {
                assert(once[once.len() - 1].feed_url@ == url);
            },
        }
    }
    let k = choose|k: int| 0 <= k < once.len() && once[k].feed_url@ == url;
    lemma_source_place_is_unique(once, (next_id + 1) as i64, k);
    let twice = upserted_sources(once, second, (next_id + 1) as i64, second_now);
    assert(twice == once.update(k, updated_source(once[k], second, second_now)));
    lemma_upsert_keeps_sources(once, (next_id + 1) as i64, second, second_now);
    assert(twice[k].feed_url@ == url);
    lemma_source_place_is_unique(twice, (next_id + 2) as i64, k);
    assert forall|i: int| 0 <= i < twice.len() && i != k implies #[trigger] twice[i] == once[i]
        && twice[i].feed_url@ != url by {
        if i < k {
            assert(twice[i].feed_url@ != twice[k].feed_url@);
        } else {
            assert(twice[k].feed_url@ != twice[i].feed_url@);
        }
    }
}

/// The rows with `change` applied to the one with the id `id`.
pub open spec fn with_source_changed(
    rows: Seq<SourceRecord>,
    id: i64,
    change: spec_fn(SourceRecord) -> SourceRecord,
) -> Seq<SourceRecord> {
    Seq::new(
        rows.len(),
        |i: int|
            if rows[i].id == id {
                change(rows[i])
            } else {
                rows[i]
            },
    )
}

/// The row after a sync that went well: the validators are the new ones,
/// the count of failures is back at zero, and the row was synced and
/// changed at `now`.
pub open spec fn synced_source(
    row: SourceRecord,
    etag: Option<String>,
    last_modified: Option<String>,
    now: String,
) -> SourceRecord {
    SourceRecord {
        etag,
        last_modified,
        last_synced_at: Some(now),
        failure_count: 0,
        updated_at: now,
        ..row
    }
}

/// The row after a sync that failed: one more failure, up to the largest
/// count there is, and changed at `now`. The source stays active.
pub open spec fn failed_source(row: SourceRecord, now: String) -> SourceRecord {
    SourceRecord {
        failure_count: if row.failure_count < i64::MAX {
            (row.failure_count + 1) as i64
        } else {
            i64::MAX
        },
        updated_at: now,
        ..row
    }
}

/// The rows with the activity of those whose id is among `ids` set.
pub open spec fn with_activity(
    rows: Seq<SourceRecord>,
    ids: Seq<i64>,
    is_active: bool,
    now: String,
) -> Seq<SourceRecord> {
    Seq::new(
        rows.len(),
        |i: int|
            if ids.contains(rows[i].id) {
                SourceRecord { is_active: flag(is_active), updated_at: now, ..rows[i] }
            } else {
                rows[i]
            },
    )
}

/// The number of `rows` whose id is among `ids`.
pub open spec fn count_among(rows: Seq<SourceRecord>, ids: Seq<i64>) -> nat
    decreases rows.len(),
{
    if rows.len() == 0 {
        0
    } else {
        count_among(rows.drop_last(), ids) + if ids.contains(rows.last().id) {
            1nat
        } else {
            0nat
        }
    }
}

/// The active ones among `rows`, in order.
pub open spec fn active_sources(rows: Seq<SourceRecord>) -> Seq<SourceRecord>
    decreases rows.len(),
{
    if rows.len() == 0 {
        Seq::empty()
    } else if rows.last().is_active == 1 {
        active_sources(rows.drop_last()).push(rows.last())
    } else {
        active_sources(rows.drop_last())
    }
}

/// The first `limit` of `rows`; all of them where `limit` is negative or
/// there are fewer.
pub open spec fn limited<T>(rows: Seq<T>, limit: i64) -> Seq<T> {
    if limit < 0 || rows.len() <= limit {
        rows
    } else {
        rows.take(limit as int)
    }
}

/// Changing rows without touching URL or id keeps the sources together.
pub proof fn lemma_same_keys_hold(before: Seq<SourceRecord>, after: Seq<SourceRecord>, next_id: i64)
    requires
        sources_hold(before, next_id),
        after.len() == before.len(),
        forall|i: int|
            0 <= i < before.len() ==> (#[trigger] after[i]).id == before[i].id && after[i].feed_url
                == before[i].feed_url,
    ensures
        sources_hold(after, next_id),
{
    assert forall|i: int, j: int| 0 <= i < j < after.len() implies (#[trigger] after[i]).feed_url@
        != (#[trigger] after[j]).feed_url@ by {
        assert(before[i].feed_url@ != before[j].feed_url@);
    }
    assert forall|i: int, j: int| 0 <= i < j < after.len() implies (#[trigger] after[i]).id < (
    #[trigger] after[j]).id by {
        assert(before[i].id < before[j].id);
    }
    assert forall|i: int| 0 <= i < after.len() implies 0 < (#[trigger] after[i]).id < next_id by {
        assert(0 < before[i].id < next_id);
    }
}

/// Finds the place of the source with the feed URL `url`.
pub fn find_source_by_url(rows: &Vec<SourceRecord>, url: &str) -> (r: Option<usize>)
    ensures
        match r {
            Some(at) => source_by_url(rows@, url@) == Some(at as int),
            None => source_by_url(rows@, url@) is None,
        },
{
    let mut i: usize = rows.len();
    assert(rows@.take(i as int) =~= rows@);
    while i > 0
        invariant
            i <= rows.len(),
            source_by_url(rows@, url@) == source_by_url(rows@.take(i as int), url@),
        decreases i,
    {
        assert(rows@.take(i as int).last() == rows@[i - 1]);
        if str_eq(rows[i - 1].feed_url.as_str(), url) {
            return Some(i - 1);
        }
        assert(rows@.take(i as int).drop_last() =~= rows@.take(i - 1));
        i -= 1;
    }
    None
}

/// Finds the place of the source with the id `id`.
pub fn find_source_by_id(rows: &Vec<SourceRecord>, id: i64) -> (r: Option<usize>)
    ensures
        match r {
            Some(at) => source_by_id(rows@, id) == Some(at as int),
            None => source_by_id(rows@, id) is None,
        },
{
    let mut i: usize = rows.len();
    assert(rows@.take(i as int) =~= rows@);
    while i > 0
        invariant
            i <= rows.len(),
            source_by_id(rows@, id) == source_by_id(rows@.take(i as int), id),
        decreases i,
    {
        assert(rows@.take(i as int).last() == rows@[i - 1]);
        if rows[i - 1].id == id {
            return Some(i - 1);
        }
        assert(rows@.take(i as int).drop_last() =~= rows@.take(i - 1));
        i -= 1;
    }
    None
}

/// An entry as the store keeps it.
#[derive(Debug)]
pub struct StoredEntry {
    pub id: i64,
    pub source_id: i64,
    pub guid: Option<String>,
    pub link: String,
    pub title: String,
    pub translated_title: Option<String>,
    pub summary: Option<String>,
    pub content: Option<String>,
    pub published_at: Option<String>,
    pub is_read: i64,
    pub is_starred: i64,
    pub created_at: String,
}

impl Clone for StoredEntry {
    fn clone(&self) -> (r: Self)
        ensures
            r == *self,
    {
        StoredEntry {
            id: self.id,
            source_id: self.source_id,
            guid: clone_opt(&self.guid),
            link: self.link.clone(),
            title: self.title.clone(),
            translated_title: clone_opt(&self.translated_title),
            summary: clone_opt(&self.summary),
            content: clone_opt(&self.content),
            published_at: clone_opt(&self.published_at),
            is_read: self.is_read,
            is_starred: self.is_starred,
            created_at: self.created_at.clone(),
        }
    }
}

/// The place of the entry of the source `source_id` with the link `link`
/// among `rows`, if there is one.
pub open spec fn entry_by_link(rows: Seq<StoredEntry>, source_id: i64, link: Seq<char>) -> Option<
    int,
>
    decreases rows.len(),
{
    if rows.len() == 0 {
        None
    } else if rows.last().source_id == source_id && rows.last().link@ == link {
        Some(rows.len() - 1)
    } else {
        entry_by_link(rows.drop_last(), source_id, link)
    }
}

/// The place of the entry with the id `id` among `rows`, if there is one.
pub open spec fn entry_by_id(rows: Seq<StoredEntry>, id: i64) -> Option<int>
    decreases rows.len(),
{
    if rows.len() == 0 {
        None
    } else if rows.last().id == id {
        Some(rows.len() - 1)
    } else {
        entry_by_id(rows.drop_last(), id)
    }
}

/// No two of `rows` share source and link; the rows stand in the order of
/// their ids, and every id is above zero and below `next_id`.
pub open spec fn entries_hold(rows: Seq<StoredEntry>, next_id: i64) -> bool {
    &&& forall|i: int, j: int|
        0 <= i < j < rows.len() ==> !((#[trigger] rows[i]).source_id == (#[trigger] rows[j]).source_id
            && rows[i].link@ == rows[j].link@)
    &&& forall|i: int, j: int|
        0 <= i < j < rows.len() ==> (#[trigger] rows[i]).id < (#[trigger] rows[j]).id
    &&& forall|i: int| 0 <= i < rows.len() ==> 0 < (#[trigger] rows[i]).id < next_id
}

/// Every entry belongs to a source that is stored.
pub open spec fn entries_are_owned(entries: Seq<StoredEntry>, sources: Seq<SourceRecord>) -> bool {
    forall|i: int|
        0 <= i < entries.len() ==> source_by_id(sources, (#[trigger] entries[i]).source_id)
            is Some
}

/// The row that a parsed entry makes of `row`: guid, title, summary,
/// content and time of publication are the new ones; id, read and starred
/// flags, translated title and time of creation stay.
pub open spec fn updated_entry(row: StoredEntry, parsed: ParsedEntry) -> StoredEntry {
    StoredEntry {
        guid: Some(parsed.id),
        title: parsed.title,
        summary: parsed.summary,
        content: parsed.content,
        published_at: parsed.published_at,
        ..row
    }
}

/// The row that a parsed entry starts as: unread, not starred, without a
/// translated title.
pub open spec fn created_entry(source_id: i64, parsed: ParsedEntry, id: i64, now: String) -> StoredEntry {
    StoredEntry {
        id,
        source_id,
        guid: Some(parsed.id),
        link: parsed.link,
        title: parsed.title,
        translated_title: None,
        summary: parsed.summary,
        content: parsed.content,
        published_at: parsed.published_at,
        is_read: 0,
        is_starred: 0,
        created_at: now,
    }
}

/// The entries after `parsed` has been upserted for the source
/// `source_id`: the row with its link is updated in place, or a row with
/// the id `id` is added at the end.
pub open spec fn upserted_entry(
    rows: Seq<StoredEntry>,
    source_id: i64,
    parsed: ParsedEntry,
    id: i64,
    now: String,
) -> Seq<StoredEntry> {
    match entry_by_link(rows, source_id, parsed.link@) {
        Some(at) => rows.update(at, updated_entry(rows[at], parsed)),
        None => rows.push(created_entry(source_id, parsed, id, now)),
    }
}

/// The id that is next after `parsed` has been upserted.
pub open spec fn next_after_upsert(
    rows: Seq<StoredEntry>,
    source_id: i64,
    parsed: ParsedEntry,
    id: i64,
) -> i64 {
    match entry_by_link(rows, source_id, parsed.link@) {
        Some(_) => id,
        None => (id + 1) as i64,
    }
}

/// The entries, and the id that is next, after each of `parsed` has been
/// upserted in turn for the source `source_id`.
pub open spec fn upserted_entries(
    rows: Seq<StoredEntry>,
    next_id: i64,
    source_id: i64,
    parsed: Seq<ParsedEntry>,
    now: String,
) -> (Seq<StoredEntry>, i64)
    decreases parsed.len(),
{
    if parsed.len() == 0 {
        (rows, next_id)
    } else {
        let before = upserted_entries(rows, next_id, source_id, parsed.drop_last(), now);
        (
            upserted_entry(before.0, source_id, parsed.last(), before.1, now),
            next_after_upsert(before.0, source_id, parsed.last(), before.1),
        )
    }
}

/// A place found by source and link holds a row with both; where none is
/// found, no row has them.
pub proof fn lemma_entry_by_link(rows: Seq<StoredEntry>, source_id: i64, link: Seq<char>)
    ensures
        match entry_by_link(rows, source_id, link) {
            Some(at) => 0 <= at < rows.len() && rows[at].source_id == source_id && rows[at].link@
                == link,
            None => forall|i: int|
                0 <= i < rows.len() ==> !((#[trigger] rows[i]).source_id == source_id
                    && rows[i].link@ == link),
        },
    decreases rows.len(),
{
    if rows.len() > 0 && !(rows.last().source_id == source_id && rows.last().link@ == link) {
        lemma_entry_by_link(rows.drop_last(), source_id, link);
        if entry_by_link(rows, source_id, link) is None {
            assert forall|i: int| 0 <= i < rows.len() implies !((#[trigger] rows[i]).source_id
                == source_id && rows[i].link@ == link) by {
                if i < rows.len() - 1 {
                    assert(rows.drop_last()[i] == rows[i]);
                }
            }
        }
    }
}

/// A place found by id holds a row with that id; where none is found, no
/// row has it.
pub proof fn lemma_entry_by_id(rows: Seq<StoredEntry>, id: i64)
    ensures
        match entry_by_id(rows, id) {
            Some(at) => 0 <= at < rows.len() && rows[at].id == id,
            None => forall|i: int| 0 <= i < rows.len() ==> (#[trigger] rows[i]).id != id,
        },
    decreases rows.len(),
{
    if rows.len() > 0 && rows.last().id != id {
        lemma_entry_by_id(rows.drop_last(), id);
        if entry_by_id(rows, id) is None {
            assert forall|i: int| 0 <= i < rows.len() implies (#[trigger] rows[i]).id != id by {
                if i < rows.len() - 1 {
                    assert(rows.drop_last()[i] == rows[i]);
                }
            }
        }
    }
}

/// Where the rows hold together, the place found for the source and link
/// of a row is that row's.
pub proof fn lemma_entry_place_is_unique(rows: Seq<StoredEntry>, next_id: i64, at: int)
    requires
        entries_hold(rows, next_id),
        0 <= at < rows.len(),
    ensures
        entry_by_link(rows, rows[at].source_id, rows[at].link@) == Some(at),
{
    lemma_entry_by_link(rows, rows[at].source_id, rows[at].link@);
    let found = entry_by_link(rows, rows[at].source_id, rows[at].link@);
    assert(found is Some);
    let f = found->Some_0;
    if f < at {
        assert(!(rows[f].source_id == rows[at].source_id && rows[f].link@ == rows[at].link@));
    } else if at < f {
        assert(!(rows[at].source_id == rows[f].source_id && rows[at].link@ == rows[f].link@));
    }
}

/// Upserting an entry keeps the entries together.
pub proof fn lemma_upsert_keeps_entries(
    rows: Seq<StoredEntry>,
    next_id: i64,
    source_id: i64,
    parsed: ParsedEntry,
    now: String,
)
    requires
        entries_hold(rows, next_id),
        0 < next_id < i64::MAX,
    ensures
        entries_hold(
            upserted_entry(rows, source_id, parsed, next_id, now),
            next_after_upsert(rows, source_id, parsed, next_id),
        ),
        next_id <= next_after_upsert(rows, source_id, parsed, next_id) <= next_id + 1,
{
    lemma_entry_by_link(rows, source_id, parsed.link@);
    let after = upserted_entry(rows, source_id, parsed, next_id, now);
    let next = next_after_upsert(rows, source_id, parsed, next_id);
    match entry_by_link(rows, source_id, parsed.link@) {
        Some(at) => {
            assert forall|i: int, j: int| 0 <= i < j < after.len() implies !((
            #[trigger] after[i]).source_id == (#[trigger] after[j]).source_id && after[i].link@
                == after[j].link@) by {
                assert(after[i].source_id == rows[i].source_id && after[i].link == rows[i].link);
                assert(after[j].source_id == rows[j].source_id && after[j].link == rows[j].link);
            }
            assert forall|i: int, j: int| 0 <= i < j < after.len() implies (#[trigger] after[i]).id
                < (#[trigger] after[j]).id by {
                assert(after[i].id == rows[i].id);
                assert(after[j].id == rows[j].id);
            }
            assert forall|i: int| 0 <= i < after.len() implies 0 < (#[trigger] after[i]).id
                < next by {
                assert(after[i].id == rows[i].id);
            }
        },
        None => {
            assert forall|i: int, j: int| 0 <= i < j < after.len() implies !((
            #[trigger] after[i]).source_id == (#[trigger] after[j]).source_id && after[i].link@
                == after[j].link@) by {
                if j < rows.len() {
                    assert(after[i] == rows[i] && after[j] == rows[j]);
                } else {
                    assert(after[i] == rows[i]);
                }
            }
            assert forall|i: int, j: int| 0 <= i < j < after.len() implies (#[trigger] after[i]).id
                < (#[trigger] after[j]).id by {
                if j < rows.len() {
                    assert(after[i] == rows[i] && after[j] == rows[j]);
                } else {
                    assert(after[i] == rows[i]);
                }
            }
            assert forall|i: int| 0 <= i < after.len() implies 0 < (#[trigger] after[i]).id
                < next by {
                if i < rows.len() {
                    assert(after[i] == rows[i]);
                }
            }
        },
    }
}

/// Upserting twice under one source and link leaves one entry for them,
/// with the second title; whether it is read or starred, its id and its
/// time of creation are what they were after the first upsert, whatever was
/// done to the flags in between.
pub proof fn lemma_upsert_entry_is_idempotent(
    rows: Seq<StoredEntry>,
    next_id: i64,
    source_id: i64,
    second: ParsedEntry,
    now: String,
    at: int,
)
    requires
        entries_hold(rows, next_id),
        0 <= at < rows.len(),
        rows[at].source_id == source_id,
        rows[at].link@ == second.link@,
    ensures
        ({
            let after = upserted_entry(rows, source_id, second, next_id, now);
            &&& after.len() == rows.len()
            &&& entry_by_link(after, source_id, second.link@) == Some(at)
            &&& after[at].title == second.title
            &&& after[at].is_read == rows[at].is_read
            &&& after[at].is_starred == rows[at].is_starred
            &&& after[at].id == rows[at].id
            &&& after[at].created_at == rows[at].created_at
            &&& forall|i: int| 0 <= i < after.len() && i != at ==> #[trigger] after[i] == rows[i]
            &&& next_after_upsert(rows, source_id, second, next_id) == next_id
        }),
{
    lemma_entry_place_is_unique(rows, next_id, at);
    let after = upserted_entry(rows, source_id, second, next_id, now);
    assert(after == rows.update(at, updated_entry(rows[at], second)));
    assert forall|i: int, j: int| 0 <= i < j < after.len() implies !((
    #[trigger] after[i]).source_id == (#[trigger] after[j]).source_id && after[i].link@
        == after[j].link@) by {
        assert(after[i].source_id == rows[i].source_id && after[i].link == rows[i].link);
        assert(after[j].source_id == rows[j].source_id && after[j].link == rows[j].link);
    }
    assert forall|i: int, j: int| 0 <= i < j < after.len() implies (#[trigger] after[i]).id < (
    #[trigger] after[j]).id by {
        assert(after[i].id == rows[i].id);
        assert(after[j].id == rows[j].id);
    }
    assert forall|i: int| 0 <= i < after.len() implies 0 < (#[trigger] after[i]).id < next_id by {
        assert(after[i].id == rows[i].id);
    }
    lemma_entry_place_is_unique(after, next_id, at);
}

/// A first upsert under a source and link adds exactly one entry, unread
/// and not starred, and finds it again.
pub proof fn lemma_first_upsert_adds_one_entry(
    rows: Seq<StoredEntry>,
    next_id: i64,
    source_id: i64,
    first: ParsedEntry,
    now: String,
)
    requires
        entries_hold(rows, next_id),
        0 < next_id < i64::MAX,
        entry_by_link(rows, source_id, first.link@) is None,
    ensures
        ({
            let after = upserted_entry(rows, source_id, first, next_id, now);
            &&& after.len() == rows.len() + 1
            &&& entry_by_link(after, source_id, first.link@) == Some(rows.len() as int)
            &&& after[rows.len() as int].title == first.title
            &&& after[rows.len() as int].is_read == 0
            &&& after[rows.len() as int].is_starred == 0
        }),
{
    lemma_upsert_keeps_entries(rows, next_id, source_id, first, now);
    let after = upserted_entry(rows, source_id, first, next_id, now);
    lemma_entry_place_is_unique(after, (next_id + 1) as i64, rows.len() as int);
}

/// A generated text in the cache, under its key.
#[derive(Debug)]
pub struct CacheRow {
    pub task_type: String,
    pub model: String,
    pub input_hash: String,
    pub output: String,
}

/// A setting: a name and its value.
#[derive(Debug)]
pub struct SettingRow {
    pub key: String,
    pub value: String,
}

/// The place of the text cached under the key, if there is one.
pub open spec fn cached_at(
    rows: Seq<CacheRow>,
    task_type: Seq<char>,
    model: Seq<char>,
    input_hash: Seq<char>,
) -> Option<int>
    decreases rows.len(),
{
    if rows.len() == 0 {
        None
    } else if rows.last().task_type@ == task_type && rows.last().model@ == model
        && rows.last().input_hash@ == input_hash {
        Some(rows.len() - 1)
    } else {
        cached_at(rows.drop_last(), task_type, model, input_hash)
    }
}

/// The place of the setting named `key`, if there is one.
pub open spec fn setting_at(rows: Seq<SettingRow>, key: Seq<char>) -> Option<int>
    decreases rows.len(),
{
    if rows.len() == 0 {
        None
    } else if rows.last().key@ == key {
        Some(rows.len() - 1)
    } else {
        setting_at(rows.drop_last(), key)
    }
}

/// The entries without those of the source `source_id`.
pub open spec fn without_source(rows: Seq<StoredEntry>, source_id: i64) -> Seq<StoredEntry>
    decreases rows.len(),
{
    if rows.len() == 0 {
        Seq::empty()
    } else if rows.last().source_id == source_id {
        without_source(rows.drop_last(), source_id)
    } else {
        without_source(rows.drop_last(), source_id).push(rows.last())
    }
}

/// What is left of the entries is in the order it was in, and holds
/// together.
pub proof fn lemma_without_source(rows: Seq<StoredEntry>, next_id: i64, source_id: i64)
    requires
        entries_hold(rows, next_id),
    ensures
        entries_hold(without_source(rows, source_id), next_id),
        forall|i: int|
            0 <= i < without_source(rows, source_id).len() ==> (#[trigger] without_source(
                rows,
                source_id,
            )[i]).source_id != source_id && rows.contains(without_source(rows, source_id)[i]),
        forall|i: int|
            0 <= i < without_source(rows, source_id).len() && rows.len() > 0 ==> (
            #[trigger] without_source(rows, source_id)[i]).id <= rows.last().id,
    decreases rows.len(),
{
    let out = without_source(rows, source_id);
    if rows.len() > 0 {
        let rest = rows.drop_last();
        assert(entries_hold(rest, next_id)) by {
            assert forall|i: int, j: int| 0 <= i < j < rest.len() implies !((
            #[trigger] rest[i]).source_id == (#[trigger] rest[j]).source_id && rest[i].link@
                == rest[j].link@) by {
                assert(rest[i] == rows[i] && rest[j] == rows[j]);
            }
            assert forall|i: int, j: int| 0 <= i < j < rest.len() implies (#[trigger] rest[i]).id
                < (#[trigger] rest[j]).id by {
                assert(rest[i] == rows[i] && rest[j] == rows[j]);
            }
            assert forall|i: int| 0 <= i < rest.len() implies 0 < (#[trigger] rest[i]).id
                < next_id by {
                assert(rest[i] == rows[i]);
            }
        }
        lemma_without_source(rest, next_id, source_id);
        let before = without_source(rest, source_id);
        assert forall|i: int| 0 <= i < before.len() implies (#[trigger] before[i]).id
            < rows.last().id && rows.contains(before[i]) && !(before[i].source_id
            == rows.last().source_id && before[i].link@ == rows.last().link@) by {
            assert(rest.contains(before[i]));
            let k = choose|k: int| 0 <= k < rest.len() && rest[k] == before[i];
            assert(rows[k] == before[i]);
            assert(rows[k].id < rows[rows.len() - 1].id);
            assert(!(rows[k].source_id == rows[rows.len() - 1].source_id && rows[k].link@
                == rows[rows.len() - 1].link@));
        }
        assert forall|i: int| 0 <= i < out.len() implies (#[trigger] out[i]).source_id != source_id
            && rows.contains(out[i]) by {
            if i < before.len() {
                assert(out[i] == before[i]);
            } else {
                assert(rows[rows.len() - 1] == out[i]);
            }
        }
        assert forall|i: int, j: int| 0 <= i < j < out.len() implies !((#[trigger] out[i]).source_id
            == (#[trigger] out[j]).source_id && out[i].link@ == out[j].link@) by {
            if j < before.len() {
                assert(out[i] == before[i] && out[j] == before[j]);
            } else {
                assert(out[i] == before[i]);
            }
        }
        assert forall|i: int, j: int| 0 <= i < j < out.len() implies (#[trigger] out[i]).id < (
        #[trigger] out[j]).id by {
            if j < before.len() {
                assert(out[i] == before[i] && out[j] == before[j]);
            } else {
                assert(out[i] == before[i]);
            }
        }
        assert forall|i: int| 0 <= i < out.len() implies 0 < (#[trigger] out[i]).id < next_id by {
            if i < before.len() {
                assert(out[i] == before[i]);
            } else {
                assert(out[i] == rows[rows.len() - 1]);
            }
        }
        assert forall|i: int| 0 <= i < out.len() implies (#[trigger] out[i]).id
            <= rows.last().id by {
            if i < before.len() {
                assert(out[i] == before[i]);
            }
        }
    }
}

/// Taking a row out keeps the sources together, and the ids that are left
/// are found where they were, one place lower past the gap.
pub proof fn lemma_remove_source(rows: Seq<SourceRecord>, next_id: i64, at: int, id: i64)
    requires
        sources_hold(rows, next_id),
        0 <= at < rows.len(),
    ensures
        sources_hold(rows.remove(at), next_id),
        id != rows[at].id ==> (source_by_id(rows.remove(at), id) is Some <==> source_by_id(rows, id)
            is Some),
        source_by_id(rows.remove(at), rows[at].id) is None,
{
    let after = rows.remove(at);
    assert forall|i: int| 0 <= i < after.len() implies #[trigger] after[i] == rows[if i < at {
        i
    } else {
        i + 1
    }] by {}
    assert forall|i: int, j: int| 0 <= i < j < after.len() implies (#[trigger] after[i]).feed_url@
        != (#[trigger] after[j]).feed_url@ by {
        let a = if i < at { i } else { i + 1 };
        let b = if j < at { j } else { j + 1 };
        assert(rows[a].feed_url@ != rows[b].feed_url@);
    }
    assert forall|i: int, j: int| 0 <= i < j < after.len() implies (#[trigger] after[i]).id < (
    #[trigger] after[j]).id by {
        let a = if i < at { i } else { i + 1 };
        let b = if j < at { j } else { j + 1 };
        assert(rows[a].id < rows[b].id);
    }
    assert forall|i: int| 0 <= i < after.len() implies 0 < (#[trigger] after[i]).id < next_id by {
        let a = if i < at { i } else { i + 1 };
        assert(0 < rows[a].id < next_id);
    }
    lemma_source_by_id(rows, id);
    lemma_source_by_id(after, id);
    if source_by_id(rows, id) is Some && id != rows[at].id {
        let k = source_by_id(rows, id)->Some_0;
        let m = if k < at { k } else { k - 1 };
        assert(after[m] == rows[k]);
    }
    if source_by_id(after, id) is Some {
        let m = source_by_id(after, id)->Some_0;
        let k = if m < at { m } else { m + 1 };
        assert(rows[k].id == id);
    }
    let gone = rows[at].id;
    lemma_source_by_id(after, gone);
    if source_by_id(after, gone) is Some {
        let m = source_by_id(after, gone)->Some_0;
        let k = if m < at { m } else { m + 1 };
        assert(after[m] == rows[k]);
        if k < at {
            assert(rows[k].id < rows[at].id);
        } else {
            assert(rows[at].id < rows[k].id);
        }
    }
}

/// Rows that keep their ids own the same entries.
pub proof fn lemma_same_ids_own(
    before: Seq<SourceRecord>,
    after: Seq<SourceRecord>,
    entries: Seq<StoredEntry>,
)
    requires
        entries_are_owned(entries, before),
        before.len() <= after.len(),
        forall|i: int| 0 <= i < before.len() ==> (#[trigger] after[i]).id == before[i].id,
    ensures
        entries_are_owned(entries, after),
{
    assert forall|i: int| 0 <= i < entries.len() implies source_by_id(
        after,
        (#[trigger] entries[i]).source_id,
    ) is Some by {
        let id = entries[i].source_id;
        lemma_source_by_id(before, id);
        lemma_source_by_id(after, id);
        let k = source_by_id(before, id)->Some_0;
        assert(after[k].id == id);
    }
}

/// Changing the source with an id changes the row at its place and no
/// other; without such a source nothing changes.
pub proof fn lemma_changed_is_update(
    rows: Seq<SourceRecord>,
    next_id: i64,
    id: i64,
    change: spec_fn(SourceRecord) -> SourceRecord,
)
    requires
        sources_hold(rows, next_id),
    ensures
        with_source_changed(rows, id, change) == match source_by_id(rows, id) {
            Some(at) => rows.update(at, change(rows[at])),
            None => rows,
        },
{
    lemma_source_by_id(rows, id);
    let target = with_source_changed(rows, id, change);
    match source_by_id(rows, id) {
        Some(at) => {
            assert forall|k: int| 0 <= k < rows.len() implies #[trigger] target[k] == rows.update(
                at,
                change(rows[at]),
            )[k] by {
                if k != at && rows[k].id == id {
                    lemma_source_place_is_unique(rows, next_id, k);
                }
            }
            assert(target =~= rows.update(at, change(rows[at])));
        },
        None => {
            assert(target =~= rows);
        },
    }
}

/// The active sources among the first `count` rows are the first of the
/// active sources among all rows.
pub proof fn lemma_active_prefix(rows: Seq<SourceRecord>, count: int)
    requires
        0 <= count <= rows.len(),
    ensures
        active_sources(rows.take(count)).is_prefix_of(active_sources(rows)),
    decreases rows.len() - count,
{
    if count == rows.len() {
        assert(rows.take(count) =~= rows);
    } else {
        lemma_active_prefix(rows, count + 1);
        let more = rows.take(count + 1);
        assert(more.drop_last() =~= rows.take(count));
    }
}

/// Changing entries without touching id, source or link keeps them
/// together and with their sources.
pub proof fn lemma_same_entry_keys_hold(
    before: Seq<StoredEntry>,
    after: Seq<StoredEntry>,
    next_id: i64,
    sources: Seq<SourceRecord>,
)
    requires
        entries_hold(before, next_id),
        entries_are_owned(before, sources),
        after.len() == before.len(),
        forall|i: int|
            0 <= i < before.len() ==> (#[trigger] after[i]).id == before[i].id
                && after[i].source_id == before[i].source_id && after[i].link == before[i].link,
    ensures
        entries_hold(after, next_id),
        entries_are_owned(after, sources),
{
    assert forall|i: int, j: int| 0 <= i < j < after.len() implies !((#[trigger] after[i]).source_id
        == (#[trigger] after[j]).source_id && after[i].link@ == after[j].link@) by {
        assert(!(before[i].source_id == before[j].source_id && before[i].link@ == before[j].link@));
    }
    assert forall|i: int, j: int| 0 <= i < j < after.len() implies (#[trigger] after[i]).id < (
    #[trigger] after[j]).id by {
        assert(before[i].id < before[j].id);
    }
    assert forall|i: int| 0 <= i < after.len() implies 0 < (#[trigger] after[i]).id < next_id by {
        assert(0 < before[i].id < next_id);
    }
    assert forall|i: int| 0 <= i < after.len() implies source_by_id(
        sources,
        (#[trigger] after[i]).source_id,
    ) is Some by {
        assert(source_by_id(sources, before[i].source_id) is Some);
    }
}

/// Finds the place of the entry of the source `source_id` with the link
/// `link`.
pub fn find_entry_by_link(rows: &Vec<StoredEntry>, source_id: i64, link: &str) -> (r: Option<usize>)
    ensures
        match r {
            Some(at) => entry_by_link(rows@, source_id, link@) == Some(at as int),
            None => entry_by_link(rows@, source_id, link@) is None,
        },
{
    let mut i: usize = rows.len();
    assert(rows@.take(i as int) =~= rows@);
    while i > 0
        invariant
            i <= rows.len(),
            entry_by_link(rows@, source_id, link@) == entry_by_link(
                rows@.take(i as int),
                source_id,
                link@,
            ),
        decreases i,
    {
        assert(rows@.take(i as int).last() == rows@[i - 1]);
        if rows[i - 1].source_id == source_id && str_eq(rows[i - 1].link.as_str(), link) {
            return Some(i - 1);
        }
        assert(rows@.take(i as int).drop_last() =~= rows@.take(i - 1));
        i -= 1;
    }
    None
}

/// Finds the place of the entry with the id `id`.
pub fn find_entry_by_id(rows: &Vec<StoredEntry>, id: i64) -> (r: Option<usize>)
    ensures
        match r {
            Some(at) => entry_by_id(rows@, id) == Some(at as int),
            None => entry_by_id(rows@, id) is None,
        },
{
    let mut i: usize = rows.len();
    assert(rows@.take(i as int) =~= rows@);
    while i > 0
        invariant
            i <= rows.len(),
            entry_by_id(rows@, id) == entry_by_id(rows@.take(i as int), id),
        decreases i,
    {
        assert(rows@.take(i as int).last() == rows@[i - 1]);
        if rows[i - 1].id == id {
            return Some(i - 1);
        }
        assert(rows@.take(i as int).drop_last() =~= rows@.take(i - 1));
        i -= 1;
    }
    None
}

/// The entries with the one with the id `id` marked as read or unread.
pub open spec fn with_read_flag(rows: Seq<StoredEntry>, id: i64, is_read: bool) -> Seq<StoredEntry> {
    match entry_by_id(rows, id) {
        Some(at) => rows.update(at, StoredEntry { is_read: flag(is_read), ..rows[at] }),
        None => rows,
    }
}

/// The entries with the translated title of the one with the id `id` set.
pub open spec fn with_translated_title(rows: Seq<StoredEntry>, id: i64, text: String) -> Seq<
    StoredEntry,
> {
    match entry_by_id(rows, id) {
        Some(at) => rows.update(at, StoredEntry { translated_title: Some(text), ..rows[at] }),
        None => rows,
    }
}

/// The entries that have no translated title yet, as id and title, in the
/// order of their ids.
pub open spec fn untranslated(rows: Seq<StoredEntry>) -> Seq<EntryTitleRecord>
    decreases rows.len(),
{
    if rows.len() == 0 {
        Seq::empty()
    } else if rows.last().translated_title is None {
        untranslated(rows.drop_last()).push(
            EntryTitleRecord { id: rows.last().id, title: rows.last().title },
        )
    } else {
        untranslated(rows.drop_last())
    }
}

/// The untranslated entries among the first `count` rows are the first of
/// the untranslated entries among all rows.
pub proof fn lemma_untranslated_prefix(rows: Seq<StoredEntry>, count: int)
    requires
        0 <= count <= rows.len(),
    ensures
        untranslated(rows.take(count)).is_prefix_of(untranslated(rows)),
    decreases rows.len() - count,
{
    if count == rows.len() {
        assert(rows.take(count) =~= rows);
    } else {
        lemma_untranslated_prefix(rows, count + 1);
        let more = rows.take(count + 1);
        assert(more.drop_last() =~= rows.take(count));
    }
}

/// The id that is next after `source` has been upserted.
pub open spec fn next_after_source(rows: Seq<SourceRecord>, source: NewSource, id: i64) -> i64 {
    match source_by_url(rows, source.feed_url@) {
        Some(_) => id,
        None => (id + 1) as i64,
    }
}

/// The sources and the id that is next after each of `sources` has been
/// upserted in turn, and whether all of them were taken: the upserts stop
/// at the first source that is new when no id is left.
pub open spec fn upserted_batch(
    rows: Seq<SourceRecord>,
    next_id: i64,
    sources: Seq<NewSource>,
    now: String,
) -> (Seq<SourceRecord>, i64, bool)
    decreases sources.len(),
{
    if sources.len() == 0 {
        (rows, next_id, true)
    } else {
        let before = upserted_batch(rows, next_id, sources.drop_last(), now);
        if !before.2 {
            before
        } else if source_by_url(before.0, sources.last().feed_url@) is None && before.1
            == i64::MAX {
            (before.0, before.1, false)
        } else {
            (
                upserted_sources(before.0, sources.last(), before.1, now),
                next_after_source(before.0, sources.last(), before.1),
                true,
            )
        }
    }
}

impl Clone for CacheRow {
    fn clone(&self) -> (r: Self)
        ensures
            r == *self,
    {
        CacheRow {
            task_type: self.task_type.clone(),
            model: self.model.clone(),
            input_hash: self.input_hash.clone(),
            output: self.output.clone(),
        }
    }
}

impl Clone for SettingRow {
    fn clone(&self) -> (r: Self)
        ensures
            r == *self,
    {
        SettingRow { key: self.key.clone(), value: self.value.clone() }
    }
}

/// The cache after `output` has been put under the key: in place of what
/// was there, or at the end.
pub open spec fn with_cached(rows: Seq<CacheRow>, row: CacheRow) -> Seq<CacheRow> {
    match cached_at(rows, row.task_type@, row.model@, row.input_hash@) {
        Some(at) => rows.update(at, row),
        None => rows.push(row),
    }
}

/// The settings after `value` has been put under `key`: in place of what
/// was there, or at the end.
pub open spec fn with_setting(rows: Seq<SettingRow>, row: SettingRow) -> Seq<SettingRow> {
    match setting_at(rows, row.key@) {
        Some(at) => rows.update(at, row),
        None => rows.push(row),
    }
}

/// A place found in the cache holds a row with the key.
pub proof fn lemma_cached_at(
    rows: Seq<CacheRow>,
    task_type: Seq<char>,
    model: Seq<char>,
    input_hash: Seq<char>,
)
    ensures
        match cached_at(rows, task_type, model, input_hash) {
            Some(at) => 0 <= at < rows.len() && rows[at].task_type@ == task_type && rows[at].model@
                == model && rows[at].input_hash@ == input_hash,
            None => true,
        },
    decreases rows.len(),
{
    if rows.len() > 0 {
        lemma_cached_at(rows.drop_last(), task_type, model, input_hash);
    }
}

/// A place found among the settings holds a row with the name.
pub proof fn lemma_setting_at(rows: Seq<SettingRow>, key: Seq<char>)
    ensures
        match setting_at(rows, key) {
            Some(at) => 0 <= at < rows.len() && rows[at].key@ == key,
            None => true,
        },
    decreases rows.len(),
{
    if rows.len() > 0 {
        lemma_setting_at(rows.drop_last(), key);
    }
}

/// A text that was put under a key is the text found under it.
pub proof fn lemma_cache_returns_what_was_put(rows: Seq<CacheRow>, row: CacheRow)
    ensures
        cached_at(with_cached(rows, row), row.task_type@, row.model@, row.input_hash@) matches Some(
            at,
        ) && with_cached(rows, row)[at] == row,
    decreases rows.len(),
{
    let after = with_cached(rows, row);
    lemma_cached_at(rows, row.task_type@, row.model@, row.input_hash@);
    match cached_at(rows, row.task_type@, row.model@, row.input_hash@) {
        Some(at) => {
            lemma_cache_place_kept(rows, row, at);
        },
        None => {
            assert(after.last() == row);
        },
    }
}

proof fn lemma_cache_place_kept(rows: Seq<CacheRow>, row: CacheRow, at: int)
    requires
        cached_at(rows, row.task_type@, row.model@, row.input_hash@) == Some(at),
        0 <= at < rows.len(),
    ensures
        cached_at(rows.update(at, row), row.task_type@, row.model@, row.input_hash@) == Some(at),
    decreases rows.len(),
{
    let after = rows.update(at, row);
    if at == rows.len() - 1 {
        assert(after.last() == row);
    } else {
        assert(after.last() == rows.last());
        assert(after.drop_last() =~= rows.drop_last().update(at, row));
        lemma_cache_place_kept(rows.drop_last(), row, at);
    }
}

/// Tells whether the rows of a table of sources hold together, with every
/// id below the largest there is.
pub fn sources_are_sound(rows: &Vec<SourceRecord>) -> (r: bool)
    ensures
        r == sources_hold(rows@, i64::MAX),
{
    let mut i: usize = 0;
    while i < rows.len()
        invariant
            i <= rows.len(),
            forall|a: int, b: int|
                0 <= a < b < i ==> (#[trigger] rows@[a]).feed_url@ != (#[trigger] rows@[b]).feed_url@,
            forall|a: int, b: int| 0 <= a < b < i ==> (#[trigger] rows@[a]).id < (#[trigger] rows@[b]).id,
            forall|a: int| 0 <= a < i ==> 0 < (#[trigger] rows@[a]).id < i64::MAX,
        decreases rows.len() - i,
    {
        let id: i64 = rows[i].id;
        if id <= 0 || id == i64::MAX {
            assert(!(0 < rows@[i as int].id < i64::MAX));
            return false;
        }
        if i > 0 && rows[i - 1].id >= id {
            assert(!(rows@[i - 1].id < rows@[i as int].id));
            return false;
        }
        let mut j: usize = 0;
        while j < i
            invariant
                j <= i < rows.len(),
                forall|a: int| 0 <= a < j ==> (#[trigger] rows@[a]).feed_url@ != rows@[i as int].feed_url@,
            decreases i - j,
        {
            if str_eq(rows[j].feed_url.as_str(), rows[i].feed_url.as_str()) {
                assert(rows@[j as int].feed_url@ == rows@[i as int].feed_url@);
                return false;
            }
            j += 1;
        }
        assert forall|a: int, b: int| 0 <= a < b < i + 1 implies (#[trigger] rows@[a]).id < (
        #[trigger] rows@[b]).id by {
            if b == i && a < i - 1 {
                assert(rows@[a].id < rows@[i - 1].id);
            }
        }
        i += 1;
    }
    true
}

/// Tells whether the rows of a table of entries hold together, with every
/// id below the largest there is, and every entry with a source among
/// `sources`.
pub fn entries_are_sound(rows: &Vec<StoredEntry>, sources: &Vec<SourceRecord>) -> (r: bool)
    ensures
        r == (entries_hold(rows@, i64::MAX) && entries_are_owned(rows@, sources@)),
{
    let mut i: usize = 0;
    while i < rows.len()
        invariant
            i <= rows.len(),
            forall|a: int, b: int|
                0 <= a < b < i ==> !((#[trigger] rows@[a]).source_id == (#[trigger] rows@[b]).source_id
                    && rows@[a].link@ == rows@[b].link@),
            forall|a: int, b: int| 0 <= a < b < i ==> (#[trigger] rows@[a]).id < (#[trigger] rows@[b]).id,
            forall|a: int| 0 <= a < i ==> 0 < (#[trigger] rows@[a]).id < i64::MAX,
            forall|a: int|
                0 <= a < i ==> source_by_id(sources@, (#[trigger] rows@[a]).source_id) is Some,
        decreases rows.len() - i,
    {
        let id: i64 = rows[i].id;
        if id <= 0 || id == i64::MAX {
            assert(!(0 < rows@[i as int].id < i64::MAX));
            return false;
        }
        if i > 0 && rows[i - 1].id >= id {
            assert(!(rows@[i - 1].id < rows@[i as int].id));
            return false;
        }
        if find_source_by_id(sources, rows[i].source_id).is_none() {
            assert(source_by_id(sources@, rows@[i as int].source_id) is None);
            return false;
        }
        let mut j: usize = 0;
        while j < i
            invariant
                j <= i < rows.len(),
                forall|a: int|
                    0 <= a < j ==> !((#[trigger] rows@[a]).source_id == rows@[i as int].source_id
                        && rows@[a].link@ == rows@[i as int].link@),
            decreases i - j,
        {
            if rows[j].source_id == rows[i].source_id && str_eq(
                rows[j].link.as_str(),
                rows[i].link.as_str(),
            ) {
                assert(rows@[j as int].source_id == rows@[i as int].source_id && rows@[j as int].link@
                    == rows@[i as int].link@);
                return false;
            }
            j += 1;
        }
        assert forall|a: int, b: int| 0 <= a < b < i + 1 implies (#[trigger] rows@[a]).id < (
        #[trigger] rows@[b]).id by {
            if b == i && a < i - 1 {
                assert(rows@[a].id < rows@[i - 1].id);
            }
        }
        i += 1;
    }
    true
}

/// The id that the row after the last gets: one more than the last id, or
/// 1 in an empty table.
pub open spec fn id_after(last: Option<i64>) -> i64 {
    match last {
        Some(id) => (id + 1) as i64,
        None => 1,
    }
}

/// The id of the last of `rows`.
pub open spec fn last_source_id(rows: Seq<SourceRecord>) -> Option<i64> {
    if rows.len() == 0 {
        None
    } else {
        Some(rows.last().id)
    }
}

/// The id of the last of `rows`.
pub open spec fn last_entry_id(rows: Seq<StoredEntry>) -> Option<i64> {
    if rows.len() == 0 {
        None
    } else {
        Some(rows.last().id)
    }
}

} // verus!
