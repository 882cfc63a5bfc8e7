//! The rows of the store, as the rest of the library sees them.

use vstd::prelude::*;
use crate::feed::types::clone_opt;

verus! {

/// A source as it is handed to the store: keyed by `feed_url`.
#[derive(Debug)]
pub struct NewSource {
    pub title: String,
    pub site_url: Option<String>,
    pub feed_url: String,
    pub category: Option<String>,
    pub is_active: bool,
}

impl Clone for NewSource {
    fn clone(&self) -> (r: Self)
        ensures
            r == *self,
    {
        NewSource {
            title: self.title.clone(),
            site_url: clone_opt(&self.site_url),
            feed_url: self.feed_url.clone(),
            category: clone_opt(&self.category),
            is_active: self.is_active,
        }
    }
}

/// A stored source, with its sync cursor: the validators of the last
/// answer, the number of failures in a row and the time of the last sync.
#[derive(Debug)]
pub struct SourceRecord {
    pub id: i64,
    pub title: String,
    pub site_url: Option<String>,
    pub feed_url: String,
    pub category: Option<String>,
    pub is_active: i64,
    pub failure_count: i64,
    pub etag: Option<String>,
    pub last_modified: Option<String>,
    pub last_synced_at: Option<String>,
    pub created_at: String,
    pub updated_at: String,
}

impl Clone for SourceRecord {
    fn clone(&self) -> (r: Self)
        ensures
            r == *self,
    {
        SourceRecord {
            id: self.id,
            title: self.title.clone(),
            site_url: clone_opt(&self.site_url),
            feed_url: self.feed_url.clone(),
            category: clone_opt(&self.category),
            is_active: self.is_active,
            failure_count: self.failure_count,
            etag: clone_opt(&self.etag),
            last_modified: clone_opt(&self.last_modified),
            last_synced_at: clone_opt(&self.last_synced_at),
            created_at: self.created_at.clone(),
            updated_at: self.updated_at.clone(),
        }
    }
}

/// A stored entry, with the title of the source that owns it.
#[derive(Debug)]
pub struct EntryRecord {
    pub id: i64,
    pub source_id: i64,
    pub source_title: String,
    pub guid: Option<String>,
    pub link: String,
    pub title: String,
    pub translated_title: Option<String>,
    pub summary: Option<String>,
    pub content: Option<String>,
    pub published_at: Option<String>,
    pub is_read: i64,
    pub is_starred: i64,
    pub created_at: String,
}

impl Clone for EntryRecord {
    fn clone(&self) -> (r: Self)
        ensures
            r == *self,
    {
        EntryRecord {
            id: self.id,
            source_id: self.source_id,
            source_title: self.source_title.clone(),
            guid: clone_opt(&self.guid),
            link: self.link.clone(),
            title: self.title.clone(),
            translated_title: clone_opt(&self.translated_title),
            summary: clone_opt(&self.summary),
            content: clone_opt(&self.content),
            published_at: clone_opt(&self.published_at),
            is_read: self.is_read,
            is_starred: self.is_starred,
            created_at: self.created_at.clone(),
        }
    }
}

/// The id and the title of an entry that waits for a translated title.
#[derive(Debug)]
pub struct EntryTitleRecord {
    pub id: i64,
    pub title: String,
}

impl Clone for EntryTitleRecord {
    fn clone(&self) -> (r: Self)
        ensures
            r == *self,
    {
        EntryTitleRecord { id: self.id, title: self.title.clone() }
    }
}

} // verus!
