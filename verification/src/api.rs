//! What the front end is handed: rows with their flags as booleans, and
//! the small decisions made on the way to a command's answer.

use vstd::prelude::*;
use crate::llm::{config_fault, validate_config, LlmConfig};
use crate::storage::models::{EntryRecord, SourceRecord};
use crate::text::{concat3, is_blank, str_is_blank};

verus! {

/// A source as the front end sees it.
#[derive(Debug)]
pub struct SourceDto {
    pub id: i64,
    pub title: String,
    pub site_url: Option<String>,
    pub feed_url: String,
    pub category: Option<String>,
    pub is_active: bool,
    pub failure_count: i64,
    pub etag: Option<String>,
    pub last_modified: Option<String>,
    pub last_synced_at: Option<String>,
    pub created_at: String,
    pub updated_at: String,
}

/// An entry as the front end sees it.
#[derive(Debug)]
pub struct EntryDto {
    pub id: i64,
    pub source_id: i64,
    pub source_title: String,
    pub guid: Option<String>,
    pub link: String,
    pub title: String,
    pub translated_title: Option<String>,
    pub summary: Option<String>,
    pub content: Option<String>,
    pub published_at: Option<String>,
    pub is_read: bool,
    pub is_starred: bool,
    pub created_at: String,
}

/// Turns a stored source into what the front end sees: the source is
/// active exactly when its flag is 1; everything else is as stored.
pub fn source_to_dto(source: SourceRecord) -> (r: SourceDto)
    ensures
        r == (SourceDto {
            id: source.id,
            title: source.title,
            site_url: source.site_url,
            feed_url: source.feed_url,
            category: source.category,
            is_active: source.is_active == 1,
            failure_count: source.failure_count,
            etag: source.etag,
            last_modified: source.last_modified,
            last_synced_at: source.last_synced_at,
            created_at: source.created_at,
            updated_at: source.updated_at,
        }),
{
    SourceDto {
        id: source.id,
        title: source.title,
        site_url: source.site_url,
        feed_url: source.feed_url,
        category: source.category,
        is_active: source.is_active == 1,
        failure_count: source.failure_count,
        etag: source.etag,
        last_modified: source.last_modified,
        last_synced_at: source.last_synced_at,
        created_at: source.created_at,
        updated_at: source.updated_at,
    }
}

/// Turns a stored entry into what the front end sees: the entry is read,
/// or starred, exactly when the flag is 1; everything else is as stored.
pub fn entry_to_dto(entry: EntryRecord) -> (r: EntryDto)
    ensures
        r == (EntryDto {
            id: entry.id,
            source_id: entry.source_id,
            source_title: entry.source_title,
            guid: entry.guid,
            link: entry.link,
            title: entry.title,
            translated_title: entry.translated_title,
            summary: entry.summary,
            content: entry.content,
            published_at: entry.published_at,
            is_read: entry.is_read == 1,
            is_starred: entry.is_starred == 1,
            created_at: entry.created_at,
        }),
{
    EntryDto {
        id: entry.id,
        source_id: entry.source_id,
        source_title: entry.source_title,
        guid: entry.guid,
        link: entry.link,
        title: entry.title,
        translated_title: entry.translated_title,
        summary: entry.summary,
        content: entry.content,
        published_at: entry.published_at,
        is_read: entry.is_read == 1,
        is_starred: entry.is_starred == 1,
        created_at: entry.created_at,
    }
}

/// The URL under which the database file at `path` is opened, created
/// where it is missing.
pub fn to_sqlite_url(path: &str) -> (r: String)
    ensures
        r@ == "sqlite://"@ + path@ + "?mode=rwc"@,
{
    concat3("sqlite://", path, "?mode=rwc")
}

/// The timeout of a configuration that comes from the environment, in
/// seconds.
pub const ENV_LLM_TIMEOUT_SECS: u64 = 30;

/// The configuration that the environment gives: none where base URL, API
/// key or model is blank.
pub fn env_llm_config(base_url: String, api_key: String, model: String) -> (r: Option<LlmConfig>)
    ensures
        r == if is_blank(base_url@) || is_blank(api_key@) || is_blank(model@) {
            None
        } else {
            Some(LlmConfig { base_url, api_key, model, timeout_secs: 30 })
        },
{
    if str_is_blank(base_url.as_str()) || str_is_blank(api_key.as_str()) || str_is_blank(
        model.as_str(),
    ) {
        return None;
    }
    Some(LlmConfig { base_url, api_key, model, timeout_secs: ENV_LLM_TIMEOUT_SECS })
}

/// The configuration a call is made with: the one provided, else the one
/// on record, and either only where it is valid.
pub fn resolve_llm_config(provided: Option<LlmConfig>, on_record: Option<LlmConfig>) -> (r: Result<
    LlmConfig,
    String,
>)
    ensures
        ({
            let chosen = match provided {
                Some(_) => provided,
                None => on_record,
            };
            match chosen {
                None => r matches Err(m) && m@ == "llm config is missing"@,
                Some(config) => match config_fault(config) {
                    None => r == Ok::<LlmConfig, String>(config),
                    Some(fault) => r matches Err(m) && m@ == "invalid llm config: "@ + fault,
                },
            }
        }),
{
    let chosen = match provided {
        Some(c) => Some(c),
        None => on_record,
    };
    match chosen {
        None => Err("llm config is missing".to_owned()),
        Some(config) => match validate_config(&config) {
            Ok(_) => Ok(config),
            Err(e) => Err(e.message()),
        },
    }
}

} // verus!
