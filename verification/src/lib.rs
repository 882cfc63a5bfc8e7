//! Feed ingestion core: conditional fetching, feed normalisation, import
//! previews, sync scheduling and cached enrichment, with machine-checked
//! contracts.

pub mod api;
pub mod enrich;
pub mod feed;
pub mod importer;
pub mod json;
pub mod llm;
pub mod services;
pub mod storage;
pub mod subscription;
pub mod sync;
pub mod text;
pub mod titles;
