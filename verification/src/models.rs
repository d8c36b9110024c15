//! Records of the example API: a health payload, an item resource that can be
//! listed, fetched, created and deleted, and the pagination envelope.

use vstd::prelude::*;

verus! {

/// Health/status payload returned by `GET /api/v3/system/status`.
#[derive(Debug, Clone, PartialEq, Eq)]
pub struct SystemStatus {
    /// Application name reported by the server.
    pub app_name: String,
    /// Server version string.
    pub version: String,
}

/// An example resource record.
#[derive(Debug, Clone, PartialEq, Eq)]
pub struct Item {
    /// Server-assigned identifier.
    pub id: i64,
    /// Human-readable name.
    pub name: String,
    /// Whether the item is enabled.
    pub enabled: bool,
}

/// Request body for creating an [`Item`].
#[derive(Debug, Clone, PartialEq, Eq)]
pub struct NewItem {
    /// Name for the new item.
    pub name: String,
    /// Whether the item should start enabled.
    pub enabled: bool,
}

/// A page of records using a common pagination envelope:
/// `{ "page", "pageSize", "totalRecords", "records": [...] }`.
#[derive(Debug, Clone, PartialEq, Eq)]
pub struct Page<T> {
    /// 1-based page index.
    pub page: u32,
    /// Number of records requested per page.
    pub page_size: u32,
    /// Total records available across all pages.
    pub total_records: u32,
    /// The records in this page.
    pub records: Vec<T>,
}

} // verus!
