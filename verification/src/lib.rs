//! Export engine for a cursor-paginated helpdesk REST API.
//!
//! The crate holds the decisions of the export: how a request is addressed and
//! authorised, how a page of results is validated and followed to the next one,
//! how pages are flattened into one collection, and how a record is enriched
//! with a secondary document under rate-limit backoff. Sending a request is
//! left to the caller, who hands every answer back as a plain value.

pub mod client;
pub mod collect;
pub mod document;
pub mod enrich;
pub mod error;
pub mod pages;

pub use client::{ApiClient, HttpRequest};
pub use collect::Collector;
pub use enrich::{EnrichStep, Enricher};
pub use error::{ApiError, HttpFailure};
pub use json::JsonValue;
pub use pages::{TicketIterator, ZendeskPageIterator};
