//! Verified core of the image-search service: request authorisation,
//! search filters, tag matching, payload decoding, error replies and the
//! decisions taken by the ingestion loops.

pub mod auth;
pub mod text;
pub mod tags;
pub mod error;
pub mod filter;
pub mod payload;
pub mod entity;
pub mod routes;
pub mod ingest;
