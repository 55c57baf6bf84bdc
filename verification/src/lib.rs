//! Transcripts of episodes, ingested from plain-text files and searched.
//!
//! The library holds the rules; storage and transport stay with the caller.
//!
//! - `classifier`: the season, the episode and the title that a file's name gives.
//! - `plan`: from the files of an upload to the episodes and lines to write,
//!   in the order of writing.
//! - `writer`: an ingestion run, request by request, inside one transaction.
//! - `upload`: from the entries of an archive to an ingestion run.
//! - `filter`, `statement`: from the fields of a query to a predicate and to
//!   the text of a statement with bound values.
//! - `context`: the lines round a matching line.
//! - `search`, `transcript`: what a query answers, given what the store returned.
//! - `registry`, `provision`: which storage handle serves which tenant, and how
//!   a tenant comes by its storage.
//! - `dataset`, `memory`: a store in memory, which says what a run counts on
//!   in a store and which the properties of a run are proved against.
//! - `models`, `text`, `decimal`: records, characters and numbers.

pub mod classifier;
pub mod context;
pub mod dataset;
pub mod decimal;
pub mod filter;
pub mod memory;
pub mod models;
pub mod plan;
pub mod provision;
pub mod registry;
pub mod search;
pub mod statement;
pub mod text;
pub mod transcript;
pub mod upload;
pub mod writer;
