//! Core of a content-moderation and versioning engine for a hierarchical
//! document corpus (games, characters, moves). Users submit proposed edits;
//! an authorization-gated workflow approves, rejects, or cancels each
//! proposal; approved proposals are published into a canonical store and
//! reflected in a search index.

pub mod adapters;
pub mod auth_service;
pub mod claims;
pub mod document_service;
pub mod documents;
pub mod file_service;
pub mod handlers;
pub mod hierarchy;
pub mod http_service;
pub mod http_util;
pub mod indexes;
pub mod oauth;
pub mod pojos;
pub mod proposals;
pub mod search_service;
pub mod store;
pub mod strutil;
pub mod upload_service;
pub mod util;
