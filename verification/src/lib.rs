//! A verified core for a user-entity CRUD service over a document store.
//!
//! The crate models a document collection (schema-flexible records addressed
//! by a store-assigned identifier) and layers on top of it a generic read
//! service, a generic CRUD service with a touch-the-timestamp write policy,
//! and a concrete user service with entity validation.  Every operation
//! carries a contract describing exactly which documents it reads, writes or
//! removes, and a tagged error union says exactly on which inputs each error
//! is produced.

pub mod base_service;
pub mod config;
pub mod crud_service;
pub mod document;
pub mod error;
pub mod object_id;
pub mod store;
pub mod user_model;
pub mod user_service;
