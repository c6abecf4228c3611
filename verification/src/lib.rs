//! Data access for a versioned, soft-deletable entity with per-language
//! translations: pagination, version-gated writes, reconciliation of
//! translations and a stable classification of storage failures.
//!
//! The modules, from the leaves to the root:
//!
//! - [`text`]: small operations on text.
//! - [`error`]: the errors that a caller gets to see.
//! - [`classify`]: from failures of the store to those errors.
//! - [`validation`]: from failed validation rules to those errors.
//! - [`translation`]: the rule that keeps languages and ordinals unique.
//! - [`page`], [`seek`]: requests for and answers to the two kinds of listing.
//! - [`keyset`]: the order behind seek pagination, and what follows from it.
//! - [`model`]: the sample as requests and answers see it.
//! - [`reconcile`]: how stored translations are made to match desired ones.
//! - [`repository`]: the statements of the store, over a table in memory.
//! - [`service`]: the operations, each made of statements that hold together.
//! - [`request`], [`api`]: what a request must bring along, and the answers.

pub mod api;
pub mod classify;
pub mod error;
pub mod keyset;
pub mod model;
pub mod page;
pub mod reconcile;
pub mod repository;
pub mod request;
pub mod seek;
pub mod service;
pub mod text;
pub mod translation;
pub mod validation;
