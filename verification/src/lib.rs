//! A minimal client for a Linux-style package repository: it resolves a
//! repository's metadata index to the primary package listing, parses that
//! listing into package records, falls back to a built-in catalog when the
//! whole cascade fails, and tracks an installed-package ledger.
//!
//! The modules, leaf first: string scanning ([`strs`]), the tag tokenizer
//! ([`xml`]), package value types ([`pkg`]), the name-keyed package store
//! ([`pkgset`]), the index locator ([`locator`]), the primary-listing parser
//! ([`primary`]), configuration ([`config`]), the per-repository fetch
//! cascade with its fallback catalog ([`repo`]), the installed-package
//! store ([`db`]), and the cross-repository aggregator ([`manager`]).

pub mod strs;
pub mod pkg;
pub mod xml;
pub mod locator;
pub mod pkgset;
pub mod primary;
pub mod config;
pub mod repo;
pub mod db;
pub mod manager;
