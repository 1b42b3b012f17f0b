//! Build orchestration for per-workspace package environments.

pub mod cave;
pub mod cli;
pub mod config;
pub mod course;
pub mod deps;
pub mod digest;
pub mod documents;
pub mod enter;
pub mod error;
pub mod exports;
pub mod extractor;
pub mod fetcher;
pub mod fingerprint;
pub mod graph;
pub mod inspect;
pub mod listing;
pub mod markup;
pub mod netcache;
pub mod order;
pub mod paths;
pub mod pattern;
pub mod pipeline;
pub mod platform;
pub mod query;
pub mod recipe;
pub mod records;
pub mod repository;
pub mod resolve;
pub mod resolver;
pub mod sandbox;
pub mod schedule;
pub mod selector;
pub mod settings;
pub mod store;
pub mod text;
pub mod textmap;
pub mod version;
pub mod wildcard;
