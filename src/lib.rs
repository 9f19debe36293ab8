//! A text-to-speech dispatcher: a provider catalog, the fallback order in
//! which providers are tried, the interpretation of each backend's output,
//! and a content-addressed key for cached audio.
pub mod adapters;
pub mod cache;
pub mod config;
pub mod error;
pub mod fallback;
pub mod providers;
