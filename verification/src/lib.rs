//! Core of an interactive fuzzy picker widget: a streaming match-engine
//! adapter, versioned injector handles for cross-thread ingestion, a
//! multi-field query parser, a preview cache with content classification,
//! cursor/selection state, and a debounce hook for dynamic queries.
pub mod engine;
pub mod highlight;
pub mod hooks;
pub mod injector;
pub mod picker;
pub mod preview;
pub mod query;
pub mod version;
