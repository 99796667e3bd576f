//! Incremental chat-synchronization engine.
//!
//! The library contains the decision logic of a periodic chat monitor:
//! the paginated history fetcher that walks a chat's message history
//! backwards from the newest unseen message to a stored checkpoint, the
//! retry/backoff governor for rate-limited remote calls, the cycle
//! orchestrator that sequences one fetch-persist-analyze-deduplicate
//! round, the cross-chat duplicate-category resolver, and an in-memory
//! store with the idempotent-upsert semantics the engine relies on.
//!
//! All remote I/O (network, database, model inference) lives outside the
//! library; callers drive the state machines here with the events they
//! observe and perform the actions the machines return.

pub mod analysis;
pub mod model;
pub mod orchestrator;
pub mod paginator;
pub mod remote_errors;
pub mod resolver;
pub mod retry;
pub mod store;
pub mod text;
