//! A multi-credential pool manager for an upstream OAuth-authenticated
//! service: a durable credential store, a priority-ordered failover state
//! machine, token-refresh bookkeeping, and the admin-facing operations that
//! mutate the pool.
//!
//! The pool keeps credential records (see [`credentials::KiroCredentials`])
//! in a store ordered by priority, hands callers a call context bound to one
//! credential, counts caller-reported failures, disables a credential after
//! three consecutive failures, and re-enables it opportunistically after a
//! cool-down. Everything that computes and decides is verified here; HTTP
//! transport and file persistence live with the embedding program.

pub mod admin;
pub mod clock;
pub mod credentials;
pub mod db;
pub mod machine_id;
pub mod refresh;
pub mod text;
pub mod token_manager;

pub use credentials::is_zero;
pub use credentials::KiroCredentials;
