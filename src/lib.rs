//! An identity-assignment engine for messages: it checks the shape of a
//! message key, and hands out a small, dense identifier for each distinct
//! (key, tenant) pair in the order in which the pairs are first seen.

mod error;
mod key;
mod laws;
mod registry;
mod service;

pub use error::StorageError;
pub use key::{is_well_formed_key, KeyAndTenant, KeyValidator, INVALID_KEY_PREFIX, KEY_PATTERN};
pub use registry::{lemma_index_of_unique, lemma_resolve_step, resolve_step, IdentityRegistry, IdentityView, MessageId};
pub use service::{MessageReply, MessageStorageService};
pub use laws::{lemma_resolve_deterministic, lemma_resolve_unique, lemma_same_identity_requests, outcome, resolve_all};
