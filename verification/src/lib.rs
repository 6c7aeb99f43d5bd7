//! A client-side request/response cache and cost ledger for a metered,
//! pay-per-call completion service.
//!
//! The crate holds the orchestration core: cache-key derivation per request
//! category, cache lookup and insert with overwrite-safe backup to a
//! graveyard, billing accumulation tied to cache misses, and reconciliation
//! between the in-memory cache and a remote store keyed by a content hash.
//! Transport, file persistence and the remote database are collaborators
//! driven by the embedding application; this crate supplies the verified
//! state transitions and the data they act on.

pub mod account;
pub mod bill;
pub mod cache;
pub mod graveyard;
pub mod hash;
pub mod models;
pub mod normalize;
pub mod request;
pub mod store;
pub mod text;

pub use account::OpenAIAccount;
pub use bill::Bill;
pub use cache::QueryCache;
pub use graveyard::GraveyardEntry;
pub use models::GptModel;
pub use models::Query;
pub use models::QueryType;
pub use models::Status;
pub use models::Usage;
pub use store::Model;
pub use store::StoreTable;
pub use text::u64_to_string;
