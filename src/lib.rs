//! Access control for delegated signing: an owner-curated set of approved
//! code hashes, a registry of workers keyed by account, and a gate that lets a
//! worker request a signature only while its declared code hash is approved.

mod contract;
mod laws;
mod state;

pub use contract::{Contract, KEY_VERSION, SignRequest, Worker};
pub use laws::{
    lemma_approve_idempotent, lemma_last_registration_wins, lemma_non_owner_cannot_approve,
    lemma_signature_gate, lemma_unregistered_not_found,
};
pub use state::{Call, ProxyError, ProxyState};
