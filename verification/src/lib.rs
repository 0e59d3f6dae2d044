//! Hierarchical authority and revocation registry.
//!
//! A two-tier hierarchy of privileged identities (system managers and
//! organizations) with level-based approval and revocation, a permanent
//! revoked registry per category, and a best-effort JSON metadata
//! augmentation that stamps a revocation reason onto the retired record.

mod codec;
mod record;
mod store;
mod sys_man;
mod utils;

pub use codec::{
    augment_metadata, augmented_bytes, augmented_doc, json_object, lemma_augment_idempotent,
    JsonVal,
};
pub use record::{clone_bytes, clone_ids, clone_record, RecordView, SysManAccount};
pub use store::StoreMap;
pub use sys_man::{
    approve_level_ok, approved_sys_man_record, genesis_inserted, lemma_disjointness_preserved,
    lemma_level_assignment, lemma_records_stable, lemma_revocation_permanent_org,
    lemma_revocation_permanent_sys_man, lemma_revoke_authorization_strict,
    lemma_revoked_registries_monotone, level_or_zero, registries_disjoint, res_view,
    revoked_record, spec_approve_org, spec_approve_sys_man, spec_resolve, spec_revoke_org,
    spec_revoke_sys_man, Error, Event, EventView, GenesisConfig, OperationType, Pallet, RegView,
};
pub use utils::{Role, Status};
