//! Verified data structures and APIs for RGB20 fungible assets: the asset
//! record assembled from a contract genesis and consignment, its nominations,
//! supply figures, issues, epochs and known allocations.

mod allocation;
mod asset;
mod consignment;
mod error;
mod genesis;
mod history;
mod ids;
mod inflation;
mod laws;
mod nomination;
mod seal;
mod source;

pub use allocation::Allocation;
pub use asset::{
    allocations_at, genesis_header, is_consignment_asset, is_genesis_asset, is_primary_issue,
    known_inflation_of, lemma_asset_lengths,
    lemma_total_value_prefix, picked_value, total_value, Asset,
};
pub use consignment::{
    allocations_after, allocations_of, burn_ops_upto, closed_seal, closed_seal_of,
    collect_epoch_operations, consignment_epochs, consignment_error, epoch_content,
    epoch_operations_after, epochs_upto, issue_error, issue_from, issues_error,
    lemma_burn_ops_failure_persists, lemma_epoch_operations_failure_persists,
    lemma_epochs_failure_persists, lemma_issues_error_persists, read_burn_operations,
    records_map, renomination_from, renominations_error, revealed_assignments,
    transition_allocations, with_all_new, with_new,
    EpochOperations,
};
pub use error::{ConsistencyError, Error, NodeOutpoint, OwnedRightType};
pub use genesis::{
    compute_issue_limit, epoch_opening_seal, epoch_seal_of, genesis_allocations, genesis_error,
    genesis_is_unreadable, genesis_nomination, genesis_unreadable, issue_limit_after,
    issue_limit_overflow, issue_limit_overflows, issue_limit_overflows_at,
    lemma_genesis_allocations_failure_persists, lemma_issue_limit_failure_persists,
    read_genesis_allocations, MAX_TIMESTAMP, MIN_TIMESTAMP,
};
pub use history::{BurnReplace, Epoch, Issue};
pub use ids::{
    bytes32_lt, lemma_outpoint_order, outpoint_lt, outpoint_precedes, AttachmentId, Bytes32,
    ContractId, NodeId, OutPoint, SchemaId, Txid,
};
pub use inflation::{
    content_map, entry_content, keys_ascending, lemma_content_map_absent, lemma_content_map_at,
    lemma_content_map_ext, lemma_content_map_take_step, InflationEntry, InflationMap,
};
pub use laws::{
    law_add_allocation_idempotent, law_add_allocation_value, law_allocations_listed_at_outpoint,
    law_appended_issue_keeps_prefix, law_burn_operations_from_links,
    law_filtered_value_complement, law_filtered_value_flip, law_genesis_nomination_kept,
    law_known_inflation_of_issues, law_last_renomination_active, law_secondary_issues_recorded,
    law_bare_consignment_is_genesis, law_epochs_numbered, law_filtered_value_bounds,
    law_genesis_known_inflation, law_inflation_insert_get, law_primary_issue_first,
    law_transitions_keep_allocations_distinct, operations_labelled,
};
pub use nomination::{Nomination, Renomination, Supply, SupplyMeasure};
pub use seal::{RevealedValue, SealDefinition};
pub use source::{
    AssetTransition, ChainLink, ConsignmentData, GenesisData, InflationState, IssueTransition,
    RenominationTransition, ValueAssignment,
};
