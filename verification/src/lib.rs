//! Bookkeeping for batched fetches from a revision store: which requested keys
//! are still pending, which of their attributes are still missing, how the
//! stream of per-key results is folded back into maps and error lists, and the
//! order of the writes that update the snapshots of a commit-cloud workspace.

mod attrs;
mod errors;
mod fetch;
mod keys;
mod laws;
mod mode;
mod outside;
mod results;
mod snapshots;
mod value;

pub use attrs::{lemma_file_with_computable, FileAttributes, StoreAttrs};
pub use errors::{errors_of, FetchErrors, KeyFetchError};
pub use fetch::{
    actionable_attrs, all_incomplete, error_key, error_report, found_sends, found_step, is_error_of, is_error_report,
    missing_message, missing_message_spec, reports_key, CommonFetchState, FetchResult,
};
pub use keys::keys_of;
pub use laws::{
    is_found_of, is_missing_of, is_other_error, lemma_actionable_is_needed_and_fetchable,
    lemma_consume_keeps_last_found, lemma_found_adds_no_key, lemma_found_completes_exactly,
    lemma_found_keeps_found_attrs, lemma_found_keeps_pending_incomplete, lemma_found_pending_len,
    lemma_missing_reports_first_other_error, lemma_missing_without_other_errors,
    lemma_new_pending_incomplete, available_attrs, fetchable_attrs, lemma_actionable_is_complete,
    lemma_actionable_when_nothing_found, lemma_consume_keeps_last_missing,
    lemma_found_sends_completed_value, lemma_single_reports_first_error,
    lemma_consume_keeps_other_errors, lemma_found_new_parts_win, other_error_of,
    lemma_single_is_first, lemma_single_reports_leading_error,
};
pub use mode::FetchMode;
pub use outside::ReportChannel;
pub use results::{
    after_first, consume_results, consume_spec, consume_step, missing_keys, missing_spec,
    missing_step, prepend_keys, single_spec, single_step, single_value, ConsumedResults,
    ConsumedView,
};
pub use snapshots::{
    changesets, deletion_count, is_snapshot_plan, plan_snapshot_update, DeleteArgs, HgChangesetId,
    HgId, SnapshotStep, SnapshotUpdate, SnapshotWrite, WorkspaceSnapshot,
};
pub use value::{FileValue, StoreValue};

use vstd::prelude::*;

verus! {

/// The key of a requested value. Keys are compared only for identity here,
/// so a key is the number that stands for it.
pub type Key = u64;

} // verus!
