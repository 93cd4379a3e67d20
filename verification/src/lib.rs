//! Causal version-lineage tracking and conflict classification.
//!
//! An application that lets several parties revise the same logical object
//! can attach a [`Mogulid`] to every revision it hands out. The token names
//! the object (`ulid`), the revision itself (`state`), and the ordered chain
//! of earlier revisions (`history`). When two parties each believe they hold
//! the newest revision, [`mogulid_allow_update`] decides whether one token
//! may supersede the other, and reports why not otherwise; on an
//! unresolvable divergence the application may combine the two chains with
//! [`mogulid_merge`] and reconcile the payload itself.

mod classify;
mod id_source;
mod lineage;
mod merge;
mod service;

pub use classify::{classify, lemma_classify_advance_allowed, lemma_classify_self_identical,
    lemma_matching_prefix_count_full, matching_prefix_count, MogulidError};
pub use lineage::{advance, lemma_advance_preserves_wf, mogulid_allow_update, mogulid_merge,
    Mogulid, MogulidView};
pub use merge::{lemma_merge_histories_complete, merge_histories, new_entry_count};
pub use service::{mounted_routes, rocket, ServiceRoute};
