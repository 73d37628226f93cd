//! The change detector: classify a document against its marker and
//! the persistence collaborator.
use vstd::prelude::*;

verus! {

/// What the sync engine must do with one document.
#[derive(PartialEq, Eq, Structural, Debug, Clone, Copy)]
pub enum IndexAction {
    Index,
    Update,
    NotModified,
}

/// The classification rules, in evaluation order: no marker means a
/// fresh index; a document newer than its marker means an update,
/// whatever the store holds; otherwise a missing stored record means a
/// fresh index (the stale token is abandoned) and an existing one
/// means the document is unchanged.
pub open spec fn spec_classify(
    marker_exists: bool,
    doc_mtime: u64,
    marker_mtime: u64,
    record_exists: bool,
) -> IndexAction {
    if !marker_exists {
        IndexAction::Index
    } else if doc_mtime > marker_mtime {
        IndexAction::Update
    } else if !record_exists {
        IndexAction::Index
    } else {
        IndexAction::NotModified
    }
}

/// Classify one document. `record_exists` says whether the store
/// still holds a record for the token in the marker; it is only
/// consulted when the marker is at least as fresh as the document.
pub fn should_index(
    marker_exists: bool,
    doc_mtime: u64,
    marker_mtime: u64,
    record_exists: bool,
) -> (r: IndexAction)
    ensures
        r == spec_classify(marker_exists, doc_mtime, marker_mtime, record_exists),
        !marker_exists ==> r == IndexAction::Index,
        marker_exists && doc_mtime > marker_mtime ==> r == IndexAction::Update,
        marker_exists && doc_mtime <= marker_mtime && !record_exists ==> r == IndexAction::Index,
        marker_exists && doc_mtime <= marker_mtime && record_exists ==> r
            == IndexAction::NotModified,
{
    if !marker_exists {
        IndexAction::Index
    } else if doc_mtime > marker_mtime {
        IndexAction::Update
    } else if !record_exists {
        IndexAction::Index
    } else {
        IndexAction::NotModified
    }
}

/// A document strictly newer than its marker is classified `Update`
/// whatever the store holds: timestamp staleness wins over token
/// validity.
pub proof fn lemma_update_regardless_of_store(doc_mtime: u64, marker_mtime: u64, r1: bool, r2: bool)
    requires
        doc_mtime > marker_mtime,
    ensures
        spec_classify(true, doc_mtime, marker_mtime, r1) == IndexAction::Update,
        spec_classify(true, doc_mtime, marker_mtime, r1) == spec_classify(
            true,
            doc_mtime,
            marker_mtime,
            r2,
        ),
{
}

} // verus!
