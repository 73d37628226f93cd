//! Incremental indexer for dance cuecards kept as Markdown documents.
//!
//! The library is the decision core of the indexer: the filename
//! filter, the metadata parser, the change detector and the per-run
//! sync planning. Directory walking, file reads and the relational
//! store are collaborators that hand plain values in and carry the
//! planned actions out.
use vstd::prelude::*;

pub mod detect;
pub mod engine;
pub mod files;
pub mod json;
pub mod parser;
pub mod record;
pub mod text;

use crate::detect::{should_index, IndexAction};
use crate::engine::{
    fields_match, index_plan, token_format, update_plan, RecordFields, UpdatePlan,
};
use crate::files::spec_marker_path;
use crate::parser::{parsed_audio, parsed_entries, process};

verus! {

/// Run configuration: the root of the document tree and the connection
/// string of the persistence collaborator.
pub struct Config {
    pub basepath: String,
    pub database_url: String,
}

/// What is known about a document's marker before a run: either no
/// marker file exists, or one does, with its modification time, its
/// token content, and whether the store still holds a record for that
/// token.
pub enum MarkerState {
    Absent,
    Present { marker_mtime: u64, token: String, record_exists: bool },
}

/// Everything the engine needs to know about one candidate document:
/// its path, its raw content, its modification time, and its marker's
/// state. The collaborators gather these; the engine decides.
pub struct DocumentFacts {
    pub path: String,
    pub content: String,
    pub doc_mtime: u64,
    pub marker: MarkerState,
}

/// The action the engine plans for one document. `Insert` creates a
/// record under the fresh token and writes the marker with the token
/// as content; `Update` overwrites the record in place and touches the
/// marker's timestamp; `Stale` reports a marker whose record is gone;
/// `Skip` does nothing.
pub enum SyncAction {
    Insert { token: String, fields: RecordFields, marker_path: String },
    Update { fields: RecordFields, marker_path: String },
    Stale { marker_path: String },
    Skip,
}

/// The action that the facts about one document call for: a fresh
/// insert when no marker exists or the marker's record is gone while
/// the marker is fresh; an update (or a stale report) when the
/// document is newer than its marker; nothing when the marker is
/// fresh and its record exists.
pub open spec fn step_matches(doc: DocumentFacts, act: SyncAction) -> bool {
    let entries = parsed_entries(doc.content@, doc.path@);
    let audio = parsed_audio(doc.content@);
    let mpath = spec_marker_path(doc.path@);
    match doc.marker {
        MarkerState::Absent => match act {
            SyncAction::Insert { token, fields, marker_path } => token_format(token@)
                && fields_match(fields, entries, doc.content@, audio, token@) && marker_path@
                == mpath,
            _ => false,
        },
        MarkerState::Present { marker_mtime, token, record_exists } => {
            if doc.doc_mtime > marker_mtime {
                if record_exists {
                    match act {
                        SyncAction::Update { fields, marker_path } => fields_match(
                            fields,
                            entries,
                            doc.content@,
                            audio,
                            token@,
                        ) && marker_path@ == mpath,
                        _ => false,
                    }
                } else {
                    match act {
                        SyncAction::Stale { marker_path } => marker_path@ == mpath,
                        _ => false,
                    }
                }
            } else if record_exists {
                act is Skip
            } else {
                match act {
                    SyncAction::Insert { token: t, fields, marker_path } => token_format(t@)
                        && fields_match(fields, entries, doc.content@, audio, t@) && marker_path@
                        == mpath,
                    _ => false,
                }
            }
        },
    }
}

/// Decide and plan the action for one document.
pub fn sync_step(doc: &DocumentFacts) -> (r: SyncAction)
    ensures
        step_matches(*doc, r),
{
    let file = process(doc.path.as_str(), doc.content.as_str());
    match &doc.marker {
        MarkerState::Absent => {
            let plan = index_plan(&file);
            SyncAction::Insert {
                token: plan.token,
                fields: plan.fields,
                marker_path: plan.marker_path,
            }
        },
        MarkerState::Present { marker_mtime, token, record_exists } => {
            match should_index(true, doc.doc_mtime, *marker_mtime, *record_exists) {
                IndexAction::Update => match update_plan(&file, token.as_str(), *record_exists) {
                    UpdatePlan::Apply { fields, marker_path } => SyncAction::Update {
                        fields,
                        marker_path,
                    },
                    UpdatePlan::Stale { marker_path } => SyncAction::Stale { marker_path },
                },
                IndexAction::Index => {
                    let plan = index_plan(&file);
                    SyncAction::Insert {
                        token: plan.token,
                        fields: plan.fields,
                        marker_path: plan.marker_path,
                    }
                },
                IndexAction::NotModified => SyncAction::Skip,
            }
        },
    }
}

/// Process a whole run: plan one action for each document, in order.
/// The collaborators walk the tree, read the files and markers and
/// ask the store beforehand; they carry the planned actions out
/// afterwards.
pub fn run(docs: &Vec<DocumentFacts>) -> (r: Vec<SyncAction>)
    ensures
        r@.len() == docs@.len(),
        forall|i: int| 0 <= i < docs@.len() ==> step_matches(docs@[i], #[trigger] r@[i]),
{
    let mut out: Vec<SyncAction> = Vec::new();
    let mut i: usize = 0;
    while i < docs.len()
        invariant
            i <= docs@.len(),
            out@.len() == i,
            forall|j: int| 0 <= j < i ==> step_matches(docs@[j], #[trigger] out@[j]),
        decreases docs@.len() - i,
    {
        let act = sync_step(&docs[i]);
        out.push(act);
        i = i + 1;
    }
    out
}

} // verus!
