//! The sync engine's planning: build the stored-record fields from a
//! parsed document, with a fresh token for an insert or the marker's
//! token for an update.
use vstd::prelude::*;

use crate::files::spec_marker_path;
use crate::json::{json_object, meta_json};
use crate::record::{lookup, IndexFile};

verus! {

/// A lower-case hexadecimal digit.
pub open spec fn is_hex_lower(c: char) -> bool {
    ('0' <= c && c <= '9') || ('a' <= c && c <= 'f')
}

/// The shape of a record token: 36 characters, lower-case hexadecimal
/// with hyphens at positions 8, 13, 18 and 23.
pub open spec fn token_format(s: Seq<char>) -> bool {
    &&& s.len() == 36
    &&& s[8] == '-'
    &&& s[13] == '-'
    &&& s[18] == '-'
    &&& s[23] == '-'
    &&& forall|i: int|
        0 <= i < 36 && i != 8 && i != 13 && i != 18 && i != 23 ==> is_hex_lower(#[trigger] s[i])
}

/// Relies on `uuid::Uuid::new_v4` and its `Hyphenated` form: a fresh
/// random identifier rendered as 36 characters of lower-case
/// hexadecimal with hyphens at positions 8, 13, 18 and 23.
#[verifier::external_body]
fn new_token() -> (r: String)
    ensures
        token_format(r@),
{
    uuid::Uuid::new_v4().hyphenated().to_string()
}

/// The columns of a stored record.
#[derive(Clone, Debug, PartialEq)]
pub struct RecordFields {
    pub uuid: String,
    pub phase: String,
    pub rhythm: String,
    pub title: String,
    pub choreographer: String,
    pub steplevel: String,
    pub difficulty: String,
    pub meta: String,
    pub content: String,
    pub karaoke_marks: String,
    pub music_file: String,
}

/// The value of a field, or its documented default when absent.
pub open spec fn field_or(
    entries: Seq<(Seq<char>, Seq<char>)>,
    key: Seq<char>,
    dflt: Seq<char>,
) -> Seq<char> {
    match lookup(entries, key) {
        Some(v) => v,
        None => dflt,
    }
}

/// The stored-record columns that a parsed document and a token
/// determine: every field with its default, the field map as JSON,
/// the raw content, and the audio filename.
pub open spec fn fields_match(
    f: RecordFields,
    entries: Seq<(Seq<char>, Seq<char>)>,
    content: Seq<char>,
    audio: Seq<char>,
    token: Seq<char>,
) -> bool {
    &&& f.uuid@ == token
    &&& f.phase@ == field_or(entries, "phase"@, "unphased"@)
    &&& f.rhythm@ == field_or(entries, "rhythm"@, "unknown"@)
    &&& f.title@ == field_or(entries, "title"@, "unknown"@)
    &&& f.choreographer@ == field_or(entries, "choreographer"@, "unknown"@)
    &&& f.steplevel@ == field_or(entries, "steplevel"@, Seq::empty())
    &&& f.difficulty@ == field_or(entries, "difficulty"@, Seq::empty())
    &&& f.meta@ == json_object(entries)
    &&& f.content@ == content
    &&& f.karaoke_marks@ == Seq::<char>::empty()
    &&& f.music_file@ == audio
}

/// The field's value, or the given default when it is absent.
fn get_or(file: &IndexFile, key: &str, dflt: &str) -> (r: String)
    ensures
        r@ == field_or(file.meta@, key@, dflt@),
{
    match file.meta.get(key) {
        Some(v) => v.clone(),
        None => String::from_str(dflt),
    }
}

/// Build the stored-record columns for a parsed document under the
/// given token.
pub fn record_fields(file: &IndexFile, token: &str) -> (r: RecordFields)
    ensures
        fields_match(r, file.meta@, file.content@, file.audio_file@, token@),
{
    let r = RecordFields {
        uuid: String::from_str(token),
        phase: get_or(file, "phase", "unphased"),
        rhythm: get_or(file, "rhythm", "unknown"),
        title: get_or(file, "title", "unknown"),
        choreographer: get_or(file, "choreographer", "unknown"),
        steplevel: get_or(file, "steplevel", ""),
        difficulty: get_or(file, "difficulty", ""),
        meta: meta_json(&file.meta),
        content: file.content.clone(),
        karaoke_marks: String::new(),
        music_file: file.audio_file.clone(),
    };
    proof {
        reveal_strlit("");
        assert(""@ =~= Seq::<char>::empty());
    }
    r
}

/// The plan for indexing a new document: a fresh token, the record to
/// create under it, and the marker to write with the token as its
/// content.
pub struct InsertPlan {
    pub token: String,
    pub fields: RecordFields,
    pub marker_path: String,
}

/// Plan a fresh index of a document: generate a new token and build
/// the record to be created under it; the marker named here is then
/// written with the token as its content.
pub fn index_plan(file: &IndexFile) -> (r: InsertPlan)
    ensures
        token_format(r.token@),
        r.fields.uuid@ == r.token@,
        fields_match(r.fields, file.meta@, file.content@, file.audio_file@, r.token@),
        r.marker_path@ == spec_marker_path(file.path@),
{
    let token = new_token();
    let fields = record_fields(file, token.as_str());
    let marker_path = crate::files::marker_path_for(file.path.as_str());
    InsertPlan { token, fields, marker_path }
}

/// The plan for a document whose marker is stale relative to it:
/// either the record to overwrite under the marker's unchanged token,
/// or the report of a marker whose record is gone.
pub enum UpdatePlan {
    Apply { fields: RecordFields, marker_path: String },
    Stale { marker_path: String },
}

/// Plan an update of a previously indexed document. `token` is the
/// marker's content and `record_exists` says whether the store still
/// holds a record for it: if so the record is overwritten in place
/// under the unchanged token and the marker's timestamp refreshed,
/// if not the inconsistency is only reported and the document skipped.
pub fn update_plan(file: &IndexFile, token: &str, record_exists: bool) -> (r: UpdatePlan)
    ensures
        match r {
            UpdatePlan::Apply { fields, marker_path } => record_exists && fields_match(
                fields,
                file.meta@,
                file.content@,
                file.audio_file@,
                token@,
            ) && marker_path@ == spec_marker_path(file.path@),
            UpdatePlan::Stale { marker_path } => !record_exists && marker_path@
                == spec_marker_path(file.path@),
        },
{
    let marker_path = crate::files::marker_path_for(file.path.as_str());
    if record_exists {
        let fields = record_fields(file, token);
        UpdatePlan::Apply { fields, marker_path }
    } else {
        UpdatePlan::Stale { marker_path }
    }
}

} // verus!
