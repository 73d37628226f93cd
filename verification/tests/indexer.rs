//! Tests of the filename filter, the parser, the change detector and
//! the sync planning, from outside the library.
use cuecard_indexer::detect::{should_index, IndexAction};
use cuecard_indexer::engine::record_fields;
use cuecard_indexer::files::{is_allowed, is_candidate, marker_path_for};
use cuecard_indexer::parser::process;
use cuecard_indexer::{run, DocumentFacts, MarkerState, SyncAction};

#[test]
fn test_allowed_file() {
    assert_eq!(true, is_allowed(&"testfile.md".to_string()));
}

#[test]
fn test_unallowed_file() {
    assert_eq!(false, is_allowed(&".de.sopicki.cuelib.testfile.md".to_string()));
}

#[test]
fn test_unallowed_extension() {
    assert_eq!(false, is_allowed(&"somefile.pdf".to_string()));
}

#[test]
fn test_should_index() {
    // A document with no marker is indexed afresh.
    let result = should_index(false, 100, 0, false);
    assert_eq!(result, IndexAction::Index);
}

#[test]
fn test_should_not_modify() {
    // A marker at least as fresh as the document, whose record still
    // exists, means the document is unchanged.
    let result = should_index(true, 100, 200, true);
    assert_eq!(result, IndexAction::NotModified);
}

#[test]
fn test_should_update() {
    // A document touched after its last indexing is updated.
    let result = should_index(true, 300, 200, true);
    assert_eq!(result, IndexAction::Update);
}

#[test]
fn test_stale_marker_reindexes() {
    // A fresh marker whose record is gone means a fresh index under a
    // new token.
    let result = should_index(true, 100, 200, false);
    assert_eq!(result, IndexAction::Index);
}

#[test]
fn test_update_ignores_store_state() {
    assert_eq!(should_index(true, 300, 200, false), IndexAction::Update);
    assert_eq!(should_index(true, 300, 200, true), IndexAction::Update);
}

#[test]
fn test_candidate_names() {
    assert!(is_candidate("dance.md"));
    assert!(!is_candidate(".de.sopicki.cuelib.dance.md"));
    assert!(!is_candidate("dance.PDF"));
    assert!(is_candidate("DANCE.MD"));
}

#[test]
fn test_marker_path() {
    assert_eq!(
        marker_path_for("dir/sub/a.md"),
        "dir/sub/.de.sopicki.cuelib.a.md".to_string()
    );
    assert_eq!(marker_path_for("a.md"), ".de.sopicki.cuelib.a.md".to_string());
    assert_eq!(marker_path_for("/a.md"), "/.de.sopicki.cuelib.a.md".to_string());
}

const DOC: &str = "# Autumn Leaves\n\n* **Phase**: III+1,2\n* **Rhythm**: Foxtrot\n* **Choreographer**: Someone\n";

#[test]
fn test_parse_basic_fields() {
    let file = process("/tree/autumn.md", DOC);
    assert_eq!(file.get_meta("title".to_string()), Some(&"Autumn Leaves".to_string()));
    assert_eq!(file.get_meta("rhythm".to_string()), Some(&"Foxtrot".to_string()));
    assert_eq!(
        file.get_meta("_cuesheetpath".to_string()),
        Some(&"/tree/autumn.md".to_string())
    );
    assert_eq!(file.content, DOC.to_string());
}

#[test]
fn test_parser_idempotent() {
    let first = process("/tree/autumn.md", DOC);
    let second = process("/tree/autumn.md", DOC);
    assert_eq!(first, second);
}

#[test]
fn test_phase_with_plusfigures() {
    let file = process("/p/x.md", "* **Phase**: III+1,2\n");
    assert_eq!(file.get_meta("phase".to_string()), Some(&"III".to_string()));
    assert_eq!(file.get_meta("plusfigures".to_string()), Some(&"+1,2".to_string()));
}

#[test]
fn test_phase_unrecognised() {
    let file = process("/p/x.md", "* **Phase**: banana\n");
    assert_eq!(file.get_meta("phase".to_string()), Some(&"unphased".to_string()));
    assert_eq!(file.get_meta("plusfigures".to_string()), Some(&"".to_string()));
}

#[test]
fn test_phase_missing() {
    let file = process("/p/x.md", "# Title only\n");
    assert_eq!(file.get_meta("phase".to_string()), Some(&"unphased".to_string()));
    assert_eq!(file.get_meta("plusfigures".to_string()), Some(&"".to_string()));
}

#[test]
fn test_phase_roman_numerals() {
    for (raw, phase, plus) in [
        ("I", "I", ""),
        ("II", "II", ""),
        ("IV", "IV", ""),
        ("V", "V", ""),
        ("VI", "VI", ""),
        ("VI+2", "VI", "+2"),
        ("III +1", "III", "+1"),
        ("IIII", "unphased", ""),
    ] {
        let text = format!("* **Phase**: {}\n", raw);
        let file = process("/p/x.md", &text);
        assert_eq!(file.get_meta("phase".to_string()), Some(&phase.to_string()), "{}", raw);
        assert_eq!(file.get_meta("plusfigures".to_string()), Some(&plus.to_string()), "{}", raw);
    }
}

#[test]
fn test_title_default() {
    let file = process("/p/x.md", "no heading here\n");
    let fields = record_fields(&file, "tok");
    assert_eq!(fields.title, "unknown".to_string());
}

#[test]
fn test_title_first_heading_wins() {
    let file = process("/p/x.md", "# First\n# Second\n");
    assert_eq!(file.get_meta("title".to_string()), Some(&"First".to_string()));
}

#[test]
fn test_last_field_wins() {
    let file = process("/p/x.md", "* **Rhythm**: Waltz\n* **Rhythm**: Tango\n");
    assert_eq!(file.get_meta("rhythm".to_string()), Some(&"Tango".to_string()));
}

#[test]
fn test_audio_reference() {
    let file = process("/p/x.md", "<meta name=\"x:audio-file\" content=\"song.mp3\">\n");
    assert_eq!(file.audio_file, "song.mp3".to_string());
    let fields = record_fields(&file, "tok");
    assert_eq!(fields.music_file, "song.mp3".to_string());
}

#[test]
fn test_record_defaults() {
    let file = process("/p/x.md", "# T\n");
    let fields = record_fields(&file, "tok");
    assert_eq!(fields.uuid, "tok".to_string());
    assert_eq!(fields.phase, "unphased".to_string());
    assert_eq!(fields.rhythm, "unknown".to_string());
    assert_eq!(fields.choreographer, "unknown".to_string());
    assert_eq!(fields.steplevel, "".to_string());
    assert_eq!(fields.difficulty, "".to_string());
    assert_eq!(fields.karaoke_marks, "".to_string());
    assert_eq!(fields.music_file, "".to_string());
}

#[test]
fn test_meta_json_exact() {
    let file = process("/p/x.md", "# T\n");
    let fields = record_fields(&file, "tok");
    assert_eq!(
        fields.meta,
        "{\"title\":\"T\",\"phase\":\"unphased\",\"plusfigures\":\"\",\"_cuesheetpath\":\"/p/x.md\"}"
            .to_string()
    );
}

#[test]
fn test_meta_json_escapes() {
    let file = process("/p/x.md", "# A \"quoted\\\" title\n");
    let fields = record_fields(&file, "tok");
    assert!(fields.meta.contains("\"title\":\"A \\\"quoted\\\\\\\" title\""));
}

fn token_shape_ok(token: &str) -> bool {
    let cs: Vec<char> = token.chars().collect();
    cs.len() == 36
        && cs.iter().enumerate().all(|(i, c)| {
            if i == 8 || i == 13 || i == 18 || i == 23 {
                *c == '-'
            } else {
                c.is_ascii_hexdigit() && !c.is_ascii_uppercase()
            }
        })
}

#[test]
fn test_fresh_index_plan() {
    // An unindexed document gets exactly one insert with a fresh,
    // well-formed token that the marker will carry too.
    let docs = vec![DocumentFacts {
        path: "/tree/sub/dance.md".to_string(),
        content: DOC.to_string(),
        doc_mtime: 100,
        marker: MarkerState::Absent,
    }];
    let actions = run(&docs);
    assert_eq!(actions.len(), 1);
    match &actions[0] {
        SyncAction::Insert { token, fields, marker_path } => {
            assert!(token_shape_ok(token));
            assert_eq!(&fields.uuid, token);
            assert_eq!(marker_path, "/tree/sub/.de.sopicki.cuelib.dance.md");
            assert_eq!(fields.title, "Autumn Leaves".to_string());
            assert_eq!(fields.phase, "III".to_string());
        }
        other => panic!("expected an insert, got {:?}", action_name(other)),
    }
}

#[test]
fn test_rerun_without_changes_is_skip() {
    // After a successful index, a re-run with no file changes plans no
    // persistence write at all.
    let token = "0f41a7d2-9c6b-4e21-8d3a-5b9e1c2f4a6d".to_string();
    let docs = vec![DocumentFacts {
        path: "/tree/sub/dance.md".to_string(),
        content: DOC.to_string(),
        doc_mtime: 100,
        marker: MarkerState::Present { marker_mtime: 150, token, record_exists: true },
    }];
    let actions = run(&docs);
    assert_eq!(actions.len(), 1);
    assert!(matches!(actions[0], SyncAction::Skip));
}

#[test]
fn test_touched_document_is_updated_under_same_token() {
    // Touching an indexed document plans exactly one update that keeps
    // the marker's token and only refreshes the marker's timestamp.
    let token = "0f41a7d2-9c6b-4e21-8d3a-5b9e1c2f4a6d".to_string();
    let docs = vec![DocumentFacts {
        path: "/tree/sub/dance.md".to_string(),
        content: DOC.to_string(),
        doc_mtime: 200,
        marker: MarkerState::Present { marker_mtime: 150, token: token.clone(), record_exists: true },
    }];
    let actions = run(&docs);
    assert_eq!(actions.len(), 1);
    match &actions[0] {
        SyncAction::Update { fields, marker_path } => {
            assert_eq!(fields.uuid, token);
            assert_eq!(marker_path, "/tree/sub/.de.sopicki.cuelib.dance.md");
        }
        other => panic!("expected an update, got {:?}", action_name(other)),
    }
}

#[test]
fn test_stale_marker_with_gone_record_on_update() {
    // A document newer than a marker whose record is gone is reported,
    // not silently repaired.
    let token = "0f41a7d2-9c6b-4e21-8d3a-5b9e1c2f4a6d".to_string();
    let docs = vec![DocumentFacts {
        path: "/tree/sub/dance.md".to_string(),
        content: DOC.to_string(),
        doc_mtime: 200,
        marker: MarkerState::Present { marker_mtime: 150, token, record_exists: false },
    }];
    let actions = run(&docs);
    assert_eq!(actions.len(), 1);
    match &actions[0] {
        SyncAction::Stale { marker_path } => {
            assert_eq!(marker_path, "/tree/sub/.de.sopicki.cuelib.dance.md");
        }
        other => panic!("expected a stale report, got {:?}", action_name(other)),
    }
}

#[test]
fn test_fresh_marker_with_gone_record_reindexes() {
    // A fresh marker whose record is gone plans a fresh insert under a
    // new token, abandoning the stale one.
    let old_token = "0f41a7d2-9c6b-4e21-8d3a-5b9e1c2f4a6d".to_string();
    let docs = vec![DocumentFacts {
        path: "/tree/sub/dance.md".to_string(),
        content: DOC.to_string(),
        doc_mtime: 100,
        marker: MarkerState::Present {
            marker_mtime: 150,
            token: old_token.clone(),
            record_exists: false,
        },
    }];
    let actions = run(&docs);
    assert_eq!(actions.len(), 1);
    match &actions[0] {
        SyncAction::Insert { token, fields, .. } => {
            assert_ne!(token, &old_token);
            assert!(token_shape_ok(token));
            assert_eq!(&fields.uuid, token);
        }
        other => panic!("expected an insert, got {:?}", action_name(other)),
    }
}

fn action_name(act: &SyncAction) -> &'static str {
    match act {
        SyncAction::Insert { .. } => "insert",
        SyncAction::Update { .. } => "update",
        SyncAction::Stale { .. } => "stale",
        SyncAction::Skip => "skip",
    }
}
