//! The metadata parser: turns raw document text into an `IndexFile`
//! record.
//!
//! The line grammar recognises three shapes:
//! - a heading line `# <title>`; the first one sets the `title` field;
//! - a bold-label line `* **<Name>**: <text>`; it sets the field named
//!   by the lower-cased label, later lines for the same label win;
//! - an embedded audio reference
//!   `<meta name="x:audio-file" content="<file>">`.
//!
//! After the scan the raw `phase` field is matched against the roman
//! numerals I-VI with an optional `+`-suffix; on no match the record is
//! forced to `phase="unphased"`, `plusfigures=""`. The document's path
//! is always injected under `_cuesheetpath`.
use vstd::prelude::*;

use crate::record::{lookup, upsert, IndexFile};
use crate::text::{
    chars_vec, is_space, is_space_x, lemma_skip_starts_with, lower_seq, matches_at, space_run_end,
    space_run_x, starts_with, string_from_chars, sub_vec, to_lower, word_run_end, word_run_x,
};

verus! {

/// First `\n` at or after `from`, or the end of the text.
pub open spec fn first_nl(s: Seq<char>, from: int) -> int
    decreases s.len() - from,
{
    if from < 0 || from >= s.len() {
        s.len() as int
    } else if s[from] == '\n' {
        from
    } else {
        first_nl(s, from + 1)
    }
}

proof fn lemma_first_nl_bounds(s: Seq<char>, from: int)
    requires
        0 <= from <= s.len(),
    ensures
        from <= first_nl(s, from) <= s.len(),
    decreases s.len() - from,
{
    if from < s.len() && s[from] != '\n' {
        lemma_first_nl_bounds(s, from + 1);
    }
}

/// A line with a trailing carriage return loses it.
pub open spec fn strip_cr(l: Seq<char>) -> Seq<char> {
    if l.len() > 0 && l.last() == '\r' {
        l.drop_last()
    } else {
        l
    }
}

/// The lines of the text from position `from` on, split at `\n`, each
/// without its line terminator, with no empty final line after a
/// trailing `\n`.
pub open spec fn lines_from(s: Seq<char>, from: int) -> Seq<Seq<char>>
    decreases s.len() - from,
    via lines_from_decreases
{
    if from < 0 || from >= s.len() {
        Seq::empty()
    } else {
        let i = first_nl(s, from);
        if i >= s.len() {
            seq![strip_cr(s.subrange(from, s.len() as int))]
        } else {
            seq![strip_cr(s.subrange(from, i))] + lines_from(s, i + 1)
        }
    }
}

#[via_fn]
proof fn lines_from_decreases(s: Seq<char>, from: int) {
    if 0 <= from < s.len() {
        lemma_first_nl_bounds(s, from);
    }
}

/// Split text into lines as `lines_from` describes.
pub fn split_lines(v: &Vec<char>) -> (r: Vec<Vec<char>>)
    ensures
        r.deep_view() == lines_from(v@, 0),
{
    let mut acc: Vec<Vec<char>> = Vec::new();
    let mut from: usize = 0;
    while from < v.len()
        invariant
            from <= v@.len(),
            acc.deep_view() + lines_from(v@, from as int) == lines_from(v@, 0),
        decreases v@.len() - from,
    {
        let ghost from0 = from as int;
        // Find the next newline.
        let mut i: usize = from;
        while i < v.len() && v[i] != '\n'
            invariant
                from <= i <= v@.len(),
                first_nl(v@, from as int) == first_nl(v@, i as int),
            decreases v@.len() - i,
        {
            i = i + 1;
        }
        proof {
            assert(first_nl(v@, from0) == i as int);
        }
        // The line body, without a trailing carriage return.
        let end: usize = if i > from && v[i - 1] == '\r' {
            i - 1
        } else {
            i
        };
        let line = sub_vec(v, from, end);
        proof {
            assert(line@ =~= strip_cr(v@.subrange(from0, i as int)));
        }
        let ghost acc0 = acc.deep_view();
        acc.push(line);
        proof {
            assert(acc.deep_view() =~~= acc0.push(line@));
        }
        if i == v.len() {
            from = v.len();
            proof {
                assert(lines_from(v@, from0) =~~= seq![line@]);
                assert(acc.deep_view() + lines_from(v@, from as int) =~~= lines_from(v@, 0));
            }
        } else {
            from = i + 1;
            proof {
                assert(lines_from(v@, from0) =~~= seq![line@] + lines_from(v@, from as int));
                assert(acc.deep_view() + lines_from(v@, from as int) =~~= lines_from(v@, 0));
            }
        }
    }
    proof {
        assert(acc.deep_view() =~~= lines_from(v@, 0));
    }
    acc
}

/// The title of a heading line `# <text>`: everything after the `#`
/// and the blank run that must follow it.
pub open spec fn title_of(line: Seq<char>) -> Option<Seq<char>> {
    if line.len() >= 2 && line[0] == '#' && is_space(line[1]) {
        Some(line.subrange(space_run_end(line, 1), line.len() as int))
    } else {
        None
    }
}

/// Recognise a heading line.
pub fn title_line(line: &Vec<char>) -> (r: Option<String>)
    ensures
        match r {
            Some(t) => title_of(line@) == Some(t@),
            None => title_of(line@) is None,
        },
{
    if line.len() >= 2 && line[0] == '#' && is_space_x(line[1]) {
        let j = space_run_x(line, 1);
        let t = sub_vec(line, j, line.len());
        Some(string_from_chars(&t))
    } else {
        None
    }
}

/// The key and value of a bold-label line `* **<Name>**: <text>`, the
/// key lower-cased. The label is one or more word characters between
/// the double stars; one or more blanks must follow the star and the
/// colon.
pub open spec fn meta_of(line: Seq<char>) -> Option<(Seq<char>, Seq<char>)> {
    if line.len() < 1 || line[0] != '*' {
        None
    } else {
        let j = space_run_end(line, 1);
        if j <= 1 || j + 1 >= line.len() || line[j] != '*' || line[j + 1] != '*' {
            None
        } else {
            let k = word_run_end(line, j + 2);
            if k <= j + 2 || k + 2 >= line.len() || line[k] != '*' || line[k + 1] != '*' || line[k
                + 2] != ':' {
                None
            } else {
                let m = space_run_end(line, k + 3);
                if m <= k + 3 {
                    None
                } else {
                    Some(
                        (
                            lower_seq(line.subrange(j + 2, k)),
                            line.subrange(m, line.len() as int),
                        ),
                    )
                }
            }
        }
    }
}

/// Recognise a bold-label line.
pub fn meta_line(line: &Vec<char>) -> (r: Option<(String, String)>)
    ensures
        match r {
            Some(kv) => meta_of(line@) == Some((kv.0@, kv.1@)),
            None => meta_of(line@) is None,
        },
{
    if line.len() < 1 || line[0] != '*' {
        return None;
    }
    let j = space_run_x(line, 1);
    if j <= 1 || line.len() - j < 2 || line[j] != '*' || line[j + 1] != '*' {
        return None;
    }
    let k = word_run_x(line, j + 2);
    if k <= j + 2 || line.len() - k < 3 || line[k] != '*' || line[k + 1] != '*' || line[k + 2]
        != ':' {
        return None;
    }
    let m = space_run_x(line, k + 3);
    if m <= k + 3 {
        return None;
    }
    let key = to_lower(&sub_vec(line, j + 2, k));
    let value = sub_vec(line, m, line.len());
    Some((string_from_chars(&key), string_from_chars(&value)))
}

/// The position of the last `">` pair whose `"` lies at or after
/// `start` and strictly before `end - 1`, or -1 when there is none.
pub open spec fn last_close(line: Seq<char>, start: int, end: int) -> int
    decreases end,
{
    if end < 2 || end - 2 < start {
        -1
    } else if line[end - 2] == '"' && line[end - 1] == '>' {
        end - 2
    } else {
        last_close(line, start, end - 1)
    }
}

/// The audio filename of an embedded reference line
/// `<meta name="x:audio-file" content="<file>">`: the content text up
/// to the last `">` of the line.
pub open spec fn audio_of(line: Seq<char>) -> Option<Seq<char>> {
    if !starts_with(line, "<meta"@) {
        None
    } else {
        let j = space_run_end(line, "<meta"@.len() as int);
        if j <= "<meta"@.len() || !starts_with(line.skip(j), "name=\"x:audio-file\""@) {
            None
        } else {
            let k = space_run_end(line, j + "name=\"x:audio-file\""@.len());
            if k <= j + "name=\"x:audio-file\""@.len() || !starts_with(
                line.skip(k),
                "content=\""@,
            ) {
                None
            } else {
                let start = k + "content=\""@.len();
                let p = last_close(line, start, line.len() as int);
                if p < 0 {
                    None
                } else {
                    Some(line.subrange(start, p))
                }
            }
        }
    }
}

/// Recognise an embedded audio reference line.
pub fn audio_line(line: &Vec<char>) -> (r: Option<String>)
    ensures
        match r {
            Some(f) => audio_of(line@) == Some(f@),
            None => audio_of(line@) is None,
        },
{
    proof {
        reveal_strlit("<meta");
        reveal_strlit("name=\"x:audio-file\"");
        reveal_strlit("content=\"");
    }
    let n = line.len();
    if !matches_at(line, 0, "<meta") {
        proof {
            assert(!starts_with(line@, "<meta"@));
        }
        return None;
    }
    let j = space_run_x(line, 5);
    proof {
        lemma_skip_starts_with(line@, j as int, "name=\"x:audio-file\""@);
    }
    if j <= 5 || n - j < 19 || !matches_at(line, j, "name=\"x:audio-file\"") {
        return None;
    }
    let k = space_run_x(line, j + 19);
    proof {
        lemma_skip_starts_with(line@, k as int, "content=\""@);
    }
    if k <= j + 19 || n - k < 9 || !matches_at(line, k, "content=\"") {
        return None;
    }
    let start = k + 9;
    // Scan backwards for the last `">` pair.
    if n < 2 || n - 2 < start {
        return None;
    }
    let mut p: usize = n - 2;
    loop
        invariant
            n == line@.len(),
            start <= p <= n - 2,
            last_close(line@, start as int, line@.len() as int) == last_close(
                line@,
                start as int,
                p + 2,
            ),
            audio_of(line@) == (if last_close(line@, start as int, line@.len() as int) >= 0 {
                Some(
                    line@.subrange(
                        start as int,
                        last_close(line@, start as int, line@.len() as int),
                    ),
                )
            } else {
                Option::<Seq<char>>::None
            }),
        decreases p,
    {
        if line[p] == '"' && line[p + 1] == '>' {
            proof {
                assert(last_close(line@, start as int, p + 2) == p);
            }
            let f = sub_vec(line, start, p);
            return Some(string_from_chars(&f));
        }
        if p == start {
            proof {
                assert(last_close(line@, start as int, start + 2) == last_close(
                    line@,
                    start as int,
                    start + 1,
                ));
                assert(last_close(line@, start as int, start + 1) == -1);
            }
            return None;
        }
        p = p - 1;
    }
}

/// After a roman numeral, a raw phase value may only hold blanks and
/// then a `+`-suffix running to the end.
pub open spec fn rest_ok_at(raw: Seq<char>, from: int) -> bool {
    space_run_end(raw, from) == raw.len() || raw[space_run_end(raw, from)] == '+'
}

/// The `+`-suffix of a raw phase value after position `from`, empty
/// when the value ends in blanks.
pub open spec fn plus_at(raw: Seq<char>, from: int) -> Seq<char> {
    if space_run_end(raw, from) == raw.len() {
        Seq::empty()
    } else {
        raw.subrange(space_run_end(raw, from), raw.len() as int)
    }
}

/// `raw` is the roman numeral `r`, then blanks, then an optional
/// `+`-suffix.
pub open spec fn roman_match(raw: Seq<char>, r: Seq<char>) -> bool {
    starts_with(raw, r) && rest_ok_at(raw, r.len() as int)
}

/// Split a raw phase value into its canonical roman numeral and its
/// `+`-suffix. The numerals are tried in the fixed order I, II, III,
/// IV, V, VI; only one can complete a match.
pub open spec fn phase_split(raw: Seq<char>) -> Option<(Seq<char>, Seq<char>)> {
    if roman_match(raw, "I"@) {
        Some(("I"@, plus_at(raw, "I"@.len() as int)))
    } else if roman_match(raw, "II"@) {
        Some(("II"@, plus_at(raw, "II"@.len() as int)))
    } else if roman_match(raw, "III"@) {
        Some(("III"@, plus_at(raw, "III"@.len() as int)))
    } else if roman_match(raw, "IV"@) {
        Some(("IV"@, plus_at(raw, "IV"@.len() as int)))
    } else if roman_match(raw, "V"@) {
        Some(("V"@, plus_at(raw, "V"@.len() as int)))
    } else if roman_match(raw, "VI"@) {
        Some(("VI"@, plus_at(raw, "VI"@.len() as int)))
    } else {
        None
    }
}

/// Try one roman numeral against a raw phase value.
fn try_roman(raw: &Vec<char>, lit: &str) -> (r: Option<(String, String)>)
    ensures
        match r {
            Some(pf) => roman_match(raw@, lit@) && pf.0@ == lit@ && pf.1@ == plus_at(
                raw@,
                lit@.len() as int,
            ),
            None => !roman_match(raw@, lit@),
        },
{
    let n = raw.len();
    if !matches_at(raw, 0, lit) {
        return None;
    }
    let ll = lit.unicode_len();
    let s = space_run_x(raw, ll);
    if s == n {
        Some((String::from_str(lit), String::new()))
    } else if raw[s] == '+' {
        Some((String::from_str(lit), string_from_chars(&sub_vec(raw, s, n))))
    } else {
        None
    }
}

/// Split a raw phase value, executably.
pub fn phase_split_x(raw: &Vec<char>) -> (r: Option<(String, String)>)
    ensures
        match r {
            Some(pf) => phase_split(raw@) == Some((pf.0@, pf.1@)),
            None => phase_split(raw@) is None,
        },
{
    if let Some(pf) = try_roman(raw, "I") {
        return Some(pf);
    }
    if let Some(pf) = try_roman(raw, "II") {
        return Some(pf);
    }
    if let Some(pf) = try_roman(raw, "III") {
        return Some(pf);
    }
    if let Some(pf) = try_roman(raw, "IV") {
        return Some(pf);
    }
    if let Some(pf) = try_roman(raw, "V") {
        return Some(pf);
    }
    if let Some(pf) = try_roman(raw, "VI") {
        return Some(pf);
    }
    None
}

/// One step of the line scan: the first heading line sets `title`,
/// a bold-label line sets its field (last one wins), an audio
/// reference line sets the audio filename.
pub open spec fn scan_step(
    st: (bool, Seq<(Seq<char>, Seq<char>)>, Seq<char>),
    line: Seq<char>,
) -> (bool, Seq<(Seq<char>, Seq<char>)>, Seq<char>) {
    let st1 = match title_of(line) {
        Some(t) => if !st.0 {
            (true, upsert(st.1, "title"@, t), st.2)
        } else {
            st
        },
        None => st,
    };
    let st2 = match meta_of(line) {
        Some(kv) => (st1.0, upsert(st1.1, kv.0, kv.1), st1.2),
        None => st1,
    };
    match audio_of(line) {
        Some(f) => (st2.0, st2.1, f),
        None => st2,
    }
}

/// The scan state after the first `n` lines: whether a title was
/// seen, the field entries, and the audio filename.
pub open spec fn scan(lines: Seq<Seq<char>>, n: int) -> (
    bool,
    Seq<(Seq<char>, Seq<char>)>,
    Seq<char>,
)
    decreases n,
{
    if n <= 0 {
        (false, Seq::empty(), Seq::empty())
    } else {
        scan_step(scan(lines, n - 1), lines[n - 1])
    }
}

/// The raw phase field of a scanned record, `"unphased"` when absent.
pub open spec fn raw_phase(entries: Seq<(Seq<char>, Seq<char>)>) -> Seq<char> {
    match lookup(entries, "phase"@) {
        Some(v) => v,
        None => "unphased"@,
    }
}

/// Resolve the raw phase field into the canonical `phase` and
/// `plusfigures` fields; unrecognised raw text is silently forced to
/// the unphased defaults.
pub open spec fn phase_resolved(entries: Seq<(Seq<char>, Seq<char>)>) -> Seq<
    (Seq<char>, Seq<char>),
> {
    match phase_split(raw_phase(entries)) {
        Some(pf) => upsert(upsert(entries, "phase"@, pf.0), "plusfigures"@, pf.1),
        None => upsert(upsert(entries, "phase"@, "unphased"@), "plusfigures"@, Seq::empty()),
    }
}

/// The entries of the record parsed from `text` for the document at
/// `path`.
pub open spec fn parsed_entries(text: Seq<char>, path: Seq<char>) -> Seq<(Seq<char>, Seq<char>)> {
    upsert(
        phase_resolved(scan(lines_from(text, 0), lines_from(text, 0).len() as int).1),
        "_cuesheetpath"@,
        path,
    )
}

/// The audio filename parsed from `text`, empty when no reference
/// line occurs.
pub open spec fn parsed_audio(text: Seq<char>) -> Seq<char> {
    scan(lines_from(text, 0), lines_from(text, 0).len() as int).2
}

/// Parse one document: scan its lines for the title, the bold-label
/// fields and the audio reference, resolve the phase, and inject the
/// document path.
pub fn process(path: &str, content: &str) -> (r: IndexFile)
    ensures
        r.path@ == path@,
        r.content@ == content@,
        r.meta@ == parsed_entries(content@, path@),
        r.audio_file@ == parsed_audio(content@),
{
    let cv = chars_vec(content);
    let lines = split_lines(&cv);
    let ghost lseq = lines.deep_view();
    let mut file = IndexFile::new(path);
    let mut has_title = false;
    let mut i: usize = 0;
    while i < lines.len()
        invariant
            lseq == lines.deep_view(),
            lseq == lines_from(content@, 0),
            i <= lines@.len(),
            lines@.len() == lseq.len(),
            file.path@ == path@,
            (has_title, file.meta@, file.audio_file@) == scan(lseq, i as int),
        decreases lines@.len() - i,
    {
        let ghost pre = (has_title, file.meta@, file.audio_file@);
        let line = &lines[i];
        proof {
            assert(lseq[i as int] =~= line@);
        }
        if !has_title {
            match title_line(line) {
                Some(t) => {
                    file.set_meta("title", t.as_str());
                    has_title = true;
                },
                None => {},
            }
        }
        match meta_line(line) {
            Some(kv) => {
                file.set_meta(kv.0.as_str(), kv.1.as_str());
            },
            None => {},
        }
        match audio_line(line) {
            Some(f) => {
                file.audio_file = f;
            },
            None => {},
        }
        proof {
            assert((has_title, file.meta@, file.audio_file@) == scan_step(pre, lseq[i as int]));
        }
        i = i + 1;
    }
    // Resolve the phase from the raw field, defaulting to unphased.
    let raw: String = match file.get_meta(String::from_str("phase")) {
        Some(v) => v.clone(),
        None => String::from_str("unphased"),
    };
    proof {
        assert(raw@ == raw_phase(file.meta@));
    }
    let rawv = chars_vec(raw.as_str());
    match phase_split_x(&rawv) {
        Some(pf) => {
            file.set_meta("phase", pf.0.as_str());
            file.set_meta("plusfigures", pf.1.as_str());
        },
        None => {
            file.set_meta("phase", "unphased");
            file.set_meta("plusfigures", "");
            proof {
                reveal_strlit("");
                assert(""@ =~= Seq::<char>::empty());
            }
        },
    }
    file.set_meta("_cuesheetpath", path);
    file.set_content(content);
    file
}

/// Parsing is idempotent: the record is a pure function of the
/// document text and path, so any two records that `process`'s
/// contract admits for the same inputs agree in every part.
pub proof fn lemma_parse_deterministic(
    a: IndexFile,
    b: IndexFile,
    text: Seq<char>,
    path: Seq<char>,
)
    requires
        a.path@ == path,
        a.content@ == text,
        a.meta@ == parsed_entries(text, path),
        a.audio_file@ == parsed_audio(text),
        b.path@ == path,
        b.content@ == text,
        b.meta@ == parsed_entries(text, path),
        b.audio_file@ == parsed_audio(text),
    ensures
        a.path@ == b.path@,
        a.content@ == b.content@,
        a.meta@ == b.meta@,
        a.audio_file@ == b.audio_file@,
{
}

} // verus!
