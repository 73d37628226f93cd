//! Character-level text utilities shared by the filename filter, the
//! metadata parser and the marker path computation.
use vstd::prelude::*;

verus! {

/// Whitespace as the line grammar understands it: the ASCII blank
/// characters that can occur inside a line of a text document.
pub open spec fn is_space(c: char) -> bool {
    c == ' ' || c == '\t' || c == '\r' || c == '\u{b}' || c == '\u{c}'
}

/// ASCII word characters: letters, digits and the underscore.
pub open spec fn is_word_char(c: char) -> bool {
    ('a' <= c && c <= 'z') || ('A' <= c && c <= 'Z') || ('0' <= c && c <= '9') || c == '_'
}

/// Lower-case an ASCII letter; any other character is unchanged.
pub open spec fn lower_char(c: char) -> char {
    if 'A' <= c && c <= 'Z' {
        ((c as u8) + 32) as char
    } else {
        c
    }
}

/// ASCII lower-casing of a whole character sequence.
pub open spec fn lower_seq(s: Seq<char>) -> Seq<char> {
    s.map_values(|c: char| lower_char(c))
}

/// `p` is a prefix of `s`.
pub open spec fn starts_with(s: Seq<char>, p: Seq<char>) -> bool {
    p.len() <= s.len() && s.subrange(0, p.len() as int) == p
}

/// `p` is a suffix of `s`.
pub open spec fn ends_with(s: Seq<char>, p: Seq<char>) -> bool {
    p.len() <= s.len() && s.subrange(s.len() - p.len(), s.len() as int) == p
}

/// The characters of a string, as a vector that verified code can index.
pub fn chars_vec(s: &str) -> (r: Vec<char>)
    ensures
        r@ == s@,
{
    let n: usize = s.unicode_len();
    let mut r: Vec<char> = Vec::new();
    let mut i: usize = 0;
    while i < n
        invariant
            n == s@.len(),
            i <= n,
            r@ == s@.subrange(0, i as int),
        decreases n - i,
    {
        let c = s.get_char(i);
        r.push(c);
        i = i + 1;
        proof {
            assert(r@ =~= s@.subrange(0, i as int));
        }
    }
    proof {
        assert(r@ =~= s@);
    }
    r
}

/// Relies on `core::iter::Iterator::collect` building a `String` from
/// a sequence of characters in order.
#[verifier::external_body]
pub fn string_from_chars(v: &Vec<char>) -> (r: String)
    ensures
        r@ == v@,
{
    v.iter().collect()
}

/// Does `pat` occur in `hay` starting at position `pos`?
pub fn matches_at(hay: &Vec<char>, pos: usize, pat: &str) -> (r: bool)
    requires
        pos <= hay@.len(),
    ensures
        r == (pos + pat@.len() <= hay@.len() && hay@.subrange(
            pos as int,
            pos + pat@.len(),
        ) == pat@),
{
    let n: usize = pat.unicode_len();
    if hay.len() - pos < n {
        return false;
    }
    let mut i: usize = 0;
    while i < n
        invariant
            n == pat@.len(),
            pos + n <= hay@.len(),
            hay@.len() <= usize::MAX,
            i <= n,
            forall|j: int| 0 <= j < i ==> hay@[pos + j] == pat@[j],
        decreases n - i,
    {
        if hay[pos + i] != pat.get_char(i) {
            proof {
                let sub = hay@.subrange(pos as int, pos + pat@.len());
                assert(sub[i as int] != pat@[i as int]);
            }
            return false;
        }
        i = i + 1;
    }
    proof {
        assert(hay@.subrange(pos as int, pos + pat@.len()) =~= pat@);
    }
    true
}

/// Does the character vector start with the given pattern?
pub fn starts_with_pat(hay: &Vec<char>, pat: &str) -> (r: bool)
    ensures
        r == starts_with(hay@, pat@),
{
    matches_at(hay, 0, pat)
}

/// Does the character vector end with the given pattern?
pub fn ends_with_pat(hay: &Vec<char>, pat: &str) -> (r: bool)
    ensures
        r == ends_with(hay@, pat@),
{
    let n: usize = pat.unicode_len();
    if hay.len() < n {
        return false;
    }
    matches_at(hay, hay.len() - n, pat)
}

/// Matching a pattern inside `s` at `pos` is the same as matching it
/// at the front of `s` with the first `pos` characters skipped.
pub proof fn lemma_skip_starts_with(s: Seq<char>, pos: int, p: Seq<char>)
    requires
        0 <= pos <= s.len(),
    ensures
        starts_with(s.skip(pos), p) == (pos + p.len() <= s.len() && s.subrange(
            pos,
            pos + p.len(),
        ) == p),
{
    if pos + p.len() <= s.len() {
        assert(s.skip(pos).subrange(0, p.len() as int) =~= s.subrange(pos, pos + p.len()));
    }
}

/// Copy of the characters of `v` between `a` (inclusive) and `b`
/// (exclusive).
pub fn sub_vec(v: &Vec<char>, a: usize, b: usize) -> (r: Vec<char>)
    requires
        a <= b <= v@.len(),
    ensures
        r@ == v@.subrange(a as int, b as int),
{
    let mut r: Vec<char> = Vec::new();
    let mut i: usize = a;
    while i < b
        invariant
            a <= i <= b <= v@.len(),
            r@ == v@.subrange(a as int, i as int),
        decreases b - i,
    {
        r.push(v[i]);
        i = i + 1;
        proof {
            assert(r@ =~= v@.subrange(a as int, i as int));
        }
    }
    r
}

/// Is `c` blank, executably.
pub fn is_space_x(c: char) -> (r: bool)
    ensures
        r == is_space(c),
{
    c == ' ' || c == '\t' || c == '\r' || c == '\u{b}' || c == '\u{c}'
}

/// Is `c` a word character, executably.
pub fn is_word_x(c: char) -> (r: bool)
    ensures
        r == is_word_char(c),
{
    ('a' <= c && c <= 'z') || ('A' <= c && c <= 'Z') || ('0' <= c && c <= '9') || c == '_'
}

/// First position at or after `from` that does not hold a blank
/// character, or the end of the line.
pub open spec fn space_run_end(line: Seq<char>, from: int) -> int
    decreases line.len() - from,
{
    if from < 0 || from >= line.len() {
        line.len() as int
    } else if is_space(line[from]) {
        space_run_end(line, from + 1)
    } else {
        from
    }
}

/// First position at or after `from` that does not hold a word
/// character, or the end of the line.
pub open spec fn word_run_end(line: Seq<char>, from: int) -> int
    decreases line.len() - from,
{
    if from < 0 || from >= line.len() {
        line.len() as int
    } else if is_word_char(line[from]) {
        word_run_end(line, from + 1)
    } else {
        from
    }
}

/// Walk past a run of blank characters.
pub fn space_run_x(line: &Vec<char>, from: usize) -> (r: usize)
    requires
        from <= line@.len(),
    ensures
        r == space_run_end(line@, from as int),
        from <= r <= line@.len(),
{
    let mut i: usize = from;
    while i < line.len() && is_space_x(line[i])
        invariant
            from <= i <= line@.len(),
            space_run_end(line@, from as int) == space_run_end(line@, i as int),
        decreases line@.len() - i,
    {
        i = i + 1;
    }
    i
}

/// Walk past a run of word characters.
pub fn word_run_x(line: &Vec<char>, from: usize) -> (r: usize)
    requires
        from <= line@.len(),
    ensures
        r == word_run_end(line@, from as int),
        from <= r <= line@.len(),
{
    let mut i: usize = from;
    while i < line.len() && is_word_x(line[i])
        invariant
            from <= i <= line@.len(),
            word_run_end(line@, from as int) == word_run_end(line@, i as int),
        decreases line@.len() - i,
    {
        i = i + 1;
    }
    i
}

/// ASCII lower-casing of a character vector.
pub fn to_lower(v: &Vec<char>) -> (r: Vec<char>)
    ensures
        r@ == lower_seq(v@),
{
    let mut r: Vec<char> = Vec::new();
    let mut i: usize = 0;
    while i < v.len()
        invariant
            i <= v@.len(),
            r@ == lower_seq(v@.subrange(0, i as int)),
        decreases v@.len() - i,
    {
        let c = v[i];
        let lc: char = if 'A' <= c && c <= 'Z' {
            ((c as u8) + 32) as char
        } else {
            c
        };
        assert(lc == lower_char(c));
        r.push(lc);
        i = i + 1;
        proof {
            assert(r@ =~= lower_seq(v@.subrange(0, i as int)));
        }
    }
    proof {
        assert(r@ =~= lower_seq(v@));
    }
    r
}

} // verus!
