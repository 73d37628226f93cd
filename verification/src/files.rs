//! Filename filtering and marker path computation.
//!
//! A candidate document is a file whose name ends in `.md` and is not
//! itself a marker file. The marker for a document is a hidden sibling
//! file named by a fixed prefix plus the document's filename.
use vstd::prelude::*;

use crate::text::{
    chars_vec, ends_with, ends_with_pat, lower_seq, starts_with, starts_with_pat,
    string_from_chars, to_lower,
};

verus! {

/// A filename is allowed for indexing when it ends with `.md` and does
/// not start with the marker prefix. The check is case-sensitive: the
/// caller folds the name to lower case first when a case-insensitive
/// test is wanted.
pub open spec fn spec_is_allowed(name: Seq<char>) -> bool {
    ends_with(name, ".md"@) && !starts_with(name, ".de.sopicki.cuelib"@)
}

pub fn is_allowed(filename: &str) -> (r: bool)
    ensures
        r == spec_is_allowed(filename@),
{
    let v = chars_vec(filename);
    ends_with_pat(&v, ".md") && !starts_with_pat(&v, ".de.sopicki.cuelib")
}

/// A filename names a candidate document iff, after ASCII case folding,
/// it ends with `.md` and does not start with the marker prefix.
pub fn is_candidate(filename: &str) -> (r: bool)
    ensures
        r == spec_is_allowed(lower_seq(filename@)),
        r == (ends_with(lower_seq(filename@), ".md"@) && !starts_with(
            lower_seq(filename@),
            ".de.sopicki.cuelib"@,
        )),
{
    let v = chars_vec(filename);
    let low = to_lower(&v);
    ends_with_pat(&low, ".md") && !starts_with_pat(&low, ".de.sopicki.cuelib")
}

/// A marker file is never itself a candidate document, whatever
/// document name it was derived from and however its case is folded:
/// the files a run writes are not picked up by the next run.
pub proof fn lemma_marker_not_candidate(name: Seq<char>)
    ensures
        !spec_is_allowed(lower_seq(".de.sopicki.cuelib."@ + name)),
{
    reveal_strlit(".de.sopicki.cuelib.");
    reveal_strlit(".de.sopicki.cuelib");
    let cat = ".de.sopicki.cuelib."@ + name;
    let low = lower_seq(cat);
    assert forall|i: int| 0 <= i < 18 implies low[i] == ".de.sopicki.cuelib"@[i] by {
        assert(cat[i] == ".de.sopicki.cuelib."@[i]);
    }
    assert(low.subrange(0, 18) =~= ".de.sopicki.cuelib"@);
    assert(starts_with(low, ".de.sopicki.cuelib"@));
}

/// Index of the character just after the last `/` in `p`, or 0 when `p`
/// holds no separator.
pub open spec fn after_last_sep(p: Seq<char>) -> int
    decreases p.len(),
{
    if p.len() == 0 {
        0
    } else if p.last() == '/' {
        p.len() as int
    } else {
        after_last_sep(p.drop_last())
    }
}

/// The marker path for a document path: the directory part unchanged,
/// then the marker prefix, then the document's filename.
pub open spec fn spec_marker_path(p: Seq<char>) -> Seq<char> {
    p.subrange(0, after_last_sep(p)) + ".de.sopicki.cuelib."@ + p.subrange(
        after_last_sep(p),
        p.len() as int,
    )
}

proof fn lemma_after_last_sep_bounds(p: Seq<char>)
    ensures
        0 <= after_last_sep(p) <= p.len(),
        forall|j: int| after_last_sep(p) <= j < p.len() ==> p[j] != '/',
        after_last_sep(p) > 0 ==> p[after_last_sep(p) - 1] == '/',
    decreases p.len(),
{
    if p.len() == 0 {
    } else if p.last() == '/' {
    } else {
        lemma_after_last_sep_bounds(p.drop_last());
        assert forall|j: int| after_last_sep(p) <= j < p.len() implies p[j] != '/' by {
            if j < p.len() - 1 {
                assert(p.drop_last()[j] != '/');
            }
        }
    }
}

/// The marker path for a document path.
pub fn marker_path_for(path: &str) -> (r: String)
    ensures
        r@ == spec_marker_path(path@),
{
    let v = chars_vec(path);
    proof {
        lemma_after_last_sep_bounds(v@);
    }
    // Find the position just after the last separator.
    let mut cut: usize = v.len();
    while cut > 0 && v[cut - 1] != '/'
        invariant
            cut <= v@.len(),
            forall|j: int| cut <= j < v@.len() ==> v@[j] != '/',
        decreases cut,
    {
        cut = cut - 1;
    }
    proof {
        // `cut` satisfies the same characterisation as `after_last_sep`.
        lemma_sep_unique(v@, cut as int);
    }
    let mut out: Vec<char> = Vec::new();
    let mut i: usize = 0;
    while i < cut
        invariant
            cut <= v@.len(),
            i <= cut,
            out@ == v@.subrange(0, i as int),
        decreases cut - i,
    {
        out.push(v[i]);
        i = i + 1;
        proof {
            assert(out@ =~= v@.subrange(0, i as int));
        }
    }
    let prefix = chars_vec(".de.sopicki.cuelib.");
    let mut k: usize = 0;
    while k < prefix.len()
        invariant
            cut <= v@.len(),
            k <= prefix@.len(),
            out@ == v@.subrange(0, cut as int) + prefix@.subrange(0, k as int),
        decreases prefix@.len() - k,
    {
        out.push(prefix[k]);
        k = k + 1;
        proof {
            assert(out@ =~= v@.subrange(0, cut as int) + prefix@.subrange(0, k as int));
        }
    }
    let mut j: usize = cut;
    while j < v.len()
        invariant
            cut <= j <= v@.len(),
            out@ == v@.subrange(0, cut as int) + prefix@ + v@.subrange(cut as int, j as int),
            prefix@ == ".de.sopicki.cuelib."@,
        decreases v@.len() - j,
    {
        out.push(v[j]);
        j = j + 1;
        proof {
            assert(out@ =~= v@.subrange(0, cut as int) + prefix@ + v@.subrange(
                cut as int,
                j as int,
            ));
        }
    }
    proof {
        assert(out@ =~= spec_marker_path(v@));
    }
    string_from_chars(&out)
}

/// Any position with no separator at or after it, and a separator just
/// before it (or none anywhere), is `after_last_sep`.
proof fn lemma_sep_unique(p: Seq<char>, cut: int)
    requires
        0 <= cut <= p.len(),
        forall|j: int| cut <= j < p.len() ==> p[j] != '/',
        cut > 0 ==> p[cut - 1] == '/',
    ensures
        after_last_sep(p) == cut,
    decreases p.len(),
{
    if p.len() == 0 {
    } else if p.last() == '/' {
        assert(cut == p.len());
    } else {
        assert(cut < p.len() || p[cut - 1] == '/');
        assert(cut <= p.len() - 1);
        assert forall|j: int| cut <= j < p.drop_last().len() implies p.drop_last()[j] != '/' by {
            assert(p[j] != '/');
        }
        if cut > 0 {
            assert(p.drop_last()[cut - 1] == p[cut - 1]);
        }
        lemma_sep_unique(p.drop_last(), cut);
    }
}

} // verus!
