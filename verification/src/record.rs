//! The metadata record extracted from one document: an ordered list of
//! field entries with map semantics (setting an existing field
//! overwrites it in place, reading finds the single entry for a key).
use vstd::prelude::*;

use crate::files::spec_marker_path;

verus! {

/// Index of the first entry with key `k`, or -1 when no entry has it.
pub open spec fn key_index(s: Seq<(Seq<char>, Seq<char>)>, k: Seq<char>) -> int
    decreases s.len(),
{
    if s.len() == 0 {
        -1
    } else if s[0].0 == k {
        0
    } else {
        let r = key_index(s.skip(1), k);
        if r < 0 {
            -1
        } else {
            r + 1
        }
    }
}

/// The value stored under key `k`, if any.
pub open spec fn lookup(s: Seq<(Seq<char>, Seq<char>)>, k: Seq<char>) -> Option<Seq<char>> {
    if key_index(s, k) >= 0 {
        Some(s[key_index(s, k)].1)
    } else {
        None
    }
}

/// Insert-or-overwrite: replace the entry for `k` in place, or append
/// a new entry when the key is absent.
pub open spec fn upsert(
    s: Seq<(Seq<char>, Seq<char>)>,
    k: Seq<char>,
    v: Seq<char>,
) -> Seq<(Seq<char>, Seq<char>)> {
    if key_index(s, k) >= 0 {
        s.update(key_index(s, k), (k, v))
    } else {
        s.push((k, v))
    }
}

pub proof fn lemma_key_index_found(s: Seq<(Seq<char>, Seq<char>)>, k: Seq<char>, i: int)
    requires
        0 <= i < s.len(),
        forall|j: int| 0 <= j < i ==> s[j].0 != k,
        s[i].0 == k,
    ensures
        key_index(s, k) == i,
    decreases s.len(),
{
    if i == 0 {
    } else {
        assert(s[0].0 != k);
        assert forall|j: int| 0 <= j < i - 1 implies s.skip(1)[j].0 != k by {
            assert(s.skip(1)[j] == s[j + 1]);
        }
        assert(s.skip(1)[i - 1] == s[i]);
        lemma_key_index_found(s.skip(1), k, i - 1);
    }
}

pub proof fn lemma_key_index_absent(s: Seq<(Seq<char>, Seq<char>)>, k: Seq<char>)
    requires
        forall|j: int| 0 <= j < s.len() ==> s[j].0 != k,
    ensures
        key_index(s, k) == -1,
    decreases s.len(),
{
    if s.len() == 0 {
    } else {
        assert(s[0].0 != k);
        assert forall|j: int| 0 <= j < s.skip(1).len() implies s.skip(1)[j].0 != k by {
            assert(s.skip(1)[j] == s[j + 1]);
        }
        lemma_key_index_absent(s.skip(1), k);
    }
}

/// The field map of a metadata record. Entries keep their insertion
/// order; each key occurs in at most one entry once built through
/// `set`.
#[derive(Clone, Debug, PartialEq)]
pub struct MetaMap {
    entries: Vec<(String, String)>,
}

impl View for MetaMap {
    type V = Seq<(Seq<char>, Seq<char>)>;

    closed spec fn view(&self) -> Seq<(Seq<char>, Seq<char>)> {
        self.entries.deep_view()
    }
}

impl MetaMap {
    pub fn new() -> (r: MetaMap)
        ensures
            r@ == Seq::<(Seq<char>, Seq<char>)>::empty(),
    {
        let r = MetaMap { entries: Vec::new() };
        proof {
            assert(r@ =~= Seq::<(Seq<char>, Seq<char>)>::empty());
        }
        r
    }

    /// Number of entries.
    pub fn len(&self) -> (n: usize)
        ensures
            n == self@.len(),
    {
        self.entries.len()
    }

    /// The entry at position `i`, for walking the record in order.
    pub fn entry_at(&self, i: usize) -> (r: (&String, &String))
        requires
            i < self@.len(),
        ensures
            r.0@ == self@[i as int].0,
            r.1@ == self@[i as int].1,
    {
        let e = &self.entries[i];
        (&e.0, &e.1)
    }

    /// Set `key` to `value`, overwriting any earlier entry for `key`.
    pub fn set(&mut self, key: &str, value: &str)
        ensures
            final(self)@ == upsert(old(self)@, key@, value@),
    {
        let k = String::from_str(key);
        let v = String::from_str(value);
        let mut i: usize = 0;
        while i < self.entries.len()
            invariant
                self.entries == old(self).entries,
                k@ == key@,
                v@ == value@,
                i <= self@.len(),
                forall|j: int| 0 <= j < i ==> self@[j].0 != key@,
            decreases self@.len() - i,
        {
            let hit = self.entries[i].0 == k;
            if hit {
                proof {
                    assert(self@[i as int].0 == key@);
                    lemma_key_index_found(self@, key@, i as int);
                }
                self.entries[i] = (k, v);
                proof {
                    assert(self@ =~= upsert(old(self)@, key@, value@));
                }
                return ;
            }
            proof {
                assert(self@[i as int].0 != key@);
            }
            i = i + 1;
        }
        proof {
            lemma_key_index_absent(self@, key@);
        }
        self.entries.push((k, v));
        proof {
            assert(self@ =~= upsert(old(self)@, key@, value@));
        }
    }

    /// The value stored under `key`, if any.
    pub fn get(&self, key: &str) -> (r: Option<&String>)
        ensures
            match r {
                Some(v) => lookup(self@, key@) == Some(v@),
                None => lookup(self@, key@) is None,
            },
    {
        let k = String::from_str(key);
        let mut i: usize = 0;
        while i < self.entries.len()
            invariant
                k@ == key@,
                i <= self@.len(),
                forall|j: int| 0 <= j < i ==> self@[j].0 != key@,
            decreases self@.len() - i,
        {
            if self.entries[i].0 == k {
                proof {
                    lemma_key_index_found(self@, key@, i as int);
                }
                return Some(&self.entries[i].1);
            }
            proof {
                assert(self@[i as int].0 != key@);
            }
            i = i + 1;
        }
        proof {
            lemma_key_index_absent(self@, key@);
        }
        None
    }
}

/// One document prepared for indexing: its path, raw content, the
/// extracted field map and the referenced audio file, if any.
#[derive(Clone, Debug, PartialEq)]
pub struct IndexFile {
    pub path: String,
    pub content: String,
    pub meta: MetaMap,
    pub audio_file: String,
}

impl IndexFile {
    /// A fresh record for the document at `path`, with no content and
    /// no fields yet.
    pub fn new(path: &str) -> (r: IndexFile)
        ensures
            r.path@ == path@,
            r.content@ == Seq::<char>::empty(),
            r.meta@ == Seq::<(Seq<char>, Seq<char>)>::empty(),
            r.audio_file@ == Seq::<char>::empty(),
    {
        IndexFile {
            path: String::from_str(path),
            content: String::new(),
            meta: MetaMap::new(),
            audio_file: String::new(),
        }
    }

    pub fn set_content(&mut self, content: &str)
        ensures
            final(self).content@ == content@,
            final(self).path == old(self).path,
            final(self).meta == old(self).meta,
            final(self).audio_file == old(self).audio_file,
    {
        self.content = String::from_str(content);
    }

    pub fn set_meta(&mut self, key: &str, value: &str)
        ensures
            final(self).meta@ == upsert(old(self).meta@, key@, value@),
            final(self).path == old(self).path,
            final(self).content == old(self).content,
            final(self).audio_file == old(self).audio_file,
    {
        self.meta.set(key, value);
    }

    pub fn get_meta(&self, key: String) -> (r: Option<&String>)
        ensures
            match r {
                Some(v) => lookup(self.meta@, key@) == Some(v@),
                None => lookup(self.meta@, key@) is None,
            },
    {
        self.meta.get(key.as_str())
    }

    /// The path of this document's marker file.
    pub fn index_file(&self) -> (r: Option<String>)
        ensures
            match r {
                Some(p) => p@ == spec_marker_path(self.path@),
                None => false,
            },
    {
        Some(crate::files::marker_path_for(self.path.as_str()))
    }
}

} // verus!
