//! A sparse mapping from grid coordinates to output base names.
//!
//! The entries are kept sorted by the packed coordinate byte with unique
//! keys, so iterating over them visits the cells in row-major coordinate
//! order — the deterministic order in which an atlas is sliced.

use vstd::prelude::*;

use crate::pos::AtlasPos;

verus! {

/// An ordered mapping from [`AtlasPos`] to an output base name (no
/// extension). [`AtlasMapping::insert`] keeps the entries sorted by the
/// packed coordinate byte and the keys unique; [`AtlasMapping::wf`] states
/// that invariant.
pub struct AtlasMapping {
    pub entries: Vec<(AtlasPos, String)>,
}

/// Where `(p, name)` lands when inserted into `s` by coordinate: before the
/// first entry with a key not below `p`, replacing it when the keys are
/// equal.
pub open spec fn spec_insert(
    s: Seq<(AtlasPos, String)>,
    p: AtlasPos,
    name: String,
) -> Seq<(AtlasPos, String)>
    decreases s.len(),
{
    if s.len() == 0 {
        seq![(p, name)]
    } else if p.code < s[0].0.code {
        seq![(p, name)] + s
    } else if p.code == s[0].0.code {
        seq![(p, name)] + s.drop_first()
    } else {
        seq![s[0]] + spec_insert(s.drop_first(), p, name)
    }
}

impl AtlasMapping {
    /// The entries are strictly sorted by the packed coordinate byte, so the
    /// keys are unique and iteration is in row-major coordinate order.
    pub open spec fn wf(&self) -> bool {
        forall|i: int, j: int|
            0 <= i < j < self.entries@.len() ==> (#[trigger] self.entries@[i]).0.code < (
            #[trigger] self.entries@[j]).0.code
    }

    /// An empty mapping.
    pub fn new() -> (r: AtlasMapping)
        ensures
            r.wf(),
            r.entries@ == Seq::<(AtlasPos, String)>::empty(),
    {
        AtlasMapping { entries: Vec::new() }
    }

    /// The number of mapped cells.
    pub fn len(&self) -> (r: usize)
        ensures
            r == self.entries@.len(),
    {
        self.entries.len()
    }

    /// Inserts `name` at coordinate `p`, keeping the entries sorted and the
    /// keys unique: an entry already at `p` is replaced.
    pub fn insert(&mut self, p: AtlasPos, name: String)
        requires
            old(self).wf(),
        ensures
            final(self).wf(),
            final(self).entries@ == spec_insert(old(self).entries@, p, name),
    {
        let ghost s0 = self.entries@;
        let mut idx: usize = 0;
        while idx < self.entries.len() && self.entries[idx].0.code < p.code
            invariant
                self.entries@ == s0,
                idx <= s0.len(),
                forall|k: int| 0 <= k < idx ==> (#[trigger] s0[k]).0.code < p.code,
            decreases s0.len() - idx,
        {
            idx = idx + 1;
        }
        proof {
            lemma_spec_insert_at(s0, p, name, idx as int);
        }
        if idx < self.entries.len() && self.entries[idx].0.code == p.code {
            self.entries.remove(idx);
            self.entries.insert(idx, (p, name));
            proof {
                assert(self.entries@ =~= s0.subrange(0, idx as int) + seq![(p, name)]
                    + s0.subrange(idx as int + 1, s0.len() as int));
            }
        } else {
            self.entries.insert(idx, (p, name));
            proof {
                assert(self.entries@ =~= s0.subrange(0, idx as int) + seq![(p, name)]
                    + s0.subrange(idx as int, s0.len() as int));
            }
        }
    }
}

/// When everything before `idx` has a key below `p.code` and `idx` itself
/// (if it exists) does not, `spec_insert` lands exactly at `idx`.
proof fn lemma_spec_insert_at(s: Seq<(AtlasPos, String)>, p: AtlasPos, name: String, idx: int)
    requires
        0 <= idx <= s.len(),
        forall|k: int| 0 <= k < idx ==> (#[trigger] s[k]).0.code < p.code,
        idx < s.len() ==> s[idx].0.code >= p.code,
    ensures
        idx < s.len() && s[idx].0.code == p.code ==> spec_insert(s, p, name) == s.subrange(0, idx)
            + seq![(p, name)] + s.subrange(idx + 1, s.len() as int),
        !(idx < s.len() && s[idx].0.code == p.code) ==> spec_insert(s, p, name) == s.subrange(
            0,
            idx,
        ) + seq![(p, name)] + s.subrange(idx, s.len() as int),
    decreases s.len(),
{
    if idx == 0 {
        if s.len() == 0 {
            assert(spec_insert(s, p, name) =~= s.subrange(0, 0) + seq![(p, name)] + s.subrange(
                0,
                s.len() as int,
            ));
        } else if p.code < s[0].0.code {
            assert(spec_insert(s, p, name) =~= s.subrange(0, 0) + seq![(p, name)] + s.subrange(
                0,
                s.len() as int,
            ));
        } else {
            assert(s[0].0.code == p.code);
            assert(spec_insert(s, p, name) =~= s.subrange(0, 0) + seq![(p, name)] + s.subrange(
                1,
                s.len() as int,
            ));
        }
    } else {
        let tail = s.drop_first();
        lemma_spec_insert_at(tail, p, name, idx - 1);
        assert(spec_insert(s, p, name) == seq![s[0]] + spec_insert(tail, p, name));
        if idx < s.len() && s[idx].0.code == p.code {
            assert(tail.subrange(0, idx - 1) =~= s.subrange(1, idx));
            assert(tail.subrange(idx, tail.len() as int) =~= s.subrange(
                idx + 1,
                s.len() as int,
            ));
            assert(seq![s[0]] + (tail.subrange(0, idx - 1) + seq![(p, name)] + tail.subrange(
                idx,
                tail.len() as int,
            )) =~= s.subrange(0, idx) + seq![(p, name)] + s.subrange(idx + 1, s.len() as int));
        } else {
            assert(tail.subrange(0, idx - 1) =~= s.subrange(1, idx));
            assert(tail.subrange(idx - 1, tail.len() as int) =~= s.subrange(
                idx,
                s.len() as int,
            ));
            assert(seq![s[0]] + (tail.subrange(0, idx - 1) + seq![(p, name)] + tail.subrange(
                idx - 1,
                tail.len() as int,
            )) =~= s.subrange(0, idx) + seq![(p, name)] + s.subrange(idx, s.len() as int));
        }
    }
}

} // verus!
