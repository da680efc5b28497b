//! The decoded table: every structure in table order, queryable by handle
//! and by type code. Built once from a byte buffer and immutable after.

use vstd::prelude::*;
use crate::structure::{Handle, UndefinedStruct};
use crate::walker::{WalkTermination, walk_table, spec_spans, spec_termination};

verus! {

/// The index of the first structure of `s` whose handle is `h`, if any.
pub open spec fn spec_index_of_handle(s: Seq<UndefinedStruct>, h: u16) -> Option<int>
    decreases s.len(),
{
    if s.len() == 0 {
        None
    } else if s[0].header.handle.0 == h {
        Some(0)
    } else {
        match spec_index_of_handle(s.drop_first(), h) {
            Some(i) => Some(i + 1),
            None => None,
        }
    }
}

/// The indexes of the structures of `s` whose type code is `code`, in order.
pub open spec fn spec_indexes_of_type(s: Seq<UndefinedStruct>, code: u8) -> Seq<int>
    decreases s.len(),
{
    if s.len() == 0 {
        Seq::empty()
    } else {
        spec_indexes_of_type(s.drop_last(), code) + if s.last().header.struct_type == code {
            seq![s.len() - 1]
        } else {
            Seq::empty()
        }
    }
}

/// The handles that occur a second (or later) time in `s`, one entry per
/// repeated occurrence, in order.
pub open spec fn spec_duplicate_handles(s: Seq<UndefinedStruct>) -> Seq<u16>
    decreases s.len(),
{
    if s.len() == 0 {
        Seq::empty()
    } else {
        spec_duplicate_handles(s.drop_last()) + if spec_index_of_handle(
            s.drop_last(),
            s.last().header.handle.0,
        ) is Some {
            seq![s.last().header.handle.0]
        } else {
            Seq::empty()
        }
    }
}

/// `spec_index_of_handle` is pinned by a scan: no match before `i`, match at `i`.
pub proof fn lemma_index_of_handle_is(s: Seq<UndefinedStruct>, h: u16, i: int)
    requires
        0 <= i < s.len(),
        forall|j: int| 0 <= j < i ==> (#[trigger] s[j]).header.handle.0 != h,
        s[i].header.handle.0 == h,
    ensures
        spec_index_of_handle(s, h) == Some(i),
    decreases i,
{
    if i > 0 {
        lemma_index_of_handle_is(s.drop_first(), h, i - 1);
    }
}

/// `spec_index_of_handle` is absent when a full scan found no match.
pub proof fn lemma_index_of_handle_none(s: Seq<UndefinedStruct>, h: u16)
    requires
        forall|j: int| 0 <= j < s.len() ==> (#[trigger] s[j]).header.handle.0 != h,
    ensures
        spec_index_of_handle(s, h) is None,
    decreases s.len(),
{
    if s.len() > 0 {
        lemma_index_of_handle_none(s.drop_first(), h);
    }
}

/// The handle index looks only at the handles: two tables whose structures
/// carry the same handles in the same order agree on every handle lookup.
pub proof fn lemma_index_of_handle_congruent(s1: Seq<UndefinedStruct>, s2: Seq<UndefinedStruct>, h: u16)
    requires
        s1.len() == s2.len(),
        forall|i: int| 0 <= i < s1.len() ==> (#[trigger] s1[i]).header == s2[i].header,
    ensures
        spec_index_of_handle(s1, h) == spec_index_of_handle(s2, h),
    decreases s1.len(),
{
    if s1.len() > 0 {
        assert(forall|i: int| 0 <= i < s1.drop_first().len() ==> (#[trigger] s1.drop_first()[i]).header
            == s2.drop_first()[i].header);
        lemma_index_of_handle_congruent(s1.drop_first(), s2.drop_first(), h);
    }
}

/// The type index looks only at the type codes, likewise.
pub proof fn lemma_indexes_of_type_congruent(s1: Seq<UndefinedStruct>, s2: Seq<UndefinedStruct>, code: u8)
    requires
        s1.len() == s2.len(),
        forall|i: int| 0 <= i < s1.len() ==> (#[trigger] s1[i]).header == s2[i].header,
    ensures
        spec_indexes_of_type(s1, code) == spec_indexes_of_type(s2, code),
    decreases s1.len(),
{
    if s1.len() > 0 {
        assert(forall|i: int| 0 <= i < s1.drop_last().len() ==> (#[trigger] s1.drop_last()[i]).header
            == s2.drop_last()[i].header);
        lemma_indexes_of_type_congruent(s1.drop_last(), s2.drop_last(), code);
    }
}

/// The full decoded table. Queries never mutate it, so a built table is safe
/// to share read-only.
pub struct StructureTable {
    structures: Vec<UndefinedStruct>,
    duplicate_handles: Vec<Handle>,
    termination: WalkTermination,
}

impl View for StructureTable {
    type V = Seq<UndefinedStruct>;

    closed spec fn view(&self) -> Seq<UndefinedStruct> {
        self.structures@
    }
}

impl StructureTable {
    /// True when this table is the decoding of the byte buffer `b`: its
    /// structures are exactly the walk of `b`, its termination is the walk's,
    /// and its duplicate-handle report follows from the structures.
    pub open spec fn is_table_for(&self, b: Seq<u8>) -> bool {
        let spans = spec_spans(b, 0, None);
        &&& self@.len() == spans.len()
        &&& forall|i: int| 0 <= i < spans.len() ==> (#[trigger] self@[i]).is_decode_of(
            b.subrange(spans[i].0, spans[i].1),
        )
        &&& self.spec_stop() == spec_termination(b, 0, None)
        &&& self.spec_duplicates() == spec_duplicate_handles(self@)
    }

    /// Why the underlying walk stopped.
    pub closed spec fn spec_stop(&self) -> WalkTermination {
        self.termination
    }

    /// Why the underlying walk stopped.
    pub fn termination(&self) -> (r: WalkTermination)
        ensures
            r == self.spec_stop(),
    {
        self.termination
    }

    /// The reported duplicate handles, as bare numbers.
    pub closed spec fn spec_duplicates(&self) -> Seq<u16> {
        self.duplicate_handles@.map_values(|h: Handle| h.0)
    }

    /// Decodes a full table buffer. Walking stops at the end-of-table
    /// marker, at the buffer's end, or at the first malformed structure;
    /// everything emitted before that point is kept. A handle that occurs
    /// twice is reported, and its first occurrence wins every lookup.
    pub fn build(raw: &Vec<u8>) -> (r: StructureTable)
        ensures
            r.is_table_for(raw@),
    {
        let walk = walk_table(raw, None);
        let structures = walk.structures;
        let mut duplicate_handles: Vec<Handle> = Vec::new();
        let mut i: usize = 0;
        proof {
            assert(structures@.take(0) =~= Seq::<UndefinedStruct>::empty());
            assert(duplicate_handles@.map_values(|h: Handle| h.0) =~= Seq::<u16>::empty());
        }
        while i < structures.len()
            invariant
                0 <= i <= structures@.len(),
                duplicate_handles@.map_values(|h: Handle| h.0) =~= spec_duplicate_handles(
                    structures@.take(i as int),
                ),
            decreases structures@.len() - i,
        {
            let h = structures[i].header.handle;
            let mut seen = false;
            let mut j: usize = 0;
            while j < i
                invariant
                    0 <= j <= i <= structures@.len(),
                    seen <==> exists|m: int| 0 <= m < j && (#[trigger] structures@[m]).header.handle.0
                        == h.0,
                decreases i - j,
            {
                if structures[j].header.handle.0 == h.0 {
                    seen = true;
                }
                j = j + 1;
            }
            proof {
                let prev = structures@.take(i as int);
                if seen {
                    let m = choose|m: int| 0 <= m < i && (#[trigger] structures@[m]).header.handle.0
                        == h.0;
                    assert(spec_index_of_handle(prev, h.0) is Some) by {
                        lemma_first_match_exists(prev, h.0, m);
                    }
                } else {
                    lemma_index_of_handle_none(prev, h.0);
                }
                assert(structures@.take(i + 1).drop_last() =~= prev);
                assert(structures@.take(i + 1).last() == structures@[i as int]);
            }
            if seen {
                duplicate_handles.push(h);
                proof {
                    assert(duplicate_handles@.map_values(|x: Handle| x.0)
                        =~= duplicate_handles@.drop_last().map_values(|x: Handle| x.0).push(h.0));
                }
            }
            i = i + 1;
        }
        proof {
            assert(structures@.take(structures@.len() as int) =~= structures@);
        }
        StructureTable { structures, duplicate_handles, termination: walk.termination }
    }

    /// Every structure, in table order.
    pub fn all(&self) -> (r: &Vec<UndefinedStruct>)
        ensures
            r@ == self@,
    {
        &self.structures
    }

    /// How many structures the table holds.
    pub fn len(&self) -> (r: usize)
        ensures
            r == self@.len(),
    {
        self.structures.len()
    }

    /// The structure with the given handle, absent when none carries it.
    /// Where a handle is duplicated, the first occurrence wins.
    pub fn by_handle(&self, handle: Handle) -> (r: Option<&UndefinedStruct>)
        ensures
            r is Some <==> spec_index_of_handle(self@, handle.0) is Some,
            r matches Some(u) ==> spec_index_of_handle(self@, handle.0) matches Some(i) && *u
                == self@[i],
    {
        let mut i: usize = 0;
        while i < self.structures.len()
            invariant
                0 <= i <= self@.len(),
                forall|j: int| 0 <= j < i ==> (#[trigger] self@[j]).header.handle.0 != handle.0,
            decreases self@.len() - i,
        {
            if self.structures[i].header.handle.0 == handle.0 {
                proof {
                    lemma_index_of_handle_is(self@, handle.0, i as int);
                }
                return Some(&self.structures[i]);
            }
            i = i + 1;
        }
        proof {
            lemma_index_of_handle_none(self@, handle.0);
        }
        None
    }

    /// The structures with the given type code, in table order (several of
    /// one type are legal, for example several memory devices).
    pub fn by_type<'a>(&'a self, code: u8) -> (r: Vec<&'a UndefinedStruct>)
        ensures
            ({
                let idxs = spec_indexes_of_type(self@, code);
                &&& r@.len() == idxs.len()
                &&& forall|k: int| 0 <= k < idxs.len() ==> *(#[trigger] r@[k]) == self@[idxs[k]]
            }),
    {
        let mut r: Vec<&'a UndefinedStruct> = Vec::new();
        let mut i: usize = 0;
        proof {
            assert(self@.take(0) =~= Seq::<UndefinedStruct>::empty());
        }
        while i < self.structures.len()
            invariant
                0 <= i <= self@.len(),
                ({
                    let idxs = spec_indexes_of_type(self@.take(i as int), code);
                    &&& r@.len() == idxs.len()
                    &&& forall|k: int| 0 <= k < idxs.len() ==> *(#[trigger] r@[k]) == self@[idxs[k]]
                }),
            decreases self@.len() - i,
        {
            proof {
                assert(self@.take(i + 1).drop_last() =~= self@.take(i as int));
                assert(self@.take(i + 1).last() == self@[i as int]);
            }
            if self.structures[i].header.struct_type == code {
                r.push(&self.structures[i]);
            }
            i = i + 1;
        }
        proof {
            assert(self@.take(self@.len() as int) =~= self@);
        }
        r
    }

    /// The handles that were reported as duplicated while building.
    pub fn duplicate_handles(&self) -> (r: &Vec<Handle>)
        ensures
            r@.map_values(|h: Handle| h.0) == self.spec_duplicates(),
    {
        &self.duplicate_handles
    }
}

/// Where some match exists, a first match exists, so the handle index is present.
proof fn lemma_first_match_exists(s: Seq<UndefinedStruct>, h: u16, m: int)
    requires
        0 <= m < s.len(),
        s[m].header.handle.0 == h,
    ensures
        spec_index_of_handle(s, h) is Some,
    decreases s.len(),
{
    if s[0].header.handle.0 == h {
    } else {
        lemma_first_match_exists(s.drop_first(), h, m - 1);
    }
}

/// Law: decoding is deterministic. Two tables decoded from the same byte
/// buffer hold structures with identical headers, formatted areas and
/// strings, stop for the same reason, report the same duplicate handles,
/// and agree on every handle and type-code query.
pub proof fn lemma_decode_idempotent(t1: &StructureTable, t2: &StructureTable, b: Seq<u8>)
    requires
        t1.is_table_for(b),
        t2.is_table_for(b),
    ensures
        t1@.len() == t2@.len(),
        forall|i: int| 0 <= i < t1@.len() ==> (#[trigger] t1@[i]).header == t2@[i].header
            && t1@[i].fields@ == t2@[i].fields@ && t1@[i].strings@ == t2@[i].strings@,
        forall|h: u16| spec_index_of_handle(t1@, h) == spec_index_of_handle(t2@, h),
        forall|c: u8| spec_indexes_of_type(t1@, c) == spec_indexes_of_type(t2@, c),
        t1.spec_stop() == t2.spec_stop(),
        t1.spec_duplicates() == t2.spec_duplicates(),
{
    let spans = spec_spans(b, 0, None);
    assert forall|i: int| 0 <= i < t1@.len() implies (#[trigger] t1@[i]).header == t2@[i].header
        && t1@[i].fields@ == t2@[i].fields@ && t1@[i].strings@ == t2@[i].strings@ by {
        let raw = b.subrange(spans[i].0, spans[i].1);
        assert(t1@[i].is_decode_of(raw));
        assert(t2@[i].is_decode_of(raw));
        assert(t1@[i].header.handle.0 == t2@[i].header.handle.0);
    }
    assert forall|h: u16| spec_index_of_handle(t1@, h) == spec_index_of_handle(t2@, h) by {
        lemma_index_of_handle_congruent(t1@, t2@, h);
    }
    assert forall|c: u8| spec_indexes_of_type(t1@, c) == spec_indexes_of_type(t2@, c) by {
        lemma_indexes_of_type_congruent(t1@, t2@, c);
    }
    lemma_duplicates_congruent(t1@, t2@);
}

/// The duplicate-handle report looks only at the handles, likewise.
proof fn lemma_duplicates_congruent(s1: Seq<UndefinedStruct>, s2: Seq<UndefinedStruct>)
    requires
        s1.len() == s2.len(),
        forall|i: int| 0 <= i < s1.len() ==> (#[trigger] s1[i]).header == s2[i].header,
    ensures
        spec_duplicate_handles(s1) == spec_duplicate_handles(s2),
    decreases s1.len(),
{
    if s1.len() > 0 {
        assert(forall|i: int| 0 <= i < s1.drop_last().len() ==> (#[trigger] s1.drop_last()[i]).header
            == s2.drop_last()[i].header);
        lemma_duplicates_congruent(s1.drop_last(), s2.drop_last());
        lemma_index_of_handle_congruent(s1.drop_last(), s2.drop_last(), s1.last().header.handle.0);
    }
}

} // verus!
