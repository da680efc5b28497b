//! The null-terminated string list that trails a structure's formatted area.
//!
//! Entries are split on null bytes and referenced by 1-based index. Bytes are
//! decoded as Latin-1: each byte becomes the character with the same code
//! point, so no byte sequence is ever rejected or altered.

use vstd::prelude::*;

verus! {

/// The Latin-1 reading of `b`: one character per byte, same code point.
pub open spec fn latin1(b: Seq<u8>) -> Seq<char> {
    Seq::new(b.len(), |i: int| b[i] as char)
}

/// The index of the first null byte of `t`, or `t.len()` when none occurs.
pub open spec fn first_nul(t: Seq<u8>) -> int
    decreases t.len(),
{
    if t.len() == 0 {
        0
    } else if t[0] == 0 {
        0
    } else {
        1 + first_nul(t.drop_first())
    }
}

pub proof fn lemma_first_nul_bounds(t: Seq<u8>)
    ensures
        0 <= first_nul(t) <= t.len(),
    decreases t.len(),
{
    if t.len() > 0 && t[0] != 0 {
        lemma_first_nul_bounds(t.drop_first());
    }
}

/// `first_nul` is pinned by a scan that saw no null before `k` and one (or
/// the buffer's end) at `k`.
pub proof fn lemma_first_nul_is(t: Seq<u8>, k: int)
    requires
        0 <= k <= t.len(),
        forall|j: int| 0 <= j < k ==> t[j] != 0,
        k == t.len() || t[k] == 0,
    ensures
        first_nul(t) == k,
    decreases k,
{
    if k == 0 {
    } else {
        assert(t[0] != 0);
        lemma_first_nul_is(t.drop_first(), k - 1);
    }
}

/// The entries of a string region: null-terminated runs, ending at the first
/// empty run (the extra null that closes the list) or at the buffer's end.
pub open spec fn split_strings(t: Seq<u8>) -> Seq<Seq<u8>>
    decreases t.len(),
{
    if t.len() == 0 || t[0] == 0 {
        Seq::empty()
    } else {
        proof {
            lemma_first_nul_bounds(t);
        }
        let k = first_nul(t);
        if k == t.len() {
            seq![t]
        } else {
            seq![t.subrange(0, k)] + split_strings(t.skip(k + 1))
        }
    }
}

/// The decoded entries of a string region, in order.
pub open spec fn strings_of(t: Seq<u8>) -> Seq<Seq<char>> {
    split_strings(t).map_values(|s: Seq<u8>| latin1(s))
}

/// Relies on `String::push`: appends exactly the given character.
#[verifier::external_body]
fn push_char(s: &mut String, c: char)
    ensures
        final(s)@ == old(s)@.push(c),
{
    s.push(c);
}

/// The Latin-1 decoding of `v[start..end]` as an owned string.
pub fn decode_latin1(v: &Vec<u8>, start: usize, end: usize) -> (r: String)
    requires
        start <= end <= v@.len(),
    ensures
        r@ == latin1(v@.subrange(start as int, end as int)),
{
    let mut r = String::new();
    let mut i: usize = start;
    while i < end
        invariant
            start <= i <= end <= v@.len(),
            r@ == latin1(v@.subrange(start as int, i as int)),
        decreases end - i,
    {
        let c: char = v[i] as char;
        push_char(&mut r, c);
        proof {
            assert(r@ =~= latin1(v@.subrange(start as int, i + 1)));
        }
        i = i + 1;
    }
    r
}

/// The decoded string list of one structure.
pub struct Strings {
    entries: Vec<String>,
}

impl View for Strings {
    type V = Seq<Seq<char>>;

    closed spec fn view(&self) -> Seq<Seq<char>> {
        self.entries@.map_values(|s: String| s@)
    }
}

impl Strings {
    /// Splits the string region `area` (the bytes after the formatted area,
    /// terminator included) into its decoded entries.
    pub fn new(area: Vec<u8>) -> (r: Strings)
        ensures
            r@ == strings_of(area@),
    {
        let mut entries: Vec<String> = Vec::new();
        let mut i: usize = 0;
        proof {
            assert(area@.skip(0) =~= area@);
            assert(entries@.map_values(|s: String| s@) =~= Seq::<Seq<char>>::empty());
            assert(strings_of(area@) =~= entries@.map_values(|s: String| s@) + strings_of(
                area@.skip(0),
            ));
        }
        while i < area.len() && area[i] != 0
            invariant
                0 <= i <= area@.len(),
                strings_of(area@) =~= entries@.map_values(|s: String| s@) + strings_of(
                    area@.skip(i as int),
                ),
        decreases area@.len() - i,
    {
            let ghost t = area@.skip(i as int);
            // scan for the terminating null of this entry
            let mut j: usize = i;
            while j < area.len() && area[j] != 0
                invariant
                    i <= j <= area@.len(),
                    forall|m: int| i <= m < j ==> area@[m] != 0,
                decreases area@.len() - j,
            {
                j = j + 1;
            }
            proof {
                assert(forall|m: int| 0 <= m < j - i ==> t[m] != 0);
                lemma_first_nul_is(t, j - i);
            }
            let s = decode_latin1(&area, i, j);
            entries.push(s);
            proof {
                let k = j - i;
                if k == t.len() {
                    assert(split_strings(t) =~= seq![t]);
                    assert(s@ =~= latin1(t));
                    assert(strings_of(t) =~= seq![s@]);
                    assert(strings_of(area@.skip(area@.len() as int)) =~= Seq::<Seq<char>>::empty());
                } else {
                    assert(t.subrange(0, k) =~= area@.subrange(i as int, j as int));
                    assert(t.skip(k + 1) =~= area@.skip(j + 1));
                    assert(split_strings(t) =~= seq![t.subrange(0, k)] + split_strings(
                        area@.skip(j + 1),
                    ));
                    assert(strings_of(t) =~= seq![s@] + strings_of(area@.skip(j + 1)));
                }
                assert(entries@.map_values(|x: String| x@) =~= entries@.drop_last().map_values(
                    |x: String| x@,
                ).push(s@));
            }
            if j < area.len() {
                i = j + 1;
            } else {
                i = j;
            }
        }
        proof {
            let t = area@.skip(i as int);
            assert(t.len() == 0 || t[0] == 0);
            assert(strings_of(t) =~= Seq::<Seq<char>>::empty());
        }
        Strings { entries }
    }

    /// How many strings the structure carries.
    pub fn len(&self) -> (r: usize)
        ensures
            r == self@.len(),
    {
        self.entries.len()
    }

    /// The string with the given 1-based index; index 0 and indexes past the
    /// end of the list are absent, not errors.
    pub fn get_string(&self, index: u8) -> (r: Option<String>)
        ensures
            r is Some <==> 1 <= index && index as int <= self@.len(),
            r matches Some(s) ==> s@ == self@[index as int - 1],
    {
        if index >= 1 && (index as usize) <= self.entries.len() {
            Some(self.entries[index as usize - 1].clone())
        } else {
            None
        }
    }
}

} // verus!
