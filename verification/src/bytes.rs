//! Byte strings and lists of them, as the registry's keys.

use vstd::prelude::*;

verus! {

/// A list of byte strings as mathematics.
pub open spec fn dnas_view(list: Seq<Vec<u8>>) -> Seq<Seq<u8>> {
    list.map_values(|dna: Vec<u8>| dna@)
}

/// Whether two byte strings hold the same bytes.
pub(crate) fn same_bytes(a: &Vec<u8>, b: &Vec<u8>) -> (same: bool)
    ensures
        same == (a@ == b@),
{
    let same = *a == *b;
    proof {
        assert(a@ == b@ <==> a@ =~= b@);
    }
    same
}

/// A copy of a byte string.
pub(crate) fn copy_bytes(a: &Vec<u8>) -> (copy: Vec<u8>)
    ensures
        copy@ == a@,
{
    let copy = a.clone();
    assert(copy@ =~= a@);
    copy
}

/// A copy of a list of byte strings.
pub(crate) fn copy_list(list: &Vec<Vec<u8>>) -> (copy: Vec<Vec<u8>>)
    ensures
        dnas_view(copy@) == dnas_view(list@),
{
    let copy = list.clone();
    assert forall|i: int| 0 <= i < list.len() implies copy[i]@ == list[i]@ by {
        assert(cloned(list[i], copy[i]));
        assert(copy[i]@ =~= list[i]@);
    }
    assert(dnas_view(copy@) =~= dnas_view(list@));
    copy
}

/// The first place at which `list` holds `dna`, if it holds it at all.
pub(crate) fn position(list: &Vec<Vec<u8>>, dna: &Vec<u8>) -> (found: Option<usize>)
    ensures
        match found {
            Some(at) => {
                &&& at < list.len()
                &&& list[at as int]@ == dna@
                &&& forall|i: int| 0 <= i < at ==> list[i]@ != dna@
            },
            None => forall|i: int| 0 <= i < list.len() ==> list[i]@ != dna@,
        },
        found is Some <==> dnas_view(list@).contains(dna@),
{
    let mut at: usize = 0;
    while at < list.len()
        invariant
            at <= list.len(),
            forall|i: int| 0 <= i < at ==> list[i]@ != dna@,
        decreases list.len() - at,
    {
        if same_bytes(&list[at], dna) {
            assert(dnas_view(list@)[at as int] == dna@);
            return Some(at);
        }
        at += 1;
    }
    None
}

} // verus!
