//! The store of kitties, each under its DNA.

use crate::bytes::same_bytes;
use crate::types::{Kitty, KittyView};
use vstd::prelude::*;

verus! {

/// Whether one of `kitties` has this DNA.
spec fn holds(kitties: Seq<Kitty>, dna: Seq<u8>) -> bool {
    exists|i: int| 0 <= i < kitties.len() && (#[trigger] kitties[i]).dna@ == dna
}

/// A place at which `kitties` has this DNA.
spec fn slot_of(kitties: Seq<Kitty>, dna: Seq<u8>) -> int {
    choose|i: int| 0 <= i < kitties.len() && (#[trigger] kitties[i]).dna@ == dna
}

/// No two of `kitties` have the same DNA.
spec fn distinct(kitties: Seq<Kitty>) -> bool {
    forall|i: int, j: int|
        0 <= i < j < kitties.len() ==> (#[trigger] kitties[i]).dna@ != (#[trigger] kitties[j]).dna@
}

/// The map from DNA to kitty that `kitties` stands for.
spec fn as_map(kitties: Seq<Kitty>) -> Map<Seq<u8>, KittyView> {
    Map::new(|dna: Seq<u8>| holds(kitties, dna), |dna: Seq<u8>| kitties[slot_of(kitties, dna)]@)
}

/// Where DNAs are distinct, the kitty at a place is the one its DNA maps to.
proof fn lemma_slot(kitties: Seq<Kitty>, at: int)
    requires
        distinct(kitties),
        0 <= at < kitties.len(),
    ensures
        holds(kitties, kitties[at].dna@),
        slot_of(kitties, kitties[at].dna@) == at,
        as_map(kitties).contains_key(kitties[at].dna@),
        as_map(kitties)[kitties[at].dna@] == kitties[at]@,
{
    let dna = kitties[at].dna@;
    let found = slot_of(kitties, dna);
    assert(0 <= found < kitties.len() && kitties[found].dna@ == dna);
}

/// Appending a kitty with a new DNA adds it to the map.
proof fn lemma_push(kitties: Seq<Kitty>, kitty: Kitty)
    requires
        distinct(kitties),
        !holds(kitties, kitty.dna@),
    ensures
        distinct(kitties.push(kitty)),
        as_map(kitties.push(kitty)) == as_map(kitties).insert(kitty.dna@, kitty@),
{
    let more = kitties.push(kitty);
    assert forall|i: int, j: int| 0 <= i < j < more.len() implies (#[trigger] more[i]).dna@ != (
    #[trigger] more[j]).dna@ by {
        if j == kitties.len() {
            assert(kitties[i].dna@ != kitty.dna@);
        } else {
            assert(kitties[i].dna@ != kitties[j].dna@);
        }
    }
    assert forall|dna: Seq<u8>| holds(more, dna) <==> holds(kitties, dna) || dna == kitty.dna@ by {
        if holds(more, dna) {
            let i = slot_of(more, dna);
            if i < kitties.len() {
                assert(kitties[i].dna@ == dna);
            }
        }
        if holds(kitties, dna) {
            let i = slot_of(kitties, dna);
            assert(more[i].dna@ == dna);
        }
        if dna == kitty.dna@ {
            assert(more[kitties.len() as int].dna@ == dna);
        }
    }
    assert forall|dna: Seq<u8>| holds(more, dna) implies as_map(more)[dna] == as_map(
        kitties,
    ).insert(kitty.dna@, kitty@)[dna] by {
        if dna == kitty.dna@ {
            lemma_slot(more, kitties.len() as int);
        } else {
            let i = slot_of(kitties, dna);
            assert(more[i] == kitties[i]);
            lemma_slot(more, i);
        }
    }
    assert(as_map(more) =~= as_map(kitties).insert(kitty.dna@, kitty@));
}

/// Putting a kitty in the place of one with the same DNA replaces it in the
/// map.
proof fn lemma_update(kitties: Seq<Kitty>, at: int, kitty: Kitty)
    requires
        distinct(kitties),
        0 <= at < kitties.len(),
        kitties[at].dna@ == kitty.dna@,
    ensures
        distinct(kitties.update(at, kitty)),
        as_map(kitties.update(at, kitty)) == as_map(kitties).insert(kitty.dna@, kitty@),
{
    let new = kitties.update(at, kitty);
    assert forall|i: int, j: int| 0 <= i < j < new.len() implies (#[trigger] new[i]).dna@ != (
    #[trigger] new[j]).dna@ by {
        assert(kitties[i].dna@ != kitties[j].dna@);
    }
    assert forall|dna: Seq<u8>| holds(new, dna) <==> holds(kitties, dna) by {
        if holds(new, dna) {
            let i = slot_of(new, dna);
            assert(kitties[i].dna@ == dna);
        }
        if holds(kitties, dna) {
            let i = slot_of(kitties, dna);
            assert(new[i].dna@ == dna);
        }
    }
    lemma_slot(kitties, at);
    assert forall|dna: Seq<u8>| holds(new, dna) implies as_map(new)[dna] == as_map(kitties).insert(
        kitty.dna@,
        kitty@,
    )[dna] by {
        if dna == kitty.dna@ {
            lemma_slot(new, at);
        } else {
            let i = slot_of(kitties, dna);
            assert(new[i] == kitties[i]);
            lemma_slot(new, i);
        }
    }
    assert(as_map(new) =~= as_map(kitties).insert(kitty.dna@, kitty@));
}

/// Where DNAs are distinct, the map has as many entries as there are kitties.
proof fn lemma_len(kitties: Seq<Kitty>)
    requires
        distinct(kitties),
    ensures
        as_map(kitties).dom().finite(),
        as_map(kitties).dom().len() == kitties.len(),
    decreases kitties.len(),
{
    if kitties.len() == 0 {
        assert(as_map(kitties).dom() =~= Set::<Seq<u8>>::empty());
    } else {
        let rest = kitties.drop_last();
        let last = kitties.last();
        assert forall|i: int, j: int| 0 <= i < j < rest.len() implies (#[trigger] rest[i]).dna@ != (
        #[trigger] rest[j]).dna@ by {
            assert(kitties[i].dna@ != kitties[j].dna@);
        }
        if holds(rest, last.dna@) {
            let i = slot_of(rest, last.dna@);
            assert(kitties[i].dna@ == kitties[kitties.len() - 1].dna@);
        }
        lemma_len(rest);
        lemma_push(rest, last);
        assert(rest.push(last) =~= kitties);
        assert(!as_map(rest).dom().contains(last.dna@));
        assert(as_map(kitties).dom() =~= as_map(rest).dom().insert(last.dna@));
    }
}

/// The stored kitties. No DNA is stored twice.
pub struct KittyDNAs {
    kitties: Vec<Kitty>,
}

impl View for KittyDNAs {
    type V = Map<Seq<u8>, KittyView>;

    closed spec fn view(&self) -> Map<Seq<u8>, KittyView> {
        as_map(self.kitties@)
    }
}

impl KittyDNAs {
    /// The store is sound: no DNA is stored twice.
    pub closed spec fn wf(&self) -> bool {
        distinct(self.kitties@)
    }

    /// A sound store holds finitely many kitties, and no more than a machine
    /// can address.
    pub proof fn lemma_len_fits(&self)
        requires
            self.wf(),
        ensures
            self@.dom().finite(),
            self@.dom().len() <= usize::MAX,
    {
        lemma_len(self.kitties@);
        assert(self.kitties.len() == self.kitties@.len());
    }

    /// A store that holds nothing.
    pub fn new() -> (store: KittyDNAs)
        ensures
            store.wf(),
            store@ == Map::<Seq<u8>, KittyView>::empty(),
    {
        let store = KittyDNAs { kitties: Vec::new() };
        assert(store@ =~= Map::<Seq<u8>, KittyView>::empty());
        store
    }

    /// The place at which `dna` is stored, if it is.
    fn find(&self, dna: &Vec<u8>) -> (found: Option<usize>)
        requires
            self.wf(),
        ensures
            match found {
                Some(at) => {
                    &&& at < self.kitties.len()
                    &&& self.kitties[at as int].dna@ == dna@
                    &&& self@.contains_key(dna@)
                    &&& self@[dna@] == self.kitties[at as int]@
                },
                None => !self@.contains_key(dna@),
            },
    {
        let mut at: usize = 0;
        while at < self.kitties.len()
            invariant
                self.wf(),
                at <= self.kitties.len(),
                forall|i: int| 0 <= i < at ==> (#[trigger] self.kitties[i]).dna@ != dna@,
            decreases self.kitties.len() - at,
        {
            if same_bytes(&self.kitties[at].dna, dna) {
                proof {
                    lemma_slot(self.kitties@, at as int);
                }
                return Some(at);
            }
            at += 1;
        }
        None
    }

    /// Whether a kitty with this DNA is stored.
    pub fn contains_key(&self, dna: &Vec<u8>) -> (stored: bool)
        requires
            self.wf(),
        ensures
            stored == self@.contains_key(dna@),
    {
        self.find(dna).is_some()
    }

    /// The kitty with this DNA, if one is stored.
    pub fn get(&self, dna: &Vec<u8>) -> (found: Option<&Kitty>)
        requires
            self.wf(),
        ensures
            match found {
                Some(kitty) => self@.contains_key(dna@) && kitty@ == self@[dna@],
                None => !self@.contains_key(dna@),
            },
    {
        match self.find(dna) {
            Some(at) => Some(&self.kitties[at]),
            None => None,
        }
    }

    /// Stores `kitty` under its DNA. A kitty that was stored under that DNA
    /// is replaced.
    pub fn insert(&mut self, kitty: Kitty)
        requires
            old(self).wf(),
        ensures
            final(self).wf(),
            final(self)@ == old(self)@.insert(kitty.dna@, kitty@),
    {
        match self.find(&kitty.dna) {
            Some(at) => {
                proof {
                    lemma_update(self.kitties@, at as int, kitty);
                }
                self.kitties[at] = kitty;
            },
            None => {
                proof {
                    lemma_push(self.kitties@, kitty);
                }
                self.kitties.push(kitty);
            },
        }
    }
}

} // verus!
