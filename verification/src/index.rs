//! The index from each account to the DNAs it holds.

use crate::bytes::dnas_view;
use crate::registry::{list_of, swap_removed};
use crate::types::AccountId;
use std::collections::HashMap;
use vstd::prelude::*;

verus! {

broadcast use vstd::std_specs::hash::group_hash_axioms;

/// For each account that ever received a kitty, the list of DNAs it holds.
/// A list is kept once it exists, even when it is empty.
pub struct KittyOwners {
    lists: HashMap<AccountId, Vec<Vec<u8>>>,
}

impl View for KittyOwners {
    type V = Map<AccountId, Seq<Seq<u8>>>;

    closed spec fn view(&self) -> Map<AccountId, Seq<Seq<u8>>> {
        self.lists@.map_values(|list: Vec<Vec<u8>>| dnas_view(list@))
    }
}

impl KittyOwners {
    /// An index without any list.
    pub fn new() -> (index: KittyOwners)
        ensures
            index@ == Map::<AccountId, Seq<Seq<u8>>>::empty(),
    {
        let index = KittyOwners { lists: HashMap::new() };
        assert(index@ =~= Map::<AccountId, Seq<Seq<u8>>>::empty());
        index
    }

    /// The list of `who`, if it has one.
    pub fn get(&self, who: AccountId) -> (found: Option<&Vec<Vec<u8>>>)
        ensures
            match found {
                Some(list) => self@.contains_key(who) && dnas_view(list@) == self@[who],
                None => !self@.contains_key(who),
            },
    {
        self.lists.get(&who)
    }

    /// Appends `dna` to the list of `who`, which is made if it is missing.
    pub fn push(&mut self, who: AccountId, dna: Vec<u8>)
        ensures
            final(self)@ == old(self)@.insert(who, list_of(old(self)@, who).push(dna@)),
    {
        let mut list = match self.lists.remove(&who) {
            Some(list) => list,
            None => Vec::new(),
        };
        assert(dnas_view(list@) =~= list_of(old(self)@, who));
        list.push(dna);
        assert(dnas_view(list@) =~= list_of(old(self)@, who).push(dna@));
        self.lists.insert(who, list);
        assert(self@ =~= old(self)@.insert(who, list_of(old(self)@, who).push(dna@)));
    }

    /// Takes the entry at `at` out of the list of `who`; the last entry of
    /// the list moves into its place.
    pub fn swap_remove(&mut self, who: AccountId, at: usize) -> (dna: Vec<u8>)
        requires
            at < list_of(old(self)@, who).len(),
        ensures
            dna@ == list_of(old(self)@, who)[at as int],
            final(self)@ == old(self)@.insert(who, swap_removed(list_of(old(self)@, who), at as int)),
    {
        let mut list = self.lists.remove(&who).unwrap();
        assert(dnas_view(list@) =~= list_of(old(self)@, who));
        let dna = list.swap_remove(at);
        assert(dnas_view(list@) =~= swap_removed(list_of(old(self)@, who), at as int));
        self.lists.insert(who, list);
        assert(self@ =~= old(self)@.insert(
            who,
            swap_removed(list_of(old(self)@, who), at as int),
        ));
        dna
    }
}

} // verus!
