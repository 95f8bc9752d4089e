//! The registry itself: the three containers and the operations on them.

use crate::bytes::{copy_bytes, copy_list, dnas_view, position};
use crate::index::KittyOwners;
use crate::laws::{lemma_create_kitty_inv, lemma_empty_inv, lemma_transfer_kitty_inv};
use crate::registry::{lemma_index_of_unique, Registry};
use crate::store::KittyDNAs;
use crate::types::{gender_of, AccountId, Error, Event, Gender, Kitty};
use vstd::prelude::*;

verus! {

/// The registry of kitties. It is made empty and changes only through
/// `create_kitty` and `transfer_kitty`.
pub struct Pallet {
    quantity: u64,
    kitties: KittyDNAs,
    owners: KittyOwners,
}

impl View for Pallet {
    type V = Registry;

    closed spec fn view(&self) -> Registry {
        Registry { quantity: self.quantity as nat, kitties: self.kitties@, owners: self.owners@ }
    }
}

impl Pallet {
    /// Each container is sound for itself.
    pub closed spec fn sound(&self) -> bool {
        self.kitties.wf()
    }

    /// The registry is well formed: its containers are sound, and together
    /// they satisfy the invariant of the model.
    pub open spec fn wf(&self) -> bool {
        &&& self.sound()
        &&& self@.inv()
    }

    /// A registry in which nothing is registered.
    pub fn new() -> (pallet: Pallet)
        ensures
            pallet.wf(),
            pallet@ == Registry::empty(),
    {
        proof {
            lemma_empty_inv();
        }
        Pallet { quantity: 0, kitties: KittyDNAs::new(), owners: KittyOwners::new() }
    }

    /// Derives the category of `dna`. The result depends on nothing but the
    /// bytes given.
    pub fn kitty_gender(dna: &Vec<u8>) -> (gender: Gender)
        ensures
            gender == gender_of(dna@),
    {
        if dna.len() % 2 == 0 {
            Gender::Male
        } else {
            Gender::Female
        }
    }

    /// How many kitties are registered.
    pub fn quantity(&self) -> (quantity: u64)
        ensures
            quantity == self@.quantity,
    {
        self.quantity
    }

    /// The kitty registered under `dna`, if there is one.
    pub fn kitty_detail(&self, dna: &Vec<u8>) -> (found: Option<&Kitty>)
        requires
            self.wf(),
        ensures
            match found {
                Some(kitty) => self@.kitties.contains_key(dna@) && kitty@ == self@.kitties[dna@],
                None => !self@.kitties.contains_key(dna@),
            },
    {
        self.kitties.get(dna)
    }

    /// The DNAs that `who` holds, in the order of its list; none for an
    /// account that never received a kitty.
    pub fn ownership(&self, who: AccountId) -> (held: Vec<Vec<u8>>)
        ensures
            dnas_view(held@) == self@.owned(who),
    {
        match self.owners.get(who) {
            Some(list) => copy_list(list),
            None => Vec::new(),
        }
    }

    /// Registers a kitty with this DNA and price for `who`, at time `now`.
    ///
    /// Refused with `PriceTooLow` for a price of zero, else with
    /// `AlreadyExisted` where the DNA is registered. A refusal changes
    /// nothing.
    pub fn create_kitty(&mut self, who: AccountId, dna: Vec<u8>, price: u32, now: u128) -> (res:
        Result<Event, Error>)
        requires
            old(self).wf(),
        ensures
            final(self).wf(),
            final(self)@ == old(self)@.after(old(self)@.create_kitty(who, dna@, price, now)),
            match old(self)@.create_kitty(who, dna@, price, now) {
                Ok((_, event)) => (res matches Ok(e) && e@ == event),
                Err(error) => (res matches Err(e) && e == error) && *final(self) == *old(self),
            },
    {
        if price == 0 {
            return Err(Error::PriceTooLow);
        }
        if self.kitties.contains_key(&dna) {
            return Err(Error::AlreadyExisted);
        }
        let kitty = Kitty {
            dna: copy_bytes(&dna),
            price,
            gender: Self::kitty_gender(&dna),
            owner: who,
            created_date: now,
        };
        proof {
            lemma_create_kitty_inv(self@, who, dna@, price, now);
        }
        self.kitties.insert(kitty);
        proof {
            self.kitties.lemma_len_fits();
        }
        self.quantity = self.quantity + 1;
        self.owners.push(who, copy_bytes(&dna));
        Ok(Event::CreatedKitty(dna, who))
    }

    /// Gives the kitty with this DNA from `who` to `to`.
    ///
    /// Refused with `WrongReceiver` where `to` is `who`, else with
    /// `NoneExisted` where no such kitty is registered, else with `NotOwner`
    /// where the list of `who` does not name it. A refusal changes nothing.
    /// The kitty leaves the list of `who` by a swap with the last entry, so
    /// that list may come out in another order.
    pub fn transfer_kitty(&mut self, who: AccountId, dna: Vec<u8>, to: AccountId) -> (res: Result<
        Event,
        Error,
    >)
        requires
            old(self).wf(),
        ensures
            final(self).wf(),
            final(self)@ == old(self)@.after(old(self)@.transfer_kitty(who, dna@, to)),
            match old(self)@.transfer_kitty(who, dna@, to) {
                Ok((_, event)) => (res matches Ok(e) && e@ == event),
                Err(error) => (res matches Err(e) && e == error) && *final(self) == *old(self),
            },
    {
        if to == who {
            return Err(Error::WrongReceiver);
        }
        let kitty = match self.kitties.get(&dna) {
            Some(kitty) => kitty,
            None => {
                return Err(Error::NoneExisted);
            },
        };
        let held = match self.owners.get(who) {
            Some(list) => position(list, &dna),
            None => None,
        };
        let at = match held {
            Some(at) => at,
            None => {
                return Err(Error::NotOwner);
            },
        };
        proof {
            lemma_index_of_unique(self@.owned(who), at as int);
            lemma_transfer_kitty_inv(self@, who, dna@, to);
        }
        let mut moved = kitty.clone();
        moved.owner = to;
        self.owners.swap_remove(who, at);
        self.owners.push(to, copy_bytes(&dna));
        self.kitties.insert(moved);
        Ok(Event::TransferKitty(who, to, dna))
    }
}

} // verus!
