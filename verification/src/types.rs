//! The plain data the registry is made of, each with its mathematical view.

use crate::bytes::copy_bytes;
use vstd::prelude::*;

verus! {

/// The identity of an authenticated party.
pub type AccountId = u64;

/// The category of a kitty. It is derived from the DNA alone.
#[derive(Clone, Copy, Debug, PartialEq, Eq, Structural)]
pub enum Gender {
    Male,
    Female,
}

impl Default for Gender {
    fn default() -> (gender: Gender)
        ensures
            gender == Gender::Male,
    {
        Gender::Male
    }
}

/// The category that belongs to a DNA: `Male` for an even number of bytes,
/// `Female` for an odd one.
pub open spec fn gender_of(dna: Seq<u8>) -> Gender {
    if dna.len() % 2 == 0 {
        Gender::Male
    } else {
        Gender::Female
    }
}

/// One registered kitty.
#[derive(Debug, PartialEq, Eq)]
pub struct Kitty {
    /// The key under which the kitty is registered.
    pub dna: Vec<u8>,
    pub price: u32,
    pub gender: Gender,
    pub owner: AccountId,
    /// Milliseconds on the clock of whoever registered the kitty.
    pub created_date: u128,
}

impl Clone for Kitty {
    fn clone(&self) -> (copy: Kitty)
        ensures
            copy@ == self@,
    {
        Kitty {
            dna: copy_bytes(&self.dna),
            price: self.price,
            gender: self.gender,
            owner: self.owner,
            created_date: self.created_date,
        }
    }
}

impl Default for Kitty {
    fn default() -> (kitty: Kitty)
        ensures
            kitty@ == (KittyView {
                dna: Seq::empty(),
                price: 0,
                gender: Gender::Male,
                owner: 0,
                created_date: 0,
            }),
    {
        Kitty { dna: Vec::new(), price: 0, gender: Gender::Male, owner: 0, created_date: 0 }
    }
}

/// What a `Kitty` holds, as mathematics.
pub struct KittyView {
    pub dna: Seq<u8>,
    pub price: u32,
    pub gender: Gender,
    pub owner: AccountId,
    pub created_date: u128,
}

impl View for Kitty {
    type V = KittyView;

    open spec fn view(&self) -> KittyView {
        KittyView {
            dna: self.dna@,
            price: self.price,
            gender: self.gender,
            owner: self.owner,
            created_date: self.created_date,
        }
    }
}

impl KittyView {
    /// The kitty that a registration of `dna` by `owner` stores.
    pub open spec fn fresh(dna: Seq<u8>, price: u32, owner: AccountId, now: u128) -> KittyView {
        KittyView { dna, price, gender: gender_of(dna), owner, created_date: now }
    }

    /// The same kitty in the hands of `owner`.
    pub open spec fn owned_by(self, owner: AccountId) -> KittyView {
        KittyView { owner, ..self }
    }
}

/// What a successful operation gives back.
#[derive(Debug, PartialEq, Eq)]
pub enum Event {
    /// A kitty with this DNA was registered for this owner.
    CreatedKitty(Vec<u8>, AccountId),
    /// The first account gave the kitty with this DNA to the second.
    TransferKitty(AccountId, AccountId, Vec<u8>),
}

impl Clone for Event {
    fn clone(&self) -> (copy: Event)
        ensures
            copy@ == self@,
    {
        match self {
            Event::CreatedKitty(dna, who) => Event::CreatedKitty(copy_bytes(dna), *who),
            Event::TransferKitty(from, to, dna) => Event::TransferKitty(
                *from,
                *to,
                copy_bytes(dna),
            ),
        }
    }
}

/// What an `Event` holds, as mathematics.
pub enum EventView {
    CreatedKitty(Seq<u8>, AccountId),
    TransferKitty(AccountId, AccountId, Seq<u8>),
}

impl View for Event {
    type V = EventView;

    open spec fn view(&self) -> EventView {
        match *self {
            Event::CreatedKitty(dna, who) => EventView::CreatedKitty(dna@, who),
            Event::TransferKitty(from, to, dna) => EventView::TransferKitty(from, to, dna@),
        }
    }
}

/// Why an operation was refused.
#[derive(Clone, Copy, Debug, PartialEq, Eq, Structural)]
pub enum Error {
    /// The price offered at registration was zero.
    PriceTooLow,
    /// A kitty with this DNA is registered already.
    AlreadyExisted,
    /// No kitty with this DNA is registered.
    NoneExisted,
    /// The receiver of a transfer is the caller.
    WrongReceiver,
    /// The caller does not own the kitty.
    NotOwner,
}

} // verus!
