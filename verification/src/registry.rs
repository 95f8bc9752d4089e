//! The registry as mathematics: three containers, the two operations on them
//! as functions from state to state, and the invariant that ties the
//! containers together.

use crate::types::{gender_of, AccountId, Error, EventView, KittyView};
use vstd::prelude::*;

verus! {

/// `list` without the entry at `at`: the last entry takes the freed place and
/// the list loses its last slot. The order of what is left is not the old one.
pub open spec fn swap_removed<A>(list: Seq<A>, at: int) -> Seq<A> {
    list.update(at, list.last()).drop_last()
}

/// The list that `owners` has for `who`; the empty one where it has none.
pub open spec fn list_of(owners: Map<AccountId, Seq<Seq<u8>>>, who: AccountId) -> Seq<Seq<u8>> {
    if owners.contains_key(who) {
        owners[who]
    } else {
        Seq::empty()
    }
}

/// How an operation ends: with the next state and the event it gives, or
/// refused.
pub type Outcome = Result<(Registry, EventView), Error>;

/// One of the two operations, with its arguments.
pub enum Call {
    CreateKitty { who: AccountId, dna: Seq<u8>, price: u32, now: u128 },
    TransferKitty { who: AccountId, dna: Seq<u8>, to: AccountId },
}

/// The whole state of the registry.
#[verifier::ext_equal]
pub struct Registry {
    /// How many kitties were registered.
    pub quantity: nat,
    /// Each registered kitty under its DNA.
    pub kitties: Map<Seq<u8>, KittyView>,
    /// For each account that ever received a kitty, the DNAs it holds now.
    pub owners: Map<AccountId, Seq<Seq<u8>>>,
}

impl Registry {
    /// The registry in which nothing was registered yet.
    pub open spec fn empty() -> Registry {
        Registry { quantity: 0, kitties: Map::empty(), owners: Map::empty() }
    }

    /// The DNAs that `who` holds; none for an account that has no list.
    pub open spec fn owned(self, who: AccountId) -> Seq<Seq<u8>> {
        list_of(self.owners, who)
    }

    /// Registration of `dna` at `price` for `who`, at time `now`.
    ///
    /// The price is checked first, then that the DNA is new. On success the
    /// kitty is stored, counted, and appended to the list of `who`.
    pub open spec fn create_kitty(
        self,
        who: AccountId,
        dna: Seq<u8>,
        price: u32,
        now: u128,
    ) -> Outcome {
        if price == 0 {
            Err(Error::PriceTooLow)
        } else if self.kitties.contains_key(dna) {
            Err(Error::AlreadyExisted)
        } else {
            Ok(
                (
                    Registry {
                        quantity: self.quantity + 1,
                        kitties: self.kitties.insert(dna, KittyView::fresh(dna, price, who, now)),
                        owners: self.owners.insert(who, self.owned(who).push(dna)),
                    },
                    EventView::CreatedKitty(dna, who),
                ),
            )
        }
    }

    /// Transfer of the kitty `dna` from `who` to `to`.
    ///
    /// Checked in this order: the receiver is not the caller, the kitty
    /// exists, the caller holds it. On success the DNA leaves the caller's
    /// list by `swap_removed`, joins the end of the receiver's list, and the
    /// stored kitty gets its new owner.
    pub open spec fn transfer_kitty(self, who: AccountId, dna: Seq<u8>, to: AccountId) -> Outcome {
        if to == who {
            Err(Error::WrongReceiver)
        } else if !self.kitties.contains_key(dna) {
            Err(Error::NoneExisted)
        } else if !self.owned(who).contains(dna) {
            Err(Error::NotOwner)
        } else {
            let given = swap_removed(self.owned(who), self.owned(who).index_of(dna));
            let taken = self.owned(to).push(dna);
            Ok(
                (
                    Registry {
                        quantity: self.quantity,
                        kitties: self.kitties.insert(dna, self.kitties[dna].owned_by(to)),
                        owners: self.owners.insert(who, given).insert(to, taken),
                    },
                    EventView::TransferKitty(who, to, dna),
                ),
            )
        }
    }

    /// The state after an operation with this outcome: the new one on
    /// success, the old one on failure.
    pub open spec fn after(self, outcome: Outcome) -> Registry {
        match outcome {
            Ok((next, _)) => next,
            Err(_) => self,
        }
    }

    /// How `call` ends in this state.
    pub open spec fn call(self, call: Call) -> Outcome {
        match call {
            Call::CreateKitty { who, dna, price, now } => self.create_kitty(who, dna, price, now),
            Call::TransferKitty { who, dna, to } => self.transfer_kitty(who, dna, to),
        }
    }

    /// The state after `calls`, made one after the other, each on what the
    /// one before it left.
    pub open spec fn run(self, calls: Seq<Call>) -> Registry
        decreases calls.len(),
    {
        if calls.len() == 0 {
            self
        } else {
            let before = self.run(calls.drop_last());
            before.after(before.call(calls.last()))
        }
    }

    /// Every kitty is stored under its own DNA, at a positive price, with the
    /// category that its DNA gives.
    pub open spec fn kitties_valid(self) -> bool {
        forall|dna: Seq<u8>| #[trigger]
            self.kitties.contains_key(dna) ==> {
                &&& self.kitties[dna].dna == dna
                &&& self.kitties[dna].price > 0
                &&& self.kitties[dna].gender == gender_of(dna)
            }
    }

    /// The counter is the number of stored kitties.
    pub open spec fn counted(self) -> bool {
        &&& self.kitties.dom().finite()
        &&& self.quantity == self.kitties.dom().len()
    }

    /// No list names a DNA twice.
    pub open spec fn lists_distinct(self) -> bool {
        forall|who: AccountId| #[trigger] self.owned(who).no_duplicates()
    }

    /// The list of an account names exactly the kitties whose owner it is.
    pub open spec fn index_faithful(self) -> bool {
        forall|who: AccountId, dna: Seq<u8>| #[trigger]
            self.owned(who).contains(dna) <==> self.kitties.contains_key(dna)
                && self.kitties[dna].owner == who
    }

    /// What holds of every state that the two operations can reach.
    pub open spec fn inv(self) -> bool {
        &&& self.kitties_valid()
        &&& self.counted()
        &&& self.lists_distinct()
        &&& self.index_faithful()
    }
}

/// A list without duplicates stays so under `swap_removed`, and loses
/// exactly the entry that was removed.
pub proof fn lemma_swap_removed<A>(list: Seq<A>, at: int)
    requires
        list.no_duplicates(),
        0 <= at < list.len(),
    ensures
        swap_removed(list, at).len() == list.len() - 1,
        swap_removed(list, at).no_duplicates(),
        forall|x: A|
            swap_removed(list, at).contains(x) <==> list.contains(x) && x != list[at],
{
    let rest = swap_removed(list, at);
    let last = list.len() - 1;
    assert forall|x: A| rest.contains(x) <==> list.contains(x) && x != list[at] by {
        if rest.contains(x) {
            let i = choose|i: int| 0 <= i < rest.len() && rest[i] == x;
            if i == at {
                assert(list[last] == x);
            } else {
                assert(list[i] == x);
            }
        }
        if list.contains(x) && x != list[at] {
            let k = choose|k: int| 0 <= k < list.len() && list[k] == x;
            if k == last {
                assert(rest[at] == x);
            } else {
                assert(rest[k] == x);
            }
        }
    }
}

/// A list without duplicates stays so when a value it lacks is appended.
pub proof fn lemma_push_distinct<A>(list: Seq<A>, x: A)
    requires
        list.no_duplicates(),
        !list.contains(x),
    ensures
        list.push(x).no_duplicates(),
        forall|y: A| list.push(x).contains(y) <==> list.contains(y) || y == x,
{
    let more = list.push(x);
    assert forall|y: A| more.contains(y) <==> list.contains(y) || y == x by {
        if more.contains(y) {
            let i = choose|i: int| 0 <= i < more.len() && more[i] == y;
            if i < list.len() {
                assert(list[i] == y);
            }
        }
        if list.contains(y) {
            let k = choose|k: int| 0 <= k < list.len() && list[k] == y;
            assert(more[k] == y);
        }
        if y == x {
            assert(more[list.len() as int] == y);
        }
    }
    assert forall|i: int, j: int| 0 <= i < more.len() && 0 <= j < more.len() && i != j implies more[i]
        != more[j] by {
        if i == list.len() {
            assert(list[j] == more[j]);
        } else if j == list.len() {
            assert(list[i] == more[i]);
        }
    }
}

/// In a list without duplicates, `index_of` finds the one place of a value.
pub proof fn lemma_index_of_unique<A>(list: Seq<A>, at: int)
    requires
        list.no_duplicates(),
        0 <= at < list.len(),
    ensures
        list.index_of(list[at]) == at,
{
    let i = list.index_of(list[at]);
    assert(0 <= i < list.len() && list[i] == list[at]);
}

} // verus!
