//! What holds of the registry whatever is done to it, proved of the
//! mathematical model that the executable operations are specified by.

use crate::registry::{
    lemma_push_distinct, lemma_swap_removed, swap_removed, Call, Outcome, Registry,
};
use crate::types::{gender_of, AccountId, Error};
use vstd::prelude::*;

verus! {

/// The registry that holds nothing satisfies the invariant.
pub proof fn lemma_empty_inv()
    ensures
        Registry::empty().inv(),
{
    let state = Registry::empty();
    assert forall|who: AccountId| #[trigger] state.owned(who).no_duplicates() by {
        assert(state.owned(who) =~= Seq::<Seq<u8>>::empty());
    }
}

/// Registration keeps the invariant, whether it succeeds or is refused: the
/// counter stays the number of stored kitties, and every list keeps naming
/// exactly the kitties of its account, each once.
pub proof fn lemma_create_kitty_inv(
    state: Registry,
    who: AccountId,
    dna: Seq<u8>,
    price: u32,
    now: u128,
)
    requires
        state.inv(),
    ensures
        state.after(state.create_kitty(who, dna, price, now)).inv(),
{
    let outcome = state.create_kitty(who, dna, price, now);
    if outcome is Ok {
        let next = state.after(outcome);
        assert(!state.owned(who).contains(dna));
        lemma_push_distinct(state.owned(who), dna);
        assert forall|o: AccountId| #[trigger] next.owned(o).no_duplicates() by {
            if o != who {
                assert(next.owned(o) == state.owned(o));
            }
        }
        assert forall|o: AccountId, d: Seq<u8>| #[trigger]
            next.owned(o).contains(d) <==> next.kitties.contains_key(d) && next.kitties[d].owner
                == o by {
            assert(state.owned(o).contains(d) <==> state.kitties.contains_key(d)
                && state.kitties[d].owner == o);
            if o == who {
                assert(next.owned(o) == state.owned(who).push(dna));
            } else {
                assert(next.owned(o) == state.owned(o));
            }
        }
    }
}

/// Transfer keeps the invariant, whether it succeeds or is refused.
pub proof fn lemma_transfer_kitty_inv(state: Registry, who: AccountId, dna: Seq<u8>, to: AccountId)
    requires
        state.inv(),
    ensures
        state.after(state.transfer_kitty(who, dna, to)).inv(),
{
    let outcome = state.transfer_kitty(who, dna, to);
    if outcome is Ok {
        let next = state.after(outcome);
        let held = state.owned(who);
        let at = held.index_of(dna);
        assert(0 <= at < held.len() && held[at] == dna);
        assert(held.no_duplicates());
        lemma_swap_removed(held, at);
        assert(state.owned(to).no_duplicates());
        assert(!state.owned(to).contains(dna));
        lemma_push_distinct(state.owned(to), dna);
        assert(next.kitties.dom() =~= state.kitties.dom());
        assert forall|o: AccountId| #[trigger] next.owned(o).no_duplicates() by {
            if o != who && o != to {
                assert(next.owned(o) == state.owned(o));
            }
        }
        assert forall|o: AccountId, d: Seq<u8>| #[trigger]
            next.owned(o).contains(d) <==> next.kitties.contains_key(d) && next.kitties[d].owner
                == o by {
            assert(state.owned(o).contains(d) <==> state.kitties.contains_key(d)
                && state.kitties[d].owner == o);
            if o == to {
                assert(next.owned(o) == state.owned(to).push(dna));
            } else if o == who {
                assert(next.owned(o) == swap_removed(held, at));
            } else {
                assert(next.owned(o) == state.owned(o));
            }
        }
    }
}

/// Whatever calls are made, in whatever order, the invariant is kept.
pub proof fn lemma_run_inv(state: Registry, calls: Seq<Call>)
    requires
        state.inv(),
    ensures
        state.run(calls).inv(),
    decreases calls.len(),
{
    if calls.len() > 0 {
        lemma_run_inv(state, calls.drop_last());
        let before = state.run(calls.drop_last());
        match calls.last() {
            Call::CreateKitty { who, dna, price, now } => {
                lemma_create_kitty_inv(before, who, dna, price, now);
            },
            Call::TransferKitty { who, dna, to } => {
                lemma_transfer_kitty_inv(before, who, dna, to);
            },
        }
    }
}

/// Every state that calls can lead to from the empty registry satisfies the
/// invariant.
pub proof fn lemma_reachable_inv(calls: Seq<Call>)
    ensures
        Registry::empty().run(calls).inv(),
{
    lemma_empty_inv();
    lemma_run_inv(Registry::empty(), calls);
}

/// In every state that calls can lead to from the empty registry, the list
/// of an account names a DNA if and only if a kitty with that DNA is stored
/// and the account is its owner, and no list names a DNA twice.
pub proof fn lemma_index_fidelity(calls: Seq<Call>, who: AccountId, dna: Seq<u8>)
    ensures
        ({
            let state = Registry::empty().run(calls);
            &&& state.owned(who).contains(dna) <==> state.kitties.contains_key(dna)
                && state.kitties[dna].owner == who
            &&& state.owned(who).no_duplicates()
        }),
{
    lemma_reachable_inv(calls);
}

/// In every state that calls can lead to from the empty registry, the
/// counter is the number of stored kitties.
pub proof fn lemma_counter_correct(calls: Seq<Call>)
    ensures
        ({
            let state = Registry::empty().run(calls);
            &&& state.kitties.dom().finite()
            &&& state.quantity == state.kitties.dom().len()
        }),
{
    lemma_reachable_inv(calls);
}

/// A registered kitty stays registered whatever calls follow, and nothing
/// of it changes but its owner.
pub proof fn lemma_registered_stays(state: Registry, calls: Seq<Call>, dna: Seq<u8>)
    requires
        state.kitties.contains_key(dna),
    ensures
        state.run(calls).kitties.contains_key(dna),
        state.run(calls).kitties[dna] == state.kitties[dna].owned_by(
            state.run(calls).kitties[dna].owner,
        ),
    decreases calls.len(),
{
    if calls.len() > 0 {
        lemma_registered_stays(state, calls.drop_last(), dna);
    }
}

/// A DNA is registered at most once: after a registration of `dna` has
/// succeeded, and whatever calls have followed it, another registration of
/// `dna` is refused, whoever asks, and leaves the state as it was. At a
/// positive price it is refused as `AlreadyExisted`.
pub proof fn lemma_registered_once(
    state: Registry,
    who: AccountId,
    dna: Seq<u8>,
    price: u32,
    now: u128,
    calls: Seq<Call>,
    again_who: AccountId,
    again_price: u32,
    again_now: u128,
)
    requires
        state.create_kitty(who, dna, price, now) is Ok,
    ensures
        ({
            let later = state.after(state.create_kitty(who, dna, price, now)).run(calls);
            let again = later.create_kitty(again_who, dna, again_price, again_now);
            &&& later.kitties.contains_key(dna)
            &&& again is Err
            &&& again_price > 0 ==> again == Outcome::Err(Error::AlreadyExisted)
            &&& later.after(again) == later
        }),
{
    lemma_registered_stays(state.after(state.create_kitty(who, dna, price, now)), calls, dna);
}

/// A call that is refused leaves the state as it was.
pub proof fn lemma_refusal_changes_nothing(state: Registry, call: Call)
    requires
        state.call(call) is Err,
    ensures
        state.after(state.call(call)) == state,
        state.run(seq![call]) == state,
{
    assert(seq![call].drop_last() =~= Seq::<Call>::empty());
    reveal_with_fuel(Registry::run, 2);
}

/// An account that has a list keeps it, whatever calls follow, even when
/// the list becomes empty.
pub proof fn lemma_list_stays(state: Registry, calls: Seq<Call>, who: AccountId)
    requires
        state.owners.contains_key(who),
    ensures
        state.run(calls).owners.contains_key(who),
    decreases calls.len(),
{
    if calls.len() > 0 {
        lemma_list_stays(state, calls.drop_last(), who);
    }
}

/// The category of a kitty is that of its DNA when it is registered, and
/// it is still that after any calls.
pub proof fn lemma_gender_stays(
    state: Registry,
    who: AccountId,
    dna: Seq<u8>,
    price: u32,
    now: u128,
    calls: Seq<Call>,
)
    requires
        state.create_kitty(who, dna, price, now) is Ok,
    ensures
        state.after(state.create_kitty(who, dna, price, now)).run(calls).kitties[dna].gender
            == gender_of(dna),
{
    lemma_registered_stays(state.after(state.create_kitty(who, dna, price, now)), calls, dna);
}

/// A transfer to oneself is refused as `WrongReceiver`, whether or not the
/// kitty exists and whoever owns it.
pub proof fn lemma_self_transfer_refused(state: Registry, who: AccountId, dna: Seq<u8>)
    ensures
        state.transfer_kitty(who, dna, who) == Outcome::Err(Error::WrongReceiver),
{
}

/// A transfer never changes the counter, and it changes nothing of a kitty
/// but the owner of the one that is transferred.
pub proof fn lemma_transfer_changes_owner_only(
    state: Registry,
    who: AccountId,
    dna: Seq<u8>,
    to: AccountId,
)
    ensures
        ({
            let next = state.after(state.transfer_kitty(who, dna, to));
            &&& next.quantity == state.quantity
            &&& next.kitties.dom() == state.kitties.dom()
            &&& forall|d: Seq<u8>| #[trigger]
                state.kitties.contains_key(d) ==> next.kitties[d] == state.kitties[d].owned_by(
                    next.kitties[d].owner,
                )
            &&& forall|d: Seq<u8>| #[trigger]
                state.kitties.contains_key(d) && d != dna ==> next.kitties[d] == state.kitties[d]
        }),
{
    let next = state.after(state.transfer_kitty(who, dna, to));
    assert(next.kitties.dom() =~= state.kitties.dom());
}

} // verus!
