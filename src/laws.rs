use vstd::prelude::*;
use crate::error::EscrowError;
use crate::ledger::balance_in;
use crate::protocol::{
    EscrowView,
    make_offer_next,
    make_offer_result,
    take_offer_next,
    take_offer_result,
    view_ok,
};
use crate::state::Offer;

verus! {

/// A successful `make_offer` stores a record whose fields are exactly its
/// inputs, and a vault that holds exactly the offered amount: nothing is
/// skimmed. The maker's asset-A balance drops by that same amount, and the
/// pairing invariant still holds.
pub proof fn lemma_make_offer_then_read(
    s: EscrowView,
    maker: u64,
    token_mint_a: u64,
    token_mint_b: u64,
    id: u64,
    token_a_offered_amount: u64,
    token_b_wanted_amount: u64,
)
    requires
        view_ok(s),
        token_a_offered_amount > 0,
        token_b_wanted_amount > 0,
        !s.offers.contains_key((maker, id)),
        balance_in(s.balances, maker, token_mint_a) >= token_a_offered_amount,
    ensures
        ({
            let t = make_offer_next(
                s,
                maker,
                token_mint_a,
                token_mint_b,
                id,
                token_a_offered_amount,
                token_b_wanted_amount,
            );
            &&& make_offer_result(
                s,
                maker,
                token_mint_a,
                token_mint_b,
                id,
                token_a_offered_amount,
                token_b_wanted_amount,
            ) == Ok::<Offer, EscrowError>(t.offers[(maker, id)])
            &&& t.offers.contains_key((maker, id))
            &&& t.offers[(maker, id)].id == id
            &&& t.offers[(maker, id)].maker == maker
            &&& t.offers[(maker, id)].token_mint_a == token_mint_a
            &&& t.offers[(maker, id)].token_mint_b == token_mint_b
            &&& t.offers[(maker, id)].token_b_wanted_amount == token_b_wanted_amount
            &&& t.vaults[(maker, id)] == token_a_offered_amount
            &&& balance_in(t.balances, maker, token_mint_a) + token_a_offered_amount
                == balance_in(s.balances, maker, token_mint_a)
            &&& view_ok(t)
        }),
{
    let t = make_offer_next(
        s,
        maker,
        token_mint_a,
        token_mint_b,
        id,
        token_a_offered_amount,
        token_b_wanted_amount,
    );
    assert(t.offers.dom() =~= t.vaults.dom());
    assert forall|k: (u64, u64)| #[trigger] t.offers.contains_key(k) implies crate::state::offer_entry_ok(
        k,
        t.offers[k],
        t.vaults[k],
    ) by {
        if k != (maker, id) {
            assert(s.offers.contains_key(k));
        }
    }
}

/// Taking an open offer, by a taker other than its maker who holds enough of
/// asset B, succeeds where the two receiving balances stay within `u64`
/// (the assets differ). Then the maker gains exactly the wanted amount of B,
/// the taker pays exactly that and gains exactly the vault's whole balance
/// of A, and the record and vault no longer exist.
pub proof fn lemma_take_offer_settles(s: EscrowView, taker: u64, maker: u64, id: u64)
    requires
        view_ok(s),
        s.offers.contains_key((maker, id)),
        taker != maker,
        s.offers[(maker, id)].token_mint_a != s.offers[(maker, id)].token_mint_b,
        balance_in(s.balances, taker, s.offers[(maker, id)].token_mint_b)
            >= s.offers[(maker, id)].token_b_wanted_amount,
        balance_in(s.balances, maker, s.offers[(maker, id)].token_mint_b)
            + s.offers[(maker, id)].token_b_wanted_amount <= u64::MAX,
        balance_in(s.balances, taker, s.offers[(maker, id)].token_mint_a) + s.vaults[(maker, id)]
            <= u64::MAX,
    ensures
        ({
            let offer = s.offers[(maker, id)];
            let t = take_offer_next(s, taker, maker, id);
            &&& take_offer_result(s, taker, maker, id) == Ok::<(), EscrowError>(())
            &&& balance_in(t.balances, maker, offer.token_mint_b) == balance_in(
                s.balances,
                maker,
                offer.token_mint_b,
            ) + offer.token_b_wanted_amount
            &&& balance_in(t.balances, taker, offer.token_mint_b) + offer.token_b_wanted_amount
                == balance_in(s.balances, taker, offer.token_mint_b)
            &&& balance_in(t.balances, taker, offer.token_mint_a) == balance_in(
                s.balances,
                taker,
                offer.token_mint_a,
            ) + s.vaults[(maker, id)]
            &&& !t.offers.contains_key((maker, id))
            &&& !t.vaults.contains_key((maker, id))
            &&& view_ok(t)
        }),
{
    let t = take_offer_next(s, taker, maker, id);
    assert(t.offers.dom() =~= t.vaults.dom());
    assert forall|k: (u64, u64)| #[trigger] t.offers.contains_key(k) implies crate::state::offer_entry_ok(
        k,
        t.offers[k],
        t.vaults[k],
    ) by {
        assert(s.offers.contains_key(k));
    }
}

/// Once an offer has been taken, taking it again, by anyone, fails with
/// `OfferNotFound` and changes nothing.
pub proof fn lemma_take_offer_twice(s: EscrowView, taker: u64, second_taker: u64, maker: u64, id: u64)
    requires
        view_ok(s),
        take_offer_result(s, taker, maker, id) is Ok,
    ensures
        ({
            let t = take_offer_next(s, taker, maker, id);
            &&& take_offer_result(t, second_taker, maker, id) == Err::<(), EscrowError>(
                EscrowError::OfferNotFound,
            )
            &&& take_offer_next(t, second_taker, maker, id) == t
        }),
{
}

/// A taker that holds too little of asset B cannot take the offer: the call
/// fails with `InsufficientFunds`, and the record, its vault and every
/// balance stay as they were.
pub proof fn lemma_take_offer_underfunded(s: EscrowView, taker: u64, maker: u64, id: u64)
    requires
        view_ok(s),
        s.offers.contains_key((maker, id)),
        balance_in(s.balances, taker, s.offers[(maker, id)].token_mint_b)
            < s.offers[(maker, id)].token_b_wanted_amount,
    ensures
        take_offer_result(s, taker, maker, id) == Err::<(), EscrowError>(
            EscrowError::InsufficientFunds,
        ),
        take_offer_next(s, taker, maker, id) == s,
{
}

/// `make_offer` under an id the maker already uses fails (with
/// `OfferAlreadyExists` where both amounts are nonzero) and leaves the
/// existing offer, its vault and every balance as they were.
pub proof fn lemma_make_offer_id_in_use(
    s: EscrowView,
    maker: u64,
    token_mint_a: u64,
    token_mint_b: u64,
    id: u64,
    token_a_offered_amount: u64,
    token_b_wanted_amount: u64,
)
    requires
        view_ok(s),
        s.offers.contains_key((maker, id)),
    ensures
        make_offer_result(
            s,
            maker,
            token_mint_a,
            token_mint_b,
            id,
            token_a_offered_amount,
            token_b_wanted_amount,
        ) is Err,
        token_a_offered_amount > 0 && token_b_wanted_amount > 0 ==> make_offer_result(
            s,
            maker,
            token_mint_a,
            token_mint_b,
            id,
            token_a_offered_amount,
            token_b_wanted_amount,
        ) == Err::<Offer, EscrowError>(EscrowError::OfferAlreadyExists),
        make_offer_next(
            s,
            maker,
            token_mint_a,
            token_mint_b,
            id,
            token_a_offered_amount,
            token_b_wanted_amount,
        ) == s,
{
}

} // verus!
