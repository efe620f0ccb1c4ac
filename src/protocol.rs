use vstd::prelude::*;
use crate::error::EscrowError;
use crate::ledger::{AccountKey, balance_in, credited, debited};
use crate::state::{Offer, OfferKey, offer_entry_ok};

verus! {

/// The whole escrow as mathematics: token balances, offer records and the
/// vault behind each record.
pub struct EscrowView {
    pub balances: Map<AccountKey, u64>,
    pub offers: Map<OfferKey, Offer>,
    pub vaults: Map<OfferKey, u64>,
}

/// A record exists exactly when its vault does, and every stored pair is
/// well formed (in particular, the vault is not empty).
pub open spec fn view_ok(s: EscrowView) -> bool {
    &&& s.offers.dom() == s.vaults.dom()
    &&& forall|k: OfferKey|
        #[trigger] s.offers.contains_key(k) ==> offer_entry_ok(k, s.offers[k], s.vaults[k])
}

/// What `make_offer` answers in state `s`.
pub open spec fn make_offer_result(
    s: EscrowView,
    maker: u64,
    token_mint_a: u64,
    token_mint_b: u64,
    id: u64,
    token_a_offered_amount: u64,
    token_b_wanted_amount: u64,
) -> Result<Offer, EscrowError> {
    if token_a_offered_amount == 0 || token_b_wanted_amount == 0 {
        Err(EscrowError::InvalidAmount)
    } else if s.offers.contains_key((maker, id)) {
        Err(EscrowError::OfferAlreadyExists)
    } else if balance_in(s.balances, maker, token_mint_a) < token_a_offered_amount {
        Err(EscrowError::InsufficientFunds)
    } else {
        Ok(Offer { id, maker, token_mint_a, token_mint_b, token_b_wanted_amount })
    }
}

/// The state after `make_offer`: on success the deposit has moved from the
/// maker's account into a new vault, and the record is stored; on failure
/// nothing changed.
pub open spec fn make_offer_next(
    s: EscrowView,
    maker: u64,
    token_mint_a: u64,
    token_mint_b: u64,
    id: u64,
    token_a_offered_amount: u64,
    token_b_wanted_amount: u64,
) -> EscrowView {
    match make_offer_result(
        s,
        maker,
        token_mint_a,
        token_mint_b,
        id,
        token_a_offered_amount,
        token_b_wanted_amount,
    ) {
        Ok(offer) => EscrowView {
            balances: debited(s.balances, maker, token_mint_a, token_a_offered_amount),
            offers: s.offers.insert((maker, id), offer),
            vaults: s.vaults.insert((maker, id), token_a_offered_amount),
        },
        Err(_) => s,
    }
}

/// Balances after the taker's payment leg: `wanted` units of asset B move
/// from the taker to the maker.
pub open spec fn after_payment(s: EscrowView, taker: u64, offer: Offer) -> Map<AccountKey, u64> {
    credited(
        debited(s.balances, taker, offer.token_mint_b, offer.token_b_wanted_amount),
        offer.maker,
        offer.token_mint_b,
        offer.token_b_wanted_amount,
    )
}

/// What `take_offer` answers in state `s`.
pub open spec fn take_offer_result(s: EscrowView, taker: u64, maker: u64, id: u64) -> Result<
    (),
    EscrowError,
> {
    if !s.offers.contains_key((maker, id)) {
        Err(EscrowError::OfferNotFound)
    } else {
        let offer = s.offers[(maker, id)];
        let wanted = offer.token_b_wanted_amount;
        let paid = debited(s.balances, taker, offer.token_mint_b, wanted);
        if balance_in(s.balances, taker, offer.token_mint_b) < wanted {
            Err(EscrowError::InsufficientFunds)
        } else if balance_in(paid, maker, offer.token_mint_b) + wanted > u64::MAX {
            Err(EscrowError::Overflow)
        } else if balance_in(after_payment(s, taker, offer), taker, offer.token_mint_a)
            + s.vaults[(maker, id)] > u64::MAX {
            Err(EscrowError::Overflow)
        } else {
            Ok(())
        }
    }
}

/// The state after `take_offer`: on success the taker has paid the maker,
/// received the whole vault, and the record and vault are gone; on failure
/// nothing changed.
pub open spec fn take_offer_next(s: EscrowView, taker: u64, maker: u64, id: u64) -> EscrowView {
    match take_offer_result(s, taker, maker, id) {
        Ok(_) => {
            let offer = s.offers[(maker, id)];
            EscrowView {
                balances: credited(
                    after_payment(s, taker, offer),
                    taker,
                    offer.token_mint_a,
                    s.vaults[(maker, id)],
                ),
                offers: s.offers.remove((maker, id)),
                vaults: s.vaults.remove((maker, id)),
            }
        },
        Err(_) => s,
    }
}

/// What `cancel_offer` answers in state `s`.
pub open spec fn cancel_offer_result(s: EscrowView, caller: u64, maker: u64, id: u64) -> Result<
    (),
    EscrowError,
> {
    if !s.offers.contains_key((maker, id)) {
        Err(EscrowError::OfferNotFound)
    } else if caller != maker {
        Err(EscrowError::Unauthorized)
    } else if balance_in(s.balances, maker, s.offers[(maker, id)].token_mint_a) + s.vaults[(
    maker,
    id,
    )] > u64::MAX {
        Err(EscrowError::Overflow)
    } else {
        Ok(())
    }
}

/// The state after `cancel_offer`: on success the vault's whole balance is
/// back with the maker and the record and vault are gone; on failure
/// nothing changed.
pub open spec fn cancel_offer_next(s: EscrowView, caller: u64, maker: u64, id: u64) -> EscrowView {
    match cancel_offer_result(s, caller, maker, id) {
        Ok(_) => EscrowView {
            balances: credited(
                s.balances,
                maker,
                s.offers[(maker, id)].token_mint_a,
                s.vaults[(maker, id)],
            ),
            offers: s.offers.remove((maker, id)),
            vaults: s.vaults.remove((maker, id)),
        },
        Err(_) => s,
    }
}

/// The state after `deposit`: `amount` units of `mint` are added to
/// `owner`'s account, unless the balance would overflow.
pub open spec fn deposit_result(s: EscrowView, owner: u64, mint: u64, amount: u64) -> Result<
    (),
    EscrowError,
> {
    if balance_in(s.balances, owner, mint) + amount > u64::MAX {
        Err(EscrowError::Overflow)
    } else {
        Ok(())
    }
}

} // verus!
