use vstd::prelude::*;
use crate::error::EscrowError;
use crate::ledger::{TokenLedger, balance_in, credited};
use crate::protocol::{
    EscrowView,
    cancel_offer_next,
    cancel_offer_result,
    deposit_result,
    make_offer_next,
    make_offer_result,
    take_offer_next,
    take_offer_result,
    view_ok,
};
use crate::state::{Offer, OfferBook};

verus! {

/// The escrow program's whole state: the token ledger it settles against
/// and the book of open offers with their vaults. Every operation either
/// applies all of its effects or, when it returns an error, none.
pub struct Escrow {
    ledger: TokenLedger,
    book: OfferBook,
}

impl View for Escrow {
    type V = EscrowView;

    closed spec fn view(&self) -> EscrowView {
        EscrowView { balances: self.ledger@, offers: self.book.offers(), vaults: self.book.vaults() }
    }
}

/// The accounts a `make_offer` call works on.
#[derive(Clone, Copy, Debug)]
pub struct MakeOffer {
    /// The party offering asset A; it signs and pays the deposit.
    pub maker: u64,
    /// The asset deposited into the vault.
    pub token_mint_a: u64,
    /// The asset asked for in exchange.
    pub token_mint_b: u64,
}

/// The accounts a `take_offer` call works on.
#[derive(Clone, Copy, Debug)]
pub struct TakeOffer {
    /// The party paying asset B and receiving the vault.
    pub taker: u64,
    /// The maker of the offer to take.
    pub maker: u64,
    /// The maker's id of the offer to take.
    pub id: u64,
}

/// The accounts a `cancel_offer` call works on.
#[derive(Clone, Copy, Debug)]
pub struct CancelOffer {
    /// The party asking for the cancellation; only the maker may.
    pub caller: u64,
    /// The maker of the offer to cancel.
    pub maker: u64,
    /// The maker's id of the offer to cancel.
    pub id: u64,
}

impl Escrow {
    pub closed spec fn wf(&self) -> bool {
        self.ledger.wf() && self.book.wf()
    }

    /// A well-formed escrow satisfies the record/vault pairing invariant.
    pub proof fn lemma_view_ok(&self)
        requires
            self.wf(),
        ensures
            view_ok(self@),
    {
        self.book.lemma_entries_ok();
    }

    /// An escrow with no accounts and no offers.
    pub fn new() -> (r: Self)
        ensures
            r.wf(),
            r@.balances == Map::<(u64, u64), u64>::empty(),
            r@.offers == Map::<(u64, u64), Offer>::empty(),
            r@.vaults == Map::<(u64, u64), u64>::empty(),
    {
        Escrow { ledger: TokenLedger::new(), book: OfferBook::new() }
    }

    /// The balance of `owner` in `mint`; zero where no such account exists.
    pub fn balance(&self, owner: u64, mint: u64) -> (r: u64)
        requires
            self.wf(),
        ensures
            r as nat == balance_in(self@.balances, owner, mint),
    {
        self.ledger.balance(owner, mint)
    }

    /// The open offer stored under (maker, id), if any.
    pub fn offer(&self, maker: u64, id: u64) -> (r: Option<Offer>)
        requires
            self.wf(),
        ensures
            r == (if self@.offers.contains_key((maker, id)) {
                Some(self@.offers[(maker, id)])
            } else {
                None
            }),
    {
        match self.book.get(maker, id) {
            Some(slot) => Some(slot.offer),
            None => None,
        }
    }

    /// What the vault of the offer under (maker, id) holds, if that offer is open.
    pub fn vault_balance(&self, maker: u64, id: u64) -> (r: Option<u64>)
        requires
            self.wf(),
        ensures
            r == (if self@.vaults.contains_key((maker, id)) {
                Some(self@.vaults[(maker, id)])
            } else {
                None
            }),
    {
        proof {
            self.lemma_view_ok();
        }
        match self.book.get(maker, id) {
            Some(slot) => Some(slot.vault),
            None => None,
        }
    }

    /// Adds `amount` units of `mint` to `owner`'s account, creating it where
    /// needed; fails with `Overflow`, changing nothing, where the balance
    /// would exceed `u64::MAX`.
    pub fn deposit(&mut self, owner: u64, mint: u64, amount: u64) -> (r: Result<(), EscrowError>)
        requires
            old(self).wf(),
        ensures
            final(self).wf(),
            r == deposit_result(old(self)@, owner, mint, amount),
            r is Ok ==> final(self)@ == (EscrowView {
                balances: credited(old(self)@.balances, owner, mint, amount),
                ..old(self)@
            }),
            r is Err ==> final(self)@ == old(self)@,
    {
        let current = self.ledger.balance(owner, mint);
        if current > u64::MAX - amount {
            return Err(EscrowError::Overflow);
        }
        self.ledger.credit(owner, mint, amount);
        Ok(())
    }
}

/// Opens an offer: moves `token_a_offered_amount` of asset A from the maker
/// into a new vault and stores the record under (maker, id), which it returns.
/// Fails, changing nothing, with `InvalidAmount` on a zero amount, with
/// `OfferAlreadyExists` where the maker already has an offer under `id`, and
/// with `InsufficientFunds` where the maker holds too little of asset A.
pub fn make_offer(
    escrow: &mut Escrow,
    context: MakeOffer,
    id: u64,
    token_a_offered_amount: u64,
    token_b_wanted_amount: u64,
) -> (r: Result<Offer, EscrowError>)
    requires
        old(escrow).wf(),
    ensures
        final(escrow).wf(),
        r == make_offer_result(
            old(escrow)@,
            context.maker,
            context.token_mint_a,
            context.token_mint_b,
            id,
            token_a_offered_amount,
            token_b_wanted_amount,
        ),
        final(escrow)@ == make_offer_next(
            old(escrow)@,
            context.maker,
            context.token_mint_a,
            context.token_mint_b,
            id,
            token_a_offered_amount,
            token_b_wanted_amount,
        ),
{
    let maker = context.maker;
    if token_a_offered_amount == 0 || token_b_wanted_amount == 0 {
        return Err(EscrowError::InvalidAmount);
    }
    if escrow.book.get(maker, id).is_some() {
        return Err(EscrowError::OfferAlreadyExists);
    }
    if escrow.ledger.balance(maker, context.token_mint_a) < token_a_offered_amount {
        return Err(EscrowError::InsufficientFunds);
    }
    let offer = Offer {
        id,
        maker,
        token_mint_a: context.token_mint_a,
        token_mint_b: context.token_mint_b,
        token_b_wanted_amount,
    };
    escrow.ledger.debit(maker, context.token_mint_a, token_a_offered_amount);
    escrow.book.insert(offer, token_a_offered_amount);
    Ok(offer)
}

/// Settles the offer under (maker, id): the taker pays the wanted amount of
/// asset B to the maker, receives the vault's whole balance of asset A, and
/// the vault and record are destroyed. Fails, changing nothing, with
/// `OfferNotFound` where no such offer is open, with `InsufficientFunds`
/// where the taker holds too little of asset B, and with `Overflow` where a
/// receiving balance would exceed `u64::MAX`.
pub fn take_offer(escrow: &mut Escrow, context: TakeOffer) -> (r: Result<(), EscrowError>)
    requires
        old(escrow).wf(),
    ensures
        final(escrow).wf(),
        r == take_offer_result(old(escrow)@, context.taker, context.maker, context.id),
        final(escrow)@ == take_offer_next(old(escrow)@, context.taker, context.maker, context.id),
{
    proof {
        escrow.lemma_view_ok();
    }
    let taker = context.taker;
    let maker = context.maker;
    let slot = match escrow.book.get(maker, context.id) {
        Some(slot) => slot,
        None => return Err(EscrowError::OfferNotFound),
    };
    let offer = slot.offer;
    let wanted = offer.token_b_wanted_amount;
    let mint_a = offer.token_mint_a;
    let mint_b = offer.token_mint_b;
    let taker_b = escrow.ledger.balance(taker, mint_b);
    if taker_b < wanted {
        return Err(EscrowError::InsufficientFunds);
    }
    // The maker's asset-B balance once the taker has paid.
    let maker_b = if maker == taker {
        taker_b - wanted
    } else {
        escrow.ledger.balance(maker, mint_b)
    };
    if maker_b > u64::MAX - wanted {
        return Err(EscrowError::Overflow);
    }
    // The taker's asset-A balance once the payment leg is done.
    let taker_a = if mint_a == mint_b {
        if maker == taker {
            taker_b
        } else {
            taker_b - wanted
        }
    } else {
        escrow.ledger.balance(taker, mint_a)
    };
    if taker_a > u64::MAX - slot.vault {
        return Err(EscrowError::Overflow);
    }
    escrow.ledger.debit(taker, mint_b, wanted);
    escrow.ledger.credit(maker, mint_b, wanted);
    escrow.ledger.credit(taker, mint_a, slot.vault);
    escrow.book.remove(maker, context.id);
    Ok(())
}

/// Withdraws the offer under (maker, id): the vault's whole balance returns
/// to the maker, and the vault and record are destroyed. Fails, changing
/// nothing, with `OfferNotFound` where no such offer is open, with
/// `Unauthorized` where the caller is not its maker, and with `Overflow`
/// where the maker's balance would exceed `u64::MAX`.
pub fn cancel_offer(escrow: &mut Escrow, context: CancelOffer) -> (r: Result<(), EscrowError>)
    requires
        old(escrow).wf(),
    ensures
        final(escrow).wf(),
        r == cancel_offer_result(old(escrow)@, context.caller, context.maker, context.id),
        final(escrow)@ == cancel_offer_next(
            old(escrow)@,
            context.caller,
            context.maker,
            context.id,
        ),
{
    proof {
        escrow.lemma_view_ok();
    }
    let maker = context.maker;
    let slot = match escrow.book.get(maker, context.id) {
        Some(slot) => slot,
        None => return Err(EscrowError::OfferNotFound),
    };
    if context.caller != maker {
        return Err(EscrowError::Unauthorized);
    }
    let maker_a = escrow.ledger.balance(maker, slot.offer.token_mint_a);
    if maker_a > u64::MAX - slot.vault {
        return Err(EscrowError::Overflow);
    }
    escrow.ledger.credit(maker, slot.offer.token_mint_a, slot.vault);
    escrow.book.remove(maker, context.id);
    Ok(())
}

} // verus!
