use vstd::prelude::*;

verus! {

/// Why an escrow operation was rejected. A rejected operation changes nothing.
#[derive(Clone, Copy, Debug, PartialEq, Eq, Structural)]
pub enum EscrowError {
    /// An offered or wanted amount of zero.
    InvalidAmount,
    /// The maker already has an open offer under this id.
    OfferAlreadyExists,
    /// No open offer is stored under this (maker, id).
    OfferNotFound,
    /// The paying account holds less than the transfer needs.
    InsufficientFunds,
    /// The caller may not perform this action on the offer.
    Unauthorized,
    /// Crediting an account would exceed the largest representable balance.
    Overflow,
}

} // verus!
