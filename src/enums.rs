use vstd::prelude::*;

verus! {

/// Life cycle of a buying intent.
#[allow(non_camel_case_types)]
#[derive(Clone, Copy, Debug, PartialEq, Eq, Structural)]
pub enum BuyingIntentState {
    /// Open to offers.
    PUBLISHED,
    /// Withdrawn by the buyer.
    CANCELLED,
    /// An offer was accepted and its price sits in the vault.
    CONFIRMED,
    /// The seller recorded shipment tracking.
    SHIPPED,
    /// The buyer accepted delivery and the vault was paid out.
    FULFILLED,
    /// Reserved: no operation leads into or out of this state yet.
    DISPUTED,
}

/// Life cycle of an offer.
#[allow(non_camel_case_types)]
#[derive(Clone, Copy, Debug, PartialEq, Eq, Structural)]
pub enum OfferState {
    /// Waiting for the buyer's decision.
    PUBLISHED,
    /// Chosen by the buyer.
    ACCEPTED,
    /// Delivery was accepted and the seller paid.
    DELIVERED,
    /// Withdrawn by the seller.
    CANCELLED,
}

} // verus!
