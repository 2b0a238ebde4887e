use vstd::prelude::*;
use crate::address::Address;
use crate::enums::{BuyingIntentState, OfferState};

verus! {

/// Fee rate that a fresh configuration takes unless told otherwise: 1%.
pub const DEFAULT_FEE_BPS: u16 = 100;

/// Largest product name, in bytes.
pub const MAX_PRODUCT_NAME_LEN: usize = 100;

/// Largest shipping country code, in bytes.
pub const MAX_COUNTRY_CODE_LEN: usize = 2;

/// Largest shipping state code, in bytes.
pub const MAX_STATE_CODE_LEN: usize = 3;

/// Largest offer URL, in bytes.
pub const MAX_URL_LEN: usize = 255;

/// Platform-wide settings and the id counters.
#[derive(Clone, Copy, Debug)]
pub struct Config {
    pub admin: Address,
    /// Platform fee in basis points, within `[0, 10000]`.
    pub fee: u16,
    /// Id of the next buying intent.
    pub buying_intent_increment: u64,
    /// Id of the next offer.
    pub offer_increment: u64,
}

/// The platform account that collects fees.
#[derive(Clone, Copy, Debug)]
pub struct Treasury {
    pub admin: Address,
}

/// A buyer's standing request to purchase a product.
#[derive(Clone, Debug)]
pub struct BuyingIntent {
    pub id: u64,
    pub buyer: Address,
    /// Global Trade Item Number of the product.
    pub gtin: u64,
    pub product_name: String,
    pub shipping_country_code: String,
    pub shipping_state_code: Option<String>,
    /// Id of the offer the buyer accepted.
    pub accepted_offer: Option<u64>,
    pub state: BuyingIntentState,
    pub quantity: u16,
}

/// A seller's bid against a buying intent.
#[derive(Clone, Debug)]
pub struct Offer {
    pub id: u64,
    /// Id of the buying intent this offer answers.
    pub buying_intent: u64,
    pub seller: Address,
    pub url: String,
    /// Price of the product at `url`.
    pub public_price: u64,
    /// Price the seller asks; the amount escrowed on acceptance.
    pub offer_price: u64,
    pub shipping_price: u64,
    /// Currency the seller is paid in: its index in the token ledger.
    pub mint: u64,
    pub state: OfferState,
}

} // verus!
