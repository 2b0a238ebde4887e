//! Settlement core of a peer-to-peer marketplace with escrowed payment.
//!
//! A buyer publishes a buying intent, sellers answer with offers, the buyer
//! accepts one and deposits its price into a vault owned by the intent, and
//! the vault is paid out (platform fee to the treasury, the rest to the
//! seller) once the buyer accepts delivery.
pub mod address;
pub mod enums;
pub mod error;
pub mod fee;
pub mod marketplace;
pub mod records;
pub mod state;
pub mod token;

pub use address::{Address, Authority};
pub use enums::{BuyingIntentState, OfferState};
pub use error::BestOfferErrorCode;
pub use fee::{compute_payout, Payout};
pub use marketplace::Marketplace;
pub use state::{BuyingIntent, Config, Offer, Treasury};
pub use records::{EncryptedDeliveryInformation, RecordStore, TrackingDetails};
pub use token::{TokenAccount, TokenLedger};
