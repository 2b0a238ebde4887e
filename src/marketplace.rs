use vstd::prelude::*;
use crate::address::{Address, Authority};
use crate::enums::{BuyingIntentState, OfferState};
use crate::error::BestOfferErrorCode;
use crate::fee::{compute_payout, fee_of, payout_fits, Payout, MAX_FEE_BPS};
use crate::records::{
    utf8_len, byte_len, EncryptedDeliveryInformation, RecordStore, TrackingDetails,
};
use crate::state::{
    BuyingIntent, Config, Offer, Treasury, MAX_COUNTRY_CODE_LEN, MAX_PRODUCT_NAME_LEN,
    MAX_STATE_CODE_LEN, MAX_URL_LEN,
};
use crate::token::{lemma_moved_keeps_accounts, moved, slot, TokenAccount, TokenLedger};

verus! {

/// Every record of the settlement core, each addressed by its natural key:
/// intents and offers by id, delivery information, tracking details and
/// vaults by the id of their intent, token accounts by index.
pub struct Marketplace {
    pub config: Option<Config>,
    pub treasury: Option<Treasury>,
    /// The intent with id `i` stands at index `i`.
    pub intents: Vec<BuyingIntent>,
    /// The offer with id `o` stands at index `o`.
    pub offers: Vec<Offer>,
    pub deliveries: RecordStore<EncryptedDeliveryInformation>,
    pub trackings: RecordStore<TrackingDetails>,
    /// For each intent with an accepted offer, its vault's token account.
    pub vaults: RecordStore<u64>,
    pub ledger: TokenLedger,
}

pub open spec fn shipping_state_within(code: Option<String>) -> bool {
    match code {
        Some(s) => utf8_len(s@) <= MAX_STATE_CODE_LEN,
        None => true,
    }
}

/// An intent in one of the states that follow the acceptance of an offer.
pub open spec fn is_settling(s: BuyingIntentState) -> bool {
    ||| s == BuyingIntentState::CONFIRMED
    ||| s == BuyingIntentState::SHIPPED
    ||| s == BuyingIntentState::FULFILLED
}

impl Marketplace {
    pub open spec fn has_intent(&self, id: u64) -> bool {
        id < self.intents@.len()
    }

    pub open spec fn intent(&self, id: u64) -> BuyingIntent {
        self.intents@[id as int]
    }

    pub open spec fn has_offer(&self, id: u64) -> bool {
        id < self.offers@.len()
    }

    pub open spec fn offer(&self, id: u64) -> Offer {
        self.offers@[id as int]
    }

    /// The offer that intent `id` accepted.
    pub open spec fn accepted_offer_of(&self, id: u64) -> Offer {
        self.offer(self.intent(id).accepted_offer->Some_0)
    }

    /// The token account of intent `id`'s vault.
    pub open spec fn vault_of(&self, id: u64) -> TokenAccount {
        self.ledger.account(self.vaults@[id])
    }

    /// Some intent carries id `k`.
    pub open spec fn intent_id_issued(&self, k: int) -> bool {
        exists|i: int| 0 <= i < self.intents@.len() && (#[trigger] self.intents@[i]).id == k
    }

    /// What holds of intent `i` in every reachable state.
    pub open spec fn intent_wf(&self, i: int) -> bool {
        let it = self.intents@[i];
        &&& it.id == i
        &&& it.state == BuyingIntentState::PUBLISHED ==> {
            &&& it.accepted_offer is None
            &&& !self.deliveries@.contains_key(i as u64)
            &&& !self.vaults@.contains_key(i as u64)
        }
        &&& is_settling(it.state) ==> {
            &&& it.accepted_offer is Some
            &&& self.has_offer(it.accepted_offer->Some_0)
            &&& self.offer(it.accepted_offer->Some_0).buying_intent == i
            &&& self.vaults@.contains_key(i as u64)
            &&& self.ledger.has_account(self.vaults@[i as u64])
            &&& self.vault_of(i as u64).owner == Authority::Intent(i as u64)
            &&& self.vault_of(i as u64).mint == self.offer(it.accepted_offer->Some_0).mint
        }
    }

    /// What holds of offer `o` in every reachable state.
    pub open spec fn offer_wf(&self, o: int) -> bool {
        let of = self.offers@[o];
        &&& of.id == o
        &&& of.buying_intent < self.intents@.len()
        &&& of.mint < self.ledger.mint_decimals@.len()
        &&& (of.state == OfferState::ACCEPTED || of.state == OfferState::DELIVERED)
            ==> self.intents@[of.buying_intent as int].accepted_offer == Some(o as u64)
    }

    /// The invariant that every operation preserves.
    pub open spec fn wf(&self) -> bool {
        &&& self.ledger.wf()
        &&& self.deliveries.wf()
        &&& self.trackings.wf()
        &&& self.vaults.wf()
        &&& match self.config {
            Some(c) => {
                &&& c.fee <= MAX_FEE_BPS
                &&& c.buying_intent_increment == self.intents@.len()
                &&& c.offer_increment == self.offers@.len()
            },
            None => self.intents@.len() == 0 && self.offers@.len() == 0,
        }
        &&& forall|k: u64| #[trigger] self.deliveries@.contains_key(k) ==> k < self.intents@.len()
        &&& forall|k: u64| #[trigger] self.trackings@.contains_key(k) ==> k < self.intents@.len()
        &&& forall|k: u64| #[trigger] self.vaults@.contains_key(k) ==> k < self.intents@.len()
        &&& forall|i: int| 0 <= i < self.intents@.len() ==> #[trigger] self.intent_wf(i)
        &&& forall|o: int| 0 <= o < self.offers@.len() ==> #[trigger] self.offer_wf(o)
    }

    /// Treasury, stores and token ledger are as in `other`.
    pub open spec fn same_holdings(&self, other: &Marketplace) -> bool {
        &&& self.treasury == other.treasury
        &&& self.deliveries == other.deliveries
        &&& self.trackings == other.trackings
        &&& self.vaults == other.vaults
        &&& self.ledger == other.ledger
    }

    /// The error of the first guard that `create_buying_intent` fails, if any.
    pub open spec fn create_intent_error(
        &self,
        product_name: String,
        shipping_country_code: String,
        shipping_state_code: Option<String>,
    ) -> Option<BestOfferErrorCode> {
        if self.config is None {
            Some(BestOfferErrorCode::NotFound)
        } else if utf8_len(product_name@) > MAX_PRODUCT_NAME_LEN || utf8_len(
            shipping_country_code@,
        ) > MAX_COUNTRY_CODE_LEN || !shipping_state_within(shipping_state_code) {
            Some(BestOfferErrorCode::FieldTooLong)
        } else if self.config->Some_0.buying_intent_increment == u64::MAX {
            Some(BestOfferErrorCode::NumericalOverflow)
        } else {
            None
        }
    }

    /// The error of the first guard that `create_offer` fails, if any.
    pub open spec fn create_offer_error(&self, buying_intent: u64, url: String, mint: u64) -> Option<
        BestOfferErrorCode,
    > {
        if self.config is None || !self.has_intent(buying_intent) {
            Some(BestOfferErrorCode::NotFound)
        } else if self.intent(buying_intent).state != BuyingIntentState::PUBLISHED {
            Some(BestOfferErrorCode::InvalidState)
        } else if mint >= self.ledger.mint_decimals@.len() {
            Some(BestOfferErrorCode::NotFound)
        } else if utf8_len(url@) > MAX_URL_LEN {
            Some(BestOfferErrorCode::FieldTooLong)
        } else if self.config->Some_0.offer_increment == u64::MAX {
            Some(BestOfferErrorCode::NumericalOverflow)
        } else {
            None
        }
    }

    /// The error of the first guard that `accept_offer` fails, if any.
    pub open spec fn accept_offer_error(
        &self,
        buyer: Address,
        buying_intent: u64,
        offer: u64,
        delivery: EncryptedDeliveryInformation,
        buyer_account: u64,
    ) -> Option<BestOfferErrorCode> {
        if !self.has_intent(buying_intent) {
            Some(BestOfferErrorCode::NotFound)
        } else if self.intent(buying_intent).state != BuyingIntentState::PUBLISHED {
            Some(BestOfferErrorCode::InvalidState)
        } else if self.intent(buying_intent).buyer != buyer {
            Some(BestOfferErrorCode::Unauthorized)
        } else if !self.has_offer(offer) || self.offer(offer).buying_intent != buying_intent {
            Some(BestOfferErrorCode::NotFound)
        } else if self.offer(offer).state != OfferState::PUBLISHED {
            Some(BestOfferErrorCode::InvalidState)
        } else if !delivery.within_bounds() {
            Some(BestOfferErrorCode::FieldTooLong)
        } else if !self.ledger.has_account(buyer_account) {
            Some(BestOfferErrorCode::NotFound)
        } else if self.ledger.account(buyer_account).owner != Authority::Wallet(buyer) {
            Some(BestOfferErrorCode::Unauthorized)
        } else if self.ledger.account(buyer_account).mint != self.offer(offer).mint {
            Some(BestOfferErrorCode::MintMismatch)
        } else if self.ledger.accounts@.len() >= u64::MAX {
            Some(BestOfferErrorCode::NumericalOverflow)
        } else if self.ledger.account(buyer_account).amount < self.offer(offer).offer_price {
            Some(BestOfferErrorCode::InsufficientFunds)
        } else {
            None
        }
    }

    /// `new` is `self` after a successful `accept_offer`: intent confirmed on
    /// the offer, offer accepted, delivery information written, and a new
    /// vault holding the offer price taken from the buyer's account.
    pub open spec fn accept_offer_post(
        &self,
        new: &Marketplace,
        buyer: Address,
        buying_intent: u64,
        offer: u64,
        delivery: EncryptedDeliveryInformation,
        buyer_account: u64,
    ) -> bool {
        let vault = self.ledger.accounts@.len() as int;
        let of = self.offer(offer);
        &&& new.intents@ == self.intents@.update(
            buying_intent as int,
            BuyingIntent {
                state: BuyingIntentState::CONFIRMED,
                accepted_offer: Some(offer),
                ..self.intent(buying_intent)
            },
        )
        &&& new.offers@ == self.offers@.update(
            offer as int,
            Offer { state: OfferState::ACCEPTED, ..of },
        )
        &&& new.deliveries@ == self.deliveries@.insert(buying_intent, delivery)
        &&& new.vaults@ == self.vaults@.insert(buying_intent, vault as u64)
        &&& new.ledger.mint_decimals == self.ledger.mint_decimals
        &&& new.ledger.accounts@ == moved(
            self.ledger.accounts@.push(
                TokenAccount { owner: Authority::Intent(buying_intent), mint: of.mint, amount: 0 },
            ),
            buyer_account as int,
            vault,
            of.offer_price as int,
        )
        &&& new.config == self.config
        &&& new.treasury == self.treasury
        &&& new.trackings == self.trackings
    }

    /// The error of the first guard that `create_tracking_details` fails, if any.
    pub open spec fn tracking_error(
        &self,
        seller: Address,
        buying_intent: u64,
        details: TrackingDetails,
    ) -> Option<BestOfferErrorCode> {
        if !self.has_intent(buying_intent) {
            Some(BestOfferErrorCode::NotFound)
        } else if self.trackings@.contains_key(buying_intent) {
            Some(BestOfferErrorCode::AlreadyExists)
        } else if self.intent(buying_intent).state != BuyingIntentState::CONFIRMED {
            Some(BestOfferErrorCode::InvalidState)
        } else if self.accepted_offer_of(buying_intent).seller != seller {
            Some(BestOfferErrorCode::Unauthorized)
        } else if !details.within_bounds() {
            Some(BestOfferErrorCode::FieldTooLong)
        } else {
            None
        }
    }

    /// `new` is `self` after a successful `create_tracking_details`.
    pub open spec fn tracking_post(
        &self,
        new: &Marketplace,
        buying_intent: u64,
        details: TrackingDetails,
    ) -> bool {
        &&& new.intents@ == self.intents@.update(
            buying_intent as int,
            BuyingIntent { state: BuyingIntentState::SHIPPED, ..self.intent(buying_intent) },
        )
        &&& new.trackings@ == self.trackings@.insert(buying_intent, details)
        &&& new.config == self.config
        &&& new.treasury == self.treasury
        &&& new.offers == self.offers
        &&& new.deliveries == self.deliveries
        &&& new.vaults == self.vaults
        &&& new.ledger == self.ledger
    }

    /// The error of the first guard that `accept_delivery` fails, if any.
    pub open spec fn accept_delivery_error(
        &self,
        buyer: Address,
        buying_intent: u64,
        seller_account: u64,
        treasury_account: u64,
    ) -> Option<BestOfferErrorCode> {
        let of = self.accepted_offer_of(buying_intent);
        let seller_acc = self.ledger.account(seller_account);
        let treasury_acc = self.ledger.account(treasury_account);
        let balance = self.vault_of(buying_intent).amount as int;
        let fee = fee_of(balance, self.config->Some_0.fee as int);
        if self.config is None || self.treasury is None || !self.has_intent(buying_intent) {
            Some(BestOfferErrorCode::NotFound)
        } else if self.intent(buying_intent).state != BuyingIntentState::SHIPPED {
            Some(BestOfferErrorCode::InvalidState)
        } else if self.intent(buying_intent).buyer != buyer {
            Some(BestOfferErrorCode::Unauthorized)
        } else if !self.ledger.has_account(seller_account) || !self.ledger.has_account(
            treasury_account,
        ) {
            Some(BestOfferErrorCode::NotFound)
        } else if seller_acc.owner != Authority::Wallet(of.seller) || treasury_acc.owner
            != Authority::Treasury {
            Some(BestOfferErrorCode::Unauthorized)
        } else if seller_acc.mint != of.mint || treasury_acc.mint != of.mint {
            Some(BestOfferErrorCode::MintMismatch)
        } else if !payout_fits(balance, self.config->Some_0.fee as int) {
            Some(BestOfferErrorCode::NumericalOverflow)
        } else if treasury_acc.amount + fee > u64::MAX || seller_acc.amount + (balance - fee)
            > u64::MAX {
            Some(BestOfferErrorCode::NumericalOverflow)
        } else {
            None
        }
    }

    /// `new` is `self` after a successful `accept_delivery` that paid out
    /// `payout`: intent fulfilled, offer delivered, the whole vault balance
    /// split between the treasury (the fee) and the seller (the rest).
    pub open spec fn accept_delivery_post(
        &self,
        new: &Marketplace,
        buying_intent: u64,
        seller_account: u64,
        treasury_account: u64,
        payout: Payout,
    ) -> bool {
        let ao = self.intent(buying_intent).accepted_offer->Some_0;
        let vault = self.vaults@[buying_intent] as int;
        let balance = self.vault_of(buying_intent).amount as int;
        let fee = fee_of(balance, self.config->Some_0.fee as int);
        &&& payout == Payout { fee: fee as u64, seller_amount: (balance - fee) as u64 }
        &&& new.intents@ == self.intents@.update(
            buying_intent as int,
            BuyingIntent { state: BuyingIntentState::FULFILLED, ..self.intent(buying_intent) },
        )
        &&& new.offers@ == self.offers@.update(
            ao as int,
            Offer { state: OfferState::DELIVERED, ..self.offer(ao) },
        )
        &&& new.ledger.accounts@ == moved(
            moved(self.ledger.accounts@, vault, treasury_account as int, fee),
            vault,
            seller_account as int,
            balance - fee,
        )
        &&& new.ledger.mint_decimals == self.ledger.mint_decimals
        &&& new.config == self.config
        &&& new.treasury == self.treasury
        &&& new.deliveries == self.deliveries
        &&& new.trackings == self.trackings
        &&& new.vaults == self.vaults
    }

    /// An empty marketplace: no configuration, records or currencies yet.
    pub fn new() -> (r: Marketplace)
        ensures
            r.wf(),
            r.config is None,
            r.treasury is None,
            r.intents@.len() == 0,
            r.offers@.len() == 0,
            r.deliveries@ == Map::<u64, EncryptedDeliveryInformation>::empty(),
            r.trackings@ == Map::<u64, TrackingDetails>::empty(),
            r.vaults@ == Map::<u64, u64>::empty(),
            r.ledger.mint_decimals@.len() == 0,
            r.ledger.accounts@.len() == 0,
    {
        Marketplace {
            config: None,
            treasury: None,
            intents: Vec::new(),
            offers: Vec::new(),
            deliveries: RecordStore::new(),
            trackings: RecordStore::new(),
            vaults: RecordStore::new(),
            ledger: TokenLedger::new(),
        }
    }

    /// Creates the platform configuration with fee rate `fee` (basis points)
    /// and both counters at zero. Done once, by the admin.
    pub fn create_config(&mut self, admin: Address, fee: u16) -> (r: Result<
        (),
        BestOfferErrorCode,
    >)
        requires
            old(self).wf(),
        ensures
            final(self).wf(),
            match r {
                Ok(()) => {
                    &&& old(self).config is None
                    &&& fee <= MAX_FEE_BPS
                    &&& final(self).config == Some(
                        Config { admin, fee, buying_intent_increment: 0, offer_increment: 0 },
                    )
                    &&& final(self).treasury == old(self).treasury
                    &&& final(self).intents == old(self).intents
                    &&& final(self).offers == old(self).offers
                    &&& final(self).deliveries == old(self).deliveries
                    &&& final(self).trackings == old(self).trackings
                    &&& final(self).vaults == old(self).vaults
                    &&& final(self).ledger == old(self).ledger
                },
                Err(e) => {
                    &&& e == if old(self).config is Some {
                        BestOfferErrorCode::AlreadyExists
                    } else {
                        BestOfferErrorCode::InvalidFee
                    }
                    &&& (old(self).config is Some || fee > MAX_FEE_BPS)
                    &&& *final(self) == *old(self)
                },
            },
    {
        if self.config.is_some() {
            return Err(BestOfferErrorCode::AlreadyExists);
        }
        if fee > MAX_FEE_BPS {
            return Err(BestOfferErrorCode::InvalidFee);
        }
        self.config = Some(Config { admin, fee, buying_intent_increment: 0, offer_increment: 0 });
        Ok(())
    }

    /// Creates the treasury, on behalf of the configuration's admin.
    pub fn create_treasury(&mut self, admin: Address) -> (r: Result<(), BestOfferErrorCode>)
        requires
            old(self).wf(),
        ensures
            final(self).wf(),
            match r {
                Ok(()) => {
                    &&& old(self).treasury is None
                    &&& old(self).config is Some
                    &&& old(self).config->Some_0.admin == admin
                    &&& final(self).treasury == Some(Treasury { admin })
                    &&& final(self).config == old(self).config
                    &&& final(self).intents == old(self).intents
                    &&& final(self).offers == old(self).offers
                    &&& final(self).deliveries == old(self).deliveries
                    &&& final(self).trackings == old(self).trackings
                    &&& final(self).vaults == old(self).vaults
                    &&& final(self).ledger == old(self).ledger
                },
                Err(e) => {
                    &&& e == if old(self).treasury is Some {
                        BestOfferErrorCode::AlreadyExists
                    } else if old(self).config is None {
                        BestOfferErrorCode::NotFound
                    } else {
                        BestOfferErrorCode::Unauthorized
                    }
                    &&& (old(self).treasury is Some || old(self).config is None
                        || old(self).config->Some_0.admin != admin)
                    &&& *final(self) == *old(self)
                },
            },
    {
        if self.treasury.is_some() {
            return Err(BestOfferErrorCode::AlreadyExists);
        }
        match &self.config {
            None => {
                return Err(BestOfferErrorCode::NotFound);
            },
            Some(c) => {
                if !c.admin.same(&admin) {
                    return Err(BestOfferErrorCode::Unauthorized);
                }
            },
        }
        self.treasury = Some(Treasury { admin });
        proof {
            assert forall|i: int| 0 <= i < self.intents@.len() implies #[trigger] self.intent_wf(
                i,
            ) by {
                assert(old(self).intent_wf(i));
            }
            assert forall|o: int| 0 <= o < self.offers@.len() implies #[trigger] self.offer_wf(
                o,
            ) by {
                assert(old(self).offer_wf(o));
            }
        }
        Ok(())
    }

    /// A buyer publishes a buying intent; its id is the configuration's
    /// intent counter, which then goes up by one.
    pub fn create_buying_intent(
        &mut self,
        buyer: Address,
        gtin: u64,
        product_name: String,
        shipping_country_code: String,
        shipping_state_code: Option<String>,
        quantity: u16,
    ) -> (r: Result<u64, BestOfferErrorCode>)
        requires
            old(self).wf(),
        ensures
            final(self).wf(),
            match r {
                Ok(id) => {
                    &&& old(self).create_intent_error(
                        product_name,
                        shipping_country_code,
                        shipping_state_code,
                    ) is None
                    &&& id == old(self).config->Some_0.buying_intent_increment
                    &&& final(self).intents@ == old(self).intents@.push(
                        BuyingIntent {
                            id,
                            buyer,
                            gtin,
                            product_name,
                            shipping_country_code,
                            shipping_state_code,
                            accepted_offer: None,
                            state: BuyingIntentState::PUBLISHED,
                            quantity,
                        },
                    )
                    &&& final(self).config == Some(
                        Config {
                            buying_intent_increment: (id + 1) as u64,
                            ..old(self).config->Some_0
                        },
                    )
                    &&& final(self).offers == old(self).offers
                    &&& final(self).same_holdings(old(self))
                },
                Err(e) => {
                    &&& old(self).create_intent_error(
                        product_name,
                        shipping_country_code,
                        shipping_state_code,
                    ) == Some(e)
                    &&& *final(self) == *old(self)
                },
            },
    {
        let c = match self.config {
            Some(c) => c,
            None => return Err(BestOfferErrorCode::NotFound),
        };
        let state_code_fits = match &shipping_state_code {
            Some(code) => byte_len(code) <= MAX_STATE_CODE_LEN,
            None => true,
        };
        if byte_len(&product_name) > MAX_PRODUCT_NAME_LEN || byte_len(&shipping_country_code)
            > MAX_COUNTRY_CODE_LEN || !state_code_fits {
            return Err(BestOfferErrorCode::FieldTooLong);
        }
        if c.buying_intent_increment == u64::MAX {
            return Err(BestOfferErrorCode::NumericalOverflow);
        }
        let id = c.buying_intent_increment;
        self.intents.push(
            BuyingIntent {
                id,
                buyer,
                gtin,
                product_name,
                shipping_country_code,
                shipping_state_code,
                accepted_offer: None,
                state: BuyingIntentState::PUBLISHED,
                quantity,
            },
        );
        self.config = Some(Config { buying_intent_increment: id + 1, ..c });
        proof {
            assert forall|i: int| 0 <= i < self.intents@.len() implies #[trigger] self.intent_wf(
                i,
            ) by {
                if i < id {
                    assert(old(self).intent_wf(i));
                    assert(self.intents@[i] == old(self).intents@[i]);
                }
            }
            assert forall|o: int| 0 <= o < self.offers@.len() implies #[trigger] self.offer_wf(
                o,
            ) by {
                assert(old(self).offer_wf(o));
            }
        }
        Ok(id)
    }

    /// A seller publishes an offer against an intent that is still open.
    pub fn create_offer(
        &mut self,
        seller: Address,
        buying_intent: u64,
        url: String,
        public_price: u64,
        offer_price: u64,
        shipping_price: u64,
        mint: u64,
    ) -> (r: Result<u64, BestOfferErrorCode>)
        requires
            old(self).wf(),
        ensures
            final(self).wf(),
            match r {
                Ok(id) => {
                    &&& old(self).create_offer_error(buying_intent, url, mint) is None
                    &&& id == old(self).config->Some_0.offer_increment
                    &&& final(self).offers@ == old(self).offers@.push(
                        Offer {
                            id,
                            buying_intent,
                            seller,
                            url,
                            public_price,
                            offer_price,
                            shipping_price,
                            mint,
                            state: OfferState::PUBLISHED,
                        },
                    )
                    &&& final(self).config == Some(
                        Config { offer_increment: (id + 1) as u64, ..old(self).config->Some_0 },
                    )
                    &&& final(self).intents == old(self).intents
                    &&& final(self).same_holdings(old(self))
                },
                Err(e) => {
                    &&& old(self).create_offer_error(buying_intent, url, mint) == Some(e)
                    &&& *final(self) == *old(self)
                },
            },
    {
        let c = match self.config {
            Some(c) => c,
            None => return Err(BestOfferErrorCode::NotFound),
        };
        let i = match slot(buying_intent, self.intents.len()) {
            Some(i) => i,
            None => return Err(BestOfferErrorCode::NotFound),
        };
        if self.intents[i].state != BuyingIntentState::PUBLISHED {
            return Err(BestOfferErrorCode::InvalidState);
        }
        if slot(mint, self.ledger.mint_decimals.len()).is_none() {
            return Err(BestOfferErrorCode::NotFound);
        }
        if byte_len(&url) > MAX_URL_LEN {
            return Err(BestOfferErrorCode::FieldTooLong);
        }
        if c.offer_increment == u64::MAX {
            return Err(BestOfferErrorCode::NumericalOverflow);
        }
        let id = c.offer_increment;
        self.offers.push(
            Offer {
                id,
                buying_intent,
                seller,
                url,
                public_price,
                offer_price,
                shipping_price,
                mint,
                state: OfferState::PUBLISHED,
            },
        );
        self.config = Some(Config { offer_increment: id + 1, ..c });
        proof {
            assert forall|i: int| 0 <= i < self.intents@.len() implies #[trigger] self.intent_wf(
                i,
            ) by {
                assert(old(self).intent_wf(i));
                let it = self.intents@[i];
                if is_settling(it.state) {
                    assert(self.offers@[it.accepted_offer->Some_0 as int]
                        == old(self).offers@[it.accepted_offer->Some_0 as int]);
                }
            }
            assert forall|o: int| 0 <= o < self.offers@.len() implies #[trigger] self.offer_wf(
                o,
            ) by {
                if o < id {
                    assert(old(self).offer_wf(o));
                    assert(self.offers@[o] == old(self).offers@[o]);
                }
            }
        }
        Ok(id)
    }

    /// The buyer of an open intent accepts one of its offers: the intent is
    /// confirmed, the offer accepted, the encrypted delivery address stored,
    /// and the offer price moved from `buyer_account` into a new vault that
    /// only the intent can sign for. All of it happens, or none.
    pub fn accept_offer(
        &mut self,
        buyer: Address,
        buying_intent: u64,
        offer: u64,
        delivery: EncryptedDeliveryInformation,
        buyer_account: u64,
    ) -> (r: Result<(), BestOfferErrorCode>)
        requires
            old(self).wf(),
        ensures
            final(self).wf(),
            match r {
                Ok(()) => {
                    &&& old(self).accept_offer_error(
                        buyer,
                        buying_intent,
                        offer,
                        delivery,
                        buyer_account,
                    ) is None
                    &&& old(self).accept_offer_post(
                        final(self),
                        buyer,
                        buying_intent,
                        offer,
                        delivery,
                        buyer_account,
                    )
                },
                Err(e) => {
                    &&& old(self).accept_offer_error(
                        buyer,
                        buying_intent,
                        offer,
                        delivery,
                        buyer_account,
                    ) == Some(e)
                    &&& *final(self) == *old(self)
                },
            },
    {
        let i = match slot(buying_intent, self.intents.len()) {
            Some(i) => i,
            None => return Err(BestOfferErrorCode::NotFound),
        };
        if self.intents[i].state != BuyingIntentState::PUBLISHED {
            return Err(BestOfferErrorCode::InvalidState);
        }
        if !self.intents[i].buyer.same(&buyer) {
            return Err(BestOfferErrorCode::Unauthorized);
        }
        let o = match slot(offer, self.offers.len()) {
            Some(o) => o,
            None => return Err(BestOfferErrorCode::NotFound),
        };
        if self.offers[o].buying_intent != buying_intent {
            return Err(BestOfferErrorCode::NotFound);
        }
        if self.offers[o].state != OfferState::PUBLISHED {
            return Err(BestOfferErrorCode::InvalidState);
        }
        if !delivery.fits() {
            return Err(BestOfferErrorCode::FieldTooLong);
        }
        let b = match slot(buyer_account, self.ledger.accounts.len()) {
            Some(b) => b,
            None => return Err(BestOfferErrorCode::NotFound),
        };
        let source = self.ledger.accounts[b];
        if !source.owner.same(&Authority::Wallet(buyer)) {
            return Err(BestOfferErrorCode::Unauthorized);
        }
        let mint = self.offers[o].mint;
        if source.mint != mint {
            return Err(BestOfferErrorCode::MintMismatch);
        }
        if self.ledger.accounts.len() as u64 == u64::MAX {
            return Err(BestOfferErrorCode::NumericalOverflow);
        }
        let price = self.offers[o].offer_price;
        if source.amount < price {
            return Err(BestOfferErrorCode::InsufficientFunds);
        }
        proof {
            assert(old(self).intent_wf(i as int));
            assert(old(self).offer_wf(o as int));
        }
        let m = match slot(mint, self.ledger.mint_decimals.len()) {
            Some(m) => m,
            None => return Err(BestOfferErrorCode::NotFound),
        };
        let decimals = self.ledger.mint_decimals[m];
        let ghost accounts_before = self.ledger.accounts@;
        let vault = match self.ledger.open_account(Authority::Intent(buying_intent), mint) {
            Ok(v) => v,
            Err(e) => return Err(e),
        };
        assert(self.ledger.accounts@[b as int] == accounts_before[b as int]);
        match self.ledger.transfer_checked(
            buyer_account,
            vault,
            price,
            decimals,
            Authority::Wallet(buyer),
        ) {
            Ok(()) => {},
            Err(e) => return Err(e),
        }
        match self.deliveries.record(buying_intent, delivery) {
            Ok(()) => {},
            Err(e) => return Err(e),
        }
        match self.vaults.record(buying_intent, vault) {
            Ok(()) => {},
            Err(e) => return Err(e),
        }
        self.intents[i].state = BuyingIntentState::CONFIRMED;
        self.intents[i].accepted_offer = Some(offer);
        self.offers[o].state = OfferState::ACCEPTED;
        assert(self.intents@ =~= old(self).intents@.update(
            i as int,
            BuyingIntent {
                state: BuyingIntentState::CONFIRMED,
                accepted_offer: Some(offer),
                ..old(self).intents@[i as int]
            },
        ));
        proof {
            let pushed = accounts_before.push(
                TokenAccount { owner: Authority::Intent(buying_intent), mint, amount: 0 },
            );
            lemma_moved_keeps_accounts(pushed, b as int, vault as int, price as int);
            assert forall|j: int| 0 <= j < self.intents@.len() implies #[trigger] self.intent_wf(
                j,
            ) by {
                assert(old(self).intent_wf(j));
                if j != i {
                    assert(self.intents@[j] == old(self).intents@[j]);
                    let it = self.intents@[j];
                    if is_settling(it.state) {
                        let ao = it.accepted_offer->Some_0 as int;
                        assert(ao != o);
                        assert(self.offers@[ao] == old(self).offers@[ao]);
                        let va = old(self).vaults@[j as u64] as int;
                        assert(pushed[va] == accounts_before[va]);
                    }
                }
            }
            assert forall|q: int| 0 <= q < self.offers@.len() implies #[trigger] self.offer_wf(
                q,
            ) by {
                assert(old(self).offer_wf(q));
            }
        }
        Ok(())
    }

    /// Declares a settlement currency with `decimals` decimals; returns its index.
    pub fn create_mint(&mut self, decimals: u8) -> (r: Result<u64, BestOfferErrorCode>)
        requires
            old(self).wf(),
        ensures
            final(self).wf(),
            r is Ok <==> old(self).ledger.mint_decimals@.len() < u64::MAX,
            r is Ok ==> r->Ok_0 == old(self).ledger.mint_decimals@.len()
                && final(self).ledger.mint_decimals@ == old(self).ledger.mint_decimals@.push(
                decimals,
            ) && final(self).ledger.accounts == old(self).ledger.accounts,
            r is Err ==> r->Err_0 == BestOfferErrorCode::NumericalOverflow && *final(self) == *old(self),
            final(self).config == old(self).config,
            final(self).treasury == old(self).treasury,
            final(self).intents == old(self).intents,
            final(self).offers == old(self).offers,
            final(self).deliveries == old(self).deliveries,
            final(self).trackings == old(self).trackings,
            final(self).vaults == old(self).vaults,
    {
        let r = self.ledger.create_mint(decimals);
        proof {
            self.lemma_ledger_grows(old(self));
        }
        r
    }

    /// Opens an empty token account of currency `mint` for a wallet.
    pub fn open_token_account(&mut self, owner: Address, mint: u64) -> (r: Result<
        u64,
        BestOfferErrorCode,
    >)
        requires
            old(self).wf(),
        ensures
            final(self).wf(),
            r is Ok <==> mint < old(self).ledger.mint_decimals@.len()
                && old(self).ledger.accounts@.len() < u64::MAX,
            r is Ok ==> r->Ok_0 == old(self).ledger.accounts@.len() && final(self).ledger.accounts@ == old(self).ledger.accounts@.push(
                TokenAccount { owner: Authority::Wallet(owner), mint, amount: 0 },
            ),
            r is Err ==> *final(self) == *old(self),
            final(self).ledger.mint_decimals == old(self).ledger.mint_decimals,
            final(self).config == old(self).config,
            final(self).treasury == old(self).treasury,
            final(self).intents == old(self).intents,
            final(self).offers == old(self).offers,
            final(self).deliveries == old(self).deliveries,
            final(self).trackings == old(self).trackings,
            final(self).vaults == old(self).vaults,
    {
        let r = self.ledger.open_account(Authority::Wallet(owner), mint);
        proof {
            self.lemma_ledger_grows(old(self));
        }
        r
    }

    /// Opens the treasury's empty token account of currency `mint`.
    pub fn open_treasury_account(&mut self, mint: u64) -> (r: Result<u64, BestOfferErrorCode>)
        requires
            old(self).wf(),
        ensures
            final(self).wf(),
            r is Ok <==> mint < old(self).ledger.mint_decimals@.len()
                && old(self).ledger.accounts@.len() < u64::MAX,
            r is Ok ==> r->Ok_0 == old(self).ledger.accounts@.len() && final(self).ledger.accounts@ == old(self).ledger.accounts@.push(
                TokenAccount { owner: Authority::Treasury, mint, amount: 0 },
            ),
            r is Err ==> *final(self) == *old(self),
            final(self).ledger.mint_decimals == old(self).ledger.mint_decimals,
            final(self).config == old(self).config,
            final(self).treasury == old(self).treasury,
            final(self).intents == old(self).intents,
            final(self).offers == old(self).offers,
            final(self).deliveries == old(self).deliveries,
            final(self).trackings == old(self).trackings,
            final(self).vaults == old(self).vaults,
    {
        let r = self.ledger.open_account(Authority::Treasury, mint);
        proof {
            self.lemma_ledger_grows(old(self));
        }
        r
    }

    /// Issues `amount` new tokens into an account.
    pub fn mint_to(&mut self, account: u64, amount: u64) -> (r: Result<(), BestOfferErrorCode>)
        requires
            old(self).wf(),
        ensures
            final(self).wf(),
            r is Ok <==> old(self).ledger.has_account(account) && old(self).ledger.account(
                account,
            ).amount + amount <= u64::MAX,
            r is Ok ==> final(self).ledger.accounts@ == old(self).ledger.accounts@.update(
                account as int,
                TokenAccount {
                    amount: (old(self).ledger.account(account).amount + amount) as u64,
                    ..old(self).ledger.account(account)
                },
            ),
            r is Err ==> *final(self) == *old(self),
            final(self).ledger.mint_decimals == old(self).ledger.mint_decimals,
            final(self).config == old(self).config,
            final(self).treasury == old(self).treasury,
            final(self).intents == old(self).intents,
            final(self).offers == old(self).offers,
            final(self).deliveries == old(self).deliveries,
            final(self).trackings == old(self).trackings,
            final(self).vaults == old(self).vaults,
    {
        let r = self.ledger.mint_to(account, amount);
        proof {
            self.lemma_ledger_grows(old(self));
        }
        r
    }

    /// The balance of a token account, if it exists.
    pub fn balance(&self, account: u64) -> (r: Option<u64>)
        ensures
            r is Some <==> self.ledger.has_account(account),
            r is Some ==> r->Some_0 == self.ledger.account(account).amount,
    {
        self.ledger.balance(account)
    }

    /// A ledger change that keeps every existing account's owner and
    /// currency, and drops no currency, keeps the marketplace well formed.
    proof fn lemma_ledger_grows(&self, before: &Marketplace)
        requires
            before.wf(),
            self.ledger.wf(),
            self.config == before.config,
            self.treasury == before.treasury,
            self.intents == before.intents,
            self.offers == before.offers,
            self.deliveries == before.deliveries,
            self.trackings == before.trackings,
            self.vaults == before.vaults,
            self.ledger.mint_decimals@.len() >= before.ledger.mint_decimals@.len(),
            self.ledger.accounts@.len() >= before.ledger.accounts@.len(),
            forall|k: int|
                0 <= k < before.ledger.accounts@.len() ==> (#[trigger] self.ledger.accounts@[k]).owner
                    == before.ledger.accounts@[k].owner && self.ledger.accounts@[k].mint
                    == before.ledger.accounts@[k].mint,
        ensures
            self.wf(),
    {
        assert forall|j: int| 0 <= j < self.intents@.len() implies #[trigger] self.intent_wf(j) by {
            assert(before.intent_wf(j));
        }
        assert forall|q: int| 0 <= q < self.offers@.len() implies #[trigger] self.offer_wf(q) by {
            assert(before.offer_wf(q));
        }
    }

    /// The seller of the accepted offer records shipment tracking; the intent
    /// moves from confirmed to shipped. Tracking is written once per intent.
    pub fn create_tracking_details(
        &mut self,
        seller: Address,
        buying_intent: u64,
        carrier_name: String,
        tracking_url: String,
        tracking_code: String,
    ) -> (r: Result<(), BestOfferErrorCode>)
        requires
            old(self).wf(),
        ensures
            final(self).wf(),
            ({
                let details = TrackingDetails { carrier_name, tracking_url, tracking_code };
                match r {
                    Ok(()) => {
                        &&& old(self).tracking_error(seller, buying_intent, details) is None
                        &&& old(self).tracking_post(final(self), buying_intent, details)
                    },
                    Err(e) => {
                        &&& old(self).tracking_error(seller, buying_intent, details) == Some(e)
                        &&& *final(self) == *old(self)
                    },
                }
            }),
    {
        let details = TrackingDetails { carrier_name, tracking_url, tracking_code };
        let i = match slot(buying_intent, self.intents.len()) {
            Some(i) => i,
            None => return Err(BestOfferErrorCode::NotFound),
        };
        if self.trackings.contains(buying_intent) {
            return Err(BestOfferErrorCode::AlreadyExists);
        }
        if self.intents[i].state != BuyingIntentState::CONFIRMED {
            return Err(BestOfferErrorCode::InvalidState);
        }
        proof {
            assert(old(self).intent_wf(i as int));
        }
        let ao = match self.intents[i].accepted_offer {
            Some(ao) => ao,
            None => return Err(BestOfferErrorCode::NotFound),
        };
        let o = match slot(ao, self.offers.len()) {
            Some(o) => o,
            None => return Err(BestOfferErrorCode::NotFound),
        };
        if !self.offers[o].seller.same(&seller) {
            return Err(BestOfferErrorCode::Unauthorized);
        }
        if !details.fits() {
            return Err(BestOfferErrorCode::FieldTooLong);
        }
        match self.trackings.record(buying_intent, details) {
            Ok(()) => {},
            Err(e) => return Err(e),
        }
        self.intents[i].state = BuyingIntentState::SHIPPED;
        proof {
            assert forall|j: int| 0 <= j < self.intents@.len() implies #[trigger] self.intent_wf(
                j,
            ) by {
                assert(old(self).intent_wf(j));
                if j != i {
                    assert(self.intents@[j] == old(self).intents@[j]);
                }
            }
            assert forall|q: int| 0 <= q < self.offers@.len() implies #[trigger] self.offer_wf(
                q,
            ) by {
                assert(old(self).offer_wf(q));
            }
        }
        Ok(())
    }

    /// The buyer accepts delivery of a shipped intent: the intent is
    /// fulfilled, the offer delivered, and the vault's whole balance paid
    /// out, `floor(balance * fee / 10000)` to the treasury and the rest to the
    /// seller, both on the vault's own authority. All of it happens, or none.
    pub fn accept_delivery(
        &mut self,
        buyer: Address,
        buying_intent: u64,
        seller_account: u64,
        treasury_account: u64,
    ) -> (r: Result<Payout, BestOfferErrorCode>)
        requires
            old(self).wf(),
        ensures
            final(self).wf(),
            match r {
                Ok(p) => {
                    &&& old(self).accept_delivery_error(
                        buyer,
                        buying_intent,
                        seller_account,
                        treasury_account,
                    ) is None
                    &&& old(self).accept_delivery_post(
                        final(self),
                        buying_intent,
                        seller_account,
                        treasury_account,
                        p,
                    )
                    &&& p.fee + p.seller_amount == old(self).vault_of(buying_intent).amount
                    &&& final(self).vault_of(buying_intent).amount == 0
                    &&& final(self).ledger.account(treasury_account).amount == old(self).ledger.account(treasury_account).amount + p.fee
                    &&& final(self).ledger.account(seller_account).amount == old(self).ledger.account(seller_account).amount + p.seller_amount
                },
                Err(e) => {
                    &&& old(self).accept_delivery_error(
                        buyer,
                        buying_intent,
                        seller_account,
                        treasury_account,
                    ) == Some(e)
                    &&& *final(self) == *old(self)
                },
            },
            old(self).config is Some && old(self).treasury is Some && old(self).has_intent(
                buying_intent,
            ) && old(self).intent(buying_intent).state != BuyingIntentState::SHIPPED ==> r
                == Err::<Payout, BestOfferErrorCode>(BestOfferErrorCode::InvalidState),
    {
        let c = match self.config {
            Some(c) => c,
            None => return Err(BestOfferErrorCode::NotFound),
        };
        if self.treasury.is_none() {
            return Err(BestOfferErrorCode::NotFound);
        }
        let i = match slot(buying_intent, self.intents.len()) {
            Some(i) => i,
            None => return Err(BestOfferErrorCode::NotFound),
        };
        if self.intents[i].state != BuyingIntentState::SHIPPED {
            return Err(BestOfferErrorCode::InvalidState);
        }
        if !self.intents[i].buyer.same(&buyer) {
            return Err(BestOfferErrorCode::Unauthorized);
        }
        proof {
            assert(old(self).intent_wf(i as int));
        }
        let ao = match self.intents[i].accepted_offer {
            Some(ao) => ao,
            None => return Err(BestOfferErrorCode::NotFound),
        };
        let o = match slot(ao, self.offers.len()) {
            Some(o) => o,
            None => return Err(BestOfferErrorCode::NotFound),
        };
        let n = self.ledger.accounts.len();
        let (s, t) = match (slot(seller_account, n), slot(treasury_account, n)) {
            (Some(s), Some(t)) => (s, t),
            _ => return Err(BestOfferErrorCode::NotFound),
        };
        let seller_acc = self.ledger.accounts[s];
        let treasury_acc = self.ledger.accounts[t];
        if !seller_acc.owner.same(&Authority::Wallet(self.offers[o].seller))
            || !treasury_acc.owner.same(&Authority::Treasury) {
            return Err(BestOfferErrorCode::Unauthorized);
        }
        let mint = self.offers[o].mint;
        if seller_acc.mint != mint || treasury_acc.mint != mint {
            return Err(BestOfferErrorCode::MintMismatch);
        }
        let vault = match self.vaults.get(buying_intent) {
            Some(v) => *v,
            None => return Err(BestOfferErrorCode::NotFound),
        };
        let v = match slot(vault, n) {
            Some(v) => v,
            None => return Err(BestOfferErrorCode::NotFound),
        };
        let balance = self.ledger.accounts[v].amount;
        let payout = match compute_payout(balance, c.fee) {
            Ok(p) => p,
            Err(e) => return Err(e),
        };
        if treasury_acc.amount.checked_add(payout.fee).is_none()
            || seller_acc.amount.checked_add(payout.seller_amount).is_none() {
            return Err(BestOfferErrorCode::NumericalOverflow);
        }
        proof {
            assert(old(self).offer_wf(o as int));
        }
        let m = match slot(mint, self.ledger.mint_decimals.len()) {
            Some(m) => m,
            None => return Err(BestOfferErrorCode::NotFound),
        };
        let decimals = self.ledger.mint_decimals[m];
        let ghost accounts_before = self.ledger.accounts@;
        match self.ledger.transfer_checked(
            vault,
            treasury_account,
            payout.fee,
            decimals,
            Authority::Intent(buying_intent),
        ) {
            Ok(()) => {},
            Err(e) => return Err(e),
        }
        let ghost accounts_between = self.ledger.accounts@;
        assert(accounts_between[v as int].amount == balance - payout.fee);
        assert(accounts_between[s as int] == accounts_before[s as int]);
        match self.ledger.transfer_checked(
            vault,
            seller_account,
            payout.seller_amount,
            decimals,
            Authority::Intent(buying_intent),
        ) {
            Ok(()) => {},
            Err(e) => return Err(e),
        }
        self.intents[i].state = BuyingIntentState::FULFILLED;
        self.offers[o].state = OfferState::DELIVERED;
        proof {
            lemma_moved_keeps_accounts(accounts_before, v as int, t as int, payout.fee as int);
            lemma_moved_keeps_accounts(
                accounts_between,
                v as int,
                s as int,
                payout.seller_amount as int,
            );
            assert forall|j: int| 0 <= j < self.intents@.len() implies #[trigger] self.intent_wf(
                j,
            ) by {
                assert(old(self).intent_wf(j));
                if j != i {
                    assert(self.intents@[j] == old(self).intents@[j]);
                    let it = self.intents@[j];
                    if is_settling(it.state) {
                        let q = it.accepted_offer->Some_0 as int;
                        assert(old(self).offer_wf(q));
                    }
                }
            }
            assert forall|q: int| 0 <= q < self.offers@.len() implies #[trigger] self.offer_wf(
                q,
            ) by {
                assert(old(self).offer_wf(q));
            }
        }
        Ok(payout)
    }
}

/// Intent ids come from the counter: once the counter stands at `n`, the ids
/// `0..n` have each been issued to exactly one intent, and no other id has.
pub proof fn lemma_intent_ids_issued_once(m: &Marketplace)
    requires
        m.wf(),
        m.config is Some,
    ensures
        m.intents@.len() == m.config->Some_0.buying_intent_increment,
        forall|k: int|
            0 <= k < m.config->Some_0.buying_intent_increment ==> #[trigger] m.intent_id_issued(k),
        forall|i: int, j: int|
            0 <= i < m.intents@.len() && 0 <= j < m.intents@.len() && i != j ==> (
            #[trigger] m.intents@[i]).id != (#[trigger] m.intents@[j]).id,
        forall|i: int|
            0 <= i < m.intents@.len() ==> (#[trigger] m.intents@[i]).id
                < m.config->Some_0.buying_intent_increment,
{
    assert forall|k: int| 0 <= k < m.config->Some_0.buying_intent_increment implies #[trigger] m.intent_id_issued(k) by {
        assert(m.intent_wf(k));
        assert(m.intents@[k].id == k);
    }
    assert forall|i: int, j: int|
        0 <= i < m.intents@.len() && 0 <= j < m.intents@.len() && i != j implies (
        #[trigger] m.intents@[i]).id != (#[trigger] m.intents@[j]).id by {
        assert(m.intent_wf(i));
        assert(m.intent_wf(j));
    }
    assert forall|i: int| 0 <= i < m.intents@.len() implies (#[trigger] m.intents@[i]).id
        < m.config->Some_0.buying_intent_increment by {
        assert(m.intent_wf(i));
    }
}

/// At most one offer per intent is ever accepted: two offers of the same
/// intent that are both accepted or delivered are the same offer.
pub proof fn lemma_one_accepted_offer_per_intent(m: &Marketplace, first: u64, second: u64)
    requires
        m.wf(),
        m.has_offer(first),
        m.has_offer(second),
        m.offer(first).buying_intent == m.offer(second).buying_intent,
        m.offer(first).state == OfferState::ACCEPTED || m.offer(first).state
            == OfferState::DELIVERED,
        m.offer(second).state == OfferState::ACCEPTED || m.offer(second).state
            == OfferState::DELIVERED,
    ensures
        first == second,
{
    assert(m.offer_wf(first as int));
    assert(m.offer_wf(second as int));
}

/// An intent accepts an offer once: after a successful `accept_offer`, every
/// later `accept_offer` on the same intent fails with `InvalidState`,
/// whatever its caller, offer, delivery information or account.
pub proof fn lemma_accept_offer_once(
    before: &Marketplace,
    after: &Marketplace,
    buyer: Address,
    buying_intent: u64,
    offer: u64,
    delivery: EncryptedDeliveryInformation,
    buyer_account: u64,
    next_buyer: Address,
    next_offer: u64,
    next_delivery: EncryptedDeliveryInformation,
    next_account: u64,
)
    requires
        before.wf(),
        before.accept_offer_error(buyer, buying_intent, offer, delivery, buyer_account) is None,
        before.accept_offer_post(after, buyer, buying_intent, offer, delivery, buyer_account),
    ensures
        after.accept_offer_error(next_buyer, buying_intent, next_offer, next_delivery, next_account)
            == Some(BestOfferErrorCode::InvalidState),
        after.deliveries@[buying_intent] == delivery,
{
}

/// Tracking details are written once: after a successful
/// `create_tracking_details`, every later call for the same intent fails with
/// `AlreadyExists`, and the details stay as written.
pub proof fn lemma_tracking_written_once(
    before: &Marketplace,
    after: &Marketplace,
    seller: Address,
    buying_intent: u64,
    details: TrackingDetails,
    next_seller: Address,
    next_details: TrackingDetails,
)
    requires
        before.wf(),
        before.tracking_error(seller, buying_intent, details) is None,
        before.tracking_post(after, buying_intent, details),
    ensures
        after.tracking_error(next_seller, buying_intent, next_details) == Some(
            BestOfferErrorCode::AlreadyExists,
        ),
        after.trackings@[buying_intent] == details,
{
}

/// Delivery can be accepted only for a shipped intent: on an initialised
/// marketplace, `accept_delivery` on an existing intent in any other state
/// fails with `InvalidState`.
pub proof fn lemma_delivery_needs_shipment(
    m: &Marketplace,
    buyer: Address,
    buying_intent: u64,
    seller_account: u64,
    treasury_account: u64,
)
    requires
        m.config is Some,
        m.treasury is Some,
        m.has_intent(buying_intent),
        m.intent(buying_intent).state != BuyingIntentState::SHIPPED,
    ensures
        m.accept_delivery_error(buyer, buying_intent, seller_account, treasury_account) == Some(
            BestOfferErrorCode::InvalidState,
        ),
{
}

} // verus!
