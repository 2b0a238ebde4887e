use bestoffer::address::{Address, Authority};
use bestoffer::enums::{BuyingIntentState, OfferState};
use bestoffer::error::BestOfferErrorCode;
use bestoffer::fee::{compute_payout, Payout};
use bestoffer::marketplace::Marketplace;
use bestoffer::records::{EncryptedDeliveryInformation, RecordStore, TrackingDetails};
use bestoffer::state::DEFAULT_FEE_BPS;

fn admin() -> Address {
    Address::new([1u8; 32])
}

fn buyer() -> Address {
    Address::new([2u8; 32])
}

fn seller() -> Address {
    Address::new([3u8; 32])
}

fn delivery() -> EncryptedDeliveryInformation {
    EncryptedDeliveryInformation {
        nonce: [7u8; 24],
        buyer_ephemeral_pubkey: [8u8; 32],
        encrypted_delivery_lastname: vec![1u8; 40],
        encrypted_delivery_firstname: vec![2u8; 40],
        encrypted_delivery_address_line_1: vec![3u8; 80],
        encrypted_delivery_address_line_2: None,
        encrypted_delivery_city: vec![4u8; 40],
        encrypted_delivery_postal_code: vec![5u8; 24],
        encrypted_delivery_country_code: vec![6u8; 24],
        encrypted_delivery_state_code: Some(vec![9u8; 28]),
    }
}

/// Accounts and records of one flow up to a published offer.
struct Flow {
    market: Marketplace,
    intent: u64,
    offer: u64,
    buyer_account: u64,
    seller_account: u64,
    treasury_account: u64,
}

fn published(fee: u16, price: u64, funds: u64) -> Flow {
    let mut market = Marketplace::new();
    market.create_config(admin(), fee).unwrap();
    market.create_treasury(admin()).unwrap();
    let mint = market.create_mint(6).unwrap();
    let buyer_account = market.open_token_account(buyer(), mint).unwrap();
    let seller_account = market.open_token_account(seller(), mint).unwrap();
    let treasury_account = market.open_treasury_account(mint).unwrap();
    market.mint_to(buyer_account, funds).unwrap();
    let intent = market
        .create_buying_intent(buyer(), 111, "Headphones".to_string(), "US".to_string(), Some("CA".to_string()), 1)
        .unwrap();
    let offer = market
        .create_offer(seller(), intent, "https://shop.example/item".to_string(), price + 5, price, 0, mint)
        .unwrap();
    Flow { market, intent, offer, buyer_account, seller_account, treasury_account }
}

fn shipped(fee: u16, price: u64) -> Flow {
    let mut flow = published(fee, price, price);
    flow.market.accept_offer(buyer(), flow.intent, flow.offer, delivery(), flow.buyer_account).unwrap();
    flow.market
        .create_tracking_details(seller(), flow.intent, "UPS".to_string(), "https://ups.example/t".to_string(), "1Z999".to_string())
        .unwrap();
    flow
}

fn vault_balance(flow: &Flow) -> u64 {
    let vault = *flow.market.vaults.get(flow.intent).unwrap();
    flow.market.balance(vault).unwrap()
}

#[test]
fn payout_of_one_percent() {
    assert_eq!(compute_payout(1_000_000, 100), Ok(Payout { fee: 10_000, seller_amount: 990_000 }));
}

#[test]
fn payout_rounds_fee_down() {
    assert_eq!(compute_payout(9_999, 1), Ok(Payout { fee: 0, seller_amount: 9_999 }));
    assert_eq!(compute_payout(123_457, 250), Ok(Payout { fee: 3_086, seller_amount: 120_371 }));
}

#[test]
fn payout_edges_of_the_rate() {
    assert_eq!(compute_payout(12_345, 0), Ok(Payout { fee: 0, seller_amount: 12_345 }));
    assert_eq!(compute_payout(12_345, 10_000), Ok(Payout { fee: 12_345, seller_amount: 0 }));
    assert_eq!(compute_payout(0, 100), Ok(Payout { fee: 0, seller_amount: 0 }));
}

#[test]
fn payout_parts_add_up() {
    for (balance, fee) in [(1u64, 1u16), (77, 9_999), (1_000_000_007, 333), (u64::MAX / 10_000, 10_000)] {
        let p = compute_payout(balance, fee).unwrap();
        assert_eq!(p.fee as u128, (balance as u128 * fee as u128) / 10_000);
        assert_eq!(p.fee + p.seller_amount, balance);
    }
}

#[test]
fn payout_overflow_is_refused() {
    assert_eq!(compute_payout(u64::MAX, 2), Err(BestOfferErrorCode::NumericalOverflow));
    assert_eq!(compute_payout(u64::MAX / 100 + 1, 100), Err(BestOfferErrorCode::NumericalOverflow));
    assert_eq!(compute_payout(u64::MAX / 100, 100).map(|p| p.fee), Ok(u64::MAX / 100 * 100 / 10_000));
}

#[test]
fn payout_rate_above_whole_is_refused() {
    assert_eq!(compute_payout(10, 20_000), Err(BestOfferErrorCode::NumericalOverflow));
}

#[test]
fn end_to_end_settlement() {
    let mut flow = published(DEFAULT_FEE_BPS, 1_000_000, 1_000_000);
    assert_eq!(flow.market.config.unwrap().fee, 100);
    assert_eq!(flow.market.intents[0].gtin, 111);
    assert_eq!(flow.market.intents[0].quantity, 1);
    flow.market.accept_offer(buyer(), flow.intent, flow.offer, delivery(), flow.buyer_account).unwrap();
    assert_eq!(vault_balance(&flow), 1_000_000);
    assert_eq!(flow.market.balance(flow.buyer_account), Some(0));
    assert_eq!(flow.market.intents[0].state, BuyingIntentState::CONFIRMED);
    assert_eq!(flow.market.intents[0].accepted_offer, Some(flow.offer));
    assert_eq!(flow.market.offers[0].state, OfferState::ACCEPTED);
    flow.market
        .create_tracking_details(seller(), flow.intent, "UPS".to_string(), "https://ups.example/t".to_string(), "1Z999".to_string())
        .unwrap();
    assert_eq!(flow.market.intents[0].state, BuyingIntentState::SHIPPED);
    let payout = flow
        .market
        .accept_delivery(buyer(), flow.intent, flow.seller_account, flow.treasury_account)
        .unwrap();
    assert_eq!(payout, Payout { fee: 10_000, seller_amount: 990_000 });
    assert_eq!(flow.market.balance(flow.treasury_account), Some(10_000));
    assert_eq!(flow.market.balance(flow.seller_account), Some(990_000));
    assert_eq!(vault_balance(&flow), 0);
    assert_eq!(flow.market.intents[0].state, BuyingIntentState::FULFILLED);
    assert_eq!(flow.market.offers[0].state, OfferState::DELIVERED);
}

#[test]
fn overflow_leaves_vault_untouched() {
    let price = u64::MAX / 50;
    let mut flow = shipped(100, price);
    let r = flow.market.accept_delivery(buyer(), flow.intent, flow.seller_account, flow.treasury_account);
    assert_eq!(r, Err(BestOfferErrorCode::NumericalOverflow));
    assert_eq!(vault_balance(&flow), price);
    assert_eq!(flow.market.balance(flow.seller_account), Some(0));
    assert_eq!(flow.market.balance(flow.treasury_account), Some(0));
    assert_eq!(flow.market.intents[0].state, BuyingIntentState::SHIPPED);
    assert_eq!(flow.market.offers[0].state, OfferState::ACCEPTED);
}

#[test]
fn second_accept_offer_is_invalid_state() {
    let mut flow = published(100, 500, 2_000);
    flow.market.accept_offer(buyer(), flow.intent, flow.offer, delivery(), flow.buyer_account).unwrap();
    let again = flow.market.accept_offer(buyer(), flow.intent, flow.offer, delivery(), flow.buyer_account);
    assert_eq!(again, Err(BestOfferErrorCode::InvalidState));
    assert_eq!(flow.market.balance(flow.buyer_account), Some(1_500));
    assert_eq!(vault_balance(&flow), 500);
}

#[test]
fn accept_delivery_before_shipment_is_invalid_state() {
    let mut flow = published(100, 500, 500);
    let early = flow.market.accept_delivery(buyer(), flow.intent, flow.seller_account, flow.treasury_account);
    assert_eq!(early, Err(BestOfferErrorCode::InvalidState));
    flow.market.accept_offer(buyer(), flow.intent, flow.offer, delivery(), flow.buyer_account).unwrap();
    let confirmed = flow.market.accept_delivery(buyer(), flow.intent, flow.seller_account, flow.treasury_account);
    assert_eq!(confirmed, Err(BestOfferErrorCode::InvalidState));
    assert_eq!(vault_balance(&flow), 500);
}

#[test]
fn accept_delivery_twice_is_invalid_state() {
    let mut flow = shipped(100, 500);
    flow.market.accept_delivery(buyer(), flow.intent, flow.seller_account, flow.treasury_account).unwrap();
    let again = flow.market.accept_delivery(buyer(), flow.intent, flow.seller_account, flow.treasury_account);
    assert_eq!(again, Err(BestOfferErrorCode::InvalidState));
    assert_eq!(flow.market.balance(flow.seller_account), Some(495));
}

#[test]
fn second_tracking_already_exists() {
    let mut flow = shipped(100, 500);
    let again = flow
        .market
        .create_tracking_details(seller(), flow.intent, "DHL".to_string(), "https://dhl.example".to_string(), "X".to_string());
    assert_eq!(again, Err(BestOfferErrorCode::AlreadyExists));
    let kept = flow.market.trackings.get(flow.intent).unwrap();
    assert_eq!(kept.carrier_name, "UPS");
    assert_eq!(kept.tracking_code, "1Z999");
}

#[test]
fn record_store_is_write_once() {
    let mut store: RecordStore<u64> = RecordStore::new();
    assert_eq!(store.record(4, 40), Ok(()));
    assert_eq!(store.record(5, 50), Ok(()));
    assert_eq!(store.record(4, 41), Err(BestOfferErrorCode::AlreadyExists));
    assert_eq!(store.get(4), Some(&40));
    assert_eq!(store.get(5), Some(&50));
    assert_eq!(store.get(6), None);
    assert!(store.contains(5));
    assert!(!store.contains(6));
}

#[test]
fn delivery_information_is_kept_as_written() {
    let mut flow = published(100, 500, 500);
    flow.market.accept_offer(buyer(), flow.intent, flow.offer, delivery(), flow.buyer_account).unwrap();
    let stored = flow.market.deliveries.get(flow.intent).unwrap();
    assert_eq!(stored.nonce, [7u8; 24]);
    assert_eq!(stored.encrypted_delivery_address_line_1, vec![3u8; 80]);
    assert_eq!(stored.encrypted_delivery_address_line_2, None);
}

#[test]
fn intent_ids_follow_the_counter() {
    let mut market = Marketplace::new();
    market.create_config(admin(), 100).unwrap();
    for expected in 0u64..5 {
        let id = market
            .create_buying_intent(buyer(), 100 + expected, "Item".to_string(), "FR".to_string(), None, 2)
            .unwrap();
        assert_eq!(id, expected);
    }
    assert_eq!(market.config.unwrap().buying_intent_increment, 5);
    let ids: Vec<u64> = market.intents.iter().map(|i| i.id).collect();
    assert_eq!(ids, vec![0, 1, 2, 3, 4]);
}

#[test]
fn offer_ids_follow_the_counter() {
    let mut flow = published(100, 10, 10);
    let mint = flow.market.offers[0].mint;
    let second = flow
        .market
        .create_offer(seller(), flow.intent, "https://other.example".to_string(), 12, 9, 1, mint)
        .unwrap();
    assert_eq!(flow.offer, 0);
    assert_eq!(second, 1);
    assert_eq!(flow.market.config.unwrap().offer_increment, 2);
}

#[test]
fn config_is_created_once_with_a_valid_fee() {
    let mut market = Marketplace::new();
    assert_eq!(market.create_config(admin(), 10_001), Err(BestOfferErrorCode::InvalidFee));
    assert!(market.config.is_none());
    assert_eq!(market.create_config(admin(), 10_000), Ok(()));
    assert_eq!(market.create_config(admin(), 100), Err(BestOfferErrorCode::AlreadyExists));
    assert_eq!(market.config.unwrap().fee, 10_000);
    assert_eq!(market.config.unwrap().buying_intent_increment, 0);
    assert_eq!(market.config.unwrap().offer_increment, 0);
}

#[test]
fn treasury_needs_the_config_admin() {
    let mut market = Marketplace::new();
    assert_eq!(market.create_treasury(admin()), Err(BestOfferErrorCode::NotFound));
    market.create_config(admin(), 100).unwrap();
    assert_eq!(market.create_treasury(buyer()), Err(BestOfferErrorCode::Unauthorized));
    assert_eq!(market.create_treasury(admin()), Ok(()));
    assert_eq!(market.create_treasury(admin()), Err(BestOfferErrorCode::AlreadyExists));
}

#[test]
fn intent_needs_config_and_short_fields() {
    let mut market = Marketplace::new();
    let none = market.create_buying_intent(buyer(), 1, "A".to_string(), "US".to_string(), None, 1);
    assert_eq!(none, Err(BestOfferErrorCode::NotFound));
    market.create_config(admin(), 100).unwrap();
    let long_name = market.create_buying_intent(buyer(), 1, "n".repeat(101), "US".to_string(), None, 1);
    assert_eq!(long_name, Err(BestOfferErrorCode::FieldTooLong));
    let long_country = market.create_buying_intent(buyer(), 1, "A".to_string(), "USA".to_string(), None, 1);
    assert_eq!(long_country, Err(BestOfferErrorCode::FieldTooLong));
    let long_state = market.create_buying_intent(buyer(), 1, "A".to_string(), "US".to_string(), Some("ABCD".to_string()), 1);
    assert_eq!(long_state, Err(BestOfferErrorCode::FieldTooLong));
    let wide_chars = market.create_buying_intent(buyer(), 1, "é".repeat(51), "US".to_string(), None, 1);
    assert_eq!(wide_chars, Err(BestOfferErrorCode::FieldTooLong));
    let at_limit = market.create_buying_intent(buyer(), 1, "n".repeat(100), "US".to_string(), Some("ABC".to_string()), 1);
    assert_eq!(at_limit, Ok(0));
    assert_eq!(market.intents.len(), 1);
}

#[test]
fn offer_needs_an_open_intent_and_known_currency() {
    let mut flow = published(100, 500, 500);
    let mint = flow.market.offers[0].mint;
    let missing = flow.market.create_offer(seller(), 9, "u".to_string(), 1, 1, 1, mint);
    assert_eq!(missing, Err(BestOfferErrorCode::NotFound));
    let unknown_mint = flow.market.create_offer(seller(), flow.intent, "u".to_string(), 1, 1, 1, mint + 1);
    assert_eq!(unknown_mint, Err(BestOfferErrorCode::NotFound));
    let long_url = flow.market.create_offer(seller(), flow.intent, "u".repeat(256), 1, 1, 1, mint);
    assert_eq!(long_url, Err(BestOfferErrorCode::FieldTooLong));
    flow.market.accept_offer(buyer(), flow.intent, flow.offer, delivery(), flow.buyer_account).unwrap();
    let closed = flow.market.create_offer(seller(), flow.intent, "u".to_string(), 1, 1, 1, mint);
    assert_eq!(closed, Err(BestOfferErrorCode::InvalidState));
}

#[test]
fn accept_offer_refusals_change_nothing() {
    let mut flow = published(100, 500, 499);
    let stranger = flow.market.accept_offer(seller(), flow.intent, flow.offer, delivery(), flow.buyer_account);
    assert_eq!(stranger, Err(BestOfferErrorCode::Unauthorized));
    let no_intent = flow.market.accept_offer(buyer(), 7, flow.offer, delivery(), flow.buyer_account);
    assert_eq!(no_intent, Err(BestOfferErrorCode::NotFound));
    let no_offer = flow.market.accept_offer(buyer(), flow.intent, 7, delivery(), flow.buyer_account);
    assert_eq!(no_offer, Err(BestOfferErrorCode::NotFound));
    let mut oversized = delivery();
    oversized.encrypted_delivery_lastname = vec![0u8; 417];
    let too_long = flow.market.accept_offer(buyer(), flow.intent, flow.offer, oversized, flow.buyer_account);
    assert_eq!(too_long, Err(BestOfferErrorCode::FieldTooLong));
    let wrong_account = flow.market.accept_offer(buyer(), flow.intent, flow.offer, delivery(), flow.seller_account);
    assert_eq!(wrong_account, Err(BestOfferErrorCode::Unauthorized));
    let poor = flow.market.accept_offer(buyer(), flow.intent, flow.offer, delivery(), flow.buyer_account);
    assert_eq!(poor, Err(BestOfferErrorCode::InsufficientFunds));
    assert_eq!(flow.market.intents[0].state, BuyingIntentState::PUBLISHED);
    assert_eq!(flow.market.offers[0].state, OfferState::PUBLISHED);
    assert!(!flow.market.deliveries.contains(flow.intent));
    assert!(!flow.market.vaults.contains(flow.intent));
    assert_eq!(flow.market.balance(flow.buyer_account), Some(499));
}

#[test]
fn accept_offer_needs_the_offer_currency() {
    let mut flow = published(100, 500, 500);
    let other_mint = flow.market.create_mint(9).unwrap();
    let other_account = flow.market.open_token_account(buyer(), other_mint).unwrap();
    flow.market.mint_to(other_account, 1_000).unwrap();
    let r = flow.market.accept_offer(buyer(), flow.intent, flow.offer, delivery(), other_account);
    assert_eq!(r, Err(BestOfferErrorCode::MintMismatch));
}

#[test]
fn tracking_only_by_the_accepted_seller_after_confirmation() {
    let mut flow = published(100, 500, 500);
    let early = flow
        .market
        .create_tracking_details(seller(), flow.intent, "UPS".to_string(), "u".to_string(), "c".to_string());
    assert_eq!(early, Err(BestOfferErrorCode::InvalidState));
    flow.market.accept_offer(buyer(), flow.intent, flow.offer, delivery(), flow.buyer_account).unwrap();
    let stranger = flow
        .market
        .create_tracking_details(buyer(), flow.intent, "UPS".to_string(), "u".to_string(), "c".to_string());
    assert_eq!(stranger, Err(BestOfferErrorCode::Unauthorized));
    let long_carrier = flow
        .market
        .create_tracking_details(seller(), flow.intent, "c".repeat(101), "u".to_string(), "c".to_string());
    assert_eq!(long_carrier, Err(BestOfferErrorCode::FieldTooLong));
    assert_eq!(flow.market.intents[0].state, BuyingIntentState::CONFIRMED);
    assert!(!flow.market.trackings.contains(flow.intent));
}

#[test]
fn accept_delivery_guards_caller_and_accounts() {
    let mut flow = shipped(100, 500);
    let stranger = flow.market.accept_delivery(seller(), flow.intent, flow.seller_account, flow.treasury_account);
    assert_eq!(stranger, Err(BestOfferErrorCode::Unauthorized));
    let swapped = flow.market.accept_delivery(buyer(), flow.intent, flow.treasury_account, flow.seller_account);
    assert_eq!(swapped, Err(BestOfferErrorCode::Unauthorized));
    let missing = flow.market.accept_delivery(buyer(), flow.intent, 99, flow.treasury_account);
    assert_eq!(missing, Err(BestOfferErrorCode::NotFound));
    assert_eq!(vault_balance(&flow), 500);
    assert_eq!(flow.market.intents[0].state, BuyingIntentState::SHIPPED);
}

#[test]
fn accept_delivery_refuses_a_credit_that_overflows() {
    let mut flow = shipped(100, 1_000);
    flow.market.mint_to(flow.seller_account, u64::MAX - 100).unwrap();
    let r = flow.market.accept_delivery(buyer(), flow.intent, flow.seller_account, flow.treasury_account);
    assert_eq!(r, Err(BestOfferErrorCode::NumericalOverflow));
    assert_eq!(vault_balance(&flow), 1_000);
    assert_eq!(flow.market.balance(flow.treasury_account), Some(0));
}

#[test]
fn ledger_transfer_guards() {
    let mut market = Marketplace::new();
    let mint = market.create_mint(6).unwrap();
    let a = market.open_token_account(buyer(), mint).unwrap();
    let b = market.open_token_account(seller(), mint).unwrap();
    market.mint_to(a, 100).unwrap();
    let ledger = &mut market.ledger;
    assert_eq!(ledger.transfer_checked(a, b, 10, 9, Authority::Wallet(buyer())), Err(BestOfferErrorCode::DecimalsMismatch));
    assert_eq!(ledger.transfer_checked(a, b, 10, 6, Authority::Wallet(seller())), Err(BestOfferErrorCode::Unauthorized));
    assert_eq!(ledger.transfer_checked(a, b, 101, 6, Authority::Wallet(buyer())), Err(BestOfferErrorCode::InsufficientFunds));
    assert_eq!(ledger.transfer_checked(a, 5, 1, 6, Authority::Wallet(buyer())), Err(BestOfferErrorCode::NotFound));
    assert_eq!(ledger.transfer_checked(a, b, 30, 6, Authority::Wallet(buyer())), Ok(()));
    assert_eq!(ledger.balance(a), Some(70));
    assert_eq!(ledger.balance(b), Some(30));
    assert_eq!(market.mint_to(b, u64::MAX), Err(BestOfferErrorCode::NumericalOverflow));
    assert_eq!(market.mint_to(9, 1), Err(BestOfferErrorCode::NotFound));
    assert_eq!(market.open_token_account(buyer(), 4), Err(BestOfferErrorCode::NotFound));
}

#[test]
fn addresses_compare_by_bytes() {
    let mut bytes = [1u8; 32];
    assert!(Address::new(bytes).same(&admin()));
    bytes[31] = 0;
    assert!(!Address::new(bytes).same(&admin()));
    assert!(Authority::Intent(3) == Authority::Intent(3));
    assert!(Authority::Intent(3) != Authority::Intent(4));
    assert!(Authority::Treasury != Authority::Wallet(admin()));
}
