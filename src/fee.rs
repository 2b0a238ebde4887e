use vstd::prelude::*;
use crate::error::BestOfferErrorCode;

verus! {

/// Basis points in one whole: a fee rate is a number of ten-thousandths.
pub const BPS_DENOMINATOR: u64 = 10_000;

/// The largest fee rate, 100%.
pub const MAX_FEE_BPS: u16 = 10_000;

/// The platform's share of a vault balance: `floor(balance * fee_bps / 10000)`.
pub open spec fn fee_of(balance: int, fee_bps: int) -> int {
    (balance * fee_bps) / 10_000
}

/// Whether the payout of `balance` at `fee_bps` stays within `u64` arithmetic:
/// the product fits and the fee does not exceed the balance.
pub open spec fn payout_fits(balance: int, fee_bps: int) -> bool {
    &&& balance * fee_bps <= u64::MAX
    &&& fee_of(balance, fee_bps) <= balance
}

/// How a vault balance is split when it is paid out.
#[derive(Clone, Copy, Debug, PartialEq, Eq, Structural)]
pub struct Payout {
    /// Goes to the treasury.
    pub fee: u64,
    /// Goes to the seller.
    pub seller_amount: u64,
}

/// A fee rate within `[0, 10000]` never takes more than the whole balance.
pub proof fn lemma_fee_within_balance(balance: int, fee_bps: int)
    requires
        0 <= balance,
        0 <= fee_bps <= 10_000,
    ensures
        0 <= fee_of(balance, fee_bps) <= balance,
{
    assert(0 <= balance * fee_bps <= balance * 10_000) by (nonlinear_arith)
        requires
            0 <= balance,
            0 <= fee_bps <= 10_000,
    ;
    assert((balance * fee_bps) / 10_000 <= (balance * 10_000) / 10_000) by (nonlinear_arith)
        requires
            0 <= balance * fee_bps <= balance * 10_000,
    ;
    assert((balance * 10_000) / 10_000 == balance) by (nonlinear_arith);
}

/// Splits `balance` into the platform fee and the seller's amount with
/// checked arithmetic.
///
/// Fails with `NumericalOverflow` exactly when `balance * fee_bps` leaves the
/// `u64` range or the fee would exceed the balance; for a rate within
/// `[0, 10000]` only the first can happen.
pub fn compute_payout(balance: u64, fee_bps: u16) -> (r: Result<Payout, BestOfferErrorCode>)
    ensures
        r is Ok <==> payout_fits(balance as int, fee_bps as int),
        r is Ok ==> r->Ok_0.fee == fee_of(balance as int, fee_bps as int),
        r is Ok ==> r->Ok_0.seller_amount == balance - fee_of(balance as int, fee_bps as int),
        r is Ok ==> r->Ok_0.fee + r->Ok_0.seller_amount == balance,
        r is Err ==> r->Err_0 == BestOfferErrorCode::NumericalOverflow,
        fee_bps <= MAX_FEE_BPS ==> (r is Ok <==> balance * fee_bps <= u64::MAX),
{
    proof {
        if fee_bps <= MAX_FEE_BPS {
            lemma_fee_within_balance(balance as int, fee_bps as int);
        }
    }
    let product = match balance.checked_mul(fee_bps as u64) {
        Some(p) => p,
        None => return Err(BestOfferErrorCode::NumericalOverflow),
    };
    let fee = product / BPS_DENOMINATOR;
    let seller_amount = match balance.checked_sub(fee) {
        Some(s) => s,
        None => return Err(BestOfferErrorCode::NumericalOverflow),
    };
    Ok(Payout { fee, seller_amount })
}

} // verus!
