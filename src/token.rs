use vstd::prelude::*;
use crate::address::Authority;
use crate::error::BestOfferErrorCode;

verus! {

/// A custodial balance of one currency.
#[derive(Clone, Copy, Debug)]
pub struct TokenAccount {
    pub owner: Authority,
    /// Index of the currency in the ledger's `mint_decimals`.
    pub mint: u64,
    pub amount: u64,
}

/// Balances of fungible currencies, each account addressed by its index.
pub struct TokenLedger {
    /// For each currency, by index, its declared number of decimals.
    pub mint_decimals: Vec<u8>,
    pub accounts: Vec<TokenAccount>,
}

/// The ledger's accounts with `amount` moved from `from` to `to`.
pub open spec fn moved(
    accounts: Seq<TokenAccount>,
    from: int,
    to: int,
    amount: int,
) -> Seq<TokenAccount> {
    if from == to {
        accounts
    } else {
        let debited = accounts.update(
            from,
            TokenAccount { amount: (accounts[from].amount - amount) as u64, ..accounts[from] },
        );
        debited.update(
            to,
            TokenAccount { amount: (accounts[to].amount + amount) as u64, ..accounts[to] },
        )
    }
}

/// Moving an amount changes balances only: every account keeps its owner
/// and currency.
pub proof fn lemma_moved_keeps_accounts(accounts: Seq<TokenAccount>, from: int, to: int, amount: int)
    requires
        0 <= from < accounts.len(),
        0 <= to < accounts.len(),
    ensures
        moved(accounts, from, to, amount).len() == accounts.len(),
        forall|k: int|
            0 <= k < accounts.len() ==> (#[trigger] moved(accounts, from, to, amount)[k]).owner
                == accounts[k].owner && moved(accounts, from, to, amount)[k].mint
                == accounts[k].mint,
{
}

/// The position of record `id` in a table of `len` records, if it is there.
pub fn slot(id: u64, len: usize) -> (r: Option<usize>)
    ensures
        r is Some <==> id < len,
        r is Some ==> r->Some_0 == id,
{
    if id < len as u64 {
        Some(id as usize)
    } else {
        None
    }
}

impl TokenLedger {
    /// Every account holds a currency that the ledger knows.
    pub open spec fn wf(&self) -> bool {
        forall|i: int|
            0 <= i < self.accounts@.len() ==> (#[trigger] self.accounts@[i]).mint
                < self.mint_decimals@.len()
    }

    pub open spec fn has_account(&self, id: u64) -> bool {
        id < self.accounts@.len()
    }

    pub open spec fn account(&self, id: u64) -> TokenAccount {
        self.accounts@[id as int]
    }

    /// The error of the first guard that a transfer fails, if any.
    pub open spec fn transfer_error(
        &self,
        from: u64,
        to: u64,
        amount: u64,
        decimals: u8,
        signer: Authority,
    ) -> Option<BestOfferErrorCode> {
        if !self.has_account(from) || !self.has_account(to) {
            Some(BestOfferErrorCode::NotFound)
        } else if self.account(from).mint != self.account(to).mint {
            Some(BestOfferErrorCode::MintMismatch)
        } else if decimals != self.mint_decimals@[self.account(from).mint as int] {
            Some(BestOfferErrorCode::DecimalsMismatch)
        } else if signer != self.account(from).owner {
            Some(BestOfferErrorCode::Unauthorized)
        } else if self.account(from).amount < amount {
            Some(BestOfferErrorCode::InsufficientFunds)
        } else if from != to && self.account(to).amount + amount > u64::MAX {
            Some(BestOfferErrorCode::NumericalOverflow)
        } else {
            None
        }
    }

    pub fn new() -> (r: TokenLedger)
        ensures
            r.wf(),
            r.mint_decimals@.len() == 0,
            r.accounts@.len() == 0,
    {
        TokenLedger { mint_decimals: Vec::new(), accounts: Vec::new() }
    }

    /// Declares a new currency; returns its index.
    pub fn create_mint(&mut self, decimals: u8) -> (r: Result<u64, BestOfferErrorCode>)
        requires
            old(self).wf(),
        ensures
            final(self).wf(),
            final(self).accounts == old(self).accounts,
            r is Ok <==> old(self).mint_decimals@.len() < u64::MAX,
            r is Ok ==> r->Ok_0 == old(self).mint_decimals@.len() && final(self).mint_decimals@
                == old(self).mint_decimals@.push(decimals),
            r is Err ==> r->Err_0 == BestOfferErrorCode::NumericalOverflow && *final(self)
                == *old(self),
    {
        let id = self.mint_decimals.len();
        if id as u64 == u64::MAX {
            return Err(BestOfferErrorCode::NumericalOverflow);
        }
        self.mint_decimals.push(decimals);
        Ok(id as u64)
    }

    /// Opens an empty account of currency `mint` for `owner`; returns its index.
    pub fn open_account(&mut self, owner: Authority, mint: u64) -> (r: Result<
        u64,
        BestOfferErrorCode,
    >)
        requires
            old(self).wf(),
        ensures
            final(self).wf(),
            final(self).mint_decimals == old(self).mint_decimals,
            r is Ok <==> mint < old(self).mint_decimals@.len() && old(self).accounts@.len()
                < u64::MAX,
            r is Ok ==> r->Ok_0 == old(self).accounts@.len() && final(self).accounts@
                == old(self).accounts@.push(TokenAccount { owner, mint, amount: 0 }),
            r is Err ==> *final(self) == *old(self),
            r is Err ==> r->Err_0 == (if mint >= old(self).mint_decimals@.len() {
                BestOfferErrorCode::NotFound
            } else {
                BestOfferErrorCode::NumericalOverflow
            }),
    {
        if slot(mint, self.mint_decimals.len()).is_none() {
            return Err(BestOfferErrorCode::NotFound);
        }
        let id = self.accounts.len();
        if id as u64 == u64::MAX {
            return Err(BestOfferErrorCode::NumericalOverflow);
        }
        self.accounts.push(TokenAccount { owner, mint, amount: 0 });
        proof {
            assert forall|i: int| 0 <= i < self.accounts@.len() implies (
            #[trigger] self.accounts@[i]).mint < self.mint_decimals@.len() by {
                if i < id {
                    assert(self.accounts@[i] == old(self).accounts@[i]);
                }
            }
        }
        Ok(id as u64)
    }

    /// Credits newly issued tokens to an account.
    pub fn mint_to(&mut self, account: u64, amount: u64) -> (r: Result<(), BestOfferErrorCode>)
        requires
            old(self).wf(),
        ensures
            final(self).wf(),
            final(self).mint_decimals == old(self).mint_decimals,
            r is Ok <==> old(self).has_account(account) && old(self).account(account).amount
                + amount <= u64::MAX,
            r is Ok ==> final(self).accounts@ == old(self).accounts@.update(
                account as int,
                TokenAccount {
                    amount: (old(self).account(account).amount + amount) as u64,
                    ..old(self).account(account)
                },
            ),
            r is Err ==> *final(self) == *old(self),
            r is Err ==> r->Err_0 == (if !old(self).has_account(account) {
                BestOfferErrorCode::NotFound
            } else {
                BestOfferErrorCode::NumericalOverflow
            }),
    {
        let i = match slot(account, self.accounts.len()) {
            Some(i) => i,
            None => return Err(BestOfferErrorCode::NotFound),
        };
        let current = self.accounts[i].amount;
        match current.checked_add(amount) {
            Some(total) => {
                self.accounts[i].amount = total;
                Ok(())
            },
            None => Err(BestOfferErrorCode::NumericalOverflow),
        }
    }

    /// The balance of an account, if it exists.
    pub fn balance(&self, account: u64) -> (r: Option<u64>)
        ensures
            r is Some <==> self.has_account(account),
            r is Some ==> r->Some_0 == self.account(account).amount,
    {
        match slot(account, self.accounts.len()) {
            Some(i) => Some(self.accounts[i].amount),
            None => None,
        }
    }

    /// Moves `amount` from `from` to `to`, on the authority of `signer`, naming
    /// the currency's decimal count as a guard against a misread amount.
    ///
    /// Either every guard holds and the amount moves, or nothing changes.
    pub fn transfer_checked(
        &mut self,
        from: u64,
        to: u64,
        amount: u64,
        decimals: u8,
        signer: Authority,
    ) -> (r: Result<(), BestOfferErrorCode>)
        requires
            old(self).wf(),
        ensures
            final(self).wf(),
            final(self).mint_decimals == old(self).mint_decimals,
            match r {
                Ok(()) => {
                    &&& old(self).transfer_error(from, to, amount, decimals, signer) is None
                    &&& final(self).accounts@ == moved(
                        old(self).accounts@,
                        from as int,
                        to as int,
                        amount as int,
                    )
                },
                Err(e) => {
                    &&& old(self).transfer_error(from, to, amount, decimals, signer) == Some(e)
                    &&& *final(self) == *old(self)
                },
            },
    {
        let n = self.accounts.len();
        let (f, t) = match (slot(from, n), slot(to, n)) {
            (Some(f), Some(t)) => (f, t),
            _ => return Err(BestOfferErrorCode::NotFound),
        };
        let source = self.accounts[f];
        let target = self.accounts[t];
        if source.mint != target.mint {
            return Err(BestOfferErrorCode::MintMismatch);
        }
        assert(self.accounts@[f as int].mint < self.mint_decimals@.len());
        let m = match slot(source.mint, self.mint_decimals.len()) {
            Some(m) => m,
            None => return Err(BestOfferErrorCode::NotFound),
        };
        if decimals != self.mint_decimals[m] {
            return Err(BestOfferErrorCode::DecimalsMismatch);
        }
        if !signer.same(&source.owner) {
            return Err(BestOfferErrorCode::Unauthorized);
        }
        if source.amount < amount {
            return Err(BestOfferErrorCode::InsufficientFunds);
        }
        if f == t {
            return Ok(());
        }
        let credited = match target.amount.checked_add(amount) {
            Some(c) => c,
            None => return Err(BestOfferErrorCode::NumericalOverflow),
        };
        self.accounts[f].amount = source.amount - amount;
        self.accounts[t].amount = credited;
        Ok(())
    }
}

} // verus!
