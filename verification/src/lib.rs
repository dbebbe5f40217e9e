//! A minimal deterministic state-transition engine for a token ledger.
//!
//! The engine applies transactions (mint or transfer of fungible token
//! balances) to an in-memory account/balance table, enforcing validity
//! rules before any mutation.  Every public operation is specified as a
//! transition on the abstract [`model::Ledger`] and verified against it.

use vstd::prelude::*;

pub mod codec;
pub mod model;
pub mod types;

verus! {

use vstd::slice::slice_index_get;
use crate::codec::decode_mint_params;
use crate::codec::decode_transaction_content;
use crate::codec::decode_transfer_params;
use crate::codec::enc_content;
use crate::codec::encode_transaction_content;
use crate::model::Ledger;
use crate::model::transaction_views;
use crate::types::SPVMError;
use crate::types::SPVMTransaction;
use crate::types::TransactionContent;
use crate::types::TxType;

/// The ledger state: initialized tickers, balances, and account nonces.
///
/// Each table is an append-only association list; the most recent entry
/// for a key is authoritative.  The abstraction to [`Ledger`] is the view.
pub struct SPVM {
    initialized_tickers: Vec<String>,
    state: Vec<(String, String, u16)>,
    nonces: Vec<(String, u32)>,
}

spec fn tickers_set(s: Seq<String>) -> Set<Seq<char>>
    decreases s.len(),
{
    if s.len() == 0 {
        Set::empty()
    } else {
        tickers_set(s.drop_last()).insert(s.last()@)
    }
}

spec fn balances_map(s: Seq<(String, String, u16)>) -> Map<(Seq<char>, Seq<char>), u16>
    decreases s.len(),
{
    if s.len() == 0 {
        Map::empty()
    } else {
        balances_map(s.drop_last()).insert((s.last().0@, s.last().1@), s.last().2)
    }
}

spec fn nonces_map(s: Seq<(String, u32)>) -> Map<Seq<char>, u32>
    decreases s.len(),
{
    if s.len() == 0 {
        Map::empty()
    } else {
        nonces_map(s.drop_last()).insert(s.last().0@, s.last().1)
    }
}

impl View for SPVM {
    type V = Ledger;

    closed spec fn view(&self) -> Ledger {
        Ledger {
            initialized: tickers_set(self.initialized_tickers@),
            balances: balances_map(self.state@),
            nonces: nonces_map(self.nonces@),
        }
    }
}

impl SPVM {
    /// Creates an engine over the empty ledger.
    pub fn new() -> (r: SPVM)
        ensures
            r@ == Ledger::empty(),
    {
        SPVM { initialized_tickers: Vec::new(), state: Vec::new(), nonces: Vec::new() }
    }

    /// Upserts the balance of `holder_address` for `token_ticker` and marks
    /// the ticker as initialized.
    pub fn set_balance(&mut self, token_ticker: &str, holder_address: &str, balance: u16)
        ensures
            final(self)@ == old(self)@.with_balance(token_ticker@, holder_address@, balance),
    {
        self.initialized_tickers.push(token_ticker.to_owned());
        self.state.push((token_ticker.to_owned(), holder_address.to_owned(), balance));
        proof {
            assert(self.initialized_tickers@.drop_last() =~= old(self).initialized_tickers@);
            assert(self.state@.drop_last() =~= old(self).state@);
        }
    }

    /// Returns the balance of `holder_address` for `token_ticker`, zero when
    /// the ticker or the holder is unknown.
    pub fn get_balance(&self, token_ticker: &str, holder_address: &str) -> (r: u16)
        ensures
            r == self@.balance(token_ticker@, holder_address@),
    {
        let ticker_key = token_ticker.to_owned();
        let holder_key = holder_address.to_owned();
        let ghost k = (token_ticker@, holder_address@);
        let mut r: u16 = 0;
        let mut i: usize = 0;
        while i < self.state.len()
            invariant
                i <= self.state@.len(),
                ticker_key@ == token_ticker@,
                holder_key@ == holder_address@,
                k == (token_ticker@, holder_address@),
                r == {
                    let m = balances_map(self.state@.take(i as int));
                    if m.contains_key(k) {
                        m[k]
                    } else {
                        0u16
                    }
                },
            decreases self.state@.len() - i,
        {
            let entry = &self.state[i];
            let ghost e = self.state@[i as int];
            if entry.0 == ticker_key && entry.1 == holder_key {
                r = entry.2;
            }
            proof {
                assert(self.state@.take(i as int + 1).drop_last() =~= self.state@.take(i as int));
                assert(self.state@.take(i as int + 1).last() == e);
            }
            i = i + 1;
        }
        proof {
            assert(self.state@.take(self.state@.len() as int) =~= self.state@);
        }
        r
    }

    /// Reports whether `token_ticker` has been initialized by some mint or
    /// balance upsert.
    pub fn is_initialized(&self, token_ticker: &str) -> (r: bool)
        ensures
            r == self@.is_initialized(token_ticker@),
    {
        let ticker_key = token_ticker.to_owned();
        let mut r: bool = false;
        let mut i: usize = 0;
        while i < self.initialized_tickers.len()
            invariant
                i <= self.initialized_tickers@.len(),
                ticker_key@ == token_ticker@,
                r == tickers_set(self.initialized_tickers@.take(i as int)).contains(token_ticker@),
            decreases self.initialized_tickers@.len() - i,
        {
            if self.initialized_tickers[i] == ticker_key {
                r = true;
            }
            proof {
                assert(self.initialized_tickers@.take(i + 1 as int).drop_last() =~= self
                    .initialized_tickers@
                    .take(i as int));
                assert(self.initialized_tickers@.take(i + 1 as int).last() == self
                    .initialized_tickers@[i as int]);
            }
            i = i + 1;
        }
        proof {
            assert(self.initialized_tickers@.take(self.initialized_tickers@.len() as int) =~= self
                .initialized_tickers@);
        }
        r
    }

    /// Increments (wrapping) the nonce counter of `account`, which starts
    /// at zero for unseen accounts.
    pub fn increment_nonce(&mut self, account: &str)
        ensures
            final(self)@ == old(self)@.with_bumped_nonce(account@),
    {
        let account_key = account.to_owned();
        let mut current: u32 = 0;
        let mut i: usize = 0;
        while i < self.nonces.len()
            invariant
                i <= self.nonces@.len(),
                account_key@ == account@,
                current == {
                    let m = nonces_map(self.nonces@.take(i as int));
                    if m.contains_key(account@) {
                        m[account@]
                    } else {
                        0u32
                    }
                },
            decreases self.nonces@.len() - i,
        {
            let entry = &self.nonces[i];
            if entry.0 == account_key {
                current = entry.1;
            }
            proof {
                assert(self.nonces@.take(i + 1 as int).drop_last() =~= self.nonces@.take(i as int));
                assert(self.nonces@.take(i + 1 as int).last() == self.nonces@[i as int]);
            }
            i = i + 1;
        }
        proof {
            assert(self.nonces@.take(self.nonces@.len() as int) =~= self.nonces@);
        }
        self.nonces.push((account_key, current.wrapping_add(1)));
        proof {
            assert(self.nonces@.drop_last() =~= old(self).nonces@);
        }
    }

    /// Decides admissibility of a decoded transaction content against the
    /// current state, without mutating it.
    pub fn check_validity(&self, tx_content: &TransactionContent) -> (r: Result<bool, SPVMError>)
        ensures
            r == self@.check_validity(tx_content@),
    {
        match tx_content.tx_type {
            TxType::Mint => match decode_mint_params(tx_content.tx_param.as_slice()) {
                Ok(m) => Ok(!self.is_initialized(m.token_ticker.as_str())),
                Err(e) => Err(e),
            },
            TxType::Transfer => match decode_transfer_params(tx_content.tx_param.as_slice()) {
                Ok(p) => Ok(
                    self.is_initialized(p.token_ticker.as_str()) && self.get_balance(
                        p.token_ticker.as_str(),
                        tx_content.from.as_str(),
                    ) >= p.amount,
                ),
                Err(e) => Err(e),
            },
        }
    }

    /// Decodes and executes one transaction from its raw bytes: an invalid
    /// or undecodable transaction fails and leaves the state untouched; a
    /// valid one commits its mutation and bumps the sender's nonce.
    pub fn execute_raw_transaction(&mut self, raw_tx: &[u8]) -> (r: Result<(), SPVMError>)
        ensures
            match old(self)@.execute_raw(raw_tx@) {
                Ok(l2) => r == Ok::<(), SPVMError>(()) && final(self)@ == l2,
                Err(e) => r == Err::<(), SPVMError>(e) && final(self)@ == old(self)@,
            },
    {
        let tx_content = match decode_transaction_content(raw_tx) {
            Ok(c) => c,
            Err(e) => {
                return Err(e);
            },
        };
        let valid = match self.check_validity(&tx_content) {
            Ok(v) => v,
            Err(e) => {
                return Err(e);
            },
        };
        if !valid {
            return Err(SPVMError::InvalidTransaction);
        }
        match tx_content.tx_type {
            TxType::Mint => {
                let m = match decode_mint_params(tx_content.tx_param.as_slice()) {
                    Ok(m) => m,
                    Err(e) => {
                        return Err(e);
                    },
                };
                self.set_balance(m.token_ticker.as_str(), m.owner.as_str(), m.supply);
            },
            TxType::Transfer => {
                let p = match decode_transfer_params(tx_content.tx_param.as_slice()) {
                    Ok(p) => p,
                    Err(e) => {
                        return Err(e);
                    },
                };
                let from_balance = self.get_balance(
                    p.token_ticker.as_str(),
                    tx_content.from.as_str(),
                );
                self.set_balance(
                    p.token_ticker.as_str(),
                    tx_content.from.as_str(),
                    from_balance - p.amount,
                );
                let to_balance = self.get_balance(p.token_ticker.as_str(), p.to.as_str());
                self.set_balance(
                    p.token_ticker.as_str(),
                    p.to.as_str(),
                    to_balance.wrapping_add(p.amount),
                );
            },
        }
        self.increment_nonce(tx_content.from.as_str());
        Ok(())
    }

    /// Executes a transaction envelope: rejects it when the claimed content
    /// hash differs from the recomputed one, otherwise executes the
    /// re-encoded content.  The carried signature is not verified here.
    pub fn execute_tx(&mut self, transaction: &SPVMTransaction) -> (r: Result<(), SPVMError>)
        ensures
            match old(self)@.execute_tx(transaction@) {
                Ok(l2) => r == Ok::<(), SPVMError>(()) && final(self)@ == l2,
                Err(e) => r == Err::<(), SPVMError>(e) && final(self)@ == old(self)@,
            },
    {
        let tx_hash = match self.hash_transaction_content(&transaction.tx_content) {
            Ok(h) => h,
            Err(e) => {
                return Err(e);
            },
        };
        if !bytes_eq(tx_hash.as_slice(), transaction.transaction_hash.as_slice()) {
            return Err(SPVMError::TransactionHashMismatch);
        }
        self.execute_raw_transaction(tx_hash.as_slice())
    }

    /// Computes the content hash of a transaction content: its canonical
    /// byte encoding, so content-hash equality is encoding equality.
    pub fn hash_transaction_content(&self, tx_content: &TransactionContent) -> (r: Result<
        Vec<u8>,
        SPVMError,
    >)
        ensures
            r matches Ok(h) && h@ == enc_content(tx_content@),
    {
        Ok(encode_transaction_content(tx_content))
    }

    /// Executes a batch of envelopes in order; the first failure aborts the
    /// batch and is returned, while earlier transactions stay committed.
    pub fn execute_block_transactions(&mut self, transactions: &[SPVMTransaction]) -> (r: Result<
        (),
        SPVMError,
    >)
        ensures
            ({
                let (res, l2) = old(self)@.execute_batch(transaction_views(transactions@));
                r == res && final(self)@ == l2
            }),
    {
        let ghost views = transaction_views(transactions@);
        proof {
            assert(views.skip(0) =~= views);
        }
        let mut i: usize = 0;
        while i < transactions.len()
            invariant
                i <= transactions@.len(),
                views == transaction_views(transactions@),
                old(self)@.execute_batch(views) == self@.execute_batch(views.skip(i as int)),
            decreases transactions@.len() - i,
        {
            let transaction = slice_index_get(transactions, i);
            let ghost pre = self@;
            let step = self.execute_tx(transaction);
            proof {
                assert(views.skip(i as int)[0] == transaction@);
                assert(views.skip(i as int).skip(1) =~= views.skip(i as int + 1));
            }
            match step {
                Ok(()) => {},
                Err(e) => {
                    return Err(e);
                },
            }
            i = i + 1;
        }
        proof {
            assert(views.skip(transactions@.len() as int) =~= Seq::<
                crate::types::TransactionView,
            >::empty());
        }
        Ok(())
    }
}

/// Byte-for-byte equality of two slices.
fn bytes_eq(a: &[u8], b: &[u8]) -> (r: bool)
    ensures
        r == (a@ == b@),
{
    if a.len() != b.len() {
        return false;
    }
    let mut i: usize = 0;
    while i < a.len()
        invariant
            i <= a@.len(),
            a@.len() == b@.len(),
            forall|j: int| 0 <= j < i ==> a@[j] == b@[j],
        decreases a@.len() - i,
    {
        if *slice_index_get(a, i) != *slice_index_get(b, i) {
            return false;
        }
        i = i + 1;
    }
    proof {
        assert(a@ =~= b@);
    }
    true
}

} // verus!

