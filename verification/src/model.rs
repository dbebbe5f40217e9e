//! The abstract ledger model.
//!
//! A [`Ledger`] is the mathematical value of an engine state: the set of
//! initialized tickers, a partial map from (ticker, holder) to balance
//! (absence means a balance of zero), and a partial map from account to
//! nonce (absence means zero).  The executable state machine in the crate
//! root is specified as transitions on this model.

use vstd::prelude::*;

verus! {

use vstd::set::fold::is_fun_commutative;
use vstd::set::fold::lemma_finite_set_induct;
use vstd::set::fold::lemma_fold_empty;
use vstd::set::fold::lemma_fold_insert;
use crate::codec::content_fits;
use crate::codec::dec_content;
use crate::codec::lemma_content_round_trip;
use crate::codec::lemma_enc_content_injective;
use crate::codec::dec_mint_params;
use crate::codec::dec_transfer_params;
use crate::codec::enc_content;
use crate::types::MintParamsView;
use crate::types::SPVMError;
use crate::types::SPVMTransaction;
use crate::types::TransactionContentView;
use crate::types::TransactionView;
use crate::types::TransferParamsView;
use crate::types::TxType;

/// Mathematical value of an engine state.
#[verifier::ext_equal]
pub ghost struct Ledger {
    pub initialized: Set<Seq<char>>,
    pub balances: Map<(Seq<char>, Seq<char>), u16>,
    pub nonces: Map<Seq<char>, u32>,
}

impl Ledger {
    /// The state the engine starts in: nothing initialized, every balance
    /// and nonce zero.
    pub open spec fn empty() -> Ledger {
        Ledger { initialized: Set::empty(), balances: Map::empty(), nonces: Map::empty() }
    }

    pub open spec fn is_initialized(self, ticker: Seq<char>) -> bool {
        self.initialized.contains(ticker)
    }

    /// Balance of `holder` for `ticker`; zero when the pair is unknown.
    pub open spec fn balance(self, ticker: Seq<char>, holder: Seq<char>) -> u16 {
        if self.balances.contains_key((ticker, holder)) {
            self.balances[(ticker, holder)]
        } else {
            0
        }
    }

    /// Nonce of `account`; zero when the account is unknown.
    pub open spec fn nonce(self, account: Seq<char>) -> u32 {
        if self.nonces.contains_key(account) {
            self.nonces[account]
        } else {
            0
        }
    }

    /// Upsert of one balance; also marks the ticker as initialized.
    pub open spec fn with_balance(self, ticker: Seq<char>, holder: Seq<char>, b: u16) -> Ledger {
        Ledger {
            initialized: self.initialized.insert(ticker),
            balances: self.balances.insert((ticker, holder), b),
            nonces: self.nonces,
        }
    }

    /// Increment (wrapping) of one account's nonce.
    pub open spec fn with_bumped_nonce(self, account: Seq<char>) -> Ledger {
        Ledger {
            initialized: self.initialized,
            balances: self.balances,
            nonces: self.nonces.insert(account, self.nonce(account).wrapping_add(1)),
        }
    }

    /// Well-formedness: finitely many recorded balances, and a balance is
    /// only ever recorded under an initialized ticker.
    pub open spec fn wf(self) -> bool {
        &&& self.balances.dom().finite()
        &&& forall|k: (Seq<char>, Seq<char>)|
            #[trigger] self.balances.dom().contains(k) ==> self.initialized.contains(k.0)
    }
}

impl Ledger {
    /// Admissibility of a decoded transaction content against this state:
    /// a mint is valid exactly when its ticker is not initialized yet, a
    /// transfer exactly when its ticker is initialized and the sender's
    /// balance covers the amount.  A parameter payload that does not decode
    /// is a decoding failure, not an invalid transaction.
    pub open spec fn check_validity(self, c: TransactionContentView) -> Result<bool, SPVMError> {
        match c.tx_type {
            TxType::Mint => match dec_mint_params(c.tx_param) {
                Some(m) => Ok(!self.is_initialized(m.token_ticker)),
                None => Err(SPVMError::SerializationError),
            },
            TxType::Transfer => match dec_transfer_params(c.tx_param) {
                Some(p) => Ok(
                    self.is_initialized(p.token_ticker) && self.balance(p.token_ticker, c.from)
                        >= p.amount,
                ),
                None => Err(SPVMError::SerializationError),
            },
        }
    }

    /// Effect of a valid mint: the owner's balance for the new ticker is
    /// set to the supply, and the sender's nonce is bumped.
    pub open spec fn apply_mint(self, from: Seq<char>, m: MintParamsView) -> Ledger {
        self.with_balance(m.token_ticker, m.owner, m.supply).with_bumped_nonce(from)
    }

    /// Effect of a valid transfer: the sender is debited, then the
    /// recipient (possibly the sender) is credited, then the sender's
    /// nonce is bumped.
    pub open spec fn apply_transfer(self, from: Seq<char>, p: TransferParamsView) -> Ledger {
        let debited = self.with_balance(
            p.token_ticker,
            from,
            (self.balance(p.token_ticker, from) - p.amount) as u16,
        );
        let credited = debited.with_balance(
            p.token_ticker,
            p.to,
            debited.balance(p.token_ticker, p.to).wrapping_add(p.amount),
        );
        credited.with_bumped_nonce(from)
    }

    /// Outcome of one decoded transaction content on this state.
    pub open spec fn execute(self, c: TransactionContentView) -> Result<Ledger, SPVMError> {
        match c.tx_type {
            TxType::Mint => match dec_mint_params(c.tx_param) {
                None => Err(SPVMError::SerializationError),
                Some(m) => if !self.is_initialized(m.token_ticker) {
                    Ok(self.apply_mint(c.from, m))
                } else {
                    Err(SPVMError::InvalidTransaction)
                },
            },
            TxType::Transfer => match dec_transfer_params(c.tx_param) {
                None => Err(SPVMError::SerializationError),
                Some(p) => if self.is_initialized(p.token_ticker) && self.balance(
                    p.token_ticker,
                    c.from,
                ) >= p.amount {
                    Ok(self.apply_transfer(c.from, p))
                } else {
                    Err(SPVMError::InvalidTransaction)
                },
            },
        }
    }

    /// Outcome of raw transaction bytes on this state: decode, then execute.
    pub open spec fn execute_raw(self, bytes: Seq<u8>) -> Result<Ledger, SPVMError> {
        match dec_content(bytes) {
            None => Err(SPVMError::SerializationError),
            Some(c) => self.execute(c),
        }
    }

    /// Outcome of a transaction envelope on this state: the claimed content
    /// hash must equal the canonical encoding of the content, which is then
    /// executed through its encoded bytes.
    pub open spec fn execute_tx(self, tx: TransactionView) -> Result<Ledger, SPVMError> {
        if tx.transaction_hash != enc_content(tx.tx_content) {
            Err(SPVMError::TransactionHashMismatch)
        } else {
            self.execute_raw(enc_content(tx.tx_content))
        }
    }

    /// Outcome of a batch: envelopes apply in order, the first failure
    /// stops the batch, and what succeeded before it stays committed.
    pub open spec fn execute_batch(self, txs: Seq<TransactionView>) -> (Result<
        (),
        SPVMError,
    >, Ledger)
        decreases txs.len(),
    {
        if txs.len() == 0 {
            (Ok(()), self)
        } else {
            match self.execute_tx(txs[0]) {
                Err(e) => (Err(e), self),
                Ok(l2) => l2.execute_batch(txs.skip(1)),
            }
        }
    }
}

/// The views of a sequence of transaction envelopes.
pub open spec fn transaction_views(s: Seq<SPVMTransaction>) -> Seq<TransactionView> {
    Seq::new(s.len(), |i: int| s[i]@)
}

/// The empty ledger is well-formed.
pub proof fn lemma_empty_wf()
    ensures
        Ledger::empty().wf(),
{
    assert(Ledger::empty().balances.dom() =~= Set::<(Seq<char>, Seq<char>)>::empty());
}

/// A balance upsert preserves well-formedness.
pub proof fn lemma_with_balance_preserves_wf(l: Ledger, ticker: Seq<char>, holder: Seq<char>, b: u16)
    requires
        l.wf(),
    ensures
        l.with_balance(ticker, holder, b).wf(),
{
    assert(l.with_balance(ticker, holder, b).balances.dom() =~= l.balances.dom().insert(
        (ticker, holder),
    ));
}

/// Every successful execution preserves well-formedness.
pub proof fn lemma_execute_preserves_wf(l: Ledger, c: TransactionContentView, l2: Ledger)
    requires
        l.wf(),
        l.execute(c) == Ok::<Ledger, SPVMError>(l2),
    ensures
        l2.wf(),
{
    match c.tx_type {
        TxType::Mint => {
            let m = dec_mint_params(c.tx_param)->Some_0;
            lemma_with_balance_preserves_wf(l, m.token_ticker, m.owner, m.supply);
        },
        TxType::Transfer => {
            let p = dec_transfer_params(c.tx_param)->Some_0;
            let debited = l.with_balance(
                p.token_ticker,
                c.from,
                (l.balance(p.token_ticker, c.from) - p.amount) as u16,
            );
            lemma_with_balance_preserves_wf(
                l,
                p.token_ticker,
                c.from,
                (l.balance(p.token_ticker, c.from) - p.amount) as u16,
            );
            lemma_with_balance_preserves_wf(
                debited,
                p.token_ticker,
                p.to,
                debited.balance(p.token_ticker, p.to).wrapping_add(p.amount),
            );
        },
    }
}

// ---------------------------------------------------------------------------
// Conservation: the total supply of a ticker
// ---------------------------------------------------------------------------

/// The folding step that adds up the balances recorded for ticker `t`.
pub open spec fn contribution(m: Map<(Seq<char>, Seq<char>), u16>, t: Seq<char>) -> spec_fn(
    int,
    (Seq<char>, Seq<char>),
) -> int {
    |acc: int, k: (Seq<char>, Seq<char>)|
        if k.0 == t {
            acc + m[k]
        } else {
            acc
        }
}

/// Sum of the balances that `m` records under ticker `t` over the keys in `dom`.
pub open spec fn total_over(
    dom: Set<(Seq<char>, Seq<char>)>,
    m: Map<(Seq<char>, Seq<char>), u16>,
    t: Seq<char>,
) -> int {
    dom.fold(0, contribution(m, t))
}

impl Ledger {
    /// The total supply of ticker `t`: the sum of all recorded balances
    /// under it.  Unrecorded balances are zero and contribute nothing.
    pub open spec fn ticker_total(self, t: Seq<char>) -> int {
        total_over(self.balances.dom(), self.balances, t)
    }
}

proof fn lemma_contribution_commutative(m: Map<(Seq<char>, Seq<char>), u16>, t: Seq<char>)
    ensures
        is_fun_commutative(contribution(m, t)),
{
}

/// Folding two maps that agree on every key of `dom` gives the same total.
proof fn lemma_total_over_congruence(
    dom: Set<(Seq<char>, Seq<char>)>,
    m1: Map<(Seq<char>, Seq<char>), u16>,
    m2: Map<(Seq<char>, Seq<char>), u16>,
    t: Seq<char>,
)
    requires
        dom.finite(),
        forall|k: (Seq<char>, Seq<char>)| #[trigger] dom.contains(k) && k.0 == t ==> m1[k] == m2[k],
    ensures
        total_over(dom, m1, t) == total_over(dom, m2, t),
{
    let f1 = contribution(m1, t);
    let f2 = contribution(m2, t);
    lemma_contribution_commutative(m1, t);
    lemma_contribution_commutative(m2, t);
    let pred = |s: Set<(Seq<char>, Seq<char>)>|
        s.subset_of(dom) ==> s.fold(0, f1) == s.fold(0, f2);
    assert(pred(Set::<(Seq<char>, Seq<char>)>::empty())) by {
        lemma_fold_empty(0, f1);
        lemma_fold_empty(0, f2);
    }
    assert forall|s: Set<(Seq<char>, Seq<char>)>, a: (Seq<char>, Seq<char>)|
        pred(s) && s.finite() && !s.contains(a) implies #[trigger] pred(s.insert(a)) by {
        if s.insert(a).subset_of(dom) {
            assert(s.subset_of(dom));
            assert(dom.contains(a));
            lemma_fold_insert(s, 0, f1, a);
            lemma_fold_insert(s, 0, f2, a);
        }
    }
    lemma_finite_set_induct(dom, pred);
}

/// A ticker with no recorded balance has a total of zero.
proof fn lemma_total_over_absent(
    dom: Set<(Seq<char>, Seq<char>)>,
    m: Map<(Seq<char>, Seq<char>), u16>,
    t: Seq<char>,
)
    requires
        dom.finite(),
        forall|k: (Seq<char>, Seq<char>)| #[trigger] dom.contains(k) ==> k.0 != t,
    ensures
        total_over(dom, m, t) == 0,
{
    let f = contribution(m, t);
    lemma_contribution_commutative(m, t);
    let pred = |s: Set<(Seq<char>, Seq<char>)>| s.subset_of(dom) ==> s.fold(0, f) == 0;
    assert(pred(Set::<(Seq<char>, Seq<char>)>::empty())) by {
        lemma_fold_empty(0, f);
    }
    assert forall|s: Set<(Seq<char>, Seq<char>)>, a: (Seq<char>, Seq<char>)|
        pred(s) && s.finite() && !s.contains(a) implies #[trigger] pred(s.insert(a)) by {
        if s.insert(a).subset_of(dom) {
            assert(s.subset_of(dom));
            assert(dom.contains(a));
            lemma_fold_insert(s, 0, f, a);
        }
    }
    lemma_finite_set_induct(dom, pred);
}

/// Effect of one balance upsert on a ticker total.
proof fn lemma_with_balance_total(
    l: Ledger,
    ticker: Seq<char>,
    holder: Seq<char>,
    b: u16,
    t: Seq<char>,
)
    requires
        l.balances.dom().finite(),
    ensures
        l.with_balance(ticker, holder, b).ticker_total(t) == l.ticker_total(t) + (if ticker == t {
            b - l.balance(ticker, holder)
        } else {
            0
        }),
{
    let dom = l.balances.dom();
    let m = l.balances;
    let k0 = (ticker, holder);
    let m2 = m.insert(k0, b);
    let f = contribution(m, t);
    let f2 = contribution(m2, t);
    let rest = dom.remove(k0);
    lemma_contribution_commutative(m, t);
    lemma_contribution_commutative(m2, t);
    assert(m2.dom() =~= dom.insert(k0));
    assert forall|k: (Seq<char>, Seq<char>)| #[trigger] rest.contains(k) && k.0 == t implies m[k]
        == m2[k] by {}
    if dom.contains(k0) {
        assert(dom =~= rest.insert(k0));
        assert(m2.dom() =~= rest.insert(k0));
        lemma_fold_insert(rest, 0, f2, k0);
        lemma_fold_insert(rest, 0, f, k0);
        lemma_total_over_congruence(rest, m, m2, t);
    } else {
        assert(rest =~= dom);
        lemma_fold_insert(dom, 0, f2, k0);
        lemma_total_over_congruence(dom, m, m2, t);
    }
}

/// Conservation, mint half: a successful mint finds the ticker's total at
/// zero and sets it to exactly the minted supply; totals of other tickers
/// are unchanged.
pub proof fn lemma_mint_sets_total(
    l: Ledger,
    c: TransactionContentView,
    m: MintParamsView,
    l2: Ledger,
)
    requires
        l.wf(),
        c.tx_type is Mint,
        dec_mint_params(c.tx_param) == Some(m),
        l.execute(c) == Ok::<Ledger, SPVMError>(l2),
    ensures
        l.ticker_total(m.token_ticker) == 0,
        l2.ticker_total(m.token_ticker) == m.supply,
        forall|t: Seq<char>| t != m.token_ticker ==> l2.ticker_total(t) == l.ticker_total(t),
{
    assert(!l.is_initialized(m.token_ticker));
    assert forall|k: (Seq<char>, Seq<char>)| #[trigger] l.balances.dom().contains(k) implies k.0
        != m.token_ticker by {}
    lemma_total_over_absent(l.balances.dom(), l.balances, m.token_ticker);
    assert(!l.balances.dom().contains((m.token_ticker, m.owner)));
    assert forall|t: Seq<char>|
        l2.ticker_total(t) == l.ticker_total(t) + (if m.token_ticker == t {
            m.supply - l.balance(m.token_ticker, m.owner)
        } else {
            0
        }) by {
        lemma_with_balance_total(l, m.token_ticker, m.owner, m.supply, t);
    }
}

/// Conservation, transfer half: a transfer admitted by the validator moves
/// balance within its ticker and leaves every ticker total unchanged.  The
/// recipient's credited balance must fit the balance type; a state where
/// it does not can only arise from direct balance upserts, never from
/// mints and transfers alone.
pub proof fn lemma_transfer_conserves_total(
    l: Ledger,
    c: TransactionContentView,
    p: TransferParamsView,
    l2: Ledger,
)
    requires
        l.wf(),
        c.tx_type is Transfer,
        dec_transfer_params(c.tx_param) == Some(p),
        l.execute(c) == Ok::<Ledger, SPVMError>(l2),
        p.to == c.from || l.balance(p.token_ticker, p.to) + p.amount <= u16::MAX,
    ensures
        forall|t: Seq<char>| l2.ticker_total(t) == l.ticker_total(t),
{
    let tk = p.token_ticker;
    let fb = l.balance(tk, c.from);
    assert(fb >= p.amount);
    let v1 = (fb - p.amount) as u16;
    let debited = l.with_balance(tk, c.from, v1);
    let mid = debited.balance(tk, p.to);
    if p.to == c.from {
        assert(mid == v1);
    } else {
        assert((tk, p.to) != (tk, c.from));
        assert(mid == l.balance(tk, p.to));
    }
    assert(mid + p.amount <= u16::MAX);
    let v2 = mid.wrapping_add(p.amount);
    assert(v2 == mid + p.amount);
    assert(debited.balances.dom().finite()) by {
        assert(debited.balances.dom() =~= l.balances.dom().insert((tk, c.from)));
    }
    assert forall|t: Seq<char>| l2.ticker_total(t) == l.ticker_total(t) by {
        lemma_with_balance_total(l, tk, c.from, v1, t);
        lemma_with_balance_total(debited, tk, p.to, v2, t);
    }
}

/// A ticker total dominates the recorded balances of any two of its
/// holders, since every other balance contributes non-negatively.
proof fn lemma_total_over_pair_lower(
    dom: Set<(Seq<char>, Seq<char>)>,
    m: Map<(Seq<char>, Seq<char>), u16>,
    t: Seq<char>,
    k1: (Seq<char>, Seq<char>),
    k2: (Seq<char>, Seq<char>),
)
    requires
        dom.finite(),
        k1 != k2,
        k1.0 == t,
        k2.0 == t,
    ensures
        total_over(dom, m, t) >= (if dom.contains(k1) {
            m[k1] as int
        } else {
            0
        }) + (if dom.contains(k2) {
            m[k2] as int
        } else {
            0
        }),
{
    let f = contribution(m, t);
    lemma_contribution_commutative(m, t);
    let bound = |s: Set<(Seq<char>, Seq<char>)>|
        (if s.contains(k1) {
            m[k1] as int
        } else {
            0
        }) + (if s.contains(k2) {
            m[k2] as int
        } else {
            0
        });
    let pred = |s: Set<(Seq<char>, Seq<char>)>| s.fold(0, f) >= bound(s);
    assert(pred(Set::<(Seq<char>, Seq<char>)>::empty())) by {
        lemma_fold_empty(0, f);
    }
    assert forall|s: Set<(Seq<char>, Seq<char>)>, a: (Seq<char>, Seq<char>)|
        pred(s) && s.finite() && !s.contains(a) implies #[trigger] pred(s.insert(a)) by {
        lemma_fold_insert(s, 0, f, a);
    }
    lemma_finite_set_induct(dom, pred);
}

/// Conservation for transfers, stated over bounded states: when no ticker
/// total exceeds the balance type, an admitted transfer cannot overflow the
/// recipient, and every ticker total is unchanged.  States reached by mints
/// and transfers alone are bounded in this sense.
pub proof fn lemma_transfer_conserves_total_bounded(
    l: Ledger,
    c: TransactionContentView,
    p: TransferParamsView,
    l2: Ledger,
)
    requires
        l.wf(),
        c.tx_type is Transfer,
        dec_transfer_params(c.tx_param) == Some(p),
        l.execute(c) == Ok::<Ledger, SPVMError>(l2),
        l.ticker_total(p.token_ticker) <= u16::MAX,
    ensures
        forall|t: Seq<char>| l2.ticker_total(t) == l.ticker_total(t),
{
    let tk = p.token_ticker;
    if p.to != c.from {
        let k_to = (tk, p.to);
        let k_from = (tk, c.from);
        lemma_total_over_pair_lower(l.balances.dom(), l.balances, tk, k_to, k_from);
        assert(l.balance(tk, p.to) + p.amount <= u16::MAX);
    }
    lemma_transfer_conserves_total(l, c, p, l2);
}

/// Outcome of a sequence of decoded transaction contents, applied in order;
/// the first failure stops the chain.
pub open spec fn execute_all(l: Ledger, cs: Seq<TransactionContentView>) -> Result<
    Ledger,
    SPVMError,
>
    decreases cs.len(),
{
    if cs.len() == 0 {
        Ok(l)
    } else {
        match l.execute(cs[0]) {
            Err(e) => Err(e),
            Ok(l1) => execute_all(l1, cs.skip(1)),
        }
    }
}

/// Conservation over sequences: any sequence of admitted transfers leaves
/// every ticker total exactly as it was.
pub proof fn lemma_transfer_sequence_conserves_totals(
    l: Ledger,
    cs: Seq<TransactionContentView>,
    l2: Ledger,
)
    requires
        l.wf(),
        forall|t: Seq<char>| l.ticker_total(t) <= u16::MAX,
        forall|i: int| 0 <= i < cs.len() ==> (#[trigger] cs[i].tx_type) is Transfer,
        execute_all(l, cs) == Ok::<Ledger, SPVMError>(l2),
    ensures
        forall|t: Seq<char>| l2.ticker_total(t) == l.ticker_total(t),
    decreases cs.len(),
{
    if cs.len() > 0 {
        let l1 = l.execute(cs[0])->Ok_0;
        let p = dec_transfer_params(cs[0].tx_param)->Some_0;
        lemma_transfer_conserves_total_bounded(l, cs[0], p, l1);
        lemma_execute_preserves_wf(l, cs[0], l1);
        assert(forall|i: int|
            0 <= i < cs.skip(1).len() ==> (#[trigger] cs.skip(1)[i].tx_type) is Transfer);
        lemma_transfer_sequence_conserves_totals(l1, cs.skip(1), l2);
    }
}

// ---------------------------------------------------------------------------
// Further laws of the transition system
// ---------------------------------------------------------------------------

/// Re-minting a ticker is rejected: after a successful mint, any second
/// mint of the same ticker fails as an invalid transaction, whatever its
/// sender, owner, supply, or nonce.  The executor's contract adds that a
/// failed transaction leaves the state untouched.
pub proof fn lemma_second_mint_rejected(
    l: Ledger,
    c1: TransactionContentView,
    m1: MintParamsView,
    l2: Ledger,
    c2: TransactionContentView,
    m2: MintParamsView,
)
    requires
        c1.tx_type is Mint,
        dec_mint_params(c1.tx_param) == Some(m1),
        l.execute(c1) == Ok::<Ledger, SPVMError>(l2),
        c2.tx_type is Mint,
        dec_mint_params(c2.tx_param) == Some(m2),
        m2.token_ticker == m1.token_ticker,
    ensures
        l2.execute(c2) == Err::<Ledger, SPVMError>(SPVMError::InvalidTransaction),
{
    assert(l2.is_initialized(m1.token_ticker));
}

/// A transfer asking for more than the sender's current balance fails as
/// an invalid transaction.  The executor's contract adds that a failed
/// transaction leaves every balance unchanged.
pub proof fn lemma_overdraft_rejected(l: Ledger, c: TransactionContentView, p: TransferParamsView)
    requires
        c.tx_type is Transfer,
        dec_transfer_params(c.tx_param) == Some(p),
        l.balance(p.token_ticker, c.from) < p.amount,
    ensures
        l.execute(c) == Err::<Ledger, SPVMError>(SPVMError::InvalidTransaction),
{
}

/// An envelope whose claimed hash is the canonical encoding of its content
/// passes the integrity check and behaves as its content does.
pub proof fn lemma_execute_tx_checked(l: Ledger, tx: TransactionView)
    requires
        content_fits(tx.tx_content),
        tx.transaction_hash == enc_content(tx.tx_content),
    ensures
        l.execute_tx(tx) == l.execute(tx.tx_content),
{
    lemma_content_round_trip(tx.tx_content);
}

/// Tamper detection: however the content of an envelope is altered after
/// its hash was computed, the altered envelope fails the integrity check
/// and is rejected as a hash mismatch.  The executor's contract adds that
/// the rejection changes no state.
pub proof fn lemma_tampered_content_rejected(l: Ledger, tx: TransactionView, orig: TransactionContentView)
    requires
        content_fits(orig),
        content_fits(tx.tx_content),
        tx.transaction_hash == enc_content(orig),
        tx.tx_content != orig,
    ensures
        l.execute_tx(tx) == Err::<Ledger, SPVMError>(SPVMError::TransactionHashMismatch),
{
    if tx.transaction_hash == enc_content(tx.tx_content) {
        lemma_enc_content_injective(tx.tx_content, orig);
    }
}

} // verus!
