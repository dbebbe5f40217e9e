//! Transaction data types and their mathematical views.
//!
//! Every executable structure has a ghost view whose fields are sequences
//! and plain integers; contracts and the codec specification speak of the
//! views only.

use vstd::prelude::*;

verus! {

/// Error kinds surfaced by the engine.
#[derive(Debug, Clone, Copy, PartialEq, Eq, Structural)]
pub enum SPVMError {
    /// Payload bytes cannot be parsed into the expected structure.
    SerializationError,
    /// A well-formed transaction failed the semantic validity check.
    InvalidTransaction,
    /// The claimed content hash does not match the recomputed one.
    TransactionHashMismatch,
}

/// The two supported transaction kinds.
#[derive(Debug, Clone, Copy, PartialEq, Eq, Structural)]
pub enum TxType {
    Mint,
    Transfer,
}

/// A transaction's content: sender, kind, kind-specific payload, and nonce.
#[derive(Debug, Clone)]
pub struct TransactionContent {
    pub from: String,
    pub tx_type: TxType,
    pub tx_param: Vec<u8>,
    pub nonce: u32,
}

/// Parameters of a mint: the new ticker, its owner, and the initial supply.
#[derive(Debug, Clone)]
pub struct MintTransactionParams {
    pub token_ticker: String,
    pub owner: String,
    pub supply: u16,
}

/// Parameters of a transfer: the ticker, the recipient, and the amount.
#[derive(Debug, Clone)]
pub struct TransferTransactionParams {
    pub token_ticker: String,
    pub to: String,
    pub amount: u16,
}

/// A transaction envelope: content, claimed content hash, and a signature
/// that this core carries but does not verify.
#[derive(Debug, Clone)]
pub struct SPVMTransaction {
    pub tx_content: TransactionContent,
    pub transaction_hash: Vec<u8>,
    pub signature: Vec<u8>,
}

/// Ghost view of [`TransactionContent`].
#[verifier::ext_equal]
pub ghost struct TransactionContentView {
    pub from: Seq<char>,
    pub tx_type: TxType,
    pub tx_param: Seq<u8>,
    pub nonce: u32,
}

/// Ghost view of [`MintTransactionParams`].
#[verifier::ext_equal]
pub ghost struct MintParamsView {
    pub token_ticker: Seq<char>,
    pub owner: Seq<char>,
    pub supply: u16,
}

/// Ghost view of [`TransferTransactionParams`].
#[verifier::ext_equal]
pub ghost struct TransferParamsView {
    pub token_ticker: Seq<char>,
    pub to: Seq<char>,
    pub amount: u16,
}

/// Ghost view of [`SPVMTransaction`].
#[verifier::ext_equal]
pub ghost struct TransactionView {
    pub tx_content: TransactionContentView,
    pub transaction_hash: Seq<u8>,
    pub signature: Seq<u8>,
}

impl View for TransactionContent {
    type V = TransactionContentView;

    open spec fn view(&self) -> TransactionContentView {
        TransactionContentView {
            from: self.from@,
            tx_type: self.tx_type,
            tx_param: self.tx_param@,
            nonce: self.nonce,
        }
    }
}

impl View for MintTransactionParams {
    type V = MintParamsView;

    open spec fn view(&self) -> MintParamsView {
        MintParamsView {
            token_ticker: self.token_ticker@,
            owner: self.owner@,
            supply: self.supply,
        }
    }
}

impl View for TransferTransactionParams {
    type V = TransferParamsView;

    open spec fn view(&self) -> TransferParamsView {
        TransferParamsView { token_ticker: self.token_ticker@, to: self.to@, amount: self.amount }
    }
}

impl View for SPVMTransaction {
    type V = TransactionView;

    open spec fn view(&self) -> TransactionView {
        TransactionView {
            tx_content: self.tx_content@,
            transaction_hash: self.transaction_hash@,
            signature: self.signature@,
        }
    }
}

} // verus!
