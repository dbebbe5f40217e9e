use spvm::codec::encode_mint_params;
use spvm::codec::encode_transaction_content;
use spvm::codec::encode_transfer_params;
use spvm::types::MintTransactionParams;
use spvm::types::SPVMError;
use spvm::types::SPVMTransaction;
use spvm::types::TransactionContent;
use spvm::types::TransferTransactionParams;
use spvm::types::TxType;
use spvm::SPVM;

fn mint_content(ticker: &str, owner: &str, supply: u16, from: &str, nonce: u32) -> TransactionContent {
    let params = MintTransactionParams {
        token_ticker: ticker.to_string(),
        owner: owner.to_string(),
        supply,
    };
    TransactionContent {
        from: from.to_string(),
        tx_type: TxType::Mint,
        tx_param: encode_mint_params(&params),
        nonce,
    }
}

fn transfer_content(ticker: &str, to: &str, amount: u16, from: &str, nonce: u32) -> TransactionContent {
    let params = TransferTransactionParams {
        token_ticker: ticker.to_string(),
        to: to.to_string(),
        amount,
    };
    TransactionContent {
        from: from.to_string(),
        tx_type: TxType::Transfer,
        tx_param: encode_transfer_params(&params),
        nonce,
    }
}

fn envelope(spvm: &SPVM, tx_content: TransactionContent) -> Result<SPVMTransaction, SPVMError> {
    let transaction_hash = spvm.hash_transaction_content(&tx_content)?;
    Ok(SPVMTransaction { tx_content, transaction_hash, signature: vec![] })
}

#[test]
fn test_mint_transaction() -> Result<(), SPVMError> {
    let mut spvm = SPVM::new();

    let mint_params = MintTransactionParams {
        token_ticker: "BTC".to_string(),
        owner: "account1".to_string(),
        supply: 100,
    };

    let tx_content = TransactionContent {
        from: "account1".to_string(),
        tx_type: TxType::Mint,
        tx_param: encode_mint_params(&mint_params),
        nonce: 0,
    };

    let spvm_tx = SPVMTransaction {
        tx_content: tx_content.clone(),
        transaction_hash: spvm.hash_transaction_content(&tx_content)?,
        signature: vec![],
    };

    spvm.execute_tx(&spvm_tx)?;

    let balance = spvm.get_balance("BTC", "account1");
    assert_eq!(balance, 100);
    Ok(())
}

#[test]
fn test_transfer_transaction() -> Result<(), SPVMError> {
    let mut spvm = SPVM::new();

    let mint_params = MintTransactionParams {
        token_ticker: "BTC".to_string(),
        owner: "account1".to_string(),
        supply: 100,
    };

    let tx_content = TransactionContent {
        from: "account1".to_string(),
        tx_type: TxType::Mint,
        tx_param: encode_mint_params(&mint_params),
        nonce: 0,
    };

    let spvm_tx = SPVMTransaction {
        tx_content: tx_content.clone(),
        transaction_hash: spvm.hash_transaction_content(&tx_content)?,
        signature: vec![],
    };

    spvm.execute_tx(&spvm_tx)?;

    let transfer_params = TransferTransactionParams {
        token_ticker: "BTC".to_string(),
        to: "account2".to_string(),
        amount: 50,
    };

    let tx_content = TransactionContent {
        from: "account1".to_string(),
        tx_type: TxType::Transfer,
        tx_param: encode_transfer_params(&transfer_params),
        nonce: 1,
    };

    let spvm_tx = SPVMTransaction {
        tx_content: tx_content.clone(),
        transaction_hash: spvm.hash_transaction_content(&tx_content)?,
        signature: vec![],
    };

    spvm.execute_tx(&spvm_tx)?;

    let balance1 = spvm.get_balance("BTC", "account1");
    let balance2 = spvm.get_balance("BTC", "account2");

    assert_eq!(balance1, 50);
    assert_eq!(balance2, 50);
    Ok(())
}

#[test]
fn second_mint_of_same_ticker_fails() -> Result<(), SPVMError> {
    let mut spvm = SPVM::new();
    let first = envelope(&spvm, mint_content("BTC", "account1", 100, "account1", 0))?;
    spvm.execute_tx(&first)?;

    let second = envelope(&spvm, mint_content("BTC", "intruder", 9999, "intruder", 0))?;
    let res = spvm.execute_tx(&second);
    assert_eq!(res, Err(SPVMError::InvalidTransaction));
    assert_eq!(spvm.get_balance("BTC", "account1"), 100);
    assert_eq!(spvm.get_balance("BTC", "intruder"), 0);
    Ok(())
}

#[test]
fn overdraft_transfer_fails_and_changes_nothing() -> Result<(), SPVMError> {
    let mut spvm = SPVM::new();
    let mint = envelope(&spvm, mint_content("BTC", "account1", 100, "account1", 0))?;
    spvm.execute_tx(&mint)?;
    let transfer = envelope(&spvm, transfer_content("BTC", "account2", 50, "account1", 1))?;
    spvm.execute_tx(&transfer)?;

    let overdraft = envelope(&spvm, transfer_content("BTC", "account2", 51, "account1", 2))?;
    let res = spvm.execute_tx(&overdraft);
    assert_eq!(res, Err(SPVMError::InvalidTransaction));
    assert_eq!(spvm.get_balance("BTC", "account1"), 50);
    assert_eq!(spvm.get_balance("BTC", "account2"), 50);
    Ok(())
}

#[test]
fn transfer_on_uninitialized_ticker_fails() {
    let mut spvm = SPVM::new();
    let content = transfer_content("ETH", "account2", 1, "account1", 0);
    let tx = envelope(&spvm, content).unwrap();
    let res = spvm.execute_tx(&tx);
    assert_eq!(res, Err(SPVMError::InvalidTransaction));
    assert_eq!(spvm.get_balance("ETH", "account1"), 0);
    assert_eq!(spvm.get_balance("ETH", "account2"), 0);
}

#[test]
fn tampered_content_is_rejected() -> Result<(), SPVMError> {
    let mut spvm = SPVM::new();
    let content = mint_content("BTC", "account1", 100, "account1", 0);
    let mut tx = envelope(&spvm, content)?;
    // Alter the content after the hash was computed.
    tx.tx_content.nonce = 1;
    let res = spvm.execute_tx(&tx);
    assert_eq!(res, Err(SPVMError::TransactionHashMismatch));
    assert_eq!(spvm.get_balance("BTC", "account1"), 0);
    assert!(!spvm.is_initialized("BTC"));
    Ok(())
}

#[test]
fn flipped_hash_byte_is_rejected() -> Result<(), SPVMError> {
    let mut spvm = SPVM::new();
    let content = mint_content("BTC", "account1", 100, "account1", 0);
    let mut tx = envelope(&spvm, content)?;
    let last = tx.transaction_hash.len() - 1;
    tx.transaction_hash[last] ^= 0xff;
    let res = spvm.execute_tx(&tx);
    assert_eq!(res, Err(SPVMError::TransactionHashMismatch));
    assert!(!spvm.is_initialized("BTC"));
    Ok(())
}

#[test]
fn batch_commits_prefix_and_returns_first_error() -> Result<(), SPVMError> {
    let mut spvm = SPVM::new();
    let probe = SPVM::new();
    let mint = envelope(&probe, mint_content("BTC", "account1", 100, "account1", 0))?;
    let transfer = envelope(&probe, transfer_content("BTC", "account2", 60, "account1", 1))?;
    let overdraft = envelope(&probe, transfer_content("BTC", "account2", 41, "account1", 2))?;

    let res = spvm.execute_block_transactions(&[mint, transfer, overdraft]);
    assert_eq!(res, Err(SPVMError::InvalidTransaction));
    assert_eq!(spvm.get_balance("BTC", "account1"), 40);
    assert_eq!(spvm.get_balance("BTC", "account2"), 60);
    Ok(())
}

#[test]
fn batch_of_valid_transactions_succeeds() -> Result<(), SPVMError> {
    let mut spvm = SPVM::new();
    let probe = SPVM::new();
    let mint = envelope(&probe, mint_content("BTC", "account1", 100, "account1", 0))?;
    let transfer = envelope(&probe, transfer_content("BTC", "account2", 60, "account1", 1))?;

    spvm.execute_block_transactions(&[mint, transfer])?;
    assert_eq!(spvm.get_balance("BTC", "account1"), 40);
    assert_eq!(spvm.get_balance("BTC", "account2"), 60);
    Ok(())
}

#[test]
fn conservation_across_transfers() -> Result<(), SPVMError> {
    let mut spvm = SPVM::new();
    spvm.execute_tx(&envelope(&spvm, mint_content("BTC", "a", 1000, "a", 0))?)?;
    let total_after_mint =
        spvm.get_balance("BTC", "a") as u32 + spvm.get_balance("BTC", "b") as u32
            + spvm.get_balance("BTC", "c") as u32;
    assert_eq!(total_after_mint, 1000);

    spvm.execute_tx(&envelope(&spvm, transfer_content("BTC", "b", 300, "a", 1))?)?;
    spvm.execute_tx(&envelope(&spvm, transfer_content("BTC", "c", 150, "b", 0))?)?;
    spvm.execute_tx(&envelope(&spvm, transfer_content("BTC", "a", 50, "c", 0))?)?;

    let total = spvm.get_balance("BTC", "a") as u32 + spvm.get_balance("BTC", "b") as u32
        + spvm.get_balance("BTC", "c") as u32;
    assert_eq!(total, 1000);
    assert_eq!(spvm.get_balance("BTC", "a"), 750);
    assert_eq!(spvm.get_balance("BTC", "b"), 150);
    assert_eq!(spvm.get_balance("BTC", "c"), 100);
    Ok(())
}

#[test]
fn transfer_to_self_keeps_balance() -> Result<(), SPVMError> {
    let mut spvm = SPVM::new();
    spvm.execute_tx(&envelope(&spvm, mint_content("BTC", "a", 100, "a", 0))?)?;
    spvm.execute_tx(&envelope(&spvm, transfer_content("BTC", "a", 100, "a", 1))?)?;
    assert_eq!(spvm.get_balance("BTC", "a"), 100);
    Ok(())
}

#[test]
fn execute_raw_transaction_applies_mint() -> Result<(), SPVMError> {
    let mut spvm = SPVM::new();
    let content = mint_content("BTC", "account1", 77, "account1", 0);
    let raw = encode_transaction_content(&content);
    spvm.execute_raw_transaction(&raw)?;
    assert_eq!(spvm.get_balance("BTC", "account1"), 77);
    assert!(spvm.is_initialized("BTC"));
    Ok(())
}

#[test]
fn execute_raw_transaction_rejects_garbage() {
    let mut spvm = SPVM::new();
    let res = spvm.execute_raw_transaction(&[1, 2, 3]);
    assert_eq!(res, Err(SPVMError::SerializationError));
}

#[test]
fn execute_raw_transaction_rejects_trailing_bytes() -> Result<(), SPVMError> {
    let mut spvm = SPVM::new();
    let content = mint_content("BTC", "account1", 77, "account1", 0);
    let mut raw = encode_transaction_content(&content);
    raw.push(0);
    let res = spvm.execute_raw_transaction(&raw);
    assert_eq!(res, Err(SPVMError::SerializationError));
    assert!(!spvm.is_initialized("BTC"));
    Ok(())
}

#[test]
fn check_validity_distinguishes_failure_classes() -> Result<(), SPVMError> {
    let spvm = SPVM::new();
    // Semantically invalid transfer on a fresh ledger: well-formed, rejected.
    let content = transfer_content("BTC", "b", 1, "a", 0);
    assert_eq!(spvm.check_validity(&content), Ok(false));
    // Fresh mint: valid.
    let content = mint_content("BTC", "a", 1, "a", 0);
    assert_eq!(spvm.check_validity(&content), Ok(true));
    // Undecodable parameter payload: a decoding error, not mere invalidity.
    let content = TransactionContent {
        from: "a".to_string(),
        tx_type: TxType::Mint,
        tx_param: vec![9, 9, 9],
        nonce: 0,
    };
    assert_eq!(spvm.check_validity(&content), Err(SPVMError::SerializationError));
    Ok(())
}

#[test]
fn set_balance_and_get_balance_roundtrip() {
    let mut spvm = SPVM::new();
    assert_eq!(spvm.get_balance("BTC", "nobody"), 0);
    assert!(!spvm.is_initialized("BTC"));
    spvm.set_balance("BTC", "account1", 42);
    assert_eq!(spvm.get_balance("BTC", "account1"), 42);
    assert_eq!(spvm.get_balance("BTC", "account2"), 0);
    assert_eq!(spvm.get_balance("ETH", "account1"), 0);
    assert!(spvm.is_initialized("BTC"));
    spvm.set_balance("BTC", "account1", 7);
    assert_eq!(spvm.get_balance("BTC", "account1"), 7);
}

#[test]
fn hash_is_deterministic_and_content_sensitive() -> Result<(), SPVMError> {
    let spvm = SPVM::new();
    let content = mint_content("BTC", "account1", 100, "account1", 0);
    let h1 = spvm.hash_transaction_content(&content)?;
    let h2 = spvm.hash_transaction_content(&content)?;
    assert_eq!(h1, h2);
    let other = mint_content("BTC", "account1", 100, "account1", 1);
    let h3 = spvm.hash_transaction_content(&other)?;
    assert_ne!(h1, h3);
    Ok(())
}
