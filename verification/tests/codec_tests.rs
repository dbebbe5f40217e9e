use spvm::codec::decode_mint_params;
use spvm::codec::decode_transaction;
use spvm::codec::decode_transaction_content;
use spvm::codec::decode_transfer_params;
use spvm::codec::encode_mint_params;
use spvm::codec::encode_transaction;
use spvm::codec::encode_transaction_content;
use spvm::codec::encode_transfer_params;
use spvm::types::MintTransactionParams;
use spvm::types::SPVMError;
use spvm::types::SPVMTransaction;
use spvm::types::TransactionContent;
use spvm::types::TransferTransactionParams;
use spvm::types::TxType;

#[test]
fn mint_params_round_trip() {
    let params = MintTransactionParams {
        token_ticker: "BTC".to_string(),
        owner: "account1".to_string(),
        supply: 100,
    };
    let bytes = encode_mint_params(&params);
    let back = decode_mint_params(&bytes).unwrap();
    assert_eq!(back.token_ticker, "BTC");
    assert_eq!(back.owner, "account1");
    assert_eq!(back.supply, 100);
}

#[test]
fn transfer_params_round_trip() {
    let params = TransferTransactionParams {
        token_ticker: "ETH".to_string(),
        to: "account2".to_string(),
        amount: 65535,
    };
    let bytes = encode_transfer_params(&params);
    let back = decode_transfer_params(&bytes).unwrap();
    assert_eq!(back.token_ticker, "ETH");
    assert_eq!(back.to, "account2");
    assert_eq!(back.amount, 65535);
}

#[test]
fn transaction_content_round_trip() {
    let params = MintTransactionParams {
        token_ticker: "BTC".to_string(),
        owner: "account1".to_string(),
        supply: 1,
    };
    let content = TransactionContent {
        from: "account1".to_string(),
        tx_type: TxType::Mint,
        tx_param: encode_mint_params(&params),
        nonce: 42,
    };
    let bytes = encode_transaction_content(&content);
    let back = decode_transaction_content(&bytes).unwrap();
    assert_eq!(back.from, "account1");
    assert!(matches!(back.tx_type, TxType::Mint));
    assert_eq!(back.tx_param, content.tx_param);
    assert_eq!(back.nonce, 42);
}

#[test]
fn transaction_envelope_round_trip() {
    let params = TransferTransactionParams {
        token_ticker: "BTC".to_string(),
        to: "account2".to_string(),
        amount: 5,
    };
    let content = TransactionContent {
        from: "account1".to_string(),
        tx_type: TxType::Transfer,
        tx_param: encode_transfer_params(&params),
        nonce: 7,
    };
    let tx = SPVMTransaction {
        transaction_hash: encode_transaction_content(&content),
        tx_content: content,
        signature: vec![1, 2, 3],
    };
    let bytes = encode_transaction(&tx);
    let back = decode_transaction(&bytes).unwrap();
    assert_eq!(back.tx_content.from, "account1");
    assert!(matches!(back.tx_content.tx_type, TxType::Transfer));
    assert_eq!(back.tx_content.tx_param, tx.tx_content.tx_param);
    assert_eq!(back.tx_content.nonce, 7);
    assert_eq!(back.transaction_hash, tx.transaction_hash);
    assert_eq!(back.signature, vec![1, 2, 3]);
}

#[test]
fn non_ascii_strings_round_trip() {
    let params = MintTransactionParams {
        token_ticker: "币安".to_string(),
        owner: "πλάτων".to_string(),
        supply: 9,
    };
    let bytes = encode_mint_params(&params);
    let back = decode_mint_params(&bytes).unwrap();
    assert_eq!(back.token_ticker, "币安");
    assert_eq!(back.owner, "πλάτων");
    assert_eq!(back.supply, 9);
}

#[test]
fn empty_strings_round_trip() {
    let params = MintTransactionParams {
        token_ticker: "".to_string(),
        owner: "".to_string(),
        supply: 0,
    };
    let bytes = encode_mint_params(&params);
    let back = decode_mint_params(&bytes).unwrap();
    assert_eq!(back.token_ticker, "");
    assert_eq!(back.owner, "");
    assert_eq!(back.supply, 0);
}

#[test]
fn truncated_bytes_are_rejected() {
    let params = MintTransactionParams {
        token_ticker: "BTC".to_string(),
        owner: "account1".to_string(),
        supply: 100,
    };
    let bytes = encode_mint_params(&params);
    for cut in 0..bytes.len() {
        let res = decode_mint_params(&bytes[..cut]);
        assert!(matches!(res, Err(SPVMError::SerializationError)));
    }
}

#[test]
fn trailing_bytes_are_rejected() {
    let params = TransferTransactionParams {
        token_ticker: "BTC".to_string(),
        to: "account2".to_string(),
        amount: 5,
    };
    let mut bytes = encode_transfer_params(&params);
    bytes.push(0);
    assert!(matches!(decode_transfer_params(&bytes), Err(SPVMError::SerializationError)));
}

#[test]
fn unknown_discriminant_is_rejected() {
    let content = TransactionContent {
        from: "a".to_string(),
        tx_type: TxType::Mint,
        tx_param: vec![],
        nonce: 0,
    };
    let mut bytes = encode_transaction_content(&content);
    // The kind discriminant sits right after the length-prefixed sender
    // string: 8 bytes of length, then one byte of "a".
    assert_eq!(bytes[9], 0);
    bytes[9] = 7;
    assert!(matches!(
        decode_transaction_content(&bytes),
        Err(SPVMError::SerializationError)
    ));
}

#[test]
fn invalid_utf8_is_rejected() {
    let params = MintTransactionParams {
        token_ticker: "AAAA".to_string(),
        owner: "b".to_string(),
        supply: 1,
    };
    let mut bytes = encode_mint_params(&params);
    // Corrupt one byte of the ticker into an invalid UTF-8 byte.
    assert_eq!(bytes[8], b'A');
    bytes[8] = 0xff;
    assert!(matches!(decode_mint_params(&bytes), Err(SPVMError::SerializationError)));
}

#[test]
fn encoding_layout_is_stable() {
    // Little-endian integers, 64-bit length prefixes, one discriminant byte.
    let params = MintTransactionParams {
        token_ticker: "AB".to_string(),
        owner: "c".to_string(),
        supply: 0x0102,
    };
    let bytes = encode_mint_params(&params);
    let expected = vec![
        2, 0, 0, 0, 0, 0, 0, 0, b'A', b'B', // ticker
        1, 0, 0, 0, 0, 0, 0, 0, b'c', // owner
        0x02, 0x01, // supply, little endian
    ];
    assert_eq!(bytes, expected);
}
