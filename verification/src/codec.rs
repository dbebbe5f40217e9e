//! The byte codec for transaction structures.
//!
//! The encoding is deterministic and self-describing: integers are fixed
//! width little endian, strings and byte arrays carry a 64-bit length
//! prefix, and a transaction kind is a single discriminant byte.  The spec
//! functions `enc_*` define the encoding of each structure's view, the
//! `dec_*` functions define the unique parse of a byte sequence, and the
//! round-trip lemmas prove that every encoded value parses back to itself.

use vstd::prelude::*;

verus! {

use vstd::bytes::spec_u16_to_le_bytes;
use vstd::bytes::spec_u16_from_le_bytes;
use vstd::bytes::spec_u32_to_le_bytes;
use vstd::bytes::spec_u32_from_le_bytes;
use vstd::bytes::spec_u64_to_le_bytes;
use vstd::bytes::spec_u64_from_le_bytes;
use vstd::bytes::lemma_auto_spec_u16_to_from_le_bytes;
use vstd::bytes::lemma_auto_spec_u32_to_from_le_bytes;
use vstd::bytes::lemma_auto_spec_u64_to_from_le_bytes;
use vstd::bytes::u16_from_le_bytes;
use vstd::bytes::u16_to_le_bytes;
use vstd::bytes::u32_from_le_bytes;
use vstd::bytes::u32_to_le_bytes;
use vstd::bytes::u64_from_le_bytes;
use vstd::bytes::u64_to_le_bytes;
use vstd::slice::slice_subrange;
use vstd::slice::slice_index_get;
use vstd::slice::slice_to_vec;
use vstd::utf8::valid_utf8;
use vstd::utf8::encode_utf8;
use vstd::utf8::decode_utf8;
use vstd::utf8::encode_utf8_valid_utf8;
use vstd::utf8::encode_utf8_decode_utf8;
use crate::types::MintParamsView;
use crate::types::MintTransactionParams;
use crate::types::SPVMError;
use crate::types::SPVMTransaction;
use crate::types::TransactionContent;
use crate::types::TransactionContentView;
use crate::types::TransactionView;
use crate::types::TransferParamsView;
use crate::types::TransferTransactionParams;
use crate::types::TxType;

// ---------------------------------------------------------------------------
// Specification of the encoding
// ---------------------------------------------------------------------------

pub open spec fn enc_u16(v: u16) -> Seq<u8> {
    spec_u16_to_le_bytes(v)
}

pub open spec fn enc_u32(v: u32) -> Seq<u8> {
    spec_u32_to_le_bytes(v)
}

pub open spec fn enc_u64(v: u64) -> Seq<u8> {
    spec_u64_to_le_bytes(v)
}

/// A byte array: 64-bit little-endian length prefix, then the bytes.
pub open spec fn enc_bytes(s: Seq<u8>) -> Seq<u8> {
    enc_u64(s.len() as u64) + s
}

/// A string: its UTF-8 bytes as a length-prefixed byte array.
pub open spec fn enc_str(s: Seq<char>) -> Seq<u8> {
    enc_bytes(encode_utf8(s))
}

/// A transaction kind: one discriminant byte.
pub open spec fn enc_tx_type(t: TxType) -> Seq<u8> {
    match t {
        TxType::Mint => seq![0u8],
        TxType::Transfer => seq![1u8],
    }
}

pub open spec fn enc_mint_params(m: MintParamsView) -> Seq<u8> {
    enc_str(m.token_ticker) + enc_str(m.owner) + enc_u16(m.supply)
}

pub open spec fn enc_transfer_params(p: TransferParamsView) -> Seq<u8> {
    enc_str(p.token_ticker) + enc_str(p.to) + enc_u16(p.amount)
}

pub open spec fn enc_content(c: TransactionContentView) -> Seq<u8> {
    enc_str(c.from) + enc_tx_type(c.tx_type) + enc_bytes(c.tx_param) + enc_u32(c.nonce)
}

pub open spec fn enc_transaction(t: TransactionView) -> Seq<u8> {
    enc_content(t.tx_content) + enc_bytes(t.transaction_hash) + enc_bytes(t.signature)
}

/// A string view short enough for its length prefix; every executable
/// string satisfies this.
pub open spec fn str_fits(s: Seq<char>) -> bool {
    encode_utf8(s).len() <= u64::MAX
}

pub open spec fn bytes_fit(s: Seq<u8>) -> bool {
    s.len() <= u64::MAX
}

pub open spec fn mint_params_fit(m: MintParamsView) -> bool {
    str_fits(m.token_ticker) && str_fits(m.owner)
}

pub open spec fn transfer_params_fit(p: TransferParamsView) -> bool {
    str_fits(p.token_ticker) && str_fits(p.to)
}

pub open spec fn content_fits(c: TransactionContentView) -> bool {
    str_fits(c.from) && bytes_fit(c.tx_param)
}

pub open spec fn transaction_fits(t: TransactionView) -> bool {
    content_fits(t.tx_content) && bytes_fit(t.transaction_hash) && bytes_fit(t.signature)
}

// ---------------------------------------------------------------------------
// Specification of the parse
// ---------------------------------------------------------------------------

pub open spec fn dec_u16_at(b: Seq<u8>, pos: int) -> Option<(u16, int)> {
    if 0 <= pos && pos + 2 <= b.len() {
        Some((spec_u16_from_le_bytes(b.subrange(pos, pos + 2)), pos + 2))
    } else {
        None
    }
}

pub open spec fn dec_u32_at(b: Seq<u8>, pos: int) -> Option<(u32, int)> {
    if 0 <= pos && pos + 4 <= b.len() {
        Some((spec_u32_from_le_bytes(b.subrange(pos, pos + 4)), pos + 4))
    } else {
        None
    }
}

pub open spec fn dec_u64_at(b: Seq<u8>, pos: int) -> Option<(u64, int)> {
    if 0 <= pos && pos + 8 <= b.len() {
        Some((spec_u64_from_le_bytes(b.subrange(pos, pos + 8)), pos + 8))
    } else {
        None
    }
}

pub open spec fn dec_bytes_at(b: Seq<u8>, pos: int) -> Option<(Seq<u8>, int)> {
    match dec_u64_at(b, pos) {
        Some((n, p)) => if p + n <= b.len() {
            Some((b.subrange(p, p + n), p + n))
        } else {
            None
        },
        None => None,
    }
}

pub open spec fn dec_str_at(b: Seq<u8>, pos: int) -> Option<(Seq<char>, int)> {
    match dec_bytes_at(b, pos) {
        Some((bs, p)) => if valid_utf8(bs) {
            Some((decode_utf8(bs), p))
        } else {
            None
        },
        None => None,
    }
}

pub open spec fn dec_tx_type_at(b: Seq<u8>, pos: int) -> Option<(TxType, int)> {
    if 0 <= pos && pos + 1 <= b.len() {
        if b[pos] == 0 {
            Some((TxType::Mint, pos + 1))
        } else if b[pos] == 1 {
            Some((TxType::Transfer, pos + 1))
        } else {
            None
        }
    } else {
        None
    }
}

pub open spec fn dec_mint_params_at(b: Seq<u8>, pos: int) -> Option<(MintParamsView, int)> {
    match dec_str_at(b, pos) {
        Some((token_ticker, p1)) => match dec_str_at(b, p1) {
            Some((owner, p2)) => match dec_u16_at(b, p2) {
                Some((supply, p3)) => Some((MintParamsView { token_ticker, owner, supply }, p3)),
                None => None,
            },
            None => None,
        },
        None => None,
    }
}

pub open spec fn dec_transfer_params_at(b: Seq<u8>, pos: int) -> Option<(TransferParamsView, int)> {
    match dec_str_at(b, pos) {
        Some((token_ticker, p1)) => match dec_str_at(b, p1) {
            Some((to, p2)) => match dec_u16_at(b, p2) {
                Some((amount, p3)) => Some((TransferParamsView { token_ticker, to, amount }, p3)),
                None => None,
            },
            None => None,
        },
        None => None,
    }
}

pub open spec fn dec_content_at(b: Seq<u8>, pos: int) -> Option<(TransactionContentView, int)> {
    match dec_str_at(b, pos) {
        Some((from, p1)) => match dec_tx_type_at(b, p1) {
            Some((tx_type, p2)) => match dec_bytes_at(b, p2) {
                Some((tx_param, p3)) => match dec_u32_at(b, p3) {
                    Some((nonce, p4)) => Some(
                        (TransactionContentView { from, tx_type, tx_param, nonce }, p4),
                    ),
                    None => None,
                },
                None => None,
            },
            None => None,
        },
        None => None,
    }
}

pub open spec fn dec_transaction_at(b: Seq<u8>, pos: int) -> Option<(TransactionView, int)> {
    match dec_content_at(b, pos) {
        Some((tx_content, p1)) => match dec_bytes_at(b, p1) {
            Some((transaction_hash, p2)) => match dec_bytes_at(b, p2) {
                Some((signature, p3)) => Some(
                    (TransactionView { tx_content, transaction_hash, signature }, p3),
                ),
                None => None,
            },
            None => None,
        },
        None => None,
    }
}

/// The unique full parse of `b` as mint parameters, if any.
pub open spec fn dec_mint_params(b: Seq<u8>) -> Option<MintParamsView> {
    match dec_mint_params_at(b, 0) {
        Some((m, p)) => if p == b.len() {
            Some(m)
        } else {
            None
        },
        None => None,
    }
}

/// The unique full parse of `b` as transfer parameters, if any.
pub open spec fn dec_transfer_params(b: Seq<u8>) -> Option<TransferParamsView> {
    match dec_transfer_params_at(b, 0) {
        Some((p, end)) => if end == b.len() {
            Some(p)
        } else {
            None
        },
        None => None,
    }
}

/// The unique full parse of `b` as a transaction content, if any.
pub open spec fn dec_content(b: Seq<u8>) -> Option<TransactionContentView> {
    match dec_content_at(b, 0) {
        Some((c, end)) => if end == b.len() {
            Some(c)
        } else {
            None
        },
        None => None,
    }
}

/// The unique full parse of `b` as a transaction envelope, if any.
pub open spec fn dec_transaction(b: Seq<u8>) -> Option<TransactionView> {
    match dec_transaction_at(b, 0) {
        Some((t, end)) => if end == b.len() {
            Some(t)
        } else {
            None
        },
        None => None,
    }
}

// ---------------------------------------------------------------------------
// Encoders
// ---------------------------------------------------------------------------

fn push_u16(out: &mut Vec<u8>, v: u16)
    ensures
        final(out)@ == old(out)@ + enc_u16(v),
{
    let mut tail = u16_to_le_bytes(v);
    out.append(&mut tail);
}

fn push_u32(out: &mut Vec<u8>, v: u32)
    ensures
        final(out)@ == old(out)@ + enc_u32(v),
{
    let mut tail = u32_to_le_bytes(v);
    out.append(&mut tail);
}

fn push_u64(out: &mut Vec<u8>, v: u64)
    ensures
        final(out)@ == old(out)@ + enc_u64(v),
{
    let mut tail = u64_to_le_bytes(v);
    out.append(&mut tail);
}

fn push_bytes_field(out: &mut Vec<u8>, field: &[u8])
    ensures
        final(out)@ == old(out)@ + enc_bytes(field@),
{
    push_u64(out, field.len() as u64);
    let mut tail = slice_to_vec(field);
    out.append(&mut tail);
    proof {
        assert(old(out)@ + enc_bytes(field@) =~= (old(out)@ + enc_u64(field@.len() as u64))
            + field@);
    }
}

fn push_str_field(out: &mut Vec<u8>, field: &str)
    ensures
        final(out)@ == old(out)@ + enc_str(field@),
{
    push_bytes_field(out, field.as_bytes());
}

fn push_tx_type(out: &mut Vec<u8>, t: TxType)
    ensures
        final(out)@ == old(out)@ + enc_tx_type(t),
{
    match t {
        TxType::Mint => out.push(0u8),
        TxType::Transfer => out.push(1u8),
    }
    proof {
        assert(final(out)@ =~= old(out)@ + enc_tx_type(t));
    }
}

/// Encodes mint parameters; the result is exactly `enc_mint_params` of the view.
pub fn encode_mint_params(p: &MintTransactionParams) -> (r: Vec<u8>)
    ensures
        r@ == enc_mint_params(p@),
{
    let mut out: Vec<u8> = Vec::new();
    push_str_field(&mut out, p.token_ticker.as_str());
    push_str_field(&mut out, p.owner.as_str());
    push_u16(&mut out, p.supply);
    proof {
        assert(out@ =~= enc_mint_params(p@));
    }
    out
}

/// Encodes transfer parameters; the result is exactly `enc_transfer_params` of the view.
pub fn encode_transfer_params(p: &TransferTransactionParams) -> (r: Vec<u8>)
    ensures
        r@ == enc_transfer_params(p@),
{
    let mut out: Vec<u8> = Vec::new();
    push_str_field(&mut out, p.token_ticker.as_str());
    push_str_field(&mut out, p.to.as_str());
    push_u16(&mut out, p.amount);
    proof {
        assert(out@ =~= enc_transfer_params(p@));
    }
    out
}

/// Encodes a transaction content; the result is exactly `enc_content` of the view.
pub fn encode_transaction_content(c: &TransactionContent) -> (r: Vec<u8>)
    ensures
        r@ == enc_content(c@),
{
    let mut out: Vec<u8> = Vec::new();
    push_str_field(&mut out, c.from.as_str());
    push_tx_type(&mut out, c.tx_type);
    push_bytes_field(&mut out, c.tx_param.as_slice());
    push_u32(&mut out, c.nonce);
    proof {
        assert(out@ =~= enc_content(c@));
    }
    out
}

/// Encodes a transaction envelope; the result is exactly `enc_transaction` of the view.
pub fn encode_transaction(t: &SPVMTransaction) -> (r: Vec<u8>)
    ensures
        r@ == enc_transaction(t@),
{
    let mut out = encode_transaction_content(&t.tx_content);
    push_bytes_field(&mut out, t.transaction_hash.as_slice());
    push_bytes_field(&mut out, t.signature.as_slice());
    proof {
        assert(out@ =~= enc_transaction(t@));
    }
    out
}

// ---------------------------------------------------------------------------
// Decoders
// ---------------------------------------------------------------------------

/// Relies on `String::from_utf8`: it succeeds exactly on valid UTF-8 byte
/// sequences and then returns the string those bytes spell.
#[verifier::external_body]
fn string_from_utf8(bytes: Vec<u8>) -> (r: Option<String>)
    ensures
        match r {
            Some(s) => valid_utf8(bytes@) && s@ == decode_utf8(bytes@),
            None => !valid_utf8(bytes@),
        },
{
    match String::from_utf8(bytes) {
        Ok(s) => Some(s),
        Err(_) => None,
    }
}

fn take_u16(b: &[u8], pos: usize) -> (r: Option<(u16, usize)>)
    ensures
        match r {
            Some((v, p)) => dec_u16_at(b@, pos as int) == Some((v, p as int)),
            None => dec_u16_at(b@, pos as int) is None,
        },
{
    if b.len() >= 2 && pos <= b.len() - 2 {
        let v = u16_from_le_bytes(slice_subrange(b, pos, pos + 2));
        Some((v, pos + 2))
    } else {
        None
    }
}

fn take_u32(b: &[u8], pos: usize) -> (r: Option<(u32, usize)>)
    ensures
        match r {
            Some((v, p)) => dec_u32_at(b@, pos as int) == Some((v, p as int)),
            None => dec_u32_at(b@, pos as int) is None,
        },
{
    if b.len() >= 4 && pos <= b.len() - 4 {
        let v = u32_from_le_bytes(slice_subrange(b, pos, pos + 4));
        Some((v, pos + 4))
    } else {
        None
    }
}

fn take_u64(b: &[u8], pos: usize) -> (r: Option<(u64, usize)>)
    ensures
        match r {
            Some((v, p)) => dec_u64_at(b@, pos as int) == Some((v, p as int)),
            None => dec_u64_at(b@, pos as int) is None,
        },
{
    if b.len() >= 8 && pos <= b.len() - 8 {
        let v = u64_from_le_bytes(slice_subrange(b, pos, pos + 8));
        Some((v, pos + 8))
    } else {
        None
    }
}

fn take_tx_type(b: &[u8], pos: usize) -> (r: Option<(TxType, usize)>)
    ensures
        match r {
            Some((t, p)) => dec_tx_type_at(b@, pos as int) == Some((t, p as int)),
            None => dec_tx_type_at(b@, pos as int) is None,
        },
{
    if pos < b.len() {
        let d = *slice_index_get(b, pos);
        if d == 0 {
            Some((TxType::Mint, pos + 1))
        } else if d == 1 {
            Some((TxType::Transfer, pos + 1))
        } else {
            None
        }
    } else {
        None
    }
}

fn take_bytes(b: &[u8], pos: usize) -> (r: Option<(Vec<u8>, usize)>)
    ensures
        match r {
            Some((v, p)) => dec_bytes_at(b@, pos as int) == Some((v@, p as int)),
            None => dec_bytes_at(b@, pos as int) is None,
        },
{
    match take_u64(b, pos) {
        Some((n, p)) => {
            if n <= (b.len() - p) as u64 {
                let end = p + (n as usize);
                let v = slice_to_vec(slice_subrange(b, p, end));
                Some((v, end))
            } else {
                None
            }
        },
        None => None,
    }
}

fn take_str(b: &[u8], pos: usize) -> (r: Option<(String, usize)>)
    ensures
        match r {
            Some((s, p)) => dec_str_at(b@, pos as int) == Some((s@, p as int)),
            None => dec_str_at(b@, pos as int) is None,
        },
{
    match take_bytes(b, pos) {
        Some((bs, p)) => match string_from_utf8(bs) {
            Some(s) => Some((s, p)),
            None => None,
        },
        None => None,
    }
}

fn take_content(b: &[u8], pos: usize) -> (r: Option<(TransactionContent, usize)>)
    ensures
        match r {
            Some((c, p)) => dec_content_at(b@, pos as int) == Some((c@, p as int)),
            None => dec_content_at(b@, pos as int) is None,
        },
{
    match take_str(b, pos) {
        Some((from, p1)) => match take_tx_type(b, p1) {
            Some((tx_type, p2)) => match take_bytes(b, p2) {
                Some((tx_param, p3)) => match take_u32(b, p3) {
                    Some((nonce, p4)) => Some(
                        (TransactionContent { from, tx_type, tx_param, nonce }, p4),
                    ),
                    None => None,
                },
                None => None,
            },
            None => None,
        },
        None => None,
    }
}

/// Decodes mint parameters; succeeds exactly when the bytes are the full
/// encoding of some mint parameter value, and then returns that value.
pub fn decode_mint_params(bytes: &[u8]) -> (r: Result<MintTransactionParams, SPVMError>)
    ensures
        match r {
            Ok(p) => dec_mint_params(bytes@) == Some(p@),
            Err(e) => e == SPVMError::SerializationError && dec_mint_params(bytes@) is None,
        },
{
    match take_str(bytes, 0) {
        Some((token_ticker, p1)) => match take_str(bytes, p1) {
            Some((owner, p2)) => match take_u16(bytes, p2) {
                Some((supply, p3)) => {
                    if p3 == bytes.len() {
                        Ok(MintTransactionParams { token_ticker, owner, supply })
                    } else {
                        Err(SPVMError::SerializationError)
                    }
                },
                None => Err(SPVMError::SerializationError),
            },
            None => Err(SPVMError::SerializationError),
        },
        None => Err(SPVMError::SerializationError),
    }
}

/// Decodes transfer parameters; succeeds exactly when the bytes are the
/// full encoding of some transfer parameter value, and then returns it.
pub fn decode_transfer_params(bytes: &[u8]) -> (r: Result<TransferTransactionParams, SPVMError>)
    ensures
        match r {
            Ok(p) => dec_transfer_params(bytes@) == Some(p@),
            Err(e) => e == SPVMError::SerializationError && dec_transfer_params(bytes@) is None,
        },
{
    match take_str(bytes, 0) {
        Some((token_ticker, p1)) => match take_str(bytes, p1) {
            Some((to, p2)) => match take_u16(bytes, p2) {
                Some((amount, p3)) => {
                    if p3 == bytes.len() {
                        Ok(TransferTransactionParams { token_ticker, to, amount })
                    } else {
                        Err(SPVMError::SerializationError)
                    }
                },
                None => Err(SPVMError::SerializationError),
            },
            None => Err(SPVMError::SerializationError),
        },
        None => Err(SPVMError::SerializationError),
    }
}

/// Decodes a transaction content; succeeds exactly when the bytes are the
/// full encoding of some content, and then returns that content.
pub fn decode_transaction_content(bytes: &[u8]) -> (r: Result<TransactionContent, SPVMError>)
    ensures
        match r {
            Ok(c) => dec_content(bytes@) == Some(c@),
            Err(e) => e == SPVMError::SerializationError && dec_content(bytes@) is None,
        },
{
    match take_content(bytes, 0) {
        Some((c, end)) => {
            if end == bytes.len() {
                Ok(c)
            } else {
                Err(SPVMError::SerializationError)
            }
        },
        None => Err(SPVMError::SerializationError),
    }
}

/// Decodes a transaction envelope; succeeds exactly when the bytes are the
/// full encoding of some envelope, and then returns that envelope.
pub fn decode_transaction(bytes: &[u8]) -> (r: Result<SPVMTransaction, SPVMError>)
    ensures
        match r {
            Ok(t) => dec_transaction(bytes@) == Some(t@),
            Err(e) => e == SPVMError::SerializationError && dec_transaction(bytes@) is None,
        },
{
    match take_content(bytes, 0) {
        Some((tx_content, p1)) => match take_bytes(bytes, p1) {
            Some((transaction_hash, p2)) => match take_bytes(bytes, p2) {
                Some((signature, p3)) => {
                    if p3 == bytes.len() {
                        Ok(SPVMTransaction { tx_content, transaction_hash, signature })
                    } else {
                        Err(SPVMError::SerializationError)
                    }
                },
                None => Err(SPVMError::SerializationError),
            },
            None => Err(SPVMError::SerializationError),
        },
        None => Err(SPVMError::SerializationError),
    }
}

// ---------------------------------------------------------------------------
// Round trip: every encoded value parses back to itself
// ---------------------------------------------------------------------------

/// When a concatenation `x + y` sits at `pos` in `b`, its two parts sit at
/// `pos` and `pos + x.len()`.
proof fn lemma_subrange_split(b: Seq<u8>, pos: int, x: Seq<u8>, y: Seq<u8>)
    requires
        0 <= pos,
        pos + x.len() + y.len() <= b.len(),
        b.subrange(pos, pos + x.len() + y.len()) == x + y,
    ensures
        b.subrange(pos, pos + x.len()) == x,
        b.subrange(pos + x.len(), pos + x.len() + y.len()) == y,
{
    let whole = b.subrange(pos, pos + x.len() + y.len());
    assert forall|i: int| 0 <= i < x.len() implies b.subrange(pos, pos + x.len())[i] == x[i] by {
        assert(whole[i] == (x + y)[i]);
    }
    assert(b.subrange(pos, pos + x.len()) =~= x);
    assert forall|i: int|
        0 <= i < y.len() implies b.subrange(pos + x.len(), pos + x.len() + y.len())[i] == y[i] by {
        assert(whole[x.len() + i] == (x + y)[x.len() + i]);
    }
    assert(b.subrange(pos + x.len(), pos + x.len() + y.len()) =~= y);
}

proof fn lemma_dec_u16_embedded(b: Seq<u8>, pos: int, v: u16)
    requires
        0 <= pos,
        pos + 2 <= b.len(),
        b.subrange(pos, pos + 2) == enc_u16(v),
    ensures
        dec_u16_at(b, pos) == Some((v, pos + 2)),
{
    lemma_auto_spec_u16_to_from_le_bytes();
    assert(spec_u16_to_le_bytes(v).len() == 2);
    assert(spec_u16_from_le_bytes(spec_u16_to_le_bytes(v)) == v);
}

proof fn lemma_dec_u32_embedded(b: Seq<u8>, pos: int, v: u32)
    requires
        0 <= pos,
        pos + 4 <= b.len(),
        b.subrange(pos, pos + 4) == enc_u32(v),
    ensures
        dec_u32_at(b, pos) == Some((v, pos + 4)),
{
    lemma_auto_spec_u32_to_from_le_bytes();
    assert(spec_u32_to_le_bytes(v).len() == 4);
    assert(spec_u32_from_le_bytes(spec_u32_to_le_bytes(v)) == v);
}

proof fn lemma_dec_u64_embedded(b: Seq<u8>, pos: int, v: u64)
    requires
        0 <= pos,
        pos + 8 <= b.len(),
        b.subrange(pos, pos + 8) == enc_u64(v),
    ensures
        dec_u64_at(b, pos) == Some((v, pos + 8)),
{
    lemma_auto_spec_u64_to_from_le_bytes();
    assert(spec_u64_to_le_bytes(v).len() == 8);
    assert(spec_u64_from_le_bytes(spec_u64_to_le_bytes(v)) == v);
}

proof fn lemma_dec_tx_type_embedded(b: Seq<u8>, pos: int, t: TxType)
    requires
        0 <= pos,
        pos + 1 <= b.len(),
        b.subrange(pos, pos + 1) == enc_tx_type(t),
    ensures
        dec_tx_type_at(b, pos) == Some((t, pos + 1)),
{
    assert(b[pos] == b.subrange(pos, pos + 1)[0]);
}

proof fn lemma_dec_bytes_embedded(b: Seq<u8>, pos: int, s: Seq<u8>)
    requires
        0 <= pos,
        bytes_fit(s),
        pos + enc_bytes(s).len() <= b.len(),
        b.subrange(pos, pos + enc_bytes(s).len()) == enc_bytes(s),
    ensures
        dec_bytes_at(b, pos) == Some((s, pos + enc_bytes(s).len())),
{
    lemma_auto_spec_u64_to_from_le_bytes();
    lemma_subrange_split(b, pos, enc_u64(s.len() as u64), s);
    lemma_dec_u64_embedded(b, pos, s.len() as u64);
}

proof fn lemma_dec_str_embedded(b: Seq<u8>, pos: int, s: Seq<char>)
    requires
        0 <= pos,
        str_fits(s),
        pos + enc_str(s).len() <= b.len(),
        b.subrange(pos, pos + enc_str(s).len()) == enc_str(s),
    ensures
        dec_str_at(b, pos) == Some((s, pos + enc_str(s).len())),
{
    lemma_dec_bytes_embedded(b, pos, encode_utf8(s));
    encode_utf8_valid_utf8(s);
    encode_utf8_decode_utf8(s);
}

proof fn lemma_dec_mint_params_embedded(b: Seq<u8>, pos: int, m: MintParamsView)
    requires
        0 <= pos,
        mint_params_fit(m),
        pos + enc_mint_params(m).len() <= b.len(),
        b.subrange(pos, pos + enc_mint_params(m).len()) == enc_mint_params(m),
    ensures
        dec_mint_params_at(b, pos) == Some((m, pos + enc_mint_params(m).len())),
{
    let e1 = enc_str(m.token_ticker);
    let e2 = enc_str(m.owner);
    let e3 = enc_u16(m.supply);
    lemma_auto_spec_u16_to_from_le_bytes();
    lemma_auto_spec_u64_to_from_le_bytes();
    lemma_subrange_split(b, pos, e1 + e2, e3);
    lemma_subrange_split(b, pos, e1, e2);
    lemma_dec_str_embedded(b, pos, m.token_ticker);
    lemma_dec_str_embedded(b, pos + e1.len(), m.owner);
    lemma_dec_u16_embedded(b, pos + e1.len() + e2.len(), m.supply);
}

proof fn lemma_dec_transfer_params_embedded(b: Seq<u8>, pos: int, p: TransferParamsView)
    requires
        0 <= pos,
        transfer_params_fit(p),
        pos + enc_transfer_params(p).len() <= b.len(),
        b.subrange(pos, pos + enc_transfer_params(p).len()) == enc_transfer_params(p),
    ensures
        dec_transfer_params_at(b, pos) == Some((p, pos + enc_transfer_params(p).len())),
{
    let e1 = enc_str(p.token_ticker);
    let e2 = enc_str(p.to);
    let e3 = enc_u16(p.amount);
    lemma_auto_spec_u16_to_from_le_bytes();
    lemma_auto_spec_u64_to_from_le_bytes();
    lemma_subrange_split(b, pos, e1 + e2, e3);
    lemma_subrange_split(b, pos, e1, e2);
    lemma_dec_str_embedded(b, pos, p.token_ticker);
    lemma_dec_str_embedded(b, pos + e1.len(), p.to);
    lemma_dec_u16_embedded(b, pos + e1.len() + e2.len(), p.amount);
}

proof fn lemma_dec_content_embedded(b: Seq<u8>, pos: int, c: TransactionContentView)
    requires
        0 <= pos,
        content_fits(c),
        pos + enc_content(c).len() <= b.len(),
        b.subrange(pos, pos + enc_content(c).len()) == enc_content(c),
    ensures
        dec_content_at(b, pos) == Some((c, pos + enc_content(c).len())),
{
    let e1 = enc_str(c.from);
    let e2 = enc_tx_type(c.tx_type);
    let e3 = enc_bytes(c.tx_param);
    let e4 = enc_u32(c.nonce);
    lemma_auto_spec_u32_to_from_le_bytes();
    lemma_auto_spec_u64_to_from_le_bytes();
    lemma_subrange_split(b, pos, e1 + e2 + e3, e4);
    lemma_subrange_split(b, pos, e1 + e2, e3);
    lemma_subrange_split(b, pos, e1, e2);
    lemma_dec_str_embedded(b, pos, c.from);
    lemma_dec_tx_type_embedded(b, pos + e1.len(), c.tx_type);
    lemma_dec_bytes_embedded(b, pos + e1.len() + e2.len(), c.tx_param);
    lemma_dec_u32_embedded(b, pos + e1.len() + e2.len() + e3.len(), c.nonce);
}

proof fn lemma_dec_transaction_embedded(b: Seq<u8>, pos: int, t: TransactionView)
    requires
        0 <= pos,
        transaction_fits(t),
        pos + enc_transaction(t).len() <= b.len(),
        b.subrange(pos, pos + enc_transaction(t).len()) == enc_transaction(t),
    ensures
        dec_transaction_at(b, pos) == Some((t, pos + enc_transaction(t).len())),
{
    let e1 = enc_content(t.tx_content);
    let e2 = enc_bytes(t.transaction_hash);
    let e3 = enc_bytes(t.signature);
    lemma_auto_spec_u64_to_from_le_bytes();
    lemma_subrange_split(b, pos, e1 + e2, e3);
    lemma_subrange_split(b, pos, e1, e2);
    lemma_dec_content_embedded(b, pos, t.tx_content);
    lemma_dec_bytes_embedded(b, pos + e1.len(), t.transaction_hash);
    lemma_dec_bytes_embedded(b, pos + e1.len() + e2.len(), t.signature);
}

/// Round trip for mint parameters: decoding an encoding returns the value.
pub proof fn lemma_mint_params_round_trip(m: MintParamsView)
    requires
        mint_params_fit(m),
    ensures
        dec_mint_params(enc_mint_params(m)) == Some(m),
{
    let b = enc_mint_params(m);
    assert(b.subrange(0, b.len() as int) =~= b);
    lemma_dec_mint_params_embedded(b, 0, m);
}

/// Round trip for transfer parameters: decoding an encoding returns the value.
pub proof fn lemma_transfer_params_round_trip(p: TransferParamsView)
    requires
        transfer_params_fit(p),
    ensures
        dec_transfer_params(enc_transfer_params(p)) == Some(p),
{
    let b = enc_transfer_params(p);
    assert(b.subrange(0, b.len() as int) =~= b);
    lemma_dec_transfer_params_embedded(b, 0, p);
}

/// Round trip for transaction contents: decoding an encoding returns the value.
pub proof fn lemma_content_round_trip(c: TransactionContentView)
    requires
        content_fits(c),
    ensures
        dec_content(enc_content(c)) == Some(c),
{
    let b = enc_content(c);
    assert(b.subrange(0, b.len() as int) =~= b);
    lemma_dec_content_embedded(b, 0, c);
}

/// Round trip for transaction envelopes: decoding an encoding returns the value.
pub proof fn lemma_transaction_round_trip(t: TransactionView)
    requires
        transaction_fits(t),
    ensures
        dec_transaction(enc_transaction(t)) == Some(t),
{
    let b = enc_transaction(t);
    assert(b.subrange(0, b.len() as int) =~= b);
    lemma_dec_transaction_embedded(b, 0, t);
}

/// The content encoding is injective: two contents with the same encoding
/// are the same content.
pub proof fn lemma_enc_content_injective(a: TransactionContentView, b: TransactionContentView)
    requires
        content_fits(a),
        content_fits(b),
        enc_content(a) == enc_content(b),
    ensures
        a == b,
{
    lemma_content_round_trip(a);
    lemma_content_round_trip(b);
}

} // verus!
