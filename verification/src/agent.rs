//! The signing agent: the one account/private-key pair of the process, and
//! the construction of transfer descriptors from requests. Signing and
//! broadcast are performed by the embedding program; everything decided
//! locally — key validity, address validity, the descriptor's contents —
//! is decided here.

use vstd::prelude::*;
use crate::address::{addr_bytes_str, addr_ok_str, parse_address, Address};
use crate::types::{KeyMaterialError, SendTx, TransferError};

verus! {

#[verifier::external_type_specification]
#[verifier::external_body]
pub struct ExSecretKey(secp256k1::SecretKey);

/// Whether a string parses as a valid secp256k1 secret key: 64 hexadecimal
/// digits denoting a scalar in range.
pub uninterp spec fn secret_key_ok(s: Seq<char>) -> bool;

/// Relies on secp256k1::SecretKey::from_str: it parses 64 hexadecimal
/// digits and accepts exactly the well-formed, in-range secret scalars;
/// the outcome depends on the string alone.
#[verifier::external_body]
fn parse_secret_key(s: &str) -> (r: Result<secp256k1::SecretKey, ()>)
    ensures
        r is Ok <==> secret_key_ok(s@),
{
    match <secp256k1::SecretKey as core::str::FromStr>::from_str(s) {
        Ok(k) => Ok(k),
        Err(_) => Err(()),
    }
}

/// An unsigned transfer descriptor: destination and value in base units.
/// All other transaction fields are left to node defaults at signing time.
#[derive(Debug)]
pub struct TxDescriptor {
    pub to: Address,
    pub value: usize,
}

/// Holds the process's one account/private-key pair for its lifetime.
pub struct SigningAgent {
    pub key: secp256k1::SecretKey,
    pub account: Address,
}

impl SigningAgent {
    /// Resolves the agent from its secret material, failing fast if either
    /// the private key or the account address is malformed.
    pub fn new(secret: &str, account: &str) -> (r: Result<SigningAgent, KeyMaterialError>)
        ensures
            r is Ok <==> secret_key_ok(secret@) && addr_ok_str(account@),
            r is Ok ==> r->Ok_0.account@ == addr_bytes_str(account@),
            r == Err::<SigningAgent, _>(KeyMaterialError::BadSecret) <==> !secret_key_ok(secret@),
            r == Err::<SigningAgent, _>(KeyMaterialError::BadAccount) <==> secret_key_ok(secret@)
                && !addr_ok_str(account@),
    {
        let key = match parse_secret_key(secret) {
            Ok(k) => k,
            Err(_) => {
                return Err(KeyMaterialError::BadSecret);
            },
        };
        match parse_address(account) {
            Some(addr) => Ok(SigningAgent { key, account: addr }),
            None => Err(KeyMaterialError::BadAccount),
        }
    }

    /// Builds the unsigned transfer descriptor for a request: the parsed
    /// destination and the requested value in base units, which may be
    /// zero. Fails with `InvalidAddress` exactly when the destination is
    /// malformed, and makes no network call either way.
    pub fn build_transfer(&self, request: &SendTx) -> (r: Result<TxDescriptor, TransferError>)
        ensures
            r is Ok <==> addr_ok_str(request.to@),
            r is Ok ==> r->Ok_0.to@ == addr_bytes_str(request.to@) && r->Ok_0.value
                == request.amount,
            r is Err ==> r->Err_0 is InvalidAddress,
    {
        match parse_address(request.to.as_str()) {
            Some(to) => Ok(TxDescriptor { to, value: request.amount }),
            None => Err(TransferError::InvalidAddress),
        }
    }
}

} // verus!
