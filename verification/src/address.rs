//! Addresses of the chain, decoded from their base58 text.

use solana_sdk::pubkey::ParsePubkeyError;
use solana_sdk::pubkey::Pubkey;
use std::str::FromStr;
use vstd::prelude::*;

verus! {

/// A public key of the chain: 32 bytes.
#[derive(Debug, Clone, Copy, PartialEq, Eq)]
pub struct Address {
    pub bytes: [u8; 32],
}

/// Why a text is not an address.
#[derive(Debug, Clone, Copy, PartialEq, Eq, Structural)]
pub enum DecodeError {
    /// The text does not stand for exactly 32 bytes.
    WrongSize,
    /// The text holds a character outside the base58 alphabet.
    Invalid,
}

/// What `Pubkey::from_str` makes of a text: the 32 bytes of the key, or the
/// reason why it is none. The text alone decides it.
pub uninterp spec fn decoded_pubkey(text: Seq<char>) -> Result<Seq<u8>, DecodeError>;

/// Calls `Pubkey::from_str` of solana_sdk and hands back the key's bytes, or
/// the error by its variant. The contract claims only that the outcome is the
/// one named by `decoded_pubkey` for this text; a key always has 32 bytes.
#[verifier::external_body]
fn pubkey_from_str(text: &str) -> (decoded: Result<[u8; 32], DecodeError>)
    ensures
        match decoded {
            Ok(bytes) => decoded_pubkey(text@) == Ok::<Seq<u8>, DecodeError>(bytes@),
            Err(error) => decoded_pubkey(text@) == Err::<Seq<u8>, DecodeError>(error),
        },
{
    match Pubkey::from_str(text) {
        Ok(key) => Ok(key.to_bytes()),
        Err(ParsePubkeyError::WrongSize) => Err(DecodeError::WrongSize),
        Err(ParsePubkeyError::Invalid) => Err(DecodeError::Invalid),
    }
}

impl DecodeError {
    /// The error in words.
    pub fn message(&self) -> (text: String)
        ensures
            text@ == match *self {
                DecodeError::WrongSize => "String is the wrong size"@,
                DecodeError::Invalid => "Invalid Base58 string"@,
            },
    {
        match self {
            DecodeError::WrongSize => "String is the wrong size".to_string(),
            DecodeError::Invalid => "Invalid Base58 string".to_string(),
        }
    }
}

impl Address {
    /// The address that a base58 text stands for, or why it stands for none.
    pub fn parse(text: &str) -> (parsed: Result<Address, DecodeError>)
        ensures
            match parsed {
                Ok(address) => decoded_pubkey(text@) == Ok::<Seq<u8>, DecodeError>(address.bytes@),
                Err(error) => decoded_pubkey(text@) == Err::<Seq<u8>, DecodeError>(error),
            },
    {
        match pubkey_from_str(text) {
            Ok(bytes) => Ok(Address { bytes }),
            Err(error) => Err(error),
        }
    }
}

} // verus!
