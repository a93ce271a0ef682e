//! Solana public keys as they appear inside Borsh-encoded events.
use vstd::prelude::*;

verus! {

/// A 32-byte Solana public key.
#[derive(Clone, Copy, PartialEq, Eq, Hash, Debug)]
pub struct Pubkey(pub [u8; 32]);

impl View for Pubkey {
    type V = Seq<u8>;

    open spec fn view(&self) -> Seq<u8> {
        self.0@
    }
}

/// The Base58 text (Bitcoin alphabet) of `bytes`, as the `bs58` crate encodes it.
pub uninterp spec fn base58_encoded(bytes: Seq<u8>) -> Seq<char>;

/// Encodes a key with `bs58::encode(..).into_string()`, which uses the Bitcoin
/// alphabet; the text is named `base58_encoded` of the key's bytes.
#[verifier::external_body]
fn bs58_encode_key(bytes: &[u8; 32]) -> (text: String)
    ensures
        text@ == base58_encoded(bytes@),
{
    bs58::encode(bytes).into_string()
}

impl Pubkey {
    /// The key in Base58, the form in which Solana shows account addresses.
    pub fn to_string(&self) -> (text: String)
        ensures
            text@ == base58_encoded(self@),
    {
        bs58_encode_key(&self.0)
    }
}

} // verus!
