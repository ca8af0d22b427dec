//! Fixed-size identifiers of the ledger, held as raw bytes.

use solana_sdk::pubkey::Pubkey as SolanaPubkey;
use solana_sdk::signature::Signature as SolanaSignature;
use vstd::prelude::*;

verus! {

/// The public key of a validator or an account.
#[derive(Debug, Clone, Copy, PartialEq, Eq)]
pub struct Pubkey {
    pub bytes: [u8; 32],
}

/// A block hash.
#[derive(Debug, Clone, Copy, PartialEq, Eq)]
pub struct Blockhash {
    pub bytes: [u8; 32],
}

/// A transaction signature.
#[derive(Debug, Clone, Copy, PartialEq, Eq)]
pub struct Signature {
    pub bytes: [u8; 64],
}

impl View for Pubkey {
    type V = Seq<u8>;

    open spec fn view(&self) -> Seq<u8> {
        self.bytes@
    }
}

impl View for Blockhash {
    type V = Seq<u8>;

    open spec fn view(&self) -> Seq<u8> {
        self.bytes@
    }
}

impl View for Signature {
    type V = Seq<u8>;

    open spec fn view(&self) -> Seq<u8> {
        self.bytes@
    }
}

/// Whether two runs of bytes are the same.
fn same_bytes<const N: usize>(left: &[u8; N], right: &[u8; N]) -> (same: bool)
    ensures
        same == (left@ == right@),
{
    let mut i: usize = 0;
    while i < N
        invariant
            i <= N,
            forall|j: int| 0 <= j < i ==> left@[j] == right@[j],
        decreases N - i,
    {
        if left[i] != right[i] {
            assert(left@[i as int] != right@[i as int]);
            return false;
        }
        i = i + 1;
    }
    assert(left@ =~= right@);
    true
}

/// The bytes that base-58 text stands for where it is the text of a public key, as
/// `solana_sdk::pubkey::Pubkey` reads it with its `FromStr`.
pub uninterp spec fn pubkey_from_text(text: Seq<char>) -> Option<Seq<u8>>;

/// The base-58 text of a signature, as `solana_sdk::signature::Signature` prints itself.
pub uninterp spec fn signature_to_text(bytes: Seq<u8>) -> Seq<char>;

/// Calls `<solana_sdk::pubkey::Pubkey as FromStr>::from_str`. Whether the text is that of a
/// key, and of which, depends on the text alone.
#[verifier::external_body]
fn parse_pubkey(text: &str) -> (key: Option<[u8; 32]>)
    ensures
        (match key {
            Some(bytes) => Some(bytes@),
            None => None,
        }) == pubkey_from_text(text@),
{
    match text.parse::<SolanaPubkey>() {
        Ok(key) => Some(key.to_bytes()),
        Err(_) => None,
    }
}

/// Calls `to_string` on a `solana_sdk::signature::Signature` made of the given bytes. The text
/// depends on the bytes alone.
#[verifier::external_body]
fn print_signature(bytes: &[u8; 64]) -> (text: String)
    ensures
        text@ == signature_to_text(bytes@),
{
    SolanaSignature::from(*bytes).to_string()
}

impl Pubkey {
    /// Reads a key from its base-58 text.
    pub fn from_text(text: &str) -> (key: Option<Self>)
        ensures
            (match key {
                Some(k) => Some(k@),
                None => None,
            }) == pubkey_from_text(text@),
    {
        match parse_pubkey(text) {
            Some(bytes) => Some(Pubkey { bytes }),
            None => None,
        }
    }

    /// Whether two keys are the same.
    pub fn same(&self, other: &Self) -> (same: bool)
        ensures
            same == (self@ == other@),
    {
        same_bytes(&self.bytes, &other.bytes)
    }
}

impl Blockhash {
    /// Whether two hashes are the same.
    pub fn same(&self, other: &Self) -> (same: bool)
        ensures
            same == (self@ == other@),
    {
        same_bytes(&self.bytes, &other.bytes)
    }
}

impl Signature {
    /// The base-58 text of the signature.
    pub fn to_text(&self) -> (text: String)
        ensures
            text@ == signature_to_text(self@),
    {
        print_signature(&self.bytes)
    }
}

} // verus!
