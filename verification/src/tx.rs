//! The erase transaction: an account revokes one of its nonce values and
//! pays a fee in a chosen token.
//!
//! The signature scheme itself is an outside collaborator. Its verdict is
//! modelled inside [`TxSignature`]: a signature value carries the signer key
//! hash the scheme recovers from it over the transaction bytes, or nothing
//! when recovery fails. The memoization of that verdict (the tri-state
//! cache) is part of this library and is verified.

use vstd::prelude::*;
use crate::helpers::{fee_packable, fee_packed_bytes, pack_fee_amount};
use crate::params::{MAX_ACCOUNT_ID, MAX_PROCESSABLE_TOKEN, CURRENT_TX_VERSION};
use crate::primitives::{be_bytes_n, u128_to_be_bytes, u32_to_be_bytes};

verus! {

/// Operation-type byte of the erase transaction.
pub const TX_TYPE: u8 = 12;

/// A 20-byte rollup address, split into its four high and sixteen low bytes.
#[derive(Clone, Copy, PartialEq, Eq, Structural, Debug)]
pub struct Address {
    pub hi: u32,
    pub lo: u128,
}

impl Address {
    /// The all-zero address.
    pub open spec fn zero_spec() -> Address {
        Address { hi: 0, lo: 0 }
    }

    /// The all-zero address.
    pub fn zero() -> (r: Address)
        ensures
            r == Address::zero_spec(),
    {
        Address { hi: 0, lo: 0 }
    }

    /// The 20 big-endian bytes of the address.
    pub open spec fn be_bytes(self) -> Seq<u8> {
        be_bytes_n(self.hi as nat, 4) + be_bytes_n(self.lo as nat, 16)
    }

    /// The 20 big-endian bytes of the address.
    pub fn to_be_bytes(&self) -> (r: Vec<u8>)
        ensures
            r@ == self.be_bytes(),
    {
        let mut out = u32_to_be_bytes(self.hi);
        let mut low = u128_to_be_bytes(self.lo, 16);
        out.append(&mut low);
        out
    }
}

/// Hash of an account's public key, split into its four high and sixteen
/// low bytes. The all-zero hash marks a locked account: one that has not
/// yet registered a signing key.
#[derive(Clone, Copy, PartialEq, Eq, Structural, Debug)]
pub struct PubKeyHash {
    pub hi: u32,
    pub lo: u128,
}

impl Default for PubKeyHash {
    /// The all-zero key hash of a locked account.
    fn default() -> (r: Self)
        ensures
            r == (PubKeyHash { hi: 0, lo: 0 }),
    {
        PubKeyHash { hi: 0, lo: 0 }
    }
}

/// Version of the signing-message layout a signature was checked against.
#[derive(Clone, Copy, PartialEq, Eq, Structural, Debug)]
pub enum TxVersion {
    Legacy,
    V1,
}

/// Model of a transaction signature. The signature collaborator recovers a
/// signer key hash from the signature over the transaction bytes; the model
/// carries that recovery verdict in the value itself: `Some` with the
/// recovered key hash for a valid signature, `None` for an invalid one.
#[derive(Clone, Copy, PartialEq, Eq, Structural, Debug)]
pub struct TxSignature {
    pub recovered_signer: Option<PubKeyHash>,
}

impl Default for TxSignature {
    /// The empty signature, from which no signer can be recovered.
    fn default() -> (r: Self)
        ensures
            r == (TxSignature { recovered_signer: None }),
    {
        TxSignature { recovered_signer: None }
    }
}

/// What signature verification yields for a given signature value.
pub open spec fn sig_verdict(sig: TxSignature) -> Option<(PubKeyHash, TxVersion)> {
    match sig.recovered_signer {
        Some(h) => Some((h, TxVersion::V1)),
        None => None,
    }
}

/// The tri-state cache of what verification said of the signature. It is
/// either still unknown or known with the result, and is written at most
/// once per transaction instance.
#[derive(Clone, Copy, PartialEq, Eq, Debug)]
pub enum VerifiedSignatureCache {
    NotCached,
    Cached(Option<(PubKeyHash, TxVersion)>),
}

/// Returned when a freshly signed transaction fails its own correctness
/// check.
#[derive(Clone, Copy, PartialEq, Eq, Structural, Debug)]
pub struct TransactionSignatureError;

/// The erase transaction record.
#[derive(Clone, Copy, PartialEq, Eq, Debug)]
pub struct Erase {
    pub account_id: u32,
    pub account: Address,
    pub nonce: u32,
    pub fee: u128,
    pub fee_token: u32,
    pub signature: TxSignature,
    /// Memo of the signature verdict; written through `new` and
    /// `check_correctness`, read through `verify_signature`.
    pub cached_signer: VerifiedSignatureCache,
}

impl Erase {
    /// The memoized signature verdict.
    pub open spec fn signer_cache(self) -> VerifiedSignatureCache {
        self.cached_signer
    }

    /// What `verify_signature` returns: the memo when one is present, the
    /// verdict on the signature value otherwise.
    pub open spec fn verify_spec(self) -> Option<(PubKeyHash, TxVersion)> {
        match self.signer_cache() {
            VerifiedSignatureCache::Cached(c) => c,
            VerifiedSignatureCache::NotCached => sig_verdict(self.signature),
        }
    }

    /// The transaction fields that the codec and the handler read; equal
    /// for two transactions that differ only in the signature memo.
    pub open spec fn same_payload(self, other: Erase) -> bool {
        &&& self.account_id == other.account_id
        &&& self.account == other.account
        &&& self.nonce == other.nonce
        &&& self.fee == other.fee
        &&& self.fee_token == other.fee_token
        &&& self.signature == other.signature
    }

    /// Build a transaction. With a signature supplied, its verdict is
    /// memoized at once; without one, the empty signature is stored and the
    /// memo stays unwritten.
    pub fn new(
        account_id: u32,
        account: Address,
        nonce: u32,
        fee: u128,
        fee_token: u32,
        signature: Option<TxSignature>,
    ) -> (r: Self)
        ensures
            r.account_id == account_id,
            r.account == account,
            r.nonce == nonce,
            r.fee == fee,
            r.fee_token == fee_token,
            r.signature == (match signature {
                Some(s) => s,
                None => TxSignature { recovered_signer: None },
            }),
            r.signer_cache() == (match signature {
                Some(s) => VerifiedSignatureCache::Cached(sig_verdict(s)),
                None => VerifiedSignatureCache::NotCached,
            }),
    {
        let sig = match signature {
            Some(s) => s,
            None => TxSignature { recovered_signer: None },
        };
        let mut tx = Erase {
            account_id,
            account,
            nonce,
            fee,
            fee_token,
            signature: sig,
            cached_signer: VerifiedSignatureCache::NotCached,
        };
        if signature.is_some() {
            let verdict = tx.verify_signature();
            tx.cached_signer = VerifiedSignatureCache::Cached(verdict);
        }
        tx
    }

    /// Build and sign a transaction. The signing key is an outside
    /// collaborator's value; what this library reads of it is the key hash
    /// the scheme derives from it, which the fresh signature then recovers.
    /// Fails exactly when the bound check of `check_correctness` fails.
    pub fn new_signed(
        account_id: u32,
        account: Address,
        nonce: u32,
        fee: u128,
        fee_token: u32,
        signer_key_hash: PubKeyHash,
    ) -> (r: Result<Self, TransactionSignatureError>)
        ensures
            account_id <= MAX_ACCOUNT_ID && fee_token <= MAX_PROCESSABLE_TOKEN ==> (r matches Ok(
            tx) && tx.account_id == account_id && tx.account == account && tx.nonce == nonce
                && tx.fee == fee && tx.fee_token == fee_token && tx.signature == (TxSignature {
                recovered_signer: Some(signer_key_hash),
            }) && tx.verify_spec() == Some((signer_key_hash, TxVersion::V1))),
            !(account_id <= MAX_ACCOUNT_ID && fee_token <= MAX_PROCESSABLE_TOKEN) ==> r matches Err(
            _),
    {
        let mut tx = Erase::new(account_id, account, nonce, fee, fee_token, None);
        tx.signature = TxSignature { recovered_signer: Some(signer_key_hash) };
        if !tx.check_correctness() {
            return Err(TransactionSignatureError);
        }
        Ok(tx)
    }

    /// The signing message under the current layout version.
    pub open spec fn signing_bytes_spec(self, version: u8) -> Seq<u8> {
        seq![(255 - TX_TYPE) as u8, version] + be_bytes_n(self.account_id as nat, 4)
            + self.account.be_bytes() + be_bytes_n(self.nonce as nat, 4) + be_bytes_n(
            self.fee_token as nat,
            4,
        ) + fee_packed_bytes(self.fee as nat)
    }

    /// The signing message under the current layout version.
    pub fn get_bytes(&self) -> (r: Vec<u8>)
        requires
            fee_packable(self.fee as nat),
        ensures
            r@ == self.signing_bytes_spec(CURRENT_TX_VERSION),
    {
        self.get_bytes_with_version(CURRENT_TX_VERSION)
    }

    /// The signing message: inverted type byte, version byte, then the
    /// account id, address, nonce, fee token and packed fee, big-endian.
    pub fn get_bytes_with_version(&self, version: u8) -> (r: Vec<u8>)
        requires
            fee_packable(self.fee as nat),
        ensures
            r@ == self.signing_bytes_spec(version),
    {
        let mut out: Vec<u8> = Vec::new();
        out.push(255 - TX_TYPE);
        out.push(version);
        let mut part = u32_to_be_bytes(self.account_id);
        out.append(&mut part);
        let mut part = self.account.to_be_bytes();
        out.append(&mut part);
        let mut part = u32_to_be_bytes(self.nonce);
        out.append(&mut part);
        let mut part = u32_to_be_bytes(self.fee_token);
        out.append(&mut part);
        let mut part = pack_fee_amount(self.fee);
        out.append(&mut part);
        proof {
            assert(out@ =~= self.signing_bytes_spec(version));
        }
        out
    }

    /// Bound check plus signature verdict, memoizing the verdict when the
    /// bounds hold. The verdict itself never changes: once the memo is
    /// written it repeats what verification said.
    pub fn check_correctness(&mut self) -> (r: bool)
        ensures
            old(self).same_payload(*final(self)),
            final(self).verify_spec() == old(self).verify_spec(),
            r == (old(self).account_id <= MAX_ACCOUNT_ID && old(self).fee_token
                <= MAX_PROCESSABLE_TOKEN && old(self).verify_spec() is Some),
            final(self).signer_cache() == (if old(self).account_id <= MAX_ACCOUNT_ID && old(
                self,
            ).fee_token <= MAX_PROCESSABLE_TOKEN {
                VerifiedSignatureCache::Cached(old(self).verify_spec())
            } else {
                old(self).signer_cache()
            }),
    {
        if self.account_id <= crate::params::max_account_id() && self.fee_token
            <= crate::params::max_processable_token() {
            let signer = self.verify_signature();
            self.cached_signer = VerifiedSignatureCache::Cached(signer);
            return signer.is_some();
        }
        false
    }

    /// The fee line of the human-readable signing message.
    pub open spec fn eth_message_part_spec(self, decimals: nat, symbol: Seq<char>) -> Seq<char> {
        "Fee: "@ + crate::utils::format_units_spec(self.fee as nat, decimals) + " "@ + symbol
    }

    /// The full human-readable signing message: the fee line, then the
    /// nonce being revoked.
    pub open spec fn eth_message_spec(self, decimals: nat, symbol: Seq<char>) -> Seq<char> {
        self.eth_message_part_spec(decimals, symbol) + "\n"@ + "Nonce: "@
            + crate::utils::dec_digits(self.nonce as nat)
    }

    /// The fee line shown to the account owner before signing: the fee at
    /// the token's precision, then the token symbol.
    pub fn get_ethereum_sign_message_part(&self, token_symbol: &str, decimals: u8) -> (r: String)
        requires
            decimals <= 31,
        ensures
            r@ == self.eth_message_part_spec(decimals as nat, token_symbol@),
    {
        let mut s = String::from_str("Fee: ");
        let units = crate::utils::format_units(self.fee, decimals);
        s.append(units.as_str());
        s.append(" ");
        s.append(token_symbol);
        proof {
            assert(s@ =~= self.eth_message_part_spec(decimals as nat, token_symbol@));
        }
        s
    }

    /// The full message shown to the account owner before signing: the fee
    /// line, a line break, then the nonce being revoked.
    pub fn get_ethereum_sign_message(&self, token_symbol: &str, decimals: u8) -> (r: String)
        requires
            decimals <= 31,
        ensures
            r@ == self.eth_message_spec(decimals as nat, token_symbol@),
    {
        let mut message = self.get_ethereum_sign_message_part(token_symbol, decimals);
        proof {
            reveal_strlit("Fee: ");
        }
        if !message.as_str().is_empty() {
            message.append("\n");
        }
        message.append("Nonce: ");
        let nonce_str = crate::utils::u128_to_dec_string(self.nonce as u128);
        message.append(nonce_str.as_str());
        proof {
            assert(message@ =~= self.eth_message_spec(decimals as nat, token_symbol@));
        }
        message
    }

    /// What verification says of the signature. The cached value is used
    /// when present, else what the scheme recovers from the signature value.
    pub fn verify_signature(&self) -> (r: Option<(PubKeyHash, TxVersion)>)
        ensures
            r == self.verify_spec(),
    {
        match &self.cached_signer {
            VerifiedSignatureCache::Cached(cached_signer) => *cached_signer,
            VerifiedSignatureCache::NotCached => {
                match self.signature.recovered_signer {
                    Some(h) => Some((h, TxVersion::V1)),
                    None => None,
                }
            },
        }
    }
}

} // verus!
