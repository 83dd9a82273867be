//! A signed value transfer: its content hash, its signature lifecycle, and
//! its validity predicate.

use vstd::prelude::*;
use vstd::string::*;
use crate::clock::now_seconds;
use crate::digest::{sha256, sha256_of, dec_of, u64_to_dec};
use crate::errors::LedgerError;
use crate::hexcode::{hex_of, hex_bytes, is_hex_seq, hex_encode, hex_decode, lemma_hex_round_trip};
use crate::keys::{KeyPair, ed25519_sign_bytes, ed25519_verifies, verify_message};
use crate::table::Table;

verus! {

/// The sentinel sender of a system-minted (genesis) transfer.
pub open spec fn genesis_sender() -> Seq<char> {
    seq!['0']
}

/// A value transfer from `sender` to `recipient`, signed over its content
/// hash once admitted (never signed when the sender is the genesis sentinel).
pub struct Transaction {
    pub sender: String,
    pub recipient: String,
    pub amount: u64,
    pub signature: Option<String>,
    pub timestamp: u64,
}

impl Transaction {
    pub open spec fn is_genesis(self) -> bool {
        self.sender@ == genesis_sender()
    }

    /// The string whose digest is the content hash: sender, recipient, and
    /// the decimal renderings of amount and timestamp, concatenated.
    pub open spec fn payload(self) -> Seq<char> {
        self.sender@ + self.recipient@ + dec_of(self.amount as nat) + dec_of(
            self.timestamp as nat,
        )
    }

    /// The content hash: the hex form of the payload's digest.  The signed
    /// message is exactly this string, so mutating any hashed field after
    /// signing makes the stored signature verify against a different message.
    pub open spec fn content_hash(self) -> Seq<char> {
        hex_of(sha256_of(self.payload()))
    }

    /// Validity under a registry of public keys: genesis transfers are valid
    /// unconditionally; any other transfer must carry a well-formed hex
    /// signature that verifies over its content hash under the registered
    /// public key of its sender.
    pub open spec fn valid_spec(self, reg: Map<Seq<char>, Vec<u8>>) -> bool {
        if self.is_genesis() {
            true
        } else {
            match self.signature {
                Some(sig) => reg.contains_key(self.sender@) && is_hex_seq(sig@)
                    && ed25519_verifies(reg[self.sender@]@, self.content_hash(), hex_bytes(sig@)),
                None => false,
            }
        }
    }

    /// A fresh, unsigned transfer with the given timestamp.
    pub fn new_at(sender: String, recipient: String, amount: u64, timestamp: u64) -> (r:
        Transaction)
        ensures
            r.sender@ == sender@,
            r.recipient@ == recipient@,
            r.amount == amount,
            r.signature is None,
            r.timestamp == timestamp,
    {
        Transaction { sender, recipient, amount, signature: None, timestamp }
    }

    /// A fresh, unsigned transfer stamped with the current time.
    pub fn new(sender: String, recipient: String, amount: u64) -> (r: Transaction)
        ensures
            r.sender@ == sender@,
            r.recipient@ == recipient@,
            r.amount == amount,
            r.signature is None,
    {
        let ts = now_seconds();
        Transaction::new_at(sender, recipient, amount, ts)
    }

    /// Whether the sender is the genesis sentinel.
    pub fn has_genesis_sender(&self) -> (r: bool)
        ensures
            r == self.is_genesis(),
    {
        proof {
            reveal_strlit("0");
            assert(("0")@ =~= genesis_sender());
        }
        let z = String::from_str("0");
        self.sender.eq(&z)
    }

    /// The content hash, as a hex string.
    pub fn calculate_hash(&self) -> (r: String)
        ensures
            r@ == self.content_hash(),
    {
        let mut data = self.sender.clone();
        data.append(self.recipient.as_str());
        let amount_dec = u64_to_dec(self.amount);
        data.append(amount_dec.as_str());
        let timestamp_dec = u64_to_dec(self.timestamp);
        data.append(timestamp_dec.as_str());
        let digest = sha256(data.as_str());
        hex_encode(digest.as_slice())
    }

    /// Signs the content hash, storing the signature in hex; re-signing
    /// overwrites.  A genesis transfer is never signed.  The stored signature
    /// verifies under the signing pair's public key, so the transaction is
    /// valid under every registry that maps its sender to that key.
    pub fn sign(&mut self, keypair: &KeyPair) -> (r: Result<(), LedgerError>)
        ensures
            old(self).is_genesis() ==> r == Result::<(), LedgerError>::Err(
                LedgerError::GenesisSigningError,
            ) && *final(self) == *old(self),
            !old(self).is_genesis() ==> {
                &&& r is Ok
                &&& final(self).sender == old(self).sender
                &&& final(self).recipient == old(self).recipient
                &&& final(self).amount == old(self).amount
                &&& final(self).timestamp == old(self).timestamp
                &&& final(self).signature matches Some(s) && s@ == hex_of(
                    ed25519_sign_bytes(keypair.secret_bytes(), old(self).content_hash()),
                )
                &&& forall|reg: Map<Seq<char>, Vec<u8>>|
                    reg.contains_key(old(self).sender@) && reg[old(self).sender@]@
                        == keypair.public_bytes() ==> final(self).valid_spec(reg)
            },
    {
        if self.has_genesis_sender() {
            return Err(LedgerError::GenesisSigningError);
        }
        let transaction_hash = self.calculate_hash();
        let sig = keypair.sign_str(transaction_hash.as_str());
        proof {
            lemma_hex_round_trip(sig@);
        }
        self.signature = Some(hex_encode(sig.as_slice()));
        Ok(())
    }

    /// Validity of this transfer under the given public-key registry.
    pub fn is_valid(&self, registry: &Table<Vec<u8>>) -> (r: bool)
        ensures
            r == self.valid_spec(registry@),
    {
        if self.has_genesis_sender() {
            return true;
        }
        let sig_hex = match &self.signature {
            Some(s) => s,
            None => {
                return false;
            },
        };
        let public_key = match registry.get(&self.sender) {
            Some(p) => p,
            None => {
                return false;
            },
        };
        let sig_bytes = match hex_decode(sig_hex.as_str()) {
            Some(b) => b,
            None => {
                return false;
            },
        };
        let transaction_hash = self.calculate_hash();
        verify_message(public_key.as_slice(), transaction_hash.as_str(), sig_bytes.as_slice())
    }
}

impl Clone for Transaction {
    fn clone(&self) -> (r: Self)
        ensures
            r == *self,
    {
        Transaction {
            sender: self.sender.clone(),
            recipient: self.recipient.clone(),
            amount: self.amount,
            signature: match &self.signature {
                Some(s) => Some(s.clone()),
                None => None,
            },
            timestamp: self.timestamp,
        }
    }
}

/// A genesis transaction is valid under every registry.
pub proof fn lemma_genesis_always_valid(tx: Transaction, reg: Map<Seq<char>, Vec<u8>>)
    requires
        tx.is_genesis(),
    ensures
        tx.valid_spec(reg),
{
}

} // verus!
