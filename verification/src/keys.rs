//! Ed25519 key material: a pair of secret and public key bytes, the signing
//! and verification primitives, and the persisted identity-entry format
//! (hex secret, a colon, hex public key).

use vstd::prelude::*;
use vstd::string::*;
use crate::hexcode::{hex_of, hex_bytes, is_hex_seq, hex_encode, hex_decode, lemma_hex_round_trip, lemma_hex_of_len, is_hex_digit};
use crate::errors::LedgerError;

verus! {

/// What ed25519_dalek derives as the public key of a 32-byte secret key; a
/// fixed function of the secret key bytes alone.
pub uninterp spec fn ed25519_public_of(secret: Seq<u8>) -> Seq<u8>;

/// What ed25519_dalek::Keypair::sign returns for a message (given as the
/// string's characters); Ed25519 signing is deterministic, so this is a fixed
/// function of the secret key and the message.
pub uninterp spec fn ed25519_sign_bytes(secret: Seq<u8>, msg: Seq<char>) -> Seq<u8>;

/// Whether ed25519_dalek::PublicKey::verify accepts a signature over a
/// message under a public key, with malformed key or signature bytes counted
/// as rejection; a fixed function of the three inputs.
pub uninterp spec fn ed25519_verifies(public: Seq<u8>, msg: Seq<char>, sig: Seq<u8>) -> bool;

/// Relies on ed25519_dalek::PublicKey::from(&SecretKey): the public key is
/// derived from the 32 secret key bytes alone and is itself 32 bytes.
#[verifier::external_body]
fn derive_public(secret: &[u8]) -> (r: Vec<u8>)
    requires
        secret@.len() == 32,
    ensures
        r@ == ed25519_public_of(secret@),
        r@.len() == 32,
{
    let sk = ed25519_dalek::SecretKey::from_bytes(secret).unwrap();
    let pk = ed25519_dalek::PublicKey::from(&sk);
    pk.to_bytes().to_vec()
}

/// Relies on ed25519_dalek::Keypair::sign: signing is deterministic in the
/// key and message, produces a 64-byte signature, and — as the crate's
/// documentation shows — that signature verifies under the keypair's own
/// public key.
#[verifier::external_body]
fn sign_message(secret: &[u8], public: &[u8], msg: &str) -> (r: Vec<u8>)
    requires
        secret@.len() == 32,
        public@ == ed25519_public_of(secret@),
    ensures
        r@ == ed25519_sign_bytes(secret@, msg@),
        r@.len() == 64,
        ed25519_verifies(public@, msg@, r@),
{
    let sk = ed25519_dalek::SecretKey::from_bytes(secret).unwrap();
    let pk = ed25519_dalek::PublicKey::from_bytes(public).unwrap();
    let kp = ed25519_dalek::Keypair { secret: sk, public: pk };
    ed25519_dalek::Signer::sign(&kp, msg.as_bytes()).to_bytes().to_vec()
}

/// Relies on ed25519_dalek::PublicKey::verify (and the byte-level
/// constructors of PublicKey and Signature): acceptance is a deterministic
/// function of public key bytes, message, and signature bytes; bytes that do
/// not form a key or a signature are rejected.
#[verifier::external_body]
pub(crate) fn verify_message(public: &[u8], msg: &str, sig: &[u8]) -> (r: bool)
    ensures
        r == ed25519_verifies(public@, msg@, sig@),
{
    let pk = match ed25519_dalek::PublicKey::from_bytes(public) {
        Ok(p) => p,
        Err(_) => return false,
    };
    let s = match ed25519_dalek::Signature::from_bytes(sig) {
        Ok(s) => s,
        Err(_) => return false,
    };
    ed25519_dalek::Verifier::verify(&pk, msg.as_bytes(), &s).is_ok()
}

/// Locally held signing material: a 32-byte secret key together with the
/// public key derived from it.
pub struct KeyPair {
    secret: Vec<u8>,
    public: Vec<u8>,
}

impl KeyPair {
    #[verifier::type_invariant]
    spec fn type_inv(&self) -> bool {
        self.secret@.len() == 32 && self.public@.len() == 32 && self.public@
            == ed25519_public_of(self.secret@)
    }

    pub closed spec fn secret_bytes(&self) -> Seq<u8> {
        self.secret@
    }

    pub closed spec fn public_bytes(&self) -> Seq<u8> {
        self.public@
    }

    /// The address of this identity: the hex encoding of its public key.
    pub open spec fn spec_address(&self) -> Seq<char> {
        hex_of(self.public_bytes())
    }

    /// Every constructed pair holds a 32-byte secret and the public key
    /// derived from it.
    pub fn well_formed_facts(&self)
        ensures
            self.secret_bytes().len() == 32,
            self.public_bytes() == ed25519_public_of(self.secret_bytes()),
            self.public_bytes().len() == 32,
    {
        proof {
            use_type_invariant(self);
        }
    }

    /// Builds the pair for a 32-byte secret key; any other length is
    /// malformed key material.
    pub fn from_secret_bytes(secret: Vec<u8>) -> (r: Result<KeyPair, LedgerError>)
        ensures
            r is Ok <==> secret@.len() == 32,
            r matches Ok(kp) ==> kp.secret_bytes() == secret@ && kp.public_bytes()
                == ed25519_public_of(secret@),
            r is Err ==> r == Result::<KeyPair, LedgerError>::Err(LedgerError::MalformedKeyMaterial),
    {
        if secret.len() == 32 {
            let public = derive_public(secret.as_slice());
            Ok(KeyPair { secret, public })
        } else {
            Err(LedgerError::MalformedKeyMaterial)
        }
    }

    /// The public key as owned bytes.
    pub fn public_key_bytes(&self) -> (r: Vec<u8>)
        ensures
            r@ == self.public_bytes(),
    {
        vstd::slice::slice_to_vec(self.public.as_slice())
    }

    pub fn address(&self) -> (r: String)
        ensures
            r@ == self.spec_address(),
    {
        hex_encode(self.public.as_slice())
    }

    pub fn secret_hex(&self) -> (r: String)
        ensures
            r@ == hex_of(self.secret_bytes()),
    {
        hex_encode(self.secret.as_slice())
    }

    pub fn public_hex(&self) -> (r: String)
        ensures
            r@ == hex_of(self.public_bytes()),
    {
        hex_encode(self.public.as_slice())
    }

    pub(crate) fn sign_str(&self, msg: &str) -> (r: Vec<u8>)
        ensures
            r@ == ed25519_sign_bytes(self.secret_bytes(), msg@),
            r@.len() == 64,
            ed25519_verifies(self.public_bytes(), msg@, r@),
    {
        proof {
            use_type_invariant(self);
        }
        sign_message(self.secret.as_slice(), self.public.as_slice(), msg)
    }
}

impl Clone for KeyPair {
    fn clone(&self) -> (r: Self)
        ensures
            r.secret_bytes() == self.secret_bytes(),
            r.public_bytes() == self.public_bytes(),
    {
        proof {
            use_type_invariant(self);
        }
        KeyPair {
            secret: vstd::slice::slice_to_vec(self.secret.as_slice()),
            public: vstd::slice::slice_to_vec(self.public.as_slice()),
        }
    }
}

/// No colon anywhere in the characters.
pub open spec fn colon_free(s: Seq<char>) -> bool {
    forall|i: int| 0 <= i < s.len() ==> s[i] != ':'
}

/// The persisted identity-entry format: hex secret key, a colon, hex public
/// key.  This stores secret material in plaintext — a property of the
/// format, kept for compatibility.
pub open spec fn entry_chars(secret: Seq<u8>, public: Seq<u8>) -> Seq<char> {
    hex_of(secret) + seq![':'] + hex_of(public)
}

/// A well-formed identity entry split at position `i`: the only colon stands
/// there, both sides are hex, the left side holds 32 secret-key bytes, and
/// the right side holds exactly the public key derived from them.
pub open spec fn entry_ok_at(s: Seq<char>, i: int) -> bool {
    &&& 0 <= i < s.len()
    &&& s[i] == ':'
    &&& colon_free(s.take(i))
    &&& colon_free(s.skip(i + 1))
    &&& is_hex_seq(s.take(i))
    &&& is_hex_seq(s.skip(i + 1))
    &&& hex_bytes(s.take(i)).len() == 32
    &&& hex_bytes(s.skip(i + 1)) == ed25519_public_of(hex_bytes(s.take(i)))
}

/// Whether two byte vectors hold the same bytes.
pub fn bytes_eq(a: &Vec<u8>, b: &Vec<u8>) -> (r: bool)
    ensures
        r == (a@ == b@),
{
    if a.len() != b.len() {
        return false;
    }
    let n = a.len();
    let mut i: usize = 0;
    while i < n
        invariant
            n == a@.len(),
            n == b@.len(),
            0 <= i <= n,
            forall|j: int| 0 <= j < i ==> a@[j] == b@[j],
        decreases n - i,
    {
        if a[i] != b[i] {
            return false;
        }
        i += 1;
    }
    proof {
        assert(a@ =~= b@);
    }
    true
}

/// Renders the identity entry for a pair, as persisted in the identity file.
pub fn encode_identity_entry(keypair: &KeyPair) -> (r: String)
    ensures
        r@ == entry_chars(keypair.secret_bytes(), keypair.public_bytes()),
{
    proof {
        reveal_strlit(":");
        assert((":")@ =~= seq![':']);
    }
    let mut s = keypair.secret_hex();
    s.append(":");
    let public_hex = keypair.public_hex();
    s.append(public_hex.as_str());
    s
}

/// Parses a persisted identity entry back into key material.  Succeeds
/// exactly on well-formed entries: one colon, hex on both sides, a 32-byte
/// secret, and a stored public key that matches the derived one.
pub fn parse_identity_entry(s: &str) -> (r: Result<KeyPair, LedgerError>)
    ensures
        r is Ok <==> exists|i: int| entry_ok_at(s@, i),
        r matches Ok(kp) ==> exists|i: int|
            #[trigger] entry_ok_at(s@, i) && kp.secret_bytes() == hex_bytes(s@.take(i))
                && kp.public_bytes() == hex_bytes(s@.skip(i + 1)),
        r is Err ==> r == Result::<KeyPair, LedgerError>::Err(LedgerError::MalformedKeyMaterial),
{
    let len = s.unicode_len();
    let mut first: usize = 0;
    let mut second: usize = 0;
    let mut count: usize = 0;
    let mut i: usize = 0;
    while i < len
        invariant
            len == s@.len(),
            0 <= i <= len,
            count <= i,
            count == 0 ==> colon_free(s@.take(i as int)),
            count >= 1 ==> 0 <= first < i && s@[first as int] == ':' && colon_free(
                s@.take(first as int),
            ),
            count == 1 ==> colon_free(s@.subrange(first as int + 1, i as int)),
            count >= 2 ==> first < second < i && s@[second as int] == ':',
        decreases len - i,
    {
        let c = s.get_char(i);
        if c == ':' {
            if count == 0 {
                first = i;
            } else if count == 1 {
                second = i;
            }
            count += 1;
        } else {
            proof {
                if count == 1 {
                    assert(s@.subrange(first as int + 1, i as int + 1) =~= s@.subrange(
                        first as int + 1,
                        i as int,
                    ).push(s@[i as int]));
                }
            }
        }
        proof {
            if count == 0 {
                assert(s@.take(i as int + 1) =~= s@.take(i as int).push(s@[i as int]));
            }
        }
        i += 1;
    }
    if count != 1 {
        proof {
            assert forall|k: int| !entry_ok_at(s@, k) by {
                if entry_ok_at(s@, k) {
                    if count == 0 {
                        assert(s@.take(len as int) =~= s@);
                        assert(s@[k] != ':');
                    } else {
                        // two colons: one of them is not at the split
                        if first as int != k {
                            if first < k {
                                assert(s@.take(k)[first as int] == ':');
                            } else {
                                assert(s@.skip(k + 1)[first - k - 1] == ':');
                            }
                        } else {
                            if second < k {
                                assert(s@.take(k)[second as int] == ':');
                            } else {
                                assert(s@.skip(k + 1)[second - k - 1] == ':');
                            }
                        }
                    }
                }
            }
        }
        return Err(LedgerError::MalformedKeyMaterial);
    }
    proof {
        assert(colon_free(s@.subrange(first as int + 1, len as int)));
        assert(s@.skip(first as int + 1) =~= s@.subrange(first as int + 1, len as int));
        // the only possible split is at `first`
        assert forall|k: int| entry_ok_at(s@, k) implies k == first as int by {
            if k < first {
                assert(s@.skip(k + 1)[first - k - 1] == ':');
            } else if k > first {
                assert(s@.take(k)[first as int] == ':');
            }
        }
    }
    let left = s.substring_char(0, first);
    let right = s.substring_char(first + 1, len);
    let secret = match hex_decode(left) {
        Some(b) => b,
        None => {
            return Err(LedgerError::MalformedKeyMaterial);
        },
    };
    let public = match hex_decode(right) {
        Some(b) => b,
        None => {
            return Err(LedgerError::MalformedKeyMaterial);
        },
    };
    if secret.len() != 32 {
        return Err(LedgerError::MalformedKeyMaterial);
    }
    let keypair = match KeyPair::from_secret_bytes(secret) {
        Ok(kp) => kp,
        Err(e) => {
            return Err(e);
        },
    };
    let derived = keypair.public_key_bytes();
    if !bytes_eq(&derived, &public) {
        return Err(LedgerError::MalformedKeyMaterial);
    }
    proof {
        assert(entry_ok_at(s@, first as int));
    }
    Ok(keypair)
}

/// Round trip: the rendered entry of any matching key material parses back
/// to the same secret and public bytes, split at the colon.
pub proof fn lemma_entry_round_trip(secret: Seq<u8>, public: Seq<u8>)
    requires
        secret.len() == 32,
        public == ed25519_public_of(secret),
    ensures
        entry_ok_at(entry_chars(secret, public), 64),
        hex_bytes(entry_chars(secret, public).take(64)) == secret,
        hex_bytes(entry_chars(secret, public).skip(65)) == public,
{
    let s = entry_chars(secret, public);
    lemma_hex_of_len(secret);
    lemma_hex_of_len(public);
    lemma_hex_round_trip(secret);
    lemma_hex_round_trip(public);
    assert(s.take(64) =~= hex_of(secret));
    assert(s.skip(65) =~= hex_of(public));
    assert(s[64] == ':');
    assert forall|i: int| 0 <= i < 64 implies s.take(64)[i] != ':' by {
        assert(is_hex_digit(hex_of(secret)[i]));
    }
    assert forall|i: int| 0 <= i < s.skip(65).len() implies s.skip(65)[i] != ':' by {
        assert(is_hex_digit(hex_of(public)[i]));
    }
}

} // verus!
