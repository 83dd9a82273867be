use ledger::block::Block;
use ledger::errors::LedgerError;
use ledger::keys::{KeyPair, encode_identity_entry, parse_identity_entry};
use ledger::table::Table;
use ledger::transaction::Transaction;

fn keypair_from(byte: u8) -> KeyPair {
    KeyPair::from_secret_bytes(vec![byte; 32]).unwrap()
}

fn hex_of_bytes(bytes: &[u8]) -> String {
    let mut s = String::new();
    for b in bytes {
        s.push_str(&format!("{:02x}", b));
    }
    s
}

#[test]
fn genesis_transaction_always_valid() {
    let tx = Transaction::new("0".to_string(), "anyone".to_string(), 50);
    let empty: Table<Vec<u8>> = Table::new();
    assert!(tx.is_valid(&empty));
}

#[test]
fn genesis_transaction_cannot_be_signed() {
    let kp = keypair_from(1);
    let mut tx = Transaction::new("0".to_string(), "anyone".to_string(), 50);
    assert_eq!(tx.sign(&kp), Err(LedgerError::GenesisSigningError));
    assert!(tx.signature.is_none());
}

#[test]
fn sign_then_verify_with_matching_key() {
    let kp = keypair_from(2);
    let addr = kp.address();
    let mut registry: Table<Vec<u8>> = Table::new();
    registry.insert(addr.clone(), kp.public_key_bytes());
    let mut tx = Transaction::new(addr, "recipient".to_string(), 10);
    assert!(tx.sign(&kp).is_ok());
    assert!(tx.signature.is_some());
    assert!(tx.is_valid(&registry));
}

#[test]
fn verify_with_other_key_fails() {
    let kp = keypair_from(3);
    let other = keypair_from(4);
    let addr = kp.address();
    let mut registry: Table<Vec<u8>> = Table::new();
    // the registry maps the sender to a different identity's public key
    registry.insert(addr.clone(), other.public_key_bytes());
    let mut tx = Transaction::new(addr, "recipient".to_string(), 10);
    assert!(tx.sign(&kp).is_ok());
    assert!(!tx.is_valid(&registry));
}

#[test]
fn unsigned_or_unregistered_or_garbled_is_invalid() {
    let kp = keypair_from(5);
    let addr = kp.address();
    let mut registry: Table<Vec<u8>> = Table::new();
    registry.insert(addr.clone(), kp.public_key_bytes());

    let unsigned = Transaction::new(addr.clone(), "r".to_string(), 1);
    assert!(!unsigned.is_valid(&registry));

    let mut unregistered = Transaction::new("stranger".to_string(), "r".to_string(), 1);
    assert!(unregistered.sign(&kp).is_ok());
    assert!(!unregistered.is_valid(&registry));

    let mut garbled = Transaction::new(addr, "r".to_string(), 1);
    assert!(garbled.sign(&kp).is_ok());
    garbled.signature = Some("not hex!".to_string());
    assert!(!garbled.is_valid(&registry));
}

#[test]
fn mutating_any_signed_field_invalidates() {
    let kp = keypair_from(6);
    let addr = kp.address();
    let mut registry: Table<Vec<u8>> = Table::new();
    registry.insert(addr.clone(), kp.public_key_bytes());
    let mut tx = Transaction::new_at(addr.clone(), "recipient".to_string(), 10, 1234);
    assert!(tx.sign(&kp).is_ok());
    assert!(tx.is_valid(&registry));

    let mut t = tx.clone();
    t.recipient = "other".to_string();
    assert!(!t.is_valid(&registry));

    let mut t = tx.clone();
    t.amount = 11;
    assert!(!t.is_valid(&registry));

    let mut t = tx.clone();
    t.timestamp = 1235;
    assert!(!t.is_valid(&registry));

    // a changed sender is checked against that sender's registered key
    let mut t = tx.clone();
    registry.insert("imposter".to_string(), kp.public_key_bytes());
    t.sender = "imposter".to_string();
    assert!(!t.is_valid(&registry));
}

#[test]
fn transaction_hash_is_deterministic() {
    let a = Transaction::new_at("s".to_string(), "r".to_string(), 5, 99);
    let b = Transaction::new_at("s".to_string(), "r".to_string(), 5, 99);
    assert_eq!(a.calculate_hash(), b.calculate_hash());
    assert_eq!(a.calculate_hash().len(), 64);
    let c = Transaction::new_at("s".to_string(), "r".to_string(), 6, 99);
    assert_ne!(a.calculate_hash(), c.calculate_hash());
}

#[test]
fn block_hash_deterministic_and_field_sensitive() {
    let mk = |index: u32, amount: u64, prev: &str, validator: &str, ts: u64| {
        let t = Transaction::new_at("s".to_string(), "r".to_string(), amount, 99);
        Block::new_at(index, vec![t], prev.to_string(), validator.to_string(), ts)
    };
    let a = mk(1, 5, "p", "v", 7);
    let b = mk(1, 5, "p", "v", 7);
    assert_eq!(a.hash, b.hash);
    assert_eq!(a.hash.len(), 64);
    assert_eq!(a.hash, a.calculate_hash());

    assert_ne!(mk(2, 5, "p", "v", 7).hash, a.hash);
    assert_ne!(mk(1, 6, "p", "v", 7).hash, a.hash);
    assert_ne!(mk(1, 5, "q", "v", 7).hash, a.hash);
    assert_ne!(mk(1, 5, "p", "w", 7).hash, a.hash);
    assert_ne!(mk(1, 5, "p", "v", 8).hash, a.hash);
    let empty = Block::new_at(1, vec![], "p".to_string(), "v".to_string(), 7);
    assert_ne!(empty.hash, a.hash);
}

#[test]
fn address_is_hex_of_public_key() {
    let kp = keypair_from(7);
    let addr = kp.address();
    assert_eq!(addr, hex_of_bytes(&kp.public_key_bytes()));
    assert_eq!(addr.len(), 64);
    assert_eq!(kp.public_hex(), addr);
    assert_eq!(kp.secret_hex(), hex_of_bytes(&[7u8; 32]));
}

#[test]
fn identity_entry_round_trip() {
    let kp = keypair_from(8);
    let entry = encode_identity_entry(&kp);
    assert_eq!(entry, format!("{}:{}", kp.secret_hex(), kp.public_hex()));
    let parsed = parse_identity_entry(&entry).unwrap();
    assert_eq!(parsed.secret_hex(), kp.secret_hex());
    assert_eq!(parsed.public_hex(), kp.public_hex());
    assert_eq!(parsed.address(), kp.address());
}

#[test]
fn identity_entry_accepts_uppercase_hex() {
    let kp = keypair_from(9);
    let entry = format!("{}:{}", kp.secret_hex().to_uppercase(), kp.public_hex());
    let parsed = parse_identity_entry(&entry).unwrap();
    assert_eq!(parsed.secret_hex(), kp.secret_hex());
}

#[test]
fn identity_entry_malformed_is_rejected() {
    let kp = keypair_from(10);
    let secret = kp.secret_hex();
    let public = kp.public_hex();
    let err = Err(LedgerError::MalformedKeyMaterial);

    // no colon, two colons, non-hex, odd length, short secret, mismatched public
    assert_eq!(parse_identity_entry("").map(|_| ()), err);
    assert_eq!(parse_identity_entry(&format!("{}{}", secret, public)).map(|_| ()), err);
    assert_eq!(parse_identity_entry(&format!("{}::{}", secret, public)).map(|_| ()), err);
    assert_eq!(parse_identity_entry(&format!("zz:{}", public)).map(|_| ()), err);
    assert_eq!(parse_identity_entry(&format!("abc:{}", public)).map(|_| ()), err);
    assert_eq!(parse_identity_entry(&format!("ab:{}", public)).map(|_| ()), err);
    let other = keypair_from(11);
    assert_eq!(
        parse_identity_entry(&format!("{}:{}", secret, other.public_hex())).map(|_| ()),
        err
    );
}

#[test]
fn key_material_matches_ed25519_dalek() {
    let secret = [13u8; 32];
    let kp = KeyPair::from_secret_bytes(secret.to_vec()).unwrap();
    let sk = ed25519_dalek::SecretKey::from_bytes(&secret).unwrap();
    let pk = ed25519_dalek::PublicKey::from(&sk);
    assert_eq!(kp.public_key_bytes(), pk.to_bytes().to_vec());

    // a transaction signed by the library verifies under ed25519-dalek itself
    let addr = kp.address();
    let mut tx = Transaction::new(addr, "r".to_string(), 3);
    tx.sign(&kp).unwrap();
    let sig_bytes = hex::decode(tx.signature.clone().unwrap()).unwrap();
    let sig = ed25519_dalek::Signature::from_bytes(&sig_bytes).unwrap();
    ed25519_dalek::Verifier::verify(&pk, tx.calculate_hash().as_bytes(), &sig).unwrap();
}

#[test]
fn content_hash_matches_sha256_of_payload() {
    let tx = Transaction::new_at("s".to_string(), "r".to_string(), 5, 99);
    let payload = format!("{}{}{}{}", "s", "r", 5u64, 99u64);
    let digest = <sha2::Sha256 as sha2::Digest>::digest(payload.as_bytes());
    assert_eq!(tx.calculate_hash(), hex::encode(digest));
}

#[test]
fn block_hash_matches_sha256_of_payload() {
    let t = Transaction::new_at("s".to_string(), "r".to_string(), 5, 99);
    let b = Block::new_at(2, vec![t], "p".to_string(), "v".to_string(), 7);
    let tx_repr = format!("{}{}{}{}0", "s", "r", 5u64, 99u64);
    let payload = format!("{}{}{}{}{}", 2u32, 7u64, tx_repr, "p", "v");
    let digest = <sha2::Sha256 as sha2::Digest>::digest(payload.as_bytes());
    assert_eq!(b.hash, hex::encode(digest));
}
