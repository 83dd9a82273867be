use ledger::errors::LedgerError;
use ledger::keys::KeyPair;
use ledger::ledger::Blockchain;
use ledger::transaction::Transaction;

fn keypair_from(byte: u8) -> KeyPair {
    KeyPair::from_secret_bytes(vec![byte; 32]).unwrap()
}

/// A ledger seeded for keypair `byte`, with that identity registered and
/// promoted to validator, as the presentation layer does at startup.
fn seeded(byte: u8) -> (Blockchain, String) {
    let kp = keypair_from(byte);
    let addr = kp.address();
    let mut bc = Blockchain::new(&addr);
    bc.register_keypair(kp);
    bc.add_validator(addr.clone()).unwrap();
    (bc, addr)
}

#[test]
fn new_ledger_has_genesis_block() {
    let (bc, addr) = seeded(20);
    assert_eq!(bc.chain.len(), 1);
    let genesis = &bc.chain[0];
    assert_eq!(genesis.index, 0);
    assert_eq!(genesis.previous_hash, "0");
    assert_eq!(genesis.validator, addr);
    assert_eq!(genesis.transactions.len(), 1);
    assert_eq!(genesis.transactions[0].sender, "0");
    assert_eq!(genesis.transactions[0].recipient, addr);
    assert_eq!(genesis.transactions[0].amount, 1000);
    assert!(genesis.transactions[0].signature.is_none());
    assert_eq!(genesis.hash, genesis.calculate_hash());
    assert_eq!(bc.pending_transactions.len(), 0);
    assert_eq!(bc.get_account_balance(&addr), 1000);
    assert!(bc.is_validator(&addr));
    assert!(bc.validate_chain());
}

#[test]
fn balances_after_commit() {
    let (mut bc, addr_a) = seeded(21);
    let kp_b = keypair_from(22);
    let addr_b = bc.register_keypair(kp_b);
    assert_eq!(bc.get_account_balance(&addr_b), 0);

    let kp_a = keypair_from(21);
    let tx = Transaction::new(addr_a.clone(), addr_b.clone(), 300);
    bc.add_transaction(tx, &kp_a).unwrap();
    assert_eq!(bc.pending_transactions.len(), 1);

    let block = bc.create_block(&addr_a).unwrap();
    assert_eq!(block.index, 1);
    assert_eq!(block.validator, addr_a);
    assert_eq!(bc.chain.len(), 2);
    assert_eq!(bc.pending_transactions.len(), 0);
    assert_eq!(bc.get_account_balance(&addr_a), 700);
    assert_eq!(bc.get_account_balance(&addr_b), 300);
    assert!(bc.validate_chain());
}

#[test]
fn overdraft_is_rejected_and_pool_unchanged() {
    let (mut bc, addr_g) = seeded(23);
    let kp_a = keypair_from(24);
    let addr_a = bc.register_keypair(keypair_from(24));
    let kp_b = keypair_from(25);
    let addr_b = bc.register_keypair(kp_b);

    // give A a balance of 100
    let kp_g = keypair_from(23);
    bc.add_transaction(Transaction::new(addr_g.clone(), addr_a.clone(), 100), &kp_g).unwrap();
    bc.create_block(&addr_g).unwrap();
    assert_eq!(bc.get_account_balance(&addr_a), 100);

    let pending_before = bc.pending_transactions.len();
    let r = bc.add_transaction(Transaction::new(addr_a.clone(), addr_b.clone(), 150), &kp_a);
    assert_eq!(r, Err(LedgerError::InsufficientBalance));
    assert_eq!(bc.pending_transactions.len(), pending_before);
}

#[test]
fn spending_exactly_the_balance_is_admitted() {
    let (mut bc, addr_a) = seeded(26);
    let kp_a = keypair_from(26);
    let addr_b = bc.register_keypair(keypair_from(27));
    let r = bc.add_transaction(Transaction::new(addr_a.clone(), addr_b, 1000), &kp_a);
    assert!(r.is_ok());
    assert_eq!(bc.pending_transactions.len(), 1);
}

#[test]
fn commit_by_non_validator_is_rejected() {
    let (mut bc, addr_g) = seeded(28);
    let addr_a = bc.register_keypair(keypair_from(29));
    let kp_g = keypair_from(28);
    bc.add_transaction(Transaction::new(addr_g.clone(), addr_a.clone(), 10), &kp_g).unwrap();

    let chain_before = bc.chain.len();
    let r = bc.create_block(&addr_a);
    assert!(matches!(r, Err(LedgerError::NotAuthorized)));
    assert_eq!(bc.chain.len(), chain_before);
    assert_eq!(bc.pending_transactions.len(), 1);
}

#[test]
fn commit_with_empty_pool_is_rejected() {
    let (mut bc, addr_g) = seeded(30);
    let r = bc.create_block(&addr_g);
    assert!(matches!(r, Err(LedgerError::EmptyPool)));
    assert_eq!(bc.chain.len(), 1);
}

#[test]
fn promoting_unregistered_address_fails() {
    let (mut bc, _addr) = seeded(31);
    let r = bc.add_validator("nobody".to_string());
    assert_eq!(r, Err(LedgerError::UnregisteredAddress));
    assert!(!bc.is_validator("nobody"));
}

#[test]
fn promotion_after_registration_succeeds() {
    let (mut bc, _addr) = seeded(32);
    let addr_a = bc.register_keypair(keypair_from(33));
    assert!(!bc.is_validator(&addr_a));
    bc.add_validator(addr_a.clone()).unwrap();
    assert!(bc.is_validator(&addr_a));
}

fn committed_chain(byte: u8) -> (Blockchain, String) {
    let (mut bc, addr_g) = seeded(byte);
    let addr_a = bc.register_keypair(keypair_from(byte.wrapping_add(1)));
    let kp_g = keypair_from(byte);
    bc.add_transaction(Transaction::new(addr_g.clone(), addr_a, 10), &kp_g).unwrap();
    bc.create_block(&addr_g).unwrap();
    assert!(bc.validate_chain());
    (bc, addr_g)
}

#[test]
fn corrupting_stored_hash_invalidates_chain() {
    let (mut bc, _addr) = committed_chain(34);
    let mut corrupted = bc.chain[1].hash.clone().into_bytes();
    corrupted[0] ^= 1;
    bc.chain[1].hash = String::from_utf8(corrupted).unwrap();
    assert!(!bc.validate_chain());
}

#[test]
fn corrupting_previous_hash_invalidates_chain() {
    let (mut bc, _addr) = committed_chain(36);
    let mut corrupted = bc.chain[1].previous_hash.clone().into_bytes();
    corrupted[5] ^= 1;
    bc.chain[1].previous_hash = String::from_utf8(corrupted).unwrap();
    assert!(!bc.validate_chain());
}

#[test]
fn corrupting_genesis_hash_invalidates_longer_chain() {
    let (mut bc, _addr) = committed_chain(38);
    let mut corrupted = bc.chain[0].hash.clone().into_bytes();
    corrupted[0] ^= 1;
    bc.chain[0].hash = String::from_utf8(corrupted).unwrap();
    assert!(!bc.validate_chain());
}

#[test]
fn revoking_the_producer_invalidates_retroactively() {
    let (mut bc, addr_g) = committed_chain(40);
    assert!(bc.validate_chain());
    bc.validators.insert(addr_g, false);
    assert!(!bc.validate_chain());
}

#[test]
fn tampering_with_committed_amount_invalidates_chain() {
    let (mut bc, _addr) = committed_chain(42);
    bc.chain[1].transactions[0].amount += 1;
    assert!(!bc.validate_chain());
}

#[test]
fn duplicate_registration_overwrites() {
    let (mut bc, _addr) = seeded(44);
    let a1 = bc.register_keypair(keypair_from(45));
    let a2 = bc.register_keypair(keypair_from(45));
    assert_eq!(a1, a2);
    assert_eq!(bc.get_account_balance(&a1), 0);
}

#[test]
fn pending_debits_are_not_reserved_against_each_other() {
    // two pending transfers each pass the check against the committed
    // balance, and together overdraw it at commit time
    let (mut bc, addr_g) = seeded(46);
    let kp_g = keypair_from(46);
    let addr_a = bc.register_keypair(keypair_from(47));
    bc.add_transaction(Transaction::new(addr_g.clone(), addr_a.clone(), 800), &kp_g).unwrap();
    bc.add_transaction(Transaction::new(addr_g.clone(), addr_a.clone(), 800), &kp_g).unwrap();
    bc.create_block(&addr_g).unwrap();
    assert_eq!(bc.get_account_balance(&addr_g), -600);
    assert_eq!(bc.get_account_balance(&addr_a), 1600);
}

#[test]
fn promotion_requires_validator_caller() {
    let (mut bc, addr_g) = seeded(48);
    let addr_a = bc.register_keypair(keypair_from(49));
    let addr_b = bc.register_keypair(keypair_from(50));

    // a non-validator may not promote
    let r = bc.promote_validator(&addr_a, addr_b.clone());
    assert_eq!(r, Err(LedgerError::NotAuthorized));
    assert!(!bc.is_validator(&addr_b));

    // a validator may, and only registered targets are accepted
    bc.promote_validator(&addr_g, addr_b.clone()).unwrap();
    assert!(bc.is_validator(&addr_b));
    assert_eq!(
        bc.promote_validator(&addr_g, "nobody".to_string()),
        Err(LedgerError::UnregisteredAddress)
    );
}

#[test]
fn longer_chain_validates() {
    let (mut bc, addr_g) = seeded(52);
    let kp_g = keypair_from(52);
    let addr_a = bc.register_keypair(keypair_from(53));
    let kp_a = keypair_from(53);

    bc.add_transaction(Transaction::new(addr_g.clone(), addr_a.clone(), 400), &kp_g).unwrap();
    bc.create_block(&addr_g).unwrap();
    bc.add_transaction(Transaction::new(addr_a.clone(), addr_g.clone(), 150), &kp_a).unwrap();
    bc.add_transaction(Transaction::new(addr_a.clone(), addr_g.clone(), 100), &kp_a).unwrap();
    bc.create_block(&addr_g).unwrap();

    assert_eq!(bc.chain.len(), 3);
    assert_eq!(bc.chain[2].previous_hash, bc.chain[1].hash);
    assert_eq!(bc.chain[2].transactions.len(), 2);
    assert!(bc.validate_chain());
    assert_eq!(bc.get_account_balance(&addr_g), 850);
    assert_eq!(bc.get_account_balance(&addr_a), 150);
}

#[test]
fn seeding_at_a_fixed_time_is_deterministic() {
    let a = Blockchain::new_at("seed-address", 77);
    let b = Blockchain::new_at("seed-address", 77);
    assert_eq!(a.chain[0].hash, b.chain[0].hash);
    assert_eq!(a.chain[0].timestamp, 77);
    let c = Blockchain::new_at("seed-address", 78);
    assert_ne!(a.chain[0].hash, c.chain[0].hash);
}
