//! The ledger: the committed chain, the pending pool, the balance table, the
//! validator set, and the key registry, with the admission, commit, and
//! validation rules.

use vstd::prelude::*;
use vstd::string::*;
use crate::block::{Block, clone_transactions, same_block};
use crate::clock::now_seconds;
use crate::errors::LedgerError;
use crate::keys::KeyPair;
use crate::table::Table;
use crate::transaction::{Transaction, genesis_sender};

verus! {

/// The amount minted to the seed address by the genesis transaction.
pub const GENESIS_AMOUNT: u64 = 1000;

/// A balance update clipped to the representable range.  Amounts are 64-bit,
/// so reaching either bound would take on the order of 2^64 transfers.
pub open spec fn clip(x: int) -> i128 {
    if x > i128::MAX {
        i128::MAX
    } else if x < i128::MIN {
        i128::MIN
    } else {
        x as i128
    }
}

/// The balance of an address in a balance table: the stored value, or zero
/// when the address has no entry.
pub open spec fn bal_of(m: Map<Seq<char>, i128>, a: Seq<char>) -> int {
    if m.contains_key(a) {
        m[a] as int
    } else {
        0
    }
}

/// One transaction applied to the balance table: the sender (unless genesis)
/// is debited, then the recipient credited; missing entries are created.
pub open spec fn apply_tx(m: Map<Seq<char>, i128>, tx: Transaction) -> Map<Seq<char>, i128> {
    let debited = if tx.sender@ == genesis_sender() {
        m
    } else {
        m.insert(tx.sender@, clip(bal_of(m, tx.sender@) - tx.amount))
    };
    debited.insert(tx.recipient@, clip(bal_of(debited, tx.recipient@) + tx.amount))
}

/// A transaction list applied in order, first to last.
pub open spec fn apply_txs(m: Map<Seq<char>, i128>, txs: Seq<Transaction>) -> Map<
    Seq<char>,
    i128,
>
    decreases txs.len(),
{
    if txs.len() == 0 {
        m
    } else {
        apply_txs(apply_tx(m, txs[0]), txs.drop_first())
    }
}

pub proof fn lemma_apply_txs_snoc(m: Map<Seq<char>, i128>, txs: Seq<Transaction>, tx: Transaction)
    ensures
        apply_txs(m, txs.push(tx)) == apply_tx(apply_txs(m, txs), tx),
    decreases txs.len(),
{
    if txs.len() == 0 {
        assert(txs.push(tx)[0] == tx);
        assert(txs.push(tx).drop_first() =~= Seq::<Transaction>::empty());
        assert(apply_txs(apply_tx(m, tx), Seq::<Transaction>::empty()) == apply_tx(m, tx));
    } else {
        lemma_apply_txs_snoc(apply_tx(m, txs[0]), txs.drop_first(), tx);
        assert(txs.push(tx)[0] == txs[0]);
        assert(txs.push(tx).drop_first() =~= txs.drop_first().push(tx));
    }
}

/// The ledger state.
pub struct Blockchain {
    pub chain: Vec<Block>,
    pub pending_transactions: Vec<Transaction>,
    pub accounts: Table<i128>,
    pub public_keys: Table<Vec<u8>>,
    pub validators: Table<bool>,
    pub keypairs: Table<KeyPair>,
}

impl Blockchain {
    /// The chain holds at least its genesis block and the tables store no
    /// key twice.
    pub open spec fn wf(&self) -> bool {
        self.chain@.len() >= 1 && self.accounts.wf() && self.public_keys.wf()
            && self.validators.wf() && self.keypairs.wf()
    }

    /// Whether an address is an authorized validator.
    pub open spec fn is_validator_spec(&self, a: Seq<char>) -> bool {
        self.validators@.contains_key(a) && self.validators@[a]
    }

    /// A new ledger seeded at the given timestamp: an unsigned genesis
    /// transaction minting the seed amount to the given address, sealed at
    /// once into block zero.  The seed address is credited directly; no
    /// identity or validator is registered here.
    pub fn new_at(genesis_address: &str, timestamp: u64) -> (r: Blockchain)
        ensures
            r.wf(),
            r.chain@.len() == 1,
            ({
                let b = r.chain@[0];
                &&& b.index == 0
                &&& b.timestamp == timestamp
                &&& b.previous_hash@ == genesis_sender()
                &&& b.validator@ == genesis_address@
                &&& b.hash_ok()
                &&& b.transactions@.len() == 1
                &&& b.transactions@[0].sender@ == genesis_sender()
                &&& b.transactions@[0].recipient@ == genesis_address@
                &&& b.transactions@[0].amount == GENESIS_AMOUNT
                &&& b.transactions@[0].signature is None
                &&& b.transactions@[0].timestamp == timestamp
            }),
            r.pending_transactions@.len() == 0,
            r.accounts@ == Map::<Seq<char>, i128>::empty().insert(
                genesis_address@,
                GENESIS_AMOUNT as i128,
            ),
            r.public_keys@ == Map::<Seq<char>, Vec<u8>>::empty(),
            r.validators@ == Map::<Seq<char>, bool>::empty(),
            r.keypairs@ == Map::<Seq<char>, KeyPair>::empty(),
    {
        proof {
            reveal_strlit("0");
            assert(("0")@ =~= genesis_sender());
        }
        let mut blockchain = Blockchain {
            chain: Vec::new(),
            pending_transactions: Vec::new(),
            accounts: Table::new(),
            public_keys: Table::new(),
            validators: Table::new(),
            keypairs: Table::new(),
        };
        let genesis_transaction = Transaction::new_at(
            String::from_str("0"),
            genesis_address.to_owned(),
            GENESIS_AMOUNT,
            timestamp,
        );
        blockchain.pending_transactions.push(genesis_transaction);
        blockchain.accounts.insert(genesis_address.to_owned(), GENESIS_AMOUNT as i128);
        blockchain.create_genesis_block_at(genesis_address, timestamp);
        blockchain
    }

    /// A new ledger seeded now.
    pub fn new(genesis_address: &str) -> (r: Blockchain)
        ensures
            r.wf(),
            r.chain@.len() == 1,
            ({
                let b = r.chain@[0];
                &&& b.index == 0
                &&& b.previous_hash@ == genesis_sender()
                &&& b.validator@ == genesis_address@
                &&& b.hash_ok()
                &&& b.transactions@.len() == 1
                &&& b.transactions@[0].sender@ == genesis_sender()
                &&& b.transactions@[0].recipient@ == genesis_address@
                &&& b.transactions@[0].amount == GENESIS_AMOUNT
                &&& b.transactions@[0].signature is None
            }),
            r.pending_transactions@.len() == 0,
            r.accounts@ == Map::<Seq<char>, i128>::empty().insert(
                genesis_address@,
                GENESIS_AMOUNT as i128,
            ),
            r.public_keys@ == Map::<Seq<char>, Vec<u8>>::empty(),
            r.validators@ == Map::<Seq<char>, bool>::empty(),
            r.keypairs@ == Map::<Seq<char>, KeyPair>::empty(),
    {
        let ts = now_seconds();
        Blockchain::new_at(genesis_address, ts)
    }

    /// Seals the current pending pool into block zero, linked to the
    /// sentinel previous hash, at the given timestamp.
    pub fn create_genesis_block_at(&mut self, genesis_address: &str, timestamp: u64)
        ensures
            final(self).chain@.len() == old(self).chain@.len() + 1,
            final(self).chain@.drop_last() == old(self).chain@,
            ({
                let b = final(self).chain@.last();
                &&& b.index == 0
                &&& b.timestamp == timestamp
                &&& b.transactions@ == old(self).pending_transactions@
                &&& b.previous_hash@ == genesis_sender()
                &&& b.validator@ == genesis_address@
                &&& b.hash_ok()
            }),
            final(self).pending_transactions@.len() == 0,
            final(self).accounts == old(self).accounts,
            final(self).public_keys == old(self).public_keys,
            final(self).validators == old(self).validators,
            final(self).keypairs == old(self).keypairs,
    {
        proof {
            reveal_strlit("0");
            assert(("0")@ =~= genesis_sender());
        }
        let transactions = clone_transactions(&self.pending_transactions);
        let genesis_block = Block::new_at(
            0,
            transactions,
            String::from_str("0"),
            genesis_address.to_owned(),
            timestamp,
        );
        self.chain.push(genesis_block);
        self.pending_transactions.clear();
        proof {
            assert(final(self).chain@.drop_last() =~= old(self).chain@);
        }
    }

    /// Seals the current pending pool into block zero, stamped now.
    pub fn create_genesis_block(&mut self, genesis_address: &str)
        ensures
            final(self).chain@.len() == old(self).chain@.len() + 1,
            final(self).chain@.drop_last() == old(self).chain@,
            ({
                let b = final(self).chain@.last();
                &&& b.index == 0
                &&& b.transactions@ == old(self).pending_transactions@
                &&& b.previous_hash@ == genesis_sender()
                &&& b.validator@ == genesis_address@
                &&& b.hash_ok()
            }),
            final(self).pending_transactions@.len() == 0,
            final(self).accounts == old(self).accounts,
            final(self).public_keys == old(self).public_keys,
            final(self).validators == old(self).validators,
            final(self).keypairs == old(self).keypairs,
    {
        let ts = now_seconds();
        self.create_genesis_block_at(genesis_address, ts);
    }

    /// The most recent block.
    pub fn get_latest_block(&self) -> (r: &Block)
        requires
            self.chain@.len() >= 1,
        ensures
            *r == self.chain@.last(),
    {
        &self.chain[self.chain.len() - 1]
    }

    /// The balance of an address: the stored value, or zero if absent.
    pub fn get_account_balance(&self, address: &str) -> (r: i128)
        ensures
            r as int == bal_of(self.accounts@, address@),
    {
        let key = address.to_owned();
        match self.accounts.get(&key) {
            Some(b) => *b,
            None => 0,
        }
    }

    /// Whether an address is an authorized validator.
    pub fn is_validator(&self, address: &str) -> (r: bool)
        ensures
            r == self.is_validator_spec(address@),
    {
        let key = address.to_owned();
        match self.validators.get(&key) {
            Some(b) => *b,
            None => false,
        }
    }

    /// Registers locally held key material: stores the public key and the
    /// pair under the derived address and opens a zero balance if the
    /// address has none.  Re-registration overwrites.
    pub fn register_keypair(&mut self, keypair: KeyPair) -> (r: String)
        requires
            old(self).wf(),
        ensures
            final(self).wf(),
            r@ == keypair.spec_address(),
            final(self).public_keys@.dom() == old(self).public_keys@.dom().insert(r@),
            final(self).public_keys@[r@]@ == keypair.public_bytes(),
            forall|k: Seq<char>|
                old(self).public_keys@.contains_key(k) && k != r@
                    ==> final(self).public_keys@[k] == old(self).public_keys@[k],
            final(self).keypairs@ == old(self).keypairs@.insert(r@, keypair),
            final(self).accounts@ == if old(self).accounts@.contains_key(r@) {
                old(self).accounts@
            } else {
                old(self).accounts@.insert(r@, 0)
            },
            final(self).chain == old(self).chain,
            final(self).pending_transactions == old(self).pending_transactions,
            final(self).validators == old(self).validators,
    {
        let address = keypair.address();
        let public_key = keypair.public_key_bytes();
        self.public_keys.insert(address.clone(), public_key);
        self.keypairs.insert(address.clone(), keypair);
        if !self.accounts.contains_key(&address) {
            self.accounts.insert(address.clone(), 0);
        }
        proof {
            assert(final(self).public_keys@.dom() =~= old(self).public_keys@.dom().insert(
                address@,
            ));
        }
        address
    }

    /// Marks an address as an authorized validator; the address must already
    /// be registered.
    pub fn add_validator(&mut self, address: String) -> (r: Result<(), LedgerError>)
        requires
            old(self).wf(),
        ensures
            final(self).wf(),
            r is Ok <==> old(self).public_keys@.contains_key(address@),
            r is Ok ==> final(self).validators@ == old(self).validators@.insert(address@, true)
                && final(self).chain == old(self).chain && final(self).pending_transactions
                == old(self).pending_transactions && final(self).accounts == old(self).accounts
                && final(self).public_keys == old(self).public_keys && final(self).keypairs
                == old(self).keypairs,
            r is Err ==> r == Result::<(), LedgerError>::Err(LedgerError::UnregisteredAddress)
                && *final(self) == *old(self),
    {
        if !self.public_keys.contains_key(&address) {
            return Err(LedgerError::UnregisteredAddress);
        }
        self.validators.insert(address, true);
        Ok(())
    }

    /// Promotion with the authorization check at the ledger's own boundary:
    /// only a caller that is itself an authorized validator may promote.
    pub fn promote_validator(&mut self, caller: &str, target: String) -> (r: Result<
        (),
        LedgerError,
    >)
        requires
            old(self).wf(),
        ensures
            final(self).wf(),
            !old(self).is_validator_spec(caller@) ==> r == Result::<(), LedgerError>::Err(
                LedgerError::NotAuthorized,
            ) && *final(self) == *old(self),
            old(self).is_validator_spec(caller@) ==> {
                &&& (r is Ok <==> old(self).public_keys@.contains_key(target@))
                &&& r is Ok ==> {
                    &&& final(self).validators@ == old(self).validators@.insert(target@, true)
                    &&& final(self).chain == old(self).chain
                    &&& final(self).pending_transactions == old(self).pending_transactions
                    &&& final(self).accounts == old(self).accounts
                    &&& final(self).public_keys == old(self).public_keys
                    &&& final(self).keypairs == old(self).keypairs
                }
                &&& r is Err ==> r == Result::<(), LedgerError>::Err(
                    LedgerError::UnregisteredAddress,
                ) && *final(self) == *old(self)
            },
    {
        if !self.is_validator(caller) {
            return Err(LedgerError::NotAuthorized);
        }
        self.add_validator(target)
    }

    /// Admission would overdraw: a non-genesis sender whose last-committed
    /// balance is below the amount.  Pending debits are not reserved against
    /// each other; each admission checks the committed balance only.
    pub open spec fn admission_overdraft(&self, tx: Transaction) -> bool {
        !tx.is_genesis() && tx.amount as int > bal_of(self.accounts@, tx.sender@)
    }

    /// Admits a transaction to the pending pool: checks the sender's
    /// committed balance, signs (genesis transfers are queued unsigned), and
    /// queues it.  No balance changes here.
    pub fn add_transaction(&mut self, transaction: Transaction, keypair: &KeyPair) -> (r: Result<
        (),
        LedgerError,
    >)
        ensures
            r is Ok <==> !old(self).admission_overdraft(transaction),
            r is Err ==> r == Result::<(), LedgerError>::Err(LedgerError::InsufficientBalance)
                && *final(self) == *old(self),
            r is Ok ==> {
                &&& final(self).chain == old(self).chain
                &&& final(self).accounts == old(self).accounts
                &&& final(self).public_keys == old(self).public_keys
                &&& final(self).validators == old(self).validators
                &&& final(self).keypairs == old(self).keypairs
                &&& final(self).pending_transactions@.len() == old(
                    self,
                ).pending_transactions@.len() + 1
                &&& final(self).pending_transactions@.drop_last() == old(
                    self,
                ).pending_transactions@
            },
            r is Ok && transaction.is_genesis() ==> final(self).pending_transactions@.last()
                == transaction,
            r is Ok && !transaction.is_genesis() ==> {
                let queued = final(self).pending_transactions@.last();
                &&& queued.sender@ == transaction.sender@
                &&& queued.recipient@ == transaction.recipient@
                &&& queued.amount == transaction.amount
                &&& queued.timestamp == transaction.timestamp
                &&& queued.signature is Some
                &&& forall|reg: Map<Seq<char>, Vec<u8>>|
                    reg.contains_key(transaction.sender@) && reg[transaction.sender@]@
                        == keypair.public_bytes() ==> queued.valid_spec(reg)
            },
    {
        let mut transaction = transaction;
        if !transaction.has_genesis_sender() {
            let balance = self.get_account_balance(transaction.sender.as_str());
            if transaction.amount as i128 > balance {
                return Err(LedgerError::InsufficientBalance);
            }
            let signed = transaction.sign(keypair);
            proof {
                assert(signed is Ok);
            }
        }
        self.pending_transactions.push(transaction);
        proof {
            assert(final(self).pending_transactions@.drop_last() =~= old(
                self,
            ).pending_transactions@);
        }
        Ok(())
    }

    /// Applies every pending transaction to the balance table, in pool
    /// order: debit the (non-genesis) sender, credit the recipient.
    fn apply_transactions(&mut self)
        requires
            old(self).accounts.wf(),
        ensures
            final(self).accounts.wf(),
            final(self).accounts@ == apply_txs(
                old(self).accounts@,
                old(self).pending_transactions@,
            ),
            final(self).chain == old(self).chain,
            final(self).pending_transactions == old(self).pending_transactions,
            final(self).public_keys == old(self).public_keys,
            final(self).validators == old(self).validators,
            final(self).keypairs == old(self).keypairs,
    {
        let n = self.pending_transactions.len();
        let mut i: usize = 0;
        while i < n
            invariant
                n == self.pending_transactions@.len(),
                0 <= i <= n,
                self.accounts.wf(),
                self.accounts@ == apply_txs(
                    old(self).accounts@,
                    old(self).pending_transactions@.take(i as int),
                ),
                self.chain == old(self).chain,
                self.pending_transactions == old(self).pending_transactions,
                self.public_keys == old(self).public_keys,
                self.validators == old(self).validators,
                self.keypairs == old(self).keypairs,
            decreases n - i,
        {
            let ghost pre = self.accounts@;
            let sender = self.pending_transactions[i].sender.clone();
            let recipient = self.pending_transactions[i].recipient.clone();
            let amount = self.pending_transactions[i].amount;
            let genesis = self.pending_transactions[i].has_genesis_sender();
            if !genesis {
                let balance = match self.accounts.get(&sender) {
                    Some(b) => *b,
                    None => 0,
                };
                let debited = clip_sub(balance, amount);
                self.accounts.insert(sender, debited);
            }
            let balance = match self.accounts.get(&recipient) {
                Some(b) => *b,
                None => 0,
            };
            let credited = clip_add(balance, amount);
            self.accounts.insert(recipient, credited);
            proof {
                let txs = old(self).pending_transactions@;
                assert(self.accounts@ == apply_tx(pre, txs[i as int]));
                lemma_apply_txs_snoc(old(self).accounts@, txs.take(i as int), txs[i as int]);
                assert(txs.take(i as int).push(txs[i as int]) =~= txs.take(i + 1 as int));
            }
            i += 1;
        }
        proof {
            assert(old(self).pending_transactions@.take(n as int) =~= old(
                self,
            ).pending_transactions@);
        }
    }

    /// Commits the pending pool: only an authorized validator may commit,
    /// the pool must be non-empty, and on success the new block extends the
    /// chain, balances are updated in pool order, and the pool is cleared.
    pub fn create_block(&mut self, validator_address: &str) -> (r: Result<Block, LedgerError>)
        requires
            old(self).wf(),
            old(self).chain@.len() < u32::MAX as int,
        ensures
            final(self).wf(),
            r is Err ==> *final(self) == *old(self),
            !old(self).is_validator_spec(validator_address@) ==> r == Result::<
                Block,
                LedgerError,
            >::Err(LedgerError::NotAuthorized),
            old(self).is_validator_spec(validator_address@) && old(
                self,
            ).pending_transactions@.len() == 0 ==> r == Result::<Block, LedgerError>::Err(
                LedgerError::EmptyPool,
            ),
            old(self).is_validator_spec(validator_address@) && old(
                self,
            ).pending_transactions@.len() > 0 ==> {
                &&& r is Ok
                &&& final(self).chain@.len() == old(self).chain@.len() + 1
                &&& final(self).chain@.drop_last() == old(self).chain@
                &&& ({
                    let b = final(self).chain@.last();
                    &&& b.index == old(self).chain@.len() as u32
                    &&& b.transactions@ == old(self).pending_transactions@
                    &&& b.previous_hash@ == old(self).chain@.last().hash@
                    &&& b.validator@ == validator_address@
                    &&& b.hash_ok()
                    &&& same_block(r->Ok_0, b)
                })
                &&& final(self).pending_transactions@.len() == 0
                &&& final(self).accounts@ == apply_txs(
                    old(self).accounts@,
                    old(self).pending_transactions@,
                )
                &&& final(self).public_keys == old(self).public_keys
                &&& final(self).validators == old(self).validators
                &&& final(self).keypairs == old(self).keypairs
            },
    {
        if !self.is_validator(validator_address) {
            return Err(LedgerError::NotAuthorized);
        }
        if self.pending_transactions.len() == 0 {
            return Err(LedgerError::EmptyPool);
        }
        let index = self.chain.len() as u32;
        let transactions = clone_transactions(&self.pending_transactions);
        let previous_hash = self.get_latest_block().hash.clone();
        let block = Block::new(index, transactions, previous_hash, validator_address.to_owned());
        self.chain.push(block.clone());
        self.apply_transactions();
        self.pending_transactions.clear();
        proof {
            assert(final(self).chain@.drop_last() =~= old(self).chain@);
        }
        Ok(block)
    }
}

/// Every requirement on one non-genesis block: its stored hash matches its
/// fields, it links to its predecessor's hash, every transaction in it is
/// valid, and its producer is currently authorized.
pub open spec fn block_ok(
    b: Block,
    prev: Block,
    reg: Map<Seq<char>, Vec<u8>>,
    validators: Map<Seq<char>, bool>,
) -> bool {
    &&& b.hash_ok()
    &&& b.previous_hash@ == prev.hash@
    &&& forall|j: int|
        0 <= j < b.transactions@.len() ==> (#[trigger] b.transactions@[j]).valid_spec(reg)
    &&& validators.contains_key(b.validator@) && validators[b.validator@]
}

/// Chain validity: every block after the genesis block passes `block_ok`
/// against its predecessor, the key registry, and the validator set as they
/// stand now.  Chains of length zero or one are trivially valid.
pub open spec fn chain_valid(
    chain: Seq<Block>,
    reg: Map<Seq<char>, Vec<u8>>,
    validators: Map<Seq<char>, bool>,
) -> bool {
    forall|i: int| 1 <= i < chain.len() ==> block_ok(#[trigger] chain[i], chain[i - 1], reg, validators)
}

impl Blockchain {
    /// Re-walks the whole chain and checks hash integrity, hash links,
    /// transaction validity, and the producers' current authorization.
    pub fn validate_chain(&self) -> (r: bool)
        ensures
            r == chain_valid(self.chain@, self.public_keys@, self.validators@),
    {
        let n = self.chain.len();
        if n == 0 {
            return true;
        }
        let mut i: usize = 1;
        while i < n
            invariant
                n == self.chain@.len(),
                1 <= i <= n,
                forall|k: int|
                    1 <= k < i ==> block_ok(
                        #[trigger] self.chain@[k],
                        self.chain@[k - 1],
                        self.public_keys@,
                        self.validators@,
                    ),
            decreases n - i,
        {
            let current = &self.chain[i];
            let recomputed = current.calculate_hash();
            if !current.hash.eq(&recomputed) {
                return false;
            }
            if !current.previous_hash.eq(&self.chain[i - 1].hash) {
                return false;
            }
            let m = current.transactions.len();
            let mut j: usize = 0;
            while j < m
                invariant
                    n == self.chain@.len(),
                    1 <= i < n,
                    m == self.chain@[i as int].transactions@.len(),
                    0 <= j <= m,
                    forall|k: int|
                        0 <= k < j ==> (#[trigger] self.chain@[i as int].transactions@[k])
                            .valid_spec(self.public_keys@),
                decreases m - j,
            {
                if !self.chain[i].transactions[j].is_valid(&self.public_keys) {
                    return false;
                }
                j += 1;
            }
            let authorized = match self.validators.get(&current.validator) {
                Some(b) => *b,
                None => false,
            };
            if !authorized {
                return false;
            }
            i += 1;
        }
        true
    }
}

/// Corrupting a committed block is detected: in a valid chain, replacing a
/// non-genesis block by one whose stored hash or previous-hash link differs
/// (its other fields unchanged) makes the chain invalid.
pub proof fn lemma_corruption_detected(
    chain: Seq<Block>,
    reg: Map<Seq<char>, Vec<u8>>,
    validators: Map<Seq<char>, bool>,
    i: int,
    bad: Block,
)
    requires
        chain_valid(chain, reg, validators),
        1 <= i < chain.len(),
        bad.index == chain[i].index,
        bad.timestamp == chain[i].timestamp,
        bad.transactions@ == chain[i].transactions@,
        bad.validator@ == chain[i].validator@,
        bad.hash@ != chain[i].hash@ || bad.previous_hash@ != chain[i].previous_hash@,
    ensures
        !chain_valid(chain.update(i, bad), reg, validators),
{
    let corrupted = chain.update(i, bad);
    if bad.previous_hash@ != chain[i].previous_hash@ {
        assert(block_ok(chain[i], chain[i - 1], reg, validators));
        assert(corrupted[i - 1].hash@ == chain[i - 1].hash@);
        assert(!block_ok(corrupted[i], corrupted[i - 1], reg, validators));
    } else {
        assert(block_ok(chain[i], chain[i - 1], reg, validators));
        assert(chain[i].hash_ok());
        assert(!bad.hash_ok());
        assert(!block_ok(corrupted[i], corrupted[i - 1], reg, validators));
    }
}

/// Corrupting the stored hash of the genesis block of a valid chain with at
/// least two blocks breaks the first link and is detected.
pub proof fn lemma_genesis_corruption_detected(
    chain: Seq<Block>,
    reg: Map<Seq<char>, Vec<u8>>,
    validators: Map<Seq<char>, bool>,
    bad: Block,
)
    requires
        chain_valid(chain, reg, validators),
        chain.len() >= 2,
        bad.hash@ != chain[0].hash@,
    ensures
        !chain_valid(chain.update(0, bad), reg, validators),
{
    let corrupted = chain.update(0, bad);
    assert(block_ok(chain[1], chain[0], reg, validators));
    assert(!block_ok(corrupted[1], corrupted[0], reg, validators));
}

/// Revocation is retroactive: under a validator table that does not
/// authorize the producer of some committed non-genesis block, validation
/// rejects the chain, whatever its hashes and links.
pub proof fn lemma_revocation_retroactive(
    chain: Seq<Block>,
    reg: Map<Seq<char>, Vec<u8>>,
    validators: Map<Seq<char>, bool>,
    i: int,
)
    requires
        1 <= i < chain.len(),
        !(validators.contains_key(chain[i].validator@) && validators[chain[i].validator@]),
    ensures
        !chain_valid(chain, reg, validators),
{
    assert(!block_ok(chain[i], chain[i - 1], reg, validators));
}

/// Exact clipped subtraction of an amount from a balance.
fn clip_sub(balance: i128, amount: u64) -> (r: i128)
    ensures
        r == clip(balance - amount),
{
    let a = amount as i128;
    if balance >= i128::MIN + a {
        balance - a
    } else {
        i128::MIN
    }
}

/// Exact clipped addition of an amount to a balance.
fn clip_add(balance: i128, amount: u64) -> (r: i128)
    ensures
        r == clip(balance + amount),
{
    let a = amount as i128;
    if balance <= i128::MAX - a {
        balance + a
    } else {
        i128::MAX
    }
}

} // verus!
