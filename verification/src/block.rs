//! An ordered, hash-committed batch of transactions, linked to its
//! predecessor by hash.

use vstd::prelude::*;
use vstd::string::*;
use crate::clock::now_seconds;
use crate::digest::{sha256, sha256_of, dec_of, u64_to_dec};
use crate::hexcode::{hex_of, hex_encode};
use crate::transaction::Transaction;

verus! {

/// The characters one transaction contributes to its block's hash payload:
/// the four hashed fields and a signature marker.
pub open spec fn tx_repr(tx: Transaction) -> Seq<char> {
    tx.sender@ + tx.recipient@ + dec_of(tx.amount as nat) + dec_of(tx.timestamp as nat) + match tx
        .signature {
        Some(s) => seq!['1'] + s@,
        None => seq!['0'],
    }
}

/// The serialized transaction list entering a block's hash, in block order.
pub open spec fn txs_repr(txs: Seq<Transaction>) -> Seq<char>
    decreases txs.len(),
{
    if txs.len() == 0 {
        Seq::empty()
    } else {
        tx_repr(txs[0]) + txs_repr(txs.drop_first())
    }
}

proof fn lemma_txs_repr_snoc(txs: Seq<Transaction>, tx: Transaction)
    ensures
        txs_repr(txs.push(tx)) == txs_repr(txs) + tx_repr(tx),
    decreases txs.len(),
{
    if txs.len() == 0 {
        assert(txs.push(tx)[0] == tx);
        assert(txs.push(tx).drop_first() =~= Seq::<Transaction>::empty());
        assert(txs_repr(Seq::<Transaction>::empty()) == Seq::<char>::empty());
        assert(txs_repr(txs.push(tx)) =~= txs_repr(txs) + tx_repr(tx));
    } else {
        lemma_txs_repr_snoc(txs.drop_first(), tx);
        assert(txs.push(tx)[0] == txs[0]);
        assert(txs.push(tx).drop_first() =~= txs.drop_first().push(tx));
        assert(txs_repr(txs.push(tx)) =~= txs_repr(txs) + tx_repr(tx));
    }
}

/// The string whose digest is a block's hash: the five committed fields,
/// concatenated in a fixed order.
pub open spec fn block_payload(
    index: u32,
    timestamp: u64,
    txs: Seq<Transaction>,
    previous_hash: Seq<char>,
    validator: Seq<char>,
) -> Seq<char> {
    dec_of(index as nat) + dec_of(timestamp as nat) + txs_repr(txs) + previous_hash + validator
}

/// A block's hash: the hex form of its payload's digest.
pub open spec fn block_hash(
    index: u32,
    timestamp: u64,
    txs: Seq<Transaction>,
    previous_hash: Seq<char>,
    validator: Seq<char>,
) -> Seq<char> {
    hex_of(sha256_of(block_payload(index, timestamp, txs, previous_hash, validator)))
}

/// A block of the chain.  `hash` is computed once at construction from the
/// other five fields; a block whose recomputed hash disagrees is corrupt.
pub struct Block {
    pub index: u32,
    pub timestamp: u64,
    pub transactions: Vec<Transaction>,
    pub previous_hash: String,
    pub hash: String,
    pub validator: String,
}

impl Block {
    /// The stored hash equals the digest of the other five fields.
    pub open spec fn hash_ok(self) -> bool {
        self.hash@ == block_hash(
            self.index,
            self.timestamp,
            self.transactions@,
            self.previous_hash@,
            self.validator@,
        )
    }

    /// A new block with the given timestamp; its hash is computed eagerly.
    pub fn new_at(
        index: u32,
        transactions: Vec<Transaction>,
        previous_hash: String,
        validator: String,
        timestamp: u64,
    ) -> (r: Block)
        ensures
            r.index == index,
            r.timestamp == timestamp,
            r.transactions@ == transactions@,
            r.previous_hash@ == previous_hash@,
            r.validator@ == validator@,
            r.hash_ok(),
    {
        let mut block = Block {
            index,
            timestamp,
            transactions,
            previous_hash,
            hash: String::new(),
            validator,
        };
        block.hash = block.calculate_hash();
        block
    }

    /// A new block stamped with the current time.
    pub fn new(index: u32, transactions: Vec<Transaction>, previous_hash: String, validator: String)
        -> (r: Block)
        ensures
            r.index == index,
            r.transactions@ == transactions@,
            r.previous_hash@ == previous_hash@,
            r.validator@ == validator@,
            r.hash_ok(),
    {
        let ts = now_seconds();
        Block::new_at(index, transactions, previous_hash, validator, ts)
    }

    /// Recomputes the hash of the five committed fields.
    pub fn calculate_hash(&self) -> (r: String)
        ensures
            r@ == block_hash(
                self.index,
                self.timestamp,
                self.transactions@,
                self.previous_hash@,
                self.validator@,
            ),
    {
        let mut data = u64_to_dec(self.index as u64);
        let timestamp_dec = u64_to_dec(self.timestamp);
        data.append(timestamp_dec.as_str());
        let txs = render_transactions(&self.transactions);
        data.append(txs.as_str());
        data.append(self.previous_hash.as_str());
        data.append(self.validator.as_str());
        assert(data@ == block_payload(
            self.index,
            self.timestamp,
            self.transactions@,
            self.previous_hash@,
            self.validator@,
        ));
        let digest = sha256(data.as_str());
        hex_encode(digest.as_slice())
    }
}

/// Agreement on every stored field (the transaction lists as sequences).
pub open spec fn same_block(a: Block, b: Block) -> bool {
    a.index == b.index && a.timestamp == b.timestamp && a.transactions@ == b.transactions@
        && a.previous_hash@ == b.previous_hash@ && a.hash@ == b.hash@ && a.validator@
        == b.validator@
}

impl Clone for Block {
    fn clone(&self) -> (r: Self)
        ensures
            same_block(r, *self),
    {
        Block {
            index: self.index,
            timestamp: self.timestamp,
            transactions: clone_transactions(&self.transactions),
            previous_hash: self.previous_hash.clone(),
            hash: self.hash.clone(),
            validator: self.validator.clone(),
        }
    }
}

/// Copies a transaction list, preserving order and every field.
pub fn clone_transactions(txs: &Vec<Transaction>) -> (r: Vec<Transaction>)
    ensures
        r@ == txs@,
{
    let mut out: Vec<Transaction> = Vec::new();
    let n = txs.len();
    let mut i: usize = 0;
    while i < n
        invariant
            n == txs@.len(),
            0 <= i <= n,
            out@ == txs@.take(i as int),
        decreases n - i,
    {
        out.push(txs[i].clone());
        proof {
            assert(txs@.take(i as int).push(txs@[i as int]) =~= txs@.take(i + 1 as int));
        }
        i += 1;
    }
    proof {
        assert(txs@.take(n as int) =~= txs@);
    }
    out
}

/// Renders one transaction's contribution to the hash payload.
fn render_transaction(tx: &Transaction) -> (r: String)
    ensures
        r@ == tx_repr(*tx),
{
    proof {
        reveal_strlit("0");
        reveal_strlit("1");
        assert(("0")@ =~= seq!['0']);
        assert(("1")@ =~= seq!['1']);
    }
    let mut data = tx.sender.clone();
    data.append(tx.recipient.as_str());
    let amount_dec = u64_to_dec(tx.amount);
    data.append(amount_dec.as_str());
    let timestamp_dec = u64_to_dec(tx.timestamp);
    data.append(timestamp_dec.as_str());
    match &tx.signature {
        Some(s) => {
            data.append("1");
            data.append(s.as_str());
        },
        None => {
            data.append("0");
        },
    }
    data
}

/// Renders the whole transaction list, in order.
fn render_transactions(txs: &Vec<Transaction>) -> (r: String)
    ensures
        r@ == txs_repr(txs@),
{
    let mut data = String::new();
    let n = txs.len();
    let mut i: usize = 0;
    while i < n
        invariant
            n == txs@.len(),
            0 <= i <= n,
            data@ == txs_repr(txs@.take(i as int)),
        decreases n - i,
    {
        let one = render_transaction(&txs[i]);
        data.append(one.as_str());
        proof {
            lemma_txs_repr_snoc(txs@.take(i as int), txs@[i as int]);
            assert(txs@.take(i as int).push(txs@[i as int]) =~= txs@.take(i + 1 as int));
        }
        i += 1;
    }
    proof {
        assert(txs@.take(n as int) =~= txs@);
    }
    data
}

/// The block hash is a function of the five committed fields alone: blocks
/// that agree on them have equal hashes.
pub proof fn lemma_block_hash_deterministic(a: Block, b: Block)
    requires
        a.index == b.index,
        a.timestamp == b.timestamp,
        a.transactions@ == b.transactions@,
        a.previous_hash@ == b.previous_hash@,
        a.validator@ == b.validator@,
    ensures
        block_hash(a.index, a.timestamp, a.transactions@, a.previous_hash@, a.validator@)
            == block_hash(b.index, b.timestamp, b.transactions@, b.previous_hash@, b.validator@),
{
}

} // verus!
