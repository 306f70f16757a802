//! The proof-of-authority chain: pending transactions, a validator set, and
//! blocks whose hashes are built from index, predecessor, and timestamp.
//! Only the wall-clock read is outside the verified logic.

use vstd::prelude::*;
use vstd::string::StringExecFns;
use crate::text::{dec_str, i64_to_string, int_str, u64_to_string};

verus! {

/// A pending value transfer with an optional payload.
pub struct Transaction {
    pub from: String,
    pub to: String,
    pub amount: u64,
    pub payload: Option<String>,
}

/// One mined block.
pub struct Block {
    pub index: u64,
    pub previous_hash: String,
    pub timestamp: i64,
    pub transactions: Vec<Transaction>,
    pub nonce: u64,
    pub hash: String,
    pub validator: String,
}

/// The chain state: mined blocks, the pending pool, and the validators
/// allowed to mine.
pub struct Blockchain {
    pub chain: Vec<Block>,
    pub pending: Vec<Transaction>,
    pub validators: Vec<String>,
}

/// Whether `v` names one of the validators.
pub open spec fn is_validator(vs: Seq<String>, v: Seq<char>) -> bool {
    exists|i: int| 0 <= i < vs.len() && (#[trigger] vs[i])@ == v
}

/// The scaffold hash of a block: its index, predecessor hash, and timestamp,
/// joined with colons. Deliberately not cryptographic.
pub open spec fn block_hash_str(index: u64, prev: Seq<char>, ts: int) -> Seq<char> {
    "hash:"@ + dec_str(index as nat) + ":"@ + prev + ":"@ + int_str(ts)
}

/// Relies on `chrono::Utc::now`: the current wall-clock time as a Unix
/// timestamp. Nothing is assumed of its value.
#[verifier::external_body]
fn now_timestamp() -> i64 {
    chrono::Utc::now().timestamp()
}

/// An exact copy of one transaction.
fn clone_transaction(t: &Transaction) -> (r: Transaction)
    ensures
        r == *t,
{
    Transaction {
        from: t.from.clone(),
        to: t.to.clone(),
        amount: t.amount,
        payload: match &t.payload {
            Some(p) => Some(p.clone()),
            None => None,
        },
    }
}

/// An exact copy of a transaction list.
fn clone_transactions(v: &Vec<Transaction>) -> (r: Vec<Transaction>)
    ensures
        r@ == v@,
{
    let n = v.len();
    let mut r: Vec<Transaction> = Vec::new();
    let mut i: usize = 0;
    while i < n
        invariant
            n == v@.len(),
            i <= n,
            r@ =~= v@.subrange(0, i as int),
        decreases n - i,
    {
        r.push(clone_transaction(&v[i]));
        proof {
            assert(r@ =~= v@.subrange(0, i as int + 1));
        }
        i = i + 1;
    }
    proof {
        assert(r@ =~= v@);
    }
    r
}

impl Blockchain {
    /// A fresh chain for the given validators: one genesis block, nothing
    /// pending.
    pub fn new(validators: Vec<String>) -> (c: Blockchain)
        ensures
            c.chain@.len() == 1,
            genesis_shape(c.chain@[0]),
            c.pending@.len() == 0,
            c.validators@ == validators@,
    {
        let mut bc = Blockchain { chain: Vec::new(), pending: Vec::new(), validators };
        let g = bc.genesis();
        bc.chain.push(g);
        bc
    }

    /// The genesis block: index zero, the fixed predecessor and hash marks,
    /// stamped with the current wall-clock time.
    pub fn genesis(&self) -> (b: Block)
        ensures
            genesis_shape(b),
    {
        Block {
            index: 0,
            previous_hash: "0".to_owned(),
            timestamp: now_timestamp(),
            transactions: Vec::new(),
            nonce: 0,
            hash: "genesis_hash".to_owned(),
            validator: "genesis".to_owned(),
        }
    }

    /// Queues a transaction for the next mined block.
    pub fn add_transaction(&mut self, tx: Transaction)
        ensures
            final(self).pending@ == old(self).pending@.push(tx),
            final(self).chain == old(self).chain,
            final(self).validators == old(self).validators,
    {
        self.pending.push(tx);
    }

    /// Mines a block: an unknown validator is turned away untouched; a known
    /// one drains the whole pending pool into a block stamped with the
    /// current time, chained to the last block by the scaffold hash.
    pub fn mine_block(&mut self, validator: String) -> (result: Option<Block>)
        requires
            old(self).chain@.len() > 0,
        ensures
            final(self).validators == old(self).validators,
            !is_validator(old(self).validators@, validator@) ==> *final(self) == *old(self)
                && result is None,
            is_validator(old(self).validators@, validator@) ==> match result {
                Some(b) => {
                    &&& b.index as int == old(self).chain@.len()
                    &&& b.previous_hash@ == old(self).chain@.last().hash@
                    &&& b.transactions@ == old(self).pending@
                    &&& b.nonce == 0
                    &&& b.hash@ == block_hash_str(b.index, b.previous_hash@, b.timestamp as int)
                    &&& b.validator@ == validator@
                    &&& final(self).chain@.len() == old(self).chain@.len() + 1
                    &&& final(self).chain@.drop_last() == old(self).chain@
                    &&& blocks_alike(final(self).chain@.last(), b)
                    &&& final(self).pending@.len() == 0
                },
                None => false,
            },
    {
        let mut known = false;
        let n = self.validators.len();
        let mut i: usize = 0;
        while i < n
            invariant
                n == self.validators@.len(),
                known ==> is_validator(self.validators@, validator@),
                !known ==> forall|j: int|
                    0 <= j < i ==> (#[trigger] self.validators@[j])@ != validator@,
                i <= n,
            decreases n - i,
        {
            if self.validators[i] == validator {
                known = true;
            }
            i = i + 1;
        }
        if !known {
            return None;
        }
        let index = self.chain.len() as u64;
        let last = self.chain.len() - 1;
        let previous_hash = self.chain[last].hash.clone();
        let timestamp = now_timestamp();
        let mut transactions: Vec<Transaction> = Vec::new();
        core::mem::swap(&mut transactions, &mut self.pending);
        let nonce: u64 = 0;
        let mut hash = "hash:".to_owned();
        let rendered_index = u64_to_string(index);
        hash.append(rendered_index.as_str());
        hash.append(":");
        hash.append(previous_hash.as_str());
        hash.append(":");
        let rendered_ts = i64_to_string(timestamp);
        hash.append(rendered_ts.as_str());
        let copied = clone_transactions(&transactions);
        let block = Block {
            index,
            previous_hash: previous_hash.clone(),
            timestamp,
            transactions,
            nonce,
            hash: hash.clone(),
            validator: validator.clone(),
        };
        let chained = Block {
            index,
            previous_hash,
            timestamp,
            transactions: copied,
            nonce,
            hash,
            validator,
        };
        let ghost before = self.chain@;
        self.chain.push(chained);
        proof {
            assert(self.chain@.drop_last() =~= before);
        }
        Some(block)
    }
}

/// Whether two blocks carry the same content, field by field, down to the
/// characters and the listed transactions.
pub open spec fn blocks_alike(a: Block, b: Block) -> bool {
    &&& a.index == b.index
    &&& a.previous_hash@ == b.previous_hash@
    &&& a.timestamp == b.timestamp
    &&& a.transactions@ == b.transactions@
    &&& a.nonce == b.nonce
    &&& a.hash@ == b.hash@
    &&& a.validator@ == b.validator@
}

/// The shape every genesis block has; its timestamp is whatever the clock
/// read.
pub open spec fn genesis_shape(b: Block) -> bool {
    &&& b.index == 0
    &&& b.previous_hash@ == "0"@
    &&& b.transactions@.len() == 0
    &&& b.nonce == 0
    &&& b.hash@ == "genesis_hash"@
    &&& b.validator@ == "genesis"@
}

} // verus!
