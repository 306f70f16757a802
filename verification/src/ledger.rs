//! The minimal chain scaffold: a block shape and its genesis value.

use vstd::prelude::*;

verus! {

/// One block of the scaffold chain.
pub struct Block {
    pub index: u64,
    pub previous_hash: String,
    pub timestamp: u64,
    pub data: Vec<u8>,
    pub hash: String,
}

impl Block {
    /// The genesis block: index zero, no predecessor, no data, the fixed
    /// genesis hash.
    pub fn genesis() -> (b: Block)
        ensures
            b.index == 0,
            b.previous_hash@ == Seq::<char>::empty(),
            b.timestamp == 0,
            b.data@ == Seq::<u8>::empty(),
            b.hash@ == "genesis"@,
    {
        Block {
            index: 0,
            previous_hash: String::new(),
            timestamp: 0,
            data: Vec::new(),
            hash: "genesis".to_owned(),
        }
    }
}

} // verus!
