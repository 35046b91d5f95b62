//! Blocks, and the chain that links each block to the one before it by a
//! hash.

use crate::ledger::Transaction;
use sha2::{Digest, Sha256};
use vstd::prelude::*;

verus! {

/// The SHA-256 digest of a message.
pub uninterp spec fn sha256(data: Seq<u8>) -> Seq<u8>;

/// Trusted: calls `<sha2::Sha256 as sha2::Digest>::digest`, which feeds the
/// whole input to a fresh hasher and finalizes it. The contract claims that
/// the bytes handed back are the SHA-256 digest of `data`, and so depend on
/// nothing but `data`.
#[verifier::external_body]
fn sha256_digest(data: &[u8]) -> (digest: Vec<u8>)
    ensures
        digest@ == sha256(data@),
{
    Sha256::digest(data).to_vec()
}

/// A batch of accepted operations, cut from the ledger's log at one time.
#[derive(Debug)]
pub struct Block {
    /// The place of the block in its chain, 0 for the first.
    pub id: u32,
    /// The operations of the block with their sequence numbers, oldest first.
    pub transactions: Vec<Transaction>,
    /// The hash that stands for the block.
    pub block_hash: Vec<u8>,
}

/// A block as a mathematical value.
pub struct BlockView {
    pub id: nat,
    pub transactions: Seq<Transaction>,
    pub block_hash: Seq<u8>,
}

impl View for Block {
    type V = BlockView;

    open spec fn view(&self) -> BlockView {
        BlockView {
            id: self.id as nat,
            transactions: self.transactions@,
            block_hash: self.block_hash@,
        }
    }
}

/// The block that every chain starts with: no operations, an empty hash.
pub open spec fn genesis() -> BlockView {
    BlockView { id: 0, transactions: Seq::empty(), block_hash: Seq::empty() }
}

/// The block that follows `prev` and holds `transactions`. Its hash is the
/// digest of the hash of `prev`.
pub open spec fn successor(prev: BlockView, transactions: Seq<Transaction>) -> BlockView {
    BlockView { id: prev.id + 1, transactions, block_hash: sha256(prev.block_hash) }
}

/// Whether `blocks` is a chain: it starts with the genesis block, and every
/// other block holds at least one operation and follows the block before it.
pub open spec fn is_chain(blocks: Seq<BlockView>) -> bool {
    &&& blocks.len() > 0
    &&& blocks[0] == genesis()
    &&& forall|i: int|
        0 < i < blocks.len() ==> (#[trigger] blocks[i]).transactions.len() > 0 && blocks[i]
            == successor(blocks[i - 1], blocks[i].transactions)
}

/// The chain after a cut that took `transactions` from the ledger: a cut
/// that took nothing adds no block.
pub open spec fn extended(blocks: Seq<BlockView>, transactions: Seq<Transaction>) -> Seq<
    BlockView,
> {
    if transactions.len() == 0 {
        blocks
    } else {
        blocks.push(successor(blocks.last(), transactions))
    }
}

/// The ids of a chain count up from 0 without a gap.
pub proof fn lemma_chain_ids(blocks: Seq<BlockView>, i: int)
    requires
        is_chain(blocks),
        0 <= i < blocks.len(),
    ensures
        blocks[i].id == i,
    decreases i,
{
    if i > 0 {
        lemma_chain_ids(blocks, i - 1);
    }
}

/// The hash of a block that is not the first is settled by the hash of the
/// block before it: where two chains agree on the one, they agree on the
/// other.
pub proof fn lemma_hash_follows_previous_hash(
    a: Seq<BlockView>,
    i: int,
    b: Seq<BlockView>,
    j: int,
)
    requires
        is_chain(a),
        is_chain(b),
        0 < i < a.len(),
        0 < j < b.len(),
        a[i - 1].block_hash == b[j - 1].block_hash,
    ensures
        a[i].block_hash == sha256(a[i - 1].block_hash),
        a[i].block_hash == b[j].block_hash,
{
}

/// A chain stays a chain when a cut extends it.
pub proof fn lemma_extended_is_chain(blocks: Seq<BlockView>, transactions: Seq<Transaction>)
    requires
        is_chain(blocks),
    ensures
        is_chain(extended(blocks, transactions)),
        extended(blocks, transactions).len() == blocks.len() + if transactions.len() == 0 {
            0int
        } else {
            1int
        },
{
}

impl Block {
    /// A block with the given id, operations and hash.
    pub fn new(id: u32, transactions: Vec<Transaction>, block_hash: Vec<u8>) -> (block: Block)
        ensures
            block.id == id,
            block.transactions == transactions,
            block.block_hash == block_hash,
    {
        Block { id, transactions, block_hash }
    }
}

impl Default for Block {
    /// The genesis block.
    fn default() -> (block: Block)
        ensures
            block@ == genesis(),
    {
        Block { id: 0, transactions: Vec::new(), block_hash: Vec::new() }
    }
}

/// The history of all cuts.
pub struct Chain {
    blocks: Vec<Block>,
}

impl View for Chain {
    type V = Seq<BlockView>;

    closed spec fn view(&self) -> Seq<BlockView> {
        Seq::new(self.blocks@.len(), |i: int| self.blocks@[i]@)
    }
}

impl Chain {
    /// Whether the blocks form a chain.
    pub open spec fn wf(&self) -> bool {
        is_chain(self@)
    }

    /// The chain that holds the genesis block and no other.
    pub fn new() -> (chain: Chain)
        ensures
            chain.wf(),
            chain@ == seq![genesis()],
    {
        let mut blocks: Vec<Block> = Vec::new();
        blocks.push(Block::default());
        let chain = Chain { blocks };
        assert(chain@ =~= seq![genesis()]);
        chain
    }

    /// The blocks of the chain, the genesis block first.
    pub fn blocks(&self) -> (blocks: &Vec<Block>)
        ensures
            blocks@.len() == self@.len(),
            forall|i: int| 0 <= i < blocks@.len() ==> (#[trigger] blocks@[i])@ == self@[i],
    {
        &self.blocks
    }

    /// Adds the block for a cut that took `transactions` from the ledger, and
    /// says whether there was a block to add: a cut that took nothing adds
    /// none.
    pub fn append(&mut self, transactions: Vec<Transaction>) -> (appended: bool)
        requires
            old(self).wf(),
            transactions@.len() > 0 ==> old(self)@.len() <= u32::MAX,
        ensures
            final(self).wf(),
            appended == (transactions@.len() > 0),
            final(self)@ == extended(old(self)@, transactions@),
    {
        if transactions.is_empty() {
            return false;
        }
        let n: usize = self.blocks.len();
        proof {
            lemma_chain_ids(self@, n - 1);
        }
        let tip = &self.blocks[n - 1];
        let block_hash = sha256_digest(tip.block_hash.as_slice());
        let block = Block::new(tip.id + 1, transactions, block_hash);
        self.blocks.push(block);
        proof {
            assert(self@ =~= extended(old(self)@, transactions@));
            lemma_extended_is_chain(old(self)@, transactions@);
        }
        true
    }
}

} // verus!
