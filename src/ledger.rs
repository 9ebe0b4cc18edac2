//! The ledger: the chain of sealed blocks and the pool of pending transactions.

use crate::block::{block_payload, Block, BlockView, Timestamp};
use crate::digest::{sha256_hex, sha256_hex_of};
use crate::pool::TransactionPool;
use crate::proof_of_work::{is_valid_proof, proof_of_work, valid_proof};
use crate::transaction::{Transaction, TransactionView, views_of};
use vstd::prelude::*;

verus! {

/// The proof recorded in the genesis block.
pub const GENESIS_PROOF: usize = 100;

/// The amount of the transaction that rewards each mined block.
pub const MINING_REWARD: usize = 1;

/// Why the ledger refused to seal a block.
#[derive(Clone, Copy, Debug, PartialEq, Eq, Structural)]
pub enum LedgerError {
    /// The proof does not solve the puzzle set by the last block's proof.
    InvalidProof,
    /// A block was sealed since the mining basis was read.
    StaleBasis,
    /// No `usize` solves the puzzle set by the last block's proof.
    ProofSpaceExhausted,
}

/// The hash of a block: the digest of its canonical text.
pub open spec fn block_hash(b: BlockView) -> Seq<char> {
    sha256_hex(block_payload(b))
}

/// The first block of every chain.
pub open spec fn genesis_block(timestamp: Timestamp) -> BlockView {
    BlockView {
        index: 1,
        timestamp,
        transactions: Seq::empty(),
        proof: GENESIS_PROOF as nat,
        previous_hash: "1"@,
    }
}

/// Block `i` has index `i + 1`, and each block after the first records the
/// hash of the block before it.
pub open spec fn chain_linked(c: Seq<BlockView>) -> bool {
    &&& forall|i: int| 0 <= i < c.len() ==> #[trigger] c[i].index == i + 1
    &&& forall|i: int| 0 < i < c.len() ==> #[trigger] c[i].previous_hash == block_hash(c[i - 1])
}

/// A chain as the ledger keeps it: it starts with a genesis block, is linked,
/// and each proof solves the puzzle set by the proof before it.
pub open spec fn chain_valid(c: Seq<BlockView>) -> bool {
    &&& c.len() >= 1
    &&& c[0].index == 1
    &&& c[0].proof == GENESIS_PROOF as nat
    &&& c[0].previous_hash == "1"@
    &&& c[0].transactions == Seq::<TransactionView>::empty()
    &&& chain_linked(c)
    &&& forall|i: int| 0 < i < c.len() ==> #[trigger] is_valid_proof(c[i - 1].proof, c[i].proof)
}

/// The ledger's contents as mathematical values.
pub struct BlockchainView {
    pub chain: Seq<BlockView>,
    pub pending: Seq<TransactionView>,
}

/// The block that sealing with `proof` at `timestamp` appends.
pub open spec fn next_block(l: BlockchainView, proof: nat, timestamp: Timestamp) -> BlockView {
    BlockView {
        index: l.chain.len() + 1,
        timestamp,
        transactions: l.pending,
        proof,
        previous_hash: block_hash(l.chain.last()),
    }
}

/// The ledger after sealing with `proof` at `timestamp`.
pub open spec fn sealed(l: BlockchainView, proof: nat, timestamp: Timestamp) -> BlockchainView {
    BlockchainView { chain: l.chain.push(next_block(l, proof, timestamp)), pending: Seq::empty() }
}

/// The ledger after a transaction is submitted.
pub open spec fn with_transaction(l: BlockchainView, t: TransactionView) -> BlockchainView {
    BlockchainView { chain: l.chain, pending: l.pending.push(t) }
}

/// The transaction that rewards `miner` for a mined block.
pub open spec fn reward(miner: Seq<char>) -> TransactionView {
    TransactionView { sender: "0"@, recipient: miner, amount: MINING_REWARD as nat }
}

/// The ledger after `miner` mines a block with `proof` at `timestamp`.
pub open spec fn mined(l: BlockchainView, miner: Seq<char>, proof: nat, timestamp: Timestamp) -> BlockchainView {
    sealed(with_transaction(l, reward(miner)), proof, timestamp)
}

/// `b` is `a` with exactly one more block at the end.
pub open spec fn appends_one_block(a: BlockchainView, b: BlockchainView) -> bool {
    b.chain.len() == a.chain.len() + 1 && b.chain.subrange(0, a.chain.len() as int) == a.chain
}

/// The first proof that solves the puzzle set by `last_proof`.
pub open spec fn first_valid_proof(last_proof: nat, proof: nat) -> bool {
    is_valid_proof(last_proof, proof) && forall|q: usize| (q as nat) < proof ==> !is_valid_proof(last_proof, q as nat)
}

/// What a miner reads before searching outside the ledger's lock: the chain's
/// height and its last proof.
#[derive(Clone, Copy, Debug)]
pub struct MiningBasis {
    pub height: usize,
    pub last_proof: usize,
}

/// The ledger: the chain of sealed blocks and the pending pool.
#[derive(Debug)]
pub struct Blockchain {
    chain: Vec<Block>,
    pending: TransactionPool,
}

impl View for Blockchain {
    type V = BlockchainView;

    closed spec fn view(&self) -> BlockchainView {
        BlockchainView { chain: self.chain@.map_values(|b: Block| b@), pending: self.pending@ }
    }
}

/// Sealing a valid proof onto a valid chain gives a valid chain.
pub proof fn lemma_seal_keeps_chain_valid(l: BlockchainView, proof: nat, timestamp: Timestamp)
    requires
        chain_valid(l.chain),
        is_valid_proof(l.chain.last().proof, proof),
    ensures
        chain_valid(sealed(l, proof, timestamp).chain),
        appends_one_block(l, sealed(l, proof, timestamp)),
{
    let c = sealed(l, proof, timestamp).chain;
    assert(c.subrange(0, l.chain.len() as int) =~= l.chain);
    assert forall|i: int| 0 < i < c.len() implies #[trigger] c[i].previous_hash == block_hash(c[i - 1]) by {
        if i < l.chain.len() {
            assert(l.chain[i].previous_hash == block_hash(l.chain[i - 1]));
        }
    }
    assert forall|i: int| 0 < i < c.len() implies #[trigger] is_valid_proof(c[i - 1].proof, c[i].proof) by {
        if i < l.chain.len() {
            assert(is_valid_proof(l.chain[i - 1].proof, l.chain[i].proof));
        }
    }
}

/// Mining with a valid proof keeps the chain valid and linked: in the chain
/// after the mined block, block `i` has index `i + 1` and each block after the
/// first records the hash of the block before it.
pub proof fn lemma_mining_keeps_chain_linked(
    l: BlockchainView,
    miner: Seq<char>,
    proof: nat,
    timestamp: Timestamp,
)
    requires
        chain_valid(l.chain),
        is_valid_proof(l.chain.last().proof, proof),
    ensures
        chain_valid(mined(l, miner, proof, timestamp).chain),
        forall|i: int|
            0 <= i < mined(l, miner, proof, timestamp).chain.len()
                ==> #[trigger] mined(l, miner, proof, timestamp).chain[i].index == i + 1,
        forall|i: int|
            0 < i < mined(l, miner, proof, timestamp).chain.len()
                ==> #[trigger] mined(l, miner, proof, timestamp).chain[i].previous_hash
                == block_hash(mined(l, miner, proof, timestamp).chain[i - 1]),
{
    lemma_seal_keeps_chain_valid(with_transaction(l, reward(miner)), proof, timestamp);
}

/// A transaction submitted right before a seal is in the sealed block, after
/// the transactions that were already pending, and the pool is empty right
/// after the seal.
pub proof fn lemma_submit_then_seal(l: BlockchainView, t: TransactionView, proof: nat, timestamp: Timestamp)
    ensures
        next_block(with_transaction(l, t), proof, timestamp).transactions == l.pending.push(t),
        next_block(with_transaction(l, t), proof, timestamp).transactions.contains(t),
        sealed(with_transaction(l, t), proof, timestamp).pending == Seq::<TransactionView>::empty(),
{
    assert(l.pending.push(t)[l.pending.len() as int] == t);
}

proof fn lemma_appends_accumulate(states: Seq<BlockchainView>)
    requires
        states.len() >= 1,
        forall|k: int| 0 <= k < states.len() - 1 ==> #[trigger] appends_one_block(states[k], states[k + 1]),
    ensures
        states.last().chain.len() == states[0].chain.len() + (states.len() - 1),
        states.last().chain.subrange(0, states[0].chain.len() as int) == states[0].chain,
    decreases states.len(),
{
    if states.len() == 1 {
        assert(states[0].chain.subrange(0, states[0].chain.len() as int) =~= states[0].chain);
    } else {
        let prev = states.drop_last();
        assert forall|k: int| 0 <= k < prev.len() - 1 implies #[trigger] appends_one_block(prev[k], prev[k + 1]) by {
            assert(appends_one_block(states[k], states[k + 1]));
        }
        lemma_appends_accumulate(prev);
        let k = states.len() - 2;
        assert(appends_one_block(states[k], states[k + 1]));
        assert(prev.last() == states[k]);
        let a = states[k].chain;
        let b = states[k + 1].chain;
        assert(b.subrange(0, states[0].chain.len() as int) =~= a.subrange(0, states[0].chain.len() as int));
    }
}

/// Blocks sealed one after another, each appended to the ledger that the
/// previous one left, get distinct consecutive indices: `n` seals add exactly
/// `n` blocks, with indices one past the starting chain onward, none repeated
/// and none skipped, and the starting chain is kept as it was.
pub proof fn lemma_serialized_mines(states: Seq<BlockchainView>)
    requires
        states.len() >= 1,
        chain_valid(states.last().chain),
        forall|k: int| 0 <= k < states.len() - 1 ==> #[trigger] appends_one_block(states[k], states[k + 1]),
    ensures
        states.last().chain.len() == states[0].chain.len() + (states.len() - 1),
        states.last().chain.subrange(0, states[0].chain.len() as int) == states[0].chain,
        forall|k: int|
            0 <= k < states.len() - 1
                ==> #[trigger] states.last().chain[states[0].chain.len() + k].index == states[0].chain.len() + k + 1,
        forall|j: int, k: int|
            states[0].chain.len() <= j < states.last().chain.len() && states[0].chain.len() <= k
                < states.last().chain.len() && j != k
                ==> #[trigger] states.last().chain[j].index != #[trigger] states.last().chain[k].index,
{
    lemma_appends_accumulate(states);
    let c = states.last().chain;
    assert forall|k: int| 0 <= k < states.len() - 1 implies #[trigger] c[states[0].chain.len() + k].index
        == states[0].chain.len() + k + 1 by {
        assert(c[states[0].chain.len() + k].index == states[0].chain.len() + k + 1);
    }
}

impl Blockchain {
    /// The ledger's invariant.
    pub open spec fn wf(&self) -> bool {
        chain_valid(self@.chain)
    }

    /// A ledger holding only the genesis block, with an empty pool.
    pub fn new(timestamp: Timestamp) -> (r: Blockchain)
        ensures
            r.wf(),
            r@.chain == seq![genesis_block(timestamp)],
            r@.pending == Seq::<TransactionView>::empty(),
    {
        let genesis = Block {
            index: 1,
            timestamp,
            transactions: Vec::new(),
            proof: GENESIS_PROOF,
            previous_hash: String::from_str("1"),
        };
        let mut chain: Vec<Block> = Vec::new();
        chain.push(genesis);
        let r = Blockchain { chain, pending: TransactionPool::new() };
        assert(views_of(Seq::<Transaction>::empty()) =~= Seq::<TransactionView>::empty());
        assert(r@.chain =~= seq![genesis_block(timestamp)]);
        r
    }

    /// The hash of a block.
    pub fn hash(block: &Block) -> (r: String)
        ensures
            r@ == block_hash(block@),
    {
        let payload = block.payload();
        sha256_hex_of(payload.as_str())
    }

    /// How many blocks the chain holds.
    pub fn len(&self) -> (r: usize)
        ensures
            r == self@.chain.len(),
    {
        self.chain.len()
    }

    /// The proof of the last block.
    pub fn last_proof(&self) -> (r: usize)
        requires
            self.wf(),
        ensures
            r == self@.chain.last().proof,
    {
        self.chain[self.chain.len() - 1].proof
    }

    /// The chain's height and last proof, for a search made outside the lock.
    pub fn mining_basis(&self) -> (r: MiningBasis)
        requires
            self.wf(),
        ensures
            r.height == self@.chain.len(),
            r.last_proof == self@.chain.last().proof,
    {
        MiningBasis { height: self.chain.len(), last_proof: self.last_proof() }
    }

    /// A copy of the whole chain, in index order.
    pub fn snapshot(&self) -> (r: Vec<Block>)
        ensures
            r@.map_values(|b: Block| b@) == self@.chain,
    {
        let mut r: Vec<Block> = Vec::new();
        let mut i: usize = 0;
        while i < self.chain.len()
            invariant
                i <= self.chain@.len(),
                r@.len() == i,
                forall|k: int| 0 <= k < i ==> #[trigger] r@[k]@ == self.chain@[k]@,
            decreases self.chain@.len() - i,
        {
            r.push(self.chain[i].clone());
            i = i + 1;
        }
        assert(r@.map_values(|b: Block| b@) =~= self@.chain);
        r
    }

    /// Appends a transaction to the pending pool and returns the index of the
    /// block it is expected to land in: one past the last block's. That index
    /// is an estimate: a block sealed in between takes the transaction sooner.
    pub fn new_transaction(&mut self, sender: String, recipient: String, amount: usize) -> (r: usize)
        requires
            old(self).wf(),
            old(self)@.chain.len() < usize::MAX,
        ensures
            final(self).wf(),
            final(self)@ == with_transaction(
                old(self)@,
                TransactionView { sender: sender@, recipient: recipient@, amount: amount as nat },
            ),
            r == old(self)@.chain.last().index + 1,
            r == old(self)@.chain.len() + 1,
    {
        self.pending.submit(Transaction::new(sender, recipient, amount));
        let last = self.chain.len() - 1;
        assert(self@.chain[last as int] == self.chain@[last as int]@);
        assert(self@.chain[last as int].index == last + 1);
        self.chain[last].index + 1
    }

    /// Seals the pending pool into a new block with `proof`, appends it and
    /// returns a copy. Refused, with the ledger unchanged, when `proof` does not
    /// solve the puzzle set by the last block's proof.
    pub fn new_block(&mut self, proof: usize, timestamp: Timestamp) -> (r: Result<Block, LedgerError>)
        requires
            old(self).wf(),
            old(self)@.chain.len() < usize::MAX,
        ensures
            final(self).wf(),
            match r {
                Ok(b) => {
                    &&& is_valid_proof(old(self)@.chain.last().proof, proof as nat)
                    &&& b@ == next_block(old(self)@, proof as nat, timestamp)
                    &&& final(self)@ == sealed(old(self)@, proof as nat, timestamp)
                    &&& appends_one_block(old(self)@, final(self)@)
                },
                Err(e) => {
                    &&& e == LedgerError::InvalidProof
                    &&& !is_valid_proof(old(self)@.chain.last().proof, proof as nat)
                    &&& final(self)@ == old(self)@
                },
            },
    {
        let last_proof = self.last_proof();
        if !valid_proof(last_proof, proof) {
            return Err(LedgerError::InvalidProof);
        }
        let previous_hash = Self::hash(&self.chain[self.chain.len() - 1]);
        let transactions = self.pending.drain();
        let block = Block { index: self.chain.len() + 1, timestamp, transactions, proof, previous_hash };
        let copy = block.clone();
        self.chain.push(block);
        proof {
            lemma_seal_keeps_chain_valid(old(self)@, proof as nat, timestamp);
            assert(copy@ == next_block(old(self)@, proof as nat, timestamp));
            assert(self@.chain =~= old(self)@.chain.push(copy@));
            assert(self@.pending =~= Seq::<TransactionView>::empty());
        }
        Ok(copy)
    }

    /// Mines one block: finds the first proof that solves the puzzle set by the
    /// last block's proof, adds the reward transaction for `miner` to the pool,
    /// and seals the pool with that proof.
    pub fn mine(&mut self, miner: &str, timestamp: Timestamp) -> (r: Result<Block, LedgerError>)
        requires
            old(self).wf(),
            old(self)@.chain.len() < usize::MAX,
        ensures
            final(self).wf(),
            match r {
                Ok(b) => {
                    &&& first_valid_proof(old(self)@.chain.last().proof, b@.proof)
                    &&& b@ == next_block(with_transaction(old(self)@, reward(miner@)), b@.proof, timestamp)
                    &&& final(self)@ == mined(old(self)@, miner@, b@.proof, timestamp)
                    &&& appends_one_block(old(self)@, final(self)@)
                },
                Err(e) => {
                    &&& e == LedgerError::ProofSpaceExhausted
                    &&& forall|q: usize| !is_valid_proof(old(self)@.chain.last().proof, q as nat)
                    &&& final(self)@ == old(self)@
                },
            },
    {
        let last_proof = self.last_proof();
        match proof_of_work(last_proof) {
            None => Err(LedgerError::ProofSpaceExhausted),
            Some(p) => {
                self.new_transaction(String::from_str("0"), String::from_str(miner), MINING_REWARD);
                proof {
                    reveal_strlit("0");
                }
                self.new_block(p, timestamp)
            },
        }
    }

    /// Appends a block mined outside the lock against `basis`: refused with
    /// `StaleBasis` when the chain has grown since `basis` was read, and with
    /// `InvalidProof` when `proof` does not solve the last block's puzzle;
    /// otherwise adds the reward for `miner` and seals the pool with `proof`.
    pub fn commit_mined(
        &mut self,
        basis: MiningBasis,
        proof: usize,
        miner: &str,
        timestamp: Timestamp,
    ) -> (r: Result<Block, LedgerError>)
        requires
            old(self).wf(),
            old(self)@.chain.len() < usize::MAX,
        ensures
            final(self).wf(),
            basis.height != old(self)@.chain.len() ==> r == Err::<Block, LedgerError>(LedgerError::StaleBasis)
                && final(self)@ == old(self)@,
            basis.height == old(self)@.chain.len() && !is_valid_proof(old(self)@.chain.last().proof, proof as nat)
                ==> r == Err::<Block, LedgerError>(LedgerError::InvalidProof) && final(self)@ == old(self)@,
            basis.height == old(self)@.chain.len() && is_valid_proof(old(self)@.chain.last().proof, proof as nat)
                ==> (r matches Ok(b) && b@ == next_block(with_transaction(old(self)@, reward(miner@)), proof as nat, timestamp)
                && final(self)@ == mined(old(self)@, miner@, proof as nat, timestamp)
                && appends_one_block(old(self)@, final(self)@)),
    {
        if basis.height != self.chain.len() {
            return Err(LedgerError::StaleBasis);
        }
        if !valid_proof(self.last_proof(), proof) {
            return Err(LedgerError::InvalidProof);
        }
        self.new_transaction(String::from_str("0"), String::from_str(miner), MINING_REWARD);
        proof {
            reveal_strlit("0");
        }
        self.new_block(proof, timestamp)
    }

    /// A copy of the pending transactions, in submission order.
    pub fn pending_transactions(&self) -> (r: Vec<Transaction>)
        ensures
            views_of(r@) == self@.pending,
    {
        self.pending.contents()
    }
}

} // verus!
