//! A single-node ledger: an append-only chain of hash-linked blocks, a pool of
//! pending transactions, and a proof-of-work search that seals the pool into
//! new blocks.

mod block;
mod digest;
mod ledger;
mod pool;
mod proof_of_work;
mod transaction;

pub use block::{block_payload, transaction_payload, transactions_payload, Block, BlockView, Timestamp};
pub use digest::{decimal, digit_char, json_quoted, push_decimal, sha256_hex};
pub use ledger::{
    appends_one_block, block_hash, chain_linked, chain_valid, first_valid_proof, genesis_block,
    lemma_mining_keeps_chain_linked, lemma_seal_keeps_chain_valid, lemma_serialized_mines,
    lemma_submit_then_seal, mined, next_block, reward, sealed, with_transaction, Blockchain,
    BlockchainView, LedgerError, MiningBasis, GENESIS_PROOF, MINING_REWARD,
};
pub use pool::{drained, lemma_drain_twice, TransactionPool};
pub use proof_of_work::{
    hash_meets_difficulty, is_valid_proof, meets_difficulty, proof_guess, proof_of_work, valid_proof,
    DIFFICULTY,
};
pub use transaction::{copy_transactions, views_of, Transaction, TransactionView};
