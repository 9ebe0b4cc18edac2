use blockchain::{
    hash_meets_difficulty, proof_of_work, push_decimal, valid_proof, Block, Blockchain, LedgerError, Timestamp, Transaction,
    TransactionPool, GENESIS_PROOF,
};

const GENESIS_HASH: &str = "73031ba300c38b905c93ac1087913a9ad771d17d9dc1dfe3eb191b6027ba08d3";

fn at(secs: u64) -> Timestamp {
    Timestamp { secs, nanos: 0 }
}

fn names(block: &Block) -> Vec<(String, String, usize)> {
    block
        .transactions
        .iter()
        .map(|t| (t.sender.clone(), t.recipient.clone(), t.amount))
        .collect()
}

#[test]
fn genesis_block_is_fixed() {
    let ledger = Blockchain::new(at(10));
    let chain = ledger.snapshot();
    assert_eq!(chain.len(), 1);
    assert_eq!(chain[0].index, 1);
    assert_eq!(chain[0].proof, 100);
    assert_eq!(chain[0].proof, GENESIS_PROOF);
    assert_eq!(chain[0].previous_hash, "1");
    assert!(chain[0].transactions.is_empty());
    assert_eq!(chain[0].timestamp.secs, 10);
    assert_eq!(ledger.last_proof(), 100);
}

#[test]
fn genesis_payload_and_hash() {
    let ledger = Blockchain::new(at(0));
    let chain = ledger.snapshot();
    assert_eq!(
        chain[0].payload(),
        "{\"index\":1,\"transactions\":[],\"proof\":100,\"previous_hash\":\"1\"}"
    );
    assert_eq!(Blockchain::hash(&chain[0]), GENESIS_HASH);
}

#[test]
fn timestamp_is_not_hashed() {
    let a = Blockchain::new(at(1)).snapshot();
    let b = Blockchain::new(Timestamp { secs: 99, nanos: 5 }).snapshot();
    assert_eq!(Blockchain::hash(&a[0]), Blockchain::hash(&b[0]));
}

#[test]
fn payload_escapes_strings() {
    let block = Block {
        index: 7,
        timestamp: at(0),
        transactions: vec![Transaction::new("a\"b".to_string(), "c\\d".to_string(), 0)],
        proof: 12,
        previous_hash: "x".to_string(),
    };
    assert_eq!(
        block.payload(),
        "{\"index\":7,\"transactions\":[{\"sender\":\"a\\\"b\",\"recipient\":\"c\\\\d\",\"amount\":0}],\"proof\":12,\"previous_hash\":\"x\"}"
    );
}

#[test]
fn decimal_notation() {
    for (n, text) in [(0usize, "0"), (7, "7"), (10, "10"), (1234567, "1234567")] {
        let mut out = String::from("#");
        push_decimal(&mut out, n);
        assert_eq!(out, format!("#{}", text));
    }
    let mut out = String::new();
    push_decimal(&mut out, usize::MAX);
    assert_eq!(out, usize::MAX.to_string());
}

#[test]
fn proof_of_work_finds_first_valid_proof() {
    assert_eq!(proof_of_work(100), Some(35293));
    assert!(valid_proof(100, 35293));
    assert!(!valid_proof(100, 35292));
    assert!(!valid_proof(100, 0));
    assert_eq!(proof_of_work(35293), Some(35089));
}

#[test]
fn found_proof_is_valid() {
    for last in [0usize, 1, 100, 35293, 987654] {
        let p = proof_of_work(last).unwrap();
        assert!(valid_proof(last, p));
    }
}

#[test]
fn submit_reports_prospective_index() {
    let mut ledger = Blockchain::new(at(0));
    let index = ledger.new_transaction("alice".to_string(), "bob".to_string(), 5);
    assert_eq!(index, 2);
    assert_eq!(ledger.len(), 1);
    assert_eq!(ledger.snapshot()[0].index, 1);
    let pending = ledger.pending_transactions();
    assert_eq!(pending.len(), 1);
    assert_eq!(pending[0].sender, "alice");
}

#[test]
fn fresh_ledger_submit_and_mine() {
    let mut ledger = Blockchain::new(at(0));
    assert_eq!(ledger.new_transaction("alice".to_string(), "bob".to_string(), 5), 2);
    let block = ledger.mine("node-a", at(1)).unwrap();
    assert_eq!(block.index, 2);
    assert_eq!(
        names(&block),
        vec![
            ("alice".to_string(), "bob".to_string(), 5),
            ("0".to_string(), "node-a".to_string(), 1)
        ]
    );
    assert_eq!(block.proof, 35293);
    assert!(valid_proof(100, block.proof));
    assert_eq!(block.previous_hash, GENESIS_HASH);
    assert_eq!(
        Blockchain::hash(&block),
        "a30790ac6ce5fb44eb617d2fe2460b6382a05343e25bc64265e7efcbcce68758"
    );
    assert!(ledger.pending_transactions().is_empty());
}

#[test]
fn chain_after_two_mines() {
    let mut ledger = Blockchain::new(at(0));
    ledger.mine("node-a", at(1)).unwrap();
    ledger.mine("node-a", at(2)).unwrap();
    let chain = ledger.snapshot();
    assert_eq!(chain.len(), 3);
    assert_eq!(ledger.len(), 3);
    for (i, block) in chain.iter().enumerate() {
        assert_eq!(block.index, i + 1);
    }
    for i in 1..chain.len() {
        assert_eq!(chain[i].previous_hash, Blockchain::hash(&chain[i - 1]));
        assert!(valid_proof(chain[i - 1].proof, chain[i].proof));
    }
    assert_eq!(chain[2].proof, 35089);
}

#[test]
fn pool_drains_once() {
    let mut pool = TransactionPool::new();
    pool.submit(Transaction::new("a".to_string(), "b".to_string(), 1));
    pool.submit(Transaction::new("c".to_string(), "d".to_string(), 2));
    let first = pool.drain();
    assert_eq!(first.len(), 2);
    assert_eq!(first[0].sender, "a");
    assert_eq!(first[1].amount, 2);
    assert_eq!(pool.len(), 0);
    let second = pool.drain();
    assert!(second.is_empty());
    assert!(pool.contents().is_empty());
}

#[test]
fn submitted_transaction_is_sealed() {
    let mut ledger = Blockchain::new(at(0));
    ledger.new_transaction("carol".to_string(), "dave".to_string(), 9);
    let proof = proof_of_work(ledger.last_proof()).unwrap();
    let block = ledger.new_block(proof, at(3)).unwrap();
    assert_eq!(names(&block), vec![("carol".to_string(), "dave".to_string(), 9)]);
    assert!(ledger.pending_transactions().is_empty());
    assert_eq!(ledger.snapshot()[1].transactions.len(), 1);
}

#[test]
fn invalid_proof_is_refused() {
    let mut ledger = Blockchain::new(at(0));
    ledger.new_transaction("carol".to_string(), "dave".to_string(), 9);
    assert_eq!(ledger.new_block(0, at(3)).unwrap_err(), LedgerError::InvalidProof);
    assert_eq!(ledger.len(), 1);
    assert_eq!(ledger.pending_transactions().len(), 1);
}

#[test]
fn stale_basis_is_refused_and_retried() {
    let mut ledger = Blockchain::new(at(0));
    let basis_a = ledger.mining_basis();
    let basis_b = ledger.mining_basis();
    assert_eq!(basis_a.height, 1);
    assert_eq!(basis_a.last_proof, 100);
    let proof_a = proof_of_work(basis_a.last_proof).unwrap();
    let proof_b = proof_of_work(basis_b.last_proof).unwrap();
    let a = ledger.commit_mined(basis_a, proof_a, "node-a", at(1)).unwrap();
    assert_eq!(a.index, 2);
    assert_eq!(
        ledger.commit_mined(basis_b, proof_b, "node-b", at(1)).unwrap_err(),
        LedgerError::StaleBasis
    );
    assert_eq!(ledger.len(), 2);
    let retry = ledger.mining_basis();
    let proof = proof_of_work(retry.last_proof).unwrap();
    let b = ledger.commit_mined(retry, proof, "node-b", at(2)).unwrap();
    assert_eq!(b.index, 3);
    assert_eq!(b.previous_hash, Blockchain::hash(&a));
}

#[test]
fn commit_with_wrong_proof_is_refused() {
    let mut ledger = Blockchain::new(at(0));
    let basis = ledger.mining_basis();
    assert_eq!(
        ledger.commit_mined(basis, 1, "node-a", at(1)).unwrap_err(),
        LedgerError::InvalidProof
    );
    assert_eq!(ledger.len(), 1);
    assert!(ledger.pending_transactions().is_empty());
}

#[test]
fn serialized_mines_get_consecutive_indices() {
    let mut ledger = Blockchain::new(at(0));
    let mut indices = Vec::new();
    for k in 0..4u64 {
        indices.push(ledger.mine("node-a", at(k + 1)).unwrap().index);
    }
    assert_eq!(indices, vec![2, 3, 4, 5]);
    assert_eq!(ledger.len(), 5);
}

#[test]
fn difficulty_prefix() {
    assert!(hash_meets_difficulty("0000c415de5ceea33c02daa85a1c218ecca1b1c9e9864ed34d183597844de8e2"));
    assert!(hash_meets_difficulty("0000"));
    assert!(!hash_meets_difficulty("000a0000"));
    assert!(!hash_meets_difficulty("a0000"));
    assert!(!hash_meets_difficulty("000"));
    assert!(!hash_meets_difficulty(""));
}
