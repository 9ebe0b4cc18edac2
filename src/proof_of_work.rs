//! The proof-of-work puzzle: a candidate proof is valid after a given proof when
//! the digest of the two, written in decimal one after the other, starts with
//! `DIFFICULTY` zero characters.

use crate::digest::{decimal, push_decimal, sha256_hex, sha256_hex_of};
use vstd::prelude::*;

verus! {

/// How many leading `'0'` hex digits a valid proof's digest has.
pub const DIFFICULTY: usize = 4;

/// The text whose digest judges `proof` as the successor of `last_proof`.
pub open spec fn proof_guess(last_proof: nat, proof: nat) -> Seq<char> {
    decimal(last_proof) + decimal(proof)
}

/// Whether a digest starts with `DIFFICULTY` zero characters.
pub open spec fn meets_difficulty(h: Seq<char>) -> bool {
    h.len() >= DIFFICULTY && forall|i: int| 0 <= i < DIFFICULTY ==> #[trigger] h[i] == '0'
}

/// Whether `proof` solves the puzzle set by `last_proof`.
pub open spec fn is_valid_proof(last_proof: nat, proof: nat) -> bool {
    meets_difficulty(sha256_hex(proof_guess(last_proof, proof)))
}

/// Decides whether `proof` solves the puzzle set by `last_proof`.
pub fn valid_proof(last_proof: usize, proof: usize) -> (r: bool)
    ensures
        r == is_valid_proof(last_proof as nat, proof as nat),
{
    let mut guess = String::new();
    push_decimal(&mut guess, last_proof);
    push_decimal(&mut guess, proof);
    assert(guess@ =~= proof_guess(last_proof as nat, proof as nat));
    let hash = sha256_hex_of(guess.as_str());
    hash_meets_difficulty(hash.as_str())
}

/// Decides whether a digest starts with `DIFFICULTY` zero characters.
pub fn hash_meets_difficulty(h: &str) -> (r: bool)
    ensures
        r == meets_difficulty(h@),
{
    if h.unicode_len() < DIFFICULTY {
        return false;
    }
    let mut i: usize = 0;
    while i < DIFFICULTY
        invariant
            i <= DIFFICULTY,
            h@.len() >= DIFFICULTY,
            forall|k: int| 0 <= k < i ==> #[trigger] h@[k] == '0',
        decreases DIFFICULTY - i,
    {
        if h.get_char(i) != '0' {
            return false;
        }
        i = i + 1;
    }
    true
}

/// Searches the candidates 0, 1, 2, ... in order and returns the first that
/// solves the puzzle set by `last_proof`; `None` when no `usize` does.
pub fn proof_of_work(last_proof: usize) -> (r: Option<usize>)
    ensures
        match r {
            Some(p) => is_valid_proof(last_proof as nat, p as nat)
                && forall|q: usize| q < p ==> !is_valid_proof(last_proof as nat, q as nat),
            None => forall|q: usize| !is_valid_proof(last_proof as nat, q as nat),
        },
{
    let mut proof: usize = 0;
    loop
        invariant
            forall|q: usize| q < proof ==> !is_valid_proof(last_proof as nat, q as nat),
        decreases usize::MAX - proof,
    {
        if valid_proof(last_proof, proof) {
            return Some(proof);
        }
        if proof == usize::MAX {
            return None;
        }
        proof = proof + 1;
    }
}

} // verus!
