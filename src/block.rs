//! Blocks and the canonical text that a block's hash is taken over.
//!
//! The timestamp is left out of that text: a block's hash depends only on its
//! index, transactions, proof and predecessor's hash, so anyone holding the
//! chain can recompute it.

use crate::digest::{decimal, json_quote, json_quoted, push_decimal};
use crate::transaction::{Transaction, TransactionView, views_of};
use vstd::prelude::*;

verus! {

/// A point in time, as seconds and nanoseconds since the Unix epoch.
#[derive(Clone, Copy, Debug)]
pub struct Timestamp {
    pub secs: u64,
    pub nanos: u32,
}

/// A sealed block of the chain.
#[derive(Debug)]
pub struct Block {
    pub index: usize,
    pub timestamp: Timestamp,
    pub transactions: Vec<Transaction>,
    pub proof: usize,
    pub previous_hash: String,
}

/// What a block holds, as mathematical values.
pub struct BlockView {
    pub index: nat,
    pub timestamp: Timestamp,
    pub transactions: Seq<TransactionView>,
    pub proof: nat,
    pub previous_hash: Seq<char>,
}

impl View for Block {
    type V = BlockView;

    open spec fn view(&self) -> BlockView {
        BlockView {
            index: self.index as nat,
            timestamp: self.timestamp,
            transactions: views_of(self.transactions@),
            proof: self.proof as nat,
            previous_hash: self.previous_hash@,
        }
    }
}

/// The canonical text of one transaction:
/// `{"sender":S,"recipient":R,"amount":N}` with S and R as JSON strings.
pub open spec fn transaction_payload(t: TransactionView) -> Seq<char> {
    "{\"sender\":"@ + json_quoted(t.sender) + ",\"recipient\":"@ + json_quoted(t.recipient)
        + ",\"amount\":"@ + decimal(t.amount) + "}"@
}

/// The canonical texts of a sequence of transactions, separated by commas.
pub open spec fn transactions_payload(s: Seq<TransactionView>) -> Seq<char>
    decreases s.len(),
{
    if s.len() == 0 {
        Seq::empty()
    } else if s.len() == 1 {
        transaction_payload(s[0])
    } else {
        transactions_payload(s.drop_last()) + ","@ + transaction_payload(s.last())
    }
}

/// The canonical text of a block, fields in a fixed order, timestamp left out:
/// `{"index":I,"transactions":[T,...],"proof":P,"previous_hash":H}`.
pub open spec fn block_payload(b: BlockView) -> Seq<char> {
    "{\"index\":"@ + decimal(b.index) + ",\"transactions\":["@ + transactions_payload(b.transactions)
        + "],\"proof\":"@ + decimal(b.proof) + ",\"previous_hash\":"@ + json_quoted(b.previous_hash)
        + "}"@
}

fn push_transaction_payload(out: &mut String, t: &Transaction)
    ensures
        final(out)@ == old(out)@ + transaction_payload(t@),
{
    out.append("{\"sender\":");
    let sender = json_quote(t.sender.as_str());
    out.append(sender.as_str());
    out.append(",\"recipient\":");
    let recipient = json_quote(t.recipient.as_str());
    out.append(recipient.as_str());
    out.append(",\"amount\":");
    push_decimal(out, t.amount);
    out.append("}");
    assert(final(out)@ =~= old(out)@ + transaction_payload(t@));
}

impl Block {
    /// The canonical text over which the block's hash is taken.
    pub fn payload(&self) -> (r: String)
        ensures
            r@ == block_payload(self@),
    {
        let mut out = String::new();
        out.append("{\"index\":");
        push_decimal(&mut out, self.index);
        out.append(",\"transactions\":[");
        let ghost txs = views_of(self.transactions@);
        let ghost start = out@;
        let mut i: usize = 0;
        while i < self.transactions.len()
            invariant
                i <= self.transactions@.len(),
                txs == views_of(self.transactions@),
                out@ == start + transactions_payload(txs.subrange(0, i as int)),
            decreases self.transactions@.len() - i,
        {
            if i > 0 {
                out.append(",");
            }
            push_transaction_payload(&mut out, &self.transactions[i]);
            proof {
                let prefix = txs.subrange(0, i + 1);
                assert(prefix.drop_last() =~= txs.subrange(0, i as int));
                assert(prefix.last() == txs[i as int]);
                if i == 0 {
                    assert(txs.subrange(0, 0) =~= Seq::<TransactionView>::empty());
                }
            }
            i = i + 1;
            assert(out@ =~= start + transactions_payload(txs.subrange(0, i as int)));
        }
        assert(txs.subrange(0, txs.len() as int) =~= txs);
        out.append("],\"proof\":");
        push_decimal(&mut out, self.proof);
        out.append(",\"previous_hash\":");
        let previous = json_quote(self.previous_hash.as_str());
        out.append(previous.as_str());
        out.append("}");
        assert(out@ =~= block_payload(self@));
        out
    }
}

impl Clone for Block {
    fn clone(&self) -> (r: Self)
        ensures
            r@ == self@,
    {
        Block {
            index: self.index,
            timestamp: self.timestamp,
            transactions: crate::transaction::copy_transactions(&self.transactions),
            proof: self.proof,
            previous_hash: self.previous_hash.clone(),
        }
    }
}

} // verus!
