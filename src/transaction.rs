//! Transactions: transfers of an amount from a sender to a recipient.

use vstd::prelude::*;

verus! {

/// A transfer of `amount` from `sender` to `recipient`. Never changed once made.
#[derive(Debug)]
pub struct Transaction {
    pub sender: String,
    pub recipient: String,
    pub amount: usize,
}

/// What a transaction says, as mathematical values.
pub struct TransactionView {
    pub sender: Seq<char>,
    pub recipient: Seq<char>,
    pub amount: nat,
}

impl View for Transaction {
    type V = TransactionView;

    open spec fn view(&self) -> TransactionView {
        TransactionView { sender: self.sender@, recipient: self.recipient@, amount: self.amount as nat }
    }
}

/// The views of a sequence of transactions, in the same order.
pub open spec fn views_of(s: Seq<Transaction>) -> Seq<TransactionView> {
    s.map_values(|t: Transaction| t@)
}

impl Transaction {
    pub fn new(sender: String, recipient: String, amount: usize) -> (r: Transaction)
        ensures
            r@ == (TransactionView { sender: sender@, recipient: recipient@, amount: amount as nat }),
    {
        Transaction { sender, recipient, amount }
    }
}

impl Clone for Transaction {
    fn clone(&self) -> (r: Self)
        ensures
            r@ == self@,
    {
        Transaction { sender: self.sender.clone(), recipient: self.recipient.clone(), amount: self.amount }
    }
}

/// Copies a sequence of transactions, keeping their order.
pub fn copy_transactions(v: &Vec<Transaction>) -> (r: Vec<Transaction>)
    ensures
        views_of(r@) == views_of(v@),
{
    let mut r: Vec<Transaction> = Vec::new();
    let mut i: usize = 0;
    while i < v.len()
        invariant
            i <= v@.len(),
            r@.len() == i,
            forall|k: int| 0 <= k < i ==> #[trigger] r@[k]@ == v@[k]@,
        decreases v@.len() - i,
    {
        let t = v[i].clone();
        r.push(t);
        i = i + 1;
    }
    assert(views_of(r@) =~= views_of(v@));
    r
}

} // verus!
