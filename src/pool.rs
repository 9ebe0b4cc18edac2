//! The pool of transactions waiting to be sealed into a block.

use crate::transaction::{copy_transactions, Transaction, TransactionView, views_of};
use vstd::prelude::*;

verus! {

/// Transactions not yet sealed, in the order they were submitted.
#[derive(Debug)]
pub struct TransactionPool {
    items: Vec<Transaction>,
}

impl View for TransactionPool {
    type V = Seq<TransactionView>;

    closed spec fn view(&self) -> Seq<TransactionView> {
        views_of(self.items@)
    }
}

/// What a drain hands out, and what it leaves behind.
pub open spec fn drained(pool: Seq<TransactionView>) -> (Seq<TransactionView>, Seq<TransactionView>) {
    (pool, Seq::empty())
}

/// Draining a pool and then draining what is left hands out nothing the
/// second time.
pub proof fn lemma_drain_twice(pool: Seq<TransactionView>)
    ensures
        drained(drained(pool).1).0 == Seq::<TransactionView>::empty(),
        drained(drained(pool).1).1 == Seq::<TransactionView>::empty(),
        drained(pool).0 == pool,
{
}

impl TransactionPool {
    /// An empty pool.
    pub fn new() -> (r: TransactionPool)
        ensures
            r@ == Seq::<TransactionView>::empty(),
    {
        let r = TransactionPool { items: Vec::new() };
        assert(r@ =~= Seq::<TransactionView>::empty());
        r
    }

    /// Appends a transaction.
    pub fn submit(&mut self, t: Transaction)
        ensures
            final(self)@ == old(self)@.push(t@),
    {
        let ghost t_view = t@;
        self.items.push(t);
        assert(final(self)@ =~= old(self)@.push(t_view));
    }

    /// Hands out the pool's contents in order and leaves it empty, in one step.
    pub fn drain(&mut self) -> (r: Vec<Transaction>)
        ensures
            (views_of(r@), final(self)@) == drained(old(self)@),
    {
        let mut taken: Vec<Transaction> = Vec::new();
        std::mem::swap(&mut taken, &mut self.items);
        assert(final(self)@ =~= Seq::<TransactionView>::empty());
        taken
    }

    /// How many transactions wait.
    pub fn len(&self) -> (r: usize)
        ensures
            r == self@.len(),
    {
        self.items.len()
    }

    /// A copy of the waiting transactions, in order.
    pub fn contents(&self) -> (r: Vec<Transaction>)
        ensures
            views_of(r@) == self@,
    {
        copy_transactions(&self.items)
    }
}

} // verus!
