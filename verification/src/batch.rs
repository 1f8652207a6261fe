//! Grouping of parsed records into batches of a bounded size.
//!
//! A batcher receives records one at a time and hands back a full batch as
//! soon as one is complete; `finish` hands back what is left. No batch holds
//! more than the batch size (or one record when the batch size is 0).

use vstd::prelude::*;

verus! {

/// The number of records in a full batch: the batch size, or 1 for size 0.
pub open spec fn full_len(batch_size: usize) -> nat {
    if batch_size == 0 {
        1
    } else {
        batch_size as nat
    }
}

/// Records waiting to be handed back in a batch.
pub struct Batcher<T> {
    batch_size: usize,
    batch: Vec<T>,
    pushed: Ghost<Seq<T>>,
    delivered: Ghost<Seq<T>>,
}

impl<T> Batcher<T> {
    /// The batch size the batcher was made with.
    pub closed spec fn size(&self) -> usize {
        self.batch_size
    }

    /// Every record pushed so far, in order.
    pub closed spec fn pushed(&self) -> Seq<T> {
        self.pushed@
    }

    /// Every record handed back so far, in order.
    pub closed spec fn delivered(&self) -> Seq<T> {
        self.delivered@
    }

    /// The records held back, not yet handed out.
    pub closed spec fn pending(&self) -> Seq<T> {
        self.batch@
    }

    /// What was handed back followed by what is held back is what was pushed,
    /// fewer than a full batch is held back, and only full batches were handed back.
    pub closed spec fn wf(&self) -> bool {
        &&& self.delivered@ + self.batch@ == self.pushed@
        &&& self.batch@.len() < full_len(self.batch_size)
        &&& self.delivered@.len() % full_len(self.batch_size) == 0
    }

    /// An empty batcher.
    pub fn new(batch_size: usize) -> (r: Self)
        ensures
            r.wf(),
            r.size() == batch_size,
            r.pushed() == Seq::<T>::empty(),
            r.delivered() == Seq::<T>::empty(),
    {
        let batch: Vec<T> = Vec::new();
        proof {
            assert(Seq::<T>::empty() + batch@ =~= Seq::<T>::empty());
            vstd::arithmetic::div_mod::lemma_small_mod(0, full_len(batch_size));
        }
        Batcher {
            batch_size,
            batch,
            pushed: Ghost(Seq::empty()),
            delivered: Ghost(Seq::empty()),
        }
    }

    /// Adds `item`; hands back the batch if that completes it.
    pub fn push(&mut self, item: T) -> (out: Option<Vec<T>>)
        requires
            old(self).wf(),
        ensures
            final(self).wf(),
            final(self).size() == old(self).size(),
            final(self).pushed() == old(self).pushed().push(item),
            match out {
                Some(b) => {
                    &&& b@.len() == full_len(old(self).size())
                    &&& final(self).delivered() == old(self).delivered() + b@
                    &&& final(self).pending().len() == 0
                },
                None => final(self).delivered() == old(self).delivered(),
            },
    {
        self.batch.push(item);
        proof {
            self.pushed@ = self.pushed@.push(item);
            assert(self.delivered@ + self.batch@ =~= self.pushed@);
        }
        if self.batch.len() >= self.batch_size {
            let mut full: Vec<T> = Vec::new();
            std::mem::swap(&mut full, &mut self.batch);
            proof {
                let old_len = self.delivered@.len();
                self.delivered@ = self.delivered@ + full@;
                assert(self.delivered@ + self.batch@ =~= self.pushed@);
                assert(full@.len() == full_len(self.batch_size));
                vstd::arithmetic::div_mod::lemma_mod_adds(
                    old_len as int,
                    full@.len() as int,
                    full_len(self.batch_size) as int,
                );
            }
            Some(full)
        } else {
            None
        }
    }

    /// Hands back the records held back, if any.
    pub fn finish(self) -> (out: Option<Vec<T>>)
        requires
            self.wf(),
        ensures
            match out {
                Some(b) => {
                    &&& 0 < b@.len() < full_len(self.size())
                    &&& self.delivered() + b@ == self.pushed()
                },
                None => self.delivered() == self.pushed(),
            },
    {
        if self.batch.len() == 0 {
            assert(self.delivered@ + self.batch@ =~= self.delivered@);
            None
        } else {
            Some(self.batch)
        }
    }
}

} // verus!

verus! {

/// The records of `bs`, batch after batch.
pub open spec fn concat_batches<T>(bs: Seq<Vec<T>>) -> Seq<T>
    decreases bs.len(),
{
    if bs.len() == 0 {
        Seq::empty()
    } else {
        concat_batches(bs.drop_last()) + bs.last()@
    }
}

/// Every batch but the last is full, and the last holds at least one record
/// and no more than a full batch.
pub open spec fn well_batched<T>(bs: Seq<Vec<T>>, batch_size: usize) -> bool {
    &&& forall|i: int| 0 <= i < bs.len() - 1 ==> (#[trigger] bs[i])@.len() == full_len(batch_size)
    &&& bs.len() > 0 ==> 0 < bs.last()@.len() <= full_len(batch_size)
}

/// `items` cut into consecutive batches of the batch size (one record each
/// for size 0), the last one possibly shorter.
pub fn split_batches<T>(items: Vec<T>, batch_size: usize) -> (r: Vec<Vec<T>>)
    ensures
        concat_batches(r@) == items@,
        well_batched(r@, batch_size),
{
    let ghost all = items@;
    let mut b: Batcher<T> = Batcher::new(batch_size);
    let mut r: Vec<Vec<T>> = Vec::new();
    for x in it: items.into_iter()
        invariant
            b.wf(),
            b.size() == batch_size,
            it.seq() == all,
            b.pushed() == all.take(it.index() as int),
            concat_batches(r@) == b.delivered(),
            forall|i: int| 0 <= i < r@.len() ==> (#[trigger] r@[i])@.len() == full_len(batch_size),
    {
        let ghost before = b.pushed();
        match b.push(x) {
            Some(full) => {
                let ghost rr = r@;
                r.push(full);
                assert(r@.drop_last() =~= rr);
            },
            None => {},
        }
        assert(all.take(it.index() + 1) =~= before.push(x));
    }
    assert(all.take(all.len() as int) =~= all);
    match b.finish() {
        Some(last) => {
            let ghost rr = r@;
            r.push(last);
            assert(r@.drop_last() =~= rr);
        },
        None => {},
    }
    r
}

} // verus!
