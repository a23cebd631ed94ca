//! The dispatcher's batching rule: transactions accumulate in arrival order
//! into fixed-size batches; a full batch is handed off whole, and the final
//! partial batch flushes at end of stream. Nothing is ever reordered or
//! dropped: what went in is exactly the emitted batches followed by what is
//! still buffered.

use vstd::prelude::*;

use crate::tx::Tx;

verus! {

/// Accumulates transactions into batches of a fixed size. The ghost `sent`
/// records the concatenation of every batch emitted so far, so that the
/// no-reordering guarantee is part of every contract.
pub struct Batcher {
    pub buf: Vec<Tx>,
    pub cap: usize,
    pub sent: Ghost<Seq<Tx>>,
}

impl Batcher {
    /// The buffer never reaches the batch size between calls.
    pub open spec fn wf(self) -> bool {
        self.cap >= 1 && self.buf@.len() < self.cap
    }

    /// Everything pushed so far, in order: emitted batches, then the buffer.
    pub open spec fn stream(self) -> Seq<Tx> {
        self.sent@ + self.buf@
    }

    pub fn new(cap: usize) -> (r: Batcher)
        requires
            cap >= 1,
        ensures
            r.wf(),
            r.cap == cap,
            r.stream() == Seq::<Tx>::empty(),
    {
        let r = Batcher { buf: Vec::new(), cap, sent: Ghost(Seq::empty()) };
        proof {
            assert(r.stream() =~= Seq::<Tx>::empty());
        }
        r
    }

    /// Accepts one transaction; hands back the whole batch once exactly
    /// `cap` transactions have accumulated. The stream of transactions,
    /// emitted plus buffered, grows by exactly `tx` at the end: batching
    /// never reorders, within or across batches.
    pub fn push(&mut self, tx: Tx) -> (r: Option<Vec<Tx>>)
        requires
            old(self).wf(),
        ensures
            final(self).wf(),
            final(self).cap == old(self).cap,
            final(self).stream() == old(self).stream().push(tx),
            match r {
                Some(batch) => {
                    &&& batch@ == old(self).buf@.push(tx)
                    &&& batch@.len() == old(self).cap
                    &&& final(self).buf@ == Seq::<Tx>::empty()
                    &&& final(self).sent@ == old(self).sent@ + batch@
                },
                None => {
                    &&& final(self).buf@ == old(self).buf@.push(tx)
                    &&& final(self).sent@ == old(self).sent@
                    &&& old(self).buf@.len() + 1 < old(self).cap
                },
            },
    {
        self.buf.push(tx);
        if self.buf.len() == self.cap {
            let mut batch: Vec<Tx> = Vec::new();
            std::mem::swap(&mut batch, &mut self.buf);
            proof {
                self.sent@ = self.sent@ + batch@;
                assert(self.stream() =~= old(self).stream().push(tx));
            }
            Some(batch)
        } else {
            proof {
                assert(self.stream() =~= old(self).stream().push(tx));
            }
            None
        }
    }

    /// End of stream: yields the final, possibly partial, batch in order.
    pub fn finish(self) -> (r: Vec<Tx>)
        ensures
            r@ == self.buf@,
    {
        self.buf
    }
}

} // verus!
