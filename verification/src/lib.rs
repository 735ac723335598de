//! Single-pass reservoir sampling (Algorithm R).
//!
//! A [`ReserviorSampler`] consumes a stream of items one at a time and keeps a
//! fixed-capacity reservoir that is, under a uniform random source, a uniform
//! random subset of everything seen so far, in `O(capacity)` memory.

use vstd::prelude::*;

verus! {

/// Draws one item of the stream, with the draw supplied by the caller.
///
/// `reservoir` is the reservoir before the draw, `capacity` its fixed bound,
/// `count` the 1-indexed position of `item` in the stream, and `r` the random
/// draw from `[0, count)`. While the reservoir is still filling the item is
/// appended and `r` is ignored; afterwards the item replaces slot `r` when
/// `r < capacity` and is discarded otherwise.
pub open spec fn sample_step<Item>(
    reservoir: Seq<Item>,
    capacity: nat,
    count: nat,
    item: Item,
    r: nat,
) -> Seq<Item> {
    if count <= capacity {
        reservoir.push(item)
    } else if r < capacity {
        reservoir.update(r as int, item)
    } else {
        reservoir
    }
}

/// A streaming sampler holding a uniform random subset of at most
/// `capacity` items out of everything fed to [`Self::process`].
pub struct ReserviorSampler<Item> {
    /// Number of items processed so far.
    n: usize,
    /// Reservoir capacity, fixed at construction.
    k: usize,
    /// The reservoir: `min(n, k)` of the items seen so far.
    samples: Vec<Item>,
    /// Every item ever fed to the sampler, in stream order (ghost bookkeeping).
    history: Ghost<Seq<Item>>,
}

impl<Item> View for ReserviorSampler<Item> {
    type V = Seq<Item>;

    /// The current reservoir contents as a mathematical sequence.
    closed spec fn view(&self) -> Seq<Item> {
        self.samples@
    }
}

impl<Item> ReserviorSampler<Item> {
    /// The reservoir capacity the sampler was built with.
    pub closed spec fn spec_capacity(&self) -> nat {
        self.k as nat
    }

    /// How many items have been fed to the sampler so far.
    pub closed spec fn spec_count(&self) -> nat {
        self.n as nat
    }

    /// The whole stream fed to the sampler so far, in order.
    pub closed spec fn processed(&self) -> Seq<Item> {
        self.history@
    }

    /// The sampler's invariant: the count matches the stream, the reservoir
    /// holds exactly `min(count, capacity)` items, it is the whole stream while
    /// that stream still fits, and it never holds an item that was not fed in.
    pub open spec fn wf(&self) -> bool {
        &&& self.spec_count() == self.processed().len()
        &&& self@.len() == vstd::math::min(self.spec_count() as int, self.spec_capacity() as int)
        &&& self.spec_count() <= self.spec_capacity() ==> self@ == self.processed()
        &&& forall|i: int| 0 <= i < self@.len() ==> self.processed().contains(#[trigger] self@[i])
    }

    /// Create a sampler with reservoir capacity `capacity`, no items processed
    /// and an empty reservoir. A capacity of zero is legal: the reservoir then
    /// stays empty forever.
    pub fn with_cap(capacity: usize) -> (s: Self)
        ensures
            s.wf(),
            s.spec_capacity() == capacity,
            s.spec_count() == 0,
            s@ == Seq::<Item>::empty(),
            s.processed() == Seq::<Item>::empty(),
    {
        Self {
            n: 0,
            k: capacity,
            samples: Vec::with_capacity(capacity),
            history: Ghost(Seq::empty()),
        }
    }

    /// Feed one item, with the random draw supplied by the caller instead of
    /// drawn here: `r` stands for the uniform draw from `[0, count)` that
    /// [`Self::process`] makes itself, where `count` includes the new item.
    /// Replaying a recorded sequence of draws reproduces a run exactly: the
    /// new reservoir is a function of the old state, the item and the draw.
    pub fn process_with_draw(&mut self, item: Item, r: usize)
        requires
            old(self).wf(),
            old(self).spec_count() < usize::MAX,
            r <= old(self).spec_count(),
        ensures
            final(self).wf(),
            final(self).spec_capacity() == old(self).spec_capacity(),
            final(self).spec_count() == old(self).spec_count() + 1,
            final(self).processed() == old(self).processed().push(item),
            final(self)@ == sample_step(
                old(self)@,
                old(self).spec_capacity(),
                (old(self).spec_count() + 1) as nat,
                item,
                r as nat,
            ),
    {
        self.n = self.n + 1;
        self.history = Ghost(self.history@.push(item));
        if self.n <= self.k {
            self.samples.push(item);
        } else if r < self.k {
            self.samples.set(r, item);
        }
        proof {
            let h0 = old(self).processed();
            assert forall|i: int| 0 <= i < self@.len() implies self.processed().contains(
                #[trigger] self@[i],
            ) by {
                if self@[i] == item {
                    assert(self.processed()[h0.len() as int] == item);
                } else {
                    let j = choose|j: int| 0 <= j < h0.len() && h0[j] == self@[i];
                    assert(self.processed()[j] == self@[i]);
                }
            }
        }
    }

    /// Feed one item, drawing the randomness from the thread-local generator.
    /// While the reservoir is filling the item is simply appended and no
    /// randomness is consumed; afterwards the item either replaces one
    /// reservoir slot or leaves the reservoir unchanged.
    pub fn process(&mut self, item: Item)
        requires
            old(self).wf(),
            old(self).spec_count() < usize::MAX,
        ensures
            final(self).wf(),
            final(self).spec_capacity() == old(self).spec_capacity(),
            final(self).spec_count() == old(self).spec_count() + 1,
            final(self).processed() == old(self).processed().push(item),
            old(self).spec_count() < old(self).spec_capacity() ==> final(self)@ == old(
                self,
            )@.push(item),
            old(self).spec_count() >= old(self).spec_capacity() ==> (final(self)@ == old(self)@
                || (exists|r: int|
                0 <= r < old(self).spec_capacity() && final(self)@ == old(self)@.update(r, item))),
    {
        if self.n < self.k {
            self.process_with_draw(item, 0);
        } else {
            let r = random_below(self.n + 1);
            self.process_with_draw(item, r);
        }
    }

    /// Read-only view of the current reservoir contents; the sampler keeps
    /// ownership of the storage. Reading changes nothing, so repeated calls
    /// without an intervening [`Self::process`] see identical contents.
    pub fn snapshot(&self) -> (r: &[Item])
        ensures
            r@ == self@,
    {
        self.samples.as_slice()
    }

    /// The capacity the sampler was built with.
    pub fn capacity(&self) -> (r: usize)
        ensures
            r == self.spec_capacity(),
    {
        self.k
    }

    /// How many items have been fed to the sampler so far.
    pub fn count(&self) -> (r: usize)
        ensures
            r == self.spec_count(),
    {
        self.n
    }

    /// Size invariant: after `n` items have been processed, the reservoir
    /// holds exactly `min(n, capacity)` items.
    pub proof fn lemma_size_invariant(&self)
        requires
            self.wf(),
        ensures
            self@.len() == vstd::math::min(
                self.spec_count() as int,
                self.spec_capacity() as int,
            ),
    {
    }

    /// Containment invariant: while no more items than the capacity have been
    /// processed, the reservoir holds exactly the processed items, in stream
    /// order, so every one of them is present.
    pub proof fn lemma_fill_phase_containment(&self)
        requires
            self.wf(),
            self.spec_count() <= self.spec_capacity(),
        ensures
            self@ == self.processed(),
            forall|i: int|
                0 <= i < self.processed().len() ==> self@.contains(#[trigger] self.processed()[i]),
    {
        assert forall|i: int| 0 <= i < self.processed().len() implies self@.contains(
            #[trigger] self.processed()[i],
        ) by {
            assert(self@[i] == self.processed()[i]);
        }
    }

    /// The reservoir never invents items: everything in it was fed in.
    pub proof fn lemma_reservoir_from_stream(&self)
        requires
            self.wf(),
        ensures
            forall|i: int| 0 <= i < self@.len() ==> self.processed().contains(#[trigger] self@[i]),
    {
    }
}

/// Relies on rand::random_range over `0..n`: a value of the given range drawn
/// from the thread-local generator; it panics only on an empty range, which
/// the precondition rules out. Nothing is assumed about which value comes
/// back, beyond its bound.
#[verifier::external_body]
fn random_below(n: usize) -> (r: usize)
    requires
        n > 0,
    ensures
        r < n,
{
    rand::random_range(0..n)
}

} // verus!
