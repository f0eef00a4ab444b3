//! A checked model of the staged construction protocol whose implementation the
//! generator emits: one buffer of fixed size per object, populated field by
//! field, with the initialized prefix carried as a count that every access is
//! checked against, a transition that moves the whole buffer to the next stage,
//! and a release that hands each initialized field to destruction exactly once,
//! in reverse order of construction.

use vstd::prelude::*;
use vstd::pervasive::unreached;

verus! {

/// The initialized prefix after one more construction step: the prior values,
/// then the new one.
pub open spec fn advanced<T>(prefix: Seq<T>, v: T) -> Seq<T> {
    prefix.push(v)
}

/// The initialized prefix reached by constructing with the first value of `vs`
/// and then advancing once per later value, in order.
pub open spec fn staged_result<T>(vs: Seq<T>) -> Seq<T>
    decreases vs.len(),
{
    if vs.len() <= 1 {
        vs
    } else {
        advanced(staged_result(vs.drop_last()), vs.last())
    }
}

/// A partially constructed object: a buffer with one slot per declared field,
/// of which exactly the first `filled` are initialized.
pub struct Stage<T> {
    slots: Vec<Option<T>>,
    filled: usize,
}

/// A completely constructed object: a stage whose every slot is initialized,
/// with no transition left to offer.
pub struct Finished<T> {
    stage: Stage<T>,
}

impl<T> View for Stage<T> {
    type V = Seq<T>;

    /// The values of the initialized prefix, in construction order.
    closed spec fn view(&self) -> Seq<T> {
        Seq::new(self.filled as nat, |i: int| self.slots[i]->Some_0)
    }
}

impl<T> Stage<T> {
    /// The declared size of the buffer: one slot per field of the layout.
    pub closed spec fn size(self) -> nat {
        self.slots@.len()
    }

    #[verifier::type_invariant]
    closed spec fn wf(self) -> bool {
        &&& 1 <= self.filled <= self.slots@.len()
        &&& forall|i: int|
            0 <= i < self.slots@.len() ==> ((self.slots[i] is Some) == (i < self.filled))
    }

    /// The initial constructor: a fresh buffer of `size` slots with the first
    /// field written into place.
    pub fn new(size: usize, first: T) -> (r: Stage<T>)
        requires
            1 <= size,
        ensures
            r@ =~= seq![first],
            r.size() == size,
    {
        let mut slots: Vec<Option<T>> = Vec::new();
        slots.push(Some(first));
        let mut i: usize = 1;
        while i < size
            invariant
                1 <= i <= size,
                slots@.len() == i,
                slots@[0] is Some,
                slots@[0]->Some_0 == first,
                forall|j: int| 1 <= j < i ==> slots@[j] is None,
            decreases size - i,
        {
            slots.push(None);
            i = i + 1;
        }
        let r = Stage { slots, filled: 1 };
        r
    }

    /// The transition: consumes this stage, writes the next field's value into
    /// the same buffer, and yields the next stage. The buffer keeps its size;
    /// only the initialized prefix grows.
    pub fn advance(self, v: T) -> (r: Stage<T>)
        requires
            self@.len() < self.size(),
        ensures
            r@ =~= advanced(self@, v),
            r.size() == self.size(),
    {
        proof {
            use_type_invariant(&self);
            assert(self@.len() == self.filled);
        }
        let Stage { mut slots, filled } = self;
        assert(filled < slots@.len());
        slots.set(filled, Some(v));
        let r = Stage { slots, filled: filled + 1 };
        assert(r@ =~= advanced(Seq::new(filled as nat, |i: int| r.slots[i]->Some_0), v));
        r
    }

    /// The buffer's length: the number of slots it was allocated with.
    pub fn buffer_len(&self) -> (r: usize)
        ensures
            r == self.size(),
    {
        self.slots.len()
    }

    /// The transition with its computation: calls `compute` with a borrow of
    /// this stage, through which the initialized prefix is readable, and
    /// advances with whatever it returns.
    pub fn advance_with<F: FnOnce(&Stage<T>) -> T>(self, compute: F) -> (r: Stage<T>)
        requires
            self@.len() < self.size(),
            compute.requires((&self,)),
        ensures
            r.size() == self.size(),
            r@.len() == self@.len() + 1,
            exists|v: T|
                #[trigger] compute.ensures((&self, ), v) && r@ == advanced(self@, v),
    {
        let v = compute(&self);
        let r = self.advance(v);
        r
    }

    /// The getter for field `i`: defined only for the initialized prefix; an
    /// access past it is rejected when the caller is checked.
    pub fn get(&self, i: usize) -> (r: &T)
        requires
            i < self@.len(),
        ensures
            *r == self@[i as int],
    {
        proof {
            use_type_invariant(self);
        }
        match &self.slots[i] {
            Some(v) => v,
            None => unreached(),
        }
    }

    /// The terminal build step: wraps a fully initialized stage, moving the
    /// buffer with no copy.
    pub fn build(self) -> (r: Finished<T>)
        requires
            self@.len() == self.size(),
        ensures
            r@ =~= self@,
            r.size() == self.size(),
    {
        proof {
            use_type_invariant(&self);
        }
        Finished { stage: self }
    }

    /// Releases the stage: hands back every initialized field's value, in
    /// reverse construction order, each exactly once, and gives up the buffer.
    pub fn release(self) -> (r: Vec<T>)
        ensures
            r@ =~= self@.reverse(),
            r@.len() == self@.len(),
            forall|i: int| 0 <= i < r@.len() ==> r@[i] == self@[self@.len() - 1 - i],
    {
        proof {
            use_type_invariant(&self);
        }
        let ghost vals = self@;
        let Stage { mut slots, filled } = self;
        while slots.len() > filled
            invariant
                filled <= slots@.len(),
                forall|i: int| 0 <= i < slots@.len() ==> ((slots[i] is Some) == (i < filled)),
                Seq::new(filled as nat, |i: int| slots[i]->Some_0) == vals,
            decreases slots@.len(),
        {
            let _empty_slot = slots.pop();
        }
        assert(slots@.len() == filled);
        let mut out: Vec<T> = Vec::new();
        while slots.len() > 0
            invariant
                slots@.len() <= filled == vals.len(),
                forall|i: int| 0 <= i < slots@.len() ==> slots[i] is Some,
                forall|i: int| 0 <= i < slots@.len() ==> slots[i]->Some_0 == vals[i],
                out@.len() == filled - slots@.len(),
                forall|i: int| 0 <= i < out@.len() ==> out@[i] == vals[vals.len() - 1 - i],
            decreases slots@.len(),
        {
            match slots.pop() {
                Some(Some(v)) => out.push(v),
                _ => unreached(),
            }
        }
        assert(out@ =~= vals.reverse());
        out
    }
}

impl<T> View for Finished<T> {
    type V = Seq<T>;

    /// The values of all fields, in construction order.
    closed spec fn view(&self) -> Seq<T> {
        self.stage@
    }
}

impl<T> Finished<T> {
    /// The declared size of the buffer, which equals the number of fields.
    pub closed spec fn size(self) -> nat {
        self.stage.size()
    }

    #[verifier::type_invariant]
    closed spec fn wf(self) -> bool {
        self.stage@.len() == self.stage.size()
    }

    /// The buffer's length: unchanged from the stages that built it.
    pub fn buffer_len(&self) -> (r: usize)
        ensures
            r == self.size(),
    {
        self.stage.buffer_len()
    }

    /// The read accessor for field `i`; no mutation is offered.
    pub fn get(&self, i: usize) -> (r: &T)
        requires
            i < self@.len(),
        ensures
            *r == self@[i as int],
    {
        self.stage.get(i)
    }

    /// Releases the finished object, exactly as releasing its final stage.
    pub fn release(self) -> (r: Vec<T>)
        ensures
            r@ =~= self@.reverse(),
            r@.len() == self@.len(),
            forall|i: int| 0 <= i < r@.len() ==> r@[i] == self@[self@.len() - 1 - i],
    {
        let Finished { stage } = self;
        stage.release()
    }
}

/// Round trip: constructing with the first value of `vs` and then advancing
/// once per later value, in order, yields an object whose getter at position
/// `i` returns exactly the value supplied at step `i`.
pub proof fn lemma_round_trip<T>(vs: Seq<T>)
    requires
        vs.len() >= 1,
    ensures
        staged_result(vs) == vs,
        forall|i: int| 0 <= i < vs.len() ==> staged_result(vs)[i] == vs[i],
    decreases vs.len(),
{
    if vs.len() > 1 {
        lemma_round_trip(vs.drop_last());
    }
    assert(staged_result(vs) =~= vs);
}

/// No double release: the values a release hands to destruction are exactly the
/// initialized fields' values, each exactly once.
pub proof fn lemma_release_exactly_once<T>(vals: Seq<T>, released: Seq<T>)
    requires
        released == vals.reverse(),
    ensures
        released.len() == vals.len(),
        released.to_multiset() == vals.to_multiset(),
{
    vals.lemma_reverse_to_multiset();
    assert(released.to_multiset() =~= vals.to_multiset());
}

} // verus!
