//! The type-erased growable array itself.
//!
//! `ErasedVec` keeps one contiguous byte buffer holding `cap` slots of
//! `layout.size` bytes each; the first `len` slots are live elements, the
//! rest are unspecified backing storage. Every mutation and access funnels
//! through this state; capacity doubles lazily when a push finds the buffer
//! full.

use vstd::prelude::*;

use crate::layout::ElemLayout;
use crate::layout::Global;

verus! {

/// A growable array of fixed-width byte elements, all of the single runtime
/// type described by `layout`. Generic over an injected allocator capability
/// handle `A`, which may be duplicated across instances; the buffer itself
/// is exclusively owned.
pub struct ErasedVec<A> {
    layout: ElemLayout,
    buf: Vec<u8>,
    len: usize,
    cap: usize,
    allocator: A,
}

impl<A> View for ErasedVec<A> {
    type V = Seq<Seq<u8>>;

    /// Abstract contents: the sequence of live elements, each one slot of
    /// `layout.size` bytes, in storage order.
    closed spec fn view(&self) -> Seq<Seq<u8>> {
        Seq::new(self.len as nat, |i: int| self.slot(i))
    }
}

impl<A> ErasedVec<A> {
    /// The bytes of slot `i` of the buffer.
    closed spec fn slot(&self, i: int) -> Seq<u8> {
        self.buf@.subrange(i * self.layout.size, i * self.layout.size + self.layout.size)
    }

    /// The element metadata this container was constructed with.
    pub closed spec fn spec_layout(&self) -> ElemLayout {
        self.layout
    }

    /// Number of element slots currently backing the buffer.
    pub closed spec fn spec_cap(&self) -> nat {
        self.cap as nat
    }

    /// Structural invariant: the live count never exceeds capacity, and the
    /// buffer is exactly `cap` slots wide (absent precisely when `cap == 0`).
    pub closed spec fn wf(&self) -> bool {
        &&& self.len <= self.cap
        &&& self.buf@.len() == self.cap * self.layout.size
        &&& self.cap * self.layout.size <= usize::MAX
    }

    /// A well-formed container exposes one view element per live slot, each
    /// exactly one element wide, and no more elements than capacity.
    pub proof fn lemma_wf_view(&self)
        requires
            self.wf(),
        ensures
            self@.len() <= self.spec_cap(),
            forall|i: int| 0 <= i < self@.len() ==> (#[trigger] self@[i]).len()
                == self.spec_layout().size,
    {
        assert forall|i: int| 0 <= i < self@.len() implies (#[trigger] self@[i]).len()
            == self.spec_layout().size by {
            lemma_slot_in_bounds(i, self.len as int, self.cap as int, self.layout.size as int);
        }
    }

    /// Zero-capacity, zero-length container for elements described by
    /// `elem`, using the injected allocator capability; performs no
    /// allocation.
    pub fn new_in(elem: ElemLayout, allocator: A) -> (v: ErasedVec<A>)
        ensures
            v.wf(),
            v@ == Seq::<Seq<u8>>::empty(),
            v.spec_cap() == 0,
            v.spec_layout() == elem,
    {
        let v = ErasedVec {
            layout: elem,
            buf: Vec::new(),
            len: 0,
            cap: 0,
            allocator,
        };
        proof {
            assert(v@ =~= Seq::<Seq<u8>>::empty());
            assert(v.cap * v.layout.size == 0) by (nonlinear_arith)
                requires
                    v.cap == 0,
            ;
        }
        v
    }

    /// Container pre-sized for exactly `capacity` elements of the declared
    /// layout, eagerly allocated from the injected allocator capability.
    pub fn with_capacity_in(elem: ElemLayout, capacity: usize, allocator: A) -> (v: ErasedVec<A>)
        requires
            capacity * elem.size <= usize::MAX,
        ensures
            v.wf(),
            v@ == Seq::<Seq<u8>>::empty(),
            v.spec_cap() == capacity,
            v.spec_layout() == elem,
    {
        let bytes: usize = capacity * elem.size;
        let v = ErasedVec {
            layout: elem,
            buf: zeroed(bytes),
            len: 0,
            cap: capacity,
            allocator,
        };
        proof {
            assert(v@ =~= Seq::<Seq<u8>>::empty());
        }
        v
    }

    /// Capacity may still double without overflowing either the slot count
    /// or the byte length of the buffer. Trivially true for the bootstrap
    /// step out of capacity zero, which allocates a single slot.
    pub open spec fn can_grow(&self) -> bool {
        self.spec_cap() == 0 || (2 * self.spec_cap() <= usize::MAX && 2 * self.spec_cap()
            * self.spec_layout().size <= usize::MAX)
    }

    /// Doubles capacity: a zero-capacity container bootstraps to one slot,
    /// any other doubles its slot count. The live bytes are copied into the
    /// fresh buffer unchanged, so every element stays retrievable at its
    /// old index; the old buffer is released.
    pub fn grow(&mut self)
        requires
            old(self).wf(),
            old(self).can_grow(),
        ensures
            final(self).wf(),
            final(self)@ == old(self)@,
            final(self).spec_layout() == old(self).spec_layout(),
            final(self).spec_cap() == grown_cap(old(self).spec_cap()),
    {
        let size = self.layout.size;
        let new_cap: usize = if self.cap == 0 { 1 } else { 2 * self.cap };
        proof {
            if self.cap == 0 {
                assert(new_cap * size <= usize::MAX) by (nonlinear_arith)
                    requires
                        new_cap == 1,
                        size <= usize::MAX,
                ;
            }
        }
        let new_bytes: usize = new_cap * size;
        let mut nb = zeroed(new_bytes);
        proof {
            lemma_mul_mono(self.len as int, self.cap as int, size as int);
            lemma_mul_mono(self.cap as int, new_cap as int, size as int);
        }
        let live: usize = self.len * size;
        let mut i: usize = 0;
        while i < live
            invariant
                i <= live,
                live <= self.buf@.len(),
                live <= nb@.len(),
                nb@.len() == new_bytes,
                forall|j: int| 0 <= j < i ==> nb@[j] == self.buf@[j],
            decreases live - i,
        {
            let b = self.buf[i];
            nb[i] = b;
            i = i + 1;
        }
        let ghost pre = *self;
        self.buf = nb;
        self.cap = new_cap;
        proof {
            assert forall|k: int| 0 <= k < pre@.len() implies self.slot(k) == pre.slot(k) by {
                lemma_slot_in_bounds(k, pre.len as int, pre.cap as int, size as int);
                assert(self.slot(k) =~= pre.slot(k));
            }
            assert(self@ =~= pre@);
        }
    }

    /// Appends `value` as the new last element, growing first when the
    /// buffer is full. `ty` is the caller's claim about the element type:
    /// it must be the very token the container was built with, and `value`
    /// must be exactly one slot of bytes. The value's bytes move into slot
    /// `len`; the live count rises by one.
    pub fn push(&mut self, ty: u64, value: Vec<u8>)
        requires
            old(self).wf(),
            ty == old(self).spec_layout().type_id,
            value@.len() == old(self).spec_layout().size,
            old(self)@.len() == old(self).spec_cap() ==> old(self).can_grow(),
        ensures
            final(self).wf(),
            final(self)@ == old(self)@.push(value@),
            final(self).spec_layout() == old(self).spec_layout(),
            final(self).spec_cap() == if old(self)@.len() == old(self).spec_cap() {
                grown_cap(old(self).spec_cap())
            } else {
                old(self).spec_cap()
            },
    {
        if self.len == self.cap {
            self.grow();
            proof {
                assert(self@.len() == old(self)@.len());
            }
        }
        let ghost pre = *self;
        let size = self.layout.size;
        proof {
            assert(self.len < self.cap);
            lemma_slot_in_bounds(self.len as int, self.len as int + 1, self.cap as int,
                size as int);
        }
        let start: usize = self.len * size;
        let mut j: usize = 0;
        while j < size
            invariant
                j <= size,
                start + size <= self.buf@.len(),
                self.buf@.len() <= usize::MAX,
                value@.len() == size,
                self.buf@.len() == pre.buf@.len(),
                self.layout == pre.layout,
                self.len == pre.len,
                self.cap == pre.cap,
                self.allocator == pre.allocator,
                start == pre.len * size,
                forall|q: int| 0 <= q < start ==> self.buf@[q] == pre.buf@[q],
                forall|k: int| 0 <= k < j ==> self.buf@[start + k] == value@[k],
            decreases size - j,
        {
            let b = value[j];
            self.buf[start + j] = b;
            j = j + 1;
        }
        self.len = self.len + 1;
        proof {
            assert forall|k: int| 0 <= k < pre@.len() implies self.slot(k) == pre.slot(k) by {
                lemma_slot_in_bounds(k, pre.len as int, pre.cap as int, size as int);
                assert(self.slot(k) =~= pre.slot(k));
            }
            assert(self.slot(pre.len as int) =~= value@);
            assert(self@ =~= pre@.push(value@));
            assert(pre@ == old(self)@);
        }
    }

    /// Read-only view of the element at `index`, or nothing when `index`
    /// is at or past the live count. `ty` must be the container's own
    /// type-identity token. Never allocates, never mutates.
    pub fn get<'a>(&'a self, ty: u64, index: usize) -> (r: Option<&'a [u8]>)
        requires
            self.wf(),
            ty == self.spec_layout().type_id,
        ensures
            index < self@.len() ==> (r matches Some(s) && s@ == self@[index as int]),
            index >= self@.len() ==> r is None,
    {
        if index >= self.len {
            None
        } else {
            proof {
                lemma_slot_in_bounds(index as int, self.len as int, self.cap as int,
                    self.layout.size as int);
            }
            let start: usize = index * self.layout.size;
            let end: usize = start + self.layout.size;
            Some(&self.buf[start..end])
        }
    }

    /// Count of live elements.
    pub fn len(&self) -> (n: usize)
        ensures
            n == self@.len(),
    {
        self.len
    }

    /// The element metadata fixed at construction. Callers use the token
    /// in it to name the element type in typed operations.
    pub fn elem_layout(&self) -> (l: ElemLayout)
        ensures
            l == self.spec_layout(),
    {
        self.layout
    }

    /// Count of element slots currently backing the buffer.
    pub fn capacity(&self) -> (n: usize)
        ensures
            n == self.spec_cap(),
    {
        self.cap
    }

    /// Removes the element at `index` by left-shifting every later live
    /// element one slot and decrementing the live count. The removed
    /// element's bytes are overwritten or abandoned without any per-element
    /// cleanup: this is the fast-discard path, and callers that need the
    /// value (or its cleanup) must use `remove` instead. An out-of-range
    /// `index` is a contract violation, excluded here.
    pub fn erase(&mut self, index: usize)
        requires
            old(self).wf(),
            index < old(self)@.len(),
        ensures
            final(self).wf(),
            final(self)@ == old(self)@.remove(index as int),
            final(self).spec_cap() == old(self).spec_cap(),
            final(self).spec_layout() == old(self).spec_layout(),
    {
        let ghost pre = *self;
        let size = self.layout.size;
        proof {
            lemma_mul_mono(index as int, self.len as int - 1, size as int);
            lemma_mul_mono(self.len as int - 1, self.cap as int, size as int);
            lemma_slot_in_bounds(self.len as int - 1, self.len as int, self.cap as int,
                size as int);
        }
        let start: usize = index * size;
        let live_end: usize = (self.len - 1) * size;
        let mut p: usize = start;
        while p < live_end
            invariant
                start <= p <= live_end,
                live_end + size <= self.buf@.len(),
                self.buf@.len() <= usize::MAX,
                self.buf@.len() == pre.buf@.len(),
                self.layout == pre.layout,
                self.len == pre.len,
                self.cap == pre.cap,
                self.allocator == pre.allocator,
                size == pre.layout.size,
                forall|q: int| 0 <= q < start ==> self.buf@[q] == pre.buf@[q],
                forall|q: int| start <= q < p ==> self.buf@[q] == pre.buf@[q + size],
                forall|q: int| p <= q < self.buf@.len() ==> self.buf@[q] == pre.buf@[q],
            decreases live_end - p,
        {
            let b = self.buf[p + size];
            self.buf[p] = b;
            p = p + 1;
        }
        self.len = self.len - 1;
        proof {
            assert forall|k: int| 0 <= k < index implies self.slot(k) == pre.slot(k) by {
                lemma_slot_in_bounds(k, index as int, self.cap as int, size as int);
                lemma_mul_mono(index as int, self.cap as int, size as int);
                assert(self.slot(k) =~= pre.slot(k));
            }
            assert forall|k: int| index <= k < self.len implies self.slot(k) == pre.slot(k + 1) by {
                lemma_shift_slot(k, index as int, self.len as int, self.cap as int, size as int);
                assert(self.slot(k) =~= pre.slot(k + 1));
            }
            assert(self@ =~= pre@.remove(index as int));
        }
    }

    /// Moves the element at `index` out of the buffer into an owned byte
    /// block, then left-shifts the later elements exactly as `erase` does.
    /// This is the resource-safe removal primitive: the caller receives
    /// ownership of the removed value's bytes. `ty` must be the container's
    /// own type-identity token, and `index` must be live.
    pub fn remove(&mut self, ty: u64, index: usize) -> (r: Vec<u8>)
        requires
            old(self).wf(),
            ty == old(self).spec_layout().type_id,
            index < old(self)@.len(),
        ensures
            final(self).wf(),
            r@ == old(self)@[index as int],
            final(self)@ == old(self)@.remove(index as int),
            final(self).spec_cap() == old(self).spec_cap(),
            final(self).spec_layout() == old(self).spec_layout(),
    {
        let size = self.layout.size;
        proof {
            lemma_slot_in_bounds(index as int, self.len as int, self.cap as int, size as int);
        }
        let start: usize = index * size;
        let mut r: Vec<u8> = Vec::new();
        let mut j: usize = 0;
        while j < size
            invariant
                j <= size,
                start + size <= self.buf@.len(),
                self.buf@.len() <= usize::MAX,
                r@ == self.buf@.subrange(start as int, start + j),
            decreases size - j,
        {
            let b = self.buf[start + j];
            r.push(b);
            proof {
                assert(r@ =~= self.buf@.subrange(start as int, start + j + 1));
            }
            j = j + 1;
        }
        proof {
            assert(r@ == self.slot(index as int));
        }
        self.erase(index);
        r
    }

    /// Fresh byte vector holding a copy of the live range: the bytes of
    /// elements `0..len`, in storage order. Does not mutate or consume the
    /// container. `ty` must be the container's own type-identity token.
    pub fn into_vec(&self, ty: u64) -> (r: Vec<u8>)
        requires
            self.wf(),
            ty == self.spec_layout().type_id,
        ensures
            r@.len() == self@.len() * self.spec_layout().size,
            forall|i: int| 0 <= i < self@.len() ==> r@.subrange(i * self.spec_layout().size,
                i * self.spec_layout().size + self.spec_layout().size) == self@[i],
    {
        let size = self.layout.size;
        proof {
            lemma_mul_mono(self.len as int, self.cap as int, size as int);
        }
        let live: usize = self.len * size;
        let mut r: Vec<u8> = Vec::with_capacity(live);
        let mut j: usize = 0;
        while j < live
            invariant
                j <= live,
                live <= self.buf@.len(),
                r@ == self.buf@.subrange(0, j as int),
            decreases live - j,
        {
            let b = self.buf[j];
            r.push(b);
            proof {
                assert(r@ =~= self.buf@.subrange(0, j + 1));
            }
            j = j + 1;
        }
        proof {
            assert forall|i: int| 0 <= i < self@.len() implies r@.subrange(i * size as int,
                i * size as int + size as int) == self@[i] by {
                lemma_slot_in_bounds(i, self.len as int, self.cap as int, size as int);
                assert(r@.subrange(i * size as int, i * size as int + size as int)
                    =~= self.slot(i));
            }
        }
        r
    }

    /// Logically discards the last live element by decrementing the live
    /// count; the slot's bytes are neither read nor cleared. Calling this
    /// on an empty container is a contract violation, so emptiness is
    /// excluded here rather than tolerated.
    pub fn pop(&mut self)
        requires
            old(self).wf(),
            old(self)@.len() > 0,
        ensures
            final(self).wf(),
            final(self)@ == old(self)@.drop_last(),
            final(self).spec_cap() == old(self).spec_cap(),
            final(self).spec_layout() == old(self).spec_layout(),
    {
        self.len = self.len - 1;
        proof {
            assert(self@ =~= old(self)@.drop_last());
        }
    }

    /// A cursor over this container's elements, starting at index 0. Each
    /// step re-queries `get` at the current index, so the walk ends at the
    /// container's live count as it stands when the step is taken. `ty`
    /// must be the container's own type-identity token.
    pub fn iter<'a>(&'a self, ty: u64) -> (it: IntoIter<'a, A>)
        requires
            self.wf(),
            ty == self.spec_layout().type_id,
        ensures
            it.wf(),
            it.target() == *self,
            it.pos() == 0,
    {
        IntoIter { i: 0, ty, vec: self }
    }
}

impl<A: Clone> Clone for ErasedVec<A> {
    /// Deep copy: a fresh, independent buffer holding the same bytes, with
    /// matching live count, capacity and element metadata, and a duplicate
    /// of the allocator capability handle. Mutating the copy never touches
    /// the original: the two share no storage.
    fn clone(&self) -> (res: Self)
        ensures
            res@ == self@,
            res.wf() == self.wf(),
            res.spec_cap() == self.spec_cap(),
            res.spec_layout() == self.spec_layout(),
    {
        let res = ErasedVec {
            layout: self.layout,
            buf: clone_bytes(&self.buf),
            len: self.len,
            cap: self.cap,
            allocator: self.allocator.clone(),
        };
        proof {
            assert forall|k: int| 0 <= k < self@.len() implies res.slot(k) == self.slot(k) by {
                assert(res.slot(k) =~= self.slot(k));
            }
            assert(res@ =~= self@);
        }
        res
    }
}

/// A byte-for-byte copy of a byte vector.
fn clone_bytes(v: &Vec<u8>) -> (res: Vec<u8>)
    ensures
        res@ == v@,
{
    let res = v.clone();
    proof {
        assert(res@ =~= v@);
    }
    res
}

/// Lazy walk over a container's elements: read-only views handed out in
/// index order, ending the first time `get` answers nothing. Restartable
/// by asking the container for a fresh one.
pub struct IntoIter<'a, A> {
    i: usize,
    ty: u64,
    vec: &'a ErasedVec<A>,
}

impl<'a, A> IntoIter<'a, A> {
    /// The container being walked.
    pub closed spec fn target(&self) -> ErasedVec<A> {
        *self.vec
    }

    /// The index the next step will read.
    pub closed spec fn pos(&self) -> nat {
        self.i as nat
    }

    /// The cursor carries the container's own type token, and the
    /// container itself is well-formed.
    pub closed spec fn wf(&self) -> bool {
        &&& self.vec.wf()
        &&& self.ty == self.vec.spec_layout().type_id
    }

    /// The element at the cursor, advancing the cursor one step; nothing
    /// once the cursor has reached the live count.
    pub fn next(&mut self) -> (r: Option<&'a [u8]>)
        requires
            old(self).wf(),
            old(self).pos() < usize::MAX,
        ensures
            final(self).wf(),
            final(self).target() == old(self).target(),
            final(self).pos() == old(self).pos() + 1,
            old(self).pos() < old(self).target()@.len() ==> (r matches Some(s) && s@
                == old(self).target()@[old(self).pos() as int]),
            old(self).pos() >= old(self).target()@.len() ==> r is None,
    {
        let val = self.vec.get(self.ty, self.i);
        self.i = self.i + 1;
        val
    }
}

impl ErasedVec<Global> {
    /// `new_in` with the default allocator capability.
    pub fn new(elem: ElemLayout) -> (v: ErasedVec<Global>)
        ensures
            v.wf(),
            v@ == Seq::<Seq<u8>>::empty(),
            v.spec_cap() == 0,
            v.spec_layout() == elem,
    {
        ErasedVec::new_in(elem, Global)
    }

    /// `with_capacity_in` with the default allocator capability.
    pub fn with_capacity(elem: ElemLayout, capacity: usize) -> (v: ErasedVec<Global>)
        requires
            capacity * elem.size <= usize::MAX,
        ensures
            v.wf(),
            v@ == Seq::<Seq<u8>>::empty(),
            v.spec_cap() == capacity,
            v.spec_layout() == elem,
    {
        ErasedVec::with_capacity_in(elem, capacity, Global)
    }
}

/// Law of appending: a push leaves every earlier element readable,
/// unchanged, at its old index, puts the new value at the old live count,
/// and raises the live count by one. `push` ensures the container's view
/// becomes `before.push(value)`; with `get` reading `self@[i]` and `len`
/// reading `self@.len()`, this names what those contracts add up to, so a
/// run of N pushes from empty leaves N elements, each the value pushed at
/// its index.
pub proof fn lemma_push_preserves_elements(before: Seq<Seq<u8>>, value: Seq<u8>)
    ensures
        before.push(value).len() == before.len() + 1,
        forall|i: int| 0 <= i < before.len() ==> before.push(value)[i] == before[i],
        before.push(value)[before.len() as int] == value,
{
}

/// The slot count a growth step leaves behind: doubling, bootstrapped out
/// of the empty state to a single slot.
pub open spec fn grown_cap(cap: nat) -> nat {
    if cap == 0 {
        1
    } else {
        2 * cap
    }
}

/// Multiplication by a nonnegative width is monotone.
proof fn lemma_mul_mono(a: int, b: int, size: int)
    by (nonlinear_arith)
    requires
        0 <= a <= b,
        size >= 0,
    ensures
        a * size <= b * size,
{
}

/// Bounds for a left shift by one slot: for `index <= k < len - 1`, slot
/// `k + 1` still lies inside the old live range.
proof fn lemma_shift_slot(k: int, index: int, new_len: int, cap: int, size: int)
    by (nonlinear_arith)
    requires
        0 <= index <= k < new_len,
        new_len + 1 <= cap,
        size >= 0,
    ensures
        index * size <= k * size,
        k * size + size <= new_len * size,
        (k + 1) * size == k * size + size,
        (k + 1) * size + size <= (new_len + 1) * size,
        (new_len + 1) * size <= cap * size,
{
}

/// Slot `i` lies inside the live range when `i < len <= cap`:
/// `i*size + size <= len*size <= cap*size`.
proof fn lemma_slot_in_bounds(i: int, len: int, cap: int, size: int)
    by (nonlinear_arith)
    requires
        0 <= i < len,
        len <= cap,
        size >= 0,
    ensures
        i * size + size <= len * size,
        len * size <= cap * size,
{
}

/// A fresh all-zero byte buffer of length `n`.
fn zeroed(n: usize) -> (r: Vec<u8>)
    ensures
        r@.len() == n,
{
    let mut r: Vec<u8> = Vec::new();
    while r.len() < n
        invariant
            r@.len() <= n,
        decreases n - r@.len(),
    {
        r.push(0);
    }
    r
}

} // verus!
