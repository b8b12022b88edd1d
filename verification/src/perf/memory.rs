//! Aligned storage and slice alignment.
use vstd::prelude::*;
use vstd::arithmetic::power2::is_pow2;
use vstd::layout::{size_of, valid_layout};

verus! {

/// The smallest power of two that is at least `n` (one for `n <= 1`).
pub open spec fn next_pow2(n: nat) -> nat
    decreases n,
{
    if n <= 1 {
        1
    } else {
        2 * next_pow2(((n + 1) / 2) as nat)
    }
}

/// `next_pow2(n)` is a power of two, is at least `n`, and its half is below
/// `n` unless it is one: it is the least power of two not below `n`.
pub proof fn lemma_next_pow2(n: nat)
    ensures
        is_pow2(next_pow2(n) as int),
        next_pow2(n) >= n,
        next_pow2(n) == 1 || next_pow2(n) / 2 < n,
    decreases n,
{
    reveal_with_fuel(is_pow2, 2);
    if n > 1 {
        lemma_next_pow2(((n + 1) / 2) as nat);
        let h = next_pow2(((n + 1) / 2) as nat);
        assert((2 * h) / 2 == h);
        assert((2 * h) % 2 == 0);
    }
}

/// A power of two that is at least `n` and whose half is below `n` (unless it
/// is one) is `next_pow2(n)`.
pub proof fn lemma_next_pow2_unique(n: nat, p: nat)
    requires
        is_pow2(p as int),
        p >= n,
        p == 1 || p / 2 < n,
    ensures
        p == next_pow2(n),
    decreases n,
{
    reveal_with_fuel(is_pow2, 2);
    if n <= 1 {
        if p != 1 {
            assert(p % 2 == 0 && is_pow2((p / 2) as int));
            reveal_with_fuel(is_pow2, 1);
        }
    } else {
        assert(p != 1);
        assert(p % 2 == 0 && is_pow2((p / 2) as int));
        let h = (p / 2) as nat;
        assert(h >= (n + 1) / 2);
        assert(h == 1 || h / 2 < (n + 1) / 2);
        lemma_next_pow2_unique(((n + 1) / 2) as nat, h);
    }
}

/// Computes the smallest power of two that is at least `n`, as
/// `usize::next_power_of_two` does.
fn next_power_of_two(n: usize) -> (r: usize)
    requires
        n <= usize::MAX / 2 + 1,
    ensures
        r == next_pow2(n as nat),
{
    let mut p: usize = 1;
    reveal_with_fuel(is_pow2, 1);
    while p < n
        invariant
            is_pow2(p as int),
            n <= usize::MAX / 2 + 1,
            p == 1 || p / 2 < n,
        decreases usize::MAX - p,
    {
        assert(p <= usize::MAX / 2);
        proof {
            reveal_with_fuel(is_pow2, 2);
            assert((2 * p) / 2 == p);
        }
        p = p * 2;
    }
    proof {
        lemma_next_pow2_unique(n as nat, p as nat);
    }
    p
}

/// The capacity that `push` grows a full vector to: four slots at first,
/// then twice the current capacity.
pub open spec fn grown_capacity(capacity: nat) -> nat {
    if capacity == 0 {
        4
    } else {
        2 * capacity
    }
}

/// The capacity that `push` grows a full vector of the given capacity to:
/// `grown_capacity(capacity)`.
pub fn push_growth(capacity: usize) -> (r: usize)
    requires
        capacity <= usize::MAX / 2,
    ensures
        r == grown_capacity(capacity as nat),
{
    if capacity == 0 {
        4
    } else {
        capacity * 2
    }
}

/// The capacity that `reserve(additional)` grows a vector of `len` elements
/// and the given capacity to: none when the capacity already holds `len +
/// additional` elements, else the smallest power of two that does.
pub fn reserve_growth(len: usize, capacity: usize, additional: usize) -> (r: Option<usize>)
    requires
        len + additional <= usize::MAX,
        len + additional > capacity ==> len + additional <= usize::MAX / 2 + 1,
    ensures
        r == if len + additional <= capacity {
            None::<usize>
        } else {
            Some(next_pow2((len + additional) as nat) as usize)
        },
{
    let wanted = len + additional;
    if wanted <= capacity {
        None
    } else {
        Some(next_power_of_two(wanted))
    }
}

/// Whether storage for `capacity` elements of `T` with the given alignment
/// can be described by a memory layout: elements of `T` take up room, the
/// byte size fits in a `usize`, and that size rounded up to the alignment
/// stays within `isize::MAX`.
pub open spec fn layout_fits<T>(capacity: nat, alignment: usize) -> bool {
    &&& size_of::<T>() > 0
    &&& capacity * size_of::<T>() <= usize::MAX
    &&& valid_layout((capacity * size_of::<T>()) as usize, alignment)
}

/// Decides `layout_fits::<T>(capacity, alignment)`.
fn layout_fits_exec<T>(capacity: usize, alignment: usize) -> (b: bool)
    requires
        is_pow2(alignment as int),
    ensures
        b == layout_fits::<T>(capacity as nat, alignment),
{
    let s = std::mem::size_of::<T>();
    if s == 0 {
        return false;
    }
    match capacity.checked_mul(s) {
        None => false,
        Some(bytes) => {
            proof {
                reveal_with_fuel(is_pow2, 1);
            }
            let limit: usize = isize::MAX as usize;
            let rem: usize = limit % alignment;
            assert(rem <= limit) by (nonlinear_arith)
                requires
                    rem == limit % alignment,
                    alignment > 0,
            ;
            bytes <= limit - rem
        },
    }
}

proof fn lemma_layout_bounds_capacity<T>(capacity: nat, alignment: usize)
    requires
        layout_fits::<T>(capacity, alignment),
    ensures
        capacity <= isize::MAX,
{
    let s = size_of::<T>();
    reveal_with_fuel(is_pow2, 1);
    assert(alignment > 0);
    assert((isize::MAX as int) % (alignment as int) >= 0);
    assert(capacity <= capacity * s) by (nonlinear_arith)
        requires
            s >= 1,
    ;
}

/// A growable vector that records the power-of-two alignment its storage
/// is meant for and manages its capacity in powers of two: zero at first,
/// four slots on the first push, doubling when full, and rounded up to a
/// power of two when room is reserved. The capacity is never below the
/// length.
///
/// The elements are held in a `Vec`, whose buffer has the alignment of `T`;
/// the recorded alignment is not imposed on that buffer. A caller that
/// allocates over-aligned storage itself takes the same growth decisions
/// from `push_growth` and `reserve_growth`.
pub struct AlignedVec<T> {
    data: Vec<T>,
    capacity: usize,
    alignment: usize,
}

impl<T> View for AlignedVec<T> {
    type V = Seq<T>;

    /// The elements, in order.
    closed spec fn view(&self) -> Seq<T> {
        self.data@
    }
}

impl<T> AlignedVec<T> {
    /// The vector holds at most its capacity, its alignment is a power of
    /// two, and its capacity is zero or a power of two.
    pub closed spec fn well_formed(&self) -> bool {
        &&& self.data@.len() <= self.capacity
        &&& is_pow2(self.alignment as int)
        &&& (self.capacity == 0 || is_pow2(self.capacity as int))
    }

    /// The number of elements the storage holds room for.
    pub closed spec fn capacity_spec(&self) -> nat {
        self.capacity as nat
    }

    /// The alignment, in bytes, recorded for the storage.
    pub closed spec fn alignment_spec(&self) -> usize {
        self.alignment
    }

    /// Creates an empty vector with the given alignment in bytes.
    ///
    /// The alignment must be a power of two.
    pub fn new(alignment: usize) -> (v: Self)
        requires
            is_pow2(alignment as int),
        ensures
            v.well_formed(),
            v@ == Seq::<T>::empty(),
            v.capacity_spec() == 0,
            v.alignment_spec() == alignment,
    {
        AlignedVec { data: Vec::new(), capacity: 0, alignment }
    }

    /// Creates an empty vector aligned to a cache line.
    pub fn new_cache_aligned() -> (v: Self)
        ensures
            v.well_formed(),
            v@ == Seq::<T>::empty(),
            v.capacity_spec() == 0,
            v.alignment_spec() == super::MEMORY_ALIGNMENT,
    {
        assert(is_pow2(64)) by {
            reveal_with_fuel(is_pow2, 7);
        }
        Self::new(super::MEMORY_ALIGNMENT)
    }

    /// Grows the storage to exactly `new_capacity` elements, keeping the
    /// elements.
    fn reallocate(&mut self, new_capacity: usize)
        requires
            old(self).well_formed(),
            old(self)@.len() <= new_capacity,
            is_pow2(new_capacity as int),
            layout_fits::<T>(new_capacity as nat, old(self).alignment_spec()),
        ensures
            final(self).well_formed(),
            final(self)@ == old(self)@,
            final(self).capacity_spec() == new_capacity,
            final(self).alignment_spec() == old(self).alignment_spec(),
    {
        let additional = new_capacity - self.data.len();
        self.data.reserve(additional);
        self.capacity = new_capacity;
    }

    /// Reserves room for at least `additional` more elements.
    ///
    /// When the current capacity is too small, the capacity becomes the
    /// smallest power of two that holds the current elements and
    /// `additional` more; otherwise nothing changes.
    pub fn reserve(&mut self, additional: usize)
        requires
            old(self).well_formed(),
            old(self)@.len() + additional <= usize::MAX,
            old(self)@.len() + additional > old(self).capacity_spec() ==> {
                &&& old(self)@.len() + additional <= usize::MAX / 2 + 1
                &&& layout_fits::<T>(
                    next_pow2((old(self)@.len() + additional) as nat),
                    old(self).alignment_spec(),
                )
            },
        ensures
            final(self).well_formed(),
            final(self)@ == old(self)@,
            final(self).alignment_spec() == old(self).alignment_spec(),
            final(self).capacity_spec() >= old(self)@.len() + additional,
            final(self).capacity_spec() == if old(self)@.len() + additional
                <= old(self).capacity_spec() {
                old(self).capacity_spec()
            } else {
                next_pow2((old(self)@.len() + additional) as nat)
            },
    {
        proof {
            lemma_next_pow2((old(self)@.len() + additional) as nat);
        }
        if let Some(new_capacity) = reserve_growth(self.data.len(), self.capacity, additional) {
            self.reallocate(new_capacity);
        }
    }

    /// Appends an element, growing a full vector first: to four slots when
    /// it has none, else to twice its capacity.
    pub fn push(&mut self, value: T)
        requires
            old(self).well_formed(),
            old(self)@.len() == old(self).capacity_spec() ==> layout_fits::<T>(
                grown_capacity(old(self).capacity_spec()),
                old(self).alignment_spec(),
            ),
        ensures
            final(self).well_formed(),
            final(self)@ == old(self)@.push(value),
            final(self).alignment_spec() == old(self).alignment_spec(),
            final(self).capacity_spec() == if old(self)@.len() == old(self).capacity_spec() {
                grown_capacity(old(self).capacity_spec())
            } else {
                old(self).capacity_spec()
            },
    {
        if self.data.len() == self.capacity {
            proof {
                lemma_layout_bounds_capacity::<T>(
                    grown_capacity(self.capacity as nat),
                    self.alignment,
                );
                reveal_with_fuel(is_pow2, 3);
                if self.capacity > 0 {
                    assert((2 * self.capacity) / 2 == self.capacity);
                }
            }
            let new_capacity = push_growth(self.capacity);
            self.reallocate(new_capacity);
        }
        self.data.push(value);
    }

    /// Whether `push` can be called: a full vector must be able to grow to
    /// `grown_capacity` of its capacity within a valid memory layout.
    pub fn can_push(&self) -> (b: bool)
        requires
            self.well_formed(),
        ensures
            b == (self@.len() == self.capacity_spec() ==> layout_fits::<T>(
                grown_capacity(self.capacity_spec()),
                self.alignment_spec(),
            )),
    {
        if self.data.len() != self.capacity {
            return true;
        }
        if self.capacity == 0 {
            return layout_fits_exec::<T>(4, self.alignment);
        }
        if self.capacity > usize::MAX / 2 {
            proof {
                let s = size_of::<T>();
                if s > 0 {
                    assert(2 * self.capacity * s > usize::MAX) by (nonlinear_arith)
                        requires
                            self.capacity > usize::MAX / 2,
                            s >= 1,
                    ;
                }
            }
            return false;
        }
        layout_fits_exec::<T>(self.capacity * 2, self.alignment)
    }

    /// Whether `reserve(additional)` can be called: the wanted length must
    /// fit in a `usize`, and when it exceeds the capacity, its next power of
    /// two must too, within a valid memory layout.
    pub fn can_reserve(&self, additional: usize) -> (b: bool)
        requires
            self.well_formed(),
        ensures
            b == {
                &&& self@.len() + additional <= usize::MAX
                &&& self@.len() + additional > self.capacity_spec() ==> {
                    &&& self@.len() + additional <= usize::MAX / 2 + 1
                    &&& layout_fits::<T>(
                        next_pow2((self@.len() + additional) as nat),
                        self.alignment_spec(),
                    )
                }
            },
    {
        if additional > usize::MAX - self.data.len() {
            return false;
        }
        let wanted = self.data.len() + additional;
        if wanted <= self.capacity {
            return true;
        }
        if wanted > usize::MAX / 2 + 1 {
            return false;
        }
        let rounded = next_power_of_two(wanted);
        layout_fits_exec::<T>(rounded, self.alignment)
    }

    /// The elements as a slice.
    pub fn as_slice(&self) -> (s: &[T])
        ensures
            s@ == self@,
    {
        self.data.as_slice()
    }

    /// The elements as a mutable slice.
    pub fn as_mut_slice(&mut self) -> (s: &mut [T])
        requires
            old(self).well_formed(),
        ensures
            final(s)@.len() == s@.len() ==> final(self).well_formed(),
            s@ == old(self)@,
            final(s)@ == final(self)@,
            final(self).capacity_spec() == old(self).capacity_spec(),
            final(self).alignment_spec() == old(self).alignment_spec(),
    {
        self.data.as_mut_slice()
    }

    /// The number of elements.
    pub fn len(&self) -> (n: usize)
        requires
            self.well_formed(),
        ensures
            n == self@.len(),
            n <= self.capacity_spec(),
    {
        self.data.len()
    }

    /// Whether the vector holds no element.
    pub fn is_empty(&self) -> (b: bool)
        ensures
            b == (self@.len() == 0),
    {
        self.data.len() == 0
    }
}

/// The first address at or after `address` whose bits under `alignment - 1`
/// are clear: `address` rounded up to the alignment.
pub open spec fn aligned_address(address: usize, alignment: usize) -> usize {
    ((address + (alignment - 1)) as usize) & !((alignment - 1) as usize)
}

/// How many elements of `elem_size` bytes lie between `address` and the
/// aligned address after it.
pub open spec fn alignment_offset(address: usize, alignment: usize, elem_size: nat) -> int {
    (aligned_address(address, alignment) - address) / (elem_size as int)
}

/// The elements of `slice` from the first one stored at or after the next
/// `alignment` boundary, when the slice's storage starts at `address`; no
/// element when that boundary lies past the end of the slice or beyond the
/// address space.
pub open spec fn aligned_suffix<T>(slice: Seq<T>, address: usize, alignment: usize) -> Seq<T> {
    if address + (alignment - 1) > usize::MAX {
        Seq::empty()
    } else {
        let offset = alignment_offset(address, alignment, size_of::<T>());
        if offset >= slice.len() {
            Seq::empty()
        } else {
            slice.subrange(offset, slice.len() as int)
        }
    }
}

proof fn lemma_aligned_address_bounds(address: usize, alignment: usize)
    requires
        alignment >= 1,
        address + (alignment - 1) <= usize::MAX,
    ensures
        address <= aligned_address(address, alignment),
        aligned_address(address, alignment) - address <= alignment - 1,
{
    let m: usize = (alignment - 1) as usize;
    let x: usize = (address + m) as usize;
    assert((x & !m) <= x && x - (x & !m) <= m) by (bit_vector);
}

/// Computes `alignment_offset(address, alignment, elem_size)`.
fn align_offset(address: usize, alignment: usize, elem_size: usize) -> (offset: usize)
    requires
        alignment >= 1,
        elem_size >= 1,
        address + (alignment - 1) <= usize::MAX,
    ensures
        offset == alignment_offset(address, alignment, elem_size as nat),
{
    proof {
        lemma_aligned_address_bounds(address, alignment);
    }
    let aligned = (address + (alignment - 1)) & !(alignment - 1);
    (aligned - address) / elem_size
}

/// The suffix of `slice` that starts at the first element stored at or after
/// an `alignment` boundary, for storage that starts at `address`.
///
/// The alignment must be at least one byte and `T` must take up room.
pub fn align_slice_from_address<T>(slice: &[T], address: usize, alignment: usize) -> (r: &[T])
    requires
        alignment >= 1,
        size_of::<T>() > 0,
    ensures
        r@ == aligned_suffix(slice@, address, alignment),
{
    let len = slice.len();
    if address > usize::MAX - (alignment - 1) {
        return slice.split_at(len).1;
    }
    let offset = align_offset(address, alignment, std::mem::size_of::<T>());
    if offset >= len {
        slice.split_at(len).1
    } else {
        slice.split_at(offset).1
    }
}

/// The address at which the storage of `slice` begins.
///
/// Calls `<[T]>::as_ptr` and converts the pointer to an integer. The address
/// itself depends on where the data was placed in memory and is not stated;
/// what is stated is what std documents of every slice (see
/// `std::slice::from_raw_parts`): its storage does not wrap around the end
/// of the address space.
#[verifier::external_body]
fn slice_address<T>(slice: &[T]) -> (a: usize)
    ensures
        a + slice@.len() * size_of::<T>() <= usize::MAX,
{
    slice.as_ptr() as usize
}

/// The suffix of `slice` that starts at the first element stored at or after
/// an `alignment` boundary in memory.
///
/// The result is what `align_slice_from_address` gives for the slice's
/// address, which lies low enough for the slice's storage to fit below the
/// end of the address space: a suffix of the slice from which fewer elements
/// than fit in one alignment unit were dropped. When the slice takes up at
/// least `alignment` bytes, the result holds at least one element.
pub fn align_slice<T>(slice: &[T], alignment: usize) -> (r: &[T])
    requires
        alignment >= 1,
        size_of::<T>() > 0,
    ensures
        exists|address: usize|
            address + slice@.len() * size_of::<T>() <= usize::MAX && r@ == aligned_suffix(
                slice@,
                address,
                alignment,
            ),
        exists|skip: int|
            0 <= skip <= slice@.len() && r@ == slice@.subrange(skip, slice@.len() as int) && (skip
                < slice@.len() ==> skip * size_of::<T>() <= alignment - 1),
        slice@.len() * size_of::<T>() >= alignment ==> r@.len() > 0,
{
    let address = slice_address(slice);
    let r = align_slice_from_address(slice, address, alignment);
    proof {
        let len = slice@.len() as int;
        if address + (alignment - 1) > usize::MAX {
            assert(r@ == slice@.subrange(len, len));
        } else {
            lemma_aligned_address_bounds(address, alignment);
            let offset = alignment_offset(address, alignment, size_of::<T>());
            let d = aligned_address(address, alignment) - address;
            let s = size_of::<T>() as int;
            assert(offset * s <= d) by (nonlinear_arith)
                requires
                    offset == d / s,
                    s > 0,
                    d >= 0,
            ;
            assert(offset >= 0) by (nonlinear_arith)
                requires
                    offset == d / s,
                    s > 0,
                    d >= 0,
            ;
            if offset >= len {
                assert(r@ == slice@.subrange(len, len));
                assert(len * s <= offset * s) by (nonlinear_arith)
                    requires
                        offset >= len,
                        s > 0,
                ;
            }
        }
    }
    r
}

} // verus!
