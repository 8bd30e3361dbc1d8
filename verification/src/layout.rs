//! Address arithmetic for a typed window inside a raw byte region.
//!
//! A region of `size * count + align` bytes always contains `count` slots of
//! `size` bytes that start at a multiple of `align`, wherever the region
//! itself begins. The functions here compute that request and that start, and
//! the lemmas say why the window never leaves the region.
use vstd::prelude::*;
use vstd::layout::*;

verus! {

/// Bytes to request for `count` slots of `elem_size` bytes aligned to
/// `elem_align`: the slots themselves plus one alignment of slack.
pub open spec fn region_len(elem_size: nat, elem_align: nat, count: nat) -> nat {
    elem_size * count + elem_align
}

/// `addr` is a multiple of `align`.
pub open spec fn is_aligned(addr: nat, align: nat) -> bool {
    align > 0 && addr % align == 0
}

/// The first multiple of `align` at or after `addr`.
pub open spec fn first_aligned(addr: nat, align: nat) -> nat
    recommends
        align > 0,
{
    if addr % align == 0 {
        addr
    } else {
        (addr + align - addr % align) as nat
    }
}

/// The buffer length that a size estimate asks for: the upper estimate where
/// there is one, else the lower estimate.
pub open spec fn estimate_len(lower: usize, upper: Option<usize>) -> usize {
    match upper {
        Some(x) => x,
        None => lower,
    }
}

/// `first_aligned` is aligned, lies less than one alignment past `addr`, and
/// no aligned address lies between `addr` and it.
pub proof fn lemma_first_aligned(addr: nat, align: nat)
    requires
        align > 0,
    ensures
        is_aligned(first_aligned(addr, align), align),
        addr <= first_aligned(addr, align) < addr + align,
        forall|b: nat| b >= addr && is_aligned(b, align) ==> b >= first_aligned(addr, align),
{
    let r = addr % align;
    let fa = first_aligned(addr, align);
    assert(addr == align * (addr / align) + r) by {
        vstd::arithmetic::div_mod::lemma_fundamental_div_mod(addr as int, align as int);
    }
    if r != 0 {
        assert(fa == align * (addr / align + 1)) by (nonlinear_arith)
            requires
                fa == addr + align - r,
                addr == align * (addr / align) + r,
        ;
        assert(fa % align == 0) by {
            vstd::arithmetic::div_mod::lemma_mod_multiples_basic((addr / align + 1) as int, align as int);
            assert(align * (addr / align + 1) == (addr / align + 1) * align) by (nonlinear_arith);
        }
    }
    assert forall|b: nat| b >= addr && is_aligned(b, align) implies b >= fa by {
        if b < fa {
            // addr <= b < fa, so r != 0 and b lies strictly inside one stride
            vstd::arithmetic::div_mod::lemma_fundamental_div_mod(b as int, align as int);
            let q = addr / align;
            let k = b / align;
            assert(b == align * k);
            assert(align * q < align * k && align * k < align * (q + 1));
            assert(false) by (nonlinear_arith)
                requires
                    align > 0,
                    align * q < align * k,
                    align * k < align * (q + 1),
            ;
        }
    }
}

/// The aligned window of `count` slots lies inside the region of
/// `region_len` bytes that starts at `start`, whatever `start` is.
pub proof fn lemma_window_in_region(start: nat, elem_size: nat, elem_align: nat, count: nat)
    requires
        elem_align > 0,
    ensures
        start <= first_aligned(start, elem_align),
        first_aligned(start, elem_align) + elem_size * count <= start + region_len(
            elem_size,
            elem_align,
            count,
        ),
{
    lemma_first_aligned(start, elem_align);
}

/// Where the element size is a multiple of the alignment, every slot of the
/// window starts at an aligned address.
pub proof fn lemma_slots_aligned(start: nat, elem_size: nat, elem_align: nat, index: nat)
    requires
        elem_align > 0,
        elem_size % elem_align == 0,
    ensures
        is_aligned(first_aligned(start, elem_align) + elem_size * index, elem_align),
{
    lemma_first_aligned(start, elem_align);
    let fa = first_aligned(start, elem_align) as int;
    let a = elem_align as int;
    vstd::arithmetic::div_mod::lemma_fundamental_div_mod(elem_size as int, a);
    vstd::arithmetic::div_mod::lemma_fundamental_div_mod(fa, a);
    let k = fa / a + (elem_size as int / a) * index;
    assert(fa + elem_size * index == k * a) by (nonlinear_arith)
        requires
            fa == a * (fa / a),
            elem_size == a * (elem_size as int / a),
            k == fa / a + (elem_size as int / a) * index,
    ;
    vstd::arithmetic::div_mod::lemma_mod_multiples_basic(k, a);
}

/// Bytes to request for `count` slots of `T`, or `None` where that number
/// does not fit the address space.
pub fn region_bytes<T>(count: usize) -> (out: Option<usize>)
    ensures
        out == (if region_len(size_of::<T>(), align_of::<T>(), count as nat) <= usize::MAX {
            Some(region_len(size_of::<T>(), align_of::<T>(), count as nat) as usize)
        } else {
            None
        }),
{
    let size: usize = core::mem::size_of::<T>();
    let align: usize = core::mem::align_of::<T>();
    match size.checked_mul(count) {
        Some(slots) => slots.checked_add(align),
        None => None,
    }
}

/// The first address at or after `addr` that is aligned for `T`.
///
/// That address has to exist. It does wherever `addr` starts a region that
/// was sized by [`region_bytes`]: it lies less than one alignment past
/// `addr`, and such a region is at least one alignment long.
pub fn align_buffer_to<T>(addr: usize) -> (out: usize)
    requires
        first_aligned(addr as nat, align_of::<T>()) <= usize::MAX,
    ensures
        out == first_aligned(addr as nat, align_of::<T>()),
        is_aligned(out as nat, align_of::<T>()),
        addr <= out < addr + align_of::<T>(),
{
    layout_for_type_is_valid::<T>();
    let align: usize = core::mem::align_of::<T>();
    proof {
        lemma_first_aligned(addr as nat, align as nat);
    }
    let rest: usize = addr % align;
    if rest == 0 {
        addr
    } else {
        addr + (align - rest)
    }
}

/// Where the window of `count` slots of `T` starts inside the region of `len`
/// bytes at `start`, for a region that was sized by [`region_bytes`] and lies
/// in the address space.
///
/// The window starts at the first aligned address of the region and ends
/// inside it.
pub fn window_start<T>(start: usize, len: usize, count: usize) -> (out: usize)
    requires
        len == region_len(size_of::<T>(), align_of::<T>(), count as nat),
        start + len <= usize::MAX + 1,
    ensures
        out == first_aligned(start as nat, align_of::<T>()),
        is_aligned(out as nat, align_of::<T>()),
        start <= out,
        out + size_of::<T>() * count <= start + len,
{
    layout_for_type_is_valid::<T>();
    proof {
        lemma_window_in_region(start as nat, size_of::<T>(), align_of::<T>(), count as nat);
        lemma_first_aligned(start as nat, align_of::<T>());
    }
    align_buffer_to::<T>(start)
}

/// The buffer length to allocate for a sequence that only gives a size
/// estimate.
pub fn trusted_len(lower: usize, upper: Option<usize>) -> (out: usize)
    ensures
        out == estimate_len(lower, upper),
{
    match upper {
        Some(x) => x,
        None => lower,
    }
}

} // verus!
