//! Buffers that live for one call.
//!
//! Every function here builds a buffer, hands it to `callback` as a mutable
//! slice, and returns what `callback` returned. The buffer is storage that
//! the call owns, taken from the heap: it has an address of its own from the
//! start, also where it stays empty, and it is released, with whatever it
//! still holds, before the function returns or while a failure of `callback`
//! passes through. A contract states what the slice holds when `callback` is
//! entered, and that the result is a result of `callback` on such a slice.
use vstd::prelude::*;
use vstd::std_specs::iter::IteratorSpec;
use core::mem::MaybeUninit;
use vstd::layout::*;
use crate::layout::estimate_len;
use crate::layout::region_len;
use crate::layout::trusted_len;
use crate::slots::drained;
use crate::slots::zeroes;

verus! {

/// Every element of `buf` is a possible result of a call of `init_with`.
pub open spec fn filled_by<T, I: FnMut() -> T>(init_with: I, buf: Seq<T>) -> bool {
    forall|i: int| 0 <= i < buf.len() ==> call_ensures(init_with, (), #[trigger] buf[i])
}

/// Every element of `buf` is a clone of `init`.
pub open spec fn clones_of<T: Clone>(init: T, buf: Seq<T>) -> bool {
    forall|i: int| 0 <= i < buf.len() ==> cloned(init, #[trigger] buf[i])
}

/// `buf` is what a drain of at most `size` elements leaves in the buffer.
///
/// It never holds more than `size` elements. Of a source that behaves as an
/// iterator should (`lawful`), it holds exactly the elements that the source
/// had to give, in order, cut off after `size`.
pub open spec fn drain_of<T>(lawful: bool, source: Seq<T>, size: usize, buf: Seq<T>) -> bool {
    buf.len() <= size && (lawful ==> buf == drained(source, size))
}

/// An empty buffer that already has storage of its own.
///
/// A buffer that stays empty then still has an address that no other live
/// buffer has.
fn fresh<T>() -> (out: Vec<T>)
    ensures
        out@.len() == 0,
{
    Vec::with_capacity(1)
}

/// A buffer of `size` uninitialised slots of `T`.
///
/// The slots stand for a window inside a region of
/// `size_of::<T>() * size + align_of::<T>()` bytes, and that number has to be
/// a `usize`: [`crate::layout::region_bytes`] tells. Nothing is claimed of
/// what a slot holds: `callback` has to accept every slice of `size` slots.
pub fn stackalloc_uninit<T, U, F>(size: usize, callback: F) -> (out: U) where
    F: FnOnce(&mut [MaybeUninit<T>]) -> U,

    requires
        region_len(size_of::<T>(), align_of::<T>(), size as nat) <= usize::MAX,
        forall|buf: &mut [MaybeUninit<T>]| buf@.len() == size ==> call_requires(callback, (buf,)),
    ensures
        exists|buf: &mut [MaybeUninit<T>]|
            buf@.len() == size && call_ensures(callback, (buf,), out),
{
    let mut slots: Vec<MaybeUninit<T>> = fresh();
    let mut done: usize = 0;
    while done < size
        invariant
            slots@.len() == done,
            done <= size,
        decreases size - done,
    {
        slots.push(MaybeUninit::uninit());
        done += 1;
    }
    callback(slots.as_mut_slice())
}

/// A buffer of `size` uninitialised bytes, for every `size`.
///
/// Nothing is claimed of what a byte holds: `callback` has to accept every
/// slice of `size` bytes.
pub fn alloca<T, F>(size: usize, callback: F) -> (out: T) where
    F: FnOnce(&mut [MaybeUninit<u8>]) -> T,

    requires
        forall|buf: &mut [MaybeUninit<u8>]| buf@.len() == size ==> call_requires(callback, (buf,)),
    ensures
        exists|buf: &mut [MaybeUninit<u8>]|
            buf@.len() == size && call_ensures(callback, (buf,), out),
{
    let mut bytes: Vec<MaybeUninit<u8>> = fresh();
    let mut done: usize = 0;
    while done < size
        invariant
            bytes@.len() == done,
            done <= size,
        decreases size - done,
    {
        bytes.push(MaybeUninit::uninit());
        done += 1;
    }
    callback(bytes.as_mut_slice())
}

/// A buffer of `size` bytes, each of them zero when `callback` is entered.
pub fn alloca_zeroed<T, F>(size: usize, callback: F) -> (out: T) where
    F: FnOnce(&mut [u8]) -> T,

    requires
        forall|buf: &mut [u8]| buf@ == zeroes(size) ==> call_requires(callback, (buf,)),
    ensures
        exists|buf: &mut [u8]| buf@ == zeroes(size) && call_ensures(callback, (buf,), out),
{
    let mut bytes: Vec<u8> = fresh();
    let mut done: usize = 0;
    while done < size
        invariant
            bytes@.len() == done,
            done <= size,
            forall|i: int| 0 <= i < done ==> bytes@[i] == 0u8,
        decreases size - done,
    {
        bytes.push(0u8);
        done += 1;
    }
    assert(bytes@ =~= zeroes(size));
    callback(bytes.as_mut_slice())
}

/// A buffer of `size` elements, each made by a call of `init_with`.
///
/// The calls are made one per slot, from the first slot to the last. The
/// contract speaks of each element by itself: that it is a result of
/// `init_with`.
pub fn stackalloc_with<T, U, F, I>(size: usize, init_with: I, callback: F) -> (out: U) where
    F: FnOnce(&mut [T]) -> U,
    I: FnMut() -> T,

    requires
        size > 0 ==> call_requires(init_with, ()),
        forall|buf: &mut [T]|
            buf@.len() == size && filled_by(init_with, buf@) ==> call_requires(callback, (buf,)),
    ensures
        exists|buf: &mut [T]|
            buf@.len() == size && filled_by(init_with, buf@) && call_ensures(callback, (buf,), out),
{
    let mut init_with = init_with;
    let ghost factory = init_with;
    let mut items: Vec<T> = fresh();
    let mut done: usize = 0;
    while done < size
        invariant
            items@.len() == done,
            done <= size,
            init_with == factory,
            size > 0 ==> call_requires(factory, ()),
            filled_by(factory, items@),
        decreases size - done,
    {
        let item = init_with();
        items.push(item);
        done += 1;
    }
    callback(items.as_mut_slice())
}

/// A buffer of `size` clones of `init`.
pub fn stackalloc<T, U, F>(size: usize, init: T, callback: F) -> (out: U) where
    F: FnOnce(&mut [T]) -> U,
    T: Clone,

    requires
        forall|buf: &mut [T]|
            buf@.len() == size && clones_of(init, buf@) ==> call_requires(callback, (buf,)),
    ensures
        exists|buf: &mut [T]|
            buf@.len() == size && clones_of(init, buf@) && call_ensures(callback, (buf,), out),
{
    let template = &init;
    let duplicate = || -> (item: T)
        ensures
            cloned(*template, item),
        { template.clone() };
    stackalloc_with(size, duplicate, callback)
}

/// A buffer of `size` elements, each a default value of `T`.
pub fn stackalloc_with_default<T, U, F>(size: usize, callback: F) -> (out: U) where
    F: FnOnce(&mut [T]) -> U,
    T: Default,

    requires
        forall|buf: &mut [T]|
            buf@.len() == size && filled_by(T::default, buf@) ==> call_requires(callback, (buf,)),
    ensures
        exists|buf: &mut [T]|
            buf@.len() == size && filled_by(T::default, buf@) && call_ensures(callback, (buf,), out),
{
    stackalloc_with(size, T::default, callback)
}

/// A buffer of the elements that `iter` yields, `size` of them at most.
///
/// Elements are pulled one by one and written to successive slots. Pulling
/// stops when `size` elements were written or `iter` is exhausted, whichever
/// comes first, and the slice that `callback` gets is exactly as long as the
/// number of elements written. What `iter` had beyond them stays in it.
pub fn stackalloc_with_iter<I, T, U, F>(size: usize, iter: &mut I, callback: F) -> (out: U) where
    F: FnOnce(&mut [T]) -> U,
    I: Iterator<Item = T>,

    requires
        forall|buf: &mut [T]|
            #[trigger] drain_of(
                IteratorSpec::obeys_prophetic_iter_laws(old(iter)),
                IteratorSpec::remaining(old(iter)),
                size,
                buf@,
            ) ==> call_requires(callback, (buf,)),
    ensures
        exists|buf: &mut [T]|
            #[trigger] drain_of(
                IteratorSpec::obeys_prophetic_iter_laws(old(iter)),
                IteratorSpec::remaining(old(iter)),
                size,
                buf@,
            ) && call_ensures(callback, (buf,), out),
        IteratorSpec::obeys_prophetic_iter_laws(old(iter)) ==> IteratorSpec::remaining(final(iter))
            == IteratorSpec::remaining(old(iter)).skip(
            drained(IteratorSpec::remaining(old(iter)), size).len() as int,
        ),
{
    let mut items: Vec<T> = fresh();
    let mut done: usize = 0;
    let ghost source = IteratorSpec::remaining(old(iter));
    let ghost lawful = IteratorSpec::obeys_prophetic_iter_laws(old(iter));
    while done < size
        invariant
            items@.len() == done,
            done <= size,
            lawful == IteratorSpec::obeys_prophetic_iter_laws(iter),
            lawful ==> done <= source.len(),
            lawful ==> items@ == source.take(done as int),
            lawful ==> IteratorSpec::remaining(iter) == source.skip(done as int),
        ensures
            lawful ==> done == size || done == source.len(),
        decreases size - done,
    {
        match iter.next() {
            Some(item) => {
                items.push(item);
            },
            None => {
                break ;
            },
        }
        done += 1;
        proof {
            if lawful {
                assert(items@ =~= source.take(done as int));
                assert(IteratorSpec::remaining(iter) =~= source.skip(done as int));
            }
        }
    }
    proof {
        if lawful {
            assert(source.take(done as int) =~= drained(source, size));
        }
    }
    let view = items.as_mut_slice();
    assert(drain_of(lawful, source, size, view@));
    callback(view)
}

/// A buffer of the elements that `iter` yields, `reported` of them at most,
/// where `reported` is the length that the source reports of itself.
///
/// The report may be wrong either way. The slice that `callback` gets is as
/// long as the number of elements that were written: never longer than the
/// report, never longer than what `iter` had. Where the report was too
/// small, the elements beyond it stay in `iter`.
pub fn stackalloc_from_iter_exact<I, T, U, F>(reported: usize, iter: &mut I, callback: F) -> (out:
    U) where
    F: FnOnce(&mut [T]) -> U,
    I: Iterator<Item = T>,

    requires
        forall|buf: &mut [T]|
            #[trigger] drain_of(
                IteratorSpec::obeys_prophetic_iter_laws(old(iter)),
                IteratorSpec::remaining(old(iter)),
                reported,
                buf@,
            ) ==> call_requires(callback, (buf,)),
    ensures
        exists|buf: &mut [T]|
            #[trigger] drain_of(
                IteratorSpec::obeys_prophetic_iter_laws(old(iter)),
                IteratorSpec::remaining(old(iter)),
                reported,
                buf@,
            ) && call_ensures(callback, (buf,), out),
        IteratorSpec::obeys_prophetic_iter_laws(old(iter)) ==> IteratorSpec::remaining(final(iter))
            == IteratorSpec::remaining(old(iter)).skip(
            drained(IteratorSpec::remaining(old(iter)), reported).len() as int,
        ),
{
    stackalloc_with_iter(reported, iter, callback)
}

/// A buffer of the elements that `iter` yields, as many as the size estimate
/// asks for, at most: `upper` where there is one, else `lower`.
///
/// The estimate is taken on trust. Where it is too small, the elements
/// beyond it stay in `iter`; where it is too large, the slice that `callback`
/// gets is still only as long as the number of elements that were written.
pub fn stackalloc_from_iter_trusted<I, T, U, F>(
    lower: usize,
    upper: Option<usize>,
    iter: &mut I,
    callback: F,
) -> (out: U) where F: FnOnce(&mut [T]) -> U, I: Iterator<Item = T>
    requires
        forall|buf: &mut [T]|
            #[trigger] drain_of(
                IteratorSpec::obeys_prophetic_iter_laws(old(iter)),
                IteratorSpec::remaining(old(iter)),
                estimate_len(lower, upper),
                buf@,
            ) ==> call_requires(callback, (buf,)),
    ensures
        exists|buf: &mut [T]|
            #[trigger] drain_of(
                IteratorSpec::obeys_prophetic_iter_laws(old(iter)),
                IteratorSpec::remaining(old(iter)),
                estimate_len(lower, upper),
                buf@,
            ) && call_ensures(callback, (buf,), out),
        IteratorSpec::obeys_prophetic_iter_laws(old(iter)) ==> IteratorSpec::remaining(final(iter))
            == IteratorSpec::remaining(old(iter)).skip(
            drained(IteratorSpec::remaining(old(iter)), estimate_len(lower, upper)).len() as int,
        ),
{
    stackalloc_with_iter(trusted_len(lower, upper), iter, callback)
}

} // verus!
