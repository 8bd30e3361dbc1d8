//! Filling uninitialised slots in place.
//!
//! A slot is a `MaybeUninit<T>`: it either holds a live value or holds
//! nothing that may be read. The functions here write values into the slots
//! of a region that somebody else provides, front to back, and say which
//! slots hold a value afterwards, so that the provider knows which slots it
//! may read and has to drop.
use vstd::prelude::*;
use vstd::std_specs::iter::IteratorSpec;
use vstd::std_specs::maybe_uninit::MaybeUninitAdditionalSpecFns;
use core::mem::MaybeUninit;

verus! {

/// `size` bytes, all zero.
pub open spec fn zeroes(size: usize) -> Seq<u8> {
    Seq::new(size as nat, |i: int| 0u8)
}

/// The first `size` elements of `source`, or all of it where it is shorter.
pub open spec fn drained<T>(source: Seq<T>, size: usize) -> Seq<T> {
    if source.len() <= size {
        source
    } else {
        source.take(size as int)
    }
}

/// The first `items.len()` slots of `buf` hold the values `items`, in order.
pub open spec fn holds<T>(buf: Seq<MaybeUninit<T>>, items: Seq<T>) -> bool {
    &&& items.len() <= buf.len()
    &&& forall|i: int| 0 <= i < items.len() ==> (#[trigger] buf[i]).as_option() == Some(items[i])
}

/// The first `done` slots of `buf` each hold a value.
pub open spec fn init_up_to<T>(buf: Seq<MaybeUninit<T>>, done: int) -> bool {
    &&& done <= buf.len()
    &&& forall|i: int| 0 <= i < done ==> (#[trigger] buf[i]).as_option() is Some
}

/// The slots of `after` from `done` on are those of `before`.
pub open spec fn same_from<T>(
    before: Seq<MaybeUninit<T>>,
    after: Seq<MaybeUninit<T>>,
    done: int,
) -> bool {
    &&& after.len() == before.len()
    &&& forall|i: int| done <= i < before.len() ==> #[trigger] after[i] == before[i]
}

/// Every slot of `buf` holds a value that a call of `init_with` may return.
pub open spec fn slots_filled_by<T, I: FnMut() -> T>(
    init_with: I,
    buf: Seq<MaybeUninit<T>>,
) -> bool {
    forall|i: int|
        0 <= i < buf.len() ==> (#[trigger] buf[i]).as_option() is Some && call_ensures(
            init_with,
            (),
            buf[i].as_option()->0,
        )
}

/// Writes zero to every byte of the region.
pub fn zero_slots(buf: &mut [MaybeUninit<u8>])
    ensures
        final(buf)@.len() == old(buf)@.len(),
        holds(final(buf)@, zeroes(old(buf)@.len() as usize)),
{
    let len: usize = buf.len();
    let mut done: usize = 0;
    while done < len
        invariant
            buf@.len() == len,
            done <= len,
            forall|i: int| 0 <= i < done ==> (#[trigger] buf@[i]).as_option() == Some(0u8),
        decreases len - done,
    {
        buf[done] = MaybeUninit::new(0u8);
        done += 1;
    }
}

/// Writes one result of `init_with` into every slot, from the first slot to
/// the last.
pub fn fill_slots_with<T, I>(buf: &mut [MaybeUninit<T>], init_with: I) where I: FnMut() -> T
    requires
        old(buf)@.len() > 0 ==> call_requires(init_with, ()),
    ensures
        final(buf)@.len() == old(buf)@.len(),
        slots_filled_by(init_with, final(buf)@),
{
    let mut init_with = init_with;
    let ghost factory = init_with;
    let len: usize = buf.len();
    let mut done: usize = 0;
    while done < len
        invariant
            buf@.len() == len,
            done <= len,
            init_with == factory,
            len > 0 ==> call_requires(factory, ()),
            forall|i: int|
                0 <= i < done ==> (#[trigger] buf@[i]).as_option() is Some && call_ensures(
                    factory,
                    (),
                    buf@[i].as_option()->0,
                ),
        decreases len - done,
    {
        let item = init_with();
        buf[done] = MaybeUninit::new(item);
        done += 1;
    }
}

/// Pulls elements from `iter` into successive slots until the region is full
/// or `iter` is exhausted, and returns how many slots were written.
///
/// The slots that were written are the first ones; the others are left as
/// they were, and what `iter` had beyond the region's length stays in it.
pub fn drain_into_slots<T, I>(buf: &mut [MaybeUninit<T>], iter: &mut I) -> (done: usize) where
    I: Iterator<Item = T>,

    ensures
        init_up_to(final(buf)@, done as int),
        same_from(old(buf)@, final(buf)@, done as int),
        IteratorSpec::obeys_prophetic_iter_laws(old(iter)) ==> {
            &&& done == drained(IteratorSpec::remaining(old(iter)), old(buf)@.len() as usize).len()
            &&& holds(
                final(buf)@,
                drained(IteratorSpec::remaining(old(iter)), old(buf)@.len() as usize),
            )
            &&& IteratorSpec::remaining(final(iter)) == IteratorSpec::remaining(old(iter)).skip(
                done as int,
            )
        },
{
    let len: usize = buf.len();
    let mut done: usize = 0;
    let ghost source = IteratorSpec::remaining(old(iter));
    let ghost lawful = IteratorSpec::obeys_prophetic_iter_laws(old(iter));
    while done < len
        invariant
            buf@.len() == len,
            len == old(buf)@.len(),
            done <= len,
            init_up_to(buf@, done as int),
            same_from(old(buf)@, buf@, done as int),
            lawful == IteratorSpec::obeys_prophetic_iter_laws(iter),
            lawful ==> done <= source.len(),
            lawful ==> holds(buf@, source.take(done as int)),
            lawful ==> IteratorSpec::remaining(iter) == source.skip(done as int),
        ensures
            lawful ==> done == len || done == source.len(),
        decreases len - done,
    {
        match iter.next() {
            Some(item) => {
                buf[done] = MaybeUninit::new(item);
            },
            None => {
                break ;
            },
        }
        done += 1;
        proof {
            if lawful {
                assert(IteratorSpec::remaining(iter) =~= source.skip(done as int));
            }
        }
    }
    proof {
        if lawful {
            assert(source.take(done as int) =~= drained(source, len));
        }
    }
    done
}

/// A drain writes a prefix of the source: as many elements as the source
/// has, but no more than `size`.
pub proof fn lemma_drained_is_prefix<T>(source: Seq<T>, size: usize)
    ensures
        drained(source, size).len() == if source.len() <= size {
            source.len()
        } else {
            size as nat
        },
        drained(source, size) == source.take(drained(source, size).len() as int),
        forall|i: int|
            0 <= i < drained(source, size).len() ==> drained(source, size)[i] == source[i],
{
    assert(source.take(source.len() as int) =~= source);
}

/// Nothing is lost and nothing is pulled in vain: what a drain wrote,
/// followed by what it left in the source, is the source.
pub proof fn lemma_drained_then_rest<T>(source: Seq<T>, size: usize)
    ensures
        drained(source, size) + source.skip(drained(source, size).len() as int) == source,
{
    lemma_drained_is_prefix(source, size);
    assert(drained(source, size) + source.skip(drained(source, size).len() as int) =~= source);
}

/// A buffer that is large enough takes the whole source, and the view is
/// then shorter than the buffer by the slots that stayed empty.
pub proof fn lemma_drained_short_source<T>(source: Seq<T>, size: usize)
    requires
        source.len() <= size,
    ensures
        drained(source, size) == source,
        source.skip(drained(source, size).len() as int).len() == 0,
{
}

/// A source that has at least `size` elements fills the buffer, and keeps
/// all its elements beyond the first `size`.
pub proof fn lemma_drained_long_source<T>(source: Seq<T>, size: usize)
    requires
        source.len() >= size,
    ensures
        drained(source, size) == source.take(size as int),
        drained(source, size).len() == size,
        source.skip(drained(source, size).len() as int).len() == source.len() - size,
{
    assert(source.take(source.len() as int) =~= source);
}

} // verus!
