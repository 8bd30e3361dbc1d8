//! Scoped, runtime-sized buffers.
//!
//! A buffer of a length that is only known at run time is built, handed to a
//! computation as a slice, and reclaimed the moment the computation returns.
//! The buffer never outlives the call that made it.
//!
//! * [`layout`] holds the address arithmetic of a typed window inside a raw
//!   byte region: how many bytes to request, and where the first correctly
//!   aligned slot lies.
//! * [`slots`] fills uninitialised slots in place and says which of them hold
//!   a value afterwards.
//! * [`outcome`] decides what the caller of a region does with what the
//!   computation left behind.
//! * [`scoped`] holds the buffers themselves, each of them owned by the call
//!   that made it: uninitialised regions, and the strategies that fill a
//!   buffer before the computation sees it.
pub mod layout;
pub mod outcome;
pub mod scoped;
pub mod slots;

pub use layout::align_buffer_to;
pub use layout::region_bytes;
pub use layout::trusted_len;
pub use layout::window_start;
pub use scoped::alloca;
pub use scoped::alloca_zeroed;
pub use scoped::stackalloc;
pub use scoped::stackalloc_from_iter_exact;
pub use scoped::stackalloc_from_iter_trusted;
pub use scoped::stackalloc_uninit;
pub use scoped::stackalloc_with;
pub use scoped::stackalloc_with_default;
pub use scoped::stackalloc_with_iter;
