//! Bounds-checked, alignment-aware byte buffers.
//!
//! A buffer is a run of bytes that lives at an address. The [`Buffer`] trait
//! turns byte ranges of it into typed values and back, searches it and writes
//! to it, and never touches a byte outside its bounds. [`VecBuffer`] owns its
//! storage and can grow; [`PtrBuffer`] is a view over storage that somebody
//! else owns. Which types may be read out of raw bytes is decided by the
//! [`Castable`] trait.

pub mod error;
pub mod endian;
pub mod bounds;
pub mod castable;
pub mod integers;
pub mod convert;
pub mod composite;
pub mod model;
pub mod search;
pub mod iter;
pub mod buffer;
pub mod ptr;
pub mod vec;
pub mod certify;

pub use error::Error;
pub use castable::Castable;
pub use convert::{
    bytes_to_mut_ref, bytes_to_mut_ref_at, bytes_to_ref, bytes_to_ref_at, ref_to_bytes,
    slice_ref_to_bytes,
};
pub use buffer::Buffer;
pub use ptr::PtrBuffer;
pub use vec::VecBuffer;
pub use search::BufferSearchIter;
pub use iter::{BufferIter, BufferIterMut};
