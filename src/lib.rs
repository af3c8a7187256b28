//! Containers whose element storage is chosen by a layout type: what exists
//! at index `i` is decoupled from how the element is arranged in memory.
//!
//! Storage is modelled as typed slots. A layout owns the arithmetic that maps
//! an address to its slot and the moves in and out of slots; the growable
//! container `AVec` delegates every such step to its layout.

pub mod laws;
pub mod layouts;
pub mod reference;
pub mod vec;

pub use layouts::{ArrayLayout, ByteLayout, ElementLayout};
pub use layouts::{Extra, Flat, PackedBits, Parallel, Slice, Strided};
pub use reference::{Ref, RefMut};
pub use vec::{AVec, Drain, DrainFilter};
