//! A growable vector that carries a header of the caller's choosing next to
//! its elements and is known to the outside by the address of its buffer.

mod buffer;
pub mod equality;
pub mod header_vec;
pub mod laws;
pub mod layout;
pub mod retained;
pub mod weak;

pub use header_vec::{HeaderVec, HeaderVecHeader};
pub use layout::MemLayout;
pub use weak::HeaderVecWeak;
