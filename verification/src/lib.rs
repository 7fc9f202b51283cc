//! A fixed-capacity raw byte buffer that can be reinterpreted as a typed
//! sequence of elements, after runtime validation of the buffer's address
//! alignment and of the divisibility of its length by the element size.

pub mod align;
pub mod laws;
pub mod view;

pub use align::alignment_of_address;
pub use view::{element_span_mut, ByteView, ByteViewError, TypedView};
