//! The container, the storage manager under it and the buffer that holds the
//! elements.
mod array;
mod buffer;
mod inner;
mod laws;
mod ops;
mod spill;

pub use array::FlexArr;
pub use buffer::Buffer;
pub use inner::array_size;
pub use inner::expansion_request;
pub use inner::grown_capacity;
pub use inner::layout_array;
pub use inner::lemma_growth_floor_and_factor;
pub use inner::lemma_growth_reaches_target;
pub use inner::lemma_request_in_range;
pub use inner::Inner;
pub use inner::Request;
pub use laws::lemma_remove_keeps_order;
pub use laws::lemma_swap_remove_moves_last;
pub use laws::place_before_removal;
