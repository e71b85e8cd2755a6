//! A growable array over contiguous storage, in the manner of `Vec`, with three
//! differences: a request for memory that is refused comes back as an error
//! value, the integer type of lengths, capacities and indices is chosen by the
//! caller, and the memory source is a capability that the caller supplies.
//!
//! `FlexArr` is the array. Under it, `flex_array::Inner` manages the storage:
//! it works out the layout of each capacity, decides how far to grow, and asks
//! the memory source, an `allocator::AltAllocator`, for the block. The elements
//! themselves lie in a `flex_array::Buffer`, which knows the block by its
//! address and keeps count of the room that the heap has granted for them:
//! in a valid array that room covers the capacity. Elements that take no
//! room may be more than a `usize` counts, up to the largest value of the
//! length type. `types::LengthType` is what a type has to offer to count
//! elements; the unsigned integers of std do.
//!
//! Every operation that changes the capacity either completes or leaves the
//! array as it was, and says which in its result.
pub mod allocator;
pub mod flex_array;
pub mod types;

pub use flex_array::FlexArr;
