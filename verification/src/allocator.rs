//! The memory source of a container: the layouts it is asked for, the
//! capability that answers, and the source that a container has by default.
mod alt_alloc;
mod layout;
mod std_alloc;

pub use alt_alloc::AllocError;
pub use alt_alloc::AltAllocator;
pub use alt_alloc::Block;
pub use layout::Layout;
pub use layout::is_power_of_two;
pub use layout::lemma_max_size_is_multiple;
pub use layout::lemma_padded_within;
pub use layout::max_size_for;
pub use layout::padded_size;
pub use std_alloc::zeroed_growth;
pub use std_alloc::Global;
pub use std_alloc::ZeroedGrowth;
