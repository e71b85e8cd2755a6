//! The error values and the capability that a length type has to offer.
mod errors;
mod len_type;

pub use errors::fails_with;
pub use errors::reason_text;
pub use errors::ErrorReason;
pub use errors::FlexArrErr;
pub use errors::FlexArrResult;
pub use len_type::LengthType;
