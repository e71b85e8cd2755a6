use vstd::prelude::*;

verus! {

/// Why an operation on a `FlexArr` did not complete.
#[derive(Debug, Copy, Clone, PartialEq, Eq, Structural)]
pub enum ErrorReason {
    /// A length or capacity would exceed the largest value of the length type.
    CapacityOverflow,
    /// A value does not fit in `usize`, or a size in bytes overflows it.
    UsizeOverflow,
    /// The size and alignment computed for the storage do not form a layout.
    LayoutFailure,
    /// The memory source refused the request.
    AllocFailure,
    /// `insert` was given an index beyond the current length.
    IndexOutOfBounds,
}

/// `Result` with `FlexArrErr` as its error.
pub type FlexArrResult<T> = Result<T, FlexArrErr>;

/// The error of every fallible operation of a `FlexArr`. It carries its reason
/// and nothing else.
#[derive(Debug, Copy, Clone, PartialEq, Eq, Structural)]
pub struct FlexArrErr(ErrorReason);

impl FlexArrErr {
    /// The reason that this error carries.
    pub closed spec fn spec_reason(self) -> ErrorReason {
        self.0
    }

    /// The error of the given reason.
    pub fn new(reason: ErrorReason) -> (e: Self)
        ensures
            e.spec_reason() == reason,
    {
        Self(reason)
    }

    /// The reason that this error carries.
    #[verifier::when_used_as_spec(spec_reason)]
    pub fn reason(self) -> (r: ErrorReason)
        ensures
            r == self.spec_reason(),
    {
        self.0
    }

    /// An error carries its reason and nothing else: two errors of the same
    /// reason are the same error.
    pub proof fn lemma_reason_decides(self, other: Self)
        requires
            self.spec_reason() == other.spec_reason(),
        ensures
            self == other,
    {
    }

    /// A sentence that describes the reason.
    pub fn message(self) -> (s: &'static str)
        ensures
            s@ == reason_text(self.spec_reason()),
    {
        match self.0 {
            ErrorReason::CapacityOverflow => "Capacity type overflowed.",
            ErrorReason::UsizeOverflow => "usize overflowed.",
            ErrorReason::LayoutFailure => "Failed to create layout.",
            ErrorReason::AllocFailure => "An allocation failure occurred.",
            ErrorReason::IndexOutOfBounds => "A given index is out of bounds.",
        }
    }
}

/// Whether `r` is the error of the given reason.
pub open spec fn fails_with<V>(r: FlexArrResult<V>, reason: ErrorReason) -> bool {
    r matches Err(e) && e.spec_reason() == reason
}

/// The sentence that describes each reason.
pub open spec fn reason_text(reason: ErrorReason) -> Seq<char> {
    match reason {
        ErrorReason::CapacityOverflow => "Capacity type overflowed."@,
        ErrorReason::UsizeOverflow => "usize overflowed."@,
        ErrorReason::LayoutFailure => "Failed to create layout."@,
        ErrorReason::AllocFailure => "An allocation failure occurred."@,
        ErrorReason::IndexOutOfBounds => "A given index is out of bounds."@,
    }
}

} // verus!
