//! Error kinds and the C-style integer results.

use vstd::prelude::*;

verus! {

/// Why an operation was refused.
#[derive(Clone, Copy, Debug, PartialEq, Eq, Structural)]
pub enum NcError {
    /// A plane, a margin or a coordinate does not fit the space it was given.
    GeometryError,
    /// The writeout sink rejected the bytes.
    WriteoutError,
    /// The input source failed for good.
    InputError,
    /// The context has been stopped, or the terminal is already taken.
    LifecycleError,
    /// The terminal lacks the requested feature.
    CapabilityError,
}

pub type NcResult<T> = Result<T, NcError>;

/// Result of the C-style functions: zero or more on success, negative on failure.
pub type NcIntResult = i32;

pub const NCRESULT_OK: NcIntResult = 0;

pub const NCRESULT_ERR: NcIntResult = -1;

pub const NCRESULT_MAX: NcIntResult = 0x7fff_ffff;

impl NcError {
    /// The C-style code of this error: always negative, one code per kind.
    pub open spec fn spec_code(self) -> NcIntResult {
        match self {
            NcError::GeometryError => -2i32,
            NcError::WriteoutError => -3i32,
            NcError::InputError => -4i32,
            NcError::LifecycleError => -5i32,
            NcError::CapabilityError => -6i32,
        }
    }

    #[verifier::when_used_as_spec(spec_code)]
    pub fn code(self) -> (r: NcIntResult)
        ensures
            r == self.spec_code(),
            r < 0,
    {
        match self {
            NcError::GeometryError => -2,
            NcError::WriteoutError => -3,
            NcError::InputError => -4,
            NcError::LifecycleError => -5,
            NcError::CapabilityError => -6,
        }
    }
}

} // verus!
