//! Validated percentage volume.

use vstd::prelude::*;

use crate::errors::AudioError;

verus! {

/// Validated percentage volume (0–100).
#[derive(Debug, Clone, Copy, PartialEq, Eq, Structural)]
pub struct Volume(u32);

impl Volume {
    /// The percentage held.
    pub closed spec fn value(self) -> u32 {
        self.0
    }

    #[verifier::type_invariant]
    closed spec fn in_range(self) -> bool {
        self.0 <= 100
    }

    pub fn new(value: u32) -> (r: Result<Self, AudioError>)
        ensures
            value <= 100 ==> (r matches Ok(v) && v.value() == value),
            value > 100 ==> r == Err::<Self, AudioError>(AudioError::InvalidVolume(value)),
    {
        if value <= 100 {
            Ok(Volume(value))
        } else {
            Err(AudioError::InvalidVolume(value))
        }
    }

    pub fn get(self) -> (r: u32)
        ensures
            r == self.value(),
            r <= 100,
    {
        proof {
            use_type_invariant(&self);
        }
        self.0
    }
}

} // verus!
