//! Configuration markers. A flag-like environment variable carries no
//! value of interest: being set at all is the signal.

use vstd::prelude::*;

verus! {

/// The unit value parsed from a flag-like environment variable.
#[derive(Clone, Copy, PartialEq, Eq, Structural, Debug)]
pub struct EnvUnit;

impl core::str::FromStr for EnvUnit {
    type Err = ();

    fn from_str(_s: &str) -> Result<Self, Self::Err> {
        Ok(EnvUnit)
    }
}

} // verus!
