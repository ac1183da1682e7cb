//! Versions of the positional byte format.

use vstd::prelude::*;

verus! {

/// A version of the positional byte format.
#[derive(Clone, Copy, Debug, PartialEq, Eq, Structural)]
pub struct Version {
    pub major: u8,
    pub minor: u8,
}

/// The minor number of the version that is written unless another is
/// asked for; its major number is 0, as that of every version so far.
pub const LATEST_MINOR: u8 = 2;

impl Version {
    /// The version that is written unless another is asked for.
    pub open spec fn spec_latest() -> Version {
        Version { major: 0, minor: LATEST_MINOR }
    }

    /// The version that is written unless another is asked for.
    #[verifier::when_used_as_spec(spec_latest)]
    pub fn latest() -> (version: Version)
        ensures
            version == Version::spec_latest(),
    {
        Version { major: 0, minor: LATEST_MINOR }
    }

    /// The version of these two numbers.
    pub fn new(major: u8, minor: u8) -> (version: Version)
        ensures
            version == (Version { major, minor }),
    {
        Version { major, minor }
    }

    /// The two numbers of the version.
    pub fn pair(self) -> (pair: (u8, u8))
        ensures
            pair == (self.major, self.minor),
    {
        (self.major, self.minor)
    }

    /// Whether the format has this version.
    pub open spec fn spec_is_known(self) -> bool {
        self.major == 0 && self.minor <= LATEST_MINOR
    }

    /// Whether the format has this version.
    #[verifier::when_used_as_spec(spec_is_known)]
    pub fn is_known(self) -> (known: bool)
        ensures
            known == self.spec_is_known(),
    {
        self.major == 0 && self.minor <= LATEST_MINOR
    }
}

impl From<(u8, u8)> for Version {
    fn from(value: (u8, u8)) -> (version: Version) {
        Version { major: value.0, minor: value.1 }
    }
}

impl vstd::std_specs::convert::FromSpecImpl<(u8, u8)> for Version {
    open spec fn obeys_from_spec() -> bool {
        true
    }

    open spec fn from_spec(value: (u8, u8)) -> Version {
        Version { major: value.0, minor: value.1 }
    }
}

impl From<[u8; 2]> for Version {
    fn from(value: [u8; 2]) -> (version: Version) {
        Version { major: value[0], minor: value[1] }
    }
}

impl vstd::std_specs::convert::FromSpecImpl<[u8; 2]> for Version {
    open spec fn obeys_from_spec() -> bool {
        true
    }

    open spec fn from_spec(value: [u8; 2]) -> Version {
        Version { major: value[0], minor: value[1] }
    }
}

} // verus!
