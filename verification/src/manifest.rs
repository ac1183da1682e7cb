//! The header record of a container.

use vstd::prelude::*;

verus! {

/// The one schema version whose layout is implemented.
pub const SCHEMA_VERSION: u8 = 0;

/// Header record that names the schema a container uses.
#[derive(Debug)]
pub struct Manifest {
    version: u8,
}

impl Manifest {
    /// The schema version, as a specification value.
    pub closed spec fn spec_version(&self) -> u8 {
        self.version
    }

    /// A manifest of schema version 0.
    pub fn new() -> (manifest: Manifest)
        ensures
            manifest.spec_version() == 0,
    {
        Manifest { version: 0 }
    }

    /// The schema version.
    #[verifier::when_used_as_spec(spec_version)]
    pub fn version(&self) -> (version: u8)
        ensures
            version == self.spec_version(),
    {
        self.version
    }

    /// Replaces the schema version.
    pub fn set_version(&mut self, version: u8)
        ensures
            final(self).spec_version() == version,
    {
        self.version = version;
    }

    /// The manifest with its schema version replaced.
    pub fn with_version(self, version: u8) -> (manifest: Manifest)
        ensures
            manifest.spec_version() == version,
    {
        Manifest { version }
    }

    /// Whether the schema version is one that the codecs implement.
    pub fn is_supported(&self) -> (supported: bool)
        ensures
            supported == (self.spec_version() == SCHEMA_VERSION),
    {
        self.version == SCHEMA_VERSION
    }
}

impl Default for Manifest {
    fn default() -> (manifest: Manifest)
        ensures
            manifest.spec_version() == 0,
    {
        Manifest { version: 0 }
    }
}

impl Clone for Manifest {
    fn clone(&self) -> (manifest: Manifest)
        ensures
            manifest == *self,
    {
        Manifest { version: self.version }
    }
}

} // verus!
