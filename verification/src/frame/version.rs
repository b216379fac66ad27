use crate::buffer::{bytes_mut_view, put_u16};
use crate::endian::be16;
use crate::utils::Writeable;
use bytes::BytesMut;
use vstd::prelude::*;

verus! {

/// The version of the protocol that a SETUP or RESUME frame announces.
#[derive(Debug, Copy, Clone, PartialEq, Eq, Structural)]
pub struct Version {
    major: u16,
    minor: u16,
}

impl View for Version {
    type V = (u16, u16);

    open spec fn view(&self) -> (u16, u16) {
        (self.spec_major(), self.spec_minor())
    }
}

impl Version {
    /// The major number.
    pub closed spec fn spec_major(self) -> u16 {
        self.major
    }

    /// The minor number.
    pub closed spec fn spec_minor(self) -> u16 {
        self.minor
    }

    /// The version with these numbers.
    pub fn new(major: u16, minor: u16) -> (v: Version)
        ensures
            v@ == (major, minor),
    {
        Version { major, minor }
    }

    /// The major number.
    pub fn get_major(self) -> (n: u16)
        ensures
            n == self.spec_major(),
    {
        self.major
    }

    /// The minor number.
    pub fn get_minor(self) -> (n: u16)
        ensures
            n == self.spec_minor(),
    {
        self.minor
    }
}

impl Default for Version {
    /// Version 1.0.
    fn default() -> (v: Version)
        ensures
            v@ == (1u16, 0u16),
    {
        Version { major: 1, minor: 0 }
    }
}

impl Writeable for Version {
    open spec fn encoding(&self) -> Seq<u8> {
        be16(self.spec_major()) + be16(self.spec_minor())
    }

    open spec fn writable(&self) -> bool {
        true
    }

    open spec fn encoded_len(&self) -> int {
        4
    }

    fn write_to(&self, bf: &mut BytesMut) {
        put_u16(bf, self.major);
        put_u16(bf, self.minor);
        proof {
            assert(bytes_mut_view(*final(bf)) =~= bytes_mut_view(*old(bf)) + self.encoding());
        }
    }

    fn len(&self) -> (n: usize) {
        4
    }
}

} // verus!
