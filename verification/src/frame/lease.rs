use super::utils::{has_metadata_flag, opt_bytes, opt_ref_bytes, or_empty, Decoding, METADATA_BIT};
use super::{Body, BodyView, BuilderView, Frame, FrameView};
use crate::buffer::{
    bytes_len, bytes_mut_len, bytes_mut_view, bytes_view, extend_from_bytes, freeze, get_u32,
    put_u32, split_all,
};
use crate::endian::{be32, be32_value};
use crate::error::RSocketError;
use crate::utils::Writeable;
use bytes::{Bytes, BytesMut};
use vstd::prelude::*;

verus! {

/// A LEASE frame's body: how long the lease lasts, how many requests it
/// allows, and optional metadata.
#[derive(Debug)]
pub struct Lease {
    ttl: u32,
    number_of_requests: u32,
    metadata: Option<Bytes>,
}

/// A LEASE frame's body, with its metadata seen as a sequence of bytes.
pub struct LeaseView {
    pub ttl: u32,
    pub number_of_requests: u32,
    pub metadata: Option<Seq<u8>>,
}

impl View for Lease {
    type V = LeaseView;

    closed spec fn view(&self) -> LeaseView {
        LeaseView {
            ttl: self.ttl,
            number_of_requests: self.number_of_requests,
            metadata: opt_bytes(self.metadata),
        }
    }
}

/// Builds a LEASE frame.
pub struct LeaseBuilder {
    stream_id: u32,
    flag: u16,
    value: Lease,
}

impl View for LeaseBuilder {
    type V = BuilderView<LeaseView>;

    closed spec fn view(&self) -> BuilderView<LeaseView> {
        BuilderView { stream_id: self.stream_id, flag: self.flag, value: self.value@ }
    }
}

/// The encoding of a LEASE body: time to live, number of requests, metadata.
pub open spec fn lease_encoding(v: LeaseView) -> Seq<u8> {
    be32(v.ttl) + be32(v.number_of_requests) + or_empty(v.metadata)
}

/// How a LEASE body decodes from `s`: eight bytes of numbers, then, when
/// `flag` announces metadata, all the rest as metadata.
pub open spec fn decode_lease(flag: u16, s: Seq<u8>) -> Decoding<LeaseView> {
    if s.len() < 8 {
        Decoding::Incomplete { rest: s }
    } else if has_metadata_flag(flag) {
        Decoding::Done {
            value: LeaseView {
                ttl: be32_value(s),
                number_of_requests: be32_value(s.skip(4)),
                metadata: Some(s.skip(8)),
            },
            rest: Seq::empty(),
        }
    } else {
        Decoding::Done {
            value: LeaseView {
                ttl: be32_value(s),
                number_of_requests: be32_value(s.skip(4)),
                metadata: None,
            },
            rest: s.skip(8),
        }
    }
}

impl LeaseBuilder {
    fn new(stream_id: u32, flag: u16) -> (b: LeaseBuilder)
        ensures
            b@ == (BuilderView {
                stream_id,
                flag,
                value: LeaseView { ttl: 0, number_of_requests: 0, metadata: None },
            }),
    {
        LeaseBuilder {
            stream_id,
            flag,
            value: Lease { ttl: 0, number_of_requests: 0, metadata: None },
        }
    }

    /// Sets the metadata, and the metadata flag.
    pub fn set_metadata(self, metadata: Bytes) -> (b: Self)
        ensures
            b@ == (BuilderView {
                stream_id: self@.stream_id,
                flag: self@.flag | METADATA_BIT,
                value: LeaseView {
                    ttl: self@.value.ttl,
                    number_of_requests: self@.value.number_of_requests,
                    metadata: Some(bytes_view(metadata)),
                },
            }),
    {
        let mut this = self;
        this.value.metadata = Some(metadata);
        this.flag = this.flag | Frame::FLAG_METADATA;
        this
    }

    /// Sets how long the lease lasts.
    pub fn set_ttl(self, ttl: u32) -> (b: Self)
        ensures
            b@ == (BuilderView {
                stream_id: self@.stream_id,
                flag: self@.flag,
                value: LeaseView {
                    ttl,
                    number_of_requests: self@.value.number_of_requests,
                    metadata: self@.value.metadata,
                },
            }),
    {
        let mut this = self;
        this.value.ttl = ttl;
        this
    }

    /// Sets how many requests the lease allows.
    pub fn set_number_of_requests(self, n: u32) -> (b: Self)
        ensures
            b@ == (BuilderView {
                stream_id: self@.stream_id,
                flag: self@.flag,
                value: LeaseView {
                    ttl: self@.value.ttl,
                    number_of_requests: n,
                    metadata: self@.value.metadata,
                },
            }),
    {
        let mut this = self;
        this.value.number_of_requests = n;
        this
    }

    /// The frame built.
    pub fn build(self) -> (f: Frame)
        ensures
            f@ == (FrameView {
                stream_id: self@.stream_id,
                body: BodyView::Lease(self@.value),
                flag: self@.flag,
            }),
    {
        Frame::new(self.stream_id, Body::Lease(self.value), self.flag)
    }
}

impl Lease {
    /// Decodes the body: the two numbers, and the rest of `bf` as metadata
    /// when `flag` announces it.
    pub fn decode(flag: u16, bf: &mut BytesMut) -> (r: Result<Lease, RSocketError>)
        ensures
            match r {
                Ok(v) => decode_lease(flag, bytes_mut_view(*old(bf))) == Decoding::Done {
                    value: v@,
                    rest: bytes_mut_view(*final(bf)),
                },
                Err(e) => e is InCompleteFrame && decode_lease(flag, bytes_mut_view(*old(bf)))
                    == Decoding::<LeaseView>::Incomplete { rest: bytes_mut_view(*final(bf)) },
            },
    {
        if bytes_mut_len(bf) < 8 {
            return Err(RSocketError::InCompleteFrame);
        }
        let ghost s = bytes_mut_view(*bf);
        let ttl = get_u32(bf);
        let n = get_u32(bf);
        proof {
            assert(s.skip(4).skip(4) =~= s.skip(8));
        }
        let m = if flag & Frame::FLAG_METADATA != 0 {
            Some(freeze(split_all(bf)))
        } else {
            None
        };
        Ok(Lease { ttl, number_of_requests: n, metadata: m })
    }

    /// A builder of a LEASE frame with zero numbers and no metadata yet.
    pub fn builder(stream_id: u32, flag: u16) -> (b: LeaseBuilder)
        ensures
            b@ == (BuilderView {
                stream_id,
                flag,
                value: LeaseView { ttl: 0, number_of_requests: 0, metadata: None },
            }),
    {
        LeaseBuilder::new(stream_id, flag)
    }

    /// How many requests the lease allows.
    pub fn get_number_of_requests(&self) -> (n: u32)
        ensures
            n == self@.number_of_requests,
    {
        self.number_of_requests
    }

    /// The metadata.
    pub fn get_metadata(&self) -> (m: Option<&Bytes>)
        ensures
            opt_ref_bytes(m) == self@.metadata,
    {
        self.metadata.as_ref()
    }

    /// How long the lease lasts.
    pub fn get_ttl(&self) -> (t: u32)
        ensures
            t == self@.ttl,
    {
        self.ttl
    }
}

impl Writeable for Lease {
    open spec fn encoding(&self) -> Seq<u8> {
        lease_encoding(self@)
    }

    open spec fn writable(&self) -> bool {
        true
    }

    open spec fn encoded_len(&self) -> int {
        lease_encoding(self@).len() as int
    }

    fn write_to(&self, bf: &mut BytesMut) {
        let ghost start = bytes_mut_view(*bf);
        put_u32(bf, self.ttl);
        put_u32(bf, self.number_of_requests);
        match &self.metadata {
            Some(v) => extend_from_bytes(bf, v),
            None => (),
        }
        proof {
            assert(bytes_mut_view(*final(bf)) =~= start + lease_encoding(self@));
        }
    }

    fn len(&self) -> (n: usize) {
        8 + match &self.metadata {
            Some(v) => bytes_len(v),
            None => 0,
        }
    }
}

} // verus!
