use super::utils::Decoding;
use super::{Body, BodyView, BuilderView, Frame, FrameView, REQUEST_MAX};
use crate::buffer::{bytes_mut_len, bytes_mut_view, get_u32, put_u32};
use crate::endian::{be32, be32_value};
use crate::error::RSocketError;
use crate::utils::Writeable;
use bytes::BytesMut;
use vstd::prelude::*;

verus! {

/// A REQUEST_N frame's body: the number of further items asked for.
#[derive(Debug, PartialEq, Eq)]
pub struct RequestN {
    n: u32,
}

impl View for RequestN {
    type V = u32;

    closed spec fn view(&self) -> u32 {
        self.n
    }
}

/// Builds a REQUEST_N frame.
pub struct RequestNBuilder {
    stream_id: u32,
    flag: u16,
    value: RequestN,
}

impl View for RequestNBuilder {
    type V = BuilderView<u32>;

    closed spec fn view(&self) -> BuilderView<u32> {
        BuilderView { stream_id: self.stream_id, flag: self.flag, value: self.value@ }
    }
}

/// How a REQUEST_N body decodes from `s`: four bytes of number.
pub open spec fn decode_request_n(s: Seq<u8>) -> Decoding<u32> {
    if s.len() < 4 {
        Decoding::Incomplete { rest: s }
    } else {
        Decoding::Done { value: be32_value(s), rest: s.skip(4) }
    }
}

impl RequestNBuilder {
    /// A builder that asks for `REQUEST_MAX` items.
    pub fn new(stream_id: u32, flag: u16) -> (b: RequestNBuilder)
        ensures
            b@ == (BuilderView { stream_id, flag, value: REQUEST_MAX }),
    {
        RequestNBuilder { stream_id, flag, value: RequestN { n: REQUEST_MAX } }
    }

    /// Sets the number of items asked for.
    pub fn set_n(self, n: u32) -> (b: Self)
        ensures
            b@ == (BuilderView { stream_id: self@.stream_id, flag: self@.flag, value: n }),
    {
        let mut this = self;
        this.value.n = n;
        this
    }

    /// The frame built.
    pub fn build(self) -> (f: Frame)
        ensures
            f@ == (FrameView {
                stream_id: self@.stream_id,
                body: BodyView::RequestN(self@.value),
                flag: self@.flag,
            }),
    {
        Frame::new(self.stream_id, Body::RequestN(self.value), self.flag)
    }
}

impl RequestN {
    /// Decodes the body: a big-endian number of four bytes.
    pub fn decode(flag: u16, bf: &mut BytesMut) -> (r: Result<RequestN, RSocketError>)
        ensures
            match r {
                Ok(v) => decode_request_n(bytes_mut_view(*old(bf))) == Decoding::Done {
                    value: v@,
                    rest: bytes_mut_view(*final(bf)),
                },
                Err(e) => e is InCompleteFrame && decode_request_n(bytes_mut_view(*old(bf)))
                    == Decoding::<u32>::Incomplete { rest: bytes_mut_view(*final(bf)) },
            },
    {
        if bytes_mut_len(bf) < 4 {
            Err(RSocketError::InCompleteFrame)
        } else {
            let n = get_u32(bf);
            Ok(RequestN { n })
        }
    }

    /// A builder of a REQUEST_N frame that asks for `REQUEST_MAX` items.
    pub fn builder(stream_id: u32, flag: u16) -> (b: RequestNBuilder)
        ensures
            b@ == (BuilderView { stream_id, flag, value: REQUEST_MAX }),
    {
        RequestNBuilder::new(stream_id, flag)
    }

    /// The number of items asked for.
    pub fn get_n(&self) -> (n: u32)
        ensures
            n == self@,
    {
        self.n
    }
}

impl Writeable for RequestN {
    open spec fn encoding(&self) -> Seq<u8> {
        be32(self@)
    }

    open spec fn writable(&self) -> bool {
        true
    }

    open spec fn encoded_len(&self) -> int {
        4
    }

    fn write_to(&self, bf: &mut BytesMut) {
        put_u32(bf, self.get_n())
    }

    fn len(&self) -> (n: usize) {
        4
    }
}

} // verus!
