use super::utils::{non_empty, opt_bytes, opt_ref_bytes, or_empty, Decoding};
use super::{Body, BodyView, BuilderView, Frame, FrameView};
use crate::buffer::{
    bytes_len, bytes_mut_len, bytes_mut_view, bytes_to_str, bytes_view, extend_from_bytes, freeze,
    get_u32, put_u32, split_all,
};
use crate::endian::{be32, be32_value};
use crate::error::RSocketError;
use crate::utils::Writeable;
use bytes::{Bytes, BytesMut};
use vstd::prelude::*;
use vstd::utf8::{decode_utf8, valid_utf8};

verus! {

/// An ERROR frame's body: an error code and optional data.
#[derive(Debug)]
pub struct Error {
    code: u32,
    data: Option<Bytes>,
}

/// An ERROR frame's body, with its data seen as a sequence of bytes.
pub struct ErrorView {
    pub code: u32,
    pub data: Option<Seq<u8>>,
}

impl View for Error {
    type V = ErrorView;

    closed spec fn view(&self) -> ErrorView {
        ErrorView { code: self.code, data: opt_bytes(self.data) }
    }
}

/// Builds an ERROR frame.
pub struct ErrorBuilder {
    stream_id: u32,
    flag: u16,
    value: Error,
}

impl View for ErrorBuilder {
    type V = BuilderView<ErrorView>;

    closed spec fn view(&self) -> BuilderView<ErrorView> {
        BuilderView { stream_id: self.stream_id, flag: self.flag, value: self.value@ }
    }
}

/// The encoding of an ERROR body: the code, then the data.
pub open spec fn error_encoding(v: ErrorView) -> Seq<u8> {
    be32(v.code) + or_empty(v.data)
}

/// How an ERROR body decodes from `s`: four bytes of code, then data that
/// fills the rest and is absent when empty.
pub open spec fn decode_error(s: Seq<u8>) -> Decoding<ErrorView> {
    if s.len() < 4 {
        Decoding::Incomplete { rest: s }
    } else {
        Decoding::Done {
            value: ErrorView { code: be32_value(s), data: non_empty(s.skip(4)) },
            rest: Seq::empty(),
        }
    }
}

impl ErrorBuilder {
    fn new(stream_id: u32, flag: u16) -> (b: ErrorBuilder)
        ensures
            b@ == (BuilderView { stream_id, flag, value: ErrorView { code: 0, data: None } }),
    {
        ErrorBuilder { stream_id, flag, value: Error { code: 0, data: None } }
    }

    /// Sets the error code.
    pub fn set_code(self, code: u32) -> (b: Self)
        ensures
            b@ == (BuilderView {
                stream_id: self@.stream_id,
                flag: self@.flag,
                value: ErrorView { code, data: self@.value.data },
            }),
    {
        let mut this = self;
        this.value.code = code;
        this
    }

    /// Sets the data.
    pub fn set_data(self, data: Bytes) -> (b: Self)
        ensures
            b@ == (BuilderView {
                stream_id: self@.stream_id,
                flag: self@.flag,
                value: ErrorView { code: self@.value.code, data: Some(bytes_view(data)) },
            }),
    {
        let mut this = self;
        this.value.data = Some(data);
        this
    }

    /// The frame built.
    pub fn build(self) -> (f: Frame)
        ensures
            f@ == (FrameView {
                stream_id: self@.stream_id,
                body: BodyView::Error(self@.value),
                flag: self@.flag,
            }),
    {
        Frame::new(self.stream_id, Body::Error(self.value), self.flag)
    }
}

impl Error {
    /// Decodes the body: the code, and the data that fills the rest of `bf`.
    pub fn decode(flag: u16, bf: &mut BytesMut) -> (r: Result<Error, RSocketError>)
        ensures
            match r {
                Ok(v) => decode_error(bytes_mut_view(*old(bf))) == Decoding::Done {
                    value: v@,
                    rest: bytes_mut_view(*final(bf)),
                },
                Err(e) => e is InCompleteFrame && decode_error(bytes_mut_view(*old(bf)))
                    == Decoding::<ErrorView>::Incomplete { rest: bytes_mut_view(*final(bf)) },
            },
    {
        if bytes_mut_len(bf) < 4 {
            Err(RSocketError::InCompleteFrame)
        } else {
            let code = get_u32(bf);
            let data: Option<Bytes> = if bytes_mut_len(bf) != 0 {
                Some(freeze(split_all(bf)))
            } else {
                None
            };
            proof {
                assert(bytes_mut_view(*bf) =~= Seq::<u8>::empty());
            }
            Ok(Error { code, data })
        }
    }

    /// A builder of an ERROR frame with code 0 and no data yet.
    pub fn builder(stream_id: u32, flag: u16) -> (b: ErrorBuilder)
        ensures
            b@ == (BuilderView { stream_id, flag, value: ErrorView { code: 0, data: None } }),
    {
        ErrorBuilder::new(stream_id, flag)
    }

    /// The data as text, when there is data and it is valid UTF-8.
    pub fn get_data_utf8(&self) -> (r: Option<&str>)
        ensures
            r is Some <==> (self@.data is Some && valid_utf8(self@.data->0)),
            r matches Some(t) ==> t@ == decode_utf8(self@.data->0),
    {
        match &self.data {
            Some(b) => bytes_to_str(b),
            None => None,
        }
    }

    /// The data.
    pub fn get_data(&self) -> (d: Option<&Bytes>)
        ensures
            opt_ref_bytes(d) == self@.data,
    {
        self.data.as_ref()
    }

    /// The error code.
    pub fn get_code(&self) -> (c: u32)
        ensures
            c == self@.code,
    {
        self.code
    }
}

impl Writeable for Error {
    open spec fn encoding(&self) -> Seq<u8> {
        error_encoding(self@)
    }

    open spec fn writable(&self) -> bool {
        true
    }

    open spec fn encoded_len(&self) -> int {
        error_encoding(self@).len() as int
    }

    fn write_to(&self, bf: &mut BytesMut) {
        let ghost start = bytes_mut_view(*bf);
        put_u32(bf, self.code);
        match &self.data {
            Some(v) => extend_from_bytes(bf, v),
            None => (),
        }
        proof {
            assert(bytes_mut_view(*final(bf)) =~= start + error_encoding(self@));
        }
    }

    fn len(&self) -> (n: usize) {
        4 + match &self.data {
            Some(v) => bytes_len(v),
            None => 0,
        }
    }
}

} // verus!
