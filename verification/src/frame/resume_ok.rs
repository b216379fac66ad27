use super::utils::Decoding;
use super::{Body, BodyView, BuilderView, Frame, FrameView};
use crate::buffer::{bytes_mut_len, bytes_mut_view, get_u64, put_u64};
use crate::endian::{be64, be64_value};
use crate::error::RSocketError;
use crate::utils::Writeable;
use bytes::BytesMut;
use vstd::prelude::*;

verus! {

/// A RESUME_OK frame's body: the last position that the server received
/// from the client.
#[derive(Debug, PartialEq, Eq)]
pub struct ResumeOK {
    position: u64,
}

impl View for ResumeOK {
    type V = u64;

    closed spec fn view(&self) -> u64 {
        self.position
    }
}

/// Builds a RESUME_OK frame.
pub struct ResumeOKBuilder {
    stream_id: u32,
    flag: u16,
    value: ResumeOK,
}

impl View for ResumeOKBuilder {
    type V = BuilderView<u64>;

    closed spec fn view(&self) -> BuilderView<u64> {
        BuilderView { stream_id: self.stream_id, flag: self.flag, value: self.value@ }
    }
}

/// How a RESUME_OK body decodes from `s`: eight bytes of position.
pub open spec fn decode_resume_ok(s: Seq<u8>) -> Decoding<u64> {
    if s.len() < 8 {
        Decoding::Incomplete { rest: s }
    } else {
        Decoding::Done { value: be64_value(s), rest: s.skip(8) }
    }
}

impl ResumeOKBuilder {
    /// Sets the last position received from the client.
    pub fn set_last_received_client_position(self, position: u64) -> (b: Self)
        ensures
            b@ == (BuilderView { stream_id: self@.stream_id, flag: self@.flag, value: position }),
    {
        let mut this = self;
        this.value.position = position;
        this
    }

    /// The frame built.
    pub fn build(self) -> (f: Frame)
        ensures
            f@ == (FrameView {
                stream_id: self@.stream_id,
                body: BodyView::ResumeOK(self@.value),
                flag: self@.flag,
            }),
    {
        Frame::new(self.stream_id, Body::ResumeOK(self.value), self.flag)
    }
}

impl ResumeOK {
    /// Decodes the body: a big-endian position of eight bytes.
    pub fn decode(flag: u16, bf: &mut BytesMut) -> (r: Result<ResumeOK, RSocketError>)
        ensures
            match r {
                Ok(v) => decode_resume_ok(bytes_mut_view(*old(bf))) == Decoding::Done {
                    value: v@,
                    rest: bytes_mut_view(*final(bf)),
                },
                Err(e) => e is InCompleteFrame && decode_resume_ok(bytes_mut_view(*old(bf)))
                    == Decoding::<u64>::Incomplete { rest: bytes_mut_view(*final(bf)) },
            },
    {
        if bytes_mut_len(bf) < 8 {
            Err(RSocketError::InCompleteFrame)
        } else {
            let position = get_u64(bf);
            Ok(ResumeOK { position })
        }
    }

    /// A builder of a RESUME_OK frame with position 0.
    pub fn builder(stream_id: u32, flag: u16) -> (b: ResumeOKBuilder)
        ensures
            b@ == (BuilderView { stream_id, flag, value: 0u64 }),
    {
        ResumeOKBuilder { stream_id, flag, value: ResumeOK { position: 0 } }
    }

    /// The last position received from the client.
    pub fn get_last_received_client_position(&self) -> (p: u64)
        ensures
            p == self@,
    {
        self.position
    }
}

impl Writeable for ResumeOK {
    open spec fn encoding(&self) -> Seq<u8> {
        be64(self@)
    }

    open spec fn writable(&self) -> bool {
        true
    }

    open spec fn encoded_len(&self) -> int {
        8
    }

    fn write_to(&self, bf: &mut BytesMut) {
        put_u64(bf, self.position)
    }

    fn len(&self) -> (n: usize) {
        8
    }
}

} // verus!
