use super::utils::{opt_bytes, Decoding};
use super::{Body, BodyView, BuilderView, Frame, FrameView, Version};
use crate::buffer::{
    bytes_len, bytes_mut_len, bytes_mut_view, bytes_view, extend_from_bytes, freeze, get_u16,
    get_u64, put_u16, put_u64, split_to,
};
use crate::endian::{be16, be16_value, be64, be64_value};
use crate::error::RSocketError;
use crate::utils::Writeable;
use bytes::{Bytes, BytesMut};
use vstd::prelude::*;

verus! {

/// A RESUME frame's body: the version, the resume token, and the two
/// positions from which to resume.
#[derive(Debug)]
pub struct Resume {
    version: Version,
    token: Option<Bytes>,
    last_received_server_position: u64,
    first_available_client_position: u64,
}

/// A RESUME frame's body, with its token seen as a sequence of bytes.
pub struct ResumeView {
    pub version: (u16, u16),
    pub token: Option<Seq<u8>>,
    pub last_received_server_position: u64,
    pub first_available_client_position: u64,
}

impl View for Resume {
    type V = ResumeView;

    closed spec fn view(&self) -> ResumeView {
        ResumeView {
            version: self.version@,
            token: opt_bytes(self.token),
            last_received_server_position: self.last_received_server_position,
            first_available_client_position: self.first_available_client_position,
        }
    }
}

/// Builds a RESUME frame.
pub struct ResumeBuilder {
    stream_id: u32,
    flag: u16,
    inner: Resume,
}

impl View for ResumeBuilder {
    type V = BuilderView<ResumeView>;

    closed spec fn view(&self) -> BuilderView<ResumeView> {
        BuilderView { stream_id: self.stream_id, flag: self.flag, value: self.inner@ }
    }
}

/// The encoding of a RESUME body: version, token behind its length in two
/// bytes (when there is a token), and the two positions.
pub open spec fn resume_encoding(v: ResumeView) -> Seq<u8> {
    be16(v.version.0) + be16(v.version.1) + match v.token {
        Some(t) => be16(t.len() as u16) + t,
        None => Seq::empty(),
    } + be64(v.last_received_server_position) + be64(v.first_available_client_position)
}

/// The number of bytes that `Resume::len` reports: 22 and the token's
/// length, which counts two bytes of token length even without a token.
pub open spec fn resume_len(v: ResumeView) -> int {
    22 + match v.token {
        Some(t) => t.len() as int,
        None => 0int,
    }
}

/// How a RESUME body decodes from `s`: version, token length, the token
/// when that length is not zero, then two positions of eight bytes.
pub open spec fn decode_resume(s: Seq<u8>) -> Decoding<ResumeView> {
    if s.len() < 6 {
        Decoding::Incomplete { rest: s }
    } else {
        let ts = be16_value(s.skip(4)) as int;
        let s1 = s.skip(6);
        if ts > 0 && s1.len() < ts {
            Decoding::Incomplete { rest: s1 }
        } else {
            let token = if ts > 0 {
                Some(s1.take(ts))
            } else {
                None
            };
            let s2 = if ts > 0 {
                s1.skip(ts)
            } else {
                s1
            };
            if s2.len() < 16 {
                Decoding::Incomplete { rest: s2 }
            } else {
                Decoding::Done {
                    value: ResumeView {
                        version: (be16_value(s), be16_value(s.skip(2))),
                        token,
                        last_received_server_position: be64_value(s2),
                        first_available_client_position: be64_value(s2.skip(8)),
                    },
                    rest: s2.skip(16),
                }
            }
        }
    }
}

impl Resume {
    fn new() -> (r: Resume)
        ensures
            r@ == (ResumeView {
                version: (1u16, 0u16),
                token: None,
                last_received_server_position: 0,
                first_available_client_position: 0,
            }),
    {
        Resume {
            version: Version::default(),
            token: None,
            last_received_server_position: 0,
            first_available_client_position: 0,
        }
    }

    /// Decodes the body: version, token length and token, two positions.
    pub fn decode(flag: u16, b: &mut BytesMut) -> (r: Result<Resume, RSocketError>)
        ensures
            match r {
                Ok(v) => decode_resume(bytes_mut_view(*old(b))) == Decoding::Done {
                    value: v@,
                    rest: bytes_mut_view(*final(b)),
                },
                Err(e) => e is InCompleteFrame && decode_resume(bytes_mut_view(*old(b)))
                    == Decoding::<ResumeView>::Incomplete { rest: bytes_mut_view(*final(b)) },
            },
    {
        let ghost s = bytes_mut_view(*b);
        if bytes_mut_len(b) < 6 {
            return Err(RSocketError::InCompleteFrame);
        }
        let major = get_u16(b);
        let minor = get_u16(b);
        let token_size = get_u16(b) as usize;
        proof {
            assert(s.skip(2).skip(2) =~= s.skip(4));
            assert(s.skip(4).skip(2) =~= s.skip(6));
        }
        let token = if token_size > 0 {
            if bytes_mut_len(b) < token_size {
                return Err(RSocketError::InCompleteFrame);
            }
            Some(freeze(split_to(b, token_size)))
        } else {
            None
        };
        if bytes_mut_len(b) < 16 {
            return Err(RSocketError::InCompleteFrame);
        }
        let ghost s2 = bytes_mut_view(*b);
        let last_received_server_position = get_u64(b);
        let first_available_client_position = get_u64(b);
        proof {
            assert(s2.skip(8).skip(8) =~= s2.skip(16));
        }
        Ok(Resume {
            version: Version::new(major, minor),
            token,
            last_received_server_position,
            first_available_client_position,
        })
    }

    /// A builder of a RESUME frame: version 1.0, no token, positions 0.
    pub fn builder(stream_id: u32, flag: u16) -> (b: ResumeBuilder)
        ensures
            b@ == (BuilderView {
                stream_id,
                flag,
                value: ResumeView {
                    version: (1u16, 0u16),
                    token: None,
                    last_received_server_position: 0,
                    first_available_client_position: 0,
                },
            }),
    {
        ResumeBuilder::new(stream_id, flag)
    }

    /// The version.
    pub fn get_version(&self) -> (v: Version)
        ensures
            v@ == self@.version,
    {
        self.version
    }

    /// The resume token.
    pub fn get_token(&self) -> (t: &Option<Bytes>)
        ensures
            opt_bytes(*t) == self@.token,
    {
        &self.token
    }

    /// The last position that the client received from the server.
    pub fn get_last_received_server_position(&self) -> (p: u64)
        ensures
            p == self@.last_received_server_position,
    {
        self.last_received_server_position
    }

    /// The first position that the client can still send from.
    pub fn get_first_available_client_position(&self) -> (p: u64)
        ensures
            p == self@.first_available_client_position,
    {
        self.first_available_client_position
    }
}

impl ResumeBuilder {
    fn new(stream_id: u32, flag: u16) -> (b: ResumeBuilder)
        ensures
            b@ == (BuilderView {
                stream_id,
                flag,
                value: ResumeView {
                    version: (1u16, 0u16),
                    token: None,
                    last_received_server_position: 0,
                    first_available_client_position: 0,
                },
            }),
    {
        ResumeBuilder { stream_id, flag, inner: Resume::new() }
    }

    /// Sets the resume token.
    pub fn set_token(self, token: Bytes) -> (b: Self)
        ensures
            b@ == (BuilderView {
                stream_id: self@.stream_id,
                flag: self@.flag,
                value: ResumeView { token: Some(bytes_view(token)), ..self@.value },
            }),
    {
        let mut this = self;
        this.inner.token = Some(token);
        this
    }

    /// Sets the last position that the client received from the server.
    pub fn set_last_received_server_position(self, position: u64) -> (b: Self)
        ensures
            b@ == (BuilderView {
                stream_id: self@.stream_id,
                flag: self@.flag,
                value: ResumeView { last_received_server_position: position, ..self@.value },
            }),
    {
        let mut this = self;
        this.inner.last_received_server_position = position;
        this
    }

    /// Sets the first position that the client can still send from.
    pub fn set_first_available_client_position(self, position: u64) -> (b: Self)
        ensures
            b@ == (BuilderView {
                stream_id: self@.stream_id,
                flag: self@.flag,
                value: ResumeView { first_available_client_position: position, ..self@.value },
            }),
    {
        let mut this = self;
        this.inner.first_available_client_position = position;
        this
    }

    /// The frame built.
    pub fn build(self) -> (f: Frame)
        ensures
            f@ == (FrameView {
                stream_id: self@.stream_id,
                body: BodyView::Resume(self@.value),
                flag: self@.flag,
            }),
    {
        Frame::new(self.stream_id, Body::Resume(self.inner), self.flag)
    }
}

impl Writeable for Resume {
    open spec fn encoding(&self) -> Seq<u8> {
        resume_encoding(self@)
    }

    open spec fn writable(&self) -> bool {
        true
    }

    open spec fn encoded_len(&self) -> int {
        resume_len(self@)
    }

    fn write_to(&self, bf: &mut BytesMut) {
        let ghost start = bytes_mut_view(*bf);
        self.version.write_to(bf);
        if let Some(b) = self.get_token() {
            put_u16(bf, bytes_len(b) as u16);
            extend_from_bytes(bf, b);
        }
        put_u64(bf, self.get_last_received_server_position());
        put_u64(bf, self.get_first_available_client_position());
        proof {
            assert(bytes_mut_view(*final(bf)) =~= start + resume_encoding(self@));
        }
    }

    fn len(&self) -> (n: usize) {
        let mut size: usize = 22;
        if let Some(b) = self.get_token() {
            size = size + bytes_len(b);
        }
        size
    }
}

} // verus!
