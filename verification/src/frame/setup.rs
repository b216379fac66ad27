use super::utils::{
    decode_payload, metadata_fits, opt_bytes, opt_ref_bytes, payload_encoding, payload_length,
    read_payload, write_payload, Decoding, METADATA_BIT,
};
use super::{Body, BodyView, BuilderView, Frame, FrameView, Version};
use crate::buffer::{
    bytes_copy_from_slice, bytes_len, bytes_mut_len, bytes_mut_view, bytes_to_str, bytes_view,
    extend_from_bytes, freeze, get_u16, get_u32, get_u8, put_u16, put_u32, put_u8, split_to,
};
use crate::endian::{be16, be16_value, be32, be32_value};
use crate::error::RSocketError;
use crate::utils::{Writeable, DEFAULT_MIME_TYPE};
use bytes::{Bytes, BytesMut};
use vstd::prelude::*;
use vstd::string::StringSliceAdditionalSpecFns;
use vstd::utf8::{decode_utf8, valid_utf8};

verus! {

/// The flag bit that announces a resume token in a SETUP frame.
pub const RESUME_BIT: u16 = 0x80;

/// A SETUP frame's body: the version, the keepalive interval and the
/// lifetime (in milliseconds), an optional resume token, the MIME types of
/// metadata and data, and optional metadata and data.
#[derive(Debug)]
pub struct Setup {
    version: Version,
    keepalive: u32,
    lifetime: u32,
    token: Option<Bytes>,
    mime_metadata: Bytes,
    mime_data: Bytes,
    metadata: Option<Bytes>,
    data: Option<Bytes>,
}

/// A SETUP frame's body, with its buffers seen as sequences of bytes.
pub struct SetupView {
    pub version: (u16, u16),
    pub keepalive: u32,
    pub lifetime: u32,
    pub token: Option<Seq<u8>>,
    pub mime_metadata: Seq<u8>,
    pub mime_data: Seq<u8>,
    pub metadata: Option<Seq<u8>>,
    pub data: Option<Seq<u8>>,
}

impl View for Setup {
    type V = SetupView;

    closed spec fn view(&self) -> SetupView {
        SetupView {
            version: self.version@,
            keepalive: self.keepalive,
            lifetime: self.lifetime,
            token: opt_bytes(self.token),
            mime_metadata: bytes_view(self.mime_metadata),
            mime_data: bytes_view(self.mime_data),
            metadata: opt_bytes(self.metadata),
            data: opt_bytes(self.data),
        }
    }
}

/// Builds a SETUP frame.
pub struct SetupBuilder {
    stream_id: u32,
    flag: u16,
    value: Setup,
}

impl View for SetupBuilder {
    type V = BuilderView<SetupView>;

    closed spec fn view(&self) -> BuilderView<SetupView> {
        BuilderView { stream_id: self.stream_id, flag: self.flag, value: self.value@ }
    }
}

/// The bytes of the default MIME type.
pub open spec fn default_mime() -> Seq<u8> {
    DEFAULT_MIME_TYPE.spec_bytes()
}

/// The body of a SETUP frame that a new builder holds.
pub open spec fn default_setup() -> SetupView {
    SetupView {
        version: (1u16, 0u16),
        keepalive: 30_000,
        lifetime: 90_000,
        token: None,
        mime_metadata: default_mime(),
        mime_data: default_mime(),
        metadata: None,
        data: None,
    }
}

/// The token behind its length in two bytes, or nothing.
pub open spec fn token_encoding(token: Option<Seq<u8>>) -> Seq<u8> {
    match token {
        Some(t) => be16(t.len() as u16) + t,
        None => Seq::empty(),
    }
}

/// The encoding of a SETUP body: version, keepalive, lifetime, token, each
/// MIME type behind its length in one byte, then metadata and data.
pub open spec fn setup_encoding(v: SetupView) -> Seq<u8> {
    be16(v.version.0) + be16(v.version.1) + be32(v.keepalive) + be32(v.lifetime)
        + token_encoding(v.token) + seq![v.mime_metadata.len() as u8] + v.mime_metadata + seq![
        v.mime_data.len() as u8,
    ] + v.mime_data + payload_encoding(v.metadata, v.data)
}

/// The number of bytes that `Setup::len` reports.
pub open spec fn setup_len(v: SetupView) -> int {
    12 + match v.token {
        Some(t) => 2 + t.len() as int,
        None => 0int,
    } + 2 + v.mime_metadata.len() + v.mime_data.len() + payload_length(v.metadata, v.data)
}

/// How a SETUP body with flags `flag` decodes from `s`, after its first
/// twelve bytes: the token (when `flag` announces it), the two MIME types,
/// then metadata and data.
#[verifier::opaque]
pub open spec fn decode_setup_tail(
    version: (u16, u16),
    keepalive: u32,
    lifetime: u32,
    flag: u16,
    s1: Seq<u8>,
) -> Decoding<SetupView> {
    let resume = flag & RESUME_BIT != 0;
    if resume && s1.len() < 2 {
        Decoding::Incomplete { rest: s1 }
    } else if resume && s1.skip(2).len() < be16_value(s1) {
        Decoding::Incomplete { rest: s1.skip(2) }
    } else {
        let token = if resume {
            Some(s1.skip(2).take(be16_value(s1) as int))
        } else {
            None
        };
        let s2 = if resume {
            s1.skip(2).skip(be16_value(s1) as int)
        } else {
            s1
        };
        if s2.len() == 0 {
            Decoding::Incomplete { rest: s2 }
        } else if s2.skip(1).len() < s2[0] {
            Decoding::Incomplete { rest: s2.skip(1) }
        } else {
            let mime_metadata = s2.skip(1).take(s2[0] as int);
            let s4 = s2.skip(1).skip(s2[0] as int);
            if s4.len() == 0 {
                Decoding::Incomplete { rest: s4 }
            } else if s4.skip(1).len() < s4[0] {
                Decoding::Incomplete { rest: s4.skip(1) }
            } else {
                let mime_data = s4.skip(1).take(s4[0] as int);
                let s6 = s4.skip(1).skip(s4[0] as int);
                decode_payload(flag, s6).map(
                    |p: (Option<Seq<u8>>, Option<Seq<u8>>)| SetupView {
                        version,
                        keepalive,
                        lifetime,
                        token,
                        mime_metadata,
                        mime_data,
                        metadata: p.0,
                        data: p.1,
                    },
                )
            }
        }
    }
}

/// How a SETUP body with flags `flag` decodes from `s`.
pub open spec fn decode_setup(flag: u16, s: Seq<u8>) -> Decoding<SetupView> {
    if s.len() < 12 {
        Decoding::Incomplete { rest: s }
    } else {
        decode_setup_tail(
            (be16_value(s), be16_value(s.skip(2))),
            be32_value(s.skip(4)),
            be32_value(s.skip(8)),
            flag,
            s.skip(12),
        )
    }
}

impl Setup {
    /// Decodes the body.
    pub fn decode(flag: u16, b: &mut BytesMut) -> (r: Result<Setup, RSocketError>)
        requires
            !(decode_setup(flag, bytes_mut_view(*old(b))) is Undefined),
        ensures
            match r {
                Ok(v) => decode_setup(flag, bytes_mut_view(*old(b))) == Decoding::Done {
                    value: v@,
                    rest: bytes_mut_view(*final(b)),
                },
                Err(e) => e is InCompleteFrame && decode_setup(flag, bytes_mut_view(*old(b)))
                    == Decoding::<SetupView>::Incomplete { rest: bytes_mut_view(*final(b)) },
            },
    {
        reveal(decode_setup_tail);
        let ghost s = bytes_mut_view(*b);
        if bytes_mut_len(b) < 12 {
            return Err(RSocketError::InCompleteFrame);
        }
        let major = get_u16(b);
        let minor = get_u16(b);
        let keepalive = get_u32(b);
        let lifetime = get_u32(b);
        let ghost s1 = bytes_mut_view(*b);
        proof {
            assert(s.skip(2).skip(2) =~= s.skip(4));
            assert(s.skip(4).skip(4) =~= s.skip(8));
            assert(s1 =~= s.skip(12));
        }
        let token: Option<Bytes> = if flag & Frame::FLAG_RESUME != 0 {
            if bytes_mut_len(b) < 2 {
                return Err(RSocketError::InCompleteFrame);
            }
            let token_length = get_u16(b) as usize;
            if bytes_mut_len(b) < token_length {
                return Err(RSocketError::InCompleteFrame);
            }
            Some(freeze(split_to(b, token_length)))
        } else {
            None
        };
        let ghost s2 = bytes_mut_view(*b);
        if bytes_mut_len(b) == 0 {
            return Err(RSocketError::InCompleteFrame);
        }
        let mut mime_type_length: usize = get_u8(b) as usize;
        if bytes_mut_len(b) < mime_type_length {
            return Err(RSocketError::InCompleteFrame);
        }
        let mime_metadata = freeze(split_to(b, mime_type_length));
        let ghost s4 = bytes_mut_view(*b);
        if bytes_mut_len(b) == 0 {
            return Err(RSocketError::InCompleteFrame);
        }
        mime_type_length = get_u8(b) as usize;
        if bytes_mut_len(b) < mime_type_length {
            return Err(RSocketError::InCompleteFrame);
        }
        let mime_data = freeze(split_to(b, mime_type_length));
        let (metadata, data) = match read_payload(flag, b) {
            Ok(p) => p,
            Err(e) => return Err(e),
        };
        Ok(Setup {
            version: Version::new(major, minor),
            keepalive,
            lifetime,
            token,
            mime_metadata,
            mime_data,
            metadata,
            data,
        })
    }

    /// A builder of a SETUP frame with the default body: version 1.0,
    /// keepalive 30 s, lifetime 90 s, the default MIME types, no token,
    /// metadata or data.
    pub fn builder(stream_id: u32, flag: u16) -> (b: SetupBuilder)
        ensures
            b@ == (BuilderView { stream_id, flag, value: default_setup() }),
    {
        SetupBuilder::new(stream_id, flag)
    }

    /// The version.
    pub fn get_version(&self) -> (v: Version)
        ensures
            v@ == self@.version,
    {
        self.version
    }

    /// The keepalive interval, in milliseconds.
    pub fn get_keepalive(&self) -> (ms: u64)
        ensures
            ms == self@.keepalive,
    {
        self.keepalive as u64
    }

    /// The lifetime, in milliseconds.
    pub fn get_lifetime(&self) -> (ms: u64)
        ensures
            ms == self@.lifetime,
    {
        self.lifetime as u64
    }

    /// The resume token.
    pub fn get_token(&self) -> (t: Option<&Bytes>)
        ensures
            opt_ref_bytes(t) == self@.token,
    {
        self.token.as_ref()
    }

    /// The MIME type of the metadata, when it is valid UTF-8.
    pub fn get_mime_metadata(&self) -> (r: Option<&str>)
        ensures
            r is Some <==> valid_utf8(self@.mime_metadata),
            r matches Some(t) ==> t@ == decode_utf8(self@.mime_metadata),
    {
        bytes_to_str(&self.mime_metadata)
    }

    /// The MIME type of the data, when it is valid UTF-8.
    pub fn get_mime_data(&self) -> (r: Option<&str>)
        ensures
            r is Some <==> valid_utf8(self@.mime_data),
            r matches Some(t) ==> t@ == decode_utf8(self@.mime_data),
    {
        bytes_to_str(&self.mime_data)
    }

    /// The metadata.
    pub fn get_metadata(&self) -> (m: Option<&Bytes>)
        ensures
            opt_ref_bytes(m) == self@.metadata,
    {
        self.metadata.as_ref()
    }

    /// The data.
    pub fn get_data(&self) -> (d: Option<&Bytes>)
        ensures
            opt_ref_bytes(d) == self@.data,
    {
        self.data.as_ref()
    }

    /// The data and the metadata, taking the body apart.
    pub fn split(self) -> (r: (Option<Bytes>, Option<Bytes>))
        ensures
            opt_bytes(r.0) == self@.data,
            opt_bytes(r.1) == self@.metadata,
    {
        (self.data, self.metadata)
    }
}

impl Writeable for Setup {
    open spec fn encoding(&self) -> Seq<u8> {
        setup_encoding(self@)
    }

    open spec fn writable(&self) -> bool {
        metadata_fits(self@.metadata)
    }

    open spec fn encoded_len(&self) -> int {
        setup_len(self@)
    }

    fn len(&self) -> (n: usize) {
        let mut n: usize = 12;
        n = n + match &self.token {
            Some(v) => 2 + bytes_len(v),
            None => 0,
        };
        n = n + 2 + bytes_len(&self.mime_metadata) + bytes_len(&self.mime_data);
        n = n + super::utils::calculate_payload_length(self.get_metadata(), self.get_data());
        n
    }

    fn write_to(&self, bf: &mut BytesMut) {
        let ghost start = bytes_mut_view(*bf);
        self.version.write_to(bf);
        put_u32(bf, self.keepalive);
        put_u32(bf, self.lifetime);
        if let Some(b) = &self.token {
            put_u16(bf, bytes_len(b) as u16);
            extend_from_bytes(bf, b);
        }
        put_u8(bf, bytes_len(&self.mime_metadata) as u8);
        extend_from_bytes(bf, &self.mime_metadata);
        put_u8(bf, bytes_len(&self.mime_data) as u8);
        extend_from_bytes(bf, &self.mime_data);
        write_payload(bf, self.get_metadata(), self.get_data());
        proof {
            assert(bytes_mut_view(*final(bf)) =~= start + setup_encoding(self@));
        }
    }
}

impl SetupBuilder {
    fn new(stream_id: u32, flag: u16) -> (b: SetupBuilder)
        ensures
            b@ == (BuilderView { stream_id, flag, value: default_setup() }),
    {
        SetupBuilder {
            stream_id,
            flag,
            value: Setup {
                version: Version::default(),
                keepalive: 30_000,
                lifetime: 90_000,
                token: None,
                mime_metadata: bytes_copy_from_slice(DEFAULT_MIME_TYPE.as_bytes()),
                mime_data: bytes_copy_from_slice(DEFAULT_MIME_TYPE.as_bytes()),
                metadata: None,
                data: None,
            },
        }
    }

    /// The frame built.
    pub fn build(self) -> (f: Frame)
        ensures
            f@ == (FrameView {
                stream_id: self@.stream_id,
                body: BodyView::Setup(self@.value),
                flag: self@.flag,
            }),
    {
        Frame::new(self.stream_id, Body::Setup(self.value), self.flag)
    }

    /// Sets the data.
    pub fn set_data(self, bs: Bytes) -> (b: Self)
        ensures
            b@ == (BuilderView {
                stream_id: self@.stream_id,
                flag: self@.flag,
                value: SetupView { data: Some(bytes_view(bs)), ..self@.value },
            }),
    {
        let mut this = self;
        this.value.data = Some(bs);
        this
    }

    /// Sets the metadata, and the metadata flag.
    pub fn set_metadata(self, bs: Bytes) -> (b: Self)
        ensures
            b@ == (BuilderView {
                stream_id: self@.stream_id,
                flag: self@.flag | METADATA_BIT,
                value: SetupView { metadata: Some(bytes_view(bs)), ..self@.value },
            }),
    {
        let mut this = self;
        this.flag = this.flag | Frame::FLAG_METADATA;
        this.value.metadata = Some(bs);
        this
    }

    /// Sets the version.
    pub fn set_version(self, major: u16, minor: u16) -> (b: Self)
        ensures
            b@ == (BuilderView {
                stream_id: self@.stream_id,
                flag: self@.flag,
                value: SetupView { version: (major, minor), ..self@.value },
            }),
    {
        let mut this = self;
        this.value.version = Version::new(major, minor);
        this
    }

    /// Sets the keepalive interval, in milliseconds, kept to 32 bits.
    pub fn set_keepalive(self, millis: u64) -> (b: Self)
        ensures
            b@ == (BuilderView {
                stream_id: self@.stream_id,
                flag: self@.flag,
                value: SetupView { keepalive: millis as u32, ..self@.value },
            }),
    {
        let mut this = self;
        this.value.keepalive = millis as u32;
        this
    }

    /// Sets the lifetime, in milliseconds, kept to 32 bits.
    pub fn set_lifetime(self, millis: u64) -> (b: Self)
        ensures
            b@ == (BuilderView {
                stream_id: self@.stream_id,
                flag: self@.flag,
                value: SetupView { lifetime: millis as u32, ..self@.value },
            }),
    {
        let mut this = self;
        this.value.lifetime = millis as u32;
        this
    }

    /// Sets the resume token, and the resume flag.
    pub fn set_token(self, token: Bytes) -> (b: Self)
        ensures
            b@ == (BuilderView {
                stream_id: self@.stream_id,
                flag: self@.flag | RESUME_BIT,
                value: SetupView { token: Some(bytes_view(token)), ..self@.value },
            }),
    {
        let mut this = self;
        this.value.token = Some(token);
        this.flag = this.flag | Frame::FLAG_RESUME;
        this
    }

    /// Sets the MIME type of the metadata; it must be at most 256 bytes.
    pub fn set_mime_metadata(self, mime: &str) -> (b: Self)
        requires
            mime.spec_bytes().len() <= 256,
        ensures
            b@ == (BuilderView {
                stream_id: self@.stream_id,
                flag: self@.flag,
                value: SetupView { mime_metadata: mime.spec_bytes(), ..self@.value },
            }),
    {
        let mut this = self;
        this.value.mime_metadata = bytes_copy_from_slice(mime.as_bytes());
        this
    }

    /// Sets the MIME type of the data; it must be at most 256 bytes.
    pub fn set_mime_data(self, mime: &str) -> (b: Self)
        requires
            mime.spec_bytes().len() <= 256,
        ensures
            b@ == (BuilderView {
                stream_id: self@.stream_id,
                flag: self@.flag,
                value: SetupView { mime_data: mime.spec_bytes(), ..self@.value },
            }),
    {
        let mut this = self;
        this.value.mime_data = bytes_copy_from_slice(mime.as_bytes());
        this
    }
}

} // verus!
