//! MIME types: the well-known ones, which the wire format names by a
//! one-byte identifier, and any other, named by its text.

use crate::text::str_eq;
use vstd::prelude::*;

verus! {

/// The number of well-known MIME types.
pub const WELL_KNOWN_COUNT: usize = 47;

/// The identifiers of the well-known MIME types, by name: `MimeType::WellKnown`
/// of one of them is that type.
pub const APPLICATION_AVRO: u8 = 0x00;

pub const APPLICATION_CBOR: u8 = 0x01;

pub const APPLICATION_GRAPHQL: u8 = 0x02;

pub const APPLICATION_GZIP: u8 = 0x03;

pub const APPLICATION_JAVASCRIPT: u8 = 0x04;

pub const APPLICATION_JSON: u8 = 0x05;

pub const APPLICATION_OCTET_STREAM: u8 = 0x06;

pub const APPLICATION_PDF: u8 = 0x07;

pub const APPLICATION_VND_APACHE_THRIFT_BINARY: u8 = 0x08;

pub const APPLICATION_VND_GOOGLE_PROTOBUF: u8 = 0x09;

pub const APPLICATION_XML: u8 = 0x0A;

pub const APPLICATION_ZIP: u8 = 0x0B;

pub const AUDIO_AAC: u8 = 0x0C;

pub const AUDIO_MP3: u8 = 0x0D;

pub const AUDIO_MP4: u8 = 0x0E;

pub const AUDIO_MPEG3: u8 = 0x0F;

pub const AUDIO_MPEG: u8 = 0x10;

pub const AUDIO_OGG: u8 = 0x11;

pub const AUDIO_OPUS: u8 = 0x12;

pub const AUDIO_VORBIS: u8 = 0x13;

pub const IMAGE_BMP: u8 = 0x14;

pub const IMAGE_GIF: u8 = 0x15;

pub const IMAGE_HEIC_SEQUENCE: u8 = 0x16;

pub const IMAGE_HEIC: u8 = 0x17;

pub const IMAGE_HEIF_SEQUENCE: u8 = 0x18;

pub const IMAGE_HEIF: u8 = 0x19;

pub const IMAGE_JPEG: u8 = 0x1A;

pub const IMAGE_PNG: u8 = 0x1B;

pub const IMAGE_TIFF: u8 = 0x1C;

pub const MULTIPART_MIXED: u8 = 0x1D;

pub const TEXT_CSS: u8 = 0x1E;

pub const TEXT_CSV: u8 = 0x1F;

pub const TEXT_HTML: u8 = 0x20;

pub const TEXT_PLAIN: u8 = 0x21;

pub const TEXT_XML: u8 = 0x22;

pub const VIDEO_H264: u8 = 0x23;

pub const VIDEO_H265: u8 = 0x24;

pub const VIDEO_VP8: u8 = 0x25;

pub const APPLICATION_X_HESSIAN: u8 = 0x26;

pub const APPLICATION_X_JAVA_OBJECT: u8 = 0x27;

pub const APPLICATION_CLOUDEVENTS_JSON: u8 = 0x28;

pub const MESSAGE_X_RSOCKET_MIME_TYPE_V0: u8 = 0x7A;

pub const MESSAGE_X_RSOCKET_ACCEPT_TIME_TYPES_V0: u8 = 0x7B;

pub const MESSAGE_X_RSOCKET_AUTHENTICATION_V0: u8 = 0x7C;

pub const MESSAGE_X_RSOCKET_TRACING_ZIPKIN_V0: u8 = 0x7D;

pub const MESSAGE_X_RSOCKET_ROUTING_V0: u8 = 0x7E;

pub const MESSAGE_X_RSOCKET_COMPOSITE_METADATA_V0: u8 = 0x7F;

/// A MIME type: one named by its text, or a well-known one named by its
/// identifier.
#[derive(PartialEq, Eq, Debug, Hash)]
pub enum MimeType {
    Normal(String),
    WellKnown(u8),
}

/// What a MIME type is: its text, or the identifier of a well-known one.
pub enum MimeView {
    Normal(Seq<char>),
    WellKnown(u8),
}

impl View for MimeType {
    type V = MimeView;

    open spec fn view(&self) -> MimeView {
        match self {
            MimeType::Normal(s) => MimeView::Normal(s@),
            MimeType::WellKnown(n) => MimeView::WellKnown(*n),
        }
    }
}

impl Clone for MimeType {
    fn clone(&self) -> (r: Self)
        ensures
            r == *self,
    {
        match self {
            MimeType::Normal(s) => MimeType::Normal(s.clone()),
            MimeType::WellKnown(n) => MimeType::WellKnown(*n),
        }
    }
}

/// The well-known MIME types in the order in which they are listed: the
/// identifier and the name of the `i`-th.
pub open spec fn mime_entry(i: int) -> (u8, Seq<char>) {
    if i == 0 {
        (0x00u8, "application/avro"@)
    } else if i == 1 {
        (0x01u8, "application/cbor"@)
    } else if i == 2 {
        (0x02u8, "application/graphql"@)
    } else if i == 3 {
        (0x03u8, "application/gzip"@)
    } else if i == 4 {
        (0x04u8, "application/javascript"@)
    } else if i == 5 {
        (0x05u8, "application/json"@)
    } else if i == 6 {
        (0x06u8, "application/octet-stream"@)
    } else if i == 7 {
        (0x07u8, "application/pdf"@)
    } else if i == 8 {
        (0x08u8, "application/vnd.apache.thrift.binary"@)
    } else if i == 9 {
        (0x09u8, "application/vnd.google.protobuf"@)
    } else if i == 10 {
        (0x0Au8, "application/xml"@)
    } else if i == 11 {
        (0x0Bu8, "application/zip"@)
    } else if i == 12 {
        (0x0Cu8, "audio/aac"@)
    } else if i == 13 {
        (0x0Du8, "audio/mp3"@)
    } else if i == 14 {
        (0x0Eu8, "audio/mp4"@)
    } else if i == 15 {
        (0x0Fu8, "audio/mpeg3"@)
    } else if i == 16 {
        (0x10u8, "audio/mpeg"@)
    } else if i == 17 {
        (0x11u8, "audio/ogg"@)
    } else if i == 18 {
        (0x12u8, "audio/opus"@)
    } else if i == 19 {
        (0x13u8, "audio/vorbis"@)
    } else if i == 20 {
        (0x14u8, "image/bmp"@)
    } else if i == 21 {
        (0x15u8, "image/gif"@)
    } else if i == 22 {
        (0x16u8, "image/heic-sequence"@)
    } else if i == 23 {
        (0x17u8, "image/heic"@)
    } else if i == 24 {
        (0x18u8, "image/heif-sequence"@)
    } else if i == 25 {
        (0x19u8, "image/heif"@)
    } else if i == 26 {
        (0x1Au8, "image/jpeg"@)
    } else if i == 27 {
        (0x1Bu8, "image/png"@)
    } else if i == 28 {
        (0x1Cu8, "image/tiff"@)
    } else if i == 29 {
        (0x1Du8, "multipart/mixed"@)
    } else if i == 30 {
        (0x1Eu8, "text/css"@)
    } else if i == 31 {
        (0x1Fu8, "text/csv"@)
    } else if i == 32 {
        (0x20u8, "text/html"@)
    } else if i == 33 {
        (0x21u8, "text/plain"@)
    } else if i == 34 {
        (0x22u8, "text/xml"@)
    } else if i == 35 {
        (0x23u8, "video/H264"@)
    } else if i == 36 {
        (0x24u8, "video/H265"@)
    } else if i == 37 {
        (0x25u8, "video/VP8"@)
    } else if i == 38 {
        (0x26u8, "application/x-hessian"@)
    } else if i == 39 {
        (0x27u8, "application/x-java-object"@)
    } else if i == 40 {
        (0x28u8, "application/cloudevents+json"@)
    } else if i == 41 {
        (0x7Au8, "message/x.rsocket.mime-type.v0"@)
    } else if i == 42 {
        (0x7Bu8, "message/x.rsocket.accept-mime-types.v0"@)
    } else if i == 43 {
        (0x7Cu8, "message/x.rsocket.authentication.v0"@)
    } else if i == 44 {
        (0x7Du8, "message/x.rsocket.tracing-zipkin.v0"@)
    } else if i == 45 {
        (0x7Eu8, "message/x.rsocket.routing.v0"@)
    } else if i == 46 {
        (0x7Fu8, "message/x.rsocket.composite-metadata.v0"@)
    } else {
        (0u8, Seq::empty())
    }
}

/// The name that the first `k` listed entries give to identifier `n`:
/// the last of them with that identifier wins.
pub open spec fn name_among(n: u8, k: nat) -> Option<Seq<char>>
    decreases k,
{
    if k == 0 {
        None
    } else if mime_entry(k - 1).0 == n {
        Some(mime_entry(k - 1).1)
    } else {
        name_among(n, (k - 1) as nat)
    }
}

/// The identifier that the first `k` listed entries give to the name `s`:
/// the last of them with that name wins.
pub open spec fn code_among(s: Seq<char>, k: nat) -> Option<u8>
    decreases k,
{
    if k == 0 {
        None
    } else if mime_entry(k - 1).1 == s {
        Some(mime_entry(k - 1).0)
    } else {
        code_among(s, (k - 1) as nat)
    }
}

/// The name of the well-known MIME type with identifier `n`, if any.
pub open spec fn well_known_name(n: u8) -> Option<Seq<char>> {
    name_among(n, WELL_KNOWN_COUNT as nat)
}

/// The identifier of the well-known MIME type named `s`, if any.
pub open spec fn well_known_code(s: Seq<char>) -> Option<u8> {
    code_among(s, WELL_KNOWN_COUNT as nat)
}

/// The MIME type that the text `s` names: the well-known one with that
/// name, if any, else the text itself.
pub open spec fn mime_of_text(s: Seq<char>) -> MimeView {
    match well_known_code(s) {
        Some(n) => MimeView::WellKnown(n),
        None => MimeView::Normal(s),
    }
}

/// The text of a MIME type: its name; that of a well-known one whose
/// identifier is not listed is "UNKNOWN".
pub open spec fn mime_text(m: MimeView) -> Seq<char> {
    match m {
        MimeView::Normal(s) => s,
        MimeView::WellKnown(n) => match well_known_name(n) {
            Some(v) => v,
            None => "UNKNOWN"@,
        },
    }
}

/// Whether a MIME type has a name: a well-known one has one when its
/// identifier is listed.
pub open spec fn has_name(m: MimeView) -> bool {
    m matches MimeView::WellKnown(n) ==> well_known_name(n) is Some
}

/// No two listed entries share an identifier.
proof fn lemma_codes_unique(i: int, j: int)
    requires
        0 <= i < WELL_KNOWN_COUNT,
        0 <= j < WELL_KNOWN_COUNT,
        mime_entry(i).0 == mime_entry(j).0,
    ensures
        i == j,
{
}

/// What the first `k` entries give for a name is an entry among them.
proof fn lemma_code_among_entry(s: Seq<char>, k: nat) -> (i: int)
    requires
        code_among(s, k) is Some,
    ensures
        0 <= i < k,
        mime_entry(i).1 == s,
        mime_entry(i).0 == code_among(s, k)->0,
    decreases k,
{
    if mime_entry(k - 1).1 == s {
        k - 1
    } else {
        lemma_code_among_entry(s, (k - 1) as nat)
    }
}

/// The first `k` entries name the identifier of entry `i` (among them) by
/// the name of entry `i`.
proof fn lemma_name_among_entry(i: int, k: nat)
    requires
        0 <= i < k <= WELL_KNOWN_COUNT,
    ensures
        name_among(mime_entry(i).0, k) == Some(mime_entry(i).1),
    decreases k,
{
    if k - 1 != i {
        if mime_entry((k - 1) as int).0 == mime_entry(i).0 {
            lemma_codes_unique((k - 1) as int, i);
        }
        lemma_name_among_entry(i, (k - 1) as nat);
    }
}

/// A name that identifies a well-known type is that type's name: the
/// identifier that a name leads to has that name.
pub proof fn lemma_code_leads_back(s: Seq<char>)
    requires
        well_known_code(s) is Some,
    ensures
        well_known_name(well_known_code(s)->0) == Some(s),
{
    let i = lemma_code_among_entry(s, WELL_KNOWN_COUNT as nat);
    lemma_name_among_entry(i, WELL_KNOWN_COUNT as nat);
}

/// What tells the listed names apart: the length, the seventh and the
/// last character, and the tenth character from the end (a space for
/// shorter names).
spec fn name_key(s: Seq<char>) -> (int, char, char, char) {
    (
        s.len() as int,
        s[6],
        s[s.len() - 1],
        if s.len() >= 10 {
            s[s.len() - 10]
        } else {
            ' '
        },
    )
}

/// The key of the name of the `i`-th listed entry.
spec fn entry_key(i: int) -> (int, char, char, char) {
    if i == 0 {
        (16, 'a', 'o', 'a')
    } else if i == 1 {
        (16, 'a', 'r', 'a')
    } else if i == 2 {
        (19, 'a', 'l', 'o')
    } else if i == 3 {
        (16, 'a', 'p', 'a')
    } else if i == 4 {
        (22, 'a', 't', 'j')
    } else if i == 5 {
        (16, 'a', 'n', 'a')
    } else if i == 6 {
        (24, 'a', 'm', 't')
    } else if i == 7 {
        (15, 'a', 'f', 'c')
    } else if i == 8 {
        (36, 'a', 'y', 'i')
    } else if i == 9 {
        (31, 'a', 'f', 'e')
    } else if i == 10 {
        (15, 'a', 'l', 'c')
    } else if i == 11 {
        (15, 'a', 'p', 'c')
    } else if i == 12 {
        (9, 'a', 'c', ' ')
    } else if i == 13 {
        (9, 'm', '3', ' ')
    } else if i == 14 {
        (9, 'm', '4', ' ')
    } else if i == 15 {
        (11, 'm', '3', 'u')
    } else if i == 16 {
        (10, 'm', 'g', 'a')
    } else if i == 17 {
        (9, 'o', 'g', ' ')
    } else if i == 18 {
        (10, 'o', 's', 'a')
    } else if i == 19 {
        (12, 'v', 's', 'd')
    } else if i == 20 {
        (9, 'b', 'p', ' ')
    } else if i == 21 {
        (9, 'g', 'f', ' ')
    } else if i == 22 {
        (19, 'h', 'e', 'c')
    } else if i == 23 {
        (10, 'h', 'c', 'i')
    } else if i == 24 {
        (19, 'h', 'e', 'f')
    } else if i == 25 {
        (10, 'h', 'f', 'i')
    } else if i == 26 {
        (10, 'j', 'g', 'i')
    } else if i == 27 {
        (9, 'p', 'g', ' ')
    } else if i == 28 {
        (10, 't', 'f', 'i')
    } else if i == 29 {
        (15, 'a', 'd', 'p')
    } else if i == 30 {
        (8, 's', 's', ' ')
    } else if i == 31 {
        (8, 's', 'v', ' ')
    } else if i == 32 {
        (9, 't', 'l', ' ')
    } else if i == 33 {
        (10, 'l', 'n', 't')
    } else if i == 34 {
        (8, 'm', 'l', ' ')
    } else if i == 35 {
        (10, 'H', '4', 'v')
    } else if i == 36 {
        (10, 'H', '5', 'v')
    } else if i == 37 {
        (9, 'V', '8', ' ')
    } else if i == 38 {
        (21, 'a', 'n', '/')
    } else if i == 39 {
        (25, 'a', 't', 'a')
    } else if i == 40 {
        (28, 'a', 'n', 'v')
    } else if i == 41 {
        (30, 'e', '0', 'm')
    } else if i == 42 {
        (38, 'e', '0', 'e')
    } else if i == 43 {
        (35, 'e', '0', 'i')
    } else if i == 44 {
        (35, 'e', '0', '-')
    } else if i == 45 {
        (28, 'e', '0', 'r')
    } else if i == 46 {
        (39, 'e', '0', 'e')
    } else {
        (0, ' ', ' ', ' ')
    }
}

/// The key of each listed name is the one written down for it.
proof fn lemma_entry_key(i: int)
    requires
        0 <= i < WELL_KNOWN_COUNT,
    ensures
        name_key(mime_entry(i).1) == entry_key(i),
{
    if i == 0 {
        reveal_strlit("application/avro");
    } else if i == 1 {
        reveal_strlit("application/cbor");
    } else if i == 2 {
        reveal_strlit("application/graphql");
    } else if i == 3 {
        reveal_strlit("application/gzip");
    } else if i == 4 {
        reveal_strlit("application/javascript");
    } else if i == 5 {
        reveal_strlit("application/json");
    } else if i == 6 {
        reveal_strlit("application/octet-stream");
    } else if i == 7 {
        reveal_strlit("application/pdf");
    } else if i == 8 {
        reveal_strlit("application/vnd.apache.thrift.binary");
    } else if i == 9 {
        reveal_strlit("application/vnd.google.protobuf");
    } else if i == 10 {
        reveal_strlit("application/xml");
    } else if i == 11 {
        reveal_strlit("application/zip");
    } else if i == 12 {
        reveal_strlit("audio/aac");
    } else if i == 13 {
        reveal_strlit("audio/mp3");
    } else if i == 14 {
        reveal_strlit("audio/mp4");
    } else if i == 15 {
        reveal_strlit("audio/mpeg3");
    } else if i == 16 {
        reveal_strlit("audio/mpeg");
    } else if i == 17 {
        reveal_strlit("audio/ogg");
    } else if i == 18 {
        reveal_strlit("audio/opus");
    } else if i == 19 {
        reveal_strlit("audio/vorbis");
    } else if i == 20 {
        reveal_strlit("image/bmp");
    } else if i == 21 {
        reveal_strlit("image/gif");
    } else if i == 22 {
        reveal_strlit("image/heic-sequence");
    } else if i == 23 {
        reveal_strlit("image/heic");
    } else if i == 24 {
        reveal_strlit("image/heif-sequence");
    } else if i == 25 {
        reveal_strlit("image/heif");
    } else if i == 26 {
        reveal_strlit("image/jpeg");
    } else if i == 27 {
        reveal_strlit("image/png");
    } else if i == 28 {
        reveal_strlit("image/tiff");
    } else if i == 29 {
        reveal_strlit("multipart/mixed");
    } else if i == 30 {
        reveal_strlit("text/css");
    } else if i == 31 {
        reveal_strlit("text/csv");
    } else if i == 32 {
        reveal_strlit("text/html");
    } else if i == 33 {
        reveal_strlit("text/plain");
    } else if i == 34 {
        reveal_strlit("text/xml");
    } else if i == 35 {
        reveal_strlit("video/H264");
    } else if i == 36 {
        reveal_strlit("video/H265");
    } else if i == 37 {
        reveal_strlit("video/VP8");
    } else if i == 38 {
        reveal_strlit("application/x-hessian");
    } else if i == 39 {
        reveal_strlit("application/x-java-object");
    } else if i == 40 {
        reveal_strlit("application/cloudevents+json");
    } else if i == 41 {
        reveal_strlit("message/x.rsocket.mime-type.v0");
    } else if i == 42 {
        reveal_strlit("message/x.rsocket.accept-mime-types.v0");
    } else if i == 43 {
        reveal_strlit("message/x.rsocket.authentication.v0");
    } else if i == 44 {
        reveal_strlit("message/x.rsocket.tracing-zipkin.v0");
    } else if i == 45 {
        reveal_strlit("message/x.rsocket.routing.v0");
    } else if i == 46 {
        reveal_strlit("message/x.rsocket.composite-metadata.v0");
    }
}

/// Listed entries have different keys.
proof fn lemma_entry_keys_differ(i: int, j: int)
    requires
        0 <= i < j < WELL_KNOWN_COUNT,
    ensures
        entry_key(i) != entry_key(j),
{
}

/// The listed names are all different: no two well-known MIME types share
/// a name.
pub proof fn lemma_names_differ(i: int, j: int)
    requires
        0 <= i < j < WELL_KNOWN_COUNT,
    ensures
        mime_entry(i).1 != mime_entry(j).1,
{
    lemma_entry_key(i);
    lemma_entry_key(j);
    lemma_entry_keys_differ(i, j);
}

/// An identifier that the first `k` entries name is the identifier of one
/// of them, and the name is that entry's.
proof fn lemma_name_among_index(n: u8, k: nat) -> (i: int)
    requires
        name_among(n, k) is Some,
    ensures
        0 <= i < k,
        mime_entry(i).0 == n,
        mime_entry(i).1 == name_among(n, k)->0,
    decreases k,
{
    if mime_entry(k - 1).0 == n {
        k - 1
    } else {
        lemma_name_among_index(n, (k - 1) as nat)
    }
}

/// The first `k` entries give the name of entry `i` (among them) the
/// identifier of entry `i`.
proof fn lemma_code_among_later(i: int, k: nat)
    requires
        0 <= i < k <= WELL_KNOWN_COUNT,
    ensures
        code_among(mime_entry(i).1, k) == Some(mime_entry(i).0),
    decreases k,
{
    if k - 1 != i {
        lemma_names_differ(i, (k - 1) as int);
        lemma_code_among_later(i, (k - 1) as nat);
    }
}

/// Every listed identifier leads back to itself through its name: the
/// name of the well-known MIME type with identifier `n` names that type.
pub proof fn lemma_name_leads_back(n: u8)
    requires
        well_known_name(n) is Some,
    ensures
        well_known_code(well_known_name(n)->0) == Some(n),
{
    let i = lemma_name_among_index(n, WELL_KNOWN_COUNT as nat);
    lemma_code_among_later(i, WELL_KNOWN_COUNT as nat);
}

/// Each of the `application/...` types listed first is named by its
/// constant: the table gives that identifier the type's name, and the name
/// that identifier.
pub proof fn lemma_application_names()
    ensures
        well_known_name(APPLICATION_AVRO) == Some("application/avro"@),
        well_known_code("application/avro"@) == Some(APPLICATION_AVRO),
        well_known_name(APPLICATION_CBOR) == Some("application/cbor"@),
        well_known_code("application/cbor"@) == Some(APPLICATION_CBOR),
        well_known_name(APPLICATION_GRAPHQL) == Some("application/graphql"@),
        well_known_code("application/graphql"@) == Some(APPLICATION_GRAPHQL),
        well_known_name(APPLICATION_GZIP) == Some("application/gzip"@),
        well_known_code("application/gzip"@) == Some(APPLICATION_GZIP),
        well_known_name(APPLICATION_JAVASCRIPT) == Some("application/javascript"@),
        well_known_code("application/javascript"@) == Some(APPLICATION_JAVASCRIPT),
        well_known_name(APPLICATION_JSON) == Some("application/json"@),
        well_known_code("application/json"@) == Some(APPLICATION_JSON),
        well_known_name(APPLICATION_OCTET_STREAM) == Some("application/octet-stream"@),
        well_known_code("application/octet-stream"@) == Some(APPLICATION_OCTET_STREAM),
        well_known_name(APPLICATION_PDF) == Some("application/pdf"@),
        well_known_code("application/pdf"@) == Some(APPLICATION_PDF),
        well_known_name(APPLICATION_VND_APACHE_THRIFT_BINARY) == Some("application/vnd.apache.thrift.binary"@),
        well_known_code("application/vnd.apache.thrift.binary"@) == Some(APPLICATION_VND_APACHE_THRIFT_BINARY),
        well_known_name(APPLICATION_VND_GOOGLE_PROTOBUF) == Some("application/vnd.google.protobuf"@),
        well_known_code("application/vnd.google.protobuf"@) == Some(APPLICATION_VND_GOOGLE_PROTOBUF),
        well_known_name(APPLICATION_XML) == Some("application/xml"@),
        well_known_code("application/xml"@) == Some(APPLICATION_XML),
        well_known_name(APPLICATION_ZIP) == Some("application/zip"@),
        well_known_code("application/zip"@) == Some(APPLICATION_ZIP),
{
    lemma_name_among_entry(0, WELL_KNOWN_COUNT as nat);
    lemma_code_among_later(0, WELL_KNOWN_COUNT as nat);
    lemma_name_among_entry(1, WELL_KNOWN_COUNT as nat);
    lemma_code_among_later(1, WELL_KNOWN_COUNT as nat);
    lemma_name_among_entry(2, WELL_KNOWN_COUNT as nat);
    lemma_code_among_later(2, WELL_KNOWN_COUNT as nat);
    lemma_name_among_entry(3, WELL_KNOWN_COUNT as nat);
    lemma_code_among_later(3, WELL_KNOWN_COUNT as nat);
    lemma_name_among_entry(4, WELL_KNOWN_COUNT as nat);
    lemma_code_among_later(4, WELL_KNOWN_COUNT as nat);
    lemma_name_among_entry(5, WELL_KNOWN_COUNT as nat);
    lemma_code_among_later(5, WELL_KNOWN_COUNT as nat);
    lemma_name_among_entry(6, WELL_KNOWN_COUNT as nat);
    lemma_code_among_later(6, WELL_KNOWN_COUNT as nat);
    lemma_name_among_entry(7, WELL_KNOWN_COUNT as nat);
    lemma_code_among_later(7, WELL_KNOWN_COUNT as nat);
    lemma_name_among_entry(8, WELL_KNOWN_COUNT as nat);
    lemma_code_among_later(8, WELL_KNOWN_COUNT as nat);
    lemma_name_among_entry(9, WELL_KNOWN_COUNT as nat);
    lemma_code_among_later(9, WELL_KNOWN_COUNT as nat);
    lemma_name_among_entry(10, WELL_KNOWN_COUNT as nat);
    lemma_code_among_later(10, WELL_KNOWN_COUNT as nat);
    lemma_name_among_entry(11, WELL_KNOWN_COUNT as nat);
    lemma_code_among_later(11, WELL_KNOWN_COUNT as nat);
}

/// Each of the audio and image types is named by its constant: the table
/// gives that identifier the type's name, and the name that identifier.
pub proof fn lemma_audio_image_names()
    ensures
        well_known_name(AUDIO_AAC) == Some("audio/aac"@),
        well_known_code("audio/aac"@) == Some(AUDIO_AAC),
        well_known_name(AUDIO_MP3) == Some("audio/mp3"@),
        well_known_code("audio/mp3"@) == Some(AUDIO_MP3),
        well_known_name(AUDIO_MP4) == Some("audio/mp4"@),
        well_known_code("audio/mp4"@) == Some(AUDIO_MP4),
        well_known_name(AUDIO_MPEG3) == Some("audio/mpeg3"@),
        well_known_code("audio/mpeg3"@) == Some(AUDIO_MPEG3),
        well_known_name(AUDIO_MPEG) == Some("audio/mpeg"@),
        well_known_code("audio/mpeg"@) == Some(AUDIO_MPEG),
        well_known_name(AUDIO_OGG) == Some("audio/ogg"@),
        well_known_code("audio/ogg"@) == Some(AUDIO_OGG),
        well_known_name(AUDIO_OPUS) == Some("audio/opus"@),
        well_known_code("audio/opus"@) == Some(AUDIO_OPUS),
        well_known_name(AUDIO_VORBIS) == Some("audio/vorbis"@),
        well_known_code("audio/vorbis"@) == Some(AUDIO_VORBIS),
        well_known_name(IMAGE_BMP) == Some("image/bmp"@),
        well_known_code("image/bmp"@) == Some(IMAGE_BMP),
        well_known_name(IMAGE_GIF) == Some("image/gif"@),
        well_known_code("image/gif"@) == Some(IMAGE_GIF),
        well_known_name(IMAGE_HEIC_SEQUENCE) == Some("image/heic-sequence"@),
        well_known_code("image/heic-sequence"@) == Some(IMAGE_HEIC_SEQUENCE),
        well_known_name(IMAGE_HEIC) == Some("image/heic"@),
        well_known_code("image/heic"@) == Some(IMAGE_HEIC),
        well_known_name(IMAGE_HEIF_SEQUENCE) == Some("image/heif-sequence"@),
        well_known_code("image/heif-sequence"@) == Some(IMAGE_HEIF_SEQUENCE),
        well_known_name(IMAGE_HEIF) == Some("image/heif"@),
        well_known_code("image/heif"@) == Some(IMAGE_HEIF),
        well_known_name(IMAGE_JPEG) == Some("image/jpeg"@),
        well_known_code("image/jpeg"@) == Some(IMAGE_JPEG),
        well_known_name(IMAGE_PNG) == Some("image/png"@),
        well_known_code("image/png"@) == Some(IMAGE_PNG),
        well_known_name(IMAGE_TIFF) == Some("image/tiff"@),
        well_known_code("image/tiff"@) == Some(IMAGE_TIFF),
{
    lemma_name_among_entry(12, WELL_KNOWN_COUNT as nat);
    lemma_code_among_later(12, WELL_KNOWN_COUNT as nat);
    lemma_name_among_entry(13, WELL_KNOWN_COUNT as nat);
    lemma_code_among_later(13, WELL_KNOWN_COUNT as nat);
    lemma_name_among_entry(14, WELL_KNOWN_COUNT as nat);
    lemma_code_among_later(14, WELL_KNOWN_COUNT as nat);
    lemma_name_among_entry(15, WELL_KNOWN_COUNT as nat);
    lemma_code_among_later(15, WELL_KNOWN_COUNT as nat);
    lemma_name_among_entry(16, WELL_KNOWN_COUNT as nat);
    lemma_code_among_later(16, WELL_KNOWN_COUNT as nat);
    lemma_name_among_entry(17, WELL_KNOWN_COUNT as nat);
    lemma_code_among_later(17, WELL_KNOWN_COUNT as nat);
    lemma_name_among_entry(18, WELL_KNOWN_COUNT as nat);
    lemma_code_among_later(18, WELL_KNOWN_COUNT as nat);
    lemma_name_among_entry(19, WELL_KNOWN_COUNT as nat);
    lemma_code_among_later(19, WELL_KNOWN_COUNT as nat);
    lemma_name_among_entry(20, WELL_KNOWN_COUNT as nat);
    lemma_code_among_later(20, WELL_KNOWN_COUNT as nat);
    lemma_name_among_entry(21, WELL_KNOWN_COUNT as nat);
    lemma_code_among_later(21, WELL_KNOWN_COUNT as nat);
    lemma_name_among_entry(22, WELL_KNOWN_COUNT as nat);
    lemma_code_among_later(22, WELL_KNOWN_COUNT as nat);
    lemma_name_among_entry(23, WELL_KNOWN_COUNT as nat);
    lemma_code_among_later(23, WELL_KNOWN_COUNT as nat);
    lemma_name_among_entry(24, WELL_KNOWN_COUNT as nat);
    lemma_code_among_later(24, WELL_KNOWN_COUNT as nat);
    lemma_name_among_entry(25, WELL_KNOWN_COUNT as nat);
    lemma_code_among_later(25, WELL_KNOWN_COUNT as nat);
    lemma_name_among_entry(26, WELL_KNOWN_COUNT as nat);
    lemma_code_among_later(26, WELL_KNOWN_COUNT as nat);
    lemma_name_among_entry(27, WELL_KNOWN_COUNT as nat);
    lemma_code_among_later(27, WELL_KNOWN_COUNT as nat);
    lemma_name_among_entry(28, WELL_KNOWN_COUNT as nat);
    lemma_code_among_later(28, WELL_KNOWN_COUNT as nat);
}

/// Each of `multipart/mixed`, the text and video types and the
/// `application/...` types listed after them is named by its constant: the
/// table gives that identifier the type's name, and the name that identifier.
pub proof fn lemma_text_video_names()
    ensures
        well_known_name(MULTIPART_MIXED) == Some("multipart/mixed"@),
        well_known_code("multipart/mixed"@) == Some(MULTIPART_MIXED),
        well_known_name(TEXT_CSS) == Some("text/css"@),
        well_known_code("text/css"@) == Some(TEXT_CSS),
        well_known_name(TEXT_CSV) == Some("text/csv"@),
        well_known_code("text/csv"@) == Some(TEXT_CSV),
        well_known_name(TEXT_HTML) == Some("text/html"@),
        well_known_code("text/html"@) == Some(TEXT_HTML),
        well_known_name(TEXT_PLAIN) == Some("text/plain"@),
        well_known_code("text/plain"@) == Some(TEXT_PLAIN),
        well_known_name(TEXT_XML) == Some("text/xml"@),
        well_known_code("text/xml"@) == Some(TEXT_XML),
        well_known_name(VIDEO_H264) == Some("video/H264"@),
        well_known_code("video/H264"@) == Some(VIDEO_H264),
        well_known_name(VIDEO_H265) == Some("video/H265"@),
        well_known_code("video/H265"@) == Some(VIDEO_H265),
        well_known_name(VIDEO_VP8) == Some("video/VP8"@),
        well_known_code("video/VP8"@) == Some(VIDEO_VP8),
        well_known_name(APPLICATION_X_HESSIAN) == Some("application/x-hessian"@),
        well_known_code("application/x-hessian"@) == Some(APPLICATION_X_HESSIAN),
        well_known_name(APPLICATION_X_JAVA_OBJECT) == Some("application/x-java-object"@),
        well_known_code("application/x-java-object"@) == Some(APPLICATION_X_JAVA_OBJECT),
        well_known_name(APPLICATION_CLOUDEVENTS_JSON) == Some("application/cloudevents+json"@),
        well_known_code("application/cloudevents+json"@) == Some(APPLICATION_CLOUDEVENTS_JSON),
{
    lemma_name_among_entry(29, WELL_KNOWN_COUNT as nat);
    lemma_code_among_later(29, WELL_KNOWN_COUNT as nat);
    lemma_name_among_entry(30, WELL_KNOWN_COUNT as nat);
    lemma_code_among_later(30, WELL_KNOWN_COUNT as nat);
    lemma_name_among_entry(31, WELL_KNOWN_COUNT as nat);
    lemma_code_among_later(31, WELL_KNOWN_COUNT as nat);
    lemma_name_among_entry(32, WELL_KNOWN_COUNT as nat);
    lemma_code_among_later(32, WELL_KNOWN_COUNT as nat);
    lemma_name_among_entry(33, WELL_KNOWN_COUNT as nat);
    lemma_code_among_later(33, WELL_KNOWN_COUNT as nat);
    lemma_name_among_entry(34, WELL_KNOWN_COUNT as nat);
    lemma_code_among_later(34, WELL_KNOWN_COUNT as nat);
    lemma_name_among_entry(35, WELL_KNOWN_COUNT as nat);
    lemma_code_among_later(35, WELL_KNOWN_COUNT as nat);
    lemma_name_among_entry(36, WELL_KNOWN_COUNT as nat);
    lemma_code_among_later(36, WELL_KNOWN_COUNT as nat);
    lemma_name_among_entry(37, WELL_KNOWN_COUNT as nat);
    lemma_code_among_later(37, WELL_KNOWN_COUNT as nat);
    lemma_name_among_entry(38, WELL_KNOWN_COUNT as nat);
    lemma_code_among_later(38, WELL_KNOWN_COUNT as nat);
    lemma_name_among_entry(39, WELL_KNOWN_COUNT as nat);
    lemma_code_among_later(39, WELL_KNOWN_COUNT as nat);
    lemma_name_among_entry(40, WELL_KNOWN_COUNT as nat);
    lemma_code_among_later(40, WELL_KNOWN_COUNT as nat);
}

/// Each of the `message/x.rsocket...` types is named by its constant: the
/// table gives that identifier the type's name, and the name that identifier.
pub proof fn lemma_rsocket_names()
    ensures
        well_known_name(MESSAGE_X_RSOCKET_MIME_TYPE_V0) == Some("message/x.rsocket.mime-type.v0"@),
        well_known_code("message/x.rsocket.mime-type.v0"@) == Some(MESSAGE_X_RSOCKET_MIME_TYPE_V0),
        well_known_name(MESSAGE_X_RSOCKET_ACCEPT_TIME_TYPES_V0) == Some("message/x.rsocket.accept-mime-types.v0"@),
        well_known_code("message/x.rsocket.accept-mime-types.v0"@) == Some(MESSAGE_X_RSOCKET_ACCEPT_TIME_TYPES_V0),
        well_known_name(MESSAGE_X_RSOCKET_AUTHENTICATION_V0) == Some("message/x.rsocket.authentication.v0"@),
        well_known_code("message/x.rsocket.authentication.v0"@) == Some(MESSAGE_X_RSOCKET_AUTHENTICATION_V0),
        well_known_name(MESSAGE_X_RSOCKET_TRACING_ZIPKIN_V0) == Some("message/x.rsocket.tracing-zipkin.v0"@),
        well_known_code("message/x.rsocket.tracing-zipkin.v0"@) == Some(MESSAGE_X_RSOCKET_TRACING_ZIPKIN_V0),
        well_known_name(MESSAGE_X_RSOCKET_ROUTING_V0) == Some("message/x.rsocket.routing.v0"@),
        well_known_code("message/x.rsocket.routing.v0"@) == Some(MESSAGE_X_RSOCKET_ROUTING_V0),
        well_known_name(MESSAGE_X_RSOCKET_COMPOSITE_METADATA_V0) == Some("message/x.rsocket.composite-metadata.v0"@),
        well_known_code("message/x.rsocket.composite-metadata.v0"@) == Some(MESSAGE_X_RSOCKET_COMPOSITE_METADATA_V0),
{
    lemma_name_among_entry(41, WELL_KNOWN_COUNT as nat);
    lemma_code_among_later(41, WELL_KNOWN_COUNT as nat);
    lemma_name_among_entry(42, WELL_KNOWN_COUNT as nat);
    lemma_code_among_later(42, WELL_KNOWN_COUNT as nat);
    lemma_name_among_entry(43, WELL_KNOWN_COUNT as nat);
    lemma_code_among_later(43, WELL_KNOWN_COUNT as nat);
    lemma_name_among_entry(44, WELL_KNOWN_COUNT as nat);
    lemma_code_among_later(44, WELL_KNOWN_COUNT as nat);
    lemma_name_among_entry(45, WELL_KNOWN_COUNT as nat);
    lemma_code_among_later(45, WELL_KNOWN_COUNT as nat);
    lemma_name_among_entry(46, WELL_KNOWN_COUNT as nat);
    lemma_code_among_later(46, WELL_KNOWN_COUNT as nat);
}
/// Every listed well-known MIME type survives the round trip through its
/// text: `MimeType::from` of its `as_str` (or of its `to_string`) gives it
/// back.
pub proof fn lemma_well_known_roundtrip(n: u8)
    requires
        well_known_name(n) is Some,
    ensures
        mime_of_text(mime_text(MimeView::WellKnown(n))) == MimeView::WellKnown(n),
        mime_of_text(well_known_name(n)->0) == MimeView::WellKnown(n),
{
    lemma_name_leads_back(n);
}

/// The MIME type that a text names has that text: `as_str` of
/// `MimeType::from(s)` gives `s` back, for every text `s`.
pub proof fn lemma_text_roundtrip(s: Seq<char>)
    ensures
        (match mime_of_text(s) {
            MimeView::Normal(t) => Some(t),
            MimeView::WellKnown(n) => well_known_name(n),
        }) == Some(s),
        mime_text(mime_of_text(s)) == s,
{
    if well_known_code(s) is Some {
        lemma_code_leads_back(s);
    }
}

/// The view of an optional string.
pub open spec fn opt_str_view(s: Option<&str>) -> Option<Seq<char>> {
    match s {
        Some(t) => Some(t@),
        None => None,
    }
}

/// The `i`-th listed well-known MIME type: its identifier and its name.
fn entry(i: usize) -> (r: (u8, &'static str))
    requires
        i < WELL_KNOWN_COUNT,
    ensures
        r.0 == mime_entry(i as int).0,
        r.1@ == mime_entry(i as int).1,
{
    if i == 0 {
        (0x00, "application/avro")
    } else if i == 1 {
        (0x01, "application/cbor")
    } else if i == 2 {
        (0x02, "application/graphql")
    } else if i == 3 {
        (0x03, "application/gzip")
    } else if i == 4 {
        (0x04, "application/javascript")
    } else if i == 5 {
        (0x05, "application/json")
    } else if i == 6 {
        (0x06, "application/octet-stream")
    } else if i == 7 {
        (0x07, "application/pdf")
    } else if i == 8 {
        (0x08, "application/vnd.apache.thrift.binary")
    } else if i == 9 {
        (0x09, "application/vnd.google.protobuf")
    } else if i == 10 {
        (0x0A, "application/xml")
    } else if i == 11 {
        (0x0B, "application/zip")
    } else if i == 12 {
        (0x0C, "audio/aac")
    } else if i == 13 {
        (0x0D, "audio/mp3")
    } else if i == 14 {
        (0x0E, "audio/mp4")
    } else if i == 15 {
        (0x0F, "audio/mpeg3")
    } else if i == 16 {
        (0x10, "audio/mpeg")
    } else if i == 17 {
        (0x11, "audio/ogg")
    } else if i == 18 {
        (0x12, "audio/opus")
    } else if i == 19 {
        (0x13, "audio/vorbis")
    } else if i == 20 {
        (0x14, "image/bmp")
    } else if i == 21 {
        (0x15, "image/gif")
    } else if i == 22 {
        (0x16, "image/heic-sequence")
    } else if i == 23 {
        (0x17, "image/heic")
    } else if i == 24 {
        (0x18, "image/heif-sequence")
    } else if i == 25 {
        (0x19, "image/heif")
    } else if i == 26 {
        (0x1A, "image/jpeg")
    } else if i == 27 {
        (0x1B, "image/png")
    } else if i == 28 {
        (0x1C, "image/tiff")
    } else if i == 29 {
        (0x1D, "multipart/mixed")
    } else if i == 30 {
        (0x1E, "text/css")
    } else if i == 31 {
        (0x1F, "text/csv")
    } else if i == 32 {
        (0x20, "text/html")
    } else if i == 33 {
        (0x21, "text/plain")
    } else if i == 34 {
        (0x22, "text/xml")
    } else if i == 35 {
        (0x23, "video/H264")
    } else if i == 36 {
        (0x24, "video/H265")
    } else if i == 37 {
        (0x25, "video/VP8")
    } else if i == 38 {
        (0x26, "application/x-hessian")
    } else if i == 39 {
        (0x27, "application/x-java-object")
    } else if i == 40 {
        (0x28, "application/cloudevents+json")
    } else if i == 41 {
        (0x7A, "message/x.rsocket.mime-type.v0")
    } else if i == 42 {
        (0x7B, "message/x.rsocket.accept-mime-types.v0")
    } else if i == 43 {
        (0x7C, "message/x.rsocket.authentication.v0")
    } else if i == 44 {
        (0x7D, "message/x.rsocket.tracing-zipkin.v0")
    } else if i == 45 {
        (0x7E, "message/x.rsocket.routing.v0")
    } else {
        (0x7F, "message/x.rsocket.composite-metadata.v0")
    }
}

/// All the well-known MIME types, in the order in which they are listed:
/// the identifier and the name of each.
pub fn list_all() -> (r: Vec<(u8, &'static str)>)
    ensures
        r@.len() == WELL_KNOWN_COUNT,
        forall|i: int|
            0 <= i < WELL_KNOWN_COUNT ==> (#[trigger] r@[i]).0 == mime_entry(i).0 && r@[i].1@
                == mime_entry(i).1,
{
    let mut out: Vec<(u8, &'static str)> = Vec::new();
    let mut i: usize = 0;
    while i < WELL_KNOWN_COUNT
        invariant
            i <= WELL_KNOWN_COUNT,
            out@.len() == i,
            forall|j: int|
                0 <= j < i ==> (#[trigger] out@[j]).0 == mime_entry(j).0 && out@[j].1@
                    == mime_entry(j).1,
        decreases WELL_KNOWN_COUNT - i,
    {
        out.push(entry(i));
        i = i + 1;
    }
    out
}

/// The name of the well-known MIME type with identifier `n`, if any.
fn name_of(n: u8) -> (r: Option<&'static str>)
    ensures
        opt_str_view(r) == well_known_name(n),
{
    let mut k: usize = WELL_KNOWN_COUNT;
    while k > 0
        invariant
            k <= WELL_KNOWN_COUNT,
            well_known_name(n) == name_among(n, k as nat),
        decreases k,
    {
        let (c, s) = entry(k - 1);
        if c == n {
            return Some(s);
        }
        k = k - 1;
    }
    None
}

/// The identifier of the well-known MIME type named `s`, if any.
fn code_of(s: &str) -> (r: Option<u8>)
    ensures
        r == well_known_code(s@),
{
    let mut k: usize = WELL_KNOWN_COUNT;
    while k > 0
        invariant
            k <= WELL_KNOWN_COUNT,
            well_known_code(s@) == code_among(s@, k as nat),
        decreases k,
    {
        let (c, t) = entry(k - 1);
        if str_eq(t, s) {
            return Some(c);
        }
        k = k - 1;
    }
    None
}

impl MimeType {
    /// The well-known MIME type with identifier `value`, if it is listed.
    pub fn parse(value: u8) -> (r: Option<MimeType>)
        ensures
            r is Some <==> well_known_name(value) is Some,
            r matches Some(m) ==> m@ == MimeView::WellKnown(value),
    {
        match name_of(value) {
            Some(_) => Some(MimeType::WellKnown(value)),
            None => None,
        }
    }

    /// The identifier of a well-known MIME type; nothing for another.
    pub fn as_u8(&self) -> (r: Option<u8>)
        ensures
            r == (match self@ {
                MimeView::WellKnown(n) => Some(n),
                MimeView::Normal(_) => None,
            }),
    {
        match self {
            MimeType::WellKnown(n) => Some(*n),
            MimeType::Normal(_) => None,
        }
    }

    /// The name of the MIME type: its text, or the listed name of a
    /// well-known one (nothing when its identifier is not listed).
    pub fn as_str(&self) -> (r: Option<&str>)
        ensures
            opt_str_view(r) == (match self@ {
                MimeView::Normal(s) => Some(s),
                MimeView::WellKnown(n) => well_known_name(n),
            }),
    {
        match self {
            MimeType::Normal(s) => Some(s.as_str()),
            MimeType::WellKnown(n) => name_of(*n),
        }
    }

    /// The MIME type named `value`: the well-known one with that name, if
    /// any, else the text itself.
    pub fn from(value: &str) -> (r: MimeType)
        ensures
            r@ == mime_of_text(value@),
    {
        match code_of(value) {
            Some(n) => MimeType::WellKnown(n),
            None => MimeType::Normal(value.to_owned()),
        }
    }

    /// The text of the MIME type, "UNKNOWN" for a well-known identifier
    /// that is not listed.
    pub fn into_string(self) -> (r: String)
        ensures
            r@ == mime_text(self@),
    {
        match self {
            MimeType::Normal(s) => s,
            MimeType::WellKnown(n) => match name_of(n) {
                Some(v) => v.to_owned(),
                None => "UNKNOWN".to_owned(),
            },
        }
    }

    /// The text that displays the MIME type: its name.
    pub fn to_string(&self) -> (r: String)
        requires
            has_name(self@),
        ensures
            r@ == mime_text(self@),
    {
        self.clone().into_string()
    }
}

} // verus!
