//! Composite metadata: a list of entries, each a MIME type with the
//! metadata of that type. An entry is written as its MIME type (one byte
//! for a well-known one, else its length less one and its text), then the
//! length of its metadata in three bytes, then the metadata.

use super::mime::{well_known_name, MimeType, MimeView};
use crate::buffer::{
    bytes_mut_as_slice,
    bytes_clone, bytes_len, bytes_mut_len, bytes_mut_new, bytes_mut_to_vec, bytes_mut_view,
    bytes_to_str, bytes_view, extend_from_bytes, extend_from_slice, freeze, get_u8, max_buffer_len,
    put_u8, split_to, bytes_copy_from_slice,
};
use crate::endian::{be24, be24_value, lemma_be24_roundtrip, lemma_be_values_prefix};
use crate::error::RSocketError;
use crate::text::{digits, message_with_number, string_from_utf8, utf8_valid};
use crate::utils::{u24, Writeable};
use bytes::{Bytes, BytesMut};
use vstd::prelude::*;
use vstd::utf8::{
    decode_utf8, encode_utf8, encode_utf8_decode_utf8, encode_utf8_valid_utf8, valid_utf8,
};

verus! {

/// The longest text of a MIME type that is not well known, in bytes.
pub const MAX_MIME_LEN: usize = 0x7F + 1;

/// The largest metadata of an entry, in bytes: its length takes 24 bits.
pub const MAX_ENTRY_METADATA: usize = 0xFF_FFFF;

/// One entry: a MIME type and the metadata of that type.
#[derive(Debug, PartialEq, Eq)]
pub struct CompositeMetadataEntry {
    mime_type: MimeType,
    metadata: Bytes,
}

/// Composite metadata: its entries, in order.
#[derive(Debug, PartialEq, Eq)]
pub struct CompositeMetadata {
    metadatas: Vec<CompositeMetadataEntry>,
}

/// Builds composite metadata entry by entry.
pub struct CompositeMetadataBuilder {
    inner: CompositeMetadata,
}

/// What an entry holds: its MIME type and its metadata.
pub struct EntryView {
    pub mime: MimeView,
    pub metadata: Seq<u8>,
}

impl View for CompositeMetadataEntry {
    type V = EntryView;

    closed spec fn view(&self) -> EntryView {
        EntryView { mime: self.mime_type@, metadata: bytes_view(self.metadata) }
    }
}

/// The views of a sequence of entries.
pub open spec fn entry_views(es: Seq<CompositeMetadataEntry>) -> Seq<EntryView> {
    es.map_values(|e: CompositeMetadataEntry| e@)
}

impl View for CompositeMetadata {
    type V = Seq<EntryView>;

    closed spec fn view(&self) -> Seq<EntryView> {
        entry_views(self.metadatas@)
    }
}

impl View for CompositeMetadataBuilder {
    type V = Seq<EntryView>;

    closed spec fn view(&self) -> Seq<EntryView> {
        self.inner@
    }
}

/// Whether the metadata of an entry fits its three-byte length.
pub open spec fn entry_fits(e: EntryView) -> bool {
    e.metadata.len() <= MAX_ENTRY_METADATA
}

/// Whether an entry can be written: it fits, and the text of a MIME type
/// that is not well known has a length whose lowest byte is not zero.
pub open spec fn entry_writable(e: EntryView) -> bool {
    &&& entry_fits(e)
    &&& e.mime matches MimeView::Normal(s) ==> (encode_utf8(s).len() as u8) > 0
}

/// Whether every entry can be written.
pub open spec fn entries_writable(es: Seq<EntryView>) -> bool {
    forall|i: int| 0 <= i < es.len() ==> #[trigger] entry_writable(es[i])
}

/// The bytes that write a MIME type: `0x80 | n` for a well-known one, else
/// the lowest byte of its length less one, then its text.
pub open spec fn mime_header(m: MimeView) -> Seq<u8> {
    match m {
        MimeView::WellKnown(n) => seq![0x80u8 | n],
        MimeView::Normal(s) => seq![((encode_utf8(s).len() as u8) - 1) as u8] + encode_utf8(s),
    }
}

/// The bytes that write an entry.
pub open spec fn entry_encoding(e: EntryView) -> Seq<u8> {
    mime_header(e.mime) + be24(e.metadata.len() as u32) + e.metadata
}

/// The bytes that write the entries, one after the other.
pub open spec fn composite_encoding(es: Seq<EntryView>) -> Seq<u8>
    decreases es.len(),
{
    if es.len() == 0 {
        Seq::empty()
    } else {
        entry_encoding(es[0]) + composite_encoding(es.skip(1))
    }
}

/// The number that `len` reports for an entry: four, the text of a MIME
/// type that is not well known, and the metadata.
pub open spec fn entry_len(e: EntryView) -> int {
    4 + (match e.mime {
        MimeView::Normal(s) => encode_utf8(s).len() as int,
        MimeView::WellKnown(_) => 0int,
    }) + e.metadata.len()
}

/// The number that `len` reports for entries.
pub open spec fn composite_len(es: Seq<EntryView>) -> int
    decreases es.len(),
{
    if es.len() == 0 {
        0
    } else {
        entry_len(es[0]) + composite_len(es.skip(1))
    }
}

/// What reading one entry from the front of a buffer gives.
pub enum EntryStep {
    /// The buffer is empty.
    Done,
    /// An entry, and what follows it.
    Entry(EntryView, Seq<u8>),
    /// An error with its message, and what is left in the buffer.
    Fail(Seq<char>, Seq<u8>),
}

/// Reads the length and the metadata of an entry of MIME type `mime`.
pub open spec fn decode_body(mime: MimeView, b: Seq<u8>) -> EntryStep {
    if b.len() < 3 {
        EntryStep::Fail("broken composite metadata: not enough bytes!"@, b)
    } else {
        let size = be24_value(b);
        let c = b.skip(3);
        if c.len() < size {
            EntryStep::Fail(
                "broken composite metadata: require "@ + digits(size as nat, 10) + " bytes!"@,
                c,
            )
        } else {
            EntryStep::Entry(EntryView { mime, metadata: c.take(size as int) }, c.skip(size as int))
        }
    }
}

/// Reads one entry from the front of `b`.
pub open spec fn decode_entry(b: Seq<u8>) -> EntryStep {
    if b.len() == 0 {
        EntryStep::Done
    } else {
        let first = b[0];
        let after = b.skip(1);
        if first >= 0x80 {
            let n = (first - 0x80) as u8;
            if well_known_name(n) is None {
                EntryStep::Fail(
                    "invalid Well-Known MIME type: identifier="@ + digits(n as nat, 16),
                    after,
                )
            } else {
                decode_body(MimeView::WellKnown(n), after)
            }
        } else {
            let mime_len = first + 1;
            if after.len() < mime_len {
                EntryStep::Fail("broken composite metadata: empty MIME type!"@, after)
            } else {
                decode_body(
                    MimeView::Normal(decode_utf8(after.take(mime_len))),
                    after.skip(mime_len),
                )
            }
        }
    }
}

/// Whether the text of a MIME type that is not well known, met when
/// reading one entry from the front of `b`, is valid UTF-8.
pub open spec fn entry_utf8(b: Seq<u8>) -> bool {
    (b.len() > 0 && b[0] < 0x80 && b.len() - 1 >= b[0] + 1) ==> valid_utf8(
        b.skip(1).take(b[0] + 1),
    )
}

/// Reading an entry consumes at least four bytes.
pub proof fn lemma_entry_shrinks(b: Seq<u8>)
    ensures
        decode_entry(b) matches EntryStep::Entry(_, r) ==> r.len() + 4 <= b.len(),
{
}

/// What reading entries from the front of `b` gives: all the entries, or
/// the message of the first error; and what is left in the buffer.
pub open spec fn decode_entries(b: Seq<u8>) -> (Result<Seq<EntryView>, Seq<char>>, Seq<u8>)
    decreases b.len(),
{
    match decode_entry(b) {
        EntryStep::Done => (Ok(Seq::empty()), b),
        EntryStep::Fail(m, r) => (Err(m), r),
        EntryStep::Entry(e, r) => {
            proof {
                lemma_entry_shrinks(b);
            }
            let (res, left) = decode_entries(r);
            (
                match res {
                    Ok(es) => Ok(seq![e] + es),
                    Err(m) => Err(m),
                },
                left,
            )
        },
    }
}

/// Whether every text of a MIME type that is not well known, met when
/// reading entries from the front of `b`, is valid UTF-8.
pub open spec fn entries_utf8(b: Seq<u8>) -> bool
    decreases b.len(),
{
    &&& entry_utf8(b)
    &&& match decode_entry(b) {
        EntryStep::Entry(_, r) => {
            proof {
                lemma_entry_shrinks(b);
            }
            entries_utf8(r)
        },
        _ => true,
    }
}

/// Whether an entry reads back as itself: a well-known MIME type is
/// listed; the text of another takes one to `MAX_MIME_LEN` bytes; the
/// metadata fits.
pub open spec fn entry_readable(e: EntryView) -> bool {
    &&& entry_fits(e)
    &&& match e.mime {
        MimeView::WellKnown(n) => well_known_name(n) is Some,
        MimeView::Normal(s) => 1 <= encode_utf8(s).len() <= MAX_MIME_LEN,
    }
}

/// Every listed identifier is below 0x80.
pub proof fn lemma_listed_below_0x80(n: u8)
    requires
        well_known_name(n) is Some,
    ensures
        n < 0x80,
{
    lemma_name_among_listed(n, super::mime::WELL_KNOWN_COUNT as nat);
}

/// An identifier that the first `k` entries name is one of theirs.
proof fn lemma_name_among_listed(n: u8, k: nat)
    requires
        super::mime::name_among(n, k) is Some,
    ensures
        n < 0x80,
    decreases k,
{
    if k > 0 && super::mime::mime_entry(k - 1).0 != n {
        lemma_name_among_listed(n, (k - 1) as nat);
    }
}

/// An entry that reads back as itself does so whatever follows it, and
/// the text of its MIME type is valid UTF-8.
pub proof fn lemma_entry_roundtrip(e: EntryView, rest: Seq<u8>)
    requires
        entry_readable(e),
    ensures
        decode_entry(entry_encoding(e) + rest) == EntryStep::Entry(e, rest),
        entry_utf8(entry_encoding(e) + rest),
{
    let b = entry_encoding(e) + rest;
    let len = e.metadata.len();
    let tail = be24(len as u32) + e.metadata + rest;
    lemma_be24_roundtrip(len as u32);
    lemma_be_values_prefix(be24(len as u32), e.metadata + rest);
    assert(be24(len as u32) + e.metadata + rest =~= be24(len as u32) + (e.metadata + rest));
    assert(tail.skip(3) =~= e.metadata + rest);
    assert((e.metadata + rest).take(len as int) =~= e.metadata);
    assert((e.metadata + rest).skip(len as int) =~= rest);
    assert(decode_body(e.mime, tail) == EntryStep::Entry(e, rest));
    match e.mime {
        MimeView::WellKnown(n) => {
            lemma_listed_below_0x80(n);
            assert(0x80u8 | n == 0x80 + n) by (bit_vector)
                requires
                    n < 0x80,
            ;
            assert(b =~= seq![0x80u8 | n] + tail);
            assert(b[0] == 0x80 + n);
            assert(b.skip(1) =~= tail);
        },
        MimeView::Normal(t) => {
            let bytes = encode_utf8(t);
            let l = bytes.len();
            assert((l as u8) == l);
            assert(b =~= seq![(l - 1) as u8] + (bytes + tail));
            assert(b[0] == l - 1);
            assert(b.skip(1) =~= bytes + tail);
            assert((bytes + tail).take(l as int) =~= bytes);
            assert((bytes + tail).skip(l as int) =~= tail);
            encode_utf8_decode_utf8(t);
            encode_utf8_valid_utf8(t);
        },
    }
}

/// The encoding of two runs of entries is the one's followed by the
/// other's.
pub proof fn lemma_composite_concat(a: Seq<EntryView>, b: Seq<EntryView>)
    ensures
        composite_encoding(a + b) == composite_encoding(a) + composite_encoding(b),
        composite_len(a + b) == composite_len(a) + composite_len(b),
    decreases a.len(),
{
    if a.len() == 0 {
        assert(a + b =~= b);
    } else {
        assert((a + b).skip(1) =~= a.skip(1) + b);
        assert((a + b)[0] == a[0]);
        lemma_composite_concat(a.skip(1), b);
        assert(entry_encoding(a[0]) + composite_encoding(a.skip(1)) + composite_encoding(b)
            =~= entry_encoding(a[0]) + (composite_encoding(a.skip(1)) + composite_encoding(b)));
    }
}

/// The encoding and the length of the first `i + 1` entries are those of
/// the first `i`, then those of the next.
proof fn lemma_composite_take(es: Seq<EntryView>, i: int)
    requires
        0 <= i < es.len(),
    ensures
        composite_encoding(es.take(i + 1)) == composite_encoding(es.take(i)) + entry_encoding(es[i]),
        composite_encoding(es.take(i + 1)).len() <= composite_encoding(es).len(),
        composite_len(es.take(i + 1)) == composite_len(es.take(i)) + entry_len(es[i]),
{
    let one = seq![es[i]];
    lemma_composite_concat(es.take(i), one);
    assert(es.take(i) + one =~= es.take(i + 1));
    assert(one.skip(1) =~= Seq::<EntryView>::empty());
    assert(composite_encoding(one.skip(1)) == Seq::<u8>::empty());
    assert(composite_encoding(one) == entry_encoding(es[i]) + composite_encoding(one.skip(1)));
    assert(entry_encoding(es[i]) + Seq::<u8>::empty() =~= entry_encoding(es[i]));
    assert(composite_len(one) == entry_len(es[i]) + composite_len(one.skip(1)));
    lemma_composite_concat(es.take(i + 1), es.skip(i + 1));
    assert(es.take(i + 1) + es.skip(i + 1) =~= es);
}

/// The length that `len` reports is the number of bytes that write the
/// entries.
pub proof fn lemma_composite_len_matches(es: Seq<EntryView>)
    ensures
        composite_len(es) == composite_encoding(es).len(),
    decreases es.len(),
{
    if es.len() > 0 {
        lemma_composite_len_matches(es.skip(1));
        assert(be24(es[0].metadata.len() as u32).len() == 3);
    }
}

/// Reading back the encoding of entries that read back as themselves
/// gives the entries, meets only valid UTF-8 and leaves nothing.
pub proof fn lemma_composite_roundtrip(es: Seq<EntryView>)
    requires
        forall|i: int| 0 <= i < es.len() ==> #[trigger] entry_readable(es[i]),
    ensures
        decode_entries(composite_encoding(es)) == (
            Ok::<Seq<EntryView>, Seq<char>>(es),
            Seq::<u8>::empty(),
        ),
        entries_utf8(composite_encoding(es)),
    decreases es.len(),
{
    if es.len() == 0 {
        assert(es =~= Seq::<EntryView>::empty());
    } else {
        let rest = es.skip(1);
        assert forall|i: int| 0 <= i < rest.len() implies #[trigger] entry_readable(rest[i]) by {
            assert(rest[i] == es[i + 1]);
        }
        assert(entry_readable(es[0]));
        lemma_composite_roundtrip(rest);
        lemma_entry_roundtrip(es[0], composite_encoding(rest));
        assert(seq![es[0]] + rest =~= es);
    }
}

impl CompositeMetadataEntry {
    /// An entry of MIME type `mime_type` with `metadata`.
    pub fn new(mime_type: MimeType, metadata: Bytes) -> (r: CompositeMetadataEntry)
        requires
            bytes_view(metadata).len() <= MAX_ENTRY_METADATA,
        ensures
            r@ == (EntryView { mime: mime_type@, metadata: bytes_view(metadata) }),
    {
        CompositeMetadataEntry { mime_type, metadata }
    }

    /// The MIME type.
    pub fn get_mime_type(&self) -> (r: &MimeType)
        ensures
            r@ == self@.mime,
    {
        &self.mime_type
    }

    /// The metadata.
    pub fn get_metadata(&self) -> (r: &Bytes)
        ensures
            bytes_view(*r) == self@.metadata,
    {
        &self.metadata
    }

    /// The metadata as text, when it is valid UTF-8.
    pub fn get_metadata_utf8(&self) -> (r: Option<&str>)
        ensures
            r is Some <==> valid_utf8(self@.metadata),
            r matches Some(t) ==> t@ == decode_utf8(self@.metadata),
    {
        bytes_to_str(&self.metadata)
    }
}

impl Clone for CompositeMetadataEntry {
    fn clone(&self) -> (r: Self)
        ensures
            r@ == self@,
    {
        CompositeMetadataEntry { mime_type: self.mime_type.clone(), metadata: bytes_clone(&self.metadata) }
    }
}

impl Writeable for CompositeMetadataEntry {
    open spec fn encoding(&self) -> Seq<u8> {
        entry_encoding(self@)
    }

    open spec fn writable(&self) -> bool {
        entry_writable(self@)
    }

    open spec fn encoded_len(&self) -> int {
        entry_len(self@)
    }

    fn write_to(&self, bf: &mut BytesMut) {
        let ghost start = bytes_mut_view(*bf);
        match &self.mime_type {
            MimeType::WellKnown(n) => {
                put_u8(bf, 0x80 | *n);
            },
            MimeType::Normal(s) => {
                let text = s.as_str().as_bytes();
                let mime_type_len = text.len() as u8;
                put_u8(bf, mime_type_len - 1);
                extend_from_slice(bf, text);
            },
        }
        assert(bytes_mut_view(*bf) =~= start + mime_header(self@.mime));
        let metadata_len = bytes_len(&self.metadata);
        u24::from_usize(metadata_len).write_to(bf);
        if metadata_len > 0 {
            extend_from_bytes(bf, &self.metadata);
        }
        assert(bytes_mut_view(*bf) =~= start + entry_encoding(self@));
    }

    fn len(&self) -> (n: usize) {
        let mut amount: usize = 4;
        if let MimeType::Normal(s) = &self.mime_type {
            amount = amount + s.as_str().len();
        }
        amount + bytes_len(&self.metadata)
    }
}

impl CompositeMetadataBuilder {
    /// Adds an entry of MIME type `mime_type` with a copy of `payload`.
    pub fn push(self, mime_type: MimeType, payload: &[u8]) -> (r: Self)
        requires
            payload@.len() <= MAX_ENTRY_METADATA,
        ensures
            r@ == self@.push(EntryView { mime: mime_type@, metadata: payload@ }),
    {
        let m = CompositeMetadataEntry::new(mime_type, bytes_copy_from_slice(payload));
        self.push_entry(m)
    }

    /// Adds an entry.
    pub fn push_entry(self, metadata: CompositeMetadataEntry) -> (r: Self)
        ensures
            r@ == self@.push(metadata@),
    {
        let mut this = self;
        this.inner.push(metadata);
        this
    }

    /// The composite metadata with the entries added so far.
    pub fn build(self) -> (r: CompositeMetadata)
        ensures
            r@ == self@,
    {
        self.inner
    }
}

impl Default for CompositeMetadata {
    fn default() -> (r: Self)
        ensures
            r@ == Seq::<EntryView>::empty(),
    {
        let r = CompositeMetadata { metadatas: Vec::new() };
        assert(r@ =~= Seq::<EntryView>::empty());
        r
    }
}

impl Clone for CompositeMetadata {
    fn clone(&self) -> (r: Self)
        ensures
            r@ == self@,
    {
        let mut out: Vec<CompositeMetadataEntry> = Vec::new();
        let mut i: usize = 0;
        while i < self.metadatas.len()
            invariant
                i <= self.metadatas@.len(),
                entry_views(out@) == entry_views(self.metadatas@).take(i as int),
            decreases self.metadatas@.len() - i,
        {
            let ghost prev = out@;
            let e = self.metadatas[i].clone();
            assert(e@ == self.metadatas@[i as int]@);
            out.push(e);
            assert(out@ =~= prev.push(e));
            assert(entry_views(out@) =~= entry_views(prev).push(e@));
            assert(entry_views(out@) =~= entry_views(self.metadatas@).take(i as int + 1));
            i = i + 1;
        }
        assert(entry_views(self.metadatas@).take(i as int) =~= entry_views(self.metadatas@));
        CompositeMetadata { metadatas: out }
    }
}

impl CompositeMetadata {
    /// A builder with no entry yet.
    pub fn builder() -> (r: CompositeMetadataBuilder)
        ensures
            r@ == Seq::<EntryView>::empty(),
    {
        CompositeMetadataBuilder { inner: CompositeMetadata::default() }
    }

    /// The entries, in order.
    pub fn iter(&self) -> (r: &[CompositeMetadataEntry])
        ensures
            entry_views(r@) == self@,
    {
        self.metadatas.as_slice()
    }

    /// Adds an entry at the end.
    pub fn push(&mut self, metadata: CompositeMetadataEntry)
        ensures
            final(self)@ == old(self)@.push(metadata@),
    {
        let ghost before = self@;
        self.metadatas.push(metadata);
        assert(self@ =~= before.push(metadata@));
    }

    /// Reads the next entry: nothing when the buffer is empty, an error
    /// with its message when the entry is broken.
    fn decode_once(bs: &mut BytesMut) -> (r: Result<Option<CompositeMetadataEntry>, RSocketError>)
        requires
            entry_utf8(bytes_mut_view(*old(bs))),
        ensures
            match decode_entry(bytes_mut_view(*old(bs))) {
                EntryStep::Done => r matches Ok(None) && bytes_mut_view(*final(bs)) == bytes_mut_view(
                    *old(bs),
                ),
                EntryStep::Entry(e, rest) => r matches Ok(Some(x)) && x@ == e && bytes_mut_view(
                    *final(bs),
                ) == rest,
                EntryStep::Fail(m, rest) => r matches Err(RSocketError::WithDescription(s)) && s@
                    == m && bytes_mut_view(*final(bs)) == rest,
            },
    {
        let ghost b = bytes_mut_view(*bs);
        if bytes_mut_len(bs) == 0 {
            return Ok(None);
        }
        let first: u8 = get_u8(bs);
        let mime_type = if 0x80 & first != 0 {
            let n: u8 = first & 0x7F;
            assert(0x80u8 & first != 0 <==> first >= 0x80) by (bit_vector);
            assert(first >= 0x80 ==> first & 0x7F == first - 0x80) by (bit_vector);
            match MimeType::parse(n) {
                Some(well) => well,
                None => {
                    let msg = message_with_number(
                        "invalid Well-Known MIME type: identifier=",
                        n as u64,
                        16,
                        "",
                    );
                    proof {
                        assert(msg@ =~= "invalid Well-Known MIME type: identifier="@ + digits(
                            n as nat,
                            16,
                        )) by {
                            reveal_strlit("");
                        }
                    }
                    return Err(RSocketError::WithDescription(msg));
                },
            }
        } else {
            assert(0x80u8 & first == 0 <==> first < 0x80) by (bit_vector);
            let mime_len = (first as usize) + 1;
            if bytes_mut_len(bs) < mime_len {
                return Err(
                    RSocketError::WithDescription(
                        "broken composite metadata: empty MIME type!".to_owned(),
                    ),
                );
            }
            let front = split_to(bs, mime_len);
            match string_from_utf8(bytes_mut_to_vec(&front)) {
                Some(text) => MimeType::Normal(text),
                None => {
                    return Err(
                        RSocketError::WithDescription(
                            "broken composite metadata: empty MIME type!".to_owned(),
                        ),
                    );
                },
            }
        };
        if bytes_mut_len(bs) < 3 {
            return Err(
                RSocketError::WithDescription(
                    "broken composite metadata: not enough bytes!".to_owned(),
                ),
            );
        }
        let payload_size = u24::read_advance(bs).as_usize();
        if bytes_mut_len(bs) < payload_size {
            let desc = message_with_number(
                "broken composite metadata: require ",
                payload_size as u64,
                10,
                " bytes!",
            );
            return Err(RSocketError::WithDescription(desc));
        }
        let metadata = freeze(split_to(bs, payload_size));
        Ok(Some(CompositeMetadataEntry::new(mime_type, metadata)))
    }

    /// Reads all the entries of the buffer: the first error stops it, with
    /// what follows the broken part left in the buffer.
    pub fn decode(b: &mut BytesMut) -> (r: Result<CompositeMetadata, RSocketError>)
        requires
            entries_utf8(bytes_mut_view(*old(b))),
        ensures
            bytes_mut_view(*final(b)) == decode_entries(bytes_mut_view(*old(b))).1,
            match decode_entries(bytes_mut_view(*old(b))).0 {
                Ok(es) => r matches Ok(m) && m@ == es,
                Err(msg) => r matches Err(RSocketError::WithDescription(s)) && s@ == msg,
            },
    {
        let ghost orig = bytes_mut_view(*b);
        let mut metadatas: Vec<CompositeMetadataEntry> = Vec::new();
        loop
            invariant
                orig == bytes_mut_view(*old(b)),
                entries_utf8(bytes_mut_view(*b)),
                decode_entries(orig).1 == decode_entries(bytes_mut_view(*b)).1,
                decode_entries(orig).0 == (match decode_entries(bytes_mut_view(*b)).0 {
                    Ok(es) => Ok(entry_views(metadatas@) + es),
                    Err(m) => Err::<Seq<EntryView>, Seq<char>>(m),
                }),
            decreases bytes_mut_view(*b).len(),
        {
            let ghost cur = bytes_mut_view(*b);
            let ghost before = entry_views(metadatas@);
            proof {
                lemma_entry_shrinks(cur);
            }
            match Self::decode_once(b) {
                Ok(Some(v)) => {
                    metadatas.push(v);
                    proof {
                        assert(entry_views(metadatas@) =~= before.push(v@));
                        match decode_entries(bytes_mut_view(*b)).0 {
                            Ok(es) => {
                                assert(before + (seq![v@] + es) =~= entry_views(metadatas@) + es);
                            },
                            Err(_) => {},
                        }
                    }
                },
                Ok(None) => {
                    proof {
                        assert(entry_views(metadatas@) + Seq::<EntryView>::empty() =~= entry_views(
                            metadatas@,
                        ));
                    }
                    return Ok(CompositeMetadata { metadatas });
                },
                Err(e) => {
                    return Err(e);
                },
            }
        }
    }

    /// The encoding as a vector.
    pub fn into_vec(self) -> (r: Vec<u8>)
        requires
            entries_writable(self@),
            composite_encoding(self@).len() <= max_buffer_len(),
        ensures
            r@ == composite_encoding(self@),
    {
        self.bytes()
    }

    /// The encoding as a `Bytes`.
    pub fn into_bytes(self) -> (r: Bytes)
        requires
            entries_writable(self@),
            composite_encoding(self@).len() <= max_buffer_len(),
        ensures
            bytes_view(r) == composite_encoding(self@),
    {
        freeze(self.into_bytes_mut())
    }

    /// The encoding as a `BytesMut`.
    pub fn into_bytes_mut(self) -> (r: BytesMut)
        requires
            entries_writable(self@),
            composite_encoding(self@).len() <= max_buffer_len(),
        ensures
            bytes_mut_view(r) == composite_encoding(self@),
    {
        let mut bf = bytes_mut_new();
        self.write_to(&mut bf);
        assert(bytes_mut_view(bf) =~= composite_encoding(self@));
        bf
    }
}

impl Writeable for CompositeMetadata {
    open spec fn encoding(&self) -> Seq<u8> {
        composite_encoding(self@)
    }

    open spec fn writable(&self) -> bool {
        entries_writable(self@)
    }

    open spec fn encoded_len(&self) -> int {
        composite_len(self@)
    }

    fn write_to(&self, bf: &mut BytesMut) {
        let ghost es = self@;
        let ghost start = bytes_mut_view(*bf);
        let mut i: usize = 0;
        proof {
            assert(es.take(0) =~= Seq::<EntryView>::empty());
            assert(start + Seq::<u8>::empty() =~= start);
        }
        while i < self.metadatas.len()
            invariant
                es == self@,
                es.len() == self.metadatas@.len(),
                entries_writable(es),
                i <= es.len(),
                start.len() + composite_encoding(es).len() <= max_buffer_len(),
                bytes_mut_view(*bf) == start + composite_encoding(es.take(i as int)),
            decreases es.len() - i,
        {
            proof {
                assert(es[i as int] == self.metadatas@[i as int]@);
                assert(entry_writable(es[i as int]));
                lemma_composite_take(es, i as int);
            }
            self.metadatas[i].write_to(bf);
            proof {
                assert(start + composite_encoding(es.take(i as int)) + entry_encoding(es[i as int])
                    =~= start + composite_encoding(es.take(i as int + 1)));
            }
            i = i + 1;
        }
        proof {
            assert(es.take(i as int) =~= es);
        }
    }

    fn len(&self) -> (n: usize) {
        let ghost es = self@;
        let mut n: usize = 0;
        let mut i: usize = 0;
        proof {
            assert(es.take(0) =~= Seq::<EntryView>::empty());
        }
        while i < self.metadatas.len()
            invariant
                es == self@,
                es.len() == self.metadatas@.len(),
                i <= es.len(),
                composite_len(es) <= usize::MAX,
                n == composite_len(es.take(i as int)),
            decreases es.len() - i,
        {
            proof {
                assert(es[i as int] == self.metadatas@[i as int]@);
                lemma_composite_take(es, i as int);
                lemma_composite_len_prefix(es, i as int + 1);
            }
            n = n + self.metadatas[i].len();
            i = i + 1;
        }
        proof {
            assert(es.take(i as int) =~= es);
        }
        n
    }
}

/// The length that `len` reports for a prefix of the entries is at most
/// that of all of them.
proof fn lemma_composite_len_prefix(es: Seq<EntryView>, k: int)
    requires
        0 <= k <= es.len(),
    ensures
        composite_len(es.take(k)) <= composite_len(es),
{
    lemma_composite_concat(es.take(k), es.skip(k));
    assert(es.take(k) + es.skip(k) =~= es);
    lemma_composite_len_nonneg(es.skip(k));
}

/// The length that `len` reports is never negative.
proof fn lemma_composite_len_nonneg(es: Seq<EntryView>)
    ensures
        composite_len(es) >= 0,
    decreases es.len(),
{
    if es.len() > 0 {
        lemma_composite_len_nonneg(es.skip(1));
    }
}

/// Whether `decode` takes the buffer: whether every text of a MIME type
/// that is not well known, met when reading entries up to the first error,
/// is valid UTF-8.
pub fn entries_readable(bf: &BytesMut) -> (r: bool)
    ensures
        r == entries_utf8(bytes_mut_view(*bf)),
{
    let s = bytes_mut_as_slice(bf);
    let mut pos: usize = 0;
    assert(s@.skip(0) =~= s@);
    loop
        invariant
            s@ == bytes_mut_view(*bf),
            pos <= s@.len(),
            entries_utf8(s@) == entries_utf8(s@.skip(pos as int)),
        decreases s@.len() - pos,
    {
        let ghost cur = s@.skip(pos as int);
        if pos == s.len() {
            return true;
        }
        let first = s[pos];
        assert(first == cur[0]);
        let after: usize;
        if first >= 0x80 {
            assert(cur.len() > 0 && cur[0] >= 0x80);
            if MimeType::parse(first - 0x80).is_none() {
                return true;
            }
            after = pos + 1;
            assert(s@.skip(after as int) =~= cur.skip(1));
        } else {
            let mime_len = (first as usize) + 1;
            if s.len() - pos - 1 < mime_len {
                return true;
            }
            let text = vstd::slice::slice_subrange(s, pos + 1, pos + 1 + mime_len);
            assert(text@ =~= cur.skip(1).take(cur[0] + 1));
            if !utf8_valid(text) {
                return false;
            }
            after = pos + 1 + mime_len;
            assert(s@.skip(after as int) =~= cur.skip(1).skip(mime_len as int));
        }
        let ghost b = s@.skip(after as int);
        if s.len() - after < 3 {
            return true;
        }
        let size: usize = (s[after] as usize) * 0x10000 + (s[after + 1] as usize) * 0x100
            + s[after + 2] as usize;
        assert(size == be24_value(b));
        if s.len() - after - 3 < size {
            return true;
        }
        pos = after + 3 + size;
        assert(s@.skip(pos as int) =~= b.skip(3).skip(size as int));
        assert(decode_entry(cur) matches EntryStep::Entry(_, rest) && rest == s@.skip(pos as int));
    }
}

} // verus!
