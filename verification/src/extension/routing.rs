//! Routing metadata: a list of tags, each written as its length in one
//! byte followed by its UTF-8 bytes.

use crate::buffer::{
    bytes_mut_as_slice,
    bytes_mut_len, bytes_mut_to_vec, bytes_mut_view, extend_from_slice, get_u8, max_buffer_len,
    put_u8, split_to,
};
use crate::error::RSocketError;
use crate::text::{string_from_utf8, utf8_valid};
use crate::utils::Writeable;
use bytes::BytesMut;
use vstd::prelude::*;
use vstd::string::StringSliceAdditionalSpecFns;
use vstd::utf8::{
    decode_utf8, encode_utf8, encode_utf8_decode_utf8, encode_utf8_valid_utf8, valid_utf8,
};

verus! {

/// The longest tag, in bytes.
pub const MAX_ROUTING_TAG_LEN: usize = 0xFF;

/// Routing metadata: the tags, in order.
#[derive(Debug)]
pub struct RoutingMetadata {
    tags: Vec<String>,
}

/// Builds routing metadata tag by tag.
pub struct RoutingMetadataBuilder {
    inner: RoutingMetadata,
}

impl View for RoutingMetadata {
    type V = Seq<Seq<char>>;

    closed spec fn view(&self) -> Seq<Seq<char>> {
        self.tags@.map_values(|t: String| t@)
    }
}

impl View for RoutingMetadataBuilder {
    type V = Seq<Seq<char>>;

    closed spec fn view(&self) -> Seq<Seq<char>> {
        self.inner@
    }
}

/// Whether every tag fits its one-byte length.
pub open spec fn tags_fit(tags: Seq<Seq<char>>) -> bool {
    forall|i: int| 0 <= i < tags.len() ==> #[trigger] encode_utf8(tags[i]).len() <= MAX_ROUTING_TAG_LEN
}

/// The bytes of one tag: its length, then its UTF-8 bytes.
pub open spec fn tag_chunk(t: Seq<char>) -> Seq<u8> {
    seq![encode_utf8(t).len() as u8] + encode_utf8(t)
}

/// The encoding of the tags, one after the other.
pub open spec fn routing_encoding(tags: Seq<Seq<char>>) -> Seq<u8>
    decreases tags.len(),
{
    if tags.len() == 0 {
        Seq::empty()
    } else {
        tag_chunk(tags[0]) + routing_encoding(tags.skip(1))
    }
}

/// The tags that a buffer holds, read from its front: nothing when a tag
/// is cut short.
pub open spec fn decode_tags(b: Seq<u8>) -> Option<Seq<Seq<char>>>
    decreases b.len(),
{
    if b.len() == 0 {
        Some(Seq::empty())
    } else if b.len() - 1 < b[0] {
        None
    } else {
        match decode_tags(b.skip(1 + b[0])) {
            Some(rest) => Some(seq![decode_utf8(b.subrange(1, 1 + b[0]))] + rest),
            None => None,
        }
    }
}

/// Whether every tag that reading meets before a tag cut short is valid
/// UTF-8.
pub open spec fn tags_utf8(b: Seq<u8>) -> bool
    decreases b.len(),
{
    if b.len() == 0 {
        true
    } else if b.len() - 1 < b[0] {
        true
    } else {
        valid_utf8(b.subrange(1, 1 + b[0])) && tags_utf8(b.skip(1 + b[0]))
    }
}

/// What is left of a buffer after reading its tags: nothing when all are
/// whole; what follows the length of the tag cut short otherwise.
pub open spec fn tags_rest(b: Seq<u8>) -> Seq<u8>
    decreases b.len(),
{
    if b.len() == 0 {
        Seq::empty()
    } else if b.len() - 1 < b[0] {
        b.skip(1)
    } else {
        tags_rest(b.skip(1 + b[0]))
    }
}

/// The encoding of two runs of tags is the one's followed by the other's.
pub proof fn lemma_encoding_concat(a: Seq<Seq<char>>, b: Seq<Seq<char>>)
    ensures
        routing_encoding(a + b) == routing_encoding(a) + routing_encoding(b),
    decreases a.len(),
{
    if a.len() == 0 {
        assert(a + b =~= b);
    } else {
        assert((a + b).skip(1) =~= a.skip(1) + b);
        assert((a + b)[0] == a[0]);
        lemma_encoding_concat(a.skip(1), b);
        assert(tag_chunk(a[0]) + routing_encoding(a.skip(1)) + routing_encoding(b) =~= tag_chunk(
            a[0],
        ) + (routing_encoding(a.skip(1)) + routing_encoding(b)));
    }
}

/// The encoding of the first `i + 1` tags is that of the first `i`, then
/// the chunk of the next.
proof fn lemma_encoding_take(tags: Seq<Seq<char>>, i: int)
    requires
        0 <= i < tags.len(),
    ensures
        routing_encoding(tags.take(i + 1)) == routing_encoding(tags.take(i)) + tag_chunk(tags[i]),
        routing_encoding(tags.take(i + 1)).len() <= routing_encoding(tags).len(),
{
    lemma_encoding_concat(tags.take(i), seq![tags[i]]);
    assert(tags.take(i) + seq![tags[i]] =~= tags.take(i + 1));
    let one = seq![tags[i]];
    assert(one.skip(1) =~= Seq::<Seq<char>>::empty());
    assert(routing_encoding(one.skip(1)) == Seq::<u8>::empty());
    assert(routing_encoding(one) == tag_chunk(tags[i]) + routing_encoding(one.skip(1)));
    assert(tag_chunk(tags[i]) + Seq::<u8>::empty() =~= tag_chunk(tags[i]));
    lemma_encoding_concat(tags.take(i + 1), tags.skip(i + 1));
    assert(tags.take(i + 1) + tags.skip(i + 1) =~= tags);
}

/// Reading back the encoding of tags that fit gives the tags, meets only
/// valid UTF-8 and leaves nothing.
pub proof fn lemma_routing_roundtrip(tags: Seq<Seq<char>>)
    requires
        tags_fit(tags),
    ensures
        decode_tags(routing_encoding(tags)) == Some(tags),
        tags_utf8(routing_encoding(tags)),
        tags_rest(routing_encoding(tags)) == Seq::<u8>::empty(),
    decreases tags.len(),
{
    if tags.len() == 0 {
        assert(tags =~= Seq::<Seq<char>>::empty());
    } else {
        let t = tags[0];
        let rest = tags.skip(1);
        let bytes = encode_utf8(t);
        let b = routing_encoding(tags);
        assert(encode_utf8(tags[0]).len() <= MAX_ROUTING_TAG_LEN);
        assert(tags_fit(rest)) by {
            assert forall|i: int| 0 <= i < rest.len() implies #[trigger] encode_utf8(rest[i]).len()
                <= MAX_ROUTING_TAG_LEN by {
                assert(rest[i] == tags[i + 1]);
            }
        }
        lemma_routing_roundtrip(rest);
        let n = bytes.len();
        assert(b[0] == n as u8);
        assert(b[0] == n);
        assert(b.subrange(1, 1 + n as int) =~= bytes);
        assert(b.skip(1 + n as int) =~= routing_encoding(rest));
        encode_utf8_decode_utf8(t);
        encode_utf8_valid_utf8(t);
        assert(seq![t] + rest =~= tags);
    }
}

impl Clone for RoutingMetadata {
    fn clone(&self) -> (r: Self)
        ensures
            r@ == self@,
    {
        let mut tags: Vec<String> = Vec::new();
        let mut i: usize = 0;
        while i < self.tags.len()
            invariant
                i <= self.tags@.len(),
                tags@.map_values(|t: String| t@) == self@.take(i as int),
            decreases self.tags@.len() - i,
        {
            let ghost prev = tags@;
            let t = self.tags[i].clone();
            tags.push(t);
            assert(tags@ =~= prev.push(t));
            assert(tags@.map_values(|t: String| t@) =~= prev.map_values(|t: String| t@).push(t@));
            assert(self@.take(i as int + 1) =~= self@.take(i as int).push(self.tags@[i as int]@));
            i = i + 1;
        }
        assert(self@.take(i as int) =~= self@);
        RoutingMetadata { tags }
    }
}

impl RoutingMetadataBuilder {
    /// Adds a tag given as text.
    pub fn push_str(self, tag: &str) -> (r: Self)
        requires
            tags_fit(self@),
            tag.spec_bytes().len() <= MAX_ROUTING_TAG_LEN,
        ensures
            r@ == self@.push(tag@),
            tags_fit(r@),
    {
        self.push(tag.to_owned())
    }

    /// Adds a tag.
    pub fn push(self, tag: String) -> (r: Self)
        requires
            tags_fit(self@),
            encode_utf8(tag@).len() <= MAX_ROUTING_TAG_LEN,
        ensures
            r@ == self@.push(tag@),
            tags_fit(r@),
    {
        let mut this = self;
        let ghost before = this@;
        this.inner.tags.push(tag);
        proof {
            assert(this@ =~= before.push(tag@));
        }
        this
    }

    /// The routing metadata with the tags added so far.
    pub fn build(self) -> (r: RoutingMetadata)
        ensures
            r@ == self@,
    {
        self.inner
    }
}

impl RoutingMetadata {
    /// A builder with no tag yet.
    pub fn builder() -> (r: RoutingMetadataBuilder)
        ensures
            r@ == Seq::<Seq<char>>::empty(),
            tags_fit(r@),
    {
        let r = RoutingMetadataBuilder { inner: RoutingMetadata { tags: Vec::new() } };
        proof {
            assert(r@ =~= Seq::<Seq<char>>::empty());
        }
        r
    }

    /// The tags, in order.
    pub fn get_tags(&self) -> (r: &Vec<String>)
        ensures
            r@.map_values(|t: String| t@) == self@,
    {
        &self.tags
    }

    /// Reads the next tag: nothing when the buffer is empty, an error when
    /// the tag is cut short.
    fn decode_once(bf: &mut BytesMut) -> (r: Result<Option<String>, RSocketError>)
        requires
            tags_utf8(bytes_mut_view(*old(bf))),
        ensures
            ({
                let b = bytes_mut_view(*old(bf));
                match r {
                    Ok(None) => b.len() == 0 && bytes_mut_view(*final(bf)) == b,
                    Ok(Some(t)) => {
                        &&& b.len() > 0
                        &&& b.len() - 1 >= b[0]
                        &&& t@ == decode_utf8(b.subrange(1, 1 + b[0]))
                        &&& bytes_mut_view(*final(bf)) == b.skip(1 + b[0])
                    },
                    Err(e) => {
                        &&& b.len() > 0
                        &&& b.len() - 1 < b[0]
                        &&& bytes_mut_view(*final(bf)) == b.skip(1)
                        &&& e matches RSocketError::WithDescription(s)
                        &&& s@ == "require more bytes!"@
                    },
                }
            }),
    {
        let ghost b = bytes_mut_view(*bf);
        if bytes_mut_len(bf) == 0 {
            return Ok(None);
        }
        let size = get_u8(bf) as usize;
        if bytes_mut_len(bf) < size {
            return Err(RSocketError::WithDescription("require more bytes!".to_owned()));
        }
        let front = split_to(bf, size);
        proof {
            assert(bytes_mut_view(front) =~= b.subrange(1, 1 + b[0]));
            assert(b.skip(1).skip(size as int) =~= b.skip(1 + b[0]));
        }
        match string_from_utf8(bytes_mut_to_vec(&front)) {
            Some(tag) => Ok(Some(tag)),
            None => Err(RSocketError::WithDescription("require more bytes!".to_owned())),
        }
    }

    /// Reads all the tags of the buffer: an error when one is cut short,
    /// after which what follows its length is left in the buffer.
    pub fn decode(bf: &mut BytesMut) -> (r: Result<RoutingMetadata, RSocketError>)
        requires
            tags_utf8(bytes_mut_view(*old(bf))),
        ensures
            bytes_mut_view(*final(bf)) == tags_rest(bytes_mut_view(*old(bf))),
            r is Ok <==> decode_tags(bytes_mut_view(*old(bf))) is Some,
            r matches Ok(m) ==> decode_tags(bytes_mut_view(*old(bf))) == Some(m@) && tags_fit(m@),
            r matches Err(e) ==> (e matches RSocketError::WithDescription(s) && s@
                == "require more bytes!"@),
    {
        let ghost orig = bytes_mut_view(*bf);
        let mut tags: Vec<String> = Vec::new();
        loop
            invariant
                orig == bytes_mut_view(*old(bf)),
                tags_utf8(bytes_mut_view(*bf)),
                tags_rest(orig) == tags_rest(bytes_mut_view(*bf)),
                decode_tags(orig) == (match decode_tags(bytes_mut_view(*bf)) {
                    Some(rest) => Some(tags@.map_values(|t: String| t@) + rest),
                    None => None::<Seq<Seq<char>>>,
                }),
                tags_fit(tags@.map_values(|t: String| t@)),
            decreases bytes_mut_view(*bf).len(),
        {
            let ghost cur = bytes_mut_view(*bf);
            let ghost before = tags@.map_values(|t: String| t@);
            match Self::decode_once(bf) {
                Ok(Some(tag)) => {
                    proof {
                        let size = cur[0] as int;
                        assert(cur.subrange(1, 1 + size).len() == size);
                        encode_utf8_decode_utf8(tag@);
                        lemma_utf8_reencode(cur.subrange(1, 1 + size));
                    }
                    tags.push(tag);
                    proof {
                        let now = tags@.map_values(|t: String| t@);
                        assert(now =~= before.push(tag@));
                        assert forall|i: int| 0 <= i < now.len() implies #[trigger] encode_utf8(
                            now[i],
                        ).len() <= MAX_ROUTING_TAG_LEN by {
                            if i < before.len() {
                                assert(now[i] == before[i]);
                            }
                        }
                        match decode_tags(bytes_mut_view(*bf)) {
                            Some(rest) => {
                                assert(before + (seq![tag@] + rest) =~= now + rest);
                            },
                            None => {},
                        }
                    }
                },
                Ok(None) => {
                    proof {
                        assert(tags_rest(cur) == bytes_mut_view(*bf));
                        assert(decode_tags(cur) == Some(Seq::<Seq<char>>::empty()));
                        assert(tags@.map_values(|t: String| t@) + Seq::<Seq<char>>::empty()
                            =~= tags@.map_values(|t: String| t@));
                    }
                    return Ok(RoutingMetadata { tags });
                },
                Err(e) => {
                    proof {
                        assert(tags_rest(cur) == bytes_mut_view(*bf));
                        assert(decode_tags(cur) is None);
                    }
                    return Err(e);
                },
            }
        }
    }
}

/// Decoding and then encoding valid UTF-8 gives back the bytes.
proof fn lemma_utf8_reencode(b: Seq<u8>)
    requires
        valid_utf8(b),
    ensures
        encode_utf8(decode_utf8(b)) == b,
{
    vstd::utf8::decode_utf8_encode_utf8(b);
}

/// Whether `decode` takes the buffer: whether every tag that reading meets
/// before a tag cut short is valid UTF-8.
pub fn tags_readable(bf: &BytesMut) -> (r: bool)
    ensures
        r == tags_utf8(bytes_mut_view(*bf)),
{
    let s = bytes_mut_as_slice(bf);
    let mut pos: usize = 0;
    assert(s@.skip(0) =~= s@);
    loop
        invariant
            s@ == bytes_mut_view(*bf),
            pos <= s@.len(),
            tags_utf8(s@) == tags_utf8(s@.skip(pos as int)),
        decreases s@.len() - pos,
    {
        let ghost cur = s@.skip(pos as int);
        if pos == s.len() {
            return true;
        }
        let size = s[pos] as usize;
        assert(size == cur[0]);
        if s.len() - pos - 1 < size {
            return true;
        }
        let chunk = vstd::slice::slice_subrange(s, pos + 1, pos + 1 + size);
        assert(chunk@ =~= cur.subrange(1, 1 + cur[0]));
        if !utf8_valid(chunk) {
            return false;
        }
        assert(s@.skip(pos + 1 + size) =~= cur.skip(1 + cur[0]));
        pos = pos + 1 + size;
    }
}

impl Writeable for RoutingMetadata {
    open spec fn encoding(&self) -> Seq<u8> {
        routing_encoding(self@)
    }

    open spec fn writable(&self) -> bool {
        tags_fit(self@)
    }

    open spec fn encoded_len(&self) -> int {
        routing_encoding(self@).len() as int
    }

    fn write_to(&self, bf: &mut BytesMut) {
        let ghost tags = self@;
        let ghost start = bytes_mut_view(*bf);
        let mut i: usize = 0;
        proof {
            assert(tags.take(0) =~= Seq::<Seq<char>>::empty());
            assert(start + Seq::<u8>::empty() =~= start);
        }
        while i < self.tags.len()
            invariant
                tags == self@,
                tags.len() == self.tags@.len(),
                tags_fit(tags),
                i <= tags.len(),
                start.len() + routing_encoding(tags).len() <= max_buffer_len(),
                bytes_mut_view(*bf) == start + routing_encoding(tags.take(i as int)),
            decreases tags.len() - i,
        {
            let tag = self.tags[i].as_str();
            proof {
                assert(tags[i as int] == self.tags@[i as int]@);
                assert(encode_utf8(tags[i as int]).len() <= MAX_ROUTING_TAG_LEN);
                lemma_encoding_take(tags, i as int);
            }
            let bytes = tag.as_bytes();
            put_u8(bf, bytes.len() as u8);
            extend_from_slice(bf, bytes);
            proof {
                assert(start + routing_encoding(tags.take(i as int)) + tag_chunk(tags[i as int])
                    =~= start + routing_encoding(tags.take(i as int + 1)));
            }
            i = i + 1;
        }
        proof {
            assert(tags.take(i as int) =~= tags);
        }
    }

    fn len(&self) -> (n: usize) {
        let ghost tags = self@;
        let mut n: usize = 0;
        let mut i: usize = 0;
        proof {
            assert(tags.take(0) =~= Seq::<Seq<char>>::empty());
        }
        while i < self.tags.len()
            invariant
                tags == self@,
                tags.len() == self.tags@.len(),
                i <= tags.len(),
                routing_encoding(tags).len() <= usize::MAX,
                n == routing_encoding(tags.take(i as int)).len(),
            decreases tags.len() - i,
        {
            proof {
                assert(tags[i as int] == self.tags@[i as int]@);
                lemma_encoding_take(tags, i as int);
            }
            n = n + 1 + self.tags[i].as_str().len();
            i = i + 1;
        }
        proof {
            assert(tags.take(i as int) =~= tags);
        }
        n
    }
}

} // verus!
