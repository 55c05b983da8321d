use vstd::prelude::*;
use vstd::string::*;
use vstd::utf8::*;
use crate::bytes::append_bytes;

verus! {

struct MultipartPart {
    name: String,
    bytes: Vec<u8>,
}

/// A `multipart/form-data` request body with its headers.
pub struct Multipart {
    pub body: Vec<u8>,
    pub content_length: usize,
    pub content_type: String,
}

/// Collects named byte parts and frames them as a `multipart/form-data` body.
pub struct MultipartBuilder {
    parts: Vec<MultipartPart>,
}

/// The framing of one part: boundary line, content disposition with the
/// part's name, content type, blank line, the bytes, and a line break.
pub open spec fn part_encoding(name: Seq<char>, bytes: Seq<u8>) -> Seq<u8> {
    encode_utf8("--MULTIPARTBINARY"@) + encode_utf8("\r\n"@)
        + encode_utf8("Content-Disposition: form-data; name=\""@) + encode_utf8(name)
        + encode_utf8("\""@) + encode_utf8("\r\n"@)
        + encode_utf8("Content-Type: application/octet-stream"@) + encode_utf8("\r\n"@)
        + encode_utf8("\r\n"@) + bytes + encode_utf8("\r\n"@)
}

/// The framing of a sequence of parts, in order.
pub open spec fn parts_encoding(parts: Seq<(Seq<char>, Seq<u8>)>) -> Seq<u8>
    decreases parts.len(),
{
    if parts.len() == 0 {
        seq![]
    } else {
        parts_encoding(parts.drop_last()) + part_encoding(parts.last().0, parts.last().1)
    }
}

/// The whole body: every part framed in order, then the closing boundary.
pub open spec fn multipart_body(parts: Seq<(Seq<char>, Seq<u8>)>) -> Seq<u8> {
    parts_encoding(parts) + encode_utf8("--MULTIPARTBINARY--"@)
}

/// Appends the framing of one part to the body.
fn append_part(body: &mut Vec<u8>, name: &str, bytes: &[u8])
    ensures
        final(body)@ == old(body)@ + part_encoding(name@, bytes@),
{
    let ghost start = body@;
    let newline = "\r\n".as_bytes();
    append_bytes(body, "--MULTIPARTBINARY".as_bytes());
    append_bytes(body, newline);
    append_bytes(body, "Content-Disposition: form-data; name=\"".as_bytes());
    append_bytes(body, name.as_bytes());
    append_bytes(body, "\"".as_bytes());
    append_bytes(body, newline);
    append_bytes(body, "Content-Type: application/octet-stream".as_bytes());
    append_bytes(body, newline);
    append_bytes(body, newline);
    append_bytes(body, bytes);
    append_bytes(body, newline);
    assert(body@ =~= start + part_encoding(name@, bytes@));
}

impl MultipartBuilder {
    /// The parts added so far, as (name, bytes) pairs in order.
    pub closed spec fn parts(&self) -> Seq<(Seq<char>, Seq<u8>)> {
        self.parts@.map_values(|p: MultipartPart| (p.name@, p.bytes@))
    }

    /// A builder with no parts.
    pub fn new() -> (b: Self)
        ensures
            b.parts() == Seq::<(Seq<char>, Seq<u8>)>::empty(),
    {
        let b = Self { parts: Vec::new() };
        assert(b.parts() =~= Seq::<(Seq<char>, Seq<u8>)>::empty());
        b
    }

    /// Adds a part with a name and its bytes after the parts added so far.
    pub fn add_bytes(self, name: &str, bytes: &[u8]) -> (b: Self)
        ensures
            b.parts() == self.parts().push((name@, bytes@)),
    {
        let mut parts = self.parts;
        let part = MultipartPart { name: String::from_str(name), bytes: vstd::slice::slice_to_vec(bytes) };
        parts.push(part);
        let b = Self { parts };
        assert(b.parts() =~= self.parts().push((name@, bytes@)));
        b
    }

    /// Frames the parts as a `multipart/form-data` body with the boundary
    /// `MULTIPARTBINARY`; the content length is the body's length.
    pub fn build(self) -> (m: Multipart)
        ensures
            m.body@ == multipart_body(self.parts()),
            m.content_length == m.body@.len(),
            m.content_type@ == "multipart/form-data; boundary=MULTIPARTBINARY"@,
    {
        let mut body: Vec<u8> = Vec::new();
        let ghost parts = self.parts();
        let mut i: usize = 0;
        while i < self.parts.len()
            invariant
                i <= self.parts@.len(),
                parts == self.parts(),
                body@ == parts_encoding(parts.take(i as int)),
            decreases self.parts@.len() - i,
        {
            let part = &self.parts[i];
            append_part(&mut body, part.name.as_str(), part.bytes.as_slice());
            proof {
                assert(parts.take(i + 1).drop_last() =~= parts.take(i as int));
                assert(parts[i as int] == (self.parts@[i as int].name@, self.parts@[i as int].bytes@));
            }
            i = i + 1;
        }
        append_bytes(&mut body, "--MULTIPARTBINARY--".as_bytes());
        proof {
            assert(parts.take(parts.len() as int) =~= parts);
        }
        let content_length = body.len();
        Multipart {
            body,
            content_length,
            content_type: String::from_str("multipart/form-data; boundary=MULTIPARTBINARY"),
        }
    }
}

} // verus!
