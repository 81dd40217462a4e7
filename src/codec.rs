//! Primitive wire codec: little-endian integers and length-prefixed UTF-8 text.
use vstd::prelude::*;
use vstd::string::StringSliceAdditionalSpecFns;
use vstd::utf8::*;

verus! {

broadcast use vstd::string::group_string_axioms, encode_utf8_decode_utf8;

/// Why a payload could not be decoded.
#[derive(Debug, Clone, Copy, PartialEq, Eq, Structural)]
pub enum DecodeError {
    /// Fewer bytes remain than the next field needs.
    Truncated,
    /// The payload starts with the class tag of another event kind.
    WrongClass,
    /// A text field holds bytes that are not UTF-8.
    InvalidUtf8,
}

/// The four little-endian bytes of `x`.
pub open spec fn u32_le(x: u32) -> Seq<u8> {
    seq![x as u8, (x >> 8u32) as u8, (x >> 16u32) as u8, (x >> 24u32) as u8]
}

/// The eight little-endian bytes of `x`.
pub open spec fn u64_le(x: u64) -> Seq<u8> {
    seq![
        x as u8,
        (x >> 8u64) as u8,
        (x >> 16u64) as u8,
        (x >> 24u64) as u8,
        (x >> 32u64) as u8,
        (x >> 40u64) as u8,
        (x >> 48u64) as u8,
        (x >> 56u64) as u8,
    ]
}

/// The value of four little-endian bytes.
pub open spec fn u32_from_le(b: Seq<u8>) -> u32 {
    (b[0] as u32) | ((b[1] as u32) << 8u32) | ((b[2] as u32) << 16u32) | ((b[3] as u32) << 24u32)
}

/// The value of eight little-endian bytes.
pub open spec fn u64_from_le(b: Seq<u8>) -> u64 {
    (b[0] as u64) | ((b[1] as u64) << 8u64) | ((b[2] as u64) << 16u64) | ((b[3] as u64) << 24u64)
        | ((b[4] as u64) << 32u64) | ((b[5] as u64) << 40u64) | ((b[6] as u64) << 48u64) | ((
    b[7] as u64) << 56u64)
}

/// Whether the UTF-8 form of `s` is short enough for a 4-byte length prefix.
pub open spec fn text_fits(s: Seq<char>) -> bool {
    encode_utf8(s).len() <= u32::MAX
}

/// Text on the wire: the byte count as a `u32`, then the UTF-8 bytes.
pub open spec fn text_le(s: Seq<char>) -> Seq<u8> {
    u32_le(encode_utf8(s).len() as u32) + encode_utf8(s)
}

pub proof fn lemma_u32_round_trip(x: u32)
    ensures
        u32_from_le(u32_le(x)) == x,
{
    let b = u32_le(x);
    assert(((x as u8) as u32) | (((x >> 8u32) as u8 as u32) << 8u32) | (((x >> 16u32) as u8 as u32)
        << 16u32) | (((x >> 24u32) as u8 as u32) << 24u32) == x) by (bit_vector);
}

pub proof fn lemma_u64_round_trip(x: u64)
    ensures
        u64_from_le(u64_le(x)) == x,
{
    let b = u64_le(x);
    assert(((x as u8) as u64) | (((x >> 8u64) as u8 as u64) << 8u64) | (((x >> 16u64) as u8 as u64)
        << 16u64) | (((x >> 24u64) as u8 as u64) << 24u64) | (((x >> 32u64) as u8 as u64) << 32u64)
        | (((x >> 40u64) as u8 as u64) << 40u64) | (((x >> 48u64) as u8 as u64) << 48u64) | (((x
        >> 56u64) as u8 as u64) << 56u64) == x) by (bit_vector);
}

/// Only the first four bytes count.
pub proof fn lemma_u32_from_le_prefix(b: Seq<u8>)
    requires
        b.len() >= 4,
    ensures
        u32_from_le(b) == u32_from_le(b.subrange(0, 4)),
{
    let p = b.subrange(0, 4);
    assert(p[0] == b[0] && p[1] == b[1] && p[2] == b[2] && p[3] == b[3]);
}

/// Appends the little-endian bytes of `x`.
pub fn push_u32(out: &mut Vec<u8>, x: u32)
    ensures
        final(out)@ == old(out)@ + u32_le(x),
{
    out.push(x as u8);
    out.push((x >> 8u32) as u8);
    out.push((x >> 16u32) as u8);
    out.push((x >> 24u32) as u8);
    assert(final(out)@ =~= old(out)@ + u32_le(x));
}

/// Appends the little-endian bytes of `x`.
pub fn push_u64(out: &mut Vec<u8>, x: u64)
    ensures
        final(out)@ == old(out)@ + u64_le(x),
{
    out.push(x as u8);
    out.push((x >> 8u64) as u8);
    out.push((x >> 16u64) as u8);
    out.push((x >> 24u64) as u8);
    out.push((x >> 32u64) as u8);
    out.push((x >> 40u64) as u8);
    out.push((x >> 48u64) as u8);
    out.push((x >> 56u64) as u8);
    assert(final(out)@ =~= old(out)@ + u64_le(x));
}

/// Appends every byte of `b`.
pub fn push_bytes(out: &mut Vec<u8>, b: &[u8])
    ensures
        final(out)@ == old(out)@ + b@,
{
    let ghost start = out@;
    let mut i: usize = 0;
    while i < b.len()
        invariant
            i <= b@.len(),
            out@ == start + b@.subrange(0, i as int),
        decreases b@.len() - i,
    {
        out.push(b[i]);
        i = i + 1;
        assert(out@ =~= start + b@.subrange(0, i as int));
    }
    assert(b@.subrange(0, i as int) =~= b@);
}

/// Appends `s` as text: its byte count as a `u32`, then its UTF-8 bytes.
pub fn push_text(out: &mut Vec<u8>, s: &str)
    requires
        text_fits(s@),
    ensures
        final(out)@ == old(out)@ + text_le(s@),
{
    let b = s.as_bytes();
    push_u32(out, b.len() as u32);
    push_bytes(out, b);
    assert(final(out)@ =~= old(out)@ + text_le(s@));
}

/// Relies on core::str::from_utf8: it succeeds exactly on well-formed UTF-8,
/// and then views the same bytes as a `str`.
#[verifier::external_body]
fn str_from_utf8<'a>(b: &'a [u8]) -> (r: Option<&'a str>)
    ensures
        r is Some <==> valid_utf8(b@),
        r matches Some(s) ==> s.spec_bytes() == b@,
{
    core::str::from_utf8(b).ok()
}

/// A read position in a byte slice; every read checks that enough bytes remain.
pub struct Cursor<'a> {
    pub bytes: &'a [u8],
    pub pos: usize,
}

impl<'a> Cursor<'a> {
    pub open spec fn wf(&self) -> bool {
        self.pos <= self.bytes@.len()
    }

    /// The bytes not yet read.
    pub open spec fn rest(&self) -> Seq<u8> {
        self.bytes@.subrange(self.pos as int, self.bytes@.len() as int)
    }

    pub fn new(bytes: &'a [u8]) -> (r: Cursor<'a>)
        ensures
            r.wf(),
            r.bytes == bytes,
            r.pos == 0,
    {
        Cursor { bytes, pos: 0 }
    }

    /// Reads a little-endian `u32`, or fails with `Truncated` when fewer than 4 bytes remain.
    pub fn read_u32(&mut self) -> (r: Result<u32, DecodeError>)
        requires
            old(self).wf(),
        ensures
            final(self).wf(),
            final(self).bytes == old(self).bytes,
            old(self).rest().len() >= 4 ==> r == Ok::<u32, DecodeError>(u32_from_le(old(self).rest()))
                && final(self).pos == old(self).pos + 4,
            old(self).rest().len() < 4 ==> r == Err::<u32, DecodeError>(DecodeError::Truncated)
                && final(self).pos == old(self).pos,
    {
        if self.bytes.len() - self.pos < 4 {
            return Err(DecodeError::Truncated);
        }
        let p = self.pos;
        let v = (self.bytes[p] as u32) | ((self.bytes[p + 1] as u32) << 8u32) | ((self.bytes[p
            + 2] as u32) << 16u32) | ((self.bytes[p + 3] as u32) << 24u32);
        self.pos = p + 4;
        Ok(v)
    }

    /// Reads a little-endian `u64`, or fails with `Truncated` when fewer than 8 bytes remain.
    pub fn read_u64(&mut self) -> (r: Result<u64, DecodeError>)
        requires
            old(self).wf(),
        ensures
            final(self).wf(),
            final(self).bytes == old(self).bytes,
            old(self).rest().len() >= 8 ==> r == Ok::<u64, DecodeError>(u64_from_le(old(self).rest()))
                && final(self).pos == old(self).pos + 8,
            old(self).rest().len() < 8 ==> r == Err::<u64, DecodeError>(DecodeError::Truncated)
                && final(self).pos == old(self).pos,
    {
        if self.bytes.len() - self.pos < 8 {
            return Err(DecodeError::Truncated);
        }
        let p = self.pos;
        let v = (self.bytes[p] as u64) | ((self.bytes[p + 1] as u64) << 8u64) | ((self.bytes[p
            + 2] as u64) << 16u64) | ((self.bytes[p + 3] as u64) << 24u64) | ((self.bytes[p
            + 4] as u64) << 32u64) | ((self.bytes[p + 5] as u64) << 40u64) | ((self.bytes[p
            + 6] as u64) << 48u64) | ((self.bytes[p + 7] as u64) << 56u64);
        self.pos = p + 8;
        Ok(v)
    }

    /// Reads length-prefixed UTF-8 text. Fails with `Truncated` when the prefix or
    /// the bytes it counts are missing, and with `InvalidUtf8` when those bytes are
    /// not UTF-8.
    pub fn read_text(&mut self) -> (r: Result<String, DecodeError>)
        requires
            old(self).wf(),
        ensures
            final(self).wf(),
            final(self).bytes == old(self).bytes,
            ({
                let rest = old(self).rest();
                if rest.len() < 4 || rest.len() - 4 < u32_from_le(rest) {
                    r == Err::<String, DecodeError>(DecodeError::Truncated)
                } else {
                    let n = u32_from_le(rest) as int;
                    let text = rest.subrange(4, 4 + n);
                    if valid_utf8(text) {
                        r matches Ok(s) && s@ == decode_utf8(text) && final(self).pos == old(
                            self,
                        ).pos + 4 + n
                    } else {
                        r == Err::<String, DecodeError>(DecodeError::InvalidUtf8)
                    }
                }
            }),
    {
        let n = self.read_u32()?;
        if self.bytes.len() - self.pos < n as usize {
            return Err(DecodeError::Truncated);
        }
        let start = self.pos;
        let end = start + n as usize;
        let raw = vstd::slice::slice_subrange(self.bytes, start, end);
        assert(raw@ =~= old(self).rest().subrange(4, 4 + n as int));
        match str_from_utf8(raw) {
            Some(s) => {
                self.pos = end;
                proof {
                    decode_utf8_encode_utf8(raw@);
                }
                Ok(s.to_owned())
            },
            None => Err(DecodeError::InvalidUtf8),
        }
    }
}

} // verus!
