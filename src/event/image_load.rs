//! The image-load event: a module mapped into a process.
use crate::codec::{
    lemma_u32_from_le_prefix, lemma_u32_round_trip, lemma_u64_round_trip, push_bytes, push_text,
    push_u32, push_u64, text_le, u32_from_le, u32_le, u64_from_le, u64_le, Cursor, DecodeError,
};
use crate::digest::{decimal, push_decimal, sha256_from_bytes, sha256_of, Sha256Buff};
use crate::event::{class_of, get_event_type, Pid};
use std::collections::TryReserveError;
use vstd::prelude::*;
use vstd::string::StringSliceAdditionalSpecFns;
use vstd::utf8::*;

verus! {

broadcast use vstd::string::group_string_axioms, encode_utf8_decode_utf8, encode_utf8_valid_utf8;

/// A module image loaded into the address space of a process.
#[derive(Debug)]
pub struct ImageLoadEvent {
    pid: u32,
    image_base: u64,
    image_size: u64,
    path: String,
}

/// The field values of an [`ImageLoadEvent`].
pub struct ImageLoadModel {
    pub pid: u32,
    pub image_base: u64,
    pub image_size: u64,
    pub path: Seq<char>,
}

/// An image-load event as read from a configuration file, where any field may be absent.
#[derive(Debug)]
pub struct YamlImageLoadEvent {
    pub pid: Option<u32>,
    pub image_base: Option<u64>,
    pub image_size: Option<u64>,
    pub path: Option<String>,
}

impl View for ImageLoadEvent {
    type V = ImageLoadModel;

    closed spec fn view(&self) -> ImageLoadModel {
        ImageLoadModel {
            pid: self.pid,
            image_base: self.image_base,
            image_size: self.image_size,
            path: self.path@,
        }
    }
}

/// The class tag of image-load payloads: the ASCII bytes `"DLL "`, little-endian.
pub const IMAGE_LOAD_CLASS: u32 = 0x204C4C44;

/// The event name that salts every fingerprint input.
pub const IMAGE_LOAD_NAME: &'static str = "ImageLoad";

/// Whether an event's payload length fits the `u32` the wire format gives it.
pub open spec fn encodable(m: ImageLoadModel) -> bool {
    encode_utf8(m.path).len() + 28 <= u32::MAX
}

/// The byte count of the fields, without the class tag.
pub open spec fn blob_size_spec(m: ImageLoadModel) -> int {
    24 + encode_utf8(m.path).len() as int
}

/// The fields, in declared order, with no padding.
pub open spec fn blob_spec(m: ImageLoadModel) -> Seq<u8> {
    u32_le(m.pid) + u64_le(m.image_base) + u64_le(m.image_size) + text_le(m.path)
}

/// A whole payload: the class tag, then the fields.
pub open spec fn payload_spec(m: ImageLoadModel) -> Seq<u8> {
    u32_le(IMAGE_LOAD_CLASS) + blob_spec(m)
}

/// What decoding the fields from the front of `b` gives; bytes after them are ignored.
pub open spec fn decode_blob_spec(b: Seq<u8>) -> Result<ImageLoadModel, DecodeError> {
    if b.len() < 24 {
        Err(DecodeError::Truncated)
    } else {
        let n = u32_from_le(b.subrange(20, 24)) as int;
        if b.len() < 24 + n {
            Err(DecodeError::Truncated)
        } else if !valid_utf8(b.subrange(24, 24 + n)) {
            Err(DecodeError::InvalidUtf8)
        } else {
            Ok(
                ImageLoadModel {
                    pid: u32_from_le(b.subrange(0, 4)),
                    image_base: u64_from_le(b.subrange(4, 12)),
                    image_size: u64_from_le(b.subrange(12, 20)),
                    path: decode_utf8(b.subrange(24, 24 + n)),
                },
            )
        }
    }
}

/// What decoding a whole payload gives: its class tag must be the image-load tag.
pub open spec fn decode_payload_spec(b: Seq<u8>) -> Result<ImageLoadModel, DecodeError> {
    match class_of(b) {
        Err(e) => Err(e),
        Ok(c) => if c != IMAGE_LOAD_CLASS {
            Err(DecodeError::WrongClass)
        } else {
            decode_blob_spec(b.subrange(4, b.len() as int))
        },
    }
}

/// The bytes that are hashed for one field: `"ImageLoad+<field>+<value>"`.
pub open spec fn member_input(field: Seq<u8>, value: Seq<u8>) -> Seq<u8> {
    IMAGE_LOAD_NAME.spec_bytes() + seq![43u8] + field + seq![43u8] + value
}

/// The digest that one field contributes to a fingerprint.
pub open spec fn member_digest(field: Seq<u8>, value: Seq<u8>) -> Seq<u8> {
    sha256_of(member_input(field, value))
}

/// One (field name, rendered value) pair when the field is significant, else nothing.
pub open spec fn member_if(significant: bool, field: Seq<u8>, value: Seq<u8>) -> Seq<(Seq<u8>, Seq<u8>)> {
    if significant {
        seq![(field, value)]
    } else {
        Seq::empty()
    }
}

/// The significant fields of an event in declared order: non-zero integers in
/// decimal, non-empty text as its UTF-8 bytes.
pub open spec fn members(m: ImageLoadModel) -> Seq<(Seq<u8>, Seq<u8>)> {
    member_if(m.pid != 0, "pid".spec_bytes(), decimal(m.pid as nat)) + member_if(
        m.image_base != 0,
        "image_base".spec_bytes(),
        decimal(m.image_base as nat),
    ) + member_if(m.image_size != 0, "image_size".spec_bytes(), decimal(m.image_size as nat))
        + member_if(m.path.len() > 0, "path".spec_bytes(), encode_utf8(m.path))
}

/// The fingerprint of an event: one digest per significant field, in declared order.
pub open spec fn fingerprint_spec(m: ImageLoadModel) -> Seq<Seq<u8>> {
    members(m).map_values(|p: (Seq<u8>, Seq<u8>)| member_digest(p.0, p.1))
}

/// The number of significant fields of an event.
pub open spec fn significant_count(m: ImageLoadModel) -> int {
    (if m.pid != 0 { 1int } else { 0int }) + (if m.image_base != 0 { 1int } else { 0int }) + (
    if m.image_size != 0 { 1int } else { 0int }) + (if m.path.len() > 0 { 1int } else { 0int })
}

impl ImageLoadEvent {
    pub const EVENT_CLASS: u32 = IMAGE_LOAD_CLASS;

    pub const EVENT_NAME: &'static str = IMAGE_LOAD_NAME;

    pub fn new(pid: u32, image_base: u64, image_size: u64, path: String) -> (r: ImageLoadEvent)
        ensures
            r@ == (ImageLoadModel { pid, image_base, image_size, path: path@ }),
    {
        ImageLoadEvent { pid, image_base, image_size, path }
    }

    /// Builds an event from one read from a configuration file; an absent field becomes zero or empty.
    pub fn from_yaml(yaml: YamlImageLoadEvent) -> (r: ImageLoadEvent)
        ensures
            r@.pid == (match yaml.pid { Some(v) => v, None => 0 }),
            r@.image_base == (match yaml.image_base { Some(v) => v, None => 0 }),
            r@.image_size == (match yaml.image_size { Some(v) => v, None => 0 }),
            r@.path == (match yaml.path { Some(v) => v@, None => Seq::empty() }),
    {
        let path = match yaml.path {
            Some(p) => p,
            None => String::new(),
        };
        ImageLoadEvent {
            pid: match yaml.pid { Some(v) => v, None => 0 },
            image_base: match yaml.image_base { Some(v) => v, None => 0 },
            image_size: match yaml.image_size { Some(v) => v, None => 0 },
            path,
        }
    }

    pub fn pid(&self) -> (r: u32)
        ensures
            r == self@.pid,
    {
        self.pid
    }

    pub fn image_base(&self) -> (r: u64)
        ensures
            r == self@.image_base,
    {
        self.image_base
    }

    pub fn image_size(&self) -> (r: u64)
        ensures
            r == self@.image_size,
    {
        self.image_size
    }

    pub fn path(&self) -> (r: &str)
        ensures
            r@ == self@.path,
    {
        self.path.as_str()
    }

    /// The process the event concerns.
    pub fn get_pid(&self) -> (r: Pid)
        ensures
            r == Pid(self@.pid),
    {
        Pid(self.pid)
    }

    /// The byte count of the encoded fields, without the class tag.
    pub fn blob_size(&self) -> (r: u32)
        requires
            encodable(self@),
        ensures
            r == blob_size_spec(self@),
    {
        4 + 8 + 8 + 4 + self.path.as_str().len() as u32
    }

    /// Encodes the fields; fails only when the buffer cannot be reserved.
    pub fn to_blob(&self) -> (r: Result<Vec<u8>, TryReserveError>)
        requires
            encodable(self@),
        ensures
            r matches Ok(b) ==> b@ == blob_spec(self@),
    {
        let mut v: Vec<u8> = Vec::new();
        v.try_reserve(self.blob_size() as usize)?;
        self.push_fields(&mut v);
        assert(v@ =~= blob_spec(self@));
        Ok(v)
    }

    /// Encodes the whole payload: the class tag, then the fields. Fails only
    /// when the buffer cannot be reserved.
    pub fn serialize(&self) -> (r: Result<Vec<u8>, TryReserveError>)
        requires
            encodable(self@),
        ensures
            r matches Ok(b) ==> b@ == payload_spec(self@),
    {
        let mut v: Vec<u8> = Vec::new();
        v.try_reserve(4 + self.blob_size() as usize)?;
        push_u32(&mut v, Self::EVENT_CLASS);
        self.push_fields(&mut v);
        assert(v@ =~= payload_spec(self@));
        Ok(v)
    }

    fn push_fields(&self, out: &mut Vec<u8>)
        requires
            encodable(self@),
        ensures
            final(out)@ == old(out)@ + u32_le(self@.pid) + u64_le(self@.image_base) + u64_le(
                self@.image_size,
            ) + text_le(self@.path),
    {
        push_u32(out, self.pid);
        push_u64(out, self.image_base);
        push_u64(out, self.image_size);
        push_text(out, self.path.as_str());
    }

    /// Decodes the fields from the front of `bytes`.
    pub fn from_blob(bytes: &[u8]) -> (r: Result<ImageLoadEvent, DecodeError>)
        ensures
            match decode_blob_spec(bytes@) {
                Ok(m) => r matches Ok(e) && e@ == m,
                Err(x) => r == Err::<ImageLoadEvent, DecodeError>(x),
            },
    {
        let mut c = Cursor::new(bytes);
        assert(c.rest() =~= bytes@);
        let pid = c.read_u32()?;
        assert(bytes@.subrange(0, 4) =~= bytes@.subrange(0, bytes@.len() as int).subrange(0, 4));
        let image_base = c.read_u64()?;
        let image_size = c.read_u64()?;
        let ghost rest = c.rest();
        assert(rest =~= bytes@.subrange(20, bytes@.len() as int));
        proof {
            if rest.len() >= 4 {
                assert(u32_from_le(rest) == u32_from_le(bytes@.subrange(20, 24)));
                let n = u32_from_le(rest) as int;
                if rest.len() - 4 >= n {
                    assert(rest.subrange(4, 4 + n) =~= bytes@.subrange(24, 24 + n));
                }
            }
        }
        let path = c.read_text()?;
        Ok(ImageLoadEvent { pid, image_base, image_size, path })
    }

    /// Decodes a whole payload: its class tag must be the image-load tag.
    pub fn deserialize(bytes: &[u8]) -> (r: Result<ImageLoadEvent, DecodeError>)
        ensures
            match decode_payload_spec(bytes@) {
                Ok(m) => r matches Ok(e) && e@ == m,
                Err(x) => r == Err::<ImageLoadEvent, DecodeError>(x),
            },
    {
        let class = get_event_type(bytes)?;
        if class != Self::EVENT_CLASS {
            return Err(DecodeError::WrongClass);
        }
        let rest = vstd::slice::slice_subrange(bytes, 4, bytes.len());
        Self::from_blob(rest)
    }

    /// One digest per significant field, in declared order, each over
    /// `"ImageLoad+<field>+<value>"`.
    pub fn hash_members(&self) -> (r: Vec<Sha256Buff>)
        ensures
            r@.len() == fingerprint_spec(self@).len(),
            forall|i: int| 0 <= i < r@.len() ==> #[trigger] r@[i]@ == fingerprint_spec(self@)[i],
    {
        let ghost m = self@;
        let ghost pid_part = member_if(m.pid != 0, "pid".spec_bytes(), decimal(m.pid as nat));
        let ghost base_part = member_if(
            m.image_base != 0,
            "image_base".spec_bytes(),
            decimal(m.image_base as nat),
        );
        let ghost size_part = member_if(
            m.image_size != 0,
            "image_size".spec_bytes(),
            decimal(m.image_size as nat),
        );
        let ghost path_part = member_if(m.path.len() > 0, "path".spec_bytes(), encode_utf8(m.path));
        let mut v: Vec<Sha256Buff> = Vec::new();
        if self.pid != 0 {
            let mut input = member_prefix("pid");
            push_decimal(&mut input, self.pid as u64);
            assert(input@ =~= member_input("pid".spec_bytes(), decimal(m.pid as nat)));
            v.push(sha256_from_bytes(input.as_slice()));
        }
        assert(v@.map_values(|d: Sha256Buff| d@) =~= pid_part.map_values(
            |p: (Seq<u8>, Seq<u8>)| member_digest(p.0, p.1),
        ));
        if self.image_base != 0 {
            let mut input = member_prefix("image_base");
            push_decimal(&mut input, self.image_base);
            assert(input@ =~= member_input("image_base".spec_bytes(), decimal(m.image_base as nat)));
            v.push(sha256_from_bytes(input.as_slice()));
        }
        assert(v@.map_values(|d: Sha256Buff| d@) =~= (pid_part + base_part).map_values(
            |p: (Seq<u8>, Seq<u8>)| member_digest(p.0, p.1),
        ));
        if self.image_size != 0 {
            let mut input = member_prefix("image_size");
            push_decimal(&mut input, self.image_size);
            assert(input@ =~= member_input("image_size".spec_bytes(), decimal(m.image_size as nat)));
            v.push(sha256_from_bytes(input.as_slice()));
        }
        assert(v@.map_values(|d: Sha256Buff| d@) =~= (pid_part + base_part + size_part).map_values(
            |p: (Seq<u8>, Seq<u8>)| member_digest(p.0, p.1),
        ));
        if !self.path.as_str().is_empty() {
            let mut input = member_prefix("path");
            push_bytes(&mut input, self.path.as_str().as_bytes());
            assert(input@ =~= member_input("path".spec_bytes(), encode_utf8(m.path)));
            v.push(sha256_from_bytes(input.as_slice()));
        }
        assert(v@.map_values(|d: Sha256Buff| d@) =~= (pid_part + base_part + size_part
            + path_part).map_values(|p: (Seq<u8>, Seq<u8>)| member_digest(p.0, p.1)));
        v
    }
}

/// Decoding the encoded fields of an event gives the event back, and so does
/// decoding its whole payload.
pub proof fn lemma_round_trip(m: ImageLoadModel)
    requires
        encodable(m),
    ensures
        decode_blob_spec(blob_spec(m)) == Ok::<ImageLoadModel, DecodeError>(m),
        decode_payload_spec(payload_spec(m)) == Ok::<ImageLoadModel, DecodeError>(m),
{
    let b = blob_spec(m);
    let text = encode_utf8(m.path);
    let n = text.len() as int;
    assert(b.subrange(0, 4) =~= u32_le(m.pid));
    assert(b.subrange(4, 12) =~= u64_le(m.image_base));
    assert(b.subrange(12, 20) =~= u64_le(m.image_size));
    assert(b.subrange(20, 24) =~= u32_le(n as u32));
    assert(b.subrange(24, 24 + n) =~= text);
    lemma_u32_round_trip(m.pid);
    lemma_u64_round_trip(m.image_base);
    lemma_u64_round_trip(m.image_size);
    lemma_u32_round_trip(n as u32);
    let p = payload_spec(m);
    assert(p.subrange(0, 4) =~= u32_le(IMAGE_LOAD_CLASS));
    lemma_u32_from_le_prefix(p);
    lemma_u32_round_trip(IMAGE_LOAD_CLASS);
    assert(p.subrange(4, p.len() as int) =~= b);
}

/// The encoded fields are exactly `blob_size` bytes long, and a payload is four
/// bytes longer.
pub proof fn lemma_encoded_length(m: ImageLoadModel)
    ensures
        blob_spec(m).len() == blob_size_spec(m),
        payload_spec(m).len() == 4 + blob_size_spec(m),
{
}

/// The class tag read from any image-load payload is the image-load tag.
pub proof fn lemma_tag_stability(m: ImageLoadModel)
    ensures
        class_of(payload_spec(m)) == Ok::<u32, DecodeError>(IMAGE_LOAD_CLASS),
{
    let p = payload_spec(m);
    assert(p.subrange(0, 4) =~= u32_le(IMAGE_LOAD_CLASS));
    lemma_u32_from_le_prefix(p);
    lemma_u32_round_trip(IMAGE_LOAD_CLASS);
}

/// Every strict prefix of an event's encoded fields fails to decode as truncated.
pub proof fn lemma_short_blob(m: ImageLoadModel, k: int)
    requires
        encodable(m),
        0 <= k < blob_spec(m).len(),
    ensures
        decode_blob_spec(blob_spec(m).take(k)) == Err::<ImageLoadModel, DecodeError>(
            DecodeError::Truncated,
        ),
{
    let b = blob_spec(m);
    let t = b.take(k);
    if k >= 24 {
        let n = encode_utf8(m.path).len() as int;
        assert(t.subrange(20, 24) =~= b.subrange(20, 24));
        assert(b.subrange(20, 24) =~= u32_le(n as u32));
        lemma_u32_round_trip(n as u32);
    }
}

/// Every strict prefix of an event's payload fails to decode as truncated.
pub proof fn lemma_short_payload(m: ImageLoadModel, k: int)
    requires
        encodable(m),
        0 <= k < payload_spec(m).len(),
    ensures
        decode_payload_spec(payload_spec(m).take(k)) == Err::<ImageLoadModel, DecodeError>(
            DecodeError::Truncated,
        ),
{
    let p = payload_spec(m);
    let t = p.take(k);
    if k >= 4 {
        assert(t.subrange(0, 4) =~= u32_le(IMAGE_LOAD_CLASS));
        lemma_u32_from_le_prefix(t);
        lemma_u32_round_trip(IMAGE_LOAD_CLASS);
        assert(t.subrange(4, t.len() as int) =~= blob_spec(m).take(k - 4));
        lemma_short_blob(m, k - 4);
    }
}

/// A payload that decodes to an event is at least as long as that event's encoding.
pub proof fn lemma_decoded_length(b: Seq<u8>, m: ImageLoadModel)
    requires
        decode_payload_spec(b) == Ok::<ImageLoadModel, DecodeError>(m),
    ensures
        b.len() >= 4 + blob_size_spec(m),
{
    let f = b.subrange(4, b.len() as int);
    let n = u32_from_le(f.subrange(20, 24)) as int;
    decode_utf8_encode_utf8(f.subrange(24, 24 + n));
}

/// A digest in a fingerprint depends on the field name and value alone: equal
/// (field, value) members of any two events give equal digests.
pub proof fn lemma_fingerprint_determinism(a: ImageLoadModel, b: ImageLoadModel, i: int, j: int)
    requires
        0 <= i < members(a).len(),
        0 <= j < members(b).len(),
        members(a)[i] == members(b)[j],
    ensures
        fingerprint_spec(a)[i] == fingerprint_spec(b)[j],
        fingerprint_spec(a)[i] == member_digest(members(a)[i].0, members(a)[i].1),
{
}

/// A fingerprint holds one digest per significant field.
pub proof fn lemma_fingerprint_count(m: ImageLoadModel)
    ensures
        fingerprint_spec(m).len() == significant_count(m),
{
}

/// A zero or empty field adds no digest; making only that field non-zero or
/// non-empty adds exactly its own digest.
pub proof fn lemma_fingerprint_significance(a: ImageLoadModel, b: ImageLoadModel)
    ensures
        a.pid == 0 && b.pid != 0 && a.image_base == b.image_base && a.image_size == b.image_size
            && a.path == b.path ==> fingerprint_spec(b).len() == fingerprint_spec(a).len() + 1
            && fingerprint_spec(b).contains(member_digest("pid".spec_bytes(), decimal(b.pid as nat))),
        a.image_base == 0 && b.image_base != 0 && a.pid == b.pid && a.image_size == b.image_size
            && a.path == b.path ==> fingerprint_spec(b).len() == fingerprint_spec(a).len() + 1
            && fingerprint_spec(b).contains(
            member_digest("image_base".spec_bytes(), decimal(b.image_base as nat)),
        ),
        a.image_size == 0 && b.image_size != 0 && a.pid == b.pid && a.image_base == b.image_base
            && a.path == b.path ==> fingerprint_spec(b).len() == fingerprint_spec(a).len() + 1
            && fingerprint_spec(b).contains(
            member_digest("image_size".spec_bytes(), decimal(b.image_size as nat)),
        ),
        a.path.len() == 0 && b.path.len() > 0 && a.pid == b.pid && a.image_base == b.image_base
            && a.image_size == b.image_size ==> fingerprint_spec(b).len() == fingerprint_spec(a).len()
            + 1 && fingerprint_spec(b).contains(member_digest("path".spec_bytes(), encode_utf8(b.path))),
{
    let pid_n: int = if b.pid != 0 { 1 } else { 0 };
    let base_n: int = if b.image_base != 0 { 1 } else { 0 };
    let size_n: int = if b.image_size != 0 { 1 } else { 0 };
    let fb = fingerprint_spec(b);
    if b.pid != 0 {
        assert(fb[0] == member_digest("pid".spec_bytes(), decimal(b.pid as nat)));
    }
    if b.image_base != 0 {
        assert(fb[pid_n] == member_digest("image_base".spec_bytes(), decimal(b.image_base as nat)));
    }
    if b.image_size != 0 {
        assert(fb[pid_n + base_n] == member_digest(
            "image_size".spec_bytes(),
            decimal(b.image_size as nat),
        ));
    }
    if b.path.len() > 0 {
        assert(fb[pid_n + base_n + size_n] == member_digest(
            "path".spec_bytes(),
            encode_utf8(b.path),
        ));
    }
}

/// The bytes `"ImageLoad+<field>+"`.
fn member_prefix(field: &str) -> (r: Vec<u8>)
    ensures
        r@ == IMAGE_LOAD_NAME.spec_bytes() + seq![43u8] + field.spec_bytes() + seq![43u8],
{
    let mut v: Vec<u8> = Vec::new();
    push_bytes(&mut v, IMAGE_LOAD_NAME.as_bytes());
    v.push(43u8);
    push_bytes(&mut v, field.as_bytes());
    v.push(43u8);
    assert(v@ =~= IMAGE_LOAD_NAME.spec_bytes() + seq![43u8] + field.spec_bytes() + seq![43u8]);
    v
}

} // verus!
