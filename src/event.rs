//! What every event kind shares: the class tag at the front of each payload and the owning process.
use crate::codec::{u32_from_le, Cursor, DecodeError};
pub mod image_load;

use vstd::prelude::*;

verus! {

/// An operating-system process identifier.
#[derive(Debug, Clone, Copy, PartialEq, Eq, Structural, PartialOrd, Ord, Hash)]
pub struct Pid(pub u32);

/// The class tag of a payload: its first four bytes, little-endian.
pub open spec fn class_of(bytes: Seq<u8>) -> Result<u32, DecodeError> {
    if bytes.len() < 4 {
        Err(DecodeError::Truncated)
    } else {
        Ok(u32_from_le(bytes))
    }
}

/// Reads the class tag of a payload without looking at the rest of it.
pub fn get_event_type(bytes: &[u8]) -> (r: Result<u32, DecodeError>)
    ensures
        r == class_of(bytes@),
{
    let mut c = Cursor::new(bytes);
    assert(c.rest() =~= bytes@);
    c.read_u32()
}

} // verus!
