//! Seconds since the Unix epoch.
use vstd::prelude::*;

use crate::db::ToBytes;
use crate::errors::{DecodeError, DecodeFault, EncodeError};
use crate::helpers::byteable::Byteable;
use crate::helpers::codec::le64_signed;

verus! {

/// A point in time, in seconds since the Unix epoch.
#[derive(Debug, Clone, Copy, PartialEq, Eq, PartialOrd, Ord, Hash, Structural)]
pub struct Timestamp(pub i64);

/// `SystemTime::now().duration_since(UNIX_EPOCH)`, in whole seconds:
/// `Ok` of the seconds since the epoch, or, when the clock is set before the
/// epoch, `Err` of the seconds it is before it (the error's `duration`).
/// Nothing is stated of the value: it is the clock's.
#[verifier::external_body]
fn unix_time_secs() -> (r: Result<u64, u64>) {
    match std::time::SystemTime::now().duration_since(std::time::UNIX_EPOCH) {
        Ok(d) => Ok(d.as_secs()),
        Err(e) => Err(e.duration().as_secs()),
    }
}

/// The time that a clock reading stands for (see `Timestamp::from_unix_reading`).
pub open spec fn spec_from_unix_reading(reading: Result<u64, u64>) -> Timestamp {
    match reading {
        Ok(after) => if after > i64::MAX {
            Timestamp(i64::MAX)
        } else {
            Timestamp(after as i64)
        },
        Err(before) => if before > i64::MAX {
            Timestamp((-i64::MAX) as i64)
        } else {
            Timestamp((-(before as i64)) as i64)
        },
    }
}

impl Timestamp {
    pub fn new(timestamp: i64) -> (r: Timestamp)
        ensures
            r.0 == timestamp,
    {
        Timestamp(timestamp)
    }

    /// The time that a reading of the system clock stands for: `Ok` of the
    /// seconds since the epoch, or `Err` of the seconds before it. A clock
    /// set before the epoch gives a negative time, and one beyond the range
    /// of `i64` the nearest end of it.
    pub fn from_unix_reading(reading: Result<u64, u64>) -> (r: Timestamp)
        ensures
            r == spec_from_unix_reading(reading),
    {
        match reading {
            Ok(after) => if after > i64::MAX as u64 {
                Timestamp(i64::MAX)
            } else {
                Timestamp(after as i64)
            },
            Err(before) => if before > i64::MAX as u64 {
                Timestamp(-i64::MAX)
            } else {
                Timestamp(-(before as i64))
            },
        }
    }

    /// The current time of the system clock (see `from_unix_reading`).
    pub fn now() -> (r: Timestamp)
        ensures
            exists|reading: Result<u64, u64>| r == #[trigger] spec_from_unix_reading(reading),
    {
        let reading = unix_time_secs();
        let r = Timestamp::from_unix_reading(reading);
        assert(r == spec_from_unix_reading(reading));
        r
    }

    pub fn value(&self) -> (r: i64)
        ensures
            r == self.0,
    {
        self.0
    }

    /// Whether `self` is not later than `other`.
    pub fn le(&self, other: &Timestamp) -> (r: bool)
        ensures
            r == (self.0 <= other.0),
    {
        self.0 <= other.0
    }
}

impl core::ops::Add<i64> for Timestamp {
    type Output = Timestamp;

    fn add(self, rhs: i64) -> (r: Timestamp) {
        Timestamp(self.0 + rhs)
    }
}

impl vstd::std_specs::ops::AddSpecImpl<i64> for Timestamp {
    open spec fn obeys_add_spec() -> bool {
        true
    }

    open spec fn add_req(self, rhs: i64) -> bool {
        i64::MIN <= self.0 + rhs <= i64::MAX
    }

    open spec fn add_spec(self, rhs: i64) -> Timestamp {
        Timestamp((self.0 + rhs) as i64)
    }
}

impl core::ops::Add<Timestamp> for Timestamp {
    type Output = Timestamp;

    fn add(self, rhs: Timestamp) -> (r: Timestamp) {
        Timestamp(self.0 + rhs.0)
    }
}

impl vstd::std_specs::ops::AddSpecImpl<Timestamp> for Timestamp {
    open spec fn obeys_add_spec() -> bool {
        true
    }

    open spec fn add_req(self, rhs: Timestamp) -> bool {
        i64::MIN <= self.0 + rhs.0 <= i64::MAX
    }

    open spec fn add_spec(self, rhs: Timestamp) -> Timestamp {
        Timestamp((self.0 + rhs.0) as i64)
    }
}

impl core::ops::Sub<i64> for Timestamp {
    type Output = Timestamp;

    fn sub(self, rhs: i64) -> (r: Timestamp) {
        Timestamp(self.0 - rhs)
    }
}

impl vstd::std_specs::ops::SubSpecImpl<i64> for Timestamp {
    open spec fn obeys_sub_spec() -> bool {
        true
    }

    open spec fn sub_req(self, rhs: i64) -> bool {
        i64::MIN <= self.0 - rhs <= i64::MAX
    }

    open spec fn sub_spec(self, rhs: i64) -> Timestamp {
        Timestamp((self.0 - rhs) as i64)
    }
}

impl core::ops::Sub<Timestamp> for Timestamp {
    type Output = Timestamp;

    fn sub(self, rhs: Timestamp) -> (r: Timestamp) {
        Timestamp(self.0 - rhs.0)
    }
}

impl vstd::std_specs::ops::SubSpecImpl<Timestamp> for Timestamp {
    open spec fn obeys_sub_spec() -> bool {
        true
    }

    open spec fn sub_req(self, rhs: Timestamp) -> bool {
        i64::MIN <= self.0 - rhs.0 <= i64::MAX
    }

    open spec fn sub_spec(self, rhs: Timestamp) -> Timestamp {
        Timestamp((self.0 - rhs.0) as i64)
    }
}

impl ToBytes for Timestamp {
    /// The little-endian bytes of the seconds.
    open spec fn spec_to_bytes(&self) -> Seq<u8> {
        le64_signed(self.0)
    }

    fn to_bytes(&self) -> (r: Vec<u8>) {
        let u = self.0 as u64;
        let mut v: Vec<u8> = Vec::with_capacity(8);
        v.push(u as u8);
        v.push((u >> 8u64) as u8);
        v.push((u >> 16u64) as u8);
        v.push((u >> 24u64) as u8);
        v.push((u >> 32u64) as u8);
        v.push((u >> 40u64) as u8);
        v.push((u >> 48u64) as u8);
        v.push((u >> 56u64) as u8);
        assert(v@ =~= le64_signed(self.0));
        v
    }
}

impl Byteable for Timestamp {
    type Model = i64;

    open spec fn wire_valid(m: i64) -> bool {
        true
    }

    open spec fn model(&self) -> i64 {
        self.0
    }

    open spec fn spec_encode(m: i64) -> Result<Seq<u8>, EncodeError> {
        <i64 as Byteable>::spec_encode(m)
    }

    open spec fn spec_decode(b: Seq<u8>) -> Result<(i64, nat), DecodeFault> {
        <i64 as Byteable>::spec_decode(b)
    }

    fn encode(&self, out: &mut Vec<u8>) -> (r: Result<(), EncodeError>) {
        self.0.encode(out)
    }

    fn decode(bytes: &[u8], pos: usize) -> (r: Result<(Timestamp, usize), DecodeError>) {
        match <i64 as Byteable>::decode(bytes, pos) {
            Ok((v, p)) => Ok((Timestamp(v), p)),
            Err(e) => Err(e),
        }
    }

    proof fn lemma_roundtrip(m: i64, rest: Seq<u8>) {
        <i64 as Byteable>::lemma_roundtrip(m, rest);
    }

    proof fn lemma_decode_bound(b: Seq<u8>) {
    }
}

} // verus!
