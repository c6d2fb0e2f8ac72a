//! The wire format: how each value is written to bytes and read back.
use vstd::prelude::*;
use vstd::utf8::*;

use crate::errors::{DecodeError, DecodeFault, EncodeError};
use crate::helpers::codec::{
    be16, be32, be64, from_be16, from_be32, from_be64, get_u16, get_u32, get_u64, lemma_be16_roundtrip,
    lemma_be32_roundtrip, lemma_be64_roundtrip, lemma_signed32_roundtrip, lemma_signed64_roundtrip,
    put_u16, put_u32, put_u64,
};

verus! {

broadcast use {encode_utf8_valid_utf8, encode_utf8_decode_utf8};

/// A value with a byte layout in the wire format.
///
/// `spec_encode` gives the bytes written for a value (or why it cannot be
/// written), `spec_decode` reads a value from the front of some bytes and
/// says how many bytes it took.
pub trait Byteable: Sized {
    /// What a value holds, as far as its bytes are concerned.
    type Model;

    spec fn model(&self) -> Self::Model;

    /// Whether the value of `m` is one that reading its bytes gives back.
    spec fn wire_valid(m: Self::Model) -> bool;

    spec fn spec_encode(m: Self::Model) -> Result<Seq<u8>, EncodeError>;

    spec fn spec_decode(b: Seq<u8>) -> Result<(Self::Model, nat), DecodeFault>;

    /// Appends the bytes of `self` to `out`.
    fn encode(&self, out: &mut Vec<u8>) -> (r: Result<(), EncodeError>)
        ensures
            match Self::spec_encode(self.model()) {
                Ok(e) => r is Ok && final(out)@ == old(out)@ + e,
                Err(err) => r == Err::<(), EncodeError>(err),
            },
    ;

    /// Reads a value from `bytes` starting at `pos`; on success also gives
    /// the position just after it.
    fn decode(bytes: &[u8], pos: usize) -> (r: Result<(Self, usize), DecodeError>)
        requires
            pos <= bytes@.len(),
        ensures
            match r {
                Ok((v, p)) => pos <= p <= bytes@.len() && Self::spec_decode(bytes@.skip(pos as int))
                    == Ok::<(Self::Model, nat), DecodeFault>((v.model(), (p - pos) as nat)),
                Err(e) => Self::spec_decode(bytes@.skip(pos as int)) == Err::<
                    (Self::Model, nat),
                    DecodeFault,
                >(e.fault()),
            },
    ;

    /// Reading back the bytes written for a value gives the value, whatever follows them.
    proof fn lemma_roundtrip(m: Self::Model, rest: Seq<u8>)
        requires
            Self::wire_valid(m),
            Self::spec_encode(m) is Ok,
        ensures
            Self::spec_decode(Self::spec_encode(m)->Ok_0 + rest) == Ok::<
                (Self::Model, nat),
                DecodeFault,
            >((m, Self::spec_encode(m)->Ok_0.len())),
    ;

    /// A read never takes more bytes than there are.
    proof fn lemma_decode_bound(b: Seq<u8>)
        ensures
            Self::spec_decode(b) matches Ok((m, n)) ==> n <= b.len(),
    ;
}

pub proof fn lemma_skip_skip(b: Seq<u8>, i: int, j: int)
    requires
        0 <= i,
        0 <= j,
        i + j <= b.len(),
    ensures
        b.skip(i).skip(j) == b.skip(i + j),
{
    assert(b.skip(i).skip(j) =~= b.skip(i + j));
}

pub proof fn lemma_skip_concat(a: Seq<u8>, b: Seq<u8>)
    ensures
        (a + b).skip(a.len() as int) == b,
{
    assert((a + b).skip(a.len() as int) =~= b);
}

impl Byteable for () {
    type Model = ();

    open spec fn wire_valid(m: ()) -> bool {
        true
    }

    open spec fn model(&self) -> () {
        ()
    }

    open spec fn spec_encode(m: ()) -> Result<Seq<u8>, EncodeError> {
        Ok(Seq::empty())
    }

    open spec fn spec_decode(b: Seq<u8>) -> Result<((), nat), DecodeFault> {
        Ok(((), 0))
    }

    fn encode(&self, out: &mut Vec<u8>) -> (r: Result<(), EncodeError>) {
        assert(out@ =~= out@ + Seq::<u8>::empty());
        Ok(())
    }

    fn decode(bytes: &[u8], pos: usize) -> (r: Result<((), usize), DecodeError>) {
        Ok(((), pos))
    }

    proof fn lemma_roundtrip(m: (), rest: Seq<u8>) {
    }

    proof fn lemma_decode_bound(b: Seq<u8>) {
    }
}

impl Byteable for u8 {
    type Model = u8;

    open spec fn wire_valid(m: u8) -> bool {
        true
    }

    open spec fn model(&self) -> u8 {
        *self
    }

    open spec fn spec_encode(m: u8) -> Result<Seq<u8>, EncodeError> {
        Ok(seq![m])
    }

    open spec fn spec_decode(b: Seq<u8>) -> Result<(u8, nat), DecodeFault> {
        if b.len() >= 1 {
            Ok((b[0], 1))
        } else {
            Err(DecodeFault::UnexpectedEof)
        }
    }

    fn encode(&self, out: &mut Vec<u8>) -> (r: Result<(), EncodeError>) {
        out.push(*self);
        assert(out@ =~= old(out)@ + seq![*self]);
        Ok(())
    }

    fn decode(bytes: &[u8], pos: usize) -> (r: Result<(u8, usize), DecodeError>) {
        if bytes.len() - pos < 1 {
            return Err(DecodeError::UnexpectedEof);
        }
        Ok((bytes[pos], pos + 1))
    }

    proof fn lemma_roundtrip(m: u8, rest: Seq<u8>) {
    }

    proof fn lemma_decode_bound(b: Seq<u8>) {
    }
}

impl Byteable for u16 {
    type Model = u16;

    open spec fn wire_valid(m: u16) -> bool {
        true
    }

    open spec fn model(&self) -> u16 {
        *self
    }

    open spec fn spec_encode(m: u16) -> Result<Seq<u8>, EncodeError> {
        Ok(be16(m))
    }

    open spec fn spec_decode(b: Seq<u8>) -> Result<(u16, nat), DecodeFault> {
        if b.len() >= 2 {
            Ok((from_be16(b), 2))
        } else {
            Err(DecodeFault::UnexpectedEof)
        }
    }

    fn encode(&self, out: &mut Vec<u8>) -> (r: Result<(), EncodeError>) {
        put_u16(out, *self);
        Ok(())
    }

    fn decode(bytes: &[u8], pos: usize) -> (r: Result<(u16, usize), DecodeError>) {
        let _n = bytes.len();
        match get_u16(bytes, pos) {
            Some(v) => Ok((v, pos + 2)),
            None => Err(DecodeError::UnexpectedEof),
        }
    }

    proof fn lemma_roundtrip(m: u16, rest: Seq<u8>) {
        lemma_be16_roundtrip(m);
        assert(from_be16(be16(m) + rest) == from_be16(be16(m)));
    }

    proof fn lemma_decode_bound(b: Seq<u8>) {
    }
}

impl Byteable for u32 {
    type Model = u32;

    open spec fn wire_valid(m: u32) -> bool {
        true
    }

    open spec fn model(&self) -> u32 {
        *self
    }

    open spec fn spec_encode(m: u32) -> Result<Seq<u8>, EncodeError> {
        Ok(be32(m))
    }

    open spec fn spec_decode(b: Seq<u8>) -> Result<(u32, nat), DecodeFault> {
        if b.len() >= 4 {
            Ok((from_be32(b), 4))
        } else {
            Err(DecodeFault::UnexpectedEof)
        }
    }

    fn encode(&self, out: &mut Vec<u8>) -> (r: Result<(), EncodeError>) {
        put_u32(out, *self);
        Ok(())
    }

    fn decode(bytes: &[u8], pos: usize) -> (r: Result<(u32, usize), DecodeError>) {
        let _n = bytes.len();
        match get_u32(bytes, pos) {
            Some(v) => Ok((v, pos + 4)),
            None => Err(DecodeError::UnexpectedEof),
        }
    }

    proof fn lemma_roundtrip(m: u32, rest: Seq<u8>) {
        lemma_be32_roundtrip(m);
        assert(from_be32(be32(m) + rest) == from_be32(be32(m)));
    }

    proof fn lemma_decode_bound(b: Seq<u8>) {
    }
}

impl Byteable for u64 {
    type Model = u64;

    open spec fn wire_valid(m: u64) -> bool {
        true
    }

    open spec fn model(&self) -> u64 {
        *self
    }

    open spec fn spec_encode(m: u64) -> Result<Seq<u8>, EncodeError> {
        Ok(be64(m))
    }

    open spec fn spec_decode(b: Seq<u8>) -> Result<(u64, nat), DecodeFault> {
        if b.len() >= 8 {
            Ok((from_be64(b), 8))
        } else {
            Err(DecodeFault::UnexpectedEof)
        }
    }

    fn encode(&self, out: &mut Vec<u8>) -> (r: Result<(), EncodeError>) {
        put_u64(out, *self);
        Ok(())
    }

    fn decode(bytes: &[u8], pos: usize) -> (r: Result<(u64, usize), DecodeError>) {
        let _n = bytes.len();
        match get_u64(bytes, pos) {
            Some(v) => Ok((v, pos + 8)),
            None => Err(DecodeError::UnexpectedEof),
        }
    }

    proof fn lemma_roundtrip(m: u64, rest: Seq<u8>) {
        lemma_be64_roundtrip(m);
        assert(from_be64(be64(m) + rest) == from_be64(be64(m)));
    }

    proof fn lemma_decode_bound(b: Seq<u8>) {
    }
}

impl Byteable for i32 {
    type Model = i32;

    open spec fn wire_valid(m: i32) -> bool {
        true
    }

    open spec fn model(&self) -> i32 {
        *self
    }

    open spec fn spec_encode(m: i32) -> Result<Seq<u8>, EncodeError> {
        Ok(be32(m as u32))
    }

    open spec fn spec_decode(b: Seq<u8>) -> Result<(i32, nat), DecodeFault> {
        if b.len() >= 4 {
            Ok((from_be32(b) as i32, 4))
        } else {
            Err(DecodeFault::UnexpectedEof)
        }
    }

    fn encode(&self, out: &mut Vec<u8>) -> (r: Result<(), EncodeError>) {
        put_u32(out, *self as u32);
        Ok(())
    }

    fn decode(bytes: &[u8], pos: usize) -> (r: Result<(i32, usize), DecodeError>) {
        let _n = bytes.len();
        match get_u32(bytes, pos) {
            Some(v) => Ok((#[verifier::truncate] (v as i32), pos + 4)),
            None => Err(DecodeError::UnexpectedEof),
        }
    }

    proof fn lemma_roundtrip(m: i32, rest: Seq<u8>) {
        lemma_be32_roundtrip(m as u32);
        lemma_signed32_roundtrip(m);
        assert(from_be32(be32(m as u32) + rest) == from_be32(be32(m as u32)));
    }

    proof fn lemma_decode_bound(b: Seq<u8>) {
    }
}

impl Byteable for i64 {
    type Model = i64;

    open spec fn wire_valid(m: i64) -> bool {
        true
    }

    open spec fn model(&self) -> i64 {
        *self
    }

    open spec fn spec_encode(m: i64) -> Result<Seq<u8>, EncodeError> {
        Ok(be64(m as u64))
    }

    open spec fn spec_decode(b: Seq<u8>) -> Result<(i64, nat), DecodeFault> {
        if b.len() >= 8 {
            Ok((from_be64(b) as i64, 8))
        } else {
            Err(DecodeFault::UnexpectedEof)
        }
    }

    fn encode(&self, out: &mut Vec<u8>) -> (r: Result<(), EncodeError>) {
        put_u64(out, *self as u64);
        Ok(())
    }

    fn decode(bytes: &[u8], pos: usize) -> (r: Result<(i64, usize), DecodeError>) {
        let _n = bytes.len();
        match get_u64(bytes, pos) {
            Some(v) => Ok((#[verifier::truncate] (v as i64), pos + 8)),
            None => Err(DecodeError::UnexpectedEof),
        }
    }

    proof fn lemma_roundtrip(m: i64, rest: Seq<u8>) {
        lemma_be64_roundtrip(m as u64);
        lemma_signed64_roundtrip(m);
        assert(from_be64(be64(m as u64) + rest) == from_be64(be64(m as u64)));
    }

    proof fn lemma_decode_bound(b: Seq<u8>) {
    }
}

impl Byteable for bool {
    type Model = bool;

    open spec fn wire_valid(m: bool) -> bool {
        true
    }

    open spec fn model(&self) -> bool {
        *self
    }

    open spec fn spec_encode(m: bool) -> Result<Seq<u8>, EncodeError> {
        Ok(seq![if m { 1u8 } else { 0u8 }])
    }

    open spec fn spec_decode(b: Seq<u8>) -> Result<(bool, nat), DecodeFault> {
        if b.len() >= 1 {
            Ok((b[0] != 0, 1))
        } else {
            Err(DecodeFault::UnexpectedEof)
        }
    }

    fn encode(&self, out: &mut Vec<u8>) -> (r: Result<(), EncodeError>) {
        out.push(if *self { 1u8 } else { 0u8 });
        assert(out@ =~= old(out)@ + seq![if *self { 1u8 } else { 0u8 }]);
        Ok(())
    }

    fn decode(bytes: &[u8], pos: usize) -> (r: Result<(bool, usize), DecodeError>) {
        if bytes.len() - pos < 1 {
            return Err(DecodeError::UnexpectedEof);
        }
        Ok((bytes[pos] != 0, pos + 1))
    }

    proof fn lemma_roundtrip(m: bool, rest: Seq<u8>) {
    }

    proof fn lemma_decode_bound(b: Seq<u8>) {
    }
}

} // verus!

verus! {

/// The largest length that a prefix of `width` bytes holds.
pub open spec fn max_len(width: nat) -> nat {
    if width == 1 {
        0xff
    } else if width == 2 {
        0xffff
    } else {
        0xffff_ffff
    }
}

/// A length written big-endian in `width` bytes (1, 2 or 4).
pub open spec fn len_prefix(width: nat, n: nat) -> Seq<u8> {
    if width == 1 {
        seq![n as u8]
    } else if width == 2 {
        be16(n as u16)
    } else {
        be32(n as u32)
    }
}

/// The length read from the first `width` bytes of `b`.
pub open spec fn read_len(width: nat, b: Seq<u8>) -> nat {
    if width == 1 {
        b[0] as nat
    } else if width == 2 {
        from_be16(b) as nat
    } else {
        from_be32(b) as nat
    }
}

pub proof fn lemma_len_prefix(width: nat, n: nat, rest: Seq<u8>)
    requires
        width == 1 || width == 2 || width == 4,
        n <= max_len(width),
    ensures
        len_prefix(width, n).len() == width,
        read_len(width, len_prefix(width, n) + rest) == n,
{
    if width == 2 {
        lemma_be16_roundtrip(n as u16);
        assert(from_be16(be16(n as u16) + rest) == from_be16(be16(n as u16)));
    } else if width == 4 {
        lemma_be32_roundtrip(n as u32);
        assert(from_be32(be32(n as u32) + rest) == from_be32(be32(n as u32)));
    }
}

/// The bytes written for a text with a length prefix of `width` bytes: the
/// UTF-8 length, then the UTF-8 bytes.
pub open spec fn spec_encode_text(m: Seq<char>, width: nat) -> Result<Seq<u8>, EncodeError> {
    let b = encode_utf8(m);
    if b.len() > max_len(width) {
        Err(EncodeError::TooManyElements { allowed: max_len(width) as usize, actual: b.len() as usize })
    } else {
        Ok(len_prefix(width, b.len()) + b)
    }
}

pub open spec fn spec_decode_text(b: Seq<u8>, width: nat) -> Result<(Seq<char>, nat), DecodeFault> {
    if b.len() < width {
        Err(DecodeFault::UnexpectedEof)
    } else {
        let len = read_len(width, b);
        if b.len() - width < len {
            Err(DecodeFault::UnexpectedEof)
        } else {
            let body = b.skip(width as int).take(len as int);
            if valid_utf8(body) {
                Ok((decode_utf8(body), len + width))
            } else {
                Err(DecodeFault::InvalidUtf8)
            }
        }
    }
}

/// A character takes at most four bytes of UTF-8.
pub proof fn lemma_utf8_len_bound(m: Seq<char>)
    ensures
        encode_utf8(m).len() <= 4 * m.len(),
    decreases m.len(),
{
    if m.len() > 0 {
        lemma_utf8_len_bound(m.drop_first());
    }
}

/// A text of at most 16383 characters can always be written as a string.
pub proof fn lemma_short_str_encodable(m: Seq<char>)
    requires
        m.len() <= 16383,
    ensures
        spec_encode_str(m) is Ok,
{
    lemma_utf8_len_bound(m);
}

pub open spec fn spec_encode_str(m: Seq<char>) -> Result<Seq<u8>, EncodeError> {
    spec_encode_text(m, 2)
}

pub open spec fn spec_decode_str(b: Seq<u8>) -> Result<(Seq<char>, nat), DecodeFault> {
    spec_decode_text(b, 2)
}

pub proof fn lemma_text_roundtrip(m: Seq<char>, width: nat, rest: Seq<u8>)
    requires
        width == 1 || width == 2 || width == 4,
        spec_encode_text(m, width) is Ok,
    ensures
        spec_decode_text(spec_encode_text(m, width)->Ok_0 + rest, width) == Ok::<
            (Seq<char>, nat),
            DecodeFault,
        >((m, spec_encode_text(m, width)->Ok_0.len())),
{
    let b = encode_utf8(m);
    let h = len_prefix(width, b.len());
    lemma_len_prefix(width, b.len(), b + rest);
    assert(h + b + rest =~= h + (b + rest));
    assert((h + b + rest).skip(width as int).take(b.len() as int) =~= b);
}

/// Writes `s` as text with a length prefix of `width` bytes.
pub fn encode_text(s: &str, width: usize, out: &mut Vec<u8>) -> (r: Result<(), EncodeError>)
    requires
        width == 1 || width == 2 || width == 4,
    ensures
        match spec_encode_text(s@, width as nat) {
            Ok(e) => r is Ok && final(out)@ == old(out)@ + e,
            Err(err) => r == Err::<(), EncodeError>(err),
        },
{
    let bytes = s.as_bytes();
    let len = bytes.len();
    let max: usize = if width == 1 {
        0xff
    } else if width == 2 {
        0xffff
    } else if len > 0xffff_ffff {
        return Err(EncodeError::TooManyElements { allowed: (0xffff_ffffu64) as usize, actual: len });
    } else {
        0xffff_ffff
    };
    if len > max {
        return Err(EncodeError::TooManyElements { allowed: max, actual: len });
    }
    if width == 1 {
        out.push(len as u8);
    } else if width == 2 {
        put_u16(out, len as u16);
    } else {
        put_u32(out, len as u32);
    }
    let ghost mid = out@;
    assert(mid == old(out)@ + len_prefix(width as nat, len as nat));
    crate::helpers::codec::put_bytes(out, bytes);
    assert(out@ =~= old(out)@ + (len_prefix(width as nat, len as nat) + bytes@));
    Ok(())
}

/// Reads text with a length prefix of `width` bytes at `pos`.
pub fn decode_text(bytes: &[u8], pos: usize, width: usize) -> (r: Result<(String, usize), DecodeError>)
    requires
        pos <= bytes@.len(),
        width == 1 || width == 2 || width == 4,
    ensures
        match r {
            Ok((v, p)) => pos <= p <= bytes@.len() && spec_decode_text(bytes@.skip(pos as int), width as nat)
                == Ok::<(Seq<char>, nat), DecodeFault>((v@, (p - pos) as nat)),
            Err(e) => spec_decode_text(bytes@.skip(pos as int), width as nat) == Err::<(Seq<char>, nat), DecodeFault>(
                e.fault(),
            ),
        },
{
    let n = bytes.len();
    if n - pos < width {
        return Err(DecodeError::UnexpectedEof);
    }
    let len: usize = if width == 1 {
        bytes[pos] as usize
    } else if width == 2 {
        match get_u16(bytes, pos) {
            Some(l) => l as usize,
            None => return Err(DecodeError::UnexpectedEof),
        }
    } else {
        match get_u32(bytes, pos) {
            Some(l) => {
                if l as u64 > n as u64 {
                    return Err(DecodeError::UnexpectedEof);
                }
                l as usize
            },
            None => return Err(DecodeError::UnexpectedEof),
        }
    };
    let start = pos + width;
    if n - start < len {
        return Err(DecodeError::UnexpectedEof);
    }
    let body = crate::helpers::codec::take_bytes(bytes, start, len);
    proof {
        lemma_skip_skip(bytes@, pos as int, width as int);
    }
    match crate::helpers::strings::string_from_utf8(body) {
        Ok(s) => Ok((s, start + len)),
        Err(_) => Err(DecodeError::InvalidUtf8),
    }
}

pub proof fn lemma_str_roundtrip(m: Seq<char>, rest: Seq<u8>)
    requires
        spec_encode_str(m) is Ok,
    ensures
        spec_decode_str(spec_encode_str(m)->Ok_0 + rest) == Ok::<(Seq<char>, nat), DecodeFault>(
            (m, spec_encode_str(m)->Ok_0.len()),
        ),
{
    lemma_text_roundtrip(m, 2, rest);
}

/// Writes `s` as the wire format writes a string.
pub fn encode_str(s: &str, out: &mut Vec<u8>) -> (r: Result<(), EncodeError>)
    ensures
        match spec_encode_str(s@) {
            Ok(e) => r is Ok && final(out)@ == old(out)@ + e,
            Err(err) => r == Err::<(), EncodeError>(err),
        },
{
    encode_text(s, 2, out)
}

/// Reads a string at `pos`.
pub fn decode_string(bytes: &[u8], pos: usize) -> (r: Result<(String, usize), DecodeError>)
    requires
        pos <= bytes@.len(),
    ensures
        match r {
            Ok((v, p)) => pos <= p <= bytes@.len() && spec_decode_str(bytes@.skip(pos as int))
                == Ok::<(Seq<char>, nat), DecodeFault>((v@, (p - pos) as nat)),
            Err(e) => spec_decode_str(bytes@.skip(pos as int)) == Err::<(Seq<char>, nat), DecodeFault>(
                e.fault(),
            ),
        },
{
    decode_text(bytes, pos, 2)
}

impl Byteable for String {
    type Model = Seq<char>;

    open spec fn wire_valid(m: Seq<char>) -> bool {
        true
    }

    open spec fn model(&self) -> Seq<char> {
        self@
    }

    open spec fn spec_encode(m: Seq<char>) -> Result<Seq<u8>, EncodeError> {
        spec_encode_str(m)
    }

    open spec fn spec_decode(b: Seq<u8>) -> Result<(Seq<char>, nat), DecodeFault> {
        spec_decode_str(b)
    }

    fn encode(&self, out: &mut Vec<u8>) -> (r: Result<(), EncodeError>) {
        encode_str(self.as_str(), out)
    }

    fn decode(bytes: &[u8], pos: usize) -> (r: Result<(String, usize), DecodeError>) {
        decode_string(bytes, pos)
    }

    proof fn lemma_roundtrip(m: Seq<char>, rest: Seq<u8>) {
        lemma_str_roundtrip(m, rest);
    }

    proof fn lemma_decode_bound(b: Seq<u8>) {
    }
}

impl<T: Byteable> Byteable for Option<T> {
    type Model = Option<T::Model>;

    open spec fn wire_valid(m: Option<T::Model>) -> bool {
        match m {
            Some(v) => T::wire_valid(v),
            None => true,
        }
    }

    open spec fn model(&self) -> Option<T::Model> {
        match self {
            Some(v) => Some(v.model()),
            None => None,
        }
    }

    open spec fn spec_encode(m: Option<T::Model>) -> Result<Seq<u8>, EncodeError> {
        match m {
            Some(v) => match T::spec_encode(v) {
                Ok(e) => Ok(seq![1u8] + e),
                Err(err) => Err(err),
            },
            None => Ok(seq![0u8]),
        }
    }

    open spec fn spec_decode(b: Seq<u8>) -> Result<(Option<T::Model>, nat), DecodeFault> {
        if b.len() < 1 {
            Err(DecodeFault::UnexpectedEof)
        } else if b[0] == 0 {
            Ok((None, 1))
        } else {
            match T::spec_decode(b.skip(1)) {
                Ok((v, n)) => Ok((Some(v), n + 1)),
                Err(f) => Err(f),
            }
        }
    }

    fn encode(&self, out: &mut Vec<u8>) -> (r: Result<(), EncodeError>) {
        match self {
            Some(v) => {
                out.push(1u8);
                let ghost mid = out@;
                let r = v.encode(out);
                if r.is_ok() {
                    assert(out@ =~= old(out)@ + (seq![1u8] + T::spec_encode(v.model())->Ok_0));
                }
                r
            },
            None => {
                out.push(0u8);
                assert(out@ =~= old(out)@ + seq![0u8]);
                Ok(())
            },
        }
    }

    fn decode(bytes: &[u8], pos: usize) -> (r: Result<(Option<T>, usize), DecodeError>) {
        if bytes.len() - pos < 1 {
            return Err(DecodeError::UnexpectedEof);
        }
        if bytes[pos] == 0 {
            return Ok((None, pos + 1));
        }
        proof {
            lemma_skip_skip(bytes@, pos as int, 1);
        }
        match T::decode(bytes, pos + 1) {
            Ok((v, p)) => Ok((Some(v), p)),
            Err(e) => Err(e),
        }
    }

    proof fn lemma_roundtrip(m: Option<T::Model>, rest: Seq<u8>) {
        match m {
            Some(v) => {
                let e = T::spec_encode(v)->Ok_0;
                T::lemma_roundtrip(v, rest);
                assert((seq![1u8] + e + rest).skip(1) =~= e + rest);
            },
            None => {
            },
        }
    }

    proof fn lemma_decode_bound(b: Seq<u8>) {
        if b.len() >= 1 {
            T::lemma_decode_bound(b.skip(1));
        }
    }
}

impl<T: Byteable, E: Byteable> Byteable for Result<T, E> {
    type Model = Result<T::Model, E::Model>;

    open spec fn wire_valid(m: Result<T::Model, E::Model>) -> bool {
        match m {
            Ok(v) => T::wire_valid(v),
            Err(v) => E::wire_valid(v),
        }
    }

    open spec fn model(&self) -> Result<T::Model, E::Model> {
        match self {
            Ok(v) => Ok(v.model()),
            Err(e) => Err(e.model()),
        }
    }

    open spec fn spec_encode(m: Result<T::Model, E::Model>) -> Result<Seq<u8>, EncodeError> {
        match m {
            Ok(v) => match T::spec_encode(v) {
                Ok(e) => Ok(seq![0u8] + e),
                Err(err) => Err(err),
            },
            Err(v) => match E::spec_encode(v) {
                Ok(e) => Ok(seq![1u8] + e),
                Err(err) => Err(err),
            },
        }
    }

    open spec fn spec_decode(b: Seq<u8>) -> Result<(Result<T::Model, E::Model>, nat), DecodeFault> {
        if b.len() < 1 {
            Err(DecodeFault::UnexpectedEof)
        } else if b[0] == 0 {
            match T::spec_decode(b.skip(1)) {
                Ok((v, n)) => Ok((Ok(v), n + 1)),
                Err(f) => Err(f),
            }
        } else {
            match E::spec_decode(b.skip(1)) {
                Ok((v, n)) => Ok((Err(v), n + 1)),
                Err(f) => Err(f),
            }
        }
    }

    fn encode(&self, out: &mut Vec<u8>) -> (r: Result<(), EncodeError>) {
        match self {
            Ok(v) => {
                out.push(0u8);
                let r = v.encode(out);
                if r.is_ok() {
                    assert(out@ =~= old(out)@ + (seq![0u8] + T::spec_encode(v.model())->Ok_0));
                }
                r
            },
            Err(v) => {
                out.push(1u8);
                let r = v.encode(out);
                if r.is_ok() {
                    assert(out@ =~= old(out)@ + (seq![1u8] + E::spec_encode(v.model())->Ok_0));
                }
                r
            },
        }
    }

    fn decode(bytes: &[u8], pos: usize) -> (r: Result<(Result<T, E>, usize), DecodeError>) {
        if bytes.len() - pos < 1 {
            return Err(DecodeError::UnexpectedEof);
        }
        proof {
            lemma_skip_skip(bytes@, pos as int, 1);
        }
        if bytes[pos] == 0 {
            match T::decode(bytes, pos + 1) {
                Ok((v, p)) => Ok((Ok(v), p)),
                Err(e) => Err(e),
            }
        } else {
            match E::decode(bytes, pos + 1) {
                Ok((v, p)) => Ok((Err(v), p)),
                Err(e) => Err(e),
            }
        }
    }

    proof fn lemma_roundtrip(m: Result<T::Model, E::Model>, rest: Seq<u8>) {
        match m {
            Ok(v) => {
                let e = T::spec_encode(v)->Ok_0;
                T::lemma_roundtrip(v, rest);
                assert((seq![0u8] + e + rest).skip(1) =~= e + rest);
            },
            Err(v) => {
                let e = E::spec_encode(v)->Ok_0;
                E::lemma_roundtrip(v, rest);
                assert((seq![1u8] + e + rest).skip(1) =~= e + rest);
            },
        }
    }

    proof fn lemma_decode_bound(b: Seq<u8>) {
        if b.len() >= 1 {
            T::lemma_decode_bound(b.skip(1));
            E::lemma_decode_bound(b.skip(1));
        }
    }
}

impl<T: Byteable, U: Byteable> Byteable for (T, U) {
    type Model = (T::Model, U::Model);

    open spec fn wire_valid(m: (T::Model, U::Model)) -> bool {
        T::wire_valid(m.0) && U::wire_valid(m.1)
    }

    open spec fn model(&self) -> (T::Model, U::Model) {
        (self.0.model(), self.1.model())
    }

    open spec fn spec_encode(m: (T::Model, U::Model)) -> Result<Seq<u8>, EncodeError> {
        match T::spec_encode(m.0) {
            Err(err) => Err(err),
            Ok(a) => match U::spec_encode(m.1) {
                Err(err) => Err(err),
                Ok(b) => Ok(a + b),
            },
        }
    }

    open spec fn spec_decode(b: Seq<u8>) -> Result<((T::Model, U::Model), nat), DecodeFault> {
        match T::spec_decode(b) {
            Err(f) => Err(f),
            Ok((x, n)) => match U::spec_decode(b.skip(n as int)) {
                Err(f) => Err(f),
                Ok((y, k)) => Ok(((x, y), n + k)),
            },
        }
    }

    fn encode(&self, out: &mut Vec<u8>) -> (r: Result<(), EncodeError>) {
        let r0 = self.0.encode(out);
        if r0.is_err() {
            return r0;
        }
        let r1 = self.1.encode(out);
        if r1.is_ok() {
            assert(out@ =~= old(out)@ + (T::spec_encode(self.0.model())->Ok_0 + U::spec_encode(
                self.1.model(),
            )->Ok_0));
        }
        r1
    }

    fn decode(bytes: &[u8], pos: usize) -> (r: Result<((T, U), usize), DecodeError>) {
        let (x, p) = match T::decode(bytes, pos) {
            Ok(v) => v,
            Err(e) => return Err(e),
        };
        proof {
            lemma_skip_skip(bytes@, pos as int, p - pos);
        }
        match U::decode(bytes, p) {
            Ok((y, q)) => Ok(((x, y), q)),
            Err(e) => Err(e),
        }
    }

    proof fn lemma_roundtrip(m: (T::Model, U::Model), rest: Seq<u8>) {
        let a = T::spec_encode(m.0)->Ok_0;
        let b = U::spec_encode(m.1)->Ok_0;
        T::lemma_roundtrip(m.0, b + rest);
        assert(a + b + rest =~= a + (b + rest));
        U::lemma_roundtrip(m.1, rest);
        lemma_skip_concat(a, b + rest);
    }

    proof fn lemma_decode_bound(b: Seq<u8>) {
        T::lemma_decode_bound(b);
        if let Ok((x, n)) = T::spec_decode(b) {
            U::lemma_decode_bound(b.skip(n as int));
        }
    }
}

} // verus!

verus! {

/// The bytes of the items of a sequence, one after the other; the first
/// item that cannot be written gives the error.
pub open spec fn spec_encode_items<T: Byteable>(s: Seq<T::Model>) -> Result<Seq<u8>, EncodeError>
    decreases s.len(),
{
    if s.len() == 0 {
        Ok(Seq::empty())
    } else {
        match T::spec_encode(s[0]) {
            Err(err) => Err(err),
            Ok(a) => match spec_encode_items::<T>(s.drop_first()) {
                Err(err) => Err(err),
                Ok(b) => Ok(a + b),
            },
        }
    }
}

/// Reads `n` items one after the other.
pub open spec fn spec_decode_items<T: Byteable>(b: Seq<u8>, n: nat) -> Result<
    (Seq<T::Model>, nat),
    DecodeFault,
>
    decreases n,
{
    if n == 0 {
        Ok((Seq::empty(), 0))
    } else {
        match T::spec_decode(b) {
            Err(f) => Err(f),
            Ok((x, k)) => match spec_decode_items::<T>(b.skip(k as int), (n - 1) as nat) {
                Err(f) => Err(f),
                Ok((xs, j)) => Ok((seq![x] + xs, k + j)),
            },
        }
    }
}

pub open spec fn join_encoded(a: Result<Seq<u8>, EncodeError>, b: Result<Seq<u8>, EncodeError>) -> Result<Seq<u8>, EncodeError> {
    match a {
        Err(e) => Err(e),
        Ok(p) => match b {
            Err(e) => Err(e),
            Ok(q) => Ok(p + q),
        },
    }
}

pub open spec fn prepend_decoded<M>(ms: Seq<M>, c: nat, r: Result<(Seq<M>, nat), DecodeFault>) -> Result<(Seq<M>, nat), DecodeFault> {
    match r {
        Err(f) => Err(f),
        Ok((xs, j)) => Ok((ms + xs, c + j)),
    }
}

pub proof fn lemma_encode_items_concat<T: Byteable>(a: Seq<T::Model>, b: Seq<T::Model>)
    ensures
        spec_encode_items::<T>(a + b) == join_encoded(spec_encode_items::<T>(a), spec_encode_items::<T>(b)),
    decreases a.len(),
{
    if a.len() == 0 {
        assert(a + b =~= b);
        if let Ok(q) = spec_encode_items::<T>(b) {
            assert(Seq::<u8>::empty() + q =~= q);
        }
    } else {
        lemma_encode_items_concat::<T>(a.drop_first(), b);
        assert((a + b).drop_first() =~= a.drop_first() + b);
        assert((a + b)[0] == a[0]);
        if let Ok(x) = T::spec_encode(a[0]) {
            if let Ok(p) = spec_encode_items::<T>(a.drop_first()) {
                if let Ok(q) = spec_encode_items::<T>(b) {
                    assert(x + (p + q) =~= (x + p) + q);
                }
            }
        }
    }
}

pub proof fn lemma_encode_items_single<T: Byteable>(m: T::Model)
    ensures
        spec_encode_items::<T>(seq![m]) == T::spec_encode(m),
{
    assert(seq![m].drop_first() =~= Seq::<T::Model>::empty());
    assert(seq![m][0] == m);
    assert(spec_encode_items::<T>(Seq::<T::Model>::empty()) == Ok::<Seq<u8>, EncodeError>(Seq::<u8>::empty()));
    if let Ok(x) = T::spec_encode(m) {
        assert(x + Seq::<u8>::empty() =~= x);
    }
}

pub proof fn lemma_items_roundtrip<T: Byteable>(s: Seq<T::Model>, rest: Seq<u8>)
    requires
        forall|i: int| 0 <= i < s.len() ==> T::wire_valid(#[trigger] s[i]),
        spec_encode_items::<T>(s) is Ok,
    ensures
        spec_decode_items::<T>(spec_encode_items::<T>(s)->Ok_0 + rest, s.len()) == Ok::<
            (Seq<T::Model>, nat),
            DecodeFault,
        >((s, spec_encode_items::<T>(s)->Ok_0.len())),
    decreases s.len(),
{
    if s.len() == 0 {
        assert(s =~= Seq::<T::Model>::empty());
    } else {
        let a = T::spec_encode(s[0])->Ok_0;
        let t = s.drop_first();
        let b = spec_encode_items::<T>(t)->Ok_0;
        T::lemma_roundtrip(s[0], b + rest);
        assert(a + b + rest =~= a + (b + rest));
        lemma_skip_concat(a, b + rest);
        assert forall|i: int| 0 <= i < t.len() implies T::wire_valid(#[trigger] t[i]) by {
            assert(t[i] == s[i + 1]);
        }
        lemma_items_roundtrip::<T>(t, rest);
        assert(seq![s[0]] + t =~= s);
    }
}

pub proof fn lemma_decode_items_bound<T: Byteable>(b: Seq<u8>, n: nat)
    ensures
        spec_decode_items::<T>(b, n) matches Ok((ms, k)) ==> k <= b.len() && ms.len() == n,
    decreases n,
{
    if n > 0 {
        T::lemma_decode_bound(b);
        if let Ok((x, k)) = T::spec_decode(b) {
            lemma_decode_items_bound::<T>(b.skip(k as int), (n - 1) as nat);
        }
    }
}

/// A sequence of items that can each be written can be written whole.
pub proof fn lemma_items_encodable<T: Byteable>(m: Seq<T::Model>)
    requires
        forall|i: int| 0 <= i < m.len() ==> (#[trigger] T::spec_encode(m[i])) is Ok,
    ensures
        spec_encode_items::<T>(m) is Ok,
    decreases m.len(),
{
    if m.len() > 0 {
        let t = m.drop_first();
        assert forall|i: int| 0 <= i < t.len() implies (#[trigger] T::spec_encode(t[i])) is Ok by {
            assert(t[i] == m[i + 1]);
            assert(T::spec_encode(m[i + 1]) is Ok);
        }
        lemma_items_encodable::<T>(t);
        assert(T::spec_encode(m[0]) is Ok);
    }
}

/// A list is refused only for its length: a list of at most 65535 items,
/// each of which can be written, can be written, and a longer one is refused
/// as having too many elements.
pub proof fn lemma_list_encodable<T: Byteable>(m: Seq<T::Model>)
    ensures
        m.len() <= 65535 && (forall|i: int| 0 <= i < m.len() ==> (#[trigger] T::spec_encode(m[i])) is Ok)
            ==> <Vec<T> as Byteable>::spec_encode(m) is Ok,
        m.len() > 65535 ==> <Vec<T> as Byteable>::spec_encode(m) matches Err(EncodeError::TooManyElements { .. }),
{
    if m.len() <= 65535 && (forall|i: int| 0 <= i < m.len() ==> (#[trigger] T::spec_encode(m[i])) is Ok) {
        lemma_items_encodable::<T>(m);
    }
}

/// Appends the bytes of each item in turn; stops at the first that cannot be written.
pub fn encode_all<T: Byteable>(items: &Vec<T>, out: &mut Vec<u8>) -> (r: Result<(), EncodeError>)
    ensures
        match spec_encode_items::<T>(items@.map_values(|x: T| x.model())) {
            Ok(e) => r is Ok && final(out)@ == old(out)@ + e,
            Err(err) => r == Err::<(), EncodeError>(err),
        },
{
    let len = items.len();
    let ghost models = items@.map_values(|x: T| x.model());
    let ghost start = out@;
    let mut i: usize = 0;
    assert(models.take(0) =~= Seq::<T::Model>::empty());
    assert(out@ =~= start + Seq::<u8>::empty());
    while i < len
        invariant
            i <= len,
            len == items@.len(),
            models == items@.map_values(|x: T| x.model()),
            start == old(out)@,
            spec_encode_items::<T>(models.take(i as int)) is Ok,
            out@ == start + spec_encode_items::<T>(models.take(i as int))->Ok_0,
        decreases len - i,
    {
        let r = items[i].encode(out);
        proof {
            assert(models[i as int] == items@[i as int].model());
            assert(models.take(i + 1) =~= models.take(i as int) + seq![models[i as int]]);
            lemma_encode_items_concat::<T>(models.take(i as int), seq![models[i as int]]);
            lemma_encode_items_single::<T>(models[i as int]);
        }
        if r.is_err() {
            proof {
                assert(models =~= models.take(i + 1) + models.skip(i + 1));
                lemma_encode_items_concat::<T>(models.take(i + 1), models.skip(i + 1));
            }
            return r;
        }
        i = i + 1;
        assert(out@ =~= start + spec_encode_items::<T>(models.take(i as int))->Ok_0);
    }
    assert(models.take(len as int) =~= models);
    Ok(())
}

impl<T: Byteable> Byteable for Vec<T> {
    type Model = Seq<T::Model>;

    open spec fn wire_valid(m: Seq<T::Model>) -> bool {
        forall|i: int| 0 <= i < m.len() ==> T::wire_valid(#[trigger] m[i])
    }

    open spec fn model(&self) -> Seq<T::Model> {
        self@.map_values(|x: T| x.model())
    }

    /// The number of items as a big-endian `u16`, then the items.
    open spec fn spec_encode(m: Seq<T::Model>) -> Result<Seq<u8>, EncodeError> {
        if m.len() > u16::MAX {
            Err(EncodeError::TooManyElements { allowed: u16::MAX as usize, actual: m.len() as usize })
        } else {
            match spec_encode_items::<T>(m) {
                Err(err) => Err(err),
                Ok(e) => Ok(be16(m.len() as u16) + e),
            }
        }
    }

    open spec fn spec_decode(b: Seq<u8>) -> Result<(Seq<T::Model>, nat), DecodeFault> {
        if b.len() < 2 {
            Err(DecodeFault::UnexpectedEof)
        } else {
            match spec_decode_items::<T>(b.skip(2), from_be16(b) as nat) {
                Err(f) => Err(f),
                Ok((xs, j)) => Ok((xs, j + 2)),
            }
        }
    }

    fn encode(&self, out: &mut Vec<u8>) -> (r: Result<(), EncodeError>) {
        let len = self.len();
        if len > 65535 {
            return Err(EncodeError::TooManyElements { allowed: 65535, actual: len });
        }
        put_u16(out, len as u16);
        let ghost start = out@;
        let r = encode_all(self, out);
        proof {
            if r is Ok {
                assert(out@ =~= old(out)@ + (be16(len as u16) + spec_encode_items::<T>(self.model())->Ok_0));
            }
        }
        r
    }

    fn decode(bytes: &[u8], pos: usize) -> (r: Result<(Vec<T>, usize), DecodeError>) {
        let n = bytes.len();
        let count = match get_u16(bytes, pos) {
            Some(c) => c,
            None => return Err(DecodeError::UnexpectedEof),
        };
        let start = pos + 2;
        let ghost b0 = bytes@.skip(start as int);
        proof {
            lemma_skip_skip(bytes@, pos as int, 2);
        }
        let mut items: Vec<T> = Vec::new();
        let mut p = start;
        let mut i: u16 = 0;
        assert(Seq::<T::Model>::empty() + Seq::<T::Model>::empty() =~= Seq::<T::Model>::empty());
        assert(bytes@.skip(start as int) =~= b0);
        while i < count
            invariant
                n == bytes@.len(),
                start <= p <= n,
                pos + 2 == start,
                b0 == bytes@.skip(start as int),
                bytes@.skip(pos as int).skip(2) == b0,
                bytes@.len() - pos >= 2,
                from_be16(bytes@.skip(pos as int)) == count,
                i <= count,
                items@.len() == i,
                spec_decode_items::<T>(b0, count as nat) == prepend_decoded(
                    items@.map_values(|x: T| x.model()),
                    (p - start) as nat,
                    spec_decode_items::<T>(bytes@.skip(p as int), (count - i) as nat),
                ),
            decreases count - i,
        {
            let ghost before = items@.map_values(|x: T| x.model());
            let ghost rest_spec = spec_decode_items::<T>(bytes@.skip(p as int), (count - i) as nat);
            match T::decode(bytes, p) {
                Ok((v, q)) => {
                    proof {
                        lemma_skip_skip(bytes@, p as int, q - p);
                        let tail = spec_decode_items::<T>(bytes@.skip(q as int), (count - i - 1) as nat);
                        assert(rest_spec == prepend_decoded(seq![v.model()], (q - p) as nat, tail));
                        match tail {
                            Ok((xs, j)) => {
                                assert(before + (seq![v.model()] + xs) =~= before.push(v.model()) + xs);
                            },
                            Err(f) => {},
                        }
                    }
                    let ghost vm = v.model();
                    items.push(v);
                    p = q;
                    i = i + 1;
                    assert(items@.map_values(|x: T| x.model()) =~= before.push(vm));
                },
                Err(e) => {
                    assert(rest_spec == Err::<(Seq<T::Model>, nat), DecodeFault>(e.fault()));
                    return Err(e);
                },
            }
        }
        assert(items@.map_values(|x: T| x.model()) + Seq::<T::Model>::empty() =~= items@.map_values(|x: T| x.model()));
        Ok((items, p))
    }

    proof fn lemma_roundtrip(m: Seq<T::Model>, rest: Seq<u8>) {
        let e = spec_encode_items::<T>(m)->Ok_0;
        let h = be16(m.len() as u16);
        lemma_be16_roundtrip(m.len() as u16);
        assert(from_be16(h + e + rest) == from_be16(h));
        assert((h + e + rest).skip(2) =~= e + rest);
        lemma_items_roundtrip::<T>(m, rest);
    }

    proof fn lemma_decode_bound(b: Seq<u8>) {
        if b.len() >= 2 {
            lemma_decode_items_bound::<T>(b.skip(2), from_be16(b) as nat);
        }
    }
}

} // verus!

verus! {

impl<const N: usize> Byteable for [u8; N] {
    type Model = Seq<u8>;

    open spec fn wire_valid(m: Seq<u8>) -> bool {
        true
    }

    open spec fn model(&self) -> Seq<u8> {
        self@
    }

    /// The `N` bytes as they are.
    open spec fn spec_encode(m: Seq<u8>) -> Result<Seq<u8>, EncodeError> {
        if m.len() == N {
            Ok(m)
        } else {
            Err(EncodeError::InvalidData)
        }
    }

    open spec fn spec_decode(b: Seq<u8>) -> Result<(Seq<u8>, nat), DecodeFault> {
        if b.len() < N {
            Err(DecodeFault::UnexpectedEof)
        } else {
            Ok((b.take(N as int), N as nat))
        }
    }

    fn encode(&self, out: &mut Vec<u8>) -> (r: Result<(), EncodeError>) {
        crate::helpers::codec::put_bytes(out, self.as_slice());
        Ok(())
    }

    fn decode(bytes: &[u8], pos: usize) -> (r: Result<([u8; N], usize), DecodeError>) {
        let n = bytes.len();
        if n - pos < N {
            return Err(DecodeError::UnexpectedEof);
        }
        let mut a = [0u8; N];
        let mut i: usize = 0;
        while i < N
            invariant
                i <= N,
                n == bytes@.len(),
                pos + N <= n,
                a@.len() == N,
                forall|j: int| 0 <= j < i ==> a@[j] == bytes@[pos + j],
            decreases N - i,
        {
            a[i] = bytes[pos + i];
            i = i + 1;
        }
        assert(a@ =~= bytes@.skip(pos as int).take(N as int));
        Ok((a, pos + N))
    }

    proof fn lemma_roundtrip(m: Seq<u8>, rest: Seq<u8>) {
        assert((m + rest).take(N as int) =~= m);
    }

    proof fn lemma_decode_bound(b: Seq<u8>) {
    }
}

} // verus!
