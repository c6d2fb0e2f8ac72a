//! Strings whose UTF-8 length fits a length prefix of 8, 16 or 32 bits.
use vstd::prelude::*;

use crate::errors::{DecodeError, DecodeFault, EncodeError};
use crate::helpers::byteable::{
    decode_text, encode_text, lemma_text_roundtrip, max_len, spec_decode_text, spec_encode_text,
    Byteable,
};

verus! {

/// A string of at most 255 UTF-8 bytes; written with a one-byte length.
#[derive(Debug, Clone)]
pub struct String8(String);

/// A string of at most 65535 UTF-8 bytes; written with a two-byte length.
#[derive(Debug, Clone)]
pub struct String16(String);

/// A string of at most 4294967295 UTF-8 bytes; written with a four-byte length.
#[derive(Debug, Clone)]
pub struct String32(String);

/// The UTF-8 length of the characters `s`, as `str::len` reports it.
pub open spec fn utf8_len(s: Seq<char>) -> usize {
    vstd::utf8::encode_utf8(s).len() as usize
}

impl View for String8 {
    type V = Seq<char>;

    closed spec fn view(&self) -> Seq<char> {
        self.0@
    }
}

impl View for String16 {
    type V = Seq<char>;

    closed spec fn view(&self) -> Seq<char> {
        self.0@
    }
}

impl View for String32 {
    type V = Seq<char>;

    closed spec fn view(&self) -> Seq<char> {
        self.0@
    }
}

impl String8 {
    /// Returns the UTF-8 length as the error if the string is too long.
    pub fn new(s: String) -> (r: Result<String8, usize>)
        ensures
            utf8_len(s@) <= max_len(1) ==> (r matches Ok(v) && v@ == s@),
            utf8_len(s@) > max_len(1) ==> r == Err::<String8, usize>(utf8_len(s@)),
    {
        let len = s.as_str().len();
        if len > 255 {
            return Err(len);
        }
        Ok(String8(s))
    }

    pub fn inner(&self) -> (r: &str)
        ensures
            r@ == self@,
    {
        self.0.as_str()
    }

    pub fn to_inner(self) -> (r: String)
        ensures
            r@ == self@,
    {
        self.0
    }
}

impl String16 {
    /// Returns the UTF-8 length as the error if the string is too long.
    pub fn new(s: String) -> (r: Result<String16, usize>)
        ensures
            utf8_len(s@) <= max_len(2) ==> (r matches Ok(v) && v@ == s@),
            utf8_len(s@) > max_len(2) ==> r == Err::<String16, usize>(utf8_len(s@)),
    {
        let len = s.as_str().len();
        if len > 65535 {
            return Err(len);
        }
        Ok(String16(s))
    }

    pub fn inner(&self) -> (r: &str)
        ensures
            r@ == self@,
    {
        self.0.as_str()
    }

    pub fn to_inner(self) -> (r: String)
        ensures
            r@ == self@,
    {
        self.0
    }
}

impl String32 {
    /// Returns the UTF-8 length as the error if the string is too long.
    pub fn new(s: String) -> (r: Result<String32, usize>)
        ensures
            utf8_len(s@) <= max_len(4) ==> (r matches Ok(v) && v@ == s@),
            utf8_len(s@) > max_len(4) ==> r == Err::<String32, usize>(utf8_len(s@)),
    {
        let len = s.as_str().len();
        if len as u64 > 0xffff_ffffu64 {
            return Err(len);
        }
        Ok(String32(s))
    }

    pub fn inner(&self) -> (r: &str)
        ensures
            r@ == self@,
    {
        self.0.as_str()
    }

    pub fn to_inner(self) -> (r: String)
        ensures
            r@ == self@,
    {
        self.0
    }
}

impl Byteable for String8 {
    type Model = Seq<char>;

    open spec fn wire_valid(m: Seq<char>) -> bool {
        true
    }

    open spec fn model(&self) -> Seq<char> {
        self@
    }

    open spec fn spec_encode(m: Seq<char>) -> Result<Seq<u8>, EncodeError> {
        spec_encode_text(m, 1)
    }

    open spec fn spec_decode(b: Seq<u8>) -> Result<(Seq<char>, nat), DecodeFault> {
        spec_decode_text(b, 1)
    }

    fn encode(&self, out: &mut Vec<u8>) -> (r: Result<(), EncodeError>) {
        encode_text(self.0.as_str(), 1, out)
    }

    fn decode(bytes: &[u8], pos: usize) -> (r: Result<(String8, usize), DecodeError>) {
        match decode_text(bytes, pos, 1) {
            Ok((s, p)) => Ok((String8(s), p)),
            Err(e) => Err(e),
        }
    }

    proof fn lemma_roundtrip(m: Seq<char>, rest: Seq<u8>) {
        lemma_text_roundtrip(m, 1, rest);
    }

    proof fn lemma_decode_bound(b: Seq<u8>) {
    }
}

impl Byteable for String16 {
    type Model = Seq<char>;

    open spec fn wire_valid(m: Seq<char>) -> bool {
        true
    }

    open spec fn model(&self) -> Seq<char> {
        self@
    }

    open spec fn spec_encode(m: Seq<char>) -> Result<Seq<u8>, EncodeError> {
        spec_encode_text(m, 2)
    }

    open spec fn spec_decode(b: Seq<u8>) -> Result<(Seq<char>, nat), DecodeFault> {
        spec_decode_text(b, 2)
    }

    fn encode(&self, out: &mut Vec<u8>) -> (r: Result<(), EncodeError>) {
        encode_text(self.0.as_str(), 2, out)
    }

    fn decode(bytes: &[u8], pos: usize) -> (r: Result<(String16, usize), DecodeError>) {
        match decode_text(bytes, pos, 2) {
            Ok((s, p)) => Ok((String16(s), p)),
            Err(e) => Err(e),
        }
    }

    proof fn lemma_roundtrip(m: Seq<char>, rest: Seq<u8>) {
        lemma_text_roundtrip(m, 2, rest);
    }

    proof fn lemma_decode_bound(b: Seq<u8>) {
    }
}

impl Byteable for String32 {
    type Model = Seq<char>;

    open spec fn wire_valid(m: Seq<char>) -> bool {
        true
    }

    open spec fn model(&self) -> Seq<char> {
        self@
    }

    open spec fn spec_encode(m: Seq<char>) -> Result<Seq<u8>, EncodeError> {
        spec_encode_text(m, 4)
    }

    open spec fn spec_decode(b: Seq<u8>) -> Result<(Seq<char>, nat), DecodeFault> {
        spec_decode_text(b, 4)
    }

    fn encode(&self, out: &mut Vec<u8>) -> (r: Result<(), EncodeError>) {
        encode_text(self.0.as_str(), 4, out)
    }

    fn decode(bytes: &[u8], pos: usize) -> (r: Result<(String32, usize), DecodeError>) {
        match decode_text(bytes, pos, 4) {
            Ok((s, p)) => Ok((String32(s), p)),
            Err(e) => Err(e),
        }
    }

    proof fn lemma_roundtrip(m: Seq<char>, rest: Seq<u8>) {
        lemma_text_roundtrip(m, 4, rest);
    }

    proof fn lemma_decode_bound(b: Seq<u8>) {
    }
}

} // verus!
