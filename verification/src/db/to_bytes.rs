use vstd::prelude::*;

verus! {

/// A value with a canonical byte form, used as the input of signatures and hashes.
pub trait ToBytes {
    spec fn spec_to_bytes(&self) -> Seq<u8>;

    fn to_bytes(&self) -> (r: Vec<u8>)
        ensures
            r@ == self.spec_to_bytes(),
    ;
}

impl ToBytes for () {
    open spec fn spec_to_bytes(&self) -> Seq<u8> {
        Seq::empty()
    }

    fn to_bytes(&self) -> (r: Vec<u8>) {
        Vec::new()
    }
}

impl ToBytes for String {
    /// The UTF-8 bytes of the string.
    open spec fn spec_to_bytes(&self) -> Seq<u8> {
        vstd::utf8::encode_utf8(self@)
    }

    fn to_bytes(&self) -> (r: Vec<u8>) {
        let mut v: Vec<u8> = Vec::new();
        crate::helpers::codec::put_bytes(&mut v, self.as_str().as_bytes());
        assert(v@ =~= vstd::utf8::encode_utf8(self@));
        v
    }
}

} // verus!
