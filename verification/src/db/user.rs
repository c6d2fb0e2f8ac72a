//! Users: who posted what, at which I2P address, and how far they are trusted.
use vstd::prelude::*;

use crate::crypto::{ed25519_public_key_of, ed25519_signature_of, ed25519_verifies, signs_verifiably};
use crate::config::AkarekoConfig;
use crate::db::ToBytes;
use crate::errors::{DecodeError, DecodeFault, EncodeError};
use crate::helpers::byteable::{
    decode_string, encode_str, lemma_skip_skip, lemma_str_roundtrip, lemma_utf8_len_bound, spec_decode_str,
    spec_encode_str, Byteable,
};
use crate::helpers::codec::{le64_signed, put_bytes, put_i64_le};
use crate::types::{PrivateKey, PublicKey, Signable, Signature, String8, Timestamp};

verus! {

/// How far a user is trusted.
#[derive(Debug, Clone, Copy, Hash, PartialEq, Eq, Structural)]
pub enum TrustLevel {
    /// Also used for one's own user.
    Ignore,
    /// The default for users whose address was not checked.
    Unverified,
    /// The default for users whose address was checked.
    Untrusted,
    Trusted,
    /// Set by hand for sources.
    FullTrust,
}

/// The name shown for a trust level.
pub open spec fn spec_trust_label(t: TrustLevel) -> Seq<char> {
    match t {
        TrustLevel::Ignore => "Ignored"@,
        TrustLevel::Unverified => "Unverified"@,
        TrustLevel::Untrusted => "Untrusted"@,
        TrustLevel::Trusted => "Trusted"@,
        TrustLevel::FullTrust => "Full trust"@,
    }
}

impl TrustLevel {
    /// All levels, from the lowest, as listed for selection.
    pub fn all() -> (r: [TrustLevel; 5])
        ensures
            r@ == seq![
                TrustLevel::Ignore,
                TrustLevel::Unverified,
                TrustLevel::Untrusted,
                TrustLevel::Trusted,
                TrustLevel::FullTrust,
            ],
    {
        let r = [
            TrustLevel::Ignore,
            TrustLevel::Unverified,
            TrustLevel::Untrusted,
            TrustLevel::Trusted,
            TrustLevel::FullTrust,
        ];
        assert(r@ =~= seq![
            TrustLevel::Ignore,
            TrustLevel::Unverified,
            TrustLevel::Untrusted,
            TrustLevel::Trusted,
            TrustLevel::FullTrust,
        ]);
        r
    }

    pub open spec fn spec_code(self) -> u8 {
        match self {
            TrustLevel::Ignore => 0,
            TrustLevel::Unverified => 1,
            TrustLevel::Untrusted => 2,
            TrustLevel::Trusted => 3,
            TrustLevel::FullTrust => 4,
        }
    }

    /// The level's number, from 0 for `Ignore` to 4 for `FullTrust`.
    pub fn code(&self) -> (r: u8)
        ensures
            r == self.spec_code(),
    {
        match self {
            TrustLevel::Ignore => 0,
            TrustLevel::Unverified => 1,
            TrustLevel::Untrusted => 2,
            TrustLevel::Trusted => 3,
            TrustLevel::FullTrust => 4,
        }
    }

    /// The level with the given number, if there is one.
    pub fn from_code(code: u8) -> (r: Option<TrustLevel>)
        ensures
            code <= 4 ==> (r matches Some(t) && t.spec_code() == code),
            code > 4 ==> r is None,
    {
        match code {
            0 => Some(TrustLevel::Ignore),
            1 => Some(TrustLevel::Unverified),
            2 => Some(TrustLevel::Untrusted),
            3 => Some(TrustLevel::Trusted),
            4 => Some(TrustLevel::FullTrust),
            _ => None,
        }
    }

    /// The default level.
    pub fn default_level() -> (r: TrustLevel)
        ensures
            r == TrustLevel::Unverified,
    {
        TrustLevel::Unverified
    }

    /// The name shown for the level.
    pub fn label(&self) -> (r: &'static str)
        ensures
            r@ == spec_trust_label(*self),
    {
        match self {
            TrustLevel::Ignore => "Ignored",
            TrustLevel::Unverified => "Unverified",
            TrustLevel::Untrusted => "Untrusted",
            TrustLevel::Trusted => "Trusted",
            TrustLevel::FullTrust => "Full trust",
        }
    }
}

/// Every number a level is given is read back as that level.
pub proof fn lemma_trust_code_roundtrip(t: TrustLevel)
    ensures
        t.spec_code() <= 4,
        forall|u: TrustLevel| u.spec_code() == t.spec_code() ==> u == t,
{
}

/// An I2P address.
#[derive(Debug, Hash, Eq)]
pub struct I2PAddress(String);

impl Clone for I2PAddress {
    fn clone(&self) -> (r: Self)
        ensures
            r@ == self@,
    {
        I2PAddress(self.0.clone())
    }
}

impl PartialEq for I2PAddress {
    fn eq(&self, other: &Self) -> (r: bool) {
        crate::helpers::strings::str_eq(self.0.as_str(), other.0.as_str())
    }
}

impl vstd::std_specs::cmp::PartialEqSpecImpl for I2PAddress {
    open spec fn obeys_eq_spec() -> bool {
        true
    }

    open spec fn eq_spec(&self, other: &Self) -> bool {
        self@ == other@
    }
}

impl View for I2PAddress {
    type V = Seq<char>;

    closed spec fn view(&self) -> Seq<char> {
        self.0@
    }
}

impl I2PAddress {
    pub fn new(address: String) -> (r: I2PAddress)
        ensures
            r@ == address@,
    {
        I2PAddress(address)
    }

    pub fn inner(&self) -> (r: &String)
        ensures
            r@ == self@,
    {
        &self.0
    }

    pub fn into_inner(self) -> (r: String)
        ensures
            r@ == self@,
    {
        self.0
    }

    /// The address as text.
    pub fn as_str(&self) -> (r: &str)
        ensures
            r@ == self@,
    {
        self.0.as_str()
    }
}

impl Signable for I2PAddress {
    fn sign(&self, private_key: &PrivateKey) -> (r: Signature)
        ensures
            r@ == ed25519_signature_of(private_key@, vstd::utf8::encode_utf8(self@)),
            signs_verifiably(private_key@, vstd::utf8::encode_utf8(self@)) ==> ed25519_verifies(
                ed25519_public_key_of(private_key@),
                vstd::utf8::encode_utf8(self@),
                r@,
            ),
    {
        private_key.sign(self.0.as_str().as_bytes())
    }

    fn verify(&self, public_key: &PublicKey, signature: &Signature) -> (r: bool)
        ensures
            r == ed25519_verifies(public_key@, vstd::utf8::encode_utf8(self@), signature@),
    {
        public_key.verify(self.0.as_str().as_bytes(), signature)
    }
}

impl Byteable for I2PAddress {
    type Model = Seq<char>;

    open spec fn wire_valid(m: Seq<char>) -> bool {
        true
    }

    open spec fn model(&self) -> Seq<char> {
        self@
    }

    open spec fn spec_encode(m: Seq<char>) -> Result<Seq<u8>, EncodeError> {
        spec_encode_str(m)
    }

    open spec fn spec_decode(b: Seq<u8>) -> Result<(Seq<char>, nat), DecodeFault> {
        spec_decode_str(b)
    }

    fn encode(&self, out: &mut Vec<u8>) -> (r: Result<(), EncodeError>) {
        encode_str(self.0.as_str(), out)
    }

    fn decode(bytes: &[u8], pos: usize) -> (r: Result<(I2PAddress, usize), DecodeError>) {
        match decode_string(bytes, pos) {
            Ok((s, p)) => Ok((I2PAddress(s), p)),
            Err(e) => Err(e),
        }
    }

    proof fn lemma_roundtrip(m: Seq<char>, rest: Seq<u8>) {
        lemma_str_roundtrip(m, rest);
    }

    proof fn lemma_decode_bound(b: Seq<u8>) {
    }
}

/// The bytes a user signs: the name, the timestamp (little-endian) and the
/// address, one after the other.
pub open spec fn user_signed_bytes(name: Seq<char>, timestamp: i64, address: Seq<char>) -> Seq<u8> {
    vstd::utf8::encode_utf8(name) + le64_signed(timestamp) + vstd::utf8::encode_utf8(address)
}

/// A user, as announced by itself and signed with its key.
#[derive(Debug, Clone)]
pub struct User {
    pub_key: PublicKey,
    name: String8,
    timestamp: Timestamp,
    signature: Signature,
    /// To keep a user from taking the address of another, the address is
    /// confirmed by asking it directly; the trust level tells whether that was done.
    address: I2PAddress,
    // Not signed, not sent.
    trust: TrustLevel,
}

/// What the wire format holds of a user: key, name, timestamp, signature and address.
pub type UserModel = (Seq<u8>, (Seq<char>, (i64, (Seq<u8>, Seq<char>))));

type UserWire = (PublicKey, (String8, (Timestamp, (Signature, I2PAddress))));

impl User {
    pub const TABLE_NAME: &'static str = "users";

    pub closed spec fn spec_pub_key(&self) -> Seq<u8> {
        self.pub_key@
    }

    pub closed spec fn spec_name(&self) -> Seq<char> {
        self.name@
    }

    pub closed spec fn spec_timestamp(&self) -> i64 {
        self.timestamp.0
    }

    pub closed spec fn spec_signature(&self) -> Seq<u8> {
        self.signature@
    }

    pub closed spec fn spec_address(&self) -> Seq<char> {
        self.address@
    }

    pub closed spec fn spec_trust(&self) -> TrustLevel {
        self.trust
    }

    /// The bytes this user's signature covers.
    pub open spec fn spec_verification_bytes(&self) -> Seq<u8> {
        user_signed_bytes(self.spec_name(), self.spec_timestamp(), self.spec_address())
    }

    pub fn new(
        name: String8,
        timestamp: Timestamp,
        pub_key: PublicKey,
        signature: Signature,
        address: I2PAddress,
    ) -> (r: User)
        ensures
            r.spec_pub_key() == pub_key@,
            r.spec_name() == name@,
            r.spec_timestamp() == timestamp.0,
            r.spec_signature() == signature@,
            r.spec_address() == address@,
            r.spec_trust() == TrustLevel::Unverified,
    {
        User { pub_key, name, timestamp, address, signature, trust: TrustLevel::Unverified }
    }

    /// A user whose key is that of `priv_key` and whose signature is made with it.
    pub fn new_signed(
        name: String8,
        timestamp: Timestamp,
        priv_key: &PrivateKey,
        address: I2PAddress,
    ) -> (r: User)
        ensures
            r.spec_pub_key() == ed25519_public_key_of(priv_key@),
            r.spec_name() == name@,
            r.spec_timestamp() == timestamp.0,
            r.spec_address() == address@,
            r.spec_signature() == ed25519_signature_of(
                priv_key@,
                user_signed_bytes(name@, timestamp.0, address@),
            ),
            r.spec_trust() == TrustLevel::Unverified,
            signs_verifiably(priv_key@, r.spec_verification_bytes()) ==> ed25519_verifies(
                r.spec_pub_key(),
                r.spec_verification_bytes(),
                r.spec_signature(),
            ),
    {
        let mut user = User::new(name, timestamp, priv_key.public_key(), Signature::empty(), address);
        user.sign(priv_key);
        user
    }

    pub fn verification_bytes(&self) -> (r: Vec<u8>)
        ensures
            r@ == self.spec_verification_bytes(),
    {
        let mut bytes: Vec<u8> = Vec::new();
        put_bytes(&mut bytes, self.name.inner().as_bytes());
        put_i64_le(&mut bytes, self.timestamp.0);
        put_bytes(&mut bytes, self.address.as_str().as_bytes());
        bytes
    }

    fn sign(&mut self, priv_key: &PrivateKey)
        ensures
            final(self).pub_key == old(self).pub_key,
            final(self).name == old(self).name,
            final(self).timestamp == old(self).timestamp,
            final(self).address == old(self).address,
            final(self).trust == old(self).trust,
            final(self).signature@ == ed25519_signature_of(priv_key@, old(self).spec_verification_bytes()),
            signs_verifiably(priv_key@, old(self).spec_verification_bytes()) ==> ed25519_verifies(
                ed25519_public_key_of(priv_key@),
                old(self).spec_verification_bytes(),
                final(self).signature@,
            ),
    {
        let to_sign = self.verification_bytes();
        self.signature = priv_key.sign(to_sign.as_slice());
    }

    /// Whether the signature is that of the user's key over its name, timestamp and address.
    pub fn verify(&self) -> (r: bool)
        ensures
            r == ed25519_verifies(self.spec_pub_key(), self.spec_verification_bytes(), self.spec_signature()),
    {
        let to_verify = self.verification_bytes();
        self.pub_key.verify(to_verify.as_slice(), &self.signature)
    }

    pub fn name(&self) -> (r: &str)
        ensures
            r@ == self.spec_name(),
    {
        self.name.inner()
    }

    pub fn timestamp(&self) -> (r: Timestamp)
        ensures
            r.0 == self.spec_timestamp(),
    {
        self.timestamp
    }

    pub fn address(&self) -> (r: &I2PAddress)
        ensures
            r@ == self.spec_address(),
    {
        &self.address
    }

    pub fn into_address(self) -> (r: I2PAddress)
        ensures
            r@ == self.spec_address(),
    {
        self.address
    }

    pub fn set_address(&mut self, address: I2PAddress)
        ensures
            final(self).spec_address() == address@,
            final(self).spec_pub_key() == old(self).spec_pub_key(),
            final(self).spec_name() == old(self).spec_name(),
            final(self).spec_timestamp() == old(self).spec_timestamp(),
            final(self).spec_signature() == old(self).spec_signature(),
            final(self).spec_trust() == old(self).spec_trust(),
    {
        self.address = address;
    }

    pub fn signature(&self) -> (r: &Signature)
        ensures
            r@ == self.spec_signature(),
    {
        &self.signature
    }

    pub fn pub_key(&self) -> (r: &PublicKey)
        ensures
            r@ == self.spec_pub_key(),
    {
        &self.pub_key
    }

    pub fn into_pub_key(self) -> (r: PublicKey)
        ensures
            r@ == self.spec_pub_key(),
    {
        self.pub_key
    }

    pub fn trust(&self) -> (r: &TrustLevel)
        ensures
            *r == self.spec_trust(),
    {
        &self.trust
    }

    /// The node's own user, made on its first start: named "Anon", at `now`,
    /// with the node's key and address, signed with the node's key, and ignored
    /// (the level a node gives itself).
    pub fn own_user(config: &AkarekoConfig, now: Timestamp) -> (r: User)
        ensures
            r.spec_name() == "Anon"@,
            r.spec_timestamp() == now.0,
            r.spec_pub_key() == ed25519_public_key_of(config.spec_keypair().spec_private_key()),
            r.spec_address() == config.spec_eepsite_address(),
            r.spec_signature() == ed25519_signature_of(
                config.spec_keypair().spec_private_key(),
                user_signed_bytes("Anon"@, now.0, config.spec_eepsite_address()),
            ),
            r.spec_trust() == TrustLevel::Ignore,
    {
        proof {
            reveal_strlit("Anon");
            lemma_utf8_len_bound("Anon"@);
        }
        let name = match String8::new(String::from_str("Anon")) {
            Ok(n) => n,
            Err(_) => vstd::pervasive::unreached(),
        };
        let mut user = User::new_signed(name, now, config.private_key(), config.eepsite_address().clone());
        user.set_trust(TrustLevel::Ignore);
        user
    }

    pub fn set_trust(&mut self, trust: TrustLevel)
        ensures
            final(self).spec_trust() == trust,
            final(self).spec_pub_key() == old(self).spec_pub_key(),
            final(self).spec_name() == old(self).spec_name(),
            final(self).spec_timestamp() == old(self).spec_timestamp(),
            final(self).spec_signature() == old(self).spec_signature(),
            final(self).spec_address() == old(self).spec_address(),
    {
        self.trust = trust;
    }

    /// The user's name, as it is shown.
    pub fn display_name(&self) -> (r: &str)
        ensures
            r@ == self.spec_name(),
    {
        self.name.inner()
    }
}

/// Users are the same user when their keys are the same.
impl PartialEq for User {
    fn eq(&self, other: &Self) -> (r: bool) {
        self.pub_key == other.pub_key
    }
}

impl vstd::std_specs::cmp::PartialEqSpecImpl for User {
    open spec fn obeys_eq_spec() -> bool {
        true
    }

    open spec fn eq_spec(&self, other: &Self) -> bool {
        self.spec_pub_key() == other.spec_pub_key()
    }
}

impl Byteable for User {
    type Model = UserModel;

    open spec fn wire_valid(m: UserModel) -> bool {
        <UserWire as Byteable>::wire_valid(m)
    }

    closed spec fn model(&self) -> UserModel {
        (self.pub_key@, (self.name@, (self.timestamp.0, (self.signature@, self.address@))))
    }

    /// Key, name, timestamp, signature and address, in that order; the trust
    /// level is not written.
    open spec fn spec_encode(m: UserModel) -> Result<Seq<u8>, EncodeError> {
        <UserWire as Byteable>::spec_encode(m)
    }

    open spec fn spec_decode(b: Seq<u8>) -> Result<(UserModel, nat), DecodeFault> {
        <UserWire as Byteable>::spec_decode(b)
    }

    fn encode(&self, out: &mut Vec<u8>) -> (r: Result<(), EncodeError>) {
        let ghost o0 = out@;
        let r = self.pub_key.encode(out);
        if r.is_err() {
            return r;
        }
        let ghost o1 = out@;
        let r = self.name.encode(out);
        if r.is_err() {
            return r;
        }
        let ghost o2 = out@;
        let r = self.timestamp.encode(out);
        if r.is_err() {
            return r;
        }
        let ghost o3 = out@;
        let r = self.signature.encode(out);
        if r.is_err() {
            return r;
        }
        let ghost o4 = out@;
        let r = self.address.encode(out);
        if r.is_err() {
            return r;
        }
        proof {
            let e0 = o1.skip(o0.len() as int);
            let e1 = o2.skip(o1.len() as int);
            let e2 = o3.skip(o2.len() as int);
            let e3 = o4.skip(o3.len() as int);
            let e4 = out@.skip(o4.len() as int);
            assert(e0 =~= <PublicKey as Byteable>::spec_encode(self.pub_key@)->Ok_0);
            assert(e1 =~= <String8 as Byteable>::spec_encode(self.name@)->Ok_0);
            assert(e2 =~= <Timestamp as Byteable>::spec_encode(self.timestamp.0)->Ok_0);
            assert(e3 =~= <Signature as Byteable>::spec_encode(self.signature@)->Ok_0);
            assert(e4 =~= <I2PAddress as Byteable>::spec_encode(self.address@)->Ok_0);
            assert(out@ =~= o0 + (e0 + (e1 + (e2 + (e3 + e4)))));
        }
        Ok(())
    }

    /// A user read from another node is not trusted yet: its level is `Unverified`.
    fn decode(bytes: &[u8], pos: usize) -> (r: Result<(User, usize), DecodeError>)
        ensures
            r matches Ok((u, _)) ==> u.spec_trust() == TrustLevel::Unverified,
    {
        let (pub_key, p1) = match PublicKey::decode(bytes, pos) {
            Ok(v) => v,
            Err(e) => return Err(e),
        };
        proof {
            lemma_skip_skip(bytes@, pos as int, p1 - pos);
        }
        let (name, p2) = match String8::decode(bytes, p1) {
            Ok(v) => v,
            Err(e) => return Err(e),
        };
        proof {
            lemma_skip_skip(bytes@, p1 as int, p2 - p1);
            lemma_skip_skip(bytes@, pos as int, p2 - pos);
        }
        let (timestamp, p3) = match Timestamp::decode(bytes, p2) {
            Ok(v) => v,
            Err(e) => return Err(e),
        };
        proof {
            lemma_skip_skip(bytes@, p2 as int, p3 - p2);
            lemma_skip_skip(bytes@, p1 as int, p3 - p1);
        }
        let (signature, p4) = match Signature::decode(bytes, p3) {
            Ok(v) => v,
            Err(e) => return Err(e),
        };
        proof {
            lemma_skip_skip(bytes@, p3 as int, p4 - p3);
            lemma_skip_skip(bytes@, p2 as int, p4 - p2);
        }
        let (address, p5) = match I2PAddress::decode(bytes, p4) {
            Ok(v) => v,
            Err(e) => return Err(e),
        };
        Ok((User { pub_key, name, timestamp, signature, address, trust: TrustLevel::Unverified }, p5))
    }

    proof fn lemma_roundtrip(m: UserModel, rest: Seq<u8>) {
        <UserWire as Byteable>::lemma_roundtrip(m, rest);
    }

    proof fn lemma_decode_bound(b: Seq<u8>) {
        <UserWire as Byteable>::lemma_decode_bound(b);
    }
}

impl User {
    /// A user read from the wire has the default trust level and the fields it was sent with.
    pub proof fn lemma_decoded_fields(&self)
        ensures
            self.model() == (
                self.spec_pub_key(),
                (self.spec_name(), (self.spec_timestamp(), (self.spec_signature(), self.spec_address()))),
            ),
    {
    }
}

} // verus!
