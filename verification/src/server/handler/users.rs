//! The user commands: `who` and `user/get_users`.
use vstd::prelude::*;

use crate::crypto::{ed25519_public_key_of, ed25519_signature_of, ed25519_verifies, signs_verifiably};
use crate::db::user::{I2PAddress, TrustLevel, User, UserModel};
use crate::errors::{ClientError, DecodeError, DecodeFault, EncodeError};
use crate::helpers::byteable::{lemma_skip_skip, Byteable};
use crate::helpers::codec::{le64_signed, put_bytes, put_i64_le};
use crate::server::protocol::{AkarekoProtocolResponse, AkarekoStatus, StreamModel};
use crate::types::{PrivateKey, PublicKey, Signature, Timestamp};
use crate::server::handler::{AkarekoProtocolCommandMetadata, CommandsV1};

verus! {

/// The command that asks a node who it is.
#[derive(Debug)]
pub struct Who;

impl AkarekoProtocolCommandMetadata for Who {
    open spec fn spec_command() -> CommandsV1 {
        CommandsV1::Who
    }

    fn command() -> (r: CommandsV1) {
        CommandsV1::Who
    }
}

/// The command that asks a node for users by key.
#[derive(Debug)]
pub struct GetUsers;

impl AkarekoProtocolCommandMetadata for GetUsers {
    open spec fn spec_command() -> CommandsV1 {
        CommandsV1::GetUsers
    }

    fn command() -> (r: CommandsV1) {
        CommandsV1::GetUsers
    }
}


/// Asks a node who it is.
#[derive(Debug)]
pub struct WhoRequest {}

impl Byteable for WhoRequest {
    type Model = ();

    open spec fn model(&self) -> () {
        ()
    }

    open spec fn wire_valid(m: ()) -> bool {
        true
    }

    /// Nothing: the command says it all.
    open spec fn spec_encode(m: ()) -> Result<Seq<u8>, EncodeError> {
        Ok(Seq::empty())
    }

    open spec fn spec_decode(b: Seq<u8>) -> Result<((), nat), DecodeFault> {
        Ok(((), 0))
    }

    fn encode(&self, out: &mut Vec<u8>) -> (r: Result<(), EncodeError>) {
        assert(out@ =~= out@ + Seq::<u8>::empty());
        Ok(())
    }

    fn decode(bytes: &[u8], pos: usize) -> (r: Result<(WhoRequest, usize), DecodeError>) {
        Ok((WhoRequest {}, pos))
    }

    proof fn lemma_roundtrip(m: (), rest: Seq<u8>) {
    }

    proof fn lemma_decode_bound(b: Seq<u8>) {
    }
}

/// The bytes a `who` answer signs: the timestamp (little-endian), then the
/// address of the node that asked.
pub open spec fn who_signed_bytes(timestamp: i64, request_address: Seq<char>) -> Seq<u8> {
    le64_signed(timestamp) + vstd::utf8::encode_utf8(request_address)
}

/// A node's answer to `who`: its user, and a signature, made with the
/// user's key, over the time of the answer and the address of the asker.
#[derive(Debug)]
pub struct WhoResponse {
    pub user: User,
    pub timestamp: Timestamp,
    pub signature: Signature,
}

impl WhoResponse {
    pub fn verification_bytes(&self, request_address: &I2PAddress) -> (r: Vec<u8>)
        ensures
            r@ == who_signed_bytes(self.timestamp.0, request_address@),
    {
        let mut bytes: Vec<u8> = Vec::new();
        put_i64_le(&mut bytes, self.timestamp.0);
        put_bytes(&mut bytes, request_address.as_str().as_bytes());
        bytes
    }

    /// The answer of `user`, at `timestamp`, to the node at `request_address`,
    /// signed with `priv_key`.
    pub fn new_signed_at(
        user: User,
        request_address: &I2PAddress,
        priv_key: &PrivateKey,
        timestamp: Timestamp,
    ) -> (r: WhoResponse)
        ensures
            r.user == user,
            r.timestamp == timestamp,
            r.signature@ == ed25519_signature_of(priv_key@, who_signed_bytes(timestamp.0, request_address@)),
            signs_verifiably(priv_key@, who_signed_bytes(timestamp.0, request_address@)) ==> ed25519_verifies(
                ed25519_public_key_of(priv_key@),
                who_signed_bytes(timestamp.0, request_address@),
                r.signature@,
            ),
    {
        let mut response = WhoResponse { user, timestamp, signature: Signature::empty() };
        let to_sign = response.verification_bytes(request_address);
        response.signature = priv_key.sign(to_sign.as_slice());
        response
    }

    /// The answer of `user`, now, to the node at `request_address`, signed with `priv_key`.
    pub fn new_signed(user: User, request_address: &I2PAddress, priv_key: &PrivateKey) -> (r: WhoResponse)
        ensures
            r.user == user,
            r.signature@ == ed25519_signature_of(priv_key@, who_signed_bytes(r.timestamp.0, request_address@)),
            signs_verifiably(priv_key@, who_signed_bytes(r.timestamp.0, request_address@)) ==> ed25519_verifies(
                ed25519_public_key_of(priv_key@),
                who_signed_bytes(r.timestamp.0, request_address@),
                r.signature@,
            ),
    {
        WhoResponse::new_signed_at(user, request_address, priv_key, Timestamp::now())
    }

    /// Whether the answer is signed by its user's key for the node at `request_address`.
    pub fn verify(&self, request_address: &I2PAddress) -> (r: bool)
        ensures
            r == ed25519_verifies(
                self.user.spec_pub_key(),
                who_signed_bytes(self.timestamp.0, request_address@),
                self.signature@,
            ),
    {
        let bytes = self.verification_bytes(request_address);
        self.user.pub_key().verify(bytes.as_slice(), &self.signature)
    }
}

/// What the wire format holds of a `who` answer: user, timestamp and signature.
pub type WhoResponseModel = (UserModel, (i64, Seq<u8>));

type WhoResponseWire = (User, (Timestamp, Signature));

impl Byteable for WhoResponse {
    type Model = WhoResponseModel;

    open spec fn wire_valid(m: WhoResponseModel) -> bool {
        <WhoResponseWire as Byteable>::wire_valid(m)
    }

    open spec fn model(&self) -> WhoResponseModel {
        (self.user.model(), (self.timestamp.0, self.signature@))
    }

    /// User, timestamp and signature, in that order.
    open spec fn spec_encode(m: WhoResponseModel) -> Result<Seq<u8>, EncodeError> {
        <WhoResponseWire as Byteable>::spec_encode(m)
    }

    open spec fn spec_decode(b: Seq<u8>) -> Result<(WhoResponseModel, nat), DecodeFault> {
        <WhoResponseWire as Byteable>::spec_decode(b)
    }

    fn encode(&self, out: &mut Vec<u8>) -> (r: Result<(), EncodeError>) {
        let ghost o0 = out@;
        let r = self.user.encode(out);
        if r.is_err() {
            return r;
        }
        let ghost o1 = out@;
        let r = self.timestamp.encode(out);
        if r.is_err() {
            return r;
        }
        let ghost o2 = out@;
        let r = self.signature.encode(out);
        if r.is_err() {
            return r;
        }
        proof {
            let e0 = o1.skip(o0.len() as int);
            let e1 = o2.skip(o1.len() as int);
            let e2 = out@.skip(o2.len() as int);
            assert(e0 =~= <User as Byteable>::spec_encode(self.user.model())->Ok_0);
            assert(e1 =~= <Timestamp as Byteable>::spec_encode(self.timestamp.0)->Ok_0);
            assert(e2 =~= <Signature as Byteable>::spec_encode(self.signature@)->Ok_0);
            assert(out@ =~= o0 + (e0 + (e1 + e2)));
        }
        Ok(())
    }

    fn decode(bytes: &[u8], pos: usize) -> (r: Result<(WhoResponse, usize), DecodeError>) {
        let (user, p1) = match User::decode(bytes, pos) {
            Ok(v) => v,
            Err(e) => return Err(e),
        };
        proof {
            lemma_skip_skip(bytes@, pos as int, p1 - pos);
        }
        let (timestamp, p2) = match Timestamp::decode(bytes, p1) {
            Ok(v) => v,
            Err(e) => return Err(e),
        };
        proof {
            lemma_skip_skip(bytes@, p1 as int, p2 - p1);
            lemma_skip_skip(bytes@, pos as int, p2 - pos);
        }
        let (signature, p3) = match Signature::decode(bytes, p2) {
            Ok(v) => v,
            Err(e) => return Err(e),
        };
        Ok((WhoResponse { user, timestamp, signature }, p3))
    }

    proof fn lemma_roundtrip(m: WhoResponseModel, rest: Seq<u8>) {
        <WhoResponseWire as Byteable>::lemma_roundtrip(m, rest);
    }

    proof fn lemma_decode_bound(b: Seq<u8>) {
        <WhoResponseWire as Byteable>::lemma_decode_bound(b);
    }
}

/// The answer to `who` at `now`: the node's own user, found under its key,
/// signed for the asker; or "not found" when the node has no user yet.
pub fn who_answer_at(
    own_user: Option<User>,
    request_address: &I2PAddress,
    priv_key: &PrivateKey,
    now: Timestamp,
) -> (r: AkarekoProtocolResponse<WhoResponse, ()>)
    ensures
        match own_user {
            Some(u) => {
                &&& r.spec_status() == AkarekoStatus::Success
                &&& r.spec_payload() matches Some(p)
                &&& p.user == u
                &&& p.timestamp == now
                &&& p.signature@ == ed25519_signature_of(priv_key@, who_signed_bytes(now.0, request_address@))
            },
            None => r.spec_status()@ == crate::server::protocol::StatusModel::NotFound("User not found"@)
                && r.spec_payload() is None,
        },
{
    match own_user {
        Some(user) => AkarekoProtocolResponse::ok(WhoResponse::new_signed_at(user, request_address, priv_key, now)),
        None => AkarekoProtocolResponse::not_found(String::from_str("User not found")),
    }
}

/// The answer to `who`, made now.
pub fn who_answer(own_user: Option<User>, request_address: &I2PAddress, priv_key: &PrivateKey) -> (r: AkarekoProtocolResponse<WhoResponse, ()>)
    ensures
        own_user is Some <==> r.spec_status() == AkarekoStatus::Success,
        match own_user {
            Some(u) => r.spec_payload() matches Some(p) && p.user == u && p.signature@ == ed25519_signature_of(
                priv_key@,
                who_signed_bytes(p.timestamp.0, request_address@),
            ),
            None => r.spec_payload() is None,
        },
{
    who_answer_at(own_user, request_address, priv_key, Timestamp::now())
}

/// What an asker makes of the answer to its `who`: the answering user, at
/// the lowest trust, when the answer is a success signed for `host_address`
/// by a user whose own signature holds.
pub fn accept_who_response(res: AkarekoProtocolResponse<WhoResponse, ()>, host_address: &I2PAddress) -> (r: Result<User, ClientError>)
    ensures
        !(res.spec_status() is Success) ==> r == Err::<User, ClientError>(
            ClientError::UnexpectedResponseCode { status: res.spec_status() },
        ),
        res.spec_status() is Success ==> match res.spec_payload() {
            None => r matches Err(ClientError::MissingPayload),
            Some(p) => if !ed25519_verifies(
                p.user.spec_pub_key(),
                who_signed_bytes(p.timestamp.0, host_address@),
                p.signature@,
            ) || !ed25519_verifies(
                p.user.spec_pub_key(),
                p.user.spec_verification_bytes(),
                p.user.spec_signature(),
            ) {
                r matches Err(ClientError::InvalidSignature)
            } else {
                &&& r matches Ok(u)
                &&& u.spec_trust() == TrustLevel::Untrusted
                &&& u.spec_pub_key() == p.user.spec_pub_key()
                &&& u.spec_name() == p.user.spec_name()
                &&& u.spec_timestamp() == p.user.spec_timestamp()
                &&& u.spec_signature() == p.user.spec_signature()
                &&& u.spec_address() == p.user.spec_address()
            },
        },
{
    let payload = match res.payload_if_ok() {
        Ok(p) => p,
        Err(e) => return Err(e),
    };
    if !payload.verify(host_address) {
        return Err(ClientError::InvalidSignature);
    }
    let mut user = payload.user;
    if !user.verify() {
        return Err(ClientError::InvalidSignature);
    }
    user.set_trust(TrustLevel::Untrusted);
    Ok(user)
}

/// Asks a node for the users with the given keys.
#[derive(Debug)]
pub struct GetUsersRequest {
    pub pub_keys: Vec<PublicKey>,
}

impl Byteable for GetUsersRequest {
    type Model = Seq<Seq<u8>>;

    open spec fn model(&self) -> Seq<Seq<u8>> {
        <Vec<PublicKey> as Byteable>::model(&self.pub_keys)
    }

    open spec fn wire_valid(m: Seq<Seq<u8>>) -> bool {
        <Vec<PublicKey> as Byteable>::wire_valid(m)
    }

    /// The pub_keys, as a list.
    open spec fn spec_encode(m: Seq<Seq<u8>>) -> Result<Seq<u8>, EncodeError> {
        <Vec<PublicKey> as Byteable>::spec_encode(m)
    }

    open spec fn spec_decode(b: Seq<u8>) -> Result<(Seq<Seq<u8>>, nat), DecodeFault> {
        <Vec<PublicKey> as Byteable>::spec_decode(b)
    }

    fn encode(&self, out: &mut Vec<u8>) -> (r: Result<(), EncodeError>) {
        self.pub_keys.encode(out)
    }

    fn decode(bytes: &[u8], pos: usize) -> (r: Result<(GetUsersRequest, usize), DecodeError>) {
        match <Vec<PublicKey> as Byteable>::decode(bytes, pos) {
            Ok((pub_keys, p)) => Ok((GetUsersRequest { pub_keys }, p)),
            Err(e) => Err(e),
        }
    }

    proof fn lemma_roundtrip(m: Seq<Seq<u8>>, rest: Seq<u8>) {
        <Vec<PublicKey> as Byteable>::lemma_roundtrip(m, rest);
    }

    proof fn lemma_decode_bound(b: Seq<u8>) {
        <Vec<PublicKey> as Byteable>::lemma_decode_bound(b);
    }
}

/// The users that a node has of those asked for.
#[derive(Debug)]
pub struct GetUsersResponse {
    pub users: Vec<User>,
}

impl Byteable for GetUsersResponse {
    type Model = Seq<UserModel>;

    open spec fn model(&self) -> Seq<UserModel> {
        <Vec<User> as Byteable>::model(&self.users)
    }

    open spec fn wire_valid(m: Seq<UserModel>) -> bool {
        <Vec<User> as Byteable>::wire_valid(m)
    }

    /// The users, as a list.
    open spec fn spec_encode(m: Seq<UserModel>) -> Result<Seq<u8>, EncodeError> {
        <Vec<User> as Byteable>::spec_encode(m)
    }

    open spec fn spec_decode(b: Seq<u8>) -> Result<(Seq<UserModel>, nat), DecodeFault> {
        <Vec<User> as Byteable>::spec_decode(b)
    }

    fn encode(&self, out: &mut Vec<u8>) -> (r: Result<(), EncodeError>) {
        self.users.encode(out)
    }

    fn decode(bytes: &[u8], pos: usize) -> (r: Result<(GetUsersResponse, usize), DecodeError>) {
        match <Vec<User> as Byteable>::decode(bytes, pos) {
            Ok((users, p)) => Ok((GetUsersResponse { users }, p)),
            Err(e) => Err(e),
        }
    }

    proof fn lemma_roundtrip(m: Seq<UserModel>, rest: Seq<u8>) {
        <Vec<User> as Byteable>::lemma_roundtrip(m, rest);
    }

    proof fn lemma_decode_bound(b: Seq<u8>) {
        <Vec<User> as Byteable>::lemma_decode_bound(b);
    }
}

/// The answer to `user/get_users`, given what the node's store returned:
/// the users found, or an internal error when the store failed.
pub fn get_users_answer(found: Option<Vec<User>>) -> (r: AkarekoProtocolResponse<GetUsersResponse, ()>)
    ensures
        match found {
            Some(users) => {
                &&& r.spec_status() == AkarekoStatus::Success
                &&& r.spec_payload() matches Some(p)
                &&& p.users@ == users@
            },
            None => r.spec_status()@ == crate::server::protocol::StatusModel::InternalError(
                "Failed to get users"@,
            ) && r.spec_payload() is None,
        },
{
    match found {
        Some(users) => AkarekoProtocolResponse::ok(GetUsersResponse { users }),
        None => AkarekoProtocolResponse::internal_error(String::from_str("Failed to get users")),
    }
}

} // verus!
