//! The request/response protocol between nodes.
use vstd::prelude::*;

use crate::errors::{ClientError, DecodeError, DecodeFault, EncodeError};
use crate::helpers::byteable::{
    decode_string, encode_all, encode_str, lemma_skip_concat, lemma_skip_skip, lemma_str_roundtrip,
    spec_decode_items, spec_decode_str, spec_encode_items, spec_encode_str, Byteable,
};
use crate::helpers::codec::{be16, be64, from_be16, from_be64, get_u16, get_u64, lemma_be16_roundtrip, lemma_be64_roundtrip, put_u16, put_u64};
use crate::helpers::byteable::lemma_items_roundtrip;
use crate::helpers::strings::{decimal, decimal_string};

verus! {

/// The version of the protocol spoken on a connection.
#[derive(Debug, Clone, Copy, PartialEq, Eq, Structural)]
pub enum AkarekoProtocolVersion {
    V1,
}

impl AkarekoProtocolVersion {
    pub open spec fn spec_code(self) -> u8 {
        1
    }
}

impl Byteable for AkarekoProtocolVersion {
    type Model = AkarekoProtocolVersion;

    open spec fn model(&self) -> AkarekoProtocolVersion {
        *self
    }

    open spec fn wire_valid(m: AkarekoProtocolVersion) -> bool {
        true
    }

    /// The version's number as one byte.
    open spec fn spec_encode(m: AkarekoProtocolVersion) -> Result<Seq<u8>, EncodeError> {
        Ok(seq![m.spec_code()])
    }

    open spec fn spec_decode(b: Seq<u8>) -> Result<(AkarekoProtocolVersion, nat), DecodeFault> {
        if b.len() < 1 {
            Err(DecodeFault::UnexpectedEof)
        } else if b[0] == 1 {
            Ok((AkarekoProtocolVersion::V1, 1))
        } else {
            Err(
                DecodeFault::InvalidEnumVariant {
                    variant_value: decimal(b[0] as nat),
                    enum_name: "AkarekoProtocolVersion"@,
                },
            )
        }
    }

    fn encode(&self, out: &mut Vec<u8>) -> (r: Result<(), EncodeError>) {
        out.push(1u8);
        assert(out@ =~= old(out)@ + seq![1u8]);
        Ok(())
    }

    fn decode(bytes: &[u8], pos: usize) -> (r: Result<(AkarekoProtocolVersion, usize), DecodeError>) {
        if bytes.len() - pos < 1 {
            return Err(DecodeError::UnexpectedEof);
        }
        let v = bytes[pos];
        if v == 1 {
            Ok((AkarekoProtocolVersion::V1, pos + 1))
        } else {
            Err(
                DecodeError::InvalidEnumVariant {
                    variant_value: decimal_string(v as u64),
                    enum_name: "AkarekoProtocolVersion",
                },
            )
        }
    }

    proof fn lemma_roundtrip(m: AkarekoProtocolVersion, rest: Seq<u8>) {
    }

    proof fn lemma_decode_bound(b: Seq<u8>) {
    }
}

/// The outcome of a request, as the server reports it.
#[derive(Debug)]
pub enum AkarekoStatus {
    Success,
    NotFound(String),
    InvalidArgument(String),
    InternalError(String),
}

/// What a status holds.
pub enum StatusModel {
    Success,
    NotFound(Seq<char>),
    InvalidArgument(Seq<char>),
    InternalError(Seq<char>),
}

pub open spec fn spec_status_code(m: StatusModel) -> u16 {
    match m {
        StatusModel::Success => 200,
        StatusModel::InvalidArgument(_) => 400,
        StatusModel::NotFound(_) => 404,
        StatusModel::InternalError(_) => 500,
    }
}

impl Clone for AkarekoStatus {
    fn clone(&self) -> (r: Self)
        ensures
            r.view() == self.view(),
    {
        match self {
            AkarekoStatus::Success => AkarekoStatus::Success,
            AkarekoStatus::NotFound(s) => AkarekoStatus::NotFound(s.clone()),
            AkarekoStatus::InvalidArgument(s) => AkarekoStatus::InvalidArgument(s.clone()),
            AkarekoStatus::InternalError(s) => AkarekoStatus::InternalError(s.clone()),
        }
    }
}

impl AkarekoStatus {
    pub open spec fn view(&self) -> StatusModel {
        match self {
            AkarekoStatus::Success => StatusModel::Success,
            AkarekoStatus::NotFound(s) => StatusModel::NotFound(s@),
            AkarekoStatus::InvalidArgument(s) => StatusModel::InvalidArgument(s@),
            AkarekoStatus::InternalError(s) => StatusModel::InternalError(s@),
        }
    }

    pub fn is_ok(&self) -> (r: bool)
        ensures
            r == (self is Success),
    {
        match self {
            AkarekoStatus::Success => true,
            _ => false,
        }
    }

    /// The HTTP-like code of the status.
    pub fn code(&self) -> (r: u16)
        ensures
            r == spec_status_code(self.view()),
    {
        match self {
            AkarekoStatus::Success => 200,
            AkarekoStatus::InvalidArgument(_) => 400,
            AkarekoStatus::NotFound(_) => 404,
            AkarekoStatus::InternalError(_) => 500,
        }
    }
}

pub open spec fn prefix_code(code: u16, r: Result<Seq<u8>, EncodeError>) -> Result<Seq<u8>, EncodeError> {
    match r {
        Err(e) => Err(e),
        Ok(e) => Ok(be16(code) + e),
    }
}

impl Byteable for AkarekoStatus {
    type Model = StatusModel;

    open spec fn model(&self) -> StatusModel {
        self.view()
    }

    open spec fn wire_valid(m: StatusModel) -> bool {
        true
    }

    /// The code as a big-endian `u16`, then the message of a status that is not `Ok`.
    open spec fn spec_encode(m: StatusModel) -> Result<Seq<u8>, EncodeError> {
        match m {
            StatusModel::Success => Ok(be16(200)),
            StatusModel::InvalidArgument(s) => prefix_code(400, spec_encode_str(s)),
            StatusModel::NotFound(s) => prefix_code(404, spec_encode_str(s)),
            StatusModel::InternalError(s) => prefix_code(500, spec_encode_str(s)),
        }
    }

    open spec fn spec_decode(b: Seq<u8>) -> Result<(StatusModel, nat), DecodeFault> {
        if b.len() < 2 {
            Err(DecodeFault::UnexpectedEof)
        } else {
            let code = from_be16(b);
            if code == 200 {
                Ok((StatusModel::Success, 2))
            } else if code == 400 || code == 404 || code == 500 {
                match spec_decode_str(b.skip(2)) {
                    Err(f) => Err(f),
                    Ok((s, n)) => Ok(
                        (
                            if code == 400 {
                                StatusModel::InvalidArgument(s)
                            } else if code == 404 {
                                StatusModel::NotFound(s)
                            } else {
                                StatusModel::InternalError(s)
                            },
                            n + 2,
                        ),
                    ),
                }
            } else {
                Err(
                    DecodeFault::InvalidEnumVariant {
                        variant_value: decimal(code as nat),
                        enum_name: "AkarekoStatus"@,
                    },
                )
            }
        }
    }

    fn encode(&self, out: &mut Vec<u8>) -> (r: Result<(), EncodeError>) {
        let code = self.code();
        match self {
            AkarekoStatus::Success => {
                put_u16(out, code);
                Ok(())
            },
            AkarekoStatus::InvalidArgument(message) | AkarekoStatus::NotFound(message)
            | AkarekoStatus::InternalError(message) => {
                let len = message.as_str().as_bytes().len();
                if len > 65535 {
                    return encode_str(message.as_str(), out);
                }
                put_u16(out, code);
                let ghost mid = out@;
                let r = encode_str(message.as_str(), out);
                assert(out@ =~= old(out)@ + (be16(code) + spec_encode_str(message@)->Ok_0));
                r
            },
        }
    }

    fn decode(bytes: &[u8], pos: usize) -> (r: Result<(AkarekoStatus, usize), DecodeError>) {
        let n = bytes.len();
        let code = match get_u16(bytes, pos) {
            Some(c) => c,
            None => return Err(DecodeError::UnexpectedEof),
        };
        if code == 200 {
            return Ok((AkarekoStatus::Success, pos + 2));
        }
        if code != 400 && code != 404 && code != 500 {
            return Err(
                DecodeError::InvalidEnumVariant {
                    variant_value: decimal_string(code as u64),
                    enum_name: "AkarekoStatus",
                },
            );
        }
        proof {
            lemma_skip_skip(bytes@, pos as int, 2);
        }
        let (message, p) = match decode_string(bytes, pos + 2) {
            Ok(v) => v,
            Err(e) => return Err(e),
        };
        if code == 400 {
            Ok((AkarekoStatus::InvalidArgument(message), p))
        } else if code == 404 {
            Ok((AkarekoStatus::NotFound(message), p))
        } else {
            Ok((AkarekoStatus::InternalError(message), p))
        }
    }

    proof fn lemma_roundtrip(m: StatusModel, rest: Seq<u8>) {
        let code = spec_status_code(m);
        lemma_be16_roundtrip(code);
        match m {
            StatusModel::Success => {
                assert(from_be16(be16(200) + rest) == from_be16(be16(200)));
            },
            StatusModel::InvalidArgument(s) | StatusModel::NotFound(s) | StatusModel::InternalError(s) => {
                let e = spec_encode_str(s)->Ok_0;
                assert(from_be16(be16(code) + e + rest) == from_be16(be16(code)));
                assert((be16(code) + e + rest).skip(2) =~= e + rest);
                lemma_str_roundtrip(s, rest);
            },
        }
    }

    proof fn lemma_decode_bound(b: Seq<u8>) {
    }
}


/// What a stream of items is: the items to send, or the number still to read.
pub enum StreamModel<M> {
    Items(Seq<M>),
    Pending(u64),
}

enum Either<A, B> {
    A(A),
    B(B),
}

/// The items that follow a response: on the sending side the items
/// themselves, on the receiving side how many are still to be read.
pub struct StreamDecode<D: Byteable> {
    d: Either<Vec<D>, u64>,
}

impl<D: Byteable> View for StreamDecode<D> {
    type V = StreamModel<D::Model>;

    closed spec fn view(&self) -> StreamModel<D::Model> {
        match self.d {
            Either::A(v) => StreamModel::Items(v@.map_values(|x: D| x.model())),
            Either::B(n) => StreamModel::Pending(n),
        }
    }
}

impl<D: Byteable> StreamDecode<D> {
    /// A stream that sends `data`.
    pub fn new(data: Vec<D>) -> (r: Self)
        ensures
            r@ == StreamModel::Items(data@.map_values(|x: D| x.model())),
    {
        StreamDecode { d: Either::A(data) }
    }

    /// A stream that reads `len` items.
    pub fn new_receiver(len: u64) -> (r: Self)
        ensures
            r@ == StreamModel::<D::Model>::Pending(len),
    {
        StreamDecode { d: Either::B(len) }
    }

    /// Reads the next item at `pos`, if any is still to be read; the count
    /// goes down by one whether or not the item could be read.
    pub fn next(&mut self, bytes: &[u8], pos: usize) -> (r: Result<Option<(D, usize)>, DecodeError>)
        requires
            pos <= bytes@.len(),
        ensures
            match old(self)@ {
                StreamModel::Pending(n) if n > 0 => {
                    &&& final(self)@ == StreamModel::<D::Model>::Pending((n - 1) as u64)
                    &&& match r {
                        Ok(Some((v, p))) => pos <= p <= bytes@.len() && D::spec_decode(
                            bytes@.skip(pos as int),
                        ) == Ok::<(D::Model, nat), DecodeFault>((v.model(), (p - pos) as nat)),
                        Ok(None) => false,
                        Err(e) => D::spec_decode(bytes@.skip(pos as int)) == Err::<
                            (D::Model, nat),
                            DecodeFault,
                        >(e.fault()),
                    }
                },
                _ => final(self)@ == old(self)@ && r matches Ok(None),
            },
    {
        match &mut self.d {
            Either::A(_) => Ok(None),
            Either::B(len) => {
                if *len == 0 {
                    Ok(None)
                } else {
                    *len = *len - 1;
                    match D::decode(bytes, pos) {
                        Ok(v) => Ok(Some(v)),
                        Err(e) => Err(e),
                    }
                }
            },
        }
    }

    /// The number of items to send, or still to read.
    pub fn len(&self) -> (r: usize)
        ensures
            r == match self@ {
                StreamModel::Items(s) => s.len() as usize,
                StreamModel::Pending(n) => n as usize,
            },
    {
        match &self.d {
            Either::A(v) => v.len(),
            Either::B(n) => #[verifier::truncate] (*n as usize),
        }
    }
}

/// The items' count as a big-endian `u64`, then the items.
pub open spec fn spec_encode_stream<D: Byteable>(m: StreamModel<D::Model>) -> Result<Seq<u8>, EncodeError> {
    match m {
        StreamModel::Items(s) => match spec_encode_items::<D>(s) {
            Ok(e) => Ok(be64(s.len() as u64) + e),
            Err(err) => Err(err),
        },
        StreamModel::Pending(_) => Err(EncodeError::InvalidData),
    }
}

/// Reading a stream reads its count; the items are read one by one with `next`.
pub open spec fn spec_decode_stream<M>(b: Seq<u8>) -> Result<(StreamModel<M>, nat), DecodeFault> {
    if b.len() < 8 {
        Err(DecodeFault::UnexpectedEof)
    } else {
        Ok((StreamModel::Pending(from_be64(b)), 8))
    }
}

impl<D: Byteable> Byteable for StreamDecode<D> {
    type Model = StreamModel<D::Model>;

    open spec fn model(&self) -> StreamModel<D::Model> {
        self@
    }

    /// A stream is read back as a count, not as its items, so no stream
    /// value is given back by reading its bytes.
    open spec fn wire_valid(m: StreamModel<D::Model>) -> bool {
        false
    }

    open spec fn spec_encode(m: StreamModel<D::Model>) -> Result<Seq<u8>, EncodeError> {
        spec_encode_stream::<D>(m)
    }

    open spec fn spec_decode(b: Seq<u8>) -> Result<(StreamModel<D::Model>, nat), DecodeFault> {
        spec_decode_stream::<D::Model>(b)
    }

    fn encode(&self, out: &mut Vec<u8>) -> (r: Result<(), EncodeError>) {
        match &self.d {
            Either::A(items) => {
                let ghost before = out@;
                put_u64(out, items.len() as u64);
                let r = encode_all(items, out);
                proof {
                    if r is Ok {
                        assert(out@ =~= before + (be64(items@.len() as u64) + spec_encode_items::<D>(
                            items@.map_values(|x: D| x.model()),
                        )->Ok_0));
                    }
                }
                r
            },
            Either::B(_) => Err(EncodeError::InvalidData),
        }
    }

    fn decode(bytes: &[u8], pos: usize) -> (r: Result<(StreamDecode<D>, usize), DecodeError>) {
        let n = bytes.len();
        match get_u64(bytes, pos) {
            Some(len) => Ok((StreamDecode { d: Either::B(len) }, pos + 8)),
            None => Err(DecodeError::UnexpectedEof),
        }
    }

    proof fn lemma_roundtrip(m: StreamModel<D::Model>, rest: Seq<u8>) {
    }

    proof fn lemma_decode_bound(b: Seq<u8>) {
    }
}


/// A reply to a request: its status, its payload when the status is a
/// success, and the items that follow it.
pub struct AkarekoProtocolResponse<P: Byteable, D: Byteable> {
    status: AkarekoStatus,
    payload: Option<P>,
    data: StreamDecode<D>,
}

/// What a response holds: status, payload and stream.
pub type ResponseModel<P, D> = (StatusModel, Option<P>, StreamModel<D>);

impl<P: Byteable, D: Byteable> AkarekoProtocolResponse<P, D> {
    pub closed spec fn spec_status(&self) -> AkarekoStatus {
        self.status
    }

    pub closed spec fn spec_payload(&self) -> Option<P> {
        self.payload
    }

    pub closed spec fn spec_data(&self) -> StreamDecode<D> {
        self.data
    }

    /// The response as a mathematical value.
    pub open spec fn response_model(&self) -> ResponseModel<P::Model, D::Model> {
        (
            self.spec_status().view(),
            match self.spec_payload() {
                Some(p) => Some(p.model()),
                None => None,
            },
            self.spec_data()@,
        )
    }

    /// A success that carries `payload` and then the items of `data`.
    pub fn ok_with_data(payload: P, data: Vec<D>) -> (r: Self)
        ensures
            r.spec_status() == AkarekoStatus::Success,
            r.spec_payload() == Some(payload),
            r.spec_data()@ == StreamModel::Items(data@.map_values(|x: D| x.model())),
    {
        AkarekoProtocolResponse {
            status: AkarekoStatus::Success,
            payload: Some(payload),
            data: StreamDecode::new(data),
        }
    }

    /// The stream of items that follows the response.
    pub fn data(&mut self) -> (r: &mut StreamDecode<D>)
        ensures
            *r == old(self).spec_data(),
            final(self).spec_data() == *final(r),
            final(self).spec_status() == old(self).spec_status(),
            final(self).spec_payload() == old(self).spec_payload(),
    {
        &mut self.data
    }

    /// A refusal because what was asked for is not there.
    pub fn not_found(message: String) -> (r: Self)
        ensures
            r.spec_status() == AkarekoStatus::NotFound(message),
            r.spec_payload() is None,
            r.spec_data()@ == StreamModel::<D::Model>::Items(Seq::empty()),
    {
        let data: Vec<D> = Vec::new();
        assert(data@.map_values(|x: D| x.model()) =~= Seq::<D::Model>::empty());
        AkarekoProtocolResponse {
            status: AkarekoStatus::NotFound(message),
            payload: None,
            data: StreamDecode::new(data),
        }
    }

    /// A refusal because the request was malformed.
    pub fn invalid_argument(message: String) -> (r: Self)
        ensures
            r.spec_status() == AkarekoStatus::InvalidArgument(message),
            r.spec_payload() is None,
            r.spec_data()@ == StreamModel::<D::Model>::Items(Seq::empty()),
    {
        let data: Vec<D> = Vec::new();
        assert(data@.map_values(|x: D| x.model()) =~= Seq::<D::Model>::empty());
        AkarekoProtocolResponse {
            status: AkarekoStatus::InvalidArgument(message),
            payload: None,
            data: StreamDecode::new(data),
        }
    }

    /// A failure of the serving node itself.
    pub fn internal_error(message: String) -> (r: Self)
        ensures
            r.spec_status() == AkarekoStatus::InternalError(message),
            r.spec_payload() is None,
            r.spec_data()@ == StreamModel::<D::Model>::Items(Seq::empty()),
    {
        let data: Vec<D> = Vec::new();
        assert(data@.map_values(|x: D| x.model()) =~= Seq::<D::Model>::empty());
        AkarekoProtocolResponse {
            status: AkarekoStatus::InternalError(message),
            payload: None,
            data: StreamDecode::new(data),
        }
    }

    pub fn status(&self) -> (r: &AkarekoStatus)
        ensures
            *r == self.spec_status(),
    {
        &self.status
    }

    pub fn payload(self) -> (r: Option<P>)
        ensures
            r == self.spec_payload(),
    {
        self.payload
    }

    /// The payload of a success; the status of anything else as an error.
    pub fn payload_if_ok(self) -> (r: Result<P, ClientError>)
        ensures
            !(self.spec_status() is Success) ==> r == Err::<P, ClientError>(
                ClientError::UnexpectedResponseCode { status: self.spec_status() },
            ),
            self.spec_status() is Success ==> r == match self.spec_payload() {
                Some(p) => Ok::<P, ClientError>(p),
                None => Err(ClientError::MissingPayload),
            },
    {
        if !self.status.is_ok() {
            return Err(ClientError::UnexpectedResponseCode { status: self.status });
        }
        match self.payload {
            Some(contents) => Ok(contents),
            None => Err(ClientError::MissingPayload),
        }
    }
}

impl<P: Byteable> AkarekoProtocolResponse<P, ()> {
    /// A success that carries `payload` and no items.
    pub fn ok(payload: P) -> (r: Self)
        ensures
            r.spec_status() == AkarekoStatus::Success,
            r.spec_payload() == Some(payload),
            r.spec_data()@ == StreamModel::<()>::Items(Seq::empty()),
    {
        let data: Vec<()> = Vec::new();
        assert(data@.map_values(|x: ()| x.model()) =~= Seq::<()>::empty());
        AkarekoProtocolResponse {
            status: AkarekoStatus::Success,
            payload: Some(payload),
            data: StreamDecode::new(data),
        }
    }
}


/// The status, then, for a success, the payload and the stream.
pub open spec fn spec_encode_response<P: Byteable, D: Byteable>(m: ResponseModel<P::Model, D::Model>) -> Result<Seq<u8>, EncodeError> {
    match <AkarekoStatus as Byteable>::spec_encode(m.0) {
        Err(err) => Err(err),
        Ok(a) => match m.1 {
            None => Ok(a),
            Some(p) => match P::spec_encode(p) {
                Err(err) => Err(err),
                Ok(b) => match spec_encode_stream::<D>(m.2) {
                    Err(err) => Err(err),
                    Ok(c) => Ok(a + b + c),
                },
            },
        },
    }
}

/// A status that is not a success ends the response: no payload, no items.
pub open spec fn spec_decode_response<P: Byteable, D: Byteable>(b: Seq<u8>) -> Result<(ResponseModel<P::Model, D::Model>, nat), DecodeFault> {
    match <AkarekoStatus as Byteable>::spec_decode(b) {
        Err(f) => Err(f),
        Ok((s, k)) => if !(s is Success) {
            Ok(((s, None, StreamModel::Pending(0)), k))
        } else {
            match P::spec_decode(b.skip(k as int)) {
                Err(f) => Err(f),
                Ok((p, j)) => match spec_decode_stream::<D::Model>(b.skip((k + j) as int)) {
                    Err(f) => Err(f),
                    Ok((st, l)) => Ok(((s, Some(p), st), k + j + l)),
                },
            }
        },
    }
}

impl<P: Byteable, D: Byteable> Byteable for AkarekoProtocolResponse<P, D> {
    type Model = ResponseModel<P::Model, D::Model>;

    open spec fn model(&self) -> ResponseModel<P::Model, D::Model> {
        self.response_model()
    }

    /// The items of a response are read one by one after it, so no response
    /// value is given back whole by reading its bytes; what is given back is
    /// stated by `lemma_success_response_read` and `lemma_refusal_response_read`.
    open spec fn wire_valid(m: ResponseModel<P::Model, D::Model>) -> bool {
        false
    }

    open spec fn spec_encode(m: ResponseModel<P::Model, D::Model>) -> Result<Seq<u8>, EncodeError> {
        spec_encode_response::<P, D>(m)
    }

    open spec fn spec_decode(b: Seq<u8>) -> Result<(ResponseModel<P::Model, D::Model>, nat), DecodeFault> {
        spec_decode_response::<P, D>(b)
    }

    fn encode(&self, out: &mut Vec<u8>) -> (r: Result<(), EncodeError>) {
        let ghost before = out@;
        match self.status.encode(out) {
            Ok(()) => {},
            Err(e) => return Err(e),
        }
        let ghost a = out@;
        match &self.payload {
            None => Ok(()),
            Some(payload) => {
                match payload.encode(out) {
                    Ok(()) => {},
                    Err(e) => return Err(e),
                }
                let ghost b = out@;
                let r = self.data.encode(out);
                proof {
                    if r is Ok {
                        assert(out@ =~= before + ((a.skip(before.len() as int) + b.skip(a.len() as int))
                            + out@.skip(b.len() as int)));
                        assert(a.skip(before.len() as int) =~= <AkarekoStatus as Byteable>::spec_encode(self.status@)->Ok_0);
                        assert(b.skip(a.len() as int) =~= P::spec_encode(payload.model())->Ok_0);
                        assert(out@.skip(b.len() as int) =~= spec_encode_stream::<D>(self.data@)->Ok_0);
                    }
                }
                r
            },
        }
    }

    fn decode(bytes: &[u8], pos: usize) -> (r: Result<(AkarekoProtocolResponse<P, D>, usize), DecodeError>) {
        let (status, p1) = match AkarekoStatus::decode(bytes, pos) {
            Ok(v) => v,
            Err(e) => return Err(e),
        };
        if !status.is_ok() {
            return Ok((
                AkarekoProtocolResponse { status, payload: None, data: StreamDecode::new_receiver(0) },
                p1,
            ));
        }
        proof {
            lemma_skip_skip(bytes@, pos as int, p1 - pos);
        }
        let (payload, p2) = match P::decode(bytes, p1) {
            Ok(v) => v,
            Err(e) => return Err(e),
        };
        proof {
            lemma_skip_skip(bytes@, pos as int, p2 - pos);
        }
        let (data, p3) = match StreamDecode::<D>::decode(bytes, p2) {
            Ok(v) => v,
            Err(e) => return Err(e),
        };
        Ok((AkarekoProtocolResponse { status, payload: Some(payload), data }, p3))
    }

    proof fn lemma_roundtrip(m: ResponseModel<P::Model, D::Model>, rest: Seq<u8>) {
    }

    proof fn lemma_decode_bound(b: Seq<u8>) {
        AkarekoStatus::lemma_decode_bound(b);
        if let Ok((s, k)) = <AkarekoStatus as Byteable>::spec_decode(b) {
            P::lemma_decode_bound(b.skip(k as int));
        }
    }
}


/// The bytes of a success, without its items.
pub open spec fn success_header<P: Byteable>(p: P::Model, count: u64) -> Seq<u8> {
    <AkarekoStatus as Byteable>::spec_encode(StatusModel::Success)->Ok_0 + P::spec_encode(p)->Ok_0
        + be64(count)
}

/// Reading a success gives its status, its payload and the number of its
/// items; the items follow, and reading them one by one gives them back.
#[verifier::rlimit(40)]
pub proof fn lemma_success_response_read<P: Byteable, D: Byteable>(
    p: P::Model,
    items: Seq<D::Model>,
    rest: Seq<u8>,
)
    requires
        P::wire_valid(p),
        P::spec_encode(p) is Ok,
        spec_encode_items::<D>(items) is Ok,
        items.len() <= u64::MAX,
        forall|i: int| 0 <= i < items.len() ==> D::wire_valid(#[trigger] items[i]),
    ensures
        spec_encode_response::<P, D>((StatusModel::Success, Some(p), StreamModel::Items(items)))
            == Ok::<Seq<u8>, EncodeError>(success_header::<P>(p, items.len() as u64) + spec_encode_items::<D>(items)->Ok_0),
        spec_decode_response::<P, D>(success_header::<P>(p, items.len() as u64) + spec_encode_items::<D>(items)->Ok_0 + rest)
            == Ok::<(ResponseModel<P::Model, D::Model>, nat), DecodeFault>((
                (StatusModel::Success, Some(p), StreamModel::Pending(items.len() as u64)),
                success_header::<P>(p, items.len() as u64).len(),
            )),
        spec_decode_items::<D>(
            (success_header::<P>(p, items.len() as u64) + spec_encode_items::<D>(items)->Ok_0 + rest).skip(
                success_header::<P>(p, items.len() as u64).len() as int,
            ),
            items.len(),
        ) == Ok::<(Seq<D::Model>, nat), DecodeFault>((items, spec_encode_items::<D>(items)->Ok_0.len())),
{
    let a = <AkarekoStatus as Byteable>::spec_encode(StatusModel::Success)->Ok_0;
    let b = P::spec_encode(p)->Ok_0;
    let c = be64(items.len() as u64);
    let e = spec_encode_items::<D>(items)->Ok_0;
    let h = a + b + c;
    let all = h + e + rest;
    let t1 = b + c + e + rest;
    let t2 = c + e + rest;
    assert(all =~= a + t1);
    assert(a.len() == 2);
    AkarekoStatus::lemma_roundtrip(StatusModel::Success, t1);
    assert(<AkarekoStatus as Byteable>::spec_decode(all) == Ok::<(StatusModel, nat), DecodeFault>((StatusModel::Success, 2)));
    assert(all.skip(2) =~= t1);
    assert(t1 =~= b + t2);
    P::lemma_roundtrip(p, t2);
    assert(P::spec_decode(all.skip(2)) == Ok::<(P::Model, nat), DecodeFault>((p, b.len())));
    assert(all.skip((2 + b.len()) as int) =~= t2);
    lemma_be64_roundtrip(items.len() as u64);
    assert(from_be64(t2) == from_be64(c));
    assert(spec_decode_stream::<D::Model>(t2) == Ok::<(StreamModel<D::Model>, nat), DecodeFault>((StreamModel::Pending(items.len() as u64), 8)));
    assert(all.skip(h.len() as int) =~= e + rest);
    lemma_items_roundtrip::<D>(items, rest);
    assert(h == success_header::<P>(p, items.len() as u64));
    assert(h + e =~= a + b + (c + e));
}

/// Reading a refusal gives its status, no payload and no items, whatever follows it.
pub proof fn lemma_refusal_response_read<P: Byteable, D: Byteable>(
    status: StatusModel,
    data: StreamModel<D::Model>,
    rest: Seq<u8>,
)
    requires
        !(status is Success),
        <AkarekoStatus as Byteable>::spec_encode(status) is Ok,
    ensures
        ({
            let m: ResponseModel<P::Model, D::Model> = (status, None, data);
            let e = <AkarekoStatus as Byteable>::spec_encode(status)->Ok_0;
            &&& spec_encode_response::<P, D>(m) == Ok::<Seq<u8>, EncodeError>(e)
            &&& spec_decode_response::<P, D>(e + rest) == Ok::<
                (ResponseModel<P::Model, D::Model>, nat),
                DecodeFault,
            >(((status, None, StreamModel::Pending(0)), e.len()))
        }),
{
    AkarekoStatus::lemma_roundtrip(status, rest);
}

} // verus!
