//! The commands of the protocol and the work of each.
pub mod events;
pub mod index;
pub mod post;
pub mod users;

use vstd::prelude::*;

use crate::errors::{DecodeError, DecodeFault, EncodeError};
use crate::helpers::byteable::{
    decode_string, encode_str, lemma_short_str_encodable, lemma_skip_concat, lemma_skip_skip, lemma_str_roundtrip,
    spec_decode_str, spec_encode_str, Byteable,
};
use crate::helpers::strings::str_eq;
use crate::config::AkarekoConfig;
use crate::errors::ServerError;
use crate::server::protocol::AkarekoProtocolVersion;

verus! {

/// The commands of the first version of the protocol.
#[derive(Debug, Clone, Copy, PartialEq, Eq, Structural)]
pub enum CommandsV1 {
    Who,
    GetUsers,
    GetAllIndexes,
    GetIndexes,
    GetContents,
    GetPostsByTopic,
    SyncEvents,
}

/// The name a command is sent under.
pub open spec fn spec_command_name(c: CommandsV1) -> Seq<char> {
    match c {
        CommandsV1::Who => "who"@,
        CommandsV1::GetUsers => "user/get_users"@,
        CommandsV1::GetAllIndexes => "manga/get_all_indexes"@,
        CommandsV1::GetIndexes => "manga/get_indexes"@,
        CommandsV1::GetContents => "manga/get_contents"@,
        CommandsV1::GetPostsByTopic => "post/get_posts_by_topic"@,
        CommandsV1::SyncEvents => "event/sync_events"@,
    }
}

/// The command sent under a name, if any.
pub open spec fn spec_command_from_name(s: Seq<char>) -> Option<CommandsV1> {
    if s == "who"@ {
        Some(CommandsV1::Who)
    } else if s == "user/get_users"@ {
        Some(CommandsV1::GetUsers)
    } else if s == "manga/get_all_indexes"@ {
        Some(CommandsV1::GetAllIndexes)
    } else if s == "manga/get_indexes"@ {
        Some(CommandsV1::GetIndexes)
    } else if s == "manga/get_contents"@ {
        Some(CommandsV1::GetContents)
    } else if s == "post/get_posts_by_topic"@ {
        Some(CommandsV1::GetPostsByTopic)
    } else if s == "event/sync_events"@ {
        Some(CommandsV1::SyncEvents)
    } else {
        None
    }
}

/// Each command is read back from its name, and each name can be written.
pub proof fn lemma_command_name_roundtrip(c: CommandsV1)
    ensures
        spec_command_from_name(spec_command_name(c)) == Some(c),
        spec_encode_str(spec_command_name(c)) is Ok,
{
    reveal_strlit("who");
    reveal_strlit("user/get_users");
    reveal_strlit("manga/get_all_indexes");
    reveal_strlit("manga/get_indexes");
    reveal_strlit("manga/get_contents");
    reveal_strlit("post/get_posts_by_topic");
    reveal_strlit("event/sync_events");
    assert("who"@.len() == 3);
    assert("user/get_users"@.len() == 14);
    assert("manga/get_all_indexes"@.len() == 21);
    assert("manga/get_indexes"@.len() == 17);
    assert("manga/get_contents"@.len() == 18);
    assert("post/get_posts_by_topic"@.len() == 23);
    assert("event/sync_events"@.len() == 17);
    assert("manga/get_indexes"@[0] != "event/sync_events"@[0]);
    lemma_short_str_encodable(spec_command_name(c));
}

impl CommandsV1 {
    /// The name the command is sent under.
    pub fn name(&self) -> (r: &'static str)
        ensures
            r@ == spec_command_name(*self),
    {
        match self {
            CommandsV1::Who => "who",
            CommandsV1::GetUsers => "user/get_users",
            CommandsV1::GetAllIndexes => "manga/get_all_indexes",
            CommandsV1::GetIndexes => "manga/get_indexes",
            CommandsV1::GetContents => "manga/get_contents",
            CommandsV1::GetPostsByTopic => "post/get_posts_by_topic",
            CommandsV1::SyncEvents => "event/sync_events",
        }
    }
}

impl Byteable for CommandsV1 {
    type Model = CommandsV1;

    open spec fn model(&self) -> CommandsV1 {
        *self
    }

    open spec fn wire_valid(m: CommandsV1) -> bool {
        true
    }

    /// The command's name, written as a string.
    open spec fn spec_encode(m: CommandsV1) -> Result<Seq<u8>, EncodeError> {
        spec_encode_str(spec_command_name(m))
    }

    open spec fn spec_decode(b: Seq<u8>) -> Result<(CommandsV1, nat), DecodeFault> {
        match spec_decode_str(b) {
            Err(f) => Err(f),
            Ok((s, n)) => match spec_command_from_name(s) {
                Some(c) => Ok((c, n)),
                None => Err(
                    DecodeFault::InvalidEnumVariant { variant_value: s, enum_name: "CommandsV1"@ },
                ),
            },
        }
    }

    fn encode(&self, out: &mut Vec<u8>) -> (r: Result<(), EncodeError>) {
        encode_str(self.name(), out)
    }

    fn decode(bytes: &[u8], pos: usize) -> (r: Result<(CommandsV1, usize), DecodeError>) {
        let (value, p) = match decode_string(bytes, pos) {
            Ok(v) => v,
            Err(e) => return Err(e),
        };
        let s = value.as_str();
        if str_eq(s, "who") {
            Ok((CommandsV1::Who, p))
        } else if str_eq(s, "user/get_users") {
            Ok((CommandsV1::GetUsers, p))
        } else if str_eq(s, "manga/get_all_indexes") {
            Ok((CommandsV1::GetAllIndexes, p))
        } else if str_eq(s, "manga/get_indexes") {
            Ok((CommandsV1::GetIndexes, p))
        } else if str_eq(s, "manga/get_contents") {
            Ok((CommandsV1::GetContents, p))
        } else if str_eq(s, "post/get_posts_by_topic") {
            Ok((CommandsV1::GetPostsByTopic, p))
        } else if str_eq(s, "event/sync_events") {
            Ok((CommandsV1::SyncEvents, p))
        } else {
            Err(DecodeError::InvalidEnumVariant { variant_value: value, enum_name: "CommandsV1" })
        }
    }

    proof fn lemma_roundtrip(m: CommandsV1, rest: Seq<u8>) {
        lemma_command_name_roundtrip(m);
        lemma_str_roundtrip(spec_command_name(m), rest);
    }

    proof fn lemma_decode_bound(b: Seq<u8>) {
    }
}

/// The head of a request: the protocol's version, then the command's name.
pub open spec fn spec_request_head(command: CommandsV1) -> Seq<u8> {
    seq![1u8] + spec_encode_str(spec_command_name(command))->Ok_0
}

/// Writes the head of a request for `command`.
pub fn encode_request(command: CommandsV1, out: &mut Vec<u8>) -> (r: Result<(), EncodeError>)
    ensures
        r is Ok,
        final(out)@ == old(out)@ + spec_request_head(command),
{
    let version = AkarekoProtocolVersion::V1;
    let _ = version.encode(out);
    proof {
        lemma_command_name_roundtrip(command);
    }
    let r = command.encode(out);
    assert(out@ =~= old(out)@ + spec_request_head(command));
    r
}

/// Writes a whole request: its head, then `payload`.
pub fn encode_request_with_payload<P: Byteable>(command: CommandsV1, payload: &P, out: &mut Vec<u8>) -> (r: Result<(), EncodeError>)
    ensures
        match P::spec_encode(payload.model()) {
            Ok(e) => r is Ok && final(out)@ == old(out)@ + spec_request_head(command) + e,
            Err(err) => r == Err::<(), EncodeError>(err),
        },
{
    let _ = encode_request(command, out);
    let ghost mid = out@;
    let r = payload.encode(out);
    proof {
        if r is Ok {
            assert(out@ =~= old(out)@ + spec_request_head(command) + P::spec_encode(payload.model())->Ok_0);
        }
    }
    r
}

/// Reads the head of a request: the version, then the command.
pub fn decode_request_head(bytes: &[u8], pos: usize) -> (r: Result<(AkarekoProtocolVersion, CommandsV1, usize), DecodeError>)
    requires
        pos <= bytes@.len(),
    ensures
        match r {
            Ok((v, c, p)) => {
                &&& pos < bytes@.len() && bytes@[pos as int] == 1 && v == AkarekoProtocolVersion::V1
                &&& pos + 1 <= p <= bytes@.len()
                &&& CommandsV1::spec_decode(bytes@.skip(pos + 1))
                    == Ok::<(CommandsV1, nat), DecodeFault>((c, (p - pos - 1) as nat))
            },
            Err(e) => if pos < bytes@.len() && bytes@[pos as int] == 1 {
                CommandsV1::spec_decode(bytes@.skip(pos + 1)) == Err::<(CommandsV1, nat), DecodeFault>(e.fault())
            } else {
                <AkarekoProtocolVersion as Byteable>::spec_decode(bytes@.skip(pos as int))
                    == Err::<(AkarekoProtocolVersion, nat), DecodeFault>(e.fault())
            },
        },
{
    let (version, p1) = match AkarekoProtocolVersion::decode(bytes, pos) {
        Ok(v) => v,
        Err(e) => return Err(e),
    };
    proof {
        lemma_skip_skip(bytes@, pos as int, p1 - pos);
    }
    let (command, p2) = match CommandsV1::decode(bytes, p1) {
        Ok(v) => v,
        Err(e) => return Err(e),
    };
    Ok((version, command, p2))
}

/// Reading the head written for a command gives the version and the command back.
pub proof fn lemma_request_head_read(command: CommandsV1, rest: Seq<u8>)
    ensures
        ({
            let b = spec_request_head(command) + rest;
            &&& <AkarekoProtocolVersion as Byteable>::spec_decode(b) == Ok::<(AkarekoProtocolVersion, nat), DecodeFault>((AkarekoProtocolVersion::V1, 1))
            &&& CommandsV1::spec_decode(b.skip(1)) == Ok::<(CommandsV1, nat), DecodeFault>((command, (spec_request_head(command).len() - 1) as nat))
        }),
{
    let e = spec_encode_str(spec_command_name(command))->Ok_0;
    let b = spec_request_head(command) + rest;
    assert(b.skip(1) =~= e + rest);
    lemma_command_name_roundtrip(command);
    CommandsV1::lemma_roundtrip(command, rest);
}


/// The enums of commands, one per version of the protocol.
pub trait CommandEnum: Byteable {}

impl CommandEnum for CommandsV1 {}

/// What a command's marker type is sent as: its command, under the first
/// version of the protocol.
pub trait AkarekoProtocolCommandMetadata {
    spec fn spec_command() -> CommandsV1;

    fn command() -> (r: CommandsV1)
        ensures
            r == Self::spec_command(),
    ;
}

/// Writes a whole request for the command of `C`: its head, then `payload`.
pub fn encode_command_request<C: AkarekoProtocolCommandMetadata, P: Byteable>(payload: &P, out: &mut Vec<u8>) -> (r: Result<(), EncodeError>)
    ensures
        match P::spec_encode(payload.model()) {
            Ok(e) => r is Ok && final(out)@ == old(out)@ + spec_request_head(C::spec_command()) + e,
            Err(err) => r == Err::<(), EncodeError>(err),
        },
{
    encode_request_with_payload(C::command(), payload, out)
}

/// Lets a relay's command through only on a node that is a relay.
pub fn relay_check(config: &AkarekoConfig) -> (r: Result<(), ServerError>)
    ensures
        r is Ok <==> config.spec_is_relay(),
        r matches Err(e) ==> e == ServerError::RelayNotEnabled,
{
    if !config.is_relay() {
        return Err(ServerError::RelayNotEnabled);
    }
    Ok(())
}

} // verus!
