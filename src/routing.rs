//! Turning a received frame into a command bound for one shard.
use vstd::prelude::*;
use crate::command::{command_key, Command};
use crate::hashing::{route_of, shard_index};

verus! {

/// `mini_redis::Frame`, one decoded unit of the wire protocol, carried
/// through unopened.
#[verifier::external_type_specification]
#[verifier::external_body]
pub struct ExFrame(mini_redis::Frame);

/// Why a connection has to be torn down.
#[derive(Debug, PartialEq, Eq, Structural)]
pub enum ConnectionError {
    /// The frame could not be parsed as a command.
    Malformed,
    /// The command is of a kind that the store does not serve.
    Unsupported,
}

/// A supported command together with the shard that serves it.
pub struct Routed {
    pub shard: usize,
    pub command: Command,
}

/// The command that `mini_redis::Command::from_frame` reads from a frame,
/// or the error it gives; it depends on the frame alone.
pub uninterp spec fn parsed_of(frame: mini_redis::Frame) -> Result<Command, ConnectionError>;

/// Relies on `mini_redis::Command::from_frame` to parse a frame: a GET or SET
/// keeps its key (and value), any other command kind becomes `Unsupported`,
/// and a parse failure becomes `Malformed`.
#[verifier::external_body]
fn parse_command(frame: mini_redis::Frame) -> (r: Result<Command, ConnectionError>)
    ensures
        r == parsed_of(frame),
        r matches Err(e) ==> e == ConnectionError::Malformed,
{
    match mini_redis::Command::from_frame(frame) {
        Ok(mini_redis::Command::Get(c)) => Ok(Command::Get { key: c.key().to_string() }),
        Ok(mini_redis::Command::Set(c)) => Ok(Command::Put { key: c.key().to_string(), value: c.value().to_vec() }),
        Ok(_) => Ok(Command::Unsupported),
        Err(_) => Err(ConnectionError::Malformed),
    }
}

/// `r` is `cmd` bound to the shard its key routes to among `shard_count`, or
/// `Unsupported` where `cmd` has no key.
pub open spec fn is_routing_of(cmd: Command, shard_count: nat, r: Result<Routed, ConnectionError>) -> bool {
    match command_key(cmd) {
        Some(k) => r matches Ok(x) && x.command == cmd && x.shard < shard_count
            && x.shard as nat == route_of(k, shard_count),
        None => r == Err::<Routed, ConnectionError>(ConnectionError::Unsupported),
    }
}

/// `r` is what a parse result `parsed` gives once routed: a parse error is
/// passed on unchanged, and a command is routed.
pub open spec fn is_decoding_of(
    parsed: Result<Command, ConnectionError>,
    shard_count: nat,
    r: Result<Routed, ConnectionError>,
) -> bool {
    match parsed {
        Ok(cmd) => is_routing_of(cmd, shard_count, r),
        Err(e) => r == Err::<Routed, ConnectionError>(e),
    }
}

/// Binds a command to the shard its key routes to; an unsupported command
/// is an error.
pub fn route_command(cmd: Command, shard_count: usize) -> (r: Result<Routed, ConnectionError>)
    requires
        shard_count >= 1,
    ensures
        is_routing_of(cmd, shard_count as nat, r),
{
    let shard = match &cmd {
        Command::Get { key } => shard_index(key.as_str(), shard_count),
        Command::Put { key, .. } => shard_index(key.as_str(), shard_count),
        Command::Unsupported => {
            return Err(ConnectionError::Unsupported);
        },
    };
    Ok(Routed { shard, command: cmd })
}

/// Parses a received frame and routes the command in it. A frame that does
/// not parse is `Malformed`; one that parses to an unsupported command is
/// `Unsupported`; otherwise the command is bound to its key's shard.
pub fn decode_request(frame: mini_redis::Frame, shard_count: usize) -> (r: Result<Routed, ConnectionError>)
    requires
        shard_count >= 1,
    ensures
        is_decoding_of(parsed_of(frame), shard_count as nat, r),
        r matches Err(e) ==> (e == ConnectionError::Malformed <==> parsed_of(frame) is Err),
{
    match parse_command(frame) {
        Ok(cmd) => route_command(cmd, shard_count),
        Err(e) => Err(e),
    }
}

/// What a connection does after it has waited for its next frame.
pub enum Step {
    /// Serve the command on its shard, reply, and wait for the next frame.
    Dispatch(Routed),
    /// The peer closed the stream cleanly: end without error.
    Close,
    /// The frame is fatal to the connection: tear it down with no reply.
    Abort(ConnectionError),
}

/// Decides the connection's next step from what reading the next frame gave:
/// `None` when the peer closed the stream.
pub fn next_step(received: Option<mini_redis::Frame>, shard_count: usize) -> (r: Step)
    requires
        shard_count >= 1,
    ensures
        received is None ==> r is Close,
        received matches Some(f) ==> match parsed_of(f) {
            Ok(cmd) => match command_key(cmd) {
                Some(k) => r matches Step::Dispatch(x) && x.command == cmd && x.shard < shard_count
                    && x.shard as nat == route_of(k, shard_count as nat),
                None => r matches Step::Abort(ConnectionError::Unsupported),
            },
            Err(e) => r == Step::Abort(e),
        },
{
    match received {
        None => Step::Close,
        Some(frame) => match decode_request(frame, shard_count) {
            Ok(x) => Step::Dispatch(x),
            Err(e) => Step::Abort(e),
        },
    }
}

} // verus!
