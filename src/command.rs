//! The requests a connection hands to the store, and the replies it sends.
use vstd::prelude::*;

verus! {

/// A decoded client request.
pub enum Command {
    /// Read the value stored under `key`.
    Get { key: String },
    /// Store `value` under `key`.
    Put { key: String, value: Vec<u8> },
    /// Any other kind of request; the store does not serve it.
    Unsupported,
}

/// The reply to a served request.
pub enum Response {
    /// Simple acknowledgement of a write.
    Ack,
    /// The value that was found.
    Bulk(Vec<u8>),
    /// No value is stored under the key.
    Null,
}

/// The key that a command reads or writes, if it is a supported one.
pub open spec fn command_key(cmd: Command) -> Option<Seq<char>> {
    match cmd {
        Command::Get { key } => Some(key@),
        Command::Put { key, .. } => Some(key@),
        Command::Unsupported => None,
    }
}

/// The mapping after `cmd` has been applied to `m`.
pub open spec fn apply_effect(m: Map<Seq<char>, Seq<u8>>, cmd: Command) -> Map<Seq<char>, Seq<u8>> {
    match cmd {
        Command::Put { key, value } => m.insert(key@, value@),
        _ => m,
    }
}

/// `r` is the reply owed to `cmd` on the mapping `m`: an acknowledgement for a
/// write, the stored value or the absence indicator for a read, and nothing
/// for an unsupported request.
pub open spec fn is_reply(m: Map<Seq<char>, Seq<u8>>, cmd: Command, r: Option<Response>) -> bool {
    match cmd {
        Command::Get { key } => match r {
            Some(Response::Bulk(v)) => m.contains_key(key@) && v@ == m[key@],
            Some(Response::Null) => !m.contains_key(key@),
            _ => false,
        },
        Command::Put { .. } => r matches Some(Response::Ack),
        Command::Unsupported => r is None,
    }
}

} // verus!
