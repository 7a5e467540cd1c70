//! The typed client side of a session.
//!
//! A session pairs one client with one backend over a duplex channel. The
//! channel itself, and the executor strategy that spawns the backend, are
//! outside work done by the surrounding process; this module holds the
//! client's decisions: which request each typed call sends, and what each
//! possible arrival on the channel means for the call's outcome. A client
//! issues one request at a time and is consumed by its shutdown handshake, so
//! no request can follow it.

use vstd::prelude::*;

use crate::protocol::{BlockDevice, Request, RequestV, Response, ResponseV, SuperblockInfo};

verus! {

/// Why a call on the client, or the establishment of a session, failed.
pub enum ClientError {
    /// The executor strategy could not produce a session at all: the backend
    /// executable is missing, privilege elevation was refused, or the spawn
    /// failed.
    SpawnError,
    /// An I/O failure on the underlying channel. Fatal for the session.
    ChannelError,
    /// The backend ran the operation and reported this failure reason. The
    /// session stays usable.
    OperationError(String),
    /// The response kind did not match the outstanding request, or the
    /// channel closed while a response was owed. Fatal for the session.
    ProtocolViolation,
}

/// Mathematical view of [`ClientError`].
#[verifier::ext_equal]
pub ghost enum ClientErrorV {
    SpawnError,
    ChannelError,
    OperationError(Seq<char>),
    ProtocolViolation,
}

impl View for ClientError {
    type V = ClientErrorV;

    open spec fn view(&self) -> ClientErrorV {
        match self {
            ClientError::SpawnError => ClientErrorV::SpawnError,
            ClientError::ChannelError => ClientErrorV::ChannelError,
            ClientError::OperationError(message) => ClientErrorV::OperationError(message@),
            ClientError::ProtocolViolation => ClientErrorV::ProtocolViolation,
        }
    }
}

/// What one blocking read on the channel came back with while a response was
/// owed.
pub enum Arrival {
    /// A whole response was received.
    Received(Response),
    /// The channel closed before any response arrived.
    Closed,
    /// The read failed with an I/O error.
    Failed,
}

/// Mathematical view of [`Arrival`].
#[verifier::ext_equal]
pub ghost enum ArrivalV {
    Received(ResponseV),
    Closed,
    Failed,
}

impl View for Arrival {
    type V = ArrivalV;

    open spec fn view(&self) -> ArrivalV {
        match self {
            Arrival::Received(response) => ArrivalV::Received(response@),
            Arrival::Closed => ArrivalV::Closed,
            Arrival::Failed => ArrivalV::Failed,
        }
    }
}

/// The outcome a `get_block_devices` call owes its caller for each possible
/// arrival: the device list on the matching response, the backend's reason on
/// an error report, a protocol violation on any other response kind or on
/// closure before a response, and a channel error on a failed read.
pub open spec fn block_devices_outcome(arrival: ArrivalV) -> Result<
    Seq<crate::protocol::BlockDeviceV>,
    ClientErrorV,
> {
    match arrival {
        ArrivalV::Received(response) => match response {
            ResponseV::BlockDevices(devices) => Ok(devices),
            ResponseV::Superblock(_) => Err(ClientErrorV::ProtocolViolation),
            ResponseV::Error(message) => Err(ClientErrorV::OperationError(message)),
        },
        ArrivalV::Closed => Err(ClientErrorV::ProtocolViolation),
        ArrivalV::Failed => Err(ClientErrorV::ChannelError),
    }
}

/// The outcome a `get_superblock` call owes its caller, arranged as
/// [`block_devices_outcome`] is: only the expected successful variant
/// succeeds, an error report carries the backend's reason verbatim, and any
/// mismatched response is a protocol violation.
pub open spec fn superblock_outcome(arrival: ArrivalV) -> Result<
    crate::protocol::SuperblockInfoV,
    ClientErrorV,
> {
    match arrival {
        ArrivalV::Received(response) => match response {
            ResponseV::Superblock(sb) => Ok(sb),
            ResponseV::BlockDevices(_) => Err(ClientErrorV::ProtocolViolation),
            ResponseV::Error(message) => Err(ClientErrorV::OperationError(message)),
        },
        ArrivalV::Closed => Err(ClientErrorV::ProtocolViolation),
        ArrivalV::Failed => Err(ClientErrorV::ChannelError),
    }
}

/// Client and backend agree on device listings: the response the backend owes
/// a `GetBlockDevices` request is interpreted by the client as success — never
/// as a protocol violation — and hands the caller exactly the reported
/// devices.
pub proof fn lemma_devices_call_agrees(env: crate::session::Environment)
    ensures
        block_devices_outcome(
            ArrivalV::Received(
                crate::session::response_for(RequestV::GetBlockDevices, env),
            ),
        ) == Ok::<Seq<crate::protocol::BlockDeviceV>, ClientErrorV>(
            crate::session::masked_devices(env.enumeration),
        ),
{
}

/// Client and backend agree on superblock reads: the response the backend
/// owes a `GetSuperblock` request is interpreted as the decoded metadata when
/// the parse succeeded, and as an operation error carrying the backend's
/// fixed failure message when it did not — never as a protocol violation.
pub proof fn lemma_superblock_call_agrees(env: crate::session::Environment, path: Seq<char>)
    ensures
        ({
            let outcome = superblock_outcome(
                ArrivalV::Received(
                    crate::session::response_for(RequestV::GetSuperblock(path), env),
                ),
            );
            match crate::session::lookup_superblock(env.superblocks, path) {
                Some(sb) => outcome == Ok::<crate::protocol::SuperblockInfoV, ClientErrorV>(sb),
                None => outcome == Err::<crate::protocol::SuperblockInfoV, ClientErrorV>(
                    ClientErrorV::OperationError(crate::session::superblock_failure_message()),
                ),
            }
        }),
{
}

/// The client's half of one session. Each typed call produces the one request
/// to send and interprets the one arrival owed back; the shutdown handshake
/// consumes the session, so no request can be issued after it.
pub struct ClientSession {}

impl ClientSession {
    /// A fresh session handle over a newly connected channel.
    pub fn new() -> (session: Self) {
        ClientSession {  }
    }

    /// The request a `get_block_devices` call sends.
    pub fn block_devices_request(&self) -> (r: Request)
        ensures
            r@ is GetBlockDevices,
    {
        Request::GetBlockDevices
    }

    /// The request a `get_superblock` call sends for `device`.
    pub fn superblock_request(&self, device: &str) -> (r: Request)
        ensures
            r@ == RequestV::GetSuperblock(device@),
    {
        Request::GetSuperblock(device.to_owned())
    }

    /// Interpret the arrival owed to an outstanding `GetBlockDevices`.
    pub fn interpret_block_devices(&self, arrival: Arrival) -> (r: Result<
        Vec<BlockDevice>,
        ClientError,
    >)
        ensures
            r matches Ok(devices) ==> block_devices_outcome(arrival@) == Ok::<
                Seq<crate::protocol::BlockDeviceV>,
                ClientErrorV,
            >(devices.deep_view()),
            r matches Err(e) ==> block_devices_outcome(arrival@) == Err::<
                Seq<crate::protocol::BlockDeviceV>,
                ClientErrorV,
            >(e@),
    {
        match arrival {
            Arrival::Received(response) => match response {
                Response::BlockDevices(devices) => Ok(devices),
                Response::Superblock(_) => Err(ClientError::ProtocolViolation),
                Response::Error(message) => Err(ClientError::OperationError(message)),
            },
            Arrival::Closed => Err(ClientError::ProtocolViolation),
            Arrival::Failed => Err(ClientError::ChannelError),
        }
    }

    /// Interpret the arrival owed to an outstanding `GetSuperblock`.
    pub fn interpret_superblock(&self, arrival: Arrival) -> (r: Result<
        SuperblockInfo,
        ClientError,
    >)
        ensures
            r matches Ok(sb) ==> superblock_outcome(arrival@) == Ok::<
                crate::protocol::SuperblockInfoV,
                ClientErrorV,
            >(sb@),
            r matches Err(e) ==> superblock_outcome(arrival@) == Err::<
                crate::protocol::SuperblockInfoV,
                ClientErrorV,
            >(e@),
    {
        match arrival {
            Arrival::Received(response) => match response {
                Response::Superblock(sb) => Ok(sb),
                Response::BlockDevices(_) => Err(ClientError::ProtocolViolation),
                Response::Error(message) => Err(ClientError::OperationError(message)),
            },
            Arrival::Closed => Err(ClientError::ProtocolViolation),
            Arrival::Failed => Err(ClientError::ChannelError),
        }
    }

    /// The shutdown handshake: the one `Shutdown` request to write before
    /// closing both directions of the channel. Taking the session by value
    /// consumes it; no further request can be issued over it, and no response
    /// is ever owed for this request.
    pub fn shutdown(self) -> (r: Request)
        ensures
            r@ is Shutdown,
    {
        Request::Shutdown
    }
}

} // verus!
