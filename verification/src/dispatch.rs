//! The backend dispatcher.
//!
//! The dispatcher runs inside the (possibly privileged) spawned process. It
//! accepts exactly one incoming session, then serves requests in arrival
//! order until a `Shutdown` request or the loss of the channel ends the loop.
//! Channel reads and the two collaborator calls (device enumeration,
//! superblock parsing) are outside work performed by the surrounding process;
//! this module holds every decision: which work each request asks for, what
//! reply each collaborator outcome earns, and when the session ends.

use vstd::prelude::*;

use crate::protocol::{
    BlockDevice, BlockDeviceV, Request, RequestV, Response, ResponseV, SuperblockInfo,
    SuperblockInfoV,
};
use crate::session::{
    Environment, lookup_superblock, masked_devices, response_for, session_closes,
    session_responses, superblock_response,
};
use crate::session::{lemma_first_shutdown, lemma_first_shutdown_unique};

verus! {

/// Lifecycle of one backend process: it listens for exactly one session,
/// serves it, and never returns to listening.
pub enum DispatcherState {
    /// Waiting to accept the single incoming session.
    Listening,
    /// Serving requests from the accepted session.
    Serving,
    /// The session is over; the process is expected to exit.
    Closed,
}

/// The backend dispatch state machine.
pub struct Dispatcher {
    pub state: DispatcherState,
}

/// The outside work one request asks for.
pub enum Work {
    /// Ask the device-enumeration collaborator for the block devices.
    Enumerate,
    /// Open the named device node and ask the superblock-parsing collaborator
    /// to decode it.
    ReadSuperblock(String),
    /// Close the channel and end the serving loop.
    Close,
}

impl Dispatcher {
    /// A fresh backend: listening, with no session accepted yet.
    pub fn new() -> (d: Self)
        ensures
            d.state is Listening,
    {
        Dispatcher { state: DispatcherState::Listening }
    }

    /// Accept the single incoming session. A second session can never be
    /// accepted: only a listening dispatcher may take one.
    pub fn accept_session(&mut self)
        requires
            old(self).state is Listening,
        ensures
            final(self).state is Serving,
    {
        self.state = DispatcherState::Serving;
    }

    /// Decide what one received request asks for. `Shutdown` ends the session
    /// at once; any other request names the collaborator to consult and keeps
    /// the session open.
    pub fn step(&mut self, req: &Request) -> (w: Work)
        requires
            old(self).state is Serving,
        ensures
            req@ is GetBlockDevices ==> w is Enumerate,
            req@ matches RequestV::GetSuperblock(path) ==> w matches Work::ReadSuperblock(device)
                && device@ == path,
            req@ is Shutdown ==> w is Close,
            req@ is Shutdown ==> final(self).state is Closed,
            !(req@ is Shutdown) ==> final(self).state is Serving,
    {
        match req {
            Request::GetBlockDevices => Work::Enumerate,
            Request::GetSuperblock(path) => Work::ReadSuperblock(path.clone()),
            Request::Shutdown => {
                self.state = DispatcherState::Closed;
                Work::Close
            },
        }
    }

    /// The channel failed or closed under the serving loop: an implicit,
    /// ungraceful shutdown.
    pub fn channel_lost(&mut self)
        requires
            old(self).state is Serving,
        ensures
            final(self).state is Closed,
    {
        self.state = DispatcherState::Closed;
    }
}

/// The reply to `GetBlockDevices`, given what the enumeration collaborator
/// yielded. An internal enumeration failure (`None`) is masked: it is
/// reported as an empty device list, never as an error.
pub fn block_devices_reply(found: Option<Vec<BlockDevice>>) -> (r: Response)
    ensures
        r@ == ResponseV::BlockDevices(masked_devices(found.deep_view())),
{
    match found {
        Some(devices) => Response::BlockDevices(devices),
        None => {
            let empty: Vec<BlockDevice> = Vec::new();
            proof {
                assert(empty.deep_view() =~= Seq::<BlockDeviceV>::empty());
            }
            Response::BlockDevices(empty)
        },
    }
}

/// The reply to `GetSuperblock`, given what the parsing collaborator
/// produced: the decoded metadata on success, the fixed failure message on
/// any open or parse failure.
pub fn superblock_reply(parsed: Option<SuperblockInfo>) -> (r: Response)
    ensures
        r@ == superblock_response(parsed.deep_view()),
{
    match parsed {
        Some(sb) => Response::Superblock(sb),
        None => Response::Error("Failed to get superblock".to_owned()),
    }
}

/// A copy of a device list whose view is unchanged.
pub fn clone_devices(devices: &Vec<BlockDevice>) -> (r: Vec<BlockDevice>)
    ensures
        r.deep_view() == devices.deep_view(),
{
    let mut out: Vec<BlockDevice> = Vec::new();
    let mut i: usize = 0;
    while i < devices.len()
        invariant
            0 <= i <= devices.len(),
            out@.len() == i,
            forall|k: int| 0 <= k < i ==> #[trigger] out@[k]@ == devices@[k]@,
        decreases devices.len() - i,
    {
        out.push(devices[i].clone());
        i += 1;
    }
    proof {
        assert(out.deep_view() =~= devices.deep_view());
    }
    out
}

/// A copy of an enumeration outcome whose view is unchanged.
pub fn clone_enumeration(found: &Option<Vec<BlockDevice>>) -> (r: Option<Vec<BlockDevice>>)
    ensures
        r.deep_view() == found.deep_view(),
{
    match found {
        Some(devices) => Some(clone_devices(devices)),
        None => None,
    }
}

/// Look `path` up among the recorded parse results, front first.
fn find_superblock_from(
    table: &Vec<(String, SuperblockInfo)>,
    path: &String,
    i: usize,
) -> (r: Option<SuperblockInfo>)
    requires
        i <= table.len(),
    ensures
        r.deep_view() == lookup_superblock(table.deep_view().skip(i as int), path@),
    decreases table.len() - i,
{
    if i == table.len() {
        proof {
            assert(table.deep_view().skip(i as int) =~= Seq::<(Seq<char>, SuperblockInfoV)>::empty());
        }
        None
    } else {
        let entry = &table[i];
        proof {
            assert(table.deep_view().skip(i as int)[0] == table.deep_view()[i as int]);
            assert(table.deep_view()[i as int] == (entry.0@, entry.1@));
        }
        if entry.0.eq(path) {
            Some(entry.1.clone())
        } else {
            let r = find_superblock_from(table, path, i + 1);
            proof {
                assert(table.deep_view().skip(i as int).drop_first() =~= table.deep_view().skip(
                    i + 1 as int,
                ));
            }
            r
        }
    }
}

/// What the superblock-parsing collaborator produces for `path`, looked up
/// among the recorded parse results.
pub fn find_superblock(table: &Vec<(String, SuperblockInfo)>, path: &String) -> (r: Option<
    SuperblockInfo,
>)
    ensures
        r.deep_view() == lookup_superblock(table.deep_view(), path@),
{
    let r = find_superblock_from(table, path, 0);
    proof {
        assert(table.deep_view().skip(0) =~= table.deep_view());
    }
    r
}

/// Serve one whole session in memory: accept it, answer the requests in
/// arrival order against fixed collaborator reports, and stop at the first
/// `Shutdown`. The pair returned is the transcript of responses and whether
/// the session ended with a graceful close.
pub fn run_session(
    requests: &Vec<Request>,
    enumeration: &Option<Vec<BlockDevice>>,
    superblocks: &Vec<(String, SuperblockInfo)>,
) -> (out: (Vec<Response>, bool))
    ensures
        ({
            let env = Environment {
                enumeration: enumeration.deep_view(),
                superblocks: superblocks.deep_view(),
            };
            &&& out.0.deep_view() == session_responses(requests.deep_view(), env)
            &&& out.1 == session_closes(requests.deep_view())
        }),
{
    let ghost env = Environment {
        enumeration: enumeration.deep_view(),
        superblocks: superblocks.deep_view(),
    };
    let ghost reqs = requests.deep_view();
    let mut responses: Vec<Response> = Vec::new();
    let mut dispatcher = Dispatcher::new();
    dispatcher.accept_session();
    let mut i: usize = 0;
    let mut closed: bool = false;
    while i < requests.len() && !closed
        invariant
            0 <= i <= requests.len(),
            reqs == requests.deep_view(),
            env == (Environment {
                enumeration: enumeration.deep_view(),
                superblocks: superblocks.deep_view(),
            }),
            !closed ==> forall|j: int| 0 <= j < i ==> !(#[trigger] reqs[j] is Shutdown),
            !closed ==> responses@.len() == i,
            !closed ==> dispatcher.state is Serving,
            closed ==> ({
                &&& 1 <= i <= requests.len()
                &&& reqs[i - 1] is Shutdown
                &&& forall|j: int| 0 <= j < i - 1 ==> !(#[trigger] reqs[j] is Shutdown)
                &&& responses@.len() == i - 1
            }),
            forall|j: int|
                0 <= j < responses@.len() ==> #[trigger] responses@[j]@ == response_for(
                    reqs[j],
                    env,
                ),
        decreases requests.len() - i,
    {
        let req = &requests[i];
        proof {
            assert(req@ == reqs[i as int]);
        }
        let work = dispatcher.step(req);
        match work {
            Work::Enumerate => {
                proof {
                    assert(reqs[i as int] is GetBlockDevices);
                }
                let found = clone_enumeration(enumeration);
                let reply = block_devices_reply(found);
                proof {
                    assert(reply@ == response_for(reqs[i as int], env));
                }
                responses.push(reply);
            },
            Work::ReadSuperblock(path) => {
                proof {
                    assert(reqs[i as int] matches RequestV::GetSuperblock(p) && p == path@);
                }
                let parsed = find_superblock(superblocks, &path);
                let reply = superblock_reply(parsed);
                proof {
                    assert(reply@ == response_for(reqs[i as int], env));
                }
                responses.push(reply);
            },
            Work::Close => {
                closed = true;
            },
        }
        i += 1;
    }
    proof {
        if closed {
            lemma_first_shutdown_unique(reqs, i - 1);
            lemma_first_shutdown(reqs);
            assert(responses.deep_view() =~= session_responses(reqs, env));
        } else {
            lemma_first_shutdown_unique(reqs, reqs.len() as int);
            lemma_first_shutdown(reqs);
            assert(responses.deep_view() =~= session_responses(reqs, env));
        }
    }
    (responses, closed)
}

} // verus!
