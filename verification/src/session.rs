//! The mathematical model of one serving session.
//!
//! A session is driven by a sequence of requests read in arrival order. The
//! backend answers each request from what its two collaborators report: the
//! device-enumeration collaborator and the superblock-parsing collaborator.
//! [`Environment`] captures those reports for one session; the transcript of
//! responses is [`session_responses`]. The laws at the end of this module
//! state the request/response pairing, shutdown, ordering and idempotence
//! guarantees of the protocol.

use vstd::prelude::*;

use crate::protocol::{BlockDeviceV, RequestV, ResponseV, SuperblockInfoV};

verus! {

/// What the backend's collaborators report during one session.
///
/// `enumeration` is what the device-enumeration collaborator yields:
/// `None` when enumeration fails internally, `Some` with the discovered
/// devices otherwise. `superblocks` records, per device path, the metadata
/// the superblock-parsing collaborator can decode; a path without an entry
/// is one the collaborator rejects.
pub ghost struct Environment {
    pub enumeration: Option<Seq<BlockDeviceV>>,
    pub superblocks: Seq<(Seq<char>, SuperblockInfoV)>,
}

/// The device list actually reported: an enumeration failure is masked and
/// reported as "nothing found" rather than as an error.
pub open spec fn masked_devices(found: Option<Seq<BlockDeviceV>>) -> Seq<BlockDeviceV> {
    match found {
        Some(devices) => devices,
        None => Seq::empty(),
    }
}

/// First successful parse recorded for `path`, if any.
pub open spec fn lookup_superblock(
    table: Seq<(Seq<char>, SuperblockInfoV)>,
    path: Seq<char>,
) -> Option<SuperblockInfoV>
    decreases table.len(),
{
    if table.len() == 0 {
        None
    } else if table[0].0 == path {
        Some(table[0].1)
    } else {
        lookup_superblock(table.drop_first(), path)
    }
}

/// The one message the backend sends when a superblock cannot be read.
pub open spec fn superblock_failure_message() -> Seq<char> {
    "Failed to get superblock"@
}

/// The reply to a superblock request, given what the parsing collaborator
/// produced: the decoded metadata on success, the fixed error message on any
/// open or parse failure.
pub open spec fn superblock_response(parsed: Option<SuperblockInfoV>) -> ResponseV {
    match parsed {
        Some(sb) => ResponseV::Superblock(sb),
        None => ResponseV::Error(superblock_failure_message()),
    }
}

/// The single response owed to one non-`Shutdown` request.
pub open spec fn response_for(req: RequestV, env: Environment) -> ResponseV
    recommends
        !(req is Shutdown),
{
    match req {
        RequestV::GetBlockDevices => ResponseV::BlockDevices(masked_devices(env.enumeration)),
        RequestV::GetSuperblock(path) => superblock_response(
            lookup_superblock(env.superblocks, path),
        ),
        RequestV::Shutdown => arbitrary(),
    }
}

/// Index of the first `Shutdown` in `reqs`, or `reqs.len()` if there is none.
/// Requests up to this index are served; nothing at or after it is answered.
pub open spec fn first_shutdown(reqs: Seq<RequestV>) -> int
    decreases reqs.len(),
{
    if reqs.len() == 0 {
        0
    } else if reqs[0] is Shutdown {
        0
    } else {
        1 + first_shutdown(reqs.drop_first())
    }
}

/// Whether the session ends with the backend closing the channel gracefully.
pub open spec fn session_closes(reqs: Seq<RequestV>) -> bool {
    exists|i: int| 0 <= i < reqs.len() && reqs[i] is Shutdown
}

/// The transcript of one session: one response per request, in arrival order,
/// up to but not including the first `Shutdown`.
pub open spec fn session_responses(reqs: Seq<RequestV>, env: Environment) -> Seq<ResponseV> {
    Seq::new(first_shutdown(reqs) as nat, |i: int| response_for(reqs[i], env))
}

/// Whether `resp` is a legal answer to `req`: the successful variant that
/// corresponds to the request's kind, or an error report. `Shutdown` has no
/// legal answer.
pub open spec fn answers(req: RequestV, resp: ResponseV) -> bool {
    match req {
        RequestV::GetBlockDevices => resp is BlockDevices,
        RequestV::GetSuperblock(_) => resp is Superblock || resp is Error,
        RequestV::Shutdown => false,
    }
}

/// Placement of the first `Shutdown`: it is in bounds, nothing before it is a
/// `Shutdown`, it is itself a `Shutdown` when it is in bounds, and it is in
/// bounds exactly when the session closes gracefully.
pub proof fn lemma_first_shutdown(reqs: Seq<RequestV>)
    ensures
        0 <= first_shutdown(reqs) <= reqs.len(),
        forall|j: int| 0 <= j < first_shutdown(reqs) ==> !(reqs[j] is Shutdown),
        first_shutdown(reqs) < reqs.len() ==> reqs[first_shutdown(reqs)] is Shutdown,
        session_closes(reqs) <==> first_shutdown(reqs) < reqs.len(),
    decreases reqs.len(),
{
    if reqs.len() == 0 {
    } else if reqs[0] is Shutdown {
    } else {
        let rest = reqs.drop_first();
        lemma_first_shutdown(rest);
        assert(forall|j: int|
            0 <= j < first_shutdown(reqs) ==> !(#[trigger] reqs[j] is Shutdown)) by {
            assert forall|j: int| 0 <= j < first_shutdown(reqs) implies !(#[trigger] reqs[j]
                is Shutdown) by {
                if j > 0 {
                    assert(reqs[j] == rest[j - 1]);
                }
            }
        }
        if first_shutdown(reqs) < reqs.len() {
            assert(reqs[first_shutdown(reqs)] == rest[first_shutdown(rest)]);
        }
        if session_closes(reqs) {
            let i = choose|i: int| 0 <= i < reqs.len() && reqs[i] is Shutdown;
            assert(i > 0);
            assert(rest[i - 1] is Shutdown);
            assert(session_closes(rest));
        }
        if session_closes(rest) {
            let i = choose|i: int| 0 <= i < rest.len() && rest[i] is Shutdown;
            assert(reqs[i + 1] is Shutdown);
        }
    }
}

/// The first `Shutdown` is exactly the position `k` before which no request
/// is a `Shutdown` and which is itself a `Shutdown` or the end.
pub proof fn lemma_first_shutdown_unique(reqs: Seq<RequestV>, k: int)
    requires
        0 <= k <= reqs.len(),
        forall|j: int| 0 <= j < k ==> !(#[trigger] reqs[j] is Shutdown),
        k < reqs.len() ==> reqs[k] is Shutdown,
    ensures
        first_shutdown(reqs) == k,
{
    lemma_first_shutdown(reqs);
    let fs = first_shutdown(reqs);
    if fs < k {
        assert(reqs[fs] is Shutdown);
    }
    if k < fs {
        assert(!(reqs[k] is Shutdown));
    }
}

/// In a session with no `Shutdown`, every request receives exactly one
/// response — never zero, never more than one — and that response is of the
/// successful variant corresponding to the request's kind, or an error
/// report; never a mismatched successful variant.
pub proof fn lemma_every_request_answered(reqs: Seq<RequestV>, env: Environment)
    requires
        forall|i: int| 0 <= i < reqs.len() ==> !(#[trigger] reqs[i] is Shutdown),
    ensures
        session_responses(reqs, env).len() == reqs.len(),
        forall|i: int|
            0 <= i < reqs.len() ==> #[trigger] session_responses(reqs, env)[i] == response_for(
                reqs[i],
                env,
            ),
        forall|i: int|
            0 <= i < reqs.len() ==> answers(reqs[i], #[trigger] session_responses(reqs, env)[i]),
{
    lemma_first_shutdown_unique(reqs, reqs.len() as int);
    assert forall|i: int| 0 <= i < reqs.len() implies answers(
        reqs[i],
        #[trigger] session_responses(reqs, env)[i],
    ) by {
        match reqs[i] {
            RequestV::GetBlockDevices => {},
            RequestV::GetSuperblock(path) => {},
            RequestV::Shutdown => {},
        }
    }
}

/// Responses come back in the exact order of the requests they answer: the
/// i-th response of the transcript answers the i-th request.
pub proof fn lemma_responses_in_request_order(reqs: Seq<RequestV>, env: Environment)
    ensures
        session_responses(reqs, env).len() <= reqs.len(),
        forall|i: int|
            0 <= i < session_responses(reqs, env).len() ==> #[trigger] session_responses(
                reqs,
                env,
            )[i] == response_for(reqs[i], env),
{
    lemma_first_shutdown(reqs);
}

/// A `Shutdown` ends the session: the requests before it are answered, the
/// `Shutdown` itself never receives a response, nothing after it is served,
/// and the channel closes.
pub proof fn lemma_shutdown_ends_session(reqs: Seq<RequestV>, env: Environment, k: int)
    requires
        0 <= k < reqs.len(),
        reqs[k] is Shutdown,
        forall|j: int| 0 <= j < k ==> !(#[trigger] reqs[j] is Shutdown),
    ensures
        session_responses(reqs, env).len() == k,
        session_closes(reqs),
{
    lemma_first_shutdown_unique(reqs, k);
}

/// Issuing `GetBlockDevices` twice in one session, with no intervening
/// mutation of what the collaborators report, returns identical lists.
pub proof fn lemma_get_block_devices_idempotent(
    reqs: Seq<RequestV>,
    env: Environment,
    i: int,
    j: int,
)
    requires
        0 <= i < session_responses(reqs, env).len(),
        0 <= j < session_responses(reqs, env).len(),
        reqs[i] is GetBlockDevices,
        reqs[j] is GetBlockDevices,
    ensures
        session_responses(reqs, env)[i] == session_responses(reqs, env)[j],
{
}

/// A backend whose enumeration collaborator yields no devices — or whose
/// enumeration fails outright — still answers `GetBlockDevices` with an empty
/// device list: not with an error, and not by closing the channel.
pub proof fn lemma_empty_enumeration_still_replies(env: Environment)
    requires
        env.enumeration == Some(Seq::<BlockDeviceV>::empty()) || env.enumeration is None,
    ensures
        response_for(RequestV::GetBlockDevices, env) == ResponseV::BlockDevices(
            Seq::<BlockDeviceV>::empty(),
        ),
{
}

/// A path the superblock-parsing collaborator rejects is answered with
/// exactly the fixed failure message — an ordinary response, never a channel
/// failure.
pub proof fn lemma_unparsed_superblock_yields_error(env: Environment, path: Seq<char>)
    requires
        lookup_superblock(env.superblocks, path) is None,
    ensures
        response_for(RequestV::GetSuperblock(path), env) == ResponseV::Error(
            superblock_failure_message(),
        ),
{
}

} // verus!
