//! What contracts see of a value is the value: every field, unchanged.

use crate::abilities::texts;
use crate::capability::links;
use crate::capability::Capability;
use crate::capability::Seal;
use crate::capability::SignedCapability;
use crate::caveats::Caveats;
use crate::delegation::outcome;
use crate::delegation::DelegateError;
use crate::node_id::parsed;
use crate::node_id::NodeIdError;
use crate::replication::task_views;
use crate::replication::Action;
use crate::replication::ActionView;
use crate::replication::Event;
use crate::replication::EventView;
use crate::replication::Job;
use crate::replication::ReplicateError;
use crate::replication::ReplicateErrorView;
use crate::replication::Replication;
use crate::replication::Stage;
use crate::replication::StageView;
use crate::replication::Task;
use crate::replication::TaskView;
use crate::wire::reply_view;
use crate::wire::text_of;
use crate::wire::verdict_view;
use crate::wire::Call;
use crate::wire::ReplyError;
use crate::wire::ReplyErrorView;
use crate::wire::Req;
use crate::wire::Resp;
use crate::wire::RespView;
use vstd::prelude::*;

verus! {

/// Lists are seen item by item.
pub proof fn law_lists(
    strings: Seq<String>,
    chain: Seq<SignedCapability>,
    tasks: Seq<Task>,
    i: int,
)
    ensures
        texts(strings).len() == strings.len(),
        0 <= i < strings.len() ==> texts(strings)[i] == strings[i]@,
        links(chain).len() == chain.len(),
        0 <= i < chain.len() ==> links(chain)[i] == chain[i]@,
        task_views(tasks).len() == tasks.len(),
        0 <= i < tasks.len() ==> task_views(tasks)[i] == tasks[i]@,
{
}

/// The fields of capabilities.
pub proof fn law_capability_fields(
    caveats: Caveats,
    cap: Capability,
    seal: Seal,
    signed: SignedCapability,
)
    ensures
        caveats@.not_after == caveats.not_after,
        caveats@.others == caveats.others@,
        cap@.issuer == cap.issuer@,
        cap@.audience == cap.audience@,
        cap@.abilities == texts(cap.abilities@),
        cap@.resource == cap.resource@,
        cap@.caveats == cap.caveats@,
        cap@.nonce == cap.nonce,
        cap@.parent is Some <==> cap.parent is Some,
        cap.parent matches Some(id) ==> cap@.parent == Some(id@),
        seal@.id == seal.id@,
        seal@.token == seal.token@,
        signed@.cap == signed.cap@,
        signed@.seal == signed.seal@,
{
}

/// The fields of requests and replies.
pub proof fn law_message_fields(req: Req, call: Call, resp: Resp, text: Option<String>)
    ensures
        text is None <==> text_of(text) is None,
        text matches Some(s) ==> text_of(text) == Some(s@),
        req@.caps == req.caps@,
        req@.path == req.path@,
        req@.data_hex == text_of(req.data_hex),
        req@.cmd is Some <==> req.cmd is Some,
        req.cmd matches Some(argv) ==> req@.cmd == Some(texts(argv@)),
        req@.cwd == text_of(req.cwd),
        call@.node == call.node@,
        call@.topic == call.topic@,
        call@.req == call.req@,
        call@.timeout_ms == call.timeout_ms,
        call@.what == call.what@,
        resp@.ok == resp.ok,
        resp@.error == text_of(resp.error),
        resp@.stdout == text_of(resp.stdout),
{
}

/// The contents of results and errors.
pub proof fn law_result_contents(
    cap: Capability,
    refusal: DelegateError,
    id: [u8; 32],
    misread: NodeIdError,
    resp: Resp,
    reason: String,
    error: ReplyError,
    what: String,
)
    ensures
        outcome(Ok(cap)) == Ok::<_, DelegateError>(cap@),
        outcome(Err(refusal)) == Err::<crate::capability::CapabilityView, _>(refusal),
        parsed(Ok(id)) == Ok::<Seq<u8>, NodeIdError>(id@),
        parsed(Err(misread)) == Err::<Seq<u8>, NodeIdError>(misread),
        reply_view(Ok(resp)) == Ok::<RespView, Seq<char>>(resp@),
        reply_view(Err(reason)) == Err::<RespView, Seq<char>>(reason@),
        verdict_view(Ok(())) == Ok::<(), ReplyErrorView>(()),
        verdict_view(Err(error)) == Err::<(), ReplyErrorView>(error@),
        ReplyError::Unreadable(reason)@ == ReplyErrorView::Unreadable(reason@),
        (ReplyError::Refused { what, error: reason })@ == (ReplyErrorView::Refused {
            what: what@,
            error: reason@,
        }),
        ReplicateError::NotAPair@ == ReplicateErrorView::NotAPair,
        ReplicateError::CannotRead(reason)@ == ReplicateErrorView::CannotRead(reason@),
        ReplicateError::Delegate(refusal)@ == ReplicateErrorView::Delegate(refusal),
        ReplicateError::Reply(error)@ == ReplicateErrorView::Reply(error@),
        ReplicateError::OutOfTurn@ == ReplicateErrorView::OutOfTurn,
{
}

/// The fields of jobs, and the contents of tasks.
pub proof fn law_job_fields(job: Job, pair: String, argv: Vec<String>)
    ensures
        job@.node == job.node@,
        job@.caps == job.caps@,
        job@.chain == links(job.chain@),
        job@.holder == job.holder@,
        job@.child == job.child@,
        job@.depth == job.depth,
        job@.ttl == job.ttl,
        job@.nonce == job.nonce,
        job@.cwd == job.cwd@,
        job@.tasks == task_views(job.tasks@),
        Task::Push(pair)@ == TaskView::Push(pair@),
        Task::Deliver@ == TaskView::Deliver,
        Task::Boot(argv)@ == TaskView::Boot(texts(argv@)),
{
}

/// The state of a replication, what it asks for, and what it is told.
pub proof fn law_replication_contents(
    replication: Replication,
    name: String,
    path: String,
    cap: Capability,
    chain: Vec<SignedCapability>,
    call: Call,
    error: ReplicateError,
    data: Vec<u8>,
    now: u64,
    seal: Seal,
    reply: Result<Resp, String>,
)
    ensures
        replication@.job == replication.job@,
        replication@.done == replication.done,
        replication@.stage == replication.stage@,
        (Stage::File { name, path })@ == (StageView::File { name: name@, path: path@ }),
        Stage::Time@ == StageView::Time,
        Stage::Signature(cap)@ == StageView::Signature(cap@),
        Stage::Token@ == StageView::Token,
        (Stage::Reply { what: name })@ == (StageView::Reply { what: name@ }),
        Stage::Over@ == StageView::Over,
        Action::Read(path)@ == ActionView::Read(path@),
        Action::AskTime@ == ActionView::AskTime,
        Action::Sign(cap)@ == ActionView::Sign(cap@),
        Action::Encode(chain)@ == ActionView::Encode(links(chain@)),
        Action::Send(call)@ == ActionView::Send(call@),
        Action::Done@ == ActionView::Done,
        Action::Fail(error)@ == ActionView::Fail(error@),
        Event::File(Some(data))@ == EventView::File(Some(data@)),
        Event::File(None)@ == EventView::File(None),
        Event::Time(now)@ == EventView::Time(now),
        Event::Signed(seal)@ == EventView::Signed(seal@),
        Event::Encoded(name)@ == EventView::Encoded(name@),
        Event::Reply(reply)@ == EventView::Reply(reply_view(reply)),
{
}

} // verus!
