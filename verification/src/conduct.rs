//! What a replication comes to, whatever it meets with.

use crate::capability::CapabilityView;
use crate::capability::SealView;
use crate::capability::SignedCapabilityView;
use crate::delegation::delegated;
use crate::delegation::extended;
use crate::node_id::node_id_of;
use crate::node_id::NodeIdError;
use crate::replication::boots;
use crate::replication::opened;
use crate::replication::stepped;
use crate::replication::tasks_for;
use crate::replication::ActionView;
use crate::replication::EventView;
use crate::replication::JobView;
use crate::replication::ReplicateErrorView;
use crate::replication::ReplicationView;
use crate::replication::TaskView;
use crate::replication::CAP_FILE;
use crate::text::cut_at_equals;
use crate::text::path_in;
use crate::text::words;
use crate::wire::spawn_of;
use crate::wire::sync_of;
use crate::wire::verdict;
use crate::wire::CallView;
use crate::wire::ReplyErrorView;
use crate::wire::RespView;
use vstd::prelude::*;
use vstd::utf8::encode_utf8;

verus! {

/// What an action of a replication may meet with.
pub struct World {
    /// The local files that can be read.
    pub files: spec_fn(Seq<char>) -> Option<Seq<u8>>,
    /// The time.
    pub now: u64,
    /// What signing adds to a capability.
    pub seals: spec_fn(CapabilityView) -> SealView,
    /// The encoded form of a chain.
    pub tokens: spec_fn(Seq<SignedCapabilityView>) -> Seq<char>,
    /// The target's replies.
    pub replies: spec_fn(CallView) -> Result<RespView, Seq<char>>,
}

/// The event that an action leads to.
pub open spec fn answer(world: World, action: ActionView) -> EventView {
    match action {
        ActionView::Read(path) => EventView::File((world.files)(path)),
        ActionView::Sign(cap) => EventView::Signed((world.seals)(cap)),
        ActionView::Encode(chain) => EventView::Encoded((world.tokens)(chain)),
        ActionView::Send(call) => EventView::Reply((world.replies)(call)),
        _ => EventView::Time(world.now),
    }
}

/// Whether an action ends a replication.
pub open spec fn is_end(action: ActionView) -> bool {
    action is Done || action is Fail
}

/// The requests that are sent, and the last action, if a replication is driven for at most `n`
/// actions, of which the first is the `t`th of its course. The course says what each action meets
/// with: two equal requests may well get different replies.
pub open spec fn driven(
    course: spec_fn(nat) -> World,
    t: nat,
    m: ReplicationView,
    action: ActionView,
    n: nat,
) -> (Seq<CallView>, ActionView)
    decreases n,
{
    if n == 0 || is_end(action) {
        (Seq::empty(), action)
    } else {
        let (next, reaction) = stepped(m, answer(course(t), action));
        let (calls, end) = driven(course, t + 1, next, reaction, (n - 1) as nat);
        match action {
            ActionView::Send(call) => (seq![call] + calls, end),
            _ => (calls, end),
        }
    }
}

/// How many actions a task takes, if nothing fails.
pub open spec fn actions_of(task: TaskView) -> nat {
    match task {
        // read, send
        TaskView::Push(_) => 2,
        // ask for the time, sign, encode, send
        TaskView::Deliver => 4,
        // send
        TaskView::Boot(_) => 1,
    }
}

/// How many actions the tasks before the `i`th take.
pub open spec fn actions_before(job: JobView, i: int) -> nat
    decreases i,
{
    if i <= 0 {
        0
    } else {
        actions_before(job, i - 1) + actions_of(job.tasks[i - 1])
    }
}

/// The request that carries out the `i`th task, or why there is none.
pub open spec fn request_for(course: spec_fn(nat) -> World, job: JobView, i: int) -> Result<
    CallView,
    ReplicateErrorView,
> {
    let t = actions_before(job, i);
    match job.tasks[i] {
        TaskView::Push(pair) => match cut_at_equals(pair) {
            None => Err(ReplicateErrorView::NotAPair),
            Some((name, path)) => match (course(t).files)(path) {
                None => Err(ReplicateErrorView::CannotRead(path)),
                Some(data) => Ok(sync_of(job.node, job.caps, path_in(job.cwd, name), data)),
            },
        },
        TaskView::Deliver => match delegated(
            job.chain,
            job.holder,
            job.child,
            job.depth > 1,
            course(t).now,
            job.ttl,
            job.nonce,
        ) {
            Err(error) => Err(ReplicateErrorView::Delegate(error)),
            Ok(cap) => {
                let chain = extended(job.chain, cap, (course(t + 1).seals)(cap));
                let token = encode_utf8((course(t + 2).tokens)(chain));
                Ok(sync_of(job.node, job.caps, path_in(job.cwd, CAP_FILE@), token))
            },
        },
        TaskView::Boot(argv) => Ok(spawn_of(job.node, job.caps, argv, job.cwd)),
    }
}

/// What the target's reply to the request of the `i`th task comes to. Sending it is the last
/// action of the task.
pub open spec fn reply_to(
    course: spec_fn(nat) -> World,
    job: JobView,
    i: int,
    call: CallView,
) -> Result<(), ReplyErrorView> {
    let t = (actions_before(job, i + 1) - 1) as nat;
    verdict((course(t).replies)(call), call.what)
}

/// The requests of a job from task `from` on, and how it ends: the tasks are carried out one after
/// the other, up to the first that cannot be, or that the target does not carry out.
pub open spec fn conduct(course: spec_fn(nat) -> World, job: JobView, from: int) -> (
    Seq<CallView>,
    ActionView,
)
    decreases job.tasks.len() - from,
{
    if from < 0 || from >= job.tasks.len() {
        (Seq::empty(), ActionView::Done)
    } else {
        match request_for(course, job, from) {
            Err(error) => (Seq::empty(), ActionView::Fail(error)),
            Ok(call) => match reply_to(course, job, from, call) {
                Err(error) => (
                    seq![call],
                    ActionView::Fail(ReplicateErrorView::Reply(error)),
                ),
                Ok(_) => {
                    let (calls, end) = conduct(course, job, from + 1);
                    (seq![call] + calls, end)
                },
            },
        }
    }
}

proof fn lemma_driven_from(course: spec_fn(nat) -> World, job: JobView, from: int, n: nat)
    requires
        0 <= from <= job.tasks.len(),
        n >= 4 * (job.tasks.len() - from),
    ensures
        ({
            let (stage, action) = opened(job, from);
            let m = ReplicationView { job, done: from, stage };
            driven(course, actions_before(job, from), m, action, n) == conduct(course, job, from)
        }),
    decreases job.tasks.len() - from,
{
    reveal_with_fuel(driven, 5);
    if from < job.tasks.len() {
        let steps = actions_of(job.tasks[from]);
        assert(actions_before(job, from + 1) == actions_before(job, from) + steps);
        match request_for(course, job, from) {
            Err(_) => {},
            Ok(call) => {
                if reply_to(course, job, from, call) is Ok {
                    lemma_driven_from(course, job, from + 1, (n - steps) as nat);
                } else {
                    assert(seq![call] + Seq::<CallView>::empty() =~= seq![call]);
                }
            },
        }
    }
}

/// Whatever its actions meet with, one by one, a replication that is driven to its end sends
/// exactly the requests of its tasks, in their order, up to the first task that fails, and ends as
/// that task does; it is done if none fails. Four actions for each task are enough.
pub proof fn law_any_course_conducts_its_job(
    course: spec_fn(nat) -> World,
    job: JobView,
    n: nat,
)
    requires
        n >= 4 * job.tasks.len(),
    ensures
        ({
            let (stage, action) = opened(job, 0);
            let m = ReplicationView { job, done: 0, stage };
            driven(course, 0, m, action, n) == conduct(course, job, 0)
        }),
{
    lemma_driven_from(course, job, 0, n);
}

/// The requests that are sent are those of the first tasks, one each, and the target carried out
/// all of them but perhaps the last. A replication ends as done only if every task was carried
/// out.
pub proof fn law_requests_are_the_tasks(course: spec_fn(nat) -> World, job: JobView, from: int)
    requires
        0 <= from <= job.tasks.len(),
    ensures
        ({
            let (calls, end) = conduct(course, job, from);
            &&& is_end(end)
            &&& calls.len() <= job.tasks.len() - from
            &&& forall|i: int|
                0 <= i < calls.len() ==> request_for(course, job, from + i) == Ok::<
                    CallView,
                    ReplicateErrorView,
                >(#[trigger] calls[i])
            &&& forall|i: int|
                0 <= i < calls.len() - 1 ==> reply_to(
                    course,
                    job,
                    from + i,
                    #[trigger] calls[i],
                ) is Ok
            &&& end is Done ==> calls.len() == job.tasks.len() - from && (calls.len() > 0
                ==> reply_to(course, job, job.tasks.len() - 1, calls.last()) is Ok)
        }),
    decreases job.tasks.len() - from,
{
    if from < job.tasks.len() {
        if let Ok(call) = request_for(course, job, from) {
            if reply_to(course, job, from, call) is Ok {
                law_requests_are_the_tasks(course, job, from + 1);
                let (calls, end) = conduct(course, job, from);
                let (later, _) = conduct(course, job, from + 1);
                assert(calls == seq![call] + later);
                assert forall|i: int| 0 <= i < calls.len() implies request_for(
                    course,
                    job,
                    from + i,
                ) == Ok::<CallView, ReplicateErrorView>(#[trigger] calls[i]) by {
                    if i > 0 {
                        assert(calls[i] == later[i - 1]);
                        assert(from + 1 + (i - 1) == from + i);
                    }
                }
                assert forall|i: int| 0 <= i < calls.len() - 1 implies reply_to(
                    course,
                    job,
                    from + i,
                    #[trigger] calls[i],
                ) is Ok by {
                    if i > 0 {
                        assert(calls[i] == later[i - 1]);
                        assert(from + 1 + (i - 1) == from + i);
                    }
                }
                if later.len() > 0 {
                    assert(calls.last() == later.last());
                }
            }
        }
    }
}

proof fn lemma_boots(lines: Seq<Seq<char>>)
    ensures
        boots(lines).len() <= lines.len(),
        forall|i: int|
            0 <= i < boots(lines).len() ==> (#[trigger] boots(lines)[i] matches TaskView::Boot(argv)
                && argv.len() > 0 && exists|j: int|
                0 <= j < lines.len() && argv == words(#[trigger] lines[j])),
    decreases lines.len(),
{
    if lines.len() > 0 {
        let rest = lines.drop_last();
        lemma_boots(rest);
        assert forall|i: int| 0 <= i < boots(lines).len() implies (
        #[trigger] boots(lines)[i] matches TaskView::Boot(argv) && argv.len() > 0 && exists|j: int|
            0 <= j < lines.len() && argv == words(#[trigger] lines[j])) by {
            if i < boots(rest).len() {
                assert(boots(lines)[i] == boots(rest)[i]);
                let argv = boots(rest)[i]->Boot_0;
                let j = choose|j: int| 0 <= j < rest.len() && argv == words(#[trigger] rest[j]);
                assert(lines[j] == rest[j]);
            } else {
                assert(lines[lines.len() - 1] == lines.last());
            }
        }
    }
}

/// Every file is pushed before the capability is delivered, and nothing is started before that.
/// What is started is never an empty command, and stands on one of the given lines.
pub proof fn law_files_then_capability_then_processes(
    bins: Seq<Seq<char>>,
    boot: Seq<Seq<char>>,
    i: int,
)
    requires
        0 <= i < tasks_for(bins, boot).len(),
    ensures
        tasks_for(bins, boot).len() > bins.len(),
        i < bins.len() ==> tasks_for(bins, boot)[i] == TaskView::Push(bins[i]),
        i == bins.len() ==> tasks_for(bins, boot)[i] == TaskView::Deliver,
        i > bins.len() ==> (tasks_for(bins, boot)[i] matches TaskView::Boot(argv) && argv.len() > 0
            && exists|j: int| 0 <= j < boot.len() && argv == words(#[trigger] boot[j])),
{
    lemma_boots(boot);
    if i > bins.len() {
        assert(tasks_for(bins, boot)[i] == boots(boot)[i - bins.len() - 1]);
    }
}

/// Every request goes to the target and carries our own capability, and every file goes into the
/// given directory.
pub proof fn law_requests_stay_in_bounds(m: ReplicationView, event: EventView)
    ensures
        opened(m.job, m.done).1 matches ActionView::Send(call) ==> call.node == m.job.node
            && call.req.caps == m.job.caps && call.req.cwd == Some(m.job.cwd),
        stepped(m, event).1 matches ActionView::Send(call) ==> call.node == m.job.node
            && call.req.caps == m.job.caps && (call.req.cwd == Some(m.job.cwd) || exists|
            name: Seq<char>,
        |
            call.req.path == #[trigger] path_in(m.job.cwd, name)),
        stepped(m, event).0.job == m.job,
{
}

/// So does every request of a whole replication.
pub proof fn law_all_requests_go_to_the_target(
    course: spec_fn(nat) -> World,
    job: JobView,
    from: int,
    i: int,
)
    requires
        0 <= from <= job.tasks.len(),
        0 <= i < conduct(course, job, from).0.len(),
    ensures
        conduct(course, job, from).0[i].node == job.node,
        conduct(course, job, from).0[i].req.caps == job.caps,
{
    law_requests_are_the_tasks(course, job, from);
    assert(request_for(course, job, from + i) == Ok::<CallView, ReplicateErrorView>(
        conduct(course, job, from).0[i],
    ));
}

/// The capability that is delivered names the node that it is delivered to: in a job whose
/// `child` was read from its `node`, what is signed is for that node.
pub proof fn law_capability_is_for_the_target(m: ReplicationView, event: EventView)
    requires
        node_id_of(m.job.node) == Ok::<Seq<u8>, NodeIdError>(m.job.child),
    ensures
        stepped(m, event).1 matches ActionView::Sign(cap) ==> node_id_of(m.job.node) == Ok::<
            Seq<u8>,
            NodeIdError,
        >(cap.audience),
{
}

/// A replication that has ended stays ended: no event makes it send anything more.
pub proof fn law_an_end_is_final(m: ReplicationView, event: EventView)
    ensures
        is_end(stepped(m, event).1) ==> stepped(m, event).0.stage is Over,
        m.stage is Over ==> stepped(m, event).1 == ActionView::Fail(ReplicateErrorView::OutOfTurn)
            && stepped(m, event).0 == m,
{
}

} // verus!
