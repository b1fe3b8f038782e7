//! What a whole replication sends, and how it ends.

use crate::capability::CapabilityView;
use crate::capability::SignedCapabilityView;
use crate::conduct::actions_before;
use crate::conduct::answer;
use crate::conduct::conduct;
use crate::conduct::driven;
use crate::conduct::is_end;
use crate::conduct::law_any_course_conducts_its_job;
use crate::conduct::law_requests_are_the_tasks;
use crate::conduct::reply_to;
use crate::conduct::request_for;
use crate::conduct::World;
use crate::delegation::delegated;
use crate::laws::granting::law_what_is_delegated;
use crate::laws::granting::law_when_delegation_succeeds;
use crate::laws::replicating::law_every_line_is_started;
use crate::laws::replicating::law_list_of_tasks;
use crate::laws::replicating::lemma_writes;
use crate::laws::replicating::writes;
use crate::laws::writing::law_pair_is_cut_at_its_first_equals;
use crate::replication::boots;
use crate::replication::opened;
use crate::replication::tasks_for;
use crate::replication::ActionView;
use crate::replication::EventView;
use crate::replication::JobView;
use crate::replication::ReplicateErrorView;
use crate::replication::ReplicationView;
use crate::replication::TaskView;
use crate::text::words;
use crate::wire::CallView;
use crate::wire::ReplyErrorView;
use vstd::prelude::*;
use vstd::utf8::encode_utf8;

verus! {

/// Each action is answered by the part of the world that it asks.
pub proof fn law_answers(
    world: World,
    path: Seq<char>,
    cap: CapabilityView,
    chain: Seq<SignedCapabilityView>,
    call: CallView,
)
    ensures
        answer(world, ActionView::Read(path)) == EventView::File((world.files)(path)),
        answer(world, ActionView::AskTime) == EventView::Time(world.now),
        answer(world, ActionView::Sign(cap)) == EventView::Signed((world.seals)(cap)),
        answer(world, ActionView::Encode(chain)) == EventView::Encoded((world.tokens)(chain)),
        answer(world, ActionView::Send(call)) == EventView::Reply((world.replies)(call)),
{
}

/// The actions before a task: two for each file, four for the capability, one for each process.
pub proof fn law_count_of_actions(job: JobView, i: int)
    requires
        0 <= i,
    ensures
        actions_before(job, 0) == 0,
        job.tasks[i] is Push ==> actions_before(job, i + 1) == actions_before(job, i) + 2,
        job.tasks[i] is Deliver ==> actions_before(job, i + 1) == actions_before(job, i) + 4,
        job.tasks[i] is Boot ==> actions_before(job, i + 1) == actions_before(job, i) + 1,
{
}

/// Pushing a file takes one request, which writes the whole contents of the file at its path under
/// its name. There is none only if the file cannot be read.
pub proof fn law_request_of_a_push(
    course: spec_fn(nat) -> World,
    job: JobView,
    i: int,
    name: Seq<char>,
    path: Seq<char>,
)
    requires
        0 <= i < job.tasks.len(),
        !name.contains('='),
    ensures
        ({
            let file = (course(actions_before(job, i)).files)(path);
            job.tasks[i] == TaskView::Push(name + seq!['='] + path) ==> {
                &&& file matches Some(data) ==> (request_for(course, job, i) matches Ok(call)
                    && writes(call, job, name, data))
                &&& file is None ==> request_for(course, job, i) == Err::<CallView, _>(
                    ReplicateErrorView::CannotRead(path),
                )
            }
        }),
        job.tasks[i] == TaskView::Push(name) ==> request_for(course, job, i) == Err::<CallView, _>(
            ReplicateErrorView::NotAPair,
        ),
{
    law_pair_is_cut_at_its_first_equals(name, path);
    if let Some(data) = (course(actions_before(job, i)).files)(path) {
        lemma_writes(job, name, data);
    }
}

/// Whether a request delivers to the target, as `replicator.cap`, our chain with one more link: a
/// capability that we issued for it, with `sync` if our last link holds it, `spawn` if our last
/// link does and more than one level is left, and nothing else. The `t`th action of the course
/// asks for the time, the next one signs, and the one after encodes.
pub open spec fn delivers(
    call: CallView,
    course: spec_fn(nat) -> World,
    t: nat,
    job: JobView,
    cap: CapabilityView,
) -> bool {
    let last = job.chain[job.chain.len() - 1];
    let link = SignedCapabilityView { cap, seal: (course(t + 1).seals)(cap) };
    let end = last.cap.caveats.not_after;
    let sum = course(t).now + job.ttl;
    &&& writes(
        call,
        job,
        "replicator.cap"@,
        encode_utf8((course(t + 2).tokens)(job.chain.push(link))),
    )
    &&& cap.issuer == job.holder
    &&& cap.audience == job.child
    &&& cap.nonce == job.nonce
    &&& cap.parent == Some(last.seal.id)
    &&& cap.resource == last.cap.resource
    &&& cap.caveats.others == last.cap.caveats.others
    &&& forall|a: Seq<char>| #[trigger]
        cap.abilities.contains(a) <==> last.cap.abilities.contains(a) && (a == "sync"@ || (a
            == "spawn"@ && job.depth >= 2))
    &&& 0 < sum <= u64::MAX && (end == 0 || sum <= end) ==> cap.caveats.not_after == sum
    &&& 0 < end <= sum ==> cap.caveats.not_after == end
    &&& sum > u64::MAX && end == 0 ==> cap.caveats.not_after == u64::MAX
    &&& sum == 0 ==> cap.caveats.not_after == 1
}

/// Delivering a capability takes one request. There is one exactly if the last link of our chain
/// is ours and holds `sync`, or holds `spawn` and more than one level is left.
pub proof fn law_request_of_a_delivery(course: spec_fn(nat) -> World, job: JobView, i: int)
    requires
        0 <= i < job.tasks.len(),
        job.tasks[i] is Deliver,
    ensures
        ({
            let last = job.chain[job.chain.len() - 1].cap;
            request_for(course, job, i) is Ok <==> job.chain.len() > 0 && last.audience
                == job.holder && (last.abilities.contains("sync"@) || (last.abilities.contains(
                "spawn"@,
            ) && job.depth >= 2))
        }),
        request_for(course, job, i) matches Ok(call) ==> exists|cap: CapabilityView| #[trigger]
            delivers(call, course, actions_before(job, i), job, cap),
        request_for(course, job, i) matches Err(error) ==> error is Delegate,
{
    let t = actions_before(job, i);
    let can = job.depth >= 2;
    let now = course(t).now;
    let result = delegated(job.chain, job.holder, job.child, can, now, job.ttl, job.nonce);
    law_when_delegation_succeeds(
        job.chain,
        job.holder,
        job.child,
        can,
        now,
        job.ttl,
        job.nonce,
    );
    if let Ok(cap) = result {
        let link = SignedCapabilityView { cap, seal: (course(t + 1).seals)(cap) };
        let token = encode_utf8((course(t + 2).tokens)(job.chain.push(link)));
        let held = job.chain[job.chain.len() - 1].cap.abilities;
        lemma_writes(job, "replicator.cap"@, token);
        assert forall|a: Seq<char>| #[trigger]
            cap.abilities.contains(a) <==> held.contains(a) && (a == "sync"@ || (a == "spawn"@
            && can)) by {
            law_what_is_delegated(
                job.chain,
                job.holder,
                job.child,
                can,
                now,
                job.ttl,
                job.nonce,
                a,
                cap,
            );
        }
        law_what_is_delegated(
            job.chain,
            job.holder,
            job.child,
            can,
            now,
            job.ttl,
            job.nonce,
            "sync"@,
            cap,
        );
        assert(delivers(request_for(course, job, i)->Ok_0, course, t, job, cap));
    }
}

/// Whether a request runs exactly the command `argv` in the job's directory, at the job's target
/// and on its authority.
pub open spec fn runs(call: CallView, job: JobView, argv: Seq<Seq<char>>) -> bool {
    &&& call.node == job.node
    &&& call.topic == "rdev/spawn"@
    &&& call.timeout_ms == 60_000
    &&& call.req.caps == job.caps
    &&& call.req.path.len() == 0
    &&& call.req.data_hex is None
    &&& call.req.cwd == Some(job.cwd)
    &&& call.req.cmd matches Some(list) && {
        &&& list.len() == argv.len()
        &&& forall|i: int| 0 <= i < argv.len() ==> #[trigger] list[i] == argv[i]
    }
}

/// Starting a process takes one request, which there always is, with the whole command.
pub proof fn law_request_of_a_boot(
    course: spec_fn(nat) -> World,
    job: JobView,
    i: int,
    argv: Seq<Seq<char>>,
)
    requires
        0 <= i < job.tasks.len(),
        job.tasks[i] == TaskView::Boot(argv),
    ensures
        request_for(course, job, i) matches Ok(call) && runs(call, job, argv),
{
}

/// What a request comes to is what the target's reply to it says, when the request is sent: last
/// of the actions of its task.
pub proof fn law_replies_decide(
    course: spec_fn(nat) -> World,
    job: JobView,
    i: int,
    call: CallView,
)
    requires
        0 <= i < job.tasks.len(),
    ensures
        ({
            let reply = (course((actions_before(job, i + 1) - 1) as nat).replies)(call);
            &&& reply_to(course, job, i, call) is Ok <==> (reply matches Ok(resp) && resp.ok)
            &&& reply matches Err(reason) ==> reply_to(course, job, i, call) == Err::<(), _>(
                ReplyErrorView::Unreadable(reason),
            )
        }),
{
}

/// Whether the task at `i` is carried out: there is a request for it, and the target reports
/// success.
pub open spec fn is_carried_out(course: spec_fn(nat) -> World, job: JobView, i: int) -> bool {
    request_for(course, job, i) matches Ok(call) && reply_to(course, job, i, call) is Ok
}

/// A replication ends as done exactly if every task is carried out. Otherwise it fails at the
/// first one that is not, with the error that comes of it, and sends nothing after it.
pub proof fn law_how_it_ends(course: spec_fn(nat) -> World, job: JobView, from: int)
    requires
        0 <= from <= job.tasks.len(),
    ensures
        ({
            let (calls, end) = conduct(course, job, from);
            let n = from + calls.len();
            &&& end is Done <==> forall|i: int|
                from <= i < job.tasks.len() ==> #[trigger] is_carried_out(course, job, i)
            &&& end !is Done ==> {
                ||| n < job.tasks.len() && (request_for(course, job, n) matches Err(error) && end
                    == ActionView::Fail(error))
                ||| from < n <= job.tasks.len() && (reply_to(
                    course,
                    job,
                    n - 1,
                    calls.last(),
                ) matches Err(error) && end == ActionView::Fail(ReplicateErrorView::Reply(error)))
            }
        }),
    decreases job.tasks.len() - from,
{
    if from < job.tasks.len() {
        let carried = is_carried_out(course, job, from);
        if carried {
            law_how_it_ends(course, job, from + 1);
            let call = request_for(course, job, from)->Ok_0;
            let (calls, end) = conduct(course, job, from);
            let (later, _) = conduct(course, job, from + 1);
            assert(calls == seq![call] + later);
            if later.len() > 0 {
                assert(calls.last() == later.last());
            }
            if end is Done {
                assert forall|i: int| from <= i < job.tasks.len() implies #[trigger] is_carried_out(
                    course,
                    job,
                    i,
                ) by {
                    if i > from {
                        assert(from + 1 <= i);
                    }
                }
            }
        }
    }
}

/// The run of a job, from its first action on, for at most `n` actions.
pub open spec fn run(course: spec_fn(nat) -> World, job: JobView, n: nat) -> (
    Seq<CallView>,
    ActionView,
) {
    let (stage, action) = opened(job, 0);
    driven(course, 0, ReplicationView { job, done: 0, stage }, action, n)
}

/// A run that ends as done has sent one request for each file, for the capability, and for each
/// line that is not blank; and a run ends as done if every task is carried out.
pub proof fn law_done_means_all(
    course: spec_fn(nat) -> World,
    job: JobView,
    n: nat,
    bins: Seq<Seq<char>>,
    boot: Seq<Seq<char>>,
)
    requires
        job.tasks == tasks_for(bins, boot),
        n >= 4 * job.tasks.len(),
    ensures
        ({
            let (calls, end) = run(course, job, n);
            &&& is_end(end)
            &&& calls.len() <= bins.len() + 1 + boots(boot).len()
            &&& end is Done ==> calls.len() == bins.len() + 1 + boots(boot).len()
            &&& end is Done <==> forall|i: int|
                0 <= i < job.tasks.len() ==> #[trigger] is_carried_out(course, job, i)
        }),
{
    law_any_course_conducts_its_job(course, job, n);
    law_requests_are_the_tasks(course, job, 0);
    law_how_it_ends(course, job, 0);
    law_list_of_tasks(bins, boot, 0);
}

proof fn lemma_request_in_run(course: spec_fn(nat) -> World, job: JobView, n: nat, i: int)
    requires
        n >= 4 * job.tasks.len(),
        0 <= i < run(course, job, n).0.len(),
    ensures
        i < job.tasks.len(),
        request_for(course, job, i) == Ok::<CallView, ReplicateErrorView>(
            run(course, job, n).0[i],
        ),
{
    law_any_course_conducts_its_job(course, job, n);
    law_requests_are_the_tasks(course, job, 0);
    assert(request_for(course, job, 0 + i) == Ok::<CallView, ReplicateErrorView>(
        conduct(course, job, 0).0[i],
    ));
}

proof fn lemma_actions_before_files(
    job: JobView,
    bins: Seq<Seq<char>>,
    boot: Seq<Seq<char>>,
    i: int,
)
    requires
        job.tasks == tasks_for(bins, boot),
        0 <= i <= bins.len(),
    ensures
        actions_before(job, i) == 2 * i,
    decreases i,
{
    if i > 0 {
        lemma_actions_before_files(job, bins, boot, i - 1);
        law_list_of_tasks(bins, boot, i - 1);
        law_count_of_actions(job, i - 1);
    }
}

/// The first requests are for the files, in order: each writes the whole contents of the file at
/// its path, as it was read by the action for it, under its name.
pub proof fn law_every_file_arrives(
    course: spec_fn(nat) -> World,
    job: JobView,
    n: nat,
    bins: Seq<Seq<char>>,
    boot: Seq<Seq<char>>,
    i: int,
    name: Seq<char>,
    path: Seq<char>,
)
    requires
        job.tasks == tasks_for(bins, boot),
        n >= 4 * job.tasks.len(),
        0 <= i < bins.len(),
        i < run(course, job, n).0.len(),
        bins[i] == name + seq!['='] + path,
        !name.contains('='),
    ensures
        (course((2 * i) as nat).files)(path) matches Some(data) && writes(
            run(course, job, n).0[i],
            job,
            name,
            data,
        ),
{
    lemma_request_in_run(course, job, n, i);
    lemma_actions_before_files(job, bins, boot, i);
    law_list_of_tasks(bins, boot, i);
    law_request_of_a_push(course, job, i, name, path);
}

/// The request after those delivers the capability.
pub proof fn law_the_capability_arrives(
    course: spec_fn(nat) -> World,
    job: JobView,
    n: nat,
    bins: Seq<Seq<char>>,
    boot: Seq<Seq<char>>,
)
    requires
        job.tasks == tasks_for(bins, boot),
        n >= 4 * job.tasks.len(),
        bins.len() < run(course, job, n).0.len(),
    ensures
        exists|cap: CapabilityView| #[trigger]
            delivers(
                run(course, job, n).0[bins.len() as int],
                course,
                2 * bins.len(),
                job,
                cap,
            ),
{
    let i = bins.len() as int;
    lemma_request_in_run(course, job, n, i);
    lemma_actions_before_files(job, bins, boot, i);
    law_list_of_tasks(bins, boot, 0);
    law_request_of_a_delivery(course, job, i);
    let call = run(course, job, n).0[i];
    let t = actions_before(job, i);
    let cap = choose|cap: CapabilityView| #[trigger] delivers(call, course, t, job, cap);
    assert(delivers(call, course, 2 * bins.len(), job, cap));
}

/// And each request after that runs one of the lines that are not blank, in order: all the words
/// of the line, as one command.
pub proof fn law_every_line_is_run(
    course: spec_fn(nat) -> World,
    job: JobView,
    n: nat,
    bins: Seq<Seq<char>>,
    boot: Seq<Seq<char>>,
    j: int,
)
    requires
        job.tasks == tasks_for(bins, boot),
        n >= 4 * job.tasks.len(),
        0 <= j < boot.len(),
        words(boot[j]).len() > 0,
    ensures
        ({
            let (calls, end) = run(course, job, n);
            let i = bins.len() + 1 + boots(boot.take(j)).len();
            &&& i < calls.len() ==> runs(calls[i as int], job, words(boot[j]))
            &&& end is Done ==> i < calls.len()
        }),
{
    let i = (bins.len() + 1 + boots(boot.take(j)).len()) as int;
    law_done_means_all(course, job, n, bins, boot);
    law_every_line_is_started(bins, boot, j);
    law_list_of_tasks(bins, boot, 0);
    if i < run(course, job, n).0.len() {
        lemma_request_in_run(course, job, n, i);
        law_request_of_a_boot(course, job, i, words(boot[j]));
    }
}

} // verus!
