//! What a replication does with its job, step by step and as a whole.

use crate::abilities::onward;
use crate::capability::CapabilityView;
use crate::capability::SealView;
use crate::capability::SignedCapabilityView;
use crate::delegation::delegated;
use crate::delegation::DelegateError;
use crate::hexadecimal::fits_in_hex;
use crate::hexadecimal::hex_bytes;
use crate::hexadecimal::is_hex_text;
use crate::laws::granting::law_granted_abilities;
use crate::laws::granting::law_sync_is_not_spawn;
use crate::laws::granting::law_what_is_delegated;
use crate::laws::granting::law_when_delegation_succeeds;
use crate::laws::writing::law_path_is_directory_slash_name;
use crate::laws::writing::law_pair_is_cut_at_its_first_equals;
use crate::laws::writing::law_sync_carries_the_whole_file;
use crate::replication::boots;
use crate::replication::opened;
use crate::replication::stepped;
use crate::replication::tasks_for;
use crate::replication::ActionView;
use crate::replication::EventView;
use crate::replication::JobView;
use crate::replication::ReplicateErrorView;
use crate::replication::Replication;
use crate::replication::ReplicationView;
use crate::replication::StageView;
use crate::replication::TaskView;
use crate::text::path_in;
use crate::text::spaced;
use crate::text::words;
use crate::wire::sync_of;
use crate::wire::CallView;
use crate::wire::ReplyErrorView;
use crate::wire::RespView;
use vstd::prelude::*;
use vstd::utf8::encode_utf8;

verus! {

/// One more line is one more process, with all the words of the line, unless it is blank; and it
/// changes nothing about the processes of the lines before it.
pub proof fn law_one_more_boot_line(lines: Seq<Seq<char>>, line: Seq<char>)
    ensures
        boots(Seq::empty()) == Seq::<TaskView>::empty(),
        words(line).len() == 0 ==> boots(lines.push(line)) == boots(lines),
        words(line).len() > 0 ==> boots(lines.push(line)) == boots(lines).push(
            TaskView::Boot(words(line)),
        ),
{
    assert(lines.push(line).drop_last() =~= lines);
}

/// The tasks are one for each file, in order, then the capability, then the processes.
pub proof fn law_list_of_tasks(bins: Seq<Seq<char>>, boot: Seq<Seq<char>>, i: int)
    ensures
        tasks_for(bins, boot).len() == bins.len() + 1 + boots(boot).len(),
        0 <= i < bins.len() ==> tasks_for(bins, boot)[i] == TaskView::Push(bins[i]),
        tasks_for(bins, boot)[bins.len() as int] == TaskView::Deliver,
        0 <= i < boots(boot).len() ==> tasks_for(bins, boot)[bins.len() + 1 + i] == boots(boot)[i],
{
}

proof fn lemma_earlier_boots(lines: Seq<Seq<char>>, j: int)
    requires
        0 <= j <= lines.len(),
    ensures
        boots(lines.take(j)).len() <= boots(lines).len(),
        forall|k: int|
            0 <= k < boots(lines.take(j)).len() ==> #[trigger] boots(lines)[k] == boots(
                lines.take(j),
            )[k],
    decreases lines.len(),
{
    if j == lines.len() {
        assert(lines.take(j) =~= lines);
    } else {
        lemma_earlier_boots(lines.drop_last(), j);
        assert(lines.drop_last().take(j) =~= lines.take(j));
    }
}

/// Every line that is not blank is started, whatever the other lines are: after the files, the
/// capability and the processes of the lines before it, with all its words as the command.
pub proof fn law_every_line_is_started(bins: Seq<Seq<char>>, boot: Seq<Seq<char>>, j: int)
    requires
        0 <= j < boot.len(),
        words(boot[j]).len() > 0,
    ensures
        ({
            let i = bins.len() + 1 + boots(boot.take(j)).len();
            &&& i < tasks_for(bins, boot).len()
            &&& tasks_for(bins, boot)[i as int] == TaskView::Boot(words(boot[j]))
        }),
{
    assert(boot.take(j + 1) =~= boot.take(j).push(boot[j]));
    law_one_more_boot_line(boot.take(j), boot[j]);
    lemma_earlier_boots(boot, j + 1);
    law_list_of_tasks(bins, boot, boots(boot.take(j)).len() as int);
}

/// An event fits unless it brings more bytes than have room, two digits each, in one string.
pub proof fn law_what_fits(
    data: Seq<u8>,
    token: Seq<char>,
    now: u64,
    seal: SealView,
    reply: Result<RespView, Seq<char>>,
)
    ensures
        fits_in_hex(data.len()) <==> 2 * data.len() <= isize::MAX,
        EventView::File(Some(data)).fits() <==> 2 * data.len() <= isize::MAX,
        EventView::File(None).fits(),
        EventView::Time(now).fits(),
        EventView::Signed(seal).fits(),
        EventView::Encoded(token).fits() <==> 2 * encode_utf8(token).len() <= isize::MAX,
        EventView::Reply(reply).fits(),
{
}

/// Every replication takes events, but for one that waits for something with all its tasks done.
pub proof fn law_when_events_are_taken(replication: Replication)
    ensures
        replication.wf() <==> replication.stage is Over || replication.done
            < replication.job.tasks@.len(),
{
}

/// A replication is done exactly if no task is left.
pub proof fn law_done_when_nothing_is_left(job: JobView, done: int)
    requires
        0 <= done,
    ensures
        opened(job, done).1 is Done <==> done >= job.tasks.len(),
        done >= job.tasks.len() ==> opened(job, done).0 is Over,
{
}

/// A file to push is read from the path behind the first `=`, and waited for under the name before
/// it. A text without `=` ends the replication.
pub proof fn law_opening_a_push(job: JobView, done: int, name: Seq<char>, path: Seq<char>)
    requires
        0 <= done < job.tasks.len(),
        !name.contains('='),
    ensures
        job.tasks[done] == TaskView::Push(name + seq!['='] + path) ==> opened(job, done) == (
            StageView::File { name, path },
            ActionView::Read(path),
        ),
        job.tasks[done] == TaskView::Push(name) ==> opened(job, done) == (
            StageView::Over,
            ActionView::Fail(ReplicateErrorView::NotAPair),
        ),
{
    law_pair_is_cut_at_its_first_equals(name, path);
}

/// To deliver a capability, the time is asked for first.
pub proof fn law_opening_a_delivery(job: JobView, done: int)
    requires
        0 <= done < job.tasks.len(),
        job.tasks[done] is Deliver,
    ensures
        opened(job, done) == (StageView::Time, ActionView::AskTime),
{
}

/// A process is started by one request to the target, on our authority and in the given directory,
/// with the whole command.
pub proof fn law_opening_a_boot(job: JobView, done: int, argv: Seq<Seq<char>>)
    requires
        0 <= done < job.tasks.len(),
        job.tasks[done] == TaskView::Boot(argv),
    ensures
        ({
            let (stage, action) = opened(job, done);
            action matches ActionView::Send(call) && {
                &&& stage == (StageView::Reply { what: call.what })
                &&& call.node == job.node
                &&& call.topic == "rdev/spawn"@
                &&& call.timeout_ms == 60_000
                &&& call.what == "spawn "@ + spaced(argv)
                &&& call.req.caps == job.caps
                &&& call.req.path.len() == 0
                &&& call.req.data_hex is None
                &&& call.req.cwd == Some(job.cwd)
                &&& call.req.cmd matches Some(list) && {
                    &&& list.len() == argv.len()
                    &&& forall|i: int| 0 <= i < argv.len() ==> #[trigger] list[i] == argv[i]
                }
            }
        }),
{
}

/// Once the time is known, a capability is signed exactly if the last link of our chain is ours
/// and holds `sync`, or holds `spawn` and more than one level is left. It holds `spawn` exactly if
/// more than one level is left and the last link holds it, `sync` exactly if the last link holds
/// it, and nothing else.
pub proof fn law_spawn_is_signed_above_the_last_level(m: ReplicationView, now: u64, a: Seq<char>)
    requires
        m.stage is Time,
    ensures
        ({
            let (next, action) = stepped(m, EventView::Time(now));
            let last = m.job.chain[m.job.chain.len() - 1].cap;
            &&& action is Sign <==> m.job.chain.len() > 0 && last.audience == m.job.holder && (
            last.abilities.contains("sync"@) || (last.abilities.contains("spawn"@) && m.job.depth
                >= 2))
            &&& action matches ActionView::Sign(cap) ==> {
                &&& cap.abilities.contains("spawn"@) <==> m.job.depth >= 2
                    && last.abilities.contains("spawn"@)
                &&& cap.abilities.contains("sync"@) <==> last.abilities.contains("sync"@)
                &&& cap.abilities.contains(a) ==> a == "sync"@ || a == "spawn"@
                &&& m.job.depth >= 2 ==> cap.abilities == onward(last.abilities, true)
                &&& m.job.depth <= 1 ==> cap.abilities == onward(last.abilities, false)
            }
        }),
{
    let job = m.job;
    let can = job.depth >= 2;
    let result = delegated(job.chain, job.holder, job.child, can, now, job.ttl, job.nonce);
    law_when_delegation_succeeds(
        job.chain,
        job.holder,
        job.child,
        can,
        now,
        job.ttl,
        job.nonce,
    );
    if job.chain.len() > 0 {
        let held = job.chain[job.chain.len() - 1].cap.abilities;
        law_granted_abilities(held, can, "sync"@);
        law_granted_abilities(held, can, "spawn"@);
        law_granted_abilities(held, can, a);
        law_sync_is_not_spawn();
    }
}

/// What is signed grants to the target what our last link grants us, for the given lifetime or
/// until that link expires; and if nothing can be signed, the error says why.
pub proof fn law_what_is_signed(m: ReplicationView, now: u64)
    requires
        m.stage is Time,
    ensures
        ({
            let (next, action) = stepped(m, EventView::Time(now));
            let job = m.job;
            let last = job.chain[job.chain.len() - 1];
            let end = last.cap.caveats.not_after;
            &&& next.job == job
            &&& next.done == m.done
            &&& action matches ActionView::Sign(cap) ==> {
                &&& next.stage == StageView::Signature(cap)
                &&& cap.issuer == job.holder
                &&& cap.audience == job.child
                &&& cap.nonce == job.nonce
                &&& cap.parent == Some(last.seal.id)
                &&& cap.resource == last.cap.resource
                &&& cap.caveats.others == last.cap.caveats.others
                &&& 0 < now + job.ttl <= u64::MAX && (end == 0 || now + job.ttl <= end)
                    ==> cap.caveats.not_after == now + job.ttl
                &&& 0 < end <= now + job.ttl ==> cap.caveats.not_after == end
                &&& now + job.ttl > u64::MAX && end == 0 ==> cap.caveats.not_after == u64::MAX
                &&& now + job.ttl == 0 ==> cap.caveats.not_after == 1
            }
            &&& action !is Sign ==> next.stage is Over && action == ActionView::Fail(
                ReplicateErrorView::Delegate(
                    if job.chain.len() == 0 {
                        DelegateError::EmptyChain
                    } else if last.cap.audience != job.holder {
                        DelegateError::NotTheHolder
                    } else {
                        DelegateError::NothingToDelegate
                    },
                ),
            )
        }),
{
    let job = m.job;
    let can = job.depth >= 2;
    law_when_delegation_succeeds(
        job.chain,
        job.holder,
        job.child,
        can,
        now,
        job.ttl,
        job.nonce,
    );
    if let Ok(cap) = delegated(
        job.chain,
        job.holder,
        job.child,
        can,
        now,
        job.ttl,
        job.nonce,
    ) {
        law_what_is_delegated(
            job.chain,
            job.holder,
            job.child,
            can,
            now,
            job.ttl,
            job.nonce,
            "sync"@,
            cap,
        );
    }
}

/// A file that was read is sent whole, to its name in the given directory; one that cannot be read
/// ends the replication.
pub proof fn law_a_file_is_sent(
    m: ReplicationView,
    name: Seq<char>,
    path: Seq<char>,
    data: Seq<u8>,
)
    requires
        m.stage == (StageView::File { name, path }),
    ensures
        ({
            let (next, action) = stepped(m, EventView::File(Some(data)));
            &&& next.job == m.job
            &&& next.done == m.done
            &&& action matches ActionView::Send(call) && {
                &&& next.stage == (StageView::Reply { what: call.what })
                &&& writes(call, m.job, name, data)
            }
        }),
        stepped(m, EventView::File(None)) == (
            ReplicationView { job: m.job, done: m.done, stage: StageView::Over },
            ActionView::Fail(ReplicateErrorView::CannotRead(path)),
        ),
{
    lemma_writes(m.job, name, data);
}

/// Whether a request writes exactly `data` to the file `name` in the job's directory, at the job's
/// target and on its authority.
pub open spec fn writes(call: CallView, job: JobView, name: Seq<char>, data: Seq<u8>) -> bool {
    &&& call.node == job.node
    &&& call.topic == "rdev/sync"@
    &&& call.timeout_ms == 120_000
    &&& call.what == "sync "@ + (job.cwd + seq!['/'] + name)
    &&& call.req.caps == job.caps
    &&& call.req.path == job.cwd + seq!['/'] + name
    &&& call.req.cmd is None
    &&& call.req.cwd is None
    &&& call.req.data_hex matches Some(text) && {
        &&& text.len() == 2 * data.len()
        &&& is_hex_text(text)
        &&& hex_bytes(text) == data
    }
}

/// The request to write a file does so.
pub proof fn lemma_writes(job: JobView, name: Seq<char>, data: Seq<u8>)
    ensures
        writes(
            sync_of(job.node, job.caps, path_in(job.cwd, name), data),
            job,
            name,
            data,
        ),
{
    let path = path_in(job.cwd, name);
    law_path_is_directory_slash_name(job.cwd, name);
    law_sync_carries_the_whole_file(job.node, job.caps, path, data, 0);
}

/// What was signed is encoded behind all the links of our chain, and then sent, whole and in
/// UTF-8, to `replicator.cap` in the given directory.
pub proof fn law_the_chain_is_delivered(
    m: ReplicationView,
    cap: CapabilityView,
    seal: SealView,
    token: Seq<char>,
    i: int,
)
    ensures
        m.stage == StageView::Signature(cap) ==> {
            let (next, action) = stepped(m, EventView::Signed(seal));
            &&& next == (ReplicationView { job: m.job, done: m.done, stage: StageView::Token })
            &&& action matches ActionView::Encode(chain) && {
                &&& chain.len() == m.job.chain.len() + 1
                &&& 0 <= i < m.job.chain.len() ==> chain[i] == m.job.chain[i]
                &&& chain[m.job.chain.len() as int] == (SignedCapabilityView { cap, seal })
            }
        },
        m.stage is Token ==> {
            let (next, action) = stepped(m, EventView::Encoded(token));
            &&& next.job == m.job
            &&& next.done == m.done
            &&& action matches ActionView::Send(call) && {
                &&& next.stage == (StageView::Reply { what: call.what })
                &&& writes(call, m.job, "replicator.cap"@, encode_utf8(token))
            }
        },
{
    lemma_writes(m.job, "replicator.cap"@, encode_utf8(token));
}

/// A reply that reports success completes one task and opens the next one. Any other ends the
/// replication, with the reason for which no reply was read, or with the request and the target's
/// words, empty if it gave none.
pub proof fn law_a_reply_completes_a_task(
    m: ReplicationView,
    what: Seq<char>,
    resp: RespView,
    reason: Seq<char>,
)
    requires
        m.stage == (StageView::Reply { what }),
    ensures
        ({
            let (next, action) = stepped(m, EventView::Reply(Ok(resp)));
            &&& next.job == m.job
            &&& resp.ok ==> next.done == m.done + 1 && (next.stage, action) == opened(
                m.job,
                m.done + 1,
            )
            &&& !resp.ok ==> next.done == m.done && next.stage is Over && (
            action matches ActionView::Fail(ReplicateErrorView::Reply(error)) && (
            error matches ReplyErrorView::Refused { what: request, error: words } && {
                &&& request == what
                &&& resp.error matches Some(given) ==> words == given
                &&& resp.error is None ==> words.len() == 0
            }))
        }),
        stepped(m, EventView::Reply(Err(reason))) == (
            ReplicationView { job: m.job, done: m.done, stage: StageView::Over },
            ActionView::Fail(ReplicateErrorView::Reply(ReplyErrorView::Unreadable(reason))),
        ),
{
}

/// Whether an event is of the kind that a stage waits for.
pub open spec fn is_awaited(stage: StageView, event: EventView) -> bool {
    ||| stage is File && event is File
    ||| stage is Time && event is Time
    ||| stage is Signature && event is Signed
    ||| stage is Token && event is Encoded
    ||| stage is Reply && event is Reply
}

/// An event ends a replication as out of turn exactly if it is not what the replication waits for.
pub proof fn law_other_events_are_out_of_turn(m: ReplicationView, event: EventView)
    ensures
        !is_awaited(m.stage, event) ==> stepped(m, event) == (
            ReplicationView { job: m.job, done: m.done, stage: StageView::Over },
            ActionView::Fail(ReplicateErrorView::OutOfTurn),
        ),
        is_awaited(m.stage, event) ==> stepped(m, event).1 != ActionView::Fail(
            ReplicateErrorView::OutOfTurn,
        ),
{
}

} // verus!
