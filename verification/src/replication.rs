//! Replicating onto one target: which file to read, what to sign and what to send next.
//!
//! A [`Replication`] decides; whoever drives it performs each [`Action`] and hands back the
//! [`Event`] that it led to, until the action is to stop.

use crate::abilities::texts;
use crate::capability::copy_chain;
use crate::capability::links;
use crate::capability::Capability;
use crate::capability::CapabilityView;
use crate::capability::NodeId;
use crate::capability::Seal;
use crate::capability::SealView;
use crate::capability::SignedCapability;
use crate::capability::SignedCapabilityView;
use crate::delegation::can_replicate;
use crate::delegation::delegate;
use crate::delegation::delegated;
use crate::delegation::extend_chain;
use crate::delegation::extended;
use crate::delegation::DelegateError;
use crate::hexadecimal::fits_in_hex;
use crate::laws::replicating::law_spawn_is_signed_above_the_last_level;
use crate::laws::replicating::law_what_is_signed;
use crate::node_id::node_id_of;
use crate::node_id::parse_node_id;
use crate::node_id::NodeIdError;
use crate::text::cut_at_equals;
use crate::text::join_path;
use crate::text::path_in;
use crate::text::split_pair;
use crate::text::split_words;
use crate::text::words;
use crate::wire::check;
use crate::wire::reply_view;
use crate::wire::spawn_call;
use crate::wire::spawn_of;
use crate::wire::sync_call;
use crate::wire::sync_of;
use crate::wire::verdict;
use crate::wire::Call;
use crate::wire::CallView;
use crate::wire::ReplyError;
use crate::wire::ReplyErrorView;
use crate::wire::Resp;
use crate::wire::RespView;
use vstd::prelude::*;
use vstd::utf8::encode_utf8;

verus! {

/// One thing to be done at the target.
#[derive(Debug, PartialEq, Eq)]
pub enum Task {
    /// Push a local file, given as `name=path`.
    Push(String),
    /// Delegate a capability to the target and deliver it.
    Deliver,
    /// Start a process.
    Boot(Vec<String>),
}

#[verifier::ext_equal]
pub enum TaskView {
    Push(Seq<char>),
    Deliver,
    Boot(Seq<Seq<char>>),
}

impl View for Task {
    type V = TaskView;

    open spec fn view(&self) -> TaskView {
        match self {
            Task::Push(pair) => TaskView::Push(pair@),
            Task::Deliver => TaskView::Deliver,
            Task::Boot(argv) => TaskView::Boot(texts(argv@)),
        }
    }
}

/// A list of tasks.
pub open spec fn task_views(tasks: Seq<Task>) -> Seq<TaskView> {
    tasks.map_values(|task: Task| task@)
}

/// The processes to start for lines of words: one for each line that is not blank.
pub open spec fn boots(lines: Seq<Seq<char>>) -> Seq<TaskView>
    decreases lines.len(),
{
    if lines.len() == 0 {
        Seq::empty()
    } else if words(lines.last()).len() == 0 {
        boots(lines.drop_last())
    } else {
        boots(lines.drop_last()).push(TaskView::Boot(words(lines.last())))
    }
}

/// All that is done at a target, in order: the files, then the capability, then the processes.
pub open spec fn tasks_for(bins: Seq<Seq<char>>, boot: Seq<Seq<char>>) -> Seq<TaskView> {
    bins.map_values(|pair: Seq<char>| TaskView::Push(pair)).push(TaskView::Deliver) + boots(boot)
}

/// Lists what is to be done at a target.
pub fn list_tasks(bins: &[String], boot: &[String]) -> (tasks: Vec<Task>)
    ensures
        task_views(tasks@) == tasks_for(texts(bins@), texts(boot@)),
{
    let mut tasks: Vec<Task> = Vec::new();
    let ghost pairs = texts(bins@);
    let ghost lines = texts(boot@);
    let ghost push = |pair: Seq<char>| TaskView::Push(pair);
    let mut i: usize = 0;
    while i < bins.len()
        invariant
            i <= bins@.len(),
            pairs == texts(bins@),
            push == (|pair: Seq<char>| TaskView::Push(pair)),
            task_views(tasks@) =~= pairs.take(i as int).map_values(push),
        decreases bins@.len() - i,
    {
        let ghost before = tasks@;
        tasks.push(Task::Push(bins[i].clone()));
        assert(task_views(tasks@) =~= task_views(before).push(TaskView::Push(pairs[i as int])));
        i += 1;
    }
    assert(pairs.take(i as int) =~= pairs);
    let ghost before = tasks@;
    tasks.push(Task::Deliver);
    assert(task_views(tasks@) =~= task_views(before).push(TaskView::Deliver));
    let ghost opening = task_views(tasks@);
    assert(opening + boots(lines.take(0)) =~= opening);
    let mut j: usize = 0;
    while j < boot.len()
        invariant
            j <= boot@.len(),
            lines == texts(boot@),
            task_views(tasks@) == opening + boots(lines.take(j as int)),
        decreases boot@.len() - j,
    {
        let argv = split_words(boot[j].as_str());
        assert(lines.take(j + 1).drop_last() =~= lines.take(j as int));
        let ghost before = tasks@;
        if argv.len() > 0 {
            tasks.push(Task::Boot(argv));
            assert(task_views(tasks@) =~= task_views(before).push(
                TaskView::Boot(words(lines[j as int])),
            ));
        }
        assert(task_views(tasks@) =~= opening + boots(lines.take(j + 1)));
        j += 1;
    }
    assert(lines.take(j as int) =~= lines);
    tasks
}

/// What is to be done at one target, and on whose authority.
#[derive(Debug, PartialEq, Eq)]
pub struct Job {
    /// The target, as it was named to us. Every request goes there.
    pub node: String,
    /// Our capability chain, encoded, which authorizes our requests to the target.
    pub caps: String,
    /// The same chain, link by link.
    pub chain: Vec<SignedCapability>,
    /// The node that signs for us.
    pub holder: NodeId,
    /// The target's id, which the capability is granted to.
    pub child: NodeId,
    /// How many levels of the tree are left, with the target's.
    pub depth: u32,
    /// How long the target's capability lasts, in seconds.
    pub ttl: u64,
    /// The nonce of the target's capability.
    pub nonce: u64,
    /// The directory at the target.
    pub cwd: String,
    /// What to do there.
    pub tasks: Vec<Task>,
}

#[verifier::ext_equal]
pub struct JobView {
    pub node: Seq<char>,
    pub caps: Seq<char>,
    pub chain: Seq<SignedCapabilityView>,
    pub holder: Seq<u8>,
    pub child: Seq<u8>,
    pub depth: u32,
    pub ttl: u64,
    pub nonce: u64,
    pub cwd: Seq<char>,
    pub tasks: Seq<TaskView>,
}

impl View for Job {
    type V = JobView;

    open spec fn view(&self) -> JobView {
        JobView {
            node: self.node@,
            caps: self.caps@,
            chain: links(self.chain@),
            holder: self.holder@,
            child: self.child@,
            depth: self.depth,
            ttl: self.ttl,
            nonce: self.nonce,
            cwd: self.cwd@,
            tasks: task_views(self.tasks@),
        }
    }
}

impl Job {
    /// Prepares a replication onto `target`, which is refused if that is no node id.
    pub fn new(
        our_chain: &[SignedCapability],
        our_cap: &str,
        holder: NodeId,
        target: &str,
        depth: u32,
        ttl: u64,
        bins: &[String],
        boot: &[String],
        cwd: &str,
        nonce: u64,
    ) -> (job: Result<Job, NodeIdError>)
        ensures
            match job {
                Ok(made) => node_id_of(target@) == Ok::<Seq<u8>, NodeIdError>(made@.child) && made@
                    == (JobView {
                    node: target@,
                    caps: our_cap@,
                    chain: links(our_chain@),
                    holder: holder@,
                    child: made@.child,
                    depth,
                    ttl,
                    nonce,
                    cwd: cwd@,
                    tasks: tasks_for(texts(bins@), texts(boot@)),
                }),
                Err(error) => node_id_of(target@) == Err::<Seq<u8>, NodeIdError>(error),
            },
    {
        let child = match parse_node_id(target) {
            Ok(child) => child,
            Err(error) => {
                return Err(error);
            },
        };
        Ok(
            Job {
                node: target.to_owned(),
                caps: our_cap.to_owned(),
                chain: copy_chain(our_chain),
                holder,
                child,
                depth,
                ttl,
                nonce,
                cwd: cwd.to_owned(),
                tasks: list_tasks(bins, boot),
            },
        )
    }
}

/// Why a replication was given up.
#[derive(Debug, PartialEq, Eq)]
pub enum ReplicateError {
    /// A file to push is not given as `name=path`.
    NotAPair,
    /// A local file could not be read.
    CannotRead(String),
    /// There is nothing to delegate.
    Delegate(DelegateError),
    /// A request was not carried out.
    Reply(ReplyError),
    /// An event came that no action had asked for.
    OutOfTurn,
}

#[verifier::ext_equal]
pub enum ReplicateErrorView {
    NotAPair,
    CannotRead(Seq<char>),
    Delegate(DelegateError),
    Reply(ReplyErrorView),
    OutOfTurn,
}

impl View for ReplicateError {
    type V = ReplicateErrorView;

    open spec fn view(&self) -> ReplicateErrorView {
        match self {
            ReplicateError::NotAPair => ReplicateErrorView::NotAPair,
            ReplicateError::CannotRead(path) => ReplicateErrorView::CannotRead(path@),
            ReplicateError::Delegate(error) => ReplicateErrorView::Delegate(*error),
            ReplicateError::Reply(error) => ReplicateErrorView::Reply(error@),
            ReplicateError::OutOfTurn => ReplicateErrorView::OutOfTurn,
        }
    }
}

impl ReplicateErrorView {
    /// The words for the error.
    pub open spec fn text(self) -> Seq<char> {
        match self {
            ReplicateErrorView::NotAPair => "--bin must be name=path"@,
            ReplicateErrorView::CannotRead(path) => "read "@ + path,
            ReplicateErrorView::Delegate(error) => error.text(),
            ReplicateErrorView::Reply(error) => error.text(),
            ReplicateErrorView::OutOfTurn => "unexpected event"@,
        }
    }
}

impl ReplicateError {
    /// The error in words.
    pub fn message(&self) -> (words: String)
        ensures
            words@ == self@.text(),
    {
        match self {
            ReplicateError::NotAPair => String::from_str("--bin must be name=path"),
            ReplicateError::CannotRead(path) => {
                let mut words = String::from_str("read ");
                words.append(path.as_str());
                words
            },
            ReplicateError::Delegate(error) => error.message(),
            ReplicateError::Reply(error) => error.message(),
            ReplicateError::OutOfTurn => String::from_str("unexpected event"),
        }
    }
}

/// What to do next.
#[derive(Debug, PartialEq, Eq)]
pub enum Action {
    /// Read a local file.
    Read(String),
    /// Read the clock.
    AskTime,
    /// Sign a capability as its issuer.
    Sign(Capability),
    /// Encode a chain.
    Encode(Vec<SignedCapability>),
    /// Send a request to the target.
    Send(Call),
    /// Stop: all is done.
    Done,
    /// Stop: it cannot be done.
    Fail(ReplicateError),
}

#[verifier::ext_equal]
pub enum ActionView {
    Read(Seq<char>),
    AskTime,
    Sign(CapabilityView),
    Encode(Seq<SignedCapabilityView>),
    Send(CallView),
    Done,
    Fail(ReplicateErrorView),
}

impl View for Action {
    type V = ActionView;

    open spec fn view(&self) -> ActionView {
        match self {
            Action::Read(path) => ActionView::Read(path@),
            Action::AskTime => ActionView::AskTime,
            Action::Sign(cap) => ActionView::Sign(cap@),
            Action::Encode(chain) => ActionView::Encode(links(chain@)),
            Action::Send(call) => ActionView::Send(call@),
            Action::Done => ActionView::Done,
            Action::Fail(error) => ActionView::Fail(error@),
        }
    }
}

/// What an action led to.
#[derive(Debug, PartialEq, Eq)]
pub enum Event {
    /// The contents of the file, if it could be read.
    File(Option<Vec<u8>>),
    /// The time, in seconds since the epoch.
    Time(u64),
    /// What the signature adds to the capability.
    Signed(Seal),
    /// The chain, encoded.
    Encoded(String),
    /// The target's reply, or why there is none that can be read.
    Reply(Result<Resp, String>),
}

#[verifier::ext_equal]
pub enum EventView {
    File(Option<Seq<u8>>),
    Time(u64),
    Signed(SealView),
    Encoded(Seq<char>),
    Reply(Result<RespView, Seq<char>>),
}

impl View for Event {
    type V = EventView;

    open spec fn view(&self) -> EventView {
        match self {
            Event::File(Some(data)) => EventView::File(Some(data@)),
            Event::File(None) => EventView::File(None),
            Event::Time(now) => EventView::Time(*now),
            Event::Signed(seal) => EventView::Signed(seal@),
            Event::Encoded(token) => EventView::Encoded(token@),
            Event::Reply(reply) => EventView::Reply(reply_view(*reply)),
        }
    }
}

impl EventView {
    /// Whether what has to be sent on fits in a request.
    pub open spec fn fits(self) -> bool {
        match self {
            EventView::File(Some(data)) => fits_in_hex(data.len()),
            EventView::Encoded(token) => fits_in_hex(encode_utf8(token).len()),
            _ => true,
        }
    }
}

/// What is waited for.
#[derive(Debug, PartialEq, Eq)]
pub enum Stage {
    /// The file at `path`, to be pushed under `name`.
    File { name: String, path: String },
    /// The time at which to delegate.
    Time,
    /// The signature under a capability.
    Signature(Capability),
    /// The encoded chain.
    Token,
    /// The reply to a request.
    Reply { what: String },
    /// Nothing any more.
    Over,
}

#[verifier::ext_equal]
pub enum StageView {
    File { name: Seq<char>, path: Seq<char> },
    Time,
    Signature(CapabilityView),
    Token,
    Reply { what: Seq<char> },
    Over,
}

impl View for Stage {
    type V = StageView;

    open spec fn view(&self) -> StageView {
        match self {
            Stage::File { name, path } => StageView::File { name: name@, path: path@ },
            Stage::Time => StageView::Time,
            Stage::Signature(cap) => StageView::Signature(cap@),
            Stage::Token => StageView::Token,
            Stage::Reply { what } => StageView::Reply { what: what@ },
            Stage::Over => StageView::Over,
        }
    }
}

/// A replication under way.
#[derive(Debug, PartialEq, Eq)]
pub struct Replication {
    /// What is to be done.
    pub job: Job,
    /// How many tasks are done.
    pub done: usize,
    /// What the current task waits for.
    pub stage: Stage,
}

#[verifier::ext_equal]
pub struct ReplicationView {
    pub job: JobView,
    pub done: int,
    pub stage: StageView,
}

impl View for Replication {
    type V = ReplicationView;

    open spec fn view(&self) -> ReplicationView {
        ReplicationView { job: self.job@, done: self.done as int, stage: self.stage@ }
    }
}

/// The name under which a target finds its capability.
pub const CAP_FILE: &'static str = "replicator.cap";

/// What is waited for with `done` tasks behind, and the action that opens the next task.
pub open spec fn opened(job: JobView, done: int) -> (StageView, ActionView) {
    if done >= job.tasks.len() {
        (StageView::Over, ActionView::Done)
    } else {
        match job.tasks[done] {
            TaskView::Push(pair) => match cut_at_equals(pair) {
                Some((name, path)) => (StageView::File { name, path }, ActionView::Read(path)),
                None => (StageView::Over, ActionView::Fail(ReplicateErrorView::NotAPair)),
            },
            TaskView::Deliver => (StageView::Time, ActionView::AskTime),
            TaskView::Boot(argv) => {
                let call = spawn_of(job.node, job.caps, argv, job.cwd);
                (StageView::Reply { what: call.what }, ActionView::Send(call))
            },
        }
    }
}

/// The replication and the action after an event.
pub open spec fn stepped(m: ReplicationView, event: EventView) -> (ReplicationView, ActionView) {
    let (done, (stage, action)) = match (m.stage, event) {
        (StageView::File { name, path }, EventView::File(Some(data))) => {
            let call = sync_of(m.job.node, m.job.caps, path_in(m.job.cwd, name), data);
            (m.done, (StageView::Reply { what: call.what }, ActionView::Send(call)))
        },
        (StageView::File { name, path }, EventView::File(None)) => (
            m.done,
            (StageView::Over, ActionView::Fail(ReplicateErrorView::CannotRead(path))),
        ),
        (StageView::Time, EventView::Time(now)) => match delegated(
            m.job.chain,
            m.job.holder,
            m.job.child,
            m.job.depth > 1,
            now,
            m.job.ttl,
            m.job.nonce,
        ) {
            Ok(cap) => (m.done, (StageView::Signature(cap), ActionView::Sign(cap))),
            Err(error) => (
                m.done,
                (StageView::Over, ActionView::Fail(ReplicateErrorView::Delegate(error))),
            ),
        },
        (StageView::Signature(cap), EventView::Signed(seal)) => (
            m.done,
            (StageView::Token, ActionView::Encode(extended(m.job.chain, cap, seal))),
        ),
        (StageView::Token, EventView::Encoded(token)) => {
            let path = path_in(m.job.cwd, CAP_FILE@);
            let call = sync_of(m.job.node, m.job.caps, path, encode_utf8(token));
            (m.done, (StageView::Reply { what: call.what }, ActionView::Send(call)))
        },
        (StageView::Reply { what }, EventView::Reply(reply)) => match verdict(reply, what) {
            Ok(_) => (m.done + 1, opened(m.job, m.done + 1)),
            Err(error) => (
                m.done,
                (StageView::Over, ActionView::Fail(ReplicateErrorView::Reply(error))),
            ),
        },
        _ => (m.done, (StageView::Over, ActionView::Fail(ReplicateErrorView::OutOfTurn))),
    };
    (ReplicationView { job: m.job, done, stage }, action)
}

impl Replication {
    /// While something is waited for, a task is under way.
    pub open spec fn wf(&self) -> bool {
        self.stage !is Over ==> self.done < self.job.tasks.len()
    }

    /// Opens the first task of a job.
    pub fn start(job: Job) -> (begun: (Replication, Action))
        ensures
            begun.0.wf(),
            begun.0@.job == job@,
            begun.0@.done == 0,
            (begun.0@.stage, begun.1@) == opened(job@, 0),
    {
        let mut replication = Replication { job, done: 0, stage: Stage::Over };
        let action = replication.open();
        (replication, action)
    }

    /// Opens the next task, or stops after the last.
    fn open(&mut self) -> (action: Action)
        ensures
            final(self).wf(),
            final(self)@.job == old(self)@.job,
            final(self)@.done == old(self)@.done,
            (final(self)@.stage, action@) == opened(old(self)@.job, old(self)@.done),
    {
        if self.done >= self.job.tasks.len() {
            self.stage = Stage::Over;
            return Action::Done;
        }
        assert(self.job@.tasks[self.done as int] == self.job.tasks@[self.done as int]@);
        match &self.job.tasks[self.done] {
            Task::Push(pair) => match split_pair(pair.as_str()) {
                Some((name, path)) => {
                    self.stage = Stage::File { name, path: path.clone() };
                    Action::Read(path)
                },
                None => {
                    self.stage = Stage::Over;
                    Action::Fail(ReplicateError::NotAPair)
                },
            },
            Task::Deliver => {
                self.stage = Stage::Time;
                Action::AskTime
            },
            Task::Boot(argv) => {
                let call = spawn_call(
                    self.job.node.as_str(),
                    self.job.caps.as_str(),
                    argv,
                    self.job.cwd.as_str(),
                );
                self.stage = Stage::Reply { what: call.what.clone() };
                Action::Send(call)
            },
        }
    }

    /// Sends a file into the directory at the target, and waits for the reply.
    fn send(&mut self, name: &str, data: &[u8]) -> (action: Action)
        requires
            old(self).done < old(self).job.tasks@.len(),
            fits_in_hex(data@.len()),
        ensures
            final(self).wf(),
            final(self)@.job == old(self)@.job,
            final(self)@.done == old(self)@.done,
            ({
                let job = old(self)@.job;
                let call = sync_of(job.node, job.caps, path_in(job.cwd, name@), data@);
                &&& final(self)@.stage == (StageView::Reply { what: call.what })
                &&& action@ == ActionView::Send(call)
            }),
    {
        let path = join_path(self.job.cwd.as_str(), name);
        let call = sync_call(
            self.job.node.as_str(),
            self.job.caps.as_str(),
            path.as_str(),
            data,
        );
        self.stage = Stage::Reply { what: call.what.clone() };
        Action::Send(call)
    }

    /// Takes the event that the last action led to, and gives the next action.
    pub fn step(&mut self, event: Event) -> (action: Action)
        requires
            old(self).wf(),
            event@.fits(),
        ensures
            final(self).wf(),
            (final(self)@, action@) == stepped(old(self)@, event@),
            old(self).stage is Time && event is Time ==> {
                let job = old(self).job;
                let last = job.chain@[job.chain@.len() - 1].cap;
                let held = texts(last.abilities@);
                &&& action is Sign <==> job.chain@.len() > 0 && last.audience@ == job.holder@ && (
                held.contains("sync"@) || (held.contains("spawn"@) && job.depth >= 2))
                &&& action matches Action::Sign(cap) ==> {
                    &&& cap.issuer@ == job.holder@
                    &&& cap.audience@ == job.child@
                    &&& texts(cap.abilities@).contains("sync"@) <==> held.contains("sync"@)
                    &&& texts(cap.abilities@).contains("spawn"@) <==> held.contains("spawn"@)
                        && job.depth >= 2
                }
            },
    {
        proof {
            if let Event::Time(now) = event {
                if self.stage is Time {
                    law_spawn_is_signed_above_the_last_level(self@, now, "sync"@);
                    law_what_is_signed(self@, now);
                }
            }
        }
        let mut stage = Stage::Over;
        std::mem::swap(&mut stage, &mut self.stage);
        match (stage, event) {
            (Stage::File { name, path: _ }, Event::File(Some(data))) => self.send(
                name.as_str(),
                data.as_slice(),
            ),
            (Stage::File { name: _, path }, Event::File(None)) => Action::Fail(
                ReplicateError::CannotRead(path),
            ),
            (Stage::Time, Event::Time(now)) => {
                match delegate(
                    self.job.chain.as_slice(),
                    self.job.holder,
                    self.job.child,
                    can_replicate(self.job.depth),
                    now,
                    self.job.ttl,
                    self.job.nonce,
                ) {
                    Ok(cap) => {
                        self.stage = Stage::Signature(cap.clone());
                        Action::Sign(cap)
                    },
                    Err(error) => Action::Fail(ReplicateError::Delegate(error)),
                }
            },
            (Stage::Signature(cap), Event::Signed(seal)) => {
                self.stage = Stage::Token;
                Action::Encode(extend_chain(self.job.chain.as_slice(), cap, seal))
            },
            (Stage::Token, Event::Encoded(token)) => self.send(
                CAP_FILE,
                token.as_str().as_bytes(),
            ),
            (Stage::Reply { what }, Event::Reply(reply)) => match check(reply, what.as_str()) {
                Ok(_) => {
                    self.done = self.done + 1;
                    self.open()
                },
                Err(error) => Action::Fail(ReplicateError::Reply(error)),
            },
            _ => Action::Fail(ReplicateError::OutOfTurn),
        }
    }
}

} // verus!
