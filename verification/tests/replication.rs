use replicator::capability::Capability;
use replicator::capability::NodeId;
use replicator::capability::Seal;
use replicator::capability::SignedCapability;
use replicator::caveats::Caveats;
use replicator::delegation::DelegateError;
use replicator::node_id::parse_node_id;
use replicator::node_id::NodeIdError;
use replicator::replication::list_tasks;
use replicator::replication::Action;
use replicator::replication::Event;
use replicator::replication::Job;
use replicator::replication::ReplicateError;
use replicator::replication::Replication;
use replicator::replication::Task;
use replicator::wire::spawn_call;
use replicator::wire::sync_call;
use replicator::wire::Call;
use replicator::wire::ReplyError;
use replicator::wire::Resp;

const US: NodeId = [1; 32];

fn target() -> String {
    "02".repeat(32)
}

fn strings(list: &[&str]) -> Vec<String> {
    list.iter().map(|s| s.to_string()).collect()
}

fn our_chain(abilities: &[&str]) -> Vec<SignedCapability> {
    vec![SignedCapability {
        cap: Capability {
            issuer: [0; 32],
            audience: US,
            abilities: strings(abilities),
            resource: b"any".to_vec(),
            caveats: Caveats::default(),
            nonce: 1,
            parent: None,
        },
        seal: Seal { id: [9; 32], token: "root".to_string() },
    }]
}

fn job(bins: &[&str], boot: &[&str], depth: u32) -> Job {
    Job::new(
        &our_chain(&["sync", "spawn"]),
        "our-token",
        US,
        &target(),
        depth,
        100,
        &strings(bins),
        &strings(boot),
        "replica",
        7,
    )
    .unwrap()
}

fn success() -> Result<Resp, String> {
    Ok(Resp { ok: true, ..Default::default() })
}

/// Drives a replication in a world where a file holds its own path, unless that is `missing`, the
/// time is 1000, and the `refused`th request is refused. Gives the requests and the end.
fn drive(job: Job, refused: Option<usize>) -> (Vec<Call>, Action) {
    let mut calls: Vec<Call> = Vec::new();
    let (mut replication, mut action) = Replication::start(job);
    loop {
        let event = match action {
            Action::Read(path) if path == "missing" => Event::File(None),
            Action::Read(path) => Event::File(Some(path.into_bytes())),
            Action::AskTime => Event::Time(1_000),
            Action::Sign(cap) => Event::Signed(Seal {
                id: [8; 32],
                token: format!("{}-{}", cap.abilities.join("+"), cap.caveats.not_after),
            }),
            Action::Encode(chain) => {
                let links: Vec<String> = chain.iter().map(|c| c.seal.token.clone()).collect();
                Event::Encoded(links.join(","))
            }
            Action::Send(call) => {
                calls.push(call);
                if refused == Some(calls.len()) {
                    Event::Reply(Ok(Resp { error: Some("denied".into()), ..Default::default() }))
                } else {
                    Event::Reply(success())
                }
            }
            end => return (calls, end),
        };
        action = replication.step(event);
    }
}

#[test]
fn replication_pushes_delivers_and_boots_in_order() {
    let job = job(&["rdev=./rdev", "ce=/bin/ce"], &["ce start --no-mine", "  ", "rdev serve"], 3);
    let (calls, end) = drive(job, None);
    let expected = vec![
        sync_call(&target(), "our-token", "replica/rdev", b"./rdev"),
        sync_call(&target(), "our-token", "replica/ce", b"/bin/ce"),
        sync_call(&target(), "our-token", "replica/replicator.cap", b"root,sync+spawn-1100"),
        spawn_call(&target(), "our-token", &strings(&["ce", "start", "--no-mine"]), "replica"),
        spawn_call(&target(), "our-token", &strings(&["rdev", "serve"]), "replica"),
    ];
    assert_eq!(calls, expected);
    assert_eq!(end, Action::Done);
}

#[test]
fn replication_at_the_last_level_delivers_a_leaf_capability() {
    let (calls, end) = drive(job(&[], &[], 1), None);
    let delivered = sync_call(&target(), "our-token", "replica/replicator.cap", b"root,sync-1100");
    assert_eq!(calls, vec![delivered]);
    assert_eq!(end, Action::Done);
}

#[test]
fn replication_stops_at_a_malformed_pair_but_not_before() {
    let (calls, end) = drive(job(&["a=x", "b", "c=y"], &["ls"], 2), None);
    assert_eq!(calls, vec![sync_call(&target(), "our-token", "replica/a", b"x")]);
    assert_eq!(end, Action::Fail(ReplicateError::NotAPair));
    assert_eq!(ReplicateError::NotAPair.message(), "--bin must be name=path");
}

#[test]
fn replication_stops_at_a_file_that_cannot_be_read() {
    let (calls, end) = drive(job(&["a=missing"], &["ls"], 2), None);
    assert!(calls.is_empty());
    let error = ReplicateError::CannotRead("missing".to_string());
    assert_eq!(error.message(), "read missing");
    assert_eq!(end, Action::Fail(error));
}

#[test]
fn replication_stops_at_each_refusal() {
    let whats = ["sync replica/a", "sync replica/replicator.cap", "spawn ls -l"];
    for (i, what) in whats.iter().enumerate() {
        let (calls, end) = drive(job(&["a=x"], &["ls -l", "pwd"], 2), Some(i + 1));
        assert_eq!(calls.len(), i + 1);
        assert_eq!(calls[i].what, *what);
        let error = ReplicateError::Reply(ReplyError::Refused {
            what: what.to_string(),
            error: "denied".to_string(),
        });
        assert_eq!(error.message(), format!("{what}: remote refused: denied"));
        assert_eq!(end, Action::Fail(error));
    }
}

#[test]
fn equal_requests_may_be_answered_differently() {
    let (calls, end) = drive(job(&[], &["ls", "ls", "ls"], 2), Some(3));
    assert_eq!(calls.len(), 3);
    assert_eq!(calls[1], calls[2]);
    let error = ReplicateError::Reply(ReplyError::Refused {
        what: "spawn ls".to_string(),
        error: "denied".to_string(),
    });
    assert_eq!(end, Action::Fail(error));
}

#[test]
fn every_request_goes_to_the_target() {
    let (calls, _) = drive(job(&["a=x", "b=y"], &["ls", "pwd"], 2), None);
    assert_eq!(calls.len(), 5);
    assert!(calls.iter().all(|call| call.node == target() && call.req.caps == "our-token"));
}

#[test]
fn capability_is_signed_for_the_target() {
    let (mut replication, _) = Replication::start(job(&[], &[], 2));
    match replication.step(Event::Time(1_000)) {
        Action::Sign(cap) => assert_eq!(Ok(cap.audience), parse_node_id(&target())),
        other => panic!("{other:?}"),
    }
}

#[test]
fn replication_without_authority_pushes_but_boots_nothing() {
    let mut stranger = job(&["a=x"], &["ls"], 2);
    stranger.holder = [3; 32];
    let (calls, end) = drive(stranger, None);
    assert_eq!(calls, vec![sync_call(&target(), "our-token", "replica/a", b"x")]);
    let error = ReplicateError::Delegate(DelegateError::NotTheHolder);
    assert_eq!(error.message(), DelegateError::NotTheHolder.message());
    assert_eq!(end, Action::Fail(error));
}

#[test]
fn replication_stays_ended() {
    let (mut replication, action) = Replication::start(job(&["b"], &["ls"], 2));
    assert_eq!(action, Action::Fail(ReplicateError::NotAPair));
    for _ in 0..2 {
        let more = replication.step(Event::Reply(success()));
        assert_eq!(more, Action::Fail(ReplicateError::OutOfTurn));
    }
    assert_eq!(ReplicateError::OutOfTurn.message(), "unexpected event");
}

#[test]
fn replication_asks_for_what_it_waits_for() {
    let (mut replication, action) = Replication::start(job(&["a=x"], &[], 2));
    assert_eq!(action, Action::Read("x".to_string()));
    let lost = replication.step(Event::Time(5));
    assert_eq!(lost, Action::Fail(ReplicateError::OutOfTurn));
}

#[test]
fn replication_delivers_the_token_as_it_is_written() {
    let (mut replication, action) = Replication::start(job(&[], &[], 2));
    assert_eq!(action, Action::AskTime);
    assert!(matches!(replication.step(Event::Time(1_000)), Action::Sign(_)));
    let seal = Seal { id: [8; 32], token: "leaf".to_string() };
    match replication.step(Event::Signed(seal)) {
        Action::Encode(chain) => {
            assert_eq!(chain[..1], our_chain(&["sync", "spawn"])[..]);
            assert_eq!(chain[1].seal.token, "leaf");
            assert_eq!(chain.len(), 2);
        }
        other => panic!("{other:?}"),
    }
    match replication.step(Event::Encoded("é".to_string())) {
        Action::Send(call) => assert_eq!(call.req.data_hex, Some("c3a9".to_string())),
        other => panic!("{other:?}"),
    }
    assert_eq!(replication.step(Event::Reply(success())), Action::Done);
}

#[test]
fn job_is_refused_for_a_target_that_is_no_node_id() {
    let refused = |target: &str| {
        Job::new(&[], "our-token", US, target, 1, 100, &[], &[], "replica", 7).unwrap_err()
    };
    assert_eq!(refused("zz"), NodeIdError::NotHex);
    assert_eq!(refused("02"), NodeIdError::WrongLength);
}

#[test]
fn job_keeps_what_it_is_given() {
    let made = job(&["a=x"], &["ls"], 4);
    assert_eq!(made.node, target());
    assert_eq!(made.child, [2; 32]);
    assert_eq!(made.holder, US);
    assert_eq!((made.depth, made.ttl, made.nonce), (4, 100, 7));
    assert_eq!((made.caps.as_str(), made.cwd.as_str()), ("our-token", "replica"));
    assert_eq!(made.chain, our_chain(&["sync", "spawn"]));
}

#[test]
fn tasks_are_files_then_capability_then_processes() {
    let expected = vec![
        Task::Push("a=x".to_string()),
        Task::Deliver,
        Task::Boot(strings(&["ls", "-l"])),
    ];
    assert_eq!(list_tasks(&strings(&["a=x"]), &strings(&["", " ls  -l ", "\t"])), expected);
    assert_eq!(list_tasks(&[], &[]), vec![Task::Deliver]);
}
