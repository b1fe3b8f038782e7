use replicator::wire::check;
use replicator::wire::spawn_call;
use replicator::wire::sync_call;
use replicator::wire::Call;
use replicator::wire::ReplyError;
use replicator::wire::Req;
use replicator::wire::Resp;
use serde_json::Value;

/// A reply as it stands on the wire.
fn to_vec(resp: &Resp) -> Vec<u8> {
    let text = |s: &Option<String>| match s {
        Some(s) => Value::String(s.clone()),
        None => Value::Null,
    };
    let mut body = serde_json::Map::new();
    body.insert("ok".to_string(), Value::Bool(resp.ok));
    body.insert("error".to_string(), text(&resp.error));
    body.insert("stdout".to_string(), text(&resp.stdout));
    serde_json::to_vec(&Value::Object(body)).unwrap()
}

fn from_slice(reply: &[u8]) -> Result<Resp, String> {
    let body: Value = serde_json::from_slice(reply).map_err(|e| e.to_string())?;
    let text = |key: &str| body[key].as_str().map(|s| s.to_string());
    Ok(Resp {
        ok: body["ok"].as_bool().ok_or("missing field `ok`")?,
        error: text("error"),
        stdout: text("stdout"),
    })
}

#[test]
fn check_maps_ok_and_error_replies() {
    let ok = to_vec(&Resp { ok: true, ..Default::default() });
    assert!(check(from_slice(&ok), "sync foo").is_ok());
    let bad = to_vec(&Resp { ok: false, error: Some("denied".into()), ..Default::default() });
    let e = check(from_slice(&bad), "sync foo").unwrap_err();
    assert!(e.message().contains("denied"));
    // malformed reply → parse error, not a panic
    assert!(check(from_slice(b"not json"), "sync foo").is_err());
}

#[test]
fn refusals_and_unreadable_replies_in_words() {
    let refused = Resp { ok: false, error: Some("denied".into()), ..Default::default() };
    let e = check(Ok(refused), "sync foo").unwrap_err();
    assert_eq!(
        e,
        ReplyError::Refused { what: "sync foo".to_string(), error: "denied".to_string() }
    );
    assert_eq!(e.message(), "sync foo: remote refused: denied");
    let silent = check(Ok(Resp::default()), "spawn ce").unwrap_err();
    assert_eq!(silent.message(), "spawn ce: remote refused: ");
    let lost = check(Err("timed out".to_string()), "sync foo").unwrap_err();
    assert_eq!(lost, ReplyError::Unreadable("timed out".to_string()));
    assert_eq!(lost.message(), "timed out");
}

#[test]
fn an_error_text_does_not_spoil_a_success() {
    let odd = Resp { ok: true, error: Some("warning".into()), stdout: Some("out".into()) };
    assert_eq!(check(Ok(odd), "sync foo"), Ok(()));
}

#[test]
fn sync_request_in_full() {
    let expected = Call {
        node: "n1".to_string(),
        topic: "rdev/sync".to_string(),
        req: Req {
            caps: "tok".to_string(),
            path: "replica/rdev".to_string(),
            data_hex: Some("00ff10de".to_string()),
            cmd: None,
            cwd: None,
        },
        timeout_ms: 120_000,
        what: "sync replica/rdev".to_string(),
    };
    assert_eq!(sync_call("n1", "tok", "replica/rdev", &[0x00, 0xff, 0x10, 0xde]), expected);
}

#[test]
fn sync_of_an_empty_file() {
    assert_eq!(sync_call("n1", "tok", "x", &[]).req.data_hex, Some(String::new()));
}

#[test]
fn spawn_request_in_full() {
    let argv = vec!["ce".to_string(), "start".to_string()];
    let expected = Call {
        node: "n1".to_string(),
        topic: "rdev/spawn".to_string(),
        req: Req {
            caps: "tok".to_string(),
            path: String::new(),
            data_hex: None,
            cmd: Some(argv.clone()),
            cwd: Some("replica".to_string()),
        },
        timeout_ms: 60_000,
        what: "spawn ce start".to_string(),
    };
    assert_eq!(spawn_call("n1", "tok", &argv, "replica"), expected);
}
