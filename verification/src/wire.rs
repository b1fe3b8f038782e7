//! What is asked of a target, and what its replies mean.

use crate::abilities::texts;
use crate::hexadecimal::fits_in_hex;
use crate::hexadecimal::hex_bytes;
use crate::hexadecimal::hex_encode;
use crate::hexadecimal::hex_text;
use crate::hexadecimal::is_hex_text;
use crate::laws::writing::law_sync_carries_the_whole_file;
use crate::text::join_words;
use crate::text::spaced;
use vstd::prelude::*;

verus! {

/// The body of a request.
#[derive(Debug, Default, PartialEq, Eq)]
pub struct Req {
    /// The capability chain that authorizes the request.
    pub caps: String,
    /// The file to write, for a sync.
    pub path: String,
    /// The file's contents in hexadecimal digits, for a sync.
    pub data_hex: Option<String>,
    /// The command and its arguments, for a spawn.
    pub cmd: Option<Vec<String>>,
    /// The directory to run it in, for a spawn.
    pub cwd: Option<String>,
}

#[verifier::ext_equal]
pub struct ReqView {
    pub caps: Seq<char>,
    pub path: Seq<char>,
    pub data_hex: Option<Seq<char>>,
    pub cmd: Option<Seq<Seq<char>>>,
    pub cwd: Option<Seq<char>>,
}

/// A text that may be missing.
pub open spec fn text_of(text: Option<String>) -> Option<Seq<char>> {
    match text {
        Some(s) => Some(s@),
        None => None,
    }
}

impl View for Req {
    type V = ReqView;

    open spec fn view(&self) -> ReqView {
        ReqView {
            caps: self.caps@,
            path: self.path@,
            data_hex: text_of(self.data_hex),
            cmd: match self.cmd {
                Some(argv) => Some(texts(argv@)),
                None => None,
            },
            cwd: text_of(self.cwd),
        }
    }
}

/// A request as it is sent.
#[derive(Debug, PartialEq, Eq)]
pub struct Call {
    /// The target, as it was named to us.
    pub node: String,
    /// The service at the target.
    pub topic: String,
    /// The body.
    pub req: Req,
    /// How long to wait for the reply.
    pub timeout_ms: u64,
    /// The request in words, for errors.
    pub what: String,
}

#[verifier::ext_equal]
pub struct CallView {
    pub node: Seq<char>,
    pub topic: Seq<char>,
    pub req: ReqView,
    pub timeout_ms: u64,
    pub what: Seq<char>,
}

impl View for Call {
    type V = CallView;

    open spec fn view(&self) -> CallView {
        CallView {
            node: self.node@,
            topic: self.topic@,
            req: self.req@,
            timeout_ms: self.timeout_ms,
            what: self.what@,
        }
    }
}

/// The request to write `data` to `path` at `node`.
pub open spec fn sync_of(
    node: Seq<char>,
    caps: Seq<char>,
    path: Seq<char>,
    data: Seq<u8>,
) -> CallView {
    CallView {
        node,
        topic: "rdev/sync"@,
        req: ReqView { caps, path, data_hex: Some(hex_text(data)), cmd: None, cwd: None },
        timeout_ms: 120_000,
        what: "sync "@ + path,
    }
}

/// The request to write `data` to `path` at a target.
pub fn sync_call(node: &str, caps: &str, path: &str, data: &[u8]) -> (call: Call)
    requires
        fits_in_hex(data@.len()),
    ensures
        call@ == sync_of(node@, caps@, path@, data@),
        call.req.path@ == path@,
        call.req.data_hex matches Some(text) && {
            &&& text@.len() == 2 * data@.len()
            &&& is_hex_text(text@)
            &&& hex_bytes(text@) == data@
        },
{
    proof {
        law_sync_carries_the_whole_file(node@, caps@, path@, data@, 0);
    }
    let mut what = String::from_str("sync ");
    what.append(path);
    Call {
        node: node.to_owned(),
        topic: String::from_str("rdev/sync"),
        req: Req {
            caps: caps.to_owned(),
            path: path.to_owned(),
            data_hex: Some(hex_encode(data)),
            cmd: None,
            cwd: None,
        },
        timeout_ms: 120_000,
        what,
    }
}

/// The request to run `argv` in `cwd` at `node`.
pub open spec fn spawn_of(
    node: Seq<char>,
    caps: Seq<char>,
    argv: Seq<Seq<char>>,
    cwd: Seq<char>,
) -> CallView {
    CallView {
        node,
        topic: "rdev/spawn"@,
        req: ReqView { caps, path: Seq::empty(), data_hex: None, cmd: Some(argv), cwd: Some(cwd) },
        timeout_ms: 60_000,
        what: "spawn "@ + spaced(argv),
    }
}

/// The request to run a command and its arguments at a target.
pub fn spawn_call(node: &str, caps: &str, argv: &Vec<String>, cwd: &str) -> (call: Call)
    ensures
        call@ == spawn_of(node@, caps@, texts(argv@), cwd@),
        call.req.cmd matches Some(list) && {
            &&& list@.len() == argv@.len()
            &&& forall|i: int| 0 <= i < argv@.len() ==> #[trigger] list@[i]@ == argv@[i]@
        },
{
    let line = join_words(argv.as_slice());
    let mut what = String::from_str("spawn ");
    what.append(line.as_str());
    let cmd = argv.clone();
    assert(cmd@ =~= argv@);
    Call {
        node: node.to_owned(),
        topic: String::from_str("rdev/spawn"),
        req: Req {
            caps: caps.to_owned(),
            path: String::new(),
            data_hex: None,
            cmd: Some(cmd),
            cwd: Some(cwd.to_owned()),
        },
        timeout_ms: 60_000,
        what,
    }
}

/// The body of a reply.
#[derive(Debug, Default, PartialEq, Eq)]
pub struct Resp {
    /// Whether the target did what it was asked.
    pub ok: bool,
    /// Why it did not.
    pub error: Option<String>,
    /// What a command printed.
    pub stdout: Option<String>,
}

#[verifier::ext_equal]
pub struct RespView {
    pub ok: bool,
    pub error: Option<Seq<char>>,
    pub stdout: Option<Seq<char>>,
}

impl View for Resp {
    type V = RespView;

    open spec fn view(&self) -> RespView {
        RespView { ok: self.ok, error: text_of(self.error), stdout: text_of(self.stdout) }
    }
}

/// A reply as it came in: its body, or why there is none that can be read.
pub open spec fn reply_view(reply: Result<Resp, String>) -> Result<RespView, Seq<char>> {
    match reply {
        Ok(resp) => Ok(resp@),
        Err(reason) => Err(reason@),
    }
}

/// Why a request was not carried out.
#[derive(Debug, PartialEq, Eq)]
pub enum ReplyError {
    /// No reply came, or none that can be read.
    Unreadable(String),
    /// The target refused.
    Refused { what: String, error: String },
}

#[verifier::ext_equal]
pub enum ReplyErrorView {
    Unreadable(Seq<char>),
    Refused { what: Seq<char>, error: Seq<char> },
}

impl View for ReplyError {
    type V = ReplyErrorView;

    open spec fn view(&self) -> ReplyErrorView {
        match self {
            ReplyError::Unreadable(reason) => ReplyErrorView::Unreadable(reason@),
            ReplyError::Refused { what, error } => ReplyErrorView::Refused {
                what: what@,
                error: error@,
            },
        }
    }
}

impl ReplyErrorView {
    /// The words for the error.
    pub open spec fn text(self) -> Seq<char> {
        match self {
            ReplyErrorView::Unreadable(reason) => reason,
            ReplyErrorView::Refused { what, error } => what + ": remote refused: "@ + error,
        }
    }
}

impl ReplyError {
    /// The error in words.
    pub fn message(&self) -> (words: String)
        ensures
            words@ == self@.text(),
    {
        match self {
            ReplyError::Unreadable(reason) => reason.clone(),
            ReplyError::Refused { what, error } => {
                let mut words = what.clone();
                words.append(": remote refused: ");
                words.append(error.as_str());
                words
            },
        }
    }
}

/// What a reply to the request `what` comes to: a success only if the target says so.
pub open spec fn verdict(reply: Result<RespView, Seq<char>>, what: Seq<char>) -> Result<
    (),
    ReplyErrorView,
> {
    match reply {
        Err(reason) => Err(ReplyErrorView::Unreadable(reason)),
        Ok(resp) => if resp.ok {
            Ok(())
        } else {
            Err(
                ReplyErrorView::Refused {
                    what,
                    error: match resp.error {
                        Some(error) => error,
                        None => Seq::empty(),
                    },
                },
            )
        },
    }
}

/// A result of [`check`], with the error taken by its view.
pub open spec fn verdict_view(result: Result<(), ReplyError>) -> Result<(), ReplyErrorView> {
    match result {
        Ok(_) => Ok(()),
        Err(error) => Err(error@),
    }
}

/// Whether a reply reports success.
pub fn check(reply: Result<Resp, String>, what: &str) -> (result: Result<(), ReplyError>)
    ensures
        verdict_view(result) == verdict(reply_view(reply), what@),
        result is Ok <==> (reply matches Ok(resp) && resp.ok),
{
    match reply {
        Err(reason) => Err(ReplyError::Unreadable(reason)),
        Ok(resp) => {
            if resp.ok {
                Ok(())
            } else {
                let error = match resp.error {
                    Some(error) => error,
                    None => String::new(),
                };
                Err(ReplyError::Refused { what: what.to_owned(), error })
            }
        },
    }
}

} // verus!
