//! What is written and read: digits, ids, words, paths, requests, replies and errors.

use crate::delegation::DelegateError;
use crate::hexadecimal::hex_bytes;
use crate::hexadecimal::hex_text;
use crate::hexadecimal::is_hex_digit;
use crate::hexadecimal::is_hex_text;
use crate::hexadecimal::law_hex_round_trip;
use crate::node_id::node_id_of;
use crate::node_id::NodeIdError;
use crate::replication::ReplicateErrorView;
use crate::replication::CAP_FILE;
use crate::text::cut_at_equals;
use crate::text::is_white_space;
use crate::text::lemma_run_stops;
use crate::text::path_in;
use crate::text::run_length;
use crate::text::spaced;
use crate::text::words;
use crate::wire::spawn_of;
use crate::wire::sync_of;
use crate::wire::verdict;
use crate::wire::ReplyErrorView;
use crate::wire::RespView;
use vstd::prelude::*;

verus! {

/// Whether a code point is that of a hexadecimal digit.
pub open spec fn is_digit_code(code: int) -> bool {
    48 <= code <= 57 || 65 <= code <= 70 || 97 <= code <= 102
}

/// The value of the hexadecimal digit with a given code point.
pub open spec fn value_of_code(code: int) -> int {
    if code <= 57 {
        code - 48
    } else if code <= 70 {
        code - 55
    } else {
        code - 87
    }
}

/// Every byte is written as two digits of its own, none of them in upper case, that stand for its
/// sixteens and its ones.
pub proof fn law_every_byte_is_written(bytes: Seq<u8>, i: int)
    ensures
        hex_text(bytes).len() == 2 * bytes.len(),
        0 <= i < bytes.len() ==> {
            let high = hex_text(bytes)[2 * i] as int;
            let low = hex_text(bytes)[2 * i + 1] as int;
            &&& is_digit_code(high) && !(65 <= high <= 70)
            &&& is_digit_code(low) && !(65 <= low <= 70)
            &&& bytes[i] == 16 * value_of_code(high) + value_of_code(low)
        },
{
    assert((2 * i) / 2 == i && (2 * i + 1) / 2 == i);
    assert((2 * i) % 2 == 0 && (2 * i + 1) % 2 == 1);
}

/// A text can be read exactly if it is a whole number of pairs of digits, and each pair is read as
/// the byte that it stands for.
pub proof fn law_every_pair_is_read(text: Seq<char>, i: int)
    ensures
        is_hex_text(text) <==> text.len() % 2 == 0 && forall|j: int|
            0 <= j < text.len() ==> is_digit_code(#[trigger] text[j] as int),
        hex_bytes(text).len() == text.len() / 2,
        is_hex_text(text) && 0 <= i < text.len() / 2 ==> hex_bytes(text)[i] == 16 * value_of_code(
            text[2 * i] as int,
        ) + value_of_code(text[2 * i + 1] as int),
{
    assert(forall|c: char| is_hex_digit(c) <==> #[trigger] is_digit_code(c as int));
    if is_hex_text(text) {
        assert forall|j: int| 0 <= j < text.len() implies is_digit_code(
            #[trigger] text[j] as int,
        ) by {
            assert(is_hex_digit(text[j]));
        }
        if 0 <= i < text.len() / 2 {
            assert(is_hex_digit(text[2 * i]));
            assert(is_hex_digit(text[2 * i + 1]));
        }
    }
    if text.len() % 2 == 0 && forall|j: int|
        0 <= j < text.len() ==> is_digit_code(#[trigger] text[j] as int) {
        assert forall|j: int| 0 <= j < text.len() implies #[trigger] is_hex_digit(text[j]) by {
            assert(is_digit_code(text[j] as int));
        }
    }
}

/// A text is a node id exactly if it is 64 digits, and the id is then the 32 bytes that their pairs
/// stand for. A text that is not made of pairs of digits is refused as such, whatever its length,
/// and any other for its length.
pub proof fn law_node_ids_are_64_digits(text: Seq<char>, i: int)
    ensures
        ({
            let digits = forall|j: int|
                0 <= j < text.len() ==> is_digit_code(#[trigger] text[j] as int);
            &&& node_id_of(text) is Ok <==> text.len() == 64 && digits
            &&& node_id_of(text) matches Ok(id) ==> id.len() == 32 && (0 <= i < 32 ==> id[i] == 16
                * value_of_code(text[2 * i] as int) + value_of_code(text[2 * i + 1] as int))
            &&& node_id_of(text) == Err::<Seq<u8>, _>(NodeIdError::NotHex) <==> !digits
                || text.len() % 2 != 0
            &&& node_id_of(text) == Err::<Seq<u8>, _>(NodeIdError::WrongLength) <==> digits
                && text.len() % 2 == 0 && text.len() != 64
        }),
{
    law_every_pair_is_read(text, i);
}

/// A pair is cut at its first `=`, and nothing is lost on either side: whatever stands before the
/// first `=` is the name, and whatever stands after it the path, other `=` among it.
pub proof fn law_pair_is_cut_at_its_first_equals(name: Seq<char>, path: Seq<char>)
    requires
        !name.contains('='),
    ensures
        cut_at_equals(name + seq!['='] + path) == Some((name, path)),
        cut_at_equals(name) is None,
{
    let text = name + seq!['='] + path;
    let stop = |c: char| c == '=';
    let n = run_length(text, stop) as int;
    lemma_run_stops(text, stop);
    lemma_run_stops(name, stop);
    assert(text[name.len() as int] == '=');
    if n < name.len() {
        assert(text[n] == name[n]);
        assert(name.contains(name[n]));
    }
    if n > name.len() {
        assert(!stop(text[name.len() as int]));
    }
    if run_length(name, stop) < name.len() {
        assert(name.contains(name[run_length(name, stop) as int]));
    }
    assert(text.take(n) =~= name);
    assert(text.skip(n + 1) =~= path);
}

/// The code points of white space.
pub proof fn law_white_space_codes(c: char)
    ensures
        is_white_space(c) <==> {
            let code = c as int;
            ||| 9 <= code <= 13
            ||| code == 32
            ||| code == 133
            ||| code == 160
            ||| code == 5760
            ||| 8192 <= code <= 8202
            ||| code == 8232
            ||| code == 8233
            ||| code == 8239
            ||| code == 8287
            ||| code == 12288
        },
{
}

/// White space before the words of a line changes nothing.
pub proof fn law_white_space_is_skipped(c: char, rest: Seq<char>)
    requires
        is_white_space(c),
    ensures
        words(Seq::empty()) == Seq::<Seq<char>>::empty(),
        words(seq![c] + rest) == words(rest),
{
    let line = seq![c] + rest;
    assert(line.drop_first() =~= rest);
    assert(line[0] == c);
    assert(run_length(line, |x: char| is_white_space(x)) == 0);
}

/// A run of other characters, up to white space or the end of the line, is a word, whole; the words
/// after it are those of the rest of the line, all of them.
pub proof fn law_a_run_is_a_word(word: Seq<char>, rest: Seq<char>)
    requires
        word.len() > 0,
        forall|i: int| 0 <= i < word.len() ==> !is_white_space(#[trigger] word[i]),
        rest.len() > 0 ==> is_white_space(rest[0]),
    ensures
        words(word + rest) == seq![word] + words(rest),
        words(word + rest).len() == words(rest).len() + 1,
        words(word + rest)[0] == word,
        forall|i: int|
            0 <= i < words(rest).len() ==> words(word + rest)[i + 1] == #[trigger] words(rest)[i],
{
    let line = word + rest;
    let stop = |x: char| is_white_space(x);
    let n = run_length(line, stop) as int;
    lemma_run_stops(line, stop);
    if n < word.len() {
        assert(!is_white_space(word[n]));
        assert(line[n] == word[n]);
    }
    if n > word.len() {
        assert(!stop(line[word.len() as int]));
        assert(line[word.len() as int] == rest[0]);
    }
    assert(line.take(n) =~= word);
    assert(line.skip(n) =~= rest);
    assert(words(line) == seq![word] + words(rest));
}

/// Joined words keep every character, with one space between each two words.
pub proof fn law_one_more_word(list: Seq<Seq<char>>, word: Seq<char>)
    ensures
        spaced(Seq::empty()) == Seq::<char>::empty(),
        spaced(seq![word]) == word,
        list.len() > 0 ==> spaced(list.push(word)) == spaced(list) + seq![' '] + word,
{
    reveal_strlit(" ");
    assert(" "@ =~= seq![' ']);
    assert(list.push(word).drop_last() =~= list);
}

/// A path is the directory, a slash and the name.
pub proof fn law_path_is_directory_slash_name(dir: Seq<char>, name: Seq<char>)
    ensures
        path_in(dir, name) == dir + seq!['/'] + name,
{
    reveal_strlit("/");
    assert("/"@ =~= seq!['/']);
}

/// The name under which a capability is delivered.
pub proof fn law_capability_file_name()
    ensures
        CAP_FILE@ == "replicator.cap"@,
{
}

/// A request to write a file says where and on whose authority, and carries the file whole: two
/// digits for each byte, which are read back as exactly the bytes of the file, however many.
pub proof fn law_sync_carries_the_whole_file(
    node: Seq<char>,
    caps: Seq<char>,
    path: Seq<char>,
    data: Seq<u8>,
    i: int,
)
    ensures
        ({
            let call = sync_of(node, caps, path, data);
            &&& call.node == node
            &&& call.topic == "rdev/sync"@
            &&& call.timeout_ms == 120_000
            &&& call.what == "sync "@ + path
            &&& call.req.caps == caps
            &&& call.req.path == path
            &&& call.req.cmd is None
            &&& call.req.cwd is None
            &&& call.req.data_hex matches Some(text) && {
                &&& text.len() == 2 * data.len()
                &&& is_hex_text(text)
                &&& hex_bytes(text) == data
                &&& 0 <= i < data.len() ==> data[i] == 16 * value_of_code(text[2 * i] as int)
                    + value_of_code(text[2 * i + 1] as int)
                &&& 0 <= i < text.len() ==> is_digit_code(text[i] as int) && !(65 <= text[i] as int
                    <= 70)
            }
        }),
{
    law_hex_round_trip(data);
    law_every_byte_is_written(data, i);
    if 0 <= i < 2 * data.len() {
        law_every_byte_is_written(data, i / 2);
        assert(i == 2 * (i / 2) || i == 2 * (i / 2) + 1);
    }
}

/// A request to run a command says where and on whose authority, and carries the command whole:
/// every word of it, in its place.
pub proof fn law_spawn_carries_the_whole_command(
    node: Seq<char>,
    caps: Seq<char>,
    argv: Seq<Seq<char>>,
    cwd: Seq<char>,
)
    ensures
        ({
            let call = spawn_of(node, caps, argv, cwd);
            &&& call.node == node
            &&& call.topic == "rdev/spawn"@
            &&& call.timeout_ms == 60_000
            &&& call.what == "spawn "@ + spaced(argv)
            &&& call.req.caps == caps
            &&& call.req.path.len() == 0
            &&& call.req.data_hex is None
            &&& call.req.cwd == Some(cwd)
            &&& call.req.cmd matches Some(list) && {
                &&& list.len() == argv.len()
                &&& forall|i: int| 0 <= i < argv.len() ==> #[trigger] list[i] == argv[i]
            }
        }),
{
}

/// A request counts as carried out exactly if a reply was read and reports success. Otherwise the
/// error says why: the reason why no reply was read, or the request and the target's own words,
/// which are empty if it gave none.
pub proof fn law_success_is_what_the_target_reports(
    reply: Result<RespView, Seq<char>>,
    what: Seq<char>,
)
    ensures
        verdict(reply, what) is Ok <==> (reply matches Ok(resp) && resp.ok),
        reply matches Err(reason) ==> verdict(reply, what) == Err::<(), _>(
            ReplyErrorView::Unreadable(reason),
        ),
        reply matches Ok(resp) ==> !resp.ok ==> (verdict(reply, what) matches Err(error) && (
        error matches ReplyErrorView::Refused { what: request, error: words } && {
            &&& request == what
            &&& resp.error matches Some(given) ==> words == given
            &&& resp.error is None ==> words.len() == 0
        })),
{
}

/// An error in words holds all that the error does.
pub proof fn law_error_words(
    reason: Seq<char>,
    what: Seq<char>,
    refusal: DelegateError,
    error: ReplyErrorView,
)
    ensures
        ReplyErrorView::Unreadable(reason).text() == reason,
        (ReplyErrorView::Refused { what, error: reason }).text() == what + ": remote refused: "@
            + reason,
        ReplicateErrorView::NotAPair.text() == "--bin must be name=path"@,
        ReplicateErrorView::CannotRead(reason).text() == "read "@ + reason,
        ReplicateErrorView::Delegate(refusal).text() == refusal.text(),
        ReplicateErrorView::Reply(error).text() == error.text(),
        ReplicateErrorView::OutOfTurn.text() == "unexpected event"@,
        DelegateError::EmptyChain.text() == "empty capability chain"@,
        DelegateError::NotTheHolder.text()
            == "cannot delegate: the signing identity is not the audience of the held capability"@,
        DelegateError::NothingToDelegate.text()
            == "nothing to delegate: parent holds none of [\"sync\", \"spawn\"]"@,
        NodeIdError::NotHex.text() == "node id must be hex"@,
        NodeIdError::WrongLength.text() == "node id must be 32 bytes (64 hex chars)"@,
{
}

} // verus!
