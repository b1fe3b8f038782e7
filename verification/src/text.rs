//! The small grammars of the command line: `name=path` pairs and lines of words.

use crate::abilities::texts;
use vstd::prelude::*;

verus! {

/// How many characters stand before the first one that `stop` picks, or all of them.
pub open spec fn run_length(text: Seq<char>, stop: spec_fn(char) -> bool) -> nat
    decreases text.len(),
{
    if text.len() == 0 || stop(text[0]) {
        0
    } else {
        1 + run_length(text.drop_first(), stop)
    }
}

/// The run is as long as `n` if the first character that is picked stands there.
proof fn lemma_run_length(text: Seq<char>, stop: spec_fn(char) -> bool, n: int)
    requires
        0 <= n <= text.len(),
        forall|i: int| 0 <= i < n ==> !stop(#[trigger] text[i]),
        n < text.len() ==> stop(text[n]),
    ensures
        run_length(text, stop) == n,
    decreases n,
{
    if n > 0 {
        let rest = text.drop_first();
        assert(!stop(text[0]));
        assert forall|i: int| 0 <= i < n - 1 implies !stop(#[trigger] rest[i]) by {
            assert(rest[i] == text[i + 1]);
        }
        lemma_run_length(rest, stop, n - 1);
    }
}

/// A run holds no character that is picked, and one follows it unless it is the whole text.
pub proof fn lemma_run_stops(text: Seq<char>, stop: spec_fn(char) -> bool)
    ensures
        run_length(text, stop) <= text.len(),
        forall|i: int| 0 <= i < run_length(text, stop) ==> !stop(#[trigger] text[i]),
        run_length(text, stop) < text.len() ==> stop(text[run_length(text, stop) as int]),
    decreases text.len(),
{
    if text.len() > 0 && !stop(text[0]) {
        let rest = text.drop_first();
        lemma_run_stops(rest, stop);
        assert forall|i: int| 0 <= i < run_length(text, stop) implies !stop(#[trigger] text[i]) by {
            if i > 0 {
                assert(rest[i - 1] == text[i]);
            }
        }
    }
}

/// The parts of a text before and after its first `=`, if it has one.
pub open spec fn cut_at_equals(text: Seq<char>) -> Option<(Seq<char>, Seq<char>)> {
    let n = run_length(text, |c: char| c == '=');
    if n < text.len() {
        Some((text.take(n as int), text.skip(n as int + 1)))
    } else {
        None
    }
}

/// Splits a `name=path` pair at its first `=`.
pub fn split_pair(pair: &str) -> (parts: Option<(String, String)>)
    ensures
        match parts {
            Some((name, path)) => cut_at_equals(pair@) == Some((name@, path@)),
            None => cut_at_equals(pair@) is None,
        },
{
    let len = pair.unicode_len();
    let ghost stop = |c: char| c == '=';
    let mut i: usize = 0;
    while i < len
        invariant
            i <= len,
            len == pair@.len(),
            stop == (|c: char| c == '='),
            forall|j: int| 0 <= j < i ==> pair@[j] != '=',
        decreases len - i,
    {
        if pair.get_char(i) == '=' {
            proof {
                lemma_run_length(pair@, stop, i as int);
            }
            let name = pair.substring_char(0, i).to_owned();
            let path = pair.substring_char(i + 1, len).to_owned();
            assert(name@ =~= pair@.take(i as int));
            assert(path@ =~= pair@.skip(i + 1));
            return Some((name, path));
        }
        i += 1;
    }
    proof {
        lemma_run_length(pair@, stop, len as int);
    }
    None
}

/// A pair is its two parts with an `=` between them, and there is none in the first part; a text
/// that is not a pair has no `=` at all.
pub proof fn law_pair_is_its_parts(text: Seq<char>)
    ensures
        match cut_at_equals(text) {
            Some((name, path)) => text == name + seq!['='] + path && !name.contains('='),
            None => !text.contains('='),
        },
{
    let stop = |c: char| c == '=';
    let n = run_length(text, stop) as int;
    lemma_run_stops(text, stop);
    if n < text.len() {
        let name = text.take(n);
        assert(text =~= name + seq!['='] + text.skip(n + 1));
        assert forall|i: int| 0 <= i < name.len() implies name[i] != '=' by {
            assert(!stop(text[i]));
        }
    } else {
        assert forall|i: int| 0 <= i < text.len() implies text[i] != '=' by {
            assert(!stop(text[i]));
        }
    }
}

/// The characters with the Unicode property `White_Space`.
pub open spec fn is_white_space(c: char) -> bool {
    ||| '\u{9}' <= c && c <= '\u{d}'
    ||| c == ' '
    ||| c == '\u{85}'
    ||| c == '\u{a0}'
    ||| c == '\u{1680}'
    ||| '\u{2000}' <= c && c <= '\u{200a}'
    ||| c == '\u{2028}'
    ||| c == '\u{2029}'
    ||| c == '\u{202f}'
    ||| c == '\u{205f}'
    ||| c == '\u{3000}'
}

/// `char::is_whitespace`: whether a character has the Unicode property `White_Space`.
pub assume_specification[ char::is_whitespace ](c: char) -> (white: bool)
    ensures
        white == is_white_space(c),
;

/// The words of a line: its longest runs of characters that are not white space, in order.
pub open spec fn words(line: Seq<char>) -> Seq<Seq<char>>
    decreases line.len(),
{
    let n = run_length(line, |c: char| is_white_space(c)) as int;
    if line.len() == 0 {
        Seq::empty()
    } else if n == 0 {
        words(line.drop_first())
    } else {
        proof {
            lemma_run_stops(line, |c: char| is_white_space(c));
        }
        seq![line.take(n)] + words(line.skip(n))
    }
}

/// A word is never empty and holds no white space.
pub proof fn law_words_hold_no_white_space(line: Seq<char>)
    ensures
        forall|i: int, j: int|
            0 <= i < words(line).len() && 0 <= j < words(line)[i].len() ==> !is_white_space(
                #[trigger] words(line)[i][j],
            ),
        forall|i: int| 0 <= i < words(line).len() ==> (#[trigger] words(line)[i]).len() > 0,
    decreases line.len(),
{
    let stop = |c: char| is_white_space(c);
    let n = run_length(line, stop) as int;
    lemma_run_stops(line, stop);
    if line.len() > 0 {
        if n == 0 {
            law_words_hold_no_white_space(line.drop_first());
            assert(words(line) == words(line.drop_first()));
        } else {
            let rest = words(line.skip(n));
            assert(words(line) == seq![line.take(n)] + rest);
            law_words_hold_no_white_space(line.skip(n));
            assert forall|i: int, j: int|
                0 <= i < words(line).len() && 0 <= j < words(line)[i].len() implies !is_white_space(
                #[trigger] words(line)[i][j],
            ) by {
                if i == 0 {
                    assert(!stop(line[j]));
                } else {
                    assert(words(line)[i] == rest[i - 1]);
                    assert(!is_white_space(rest[i - 1][j]));
                }
            }
            assert forall|i: int| 0 <= i < words(line).len() implies (
            #[trigger] words(line)[i]).len() > 0 by {
                if i > 0 {
                    assert(words(line)[i] == rest[i - 1]);
                }
            }
        }
    }
}

/// Only a line of nothing but white space has no words.
pub proof fn law_blank_line_has_no_words(line: Seq<char>)
    ensures
        words(line).len() == 0 <==> forall|i: int|
            0 <= i < line.len() ==> is_white_space(#[trigger] line[i]),
    decreases line.len(),
{
    let stop = |c: char| is_white_space(c);
    lemma_run_stops(line, stop);
    if line.len() > 0 {
        let rest = line.drop_first();
        law_blank_line_has_no_words(rest);
        assert(forall|i: int| 0 <= i < rest.len() ==> rest[i] == line[i + 1]);
        if stop(line[0]) {
            assert forall|i: int| 0 <= i < line.len() && words(line).len() == 0 implies is_white_space(
                #[trigger] line[i],
            ) by {
                if i > 0 {
                    assert(is_white_space(rest[i - 1]));
                }
            }
        } else {
            assert(!is_white_space(line[0]));
        }
    }
}

/// Splits a line into words at any amount of white space.
pub fn split_words(line: &str) -> (list: Vec<String>)
    ensures
        texts(list@) == words(line@),
{
    let len = line.unicode_len();
    let ghost stop = |c: char| is_white_space(c);
    let mut list: Vec<String> = Vec::new();
    let mut i: usize = 0;
    assert(line@.skip(0) =~= line@);
    assert(texts(list@) + words(line@) =~= words(line@));
    while i < len
        invariant
            i <= len,
            len == line@.len(),
            stop == (|c: char| is_white_space(c)),
            texts(list@) + words(line@.skip(i as int)) == words(line@),
        decreases len - i,
    {
        let ghost rest = line@.skip(i as int);
        if line.get_char(i).is_whitespace() {
            assert(rest.drop_first() =~= line@.skip(i + 1));
            i += 1;
        } else {
            let start: usize = i;
            i += 1;
            while i < len && !line.get_char(i).is_whitespace()
                invariant
                    start < i <= len,
                    len == line@.len(),
                    forall|j: int| start <= j < i ==> !is_white_space(line@[j]),
                ensures
                    start < i <= len,
                    forall|j: int| start <= j < i ==> !is_white_space(line@[j]),
                    i < len ==> is_white_space(line@[i as int]),
                decreases len - i,
            {
                i += 1;
            }
            let word = line.substring_char(start, i).to_owned();
            let ghost before = list@;
            let ghost n = i - start;
            proof {
                lemma_run_length(rest, stop, n);
                assert(word@ =~= rest.take(n));
                assert(line@.skip(i as int) =~= rest.skip(n));
            }
            list.push(word);
            assert(texts(list@) =~= texts(before).push(word@));
            assert(texts(list@) + words(rest.skip(n)) =~= texts(before) + (seq![word@] + words(
                rest.skip(n),
            )));
        }
    }
    assert(line@.skip(i as int) =~= Seq::empty());
    assert(texts(list@) + words(line@.skip(i as int)) =~= texts(list@));
    list
}

/// Words with a space between each two.
pub open spec fn spaced(list: Seq<Seq<char>>) -> Seq<char>
    decreases list.len(),
{
    if list.len() == 0 {
        Seq::empty()
    } else if list.len() == 1 {
        list[0]
    } else {
        spaced(list.drop_last()) + " "@ + list.last()
    }
}

/// Joins words with single spaces.
pub fn join_words(list: &[String]) -> (line: String)
    ensures
        line@ == spaced(texts(list@)),
{
    let mut line = String::new();
    let ghost all = texts(list@);
    let mut i: usize = 0;
    while i < list.len()
        invariant
            i <= list@.len(),
            all == texts(list@),
            line@ == spaced(all.take(i as int)),
        decreases list@.len() - i,
    {
        if i > 0 {
            line.append(" ");
        }
        line.append(list[i].as_str());
        assert(all.take(i + 1).drop_last() =~= all.take(i as int));
        i += 1;
    }
    assert(all.take(i as int) =~= all);
    line
}

/// A file in a directory.
pub open spec fn path_in(dir: Seq<char>, name: Seq<char>) -> Seq<char> {
    dir + "/"@ + name
}

/// The path of a file in a directory.
pub fn join_path(dir: &str, name: &str) -> (path: String)
    ensures
        path@ == path_in(dir@, name@),
{
    let mut path = dir.to_owned();
    path.append("/");
    path.append(name);
    path
}

} // verus!
