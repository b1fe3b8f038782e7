use replicator::text::join_path;
use replicator::text::join_words;
use replicator::text::split_pair;
use replicator::text::split_words;

fn strings(list: &[&str]) -> Vec<String> {
    list.iter().map(|s| s.to_string()).collect()
}

fn pair(name: &str, path: &str) -> Option<(String, String)> {
    Some((name.to_string(), path.to_string()))
}

#[test]
fn pairs_are_cut_at_the_first_equals_sign() {
    assert_eq!(split_pair("rdev=./rdev"), pair("rdev", "./rdev"));
    assert_eq!(split_pair("a=b=c"), pair("a", "b=c"));
    assert_eq!(split_pair("=x"), pair("", "x"));
    assert_eq!(split_pair("x="), pair("x", ""));
    assert_eq!(split_pair("é=ü"), pair("é", "ü"));
    assert_eq!(split_pair("rdev"), None);
    assert_eq!(split_pair(""), None);
}

#[test]
fn lines_are_split_at_any_amount_of_white_space() {
    assert_eq!(split_words("ce start --no-mine"), strings(&["ce", "start", "--no-mine"]));
    assert_eq!(split_words("  rdev\t\n serve "), strings(&["rdev", "serve"]));
    assert_eq!(split_words("é\u{a0}ü"), strings(&["é", "ü"]));
    assert_eq!(split_words(" \t"), strings(&[]));
    assert_eq!(split_words(""), strings(&[]));
}

#[test]
fn words_end_at_exactly_the_white_space_characters() {
    let mut white: Vec<u32> = Vec::new();
    for code in 0..=0x10ffffu32 {
        if let Some(c) = char::from_u32(code) {
            let mut line = "a".to_string();
            line.push(c);
            line.push('b');
            if split_words(&line).len() == 2 {
                white.push(code);
            }
        }
    }
    let mut expected: Vec<u32> = vec![9, 10, 11, 12, 13, 0x20, 0x85, 0xa0, 0x1680];
    expected.extend(0x2000..=0x200au32);
    expected.extend([0x2028u32, 0x2029, 0x202f, 0x205f, 0x3000]);
    assert_eq!(white, expected);
}

#[test]
fn words_are_joined_with_single_spaces() {
    assert_eq!(join_words(&strings(&[])), "");
    assert_eq!(join_words(&strings(&["ce"])), "ce");
    assert_eq!(join_words(&strings(&["ce", "start", "-v"])), "ce start -v");
}

#[test]
fn files_go_below_their_directory() {
    assert_eq!(join_path("replica", "rdev"), "replica/rdev");
    assert_eq!(join_path("", ""), "/");
}
