use bun_pty::environ::{find, parse_entry, Environment};

fn pairs(env: &Environment) -> Vec<(&str, &str)> {
    env.vars.iter().map(|(k, v)| (k.as_str(), v.as_str())).collect()
}

#[test]
fn block_of_two_entries() {
    let env = Environment::parse_block(b"A=1\0B=2\0\0");
    assert_eq!(pairs(&env), vec![("A", "1"), ("B", "2")]);
    assert_eq!(env.len(), 2);
    assert!(!env.is_empty());
    assert_eq!(env.get("A").map(|v| v.as_str()), Some("1"));
    assert_eq!(env.get("B").map(|v| v.as_str()), Some("2"));
    assert_eq!(env.get("C"), None);
}

#[test]
fn empty_block_sets_nothing() {
    assert!(Environment::parse_block(b"").is_empty());
    assert!(Environment::parse_block(b"\0").is_empty());
    assert!(Environment::parse_block(b"\0\0").is_empty());
    assert_eq!(Environment::parse_block(b"").len(), 0);
}

#[test]
fn empty_entry_ends_the_block() {
    let env = Environment::parse_block(b"A=1\0\0B=2\0\0");
    assert_eq!(pairs(&env), vec![("A", "1")]);
    let env = Environment::parse_block(b"\0A=1\0");
    assert!(env.is_empty());
}

#[test]
fn block_without_terminator_is_read_to_its_end() {
    let env = Environment::parse_block(b"A=1\0B=2");
    assert_eq!(pairs(&env), vec![("A", "1"), ("B", "2")]);
    let env = Environment::parse_block(b"A=1");
    assert_eq!(pairs(&env), vec![("A", "1")]);
    let env = Environment::parse_block(b"A=1\0");
    assert_eq!(pairs(&env), vec![("A", "1")]);
}

#[test]
fn later_entry_wins() {
    let env = Environment::parse_block(b"A=1\0B=2\0A=3\0\0");
    assert_eq!(env.len(), 2);
    assert_eq!(env.get("A").map(|v| v.as_str()), Some("3"));
    assert_eq!(env.get("B").map(|v| v.as_str()), Some("2"));
}

#[test]
fn entry_without_equals_is_passed_over() {
    let env = Environment::parse_block(b"NOVALUE\0A=1\0\0");
    assert_eq!(pairs(&env), vec![("A", "1")]);
}

#[test]
fn entry_with_empty_key_is_passed_over() {
    let env = Environment::parse_block(b"=oops\0A=1\0=\0\0");
    assert_eq!(pairs(&env), vec![("A", "1")]);
}

#[test]
fn value_may_be_empty_or_hold_equals() {
    let env = Environment::parse_block(b"EMPTY=\0URL=a=b=c\0\0");
    assert_eq!(pairs(&env), vec![("EMPTY", ""), ("URL", "a=b=c")]);
}

#[test]
fn entry_that_is_not_utf8_is_passed_over() {
    let env = Environment::parse_block(b"BAD=\xff\xfe\0A=1\0\xc3=x\0K\x80=v\0\0");
    assert_eq!(pairs(&env), vec![("A", "1")]);
}

#[test]
fn entries_may_hold_any_unicode() {
    let block = "GRÜSSE=héllo wörld\0名前=値\0EMOJI=🦀=🦀\0\0";
    let env = Environment::parse_block(block.as_bytes());
    assert_eq!(pairs(&env), vec![("GRÜSSE", "héllo wörld"), ("名前", "値"), ("EMOJI", "🦀=🦀")]);
    assert_eq!(env.get("名前").map(|v| v.as_str()), Some("値"));
}

#[test]
fn single_entry_is_split_at_the_first_equals() {
    assert_eq!(parse_entry(b"PATH=/bin:/usr/bin"), Some(("PATH".to_string(), "/bin:/usr/bin".to_string())));
    assert_eq!(parse_entry(b"A=="), Some(("A".to_string(), "=".to_string())));
    assert_eq!(parse_entry(b"A="), Some(("A".to_string(), String::new())));
    assert_eq!(parse_entry(b"=A"), None);
    assert_eq!(parse_entry(b"A"), None);
    assert_eq!(parse_entry(b""), None);
    assert_eq!(parse_entry(b"A=\xff"), None);
    assert_eq!(parse_entry(b"\xffA=1"), None);
}

#[test]
fn find_gives_the_first_match_or_the_length() {
    assert_eq!(find(b"abc=def=g", 0, b'='), 3);
    assert_eq!(find(b"abc=def=g", 3, b'='), 3);
    assert_eq!(find(b"abc=def=g", 4, b'='), 7);
    assert_eq!(find(b"abc=def=g", 8, b'='), 9);
    assert_eq!(find(b"abc=def=g", 9, b'='), 9);
    assert_eq!(find(b"abc", 0, 0), 3);
    assert_eq!(find(b"", 0, 0), 0);
    assert_eq!(find(b"\0", 0, 0), 0);
}

#[test]
fn insert_sets_and_replaces() {
    let mut env = Environment::new();
    assert!(env.is_empty());
    env.insert("A".to_string(), "1".to_string());
    env.insert("B".to_string(), "2".to_string());
    env.insert("A".to_string(), "3".to_string());
    assert_eq!(env.len(), 2);
    assert_eq!(pairs(&env), vec![("A", "3"), ("B", "2")]);
    assert_eq!(env.get("A").map(|v| v.as_str()), Some("3"));
    assert_eq!(env.get(""), None);
}
