use simple_redis::cmd::{extract_args, validate_command, ArgsCheckRule};
use simple_redis::{
    Backend, BulkString, Command, CommandError, CommandExecutor, RespArray, RespFrame, SAdd,
};

fn bulk(s: &str) -> RespFrame {
    Some(BulkString::new(s.to_string())).into()
}

fn request(words: &[&str]) -> RespArray {
    RespArray::new(words.iter().map(|w| bulk(w)).collect())
}

fn run(backend: &mut Backend, words: &[&str]) -> RespFrame {
    let frame: RespFrame = Some(request(words)).into();
    Command::try_from(frame).unwrap().execute(backend)
}

#[test]
fn test_sadd() {
    // sadd myset A B C C
    let frame: RespFrame = Some(RespArray::new(vec![
        Some(BulkString::new("sadd".to_string())).into(),
        Some(BulkString::new("myset".to_string())).into(),
        Some(BulkString::new("A".to_string())).into(),
        Some(BulkString::new("B".to_string())).into(),
        Some(BulkString::new("C".to_string())).into(),
        Some(BulkString::new("C".to_string())).into(),
    ]))
    .into();

    let sadd = Command::try_from(frame).unwrap();
    let ret = sadd.execute(&mut Backend::new());
    assert_eq!(ret, 3.into());
}

#[test]
fn duplicates_are_counted_once_and_the_set_holds_each_member() {
    let mut backend = Backend::new();
    let ret = run(&mut backend, &["sadd", "myset", "A", "B", "C", "C"]);
    assert_eq!(ret, RespFrame::Integer(3));
    let set = backend.get(&"myset".to_string()).unwrap();
    assert_eq!(set.len(), 3);
    assert!(set.contains(&bulk("A")));
    assert!(set.contains(&bulk("B")));
    assert!(set.contains(&bulk("C")));
    assert!(!set.contains(&bulk("D")));
    assert!(backend.get(&"other".to_string()).is_none());
}

#[test]
fn members_already_present_are_not_counted_again() {
    let mut backend = Backend::new();
    assert_eq!(run(&mut backend, &["sadd", "k", "A"]), RespFrame::Integer(1));
    assert_eq!(run(&mut backend, &["sadd", "k", "A"]), RespFrame::Integer(0));
    assert_eq!(run(&mut backend, &["sadd", "k", "A", "B"]), RespFrame::Integer(1));
    assert_eq!(backend.get(&"k".to_string()).unwrap().len(), 2);
}

#[test]
fn parsing_keeps_key_and_members_in_order() {
    let cmd = SAdd::try_from(request(&["sadd", "myset", "B", "A", "B"])).unwrap();
    assert_eq!(cmd.key, "myset");
    assert_eq!(cmd.members.0.len(), 3);
    assert_eq!(cmd.members.0[0], bulk("B"));
    assert_eq!(cmd.members.0[1], bulk("A"));
    assert_eq!(cmd.members.0[2], bulk("B"));
}

#[test]
fn members_keep_their_wrapping() {
    let nested: RespFrame = Some(RespArray::new(vec![RespFrame::Integer(7)])).into();
    let value = RespArray::new(vec![
        bulk("sadd"),
        bulk("k"),
        RespFrame::Null,
        RespFrame::Integer(1),
        RespFrame::BulkString(None),
        nested,
        RespFrame::Integer(1),
    ]);
    let cmd = SAdd::try_from(value).unwrap();
    assert_eq!(cmd.members.0.len(), 5);
    let mut backend = Backend::new();
    assert_eq!(cmd.execute(&mut backend), RespFrame::Integer(4));
    let set = backend.get(&"k".to_string()).unwrap();
    assert!(set.contains(&RespFrame::Null));
    assert!(set.contains(&RespFrame::BulkString(None)));
    assert!(!set.contains(&RespFrame::Array(None)));
    assert!(set.contains(&RespFrame::Array(Some(RespArray(vec![RespFrame::Integer(7)])))));
}

#[test]
fn a_key_of_several_bytes_per_character_is_decoded() {
    let cmd = SAdd::try_from(request(&["sadd", "clé", "x"])).unwrap();
    assert_eq!(cmd.key, "clé");
    assert_eq!(cmd.key.chars().count(), 3);
}

#[test]
fn missing_members_or_key_fail_validation() {
    for words in [&["sadd"][..], &["sadd", "k"][..]] {
        match SAdd::try_from(request(words)) {
            Err(CommandError::WrongNumberOfArguments(m)) => {
                assert_eq!(m, "wrong number of arguments")
            }
            other => panic!("unexpected: {:?}", other),
        }
    }
    assert!(matches!(
        SAdd::try_from(RespArray::new(vec![])),
        Err(CommandError::WrongNumberOfArguments(_))
    ));
    assert!(SAdd::try_from(request(&["sadd", "k", "A"])).is_ok());
}

#[test]
fn another_name_fails_conversion() {
    for name in ["SADD", "Sadd", "srem", "sad", "sadd ", ""] {
        match SAdd::try_from(request(&[name, "k", "A"])) {
            Err(CommandError::InvalidCommand(m)) => assert_eq!(m, "unknown command"),
            other => panic!("unexpected: {:?}", other),
        }
    }
    let value = RespArray::new(vec![RespFrame::Integer(1), bulk("k"), bulk("A")]);
    assert!(matches!(SAdd::try_from(value), Err(CommandError::InvalidCommand(_))));
    let value = RespArray::new(vec![RespFrame::BulkString(None), bulk("k"), bulk("A")]);
    assert!(matches!(SAdd::try_from(value), Err(CommandError::InvalidCommand(_))));
}

#[test]
fn a_key_that_is_no_present_bulk_string_is_an_invalid_argument() {
    let keys = vec![
        RespFrame::BulkString(None),
        RespFrame::Integer(5),
        RespFrame::Null,
        RespFrame::Array(None),
        RespFrame::Array(Some(RespArray::new(vec![bulk("k")]))),
    ];
    for key in keys {
        let value = RespArray::new(vec![bulk("sadd"), key, bulk("A")]);
        match SAdd::try_from(value) {
            Err(CommandError::InvalidArgument(m)) => assert_eq!(m, "Invalid sadd"),
            other => panic!("unexpected: {:?}", other),
        }
    }
}

#[test]
fn a_key_that_is_no_text_is_an_invalid_argument() {
    for bytes in [vec![0xff, 0xfe], vec![0x66, 0xff, 0x6f], vec![0xc3], vec![0xed, 0xa0, 0x80]] {
        let key = RespFrame::BulkString(Some(BulkString(bytes)));
        let value = RespArray::new(vec![bulk("sadd"), key, bulk("A")]);
        match SAdd::try_from(value) {
            Err(CommandError::InvalidArgument(m)) => {
                assert_eq!(m, "Invalid sadd: key is not valid UTF-8")
            }
            other => panic!("unexpected: {:?}", other),
        }
    }
}

#[test]
fn a_refused_key_leaves_the_keyspace_alone() {
    let mut backend = Backend::new();
    let key = RespFrame::BulkString(Some(BulkString(vec![0xff, 0xfe])));
    let frame: RespFrame = Some(RespArray::new(vec![bulk("sadd"), key, bulk("A")])).into();
    assert!(matches!(Command::try_from(frame), Err(CommandError::InvalidArgument(_))));
    assert_eq!(run(&mut backend, &["sadd", "k", "A"]), RespFrame::Integer(1));
    assert!(backend.get(&"\u{fffd}\u{fffd}".to_string()).is_none());
}

#[test]
fn an_empty_key_is_a_key() {
    let mut backend = Backend::new();
    assert_eq!(run(&mut backend, &["sadd", "", ""]), RespFrame::Integer(1));
    assert!(backend.get(&String::new()).unwrap().contains(&bulk("")));
}

#[test]
fn a_frame_that_is_no_present_array_is_no_command() {
    for frame in [RespFrame::Null, RespFrame::Integer(1), RespFrame::Array(None), bulk("sadd")] {
        match Command::try_from(frame) {
            Err(CommandError::InvalidCommand(m)) => assert_eq!(m, "command must be an array"),
            other => panic!("unexpected: {:?}", other),
        }
    }
}

#[test]
fn one_call_per_member_loses_no_update() {
    let members = ["m0", "m1", "m2", "m3", "m4", "m5", "m6", "m7"];
    let mut backend = Backend::new();
    let mut sum = 0;
    for m in members.iter().rev() {
        match run(&mut backend, &["sadd", "k", m]) {
            RespFrame::Integer(n) => sum += n,
            other => panic!("unexpected: {:?}", other),
        }
    }
    assert_eq!(sum, 8);
    let set = backend.get(&"k".to_string()).unwrap();
    assert_eq!(set.len(), 8);
    for m in members {
        assert!(set.contains(&bulk(m)));
    }
}

#[test]
fn calls_on_different_keys_do_not_meet() {
    let mut one = Backend::new();
    assert_eq!(run(&mut one, &["sadd", "a", "x", "y"]), RespFrame::Integer(2));
    assert_eq!(run(&mut one, &["sadd", "b", "x"]), RespFrame::Integer(1));
    let mut other = Backend::new();
    assert_eq!(run(&mut other, &["sadd", "b", "x"]), RespFrame::Integer(1));
    assert_eq!(run(&mut other, &["sadd", "a", "x", "y"]), RespFrame::Integer(2));
    for backend in [&one, &other] {
        assert_eq!(backend.get(&"a".to_string()).unwrap().len(), 2);
        assert_eq!(backend.get(&"b".to_string()).unwrap().len(), 1);
        assert!(!backend.get(&"b".to_string()).unwrap().contains(&bulk("y")));
    }
}

#[test]
fn running_without_members_still_makes_the_key() {
    let mut backend = Backend::new();
    let cmd = SAdd { key: "k".to_string(), members: RespArray::new(vec![]) };
    assert_eq!(cmd.execute(&mut backend), RespFrame::Integer(0));
    assert_eq!(backend.get(&"k".to_string()).unwrap().len(), 0);
}

#[test]
fn the_arity_rule_is_held_exactly_or_as_a_minimum() {
    let three = request(&["get", "a", "b"]);
    assert!(validate_command(&three, &["get"], 2, ArgsCheckRule::Equal).is_ok());
    assert!(validate_command(&three, &["get"], 2, ArgsCheckRule::EqualOrGreater).is_ok());
    assert!(validate_command(&three, &["get"], 1, ArgsCheckRule::EqualOrGreater).is_ok());
    assert!(matches!(
        validate_command(&three, &["get"], 1, ArgsCheckRule::Equal),
        Err(CommandError::WrongNumberOfArguments(_))
    ));
    assert!(matches!(
        validate_command(&three, &["get"], 3, ArgsCheckRule::EqualOrGreater),
        Err(CommandError::WrongNumberOfArguments(_))
    ));
    assert!(matches!(
        validate_command(&three, &["get"], usize::MAX, ArgsCheckRule::EqualOrGreater),
        Err(CommandError::WrongNumberOfArguments(_))
    ));
    assert!(validate_command(&three, &["set", "get"], 2, ArgsCheckRule::Equal).is_ok());
    assert!(matches!(
        validate_command(&three, &[], 2, ArgsCheckRule::Equal),
        Err(CommandError::InvalidCommand(_))
    ));
    assert!(matches!(
        validate_command(&three, &["set"], 1, ArgsCheckRule::Equal),
        Err(CommandError::WrongNumberOfArguments(_))
    ));
}

#[test]
fn arguments_are_the_elements_from_a_place_on() {
    let args = extract_args(request(&["a", "b", "c"]), 1).unwrap();
    assert_eq!(args.len(), 2);
    assert_eq!(args[0], bulk("b"));
    assert_eq!(args[1], bulk("c"));
    assert_eq!(extract_args(request(&["a", "b", "c"]), 0).unwrap().len(), 3);
    assert_eq!(extract_args(request(&["a", "b", "c"]), 3).unwrap().len(), 0);
    assert_eq!(extract_args(request(&["a", "b", "c"]), 9).unwrap().len(), 0);
}
