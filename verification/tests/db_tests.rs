use sneaky_mouse::config::{generate_default_cheese, generate_default_user, Currency, UserData};
use sneaky_mouse::db::{
    add_new_cheese, create_user, daily_reset, get_cheese_from_id, get_cheese_from_uuid,
    get_cheese_step, get_last_reset_unix, get_or_create_user_from_id,
    get_or_create_user_from_id_step, get_user_from_id, get_user_from_id_step, get_user_from_uuid,
    incr_user_currency, is_cheese_reply_readable, is_user_reply_readable, make_cheese_data_key,
    make_cheese_id_key, make_cheese_key, make_user_key, new_cheese_uid, new_cheese_uid_step,
    note_message, parse_cheese_reply, parse_user_reply, queue_get_last_reset_unix, set_cheese,
    settle_cheese, CheeseFetch, CheeseParse, CreateUser, DbNote, LastReset, UserLookup, UserParse,
};
use sneaky_mouse::exchange::{Action, Input, Sub};
use sneaky_mouse::pipe::{Arg, Pipe};
use sneaky_mouse::reply::Reply;

fn render(p: &Pipe) -> Vec<(Vec<String>, bool)> {
    p.cmds
        .iter()
        .map(|c| {
            let args = c
                .args
                .iter()
                .map(|a| match a {
                    Arg::Bytes(b) => String::from_utf8_lossy(b).into_owned(),
                    Arg::Int(i) => format!("#{}", i),
                    Arg::Bool(b) => format!("?{}", b),
                    Arg::F32Bits(f) => format!("f{}", f),
                })
                .collect();
            (args, c.ignored)
        })
        .collect()
}

fn cmd(args: &[&str], ignored: bool) -> (Vec<String>, bool) {
    (args.iter().map(|s| s.to_string()).collect(), ignored)
}

fn data(s: &str) -> Reply {
    Reply::Data(s.as_bytes().to_vec())
}

fn hash(pairs: &[(&str, &str)]) -> Reply {
    let mut items = Vec::new();
    for (k, v) in pairs {
        items.push(data(k));
        items.push(data(v));
    }
    Reply::Bulk(items)
}

fn uid_from(reply: Reply) -> Option<u64> {
    let mut p = Pipe::new();
    match new_cheese_uid_step(&mut p, &generate_default_cheese(), &Ok(reply)) {
        Sub::Done(u) => Some(u),
        _ => None,
    }
}

#[test]
fn numbers_read_from_replies_as_the_client_does() {
    assert_eq!(uid_from(Reply::Int(5)), Some(5));
    assert_eq!(uid_from(Reply::Int(-1)), Some(u64::MAX));
    assert_eq!(uid_from(data("+12")), Some(12));
    assert_eq!(uid_from(data("12")), Some(12));
    assert_eq!(uid_from(data("12x")), None);
    assert_eq!(uid_from(data("")), None);
    assert_eq!(uid_from(Reply::Status(String::from("7"))), Some(7));
    assert_eq!(uid_from(Reply::Nil), None);
    assert_eq!(uid_from(Reply::Okay), None);
    assert_eq!(uid_from(Reply::Bulk(vec![Reply::Int(1)])), None);
}

#[test]
fn keys_are_prefixed_numbers() {
    assert_eq!(make_user_key(42), b"user:42".to_vec());
    assert_eq!(make_cheese_key(7), b"cheese:7".to_vec());
    assert_eq!(make_cheese_data_key(7), b"cheese-temp:7".to_vec());
    assert_eq!(make_cheese_id_key(b"gold"), b"cheese:gold".to_vec());
}

#[test]
fn parse_cheese_reads_fields_and_defaults() {
    let r = hash(&[("image", "img"), ("size", "5"), ("time-min", "1000"), ("silent", "true"), ("color", "red")]);
    assert!(is_cheese_reply_readable(&r));
    match parse_cheese_reply(&r) {
        CheeseParse::Parsed { cheese, notes } => {
            assert_eq!(cheese.image, b"img".to_vec());
            assert_eq!(cheese.radical_image, Some(b"danipls".to_vec()));
            assert_eq!((cheese.size, cheese.original_size, cheese.gems), (5, 5, 0));
            assert_eq!((cheese.time_min, cheese.time_max), (1000, 1000));
            assert_eq!((cheese.silent, cheese.exclusive, cheese.squirrel_mult_bits), (true, false, 0));
            assert_eq!(notes.len(), 1);
            match &notes[0] {
                DbNote::Unrecognized { name, val } => {
                    assert_eq!((name.as_slice(), val.as_slice()), (&b"color"[..], &b"red"[..]));
                },
                other => panic!("unexpected note {:?}", other),
            }
        },
        other => panic!("unexpected parse {:?}", other),
    }
}

#[test]
fn parse_cheese_null_radical_and_bad_values() {
    let r = hash(&[("radical", "null"), ("time-max", "x"), ("original-size", "9"), ("squirrel-mult", "1.5")]);
    match parse_cheese_reply(&r) {
        CheeseParse::Parsed { cheese, notes } => {
            assert_eq!(cheese.radical_image, None);
            assert_eq!((cheese.time_min, cheese.time_max), (240000, 300000));
            assert_eq!((cheese.size, cheese.original_size), (1, 9));
            assert_eq!(notes.len(), 2);
            assert!(matches!(&notes[0], DbNote::InvalidEntry { field: "time-max", val } if val == b"x"));
            assert!(matches!(&notes[1], DbNote::SquirrelMult { val } if val == b"1.5"));
        },
        other => panic!("unexpected parse {:?}", other),
    }
}

#[test]
fn parse_cheese_mismatch() {
    assert!(matches!(parse_cheese_reply(&Reply::Nil), CheeseParse::Mismatch { notes } if notes.is_empty()));
    let odd = Reply::Bulk(vec![data("size")]);
    assert!(matches!(parse_cheese_reply(&odd), CheeseParse::Mismatch { .. }));
    let broken = Reply::Bulk(vec![data("color"), data("red"), data("size"), Reply::Int(3)]);
    match parse_cheese_reply(&broken) {
        CheeseParse::Mismatch { notes } => {
            assert_eq!(notes.len(), 1);
            assert!(matches!(&notes[0], DbNote::Unrecognized { .. }));
        },
        other => panic!("unexpected parse {:?}", other),
    }
}

#[test]
fn cheese_reply_with_an_empty_size_is_not_readable() {
    assert!(!is_cheese_reply_readable(&hash(&[("size", "")])));
    assert!(is_cheese_reply_readable(&hash(&[("image", "")])));
    assert!(!is_user_reply_readable(&hash(&[("cheese", "")])));
}

#[test]
fn parse_user_found_and_not_found() {
    assert!(matches!(parse_user_reply(&Reply::Bulk(vec![])), UserParse::NotFound));
    assert!(matches!(parse_user_reply(&Reply::Nil), UserParse::Mismatch { .. }));
    let r = hash(&[("screen-name", "mami"), ("hat", "null"), ("cheese", "12"), ("gems", "x")]);
    match parse_user_reply(&r) {
        UserParse::Found { user, notes } => {
            assert_eq!(user.screen_name, b"mami".to_vec());
            assert_eq!(user.hat, None);
            assert_eq!(user.body, b"danipls".to_vec());
            assert_eq!((user.cheese, user.gems), (12, 0));
            assert_eq!(notes.len(), 2);
            assert!(matches!(&notes[0], DbNote::InvalidEntry { field: "gems", .. }));
            assert!(matches!(&notes[1], DbNote::MissingEntry { field: "body" }));
            assert_eq!(
                note_message(b"user:3", &notes[1]),
                "database warning: key 'user:3:body' had no value, will attempt to use default value"
            );
        },
        other => panic!("unexpected parse {:?}", other),
    }
}

#[test]
fn note_messages_text() {
    let n = DbNote::InvalidEntry { field: "size", val: b"q".to_vec() };
    assert_eq!(
        note_message(b"cheese:1", &n),
        "database warning: key 'cheese:1:size' had unexpected value 'q', will attempt to use default value"
    );
    let n = DbNote::Unrecognized { name: b"color".to_vec(), val: b"red".to_vec() };
    assert_eq!(
        note_message(b"cheese:1", &n),
        "database warning: key 'cheese:1:color' is not recognized as a valid database entry, it had value 'red', will ignore"
    );
}

#[test]
fn last_reset_reading() {
    assert!(matches!(get_last_reset_unix(&Ok(data("1640516400"))), LastReset::Time(1640516400)));
    match get_last_reset_unix(&Ok(data("soon"))) {
        LastReset::NotFound { warning: Some(w) } => assert_eq!(
            w,
            "database warning: key 'daily-reset-unix' had unexpected value 'soon', will attempt to use default value"
        ),
        other => panic!("unexpected {:?}", other),
    }
    assert!(matches!(get_last_reset_unix(&Ok(Reply::Nil)), LastReset::NotFound { warning: None }));
    assert!(matches!(get_last_reset_unix(&Ok(Reply::Int(3))), LastReset::Mismatch));
    assert!(matches!(get_last_reset_unix(&Err(())), LastReset::Fatal));
    let mut p = Pipe::new();
    queue_get_last_reset_unix(&mut p);
    assert_eq!(render(&p), vec![cmd(&["GET", "daily-reset-unix"], false)]);
}

#[test]
fn daily_reset_commands() {
    let mut p = Pipe::new();
    daily_reset(&mut p, 1640602800);
    assert_eq!(
        render(&p),
        vec![
            cmd(&["ZREMRANGEBYRANK", "daily-cheese-ranking", "#0", "#-1"], true),
            cmd(&["SET", "daily-reset-unix", "#1640602800"], true),
        ]
    );
}

#[test]
fn user_commands() {
    let mut p = Pipe::new();
    let mut u = generate_default_user(b"mami");
    u.hat = Some(b"cap".to_vec());
    create_user(&mut p, b"tw:1", 9, &u);
    let link = cmd(&["HSET", "user-uuid", "tw:1", "#9"], true);
    assert_eq!(
        render(&p),
        vec![
            link.clone(),
            cmd(&["HMSET", "user:9", "screen-name", "mami", "hat", "cap", "body", "danipls", "cheese", "#0", "gems", "#0"], true),
            link,
        ]
    );
}

#[test]
fn currency_commands() {
    let u = UserData { screen_name: b"m".to_vec(), hat: None, body: b"b".to_vec(), cheese: 10, gems: 2 };
    let mut p = Pipe::new();
    incr_user_currency(&mut p, 4, &u, Currency::CHEESE, -3);
    incr_user_currency(&mut p, 4, &u, Currency::GEMS, 5);
    incr_user_currency(&mut p, 4, &u, Currency::GEMS, 0);
    assert_eq!(
        render(&p),
        vec![
            cmd(&["HINCRBY", "user:4", "cheese", "#-3"], true),
            cmd(&["ZADD", "global-cheese-ranking", "#7", "user:4"], true),
            cmd(&["ZINCRBY", "daily-cheese-ranking", "#-3", "user:4"], true),
            cmd(&["HINCRBY", "user:4", "gems", "#5"], true),
            cmd(&["ZADD", "global-gems-ranking", "#7", "user:4"], true),
        ]
    );
}

fn cheese_args() -> Vec<&'static str> {
    vec![
        "radical-image", "danipls", "time-min", "#240000", "time-max", "#300000", "size", "#1",
        "original-size", "#1", "squirrel-mult", "f0", "silent", "?false", "exclusive", "?false",
    ]
}

#[test]
fn cheese_commands() {
    let c = generate_default_cheese();
    let mut p = Pipe::new();
    add_new_cheese(&mut p, 12, &c);
    set_cheese(&mut p, 12, &c);
    let mut hmset = vec!["HMSET", "cheese:12"];
    hmset.extend(cheese_args());
    assert_eq!(
        render(&p),
        vec![cmd(&hmset, true), cmd(&["EXPIRE", "cheese:12", "#18000"], true), cmd(&hmset, true)]
    );
}

#[test]
fn user_lookup_by_id() {
    let mut p = Pipe::new();
    let st = get_user_from_id(&mut p, b"tw:1");
    assert_eq!(render(&p), vec![cmd(&["HGET", "user-uuid", "tw:1"], false)]);
    let (sub, reports) = get_user_from_id_step(&mut p, st, &Ok(data("3")));
    assert!(reports.is_empty());
    assert_eq!(render(&p)[1], cmd(&["HGETALL", "user:3"], false));
    let st = match sub {
        Sub::Wait(st @ UserLookup::User { uuid: 3 }, Action::Flush) => st,
        other => panic!("unexpected {:?}", other),
    };
    let (sub, reports) = get_user_from_id_step(&mut p, st, &Ok(hash(&[("screen-name", "mami"), ("body", "b"), ("cheese", "4")])));
    assert!(reports.is_empty());
    match sub {
        Sub::Done(Some((3, u))) => assert_eq!((u.screen_name, u.cheese), (b"mami".to_vec(), 4)),
        other => panic!("unexpected {:?}", other),
    }
}

#[test]
fn user_lookup_missing_or_bad_number() {
    let mut p = Pipe::new();
    let st = get_user_from_id(&mut p, b"tw:1");
    let (sub, reports) = get_user_from_id_step(&mut p, st, &Ok(Reply::Nil));
    assert!(matches!(sub, Sub::Done(None)));
    assert!(reports.is_empty());
    let st = get_user_from_id(&mut p, b"tw:1");
    let (sub, reports) = get_user_from_id_step(&mut p, st, &Ok(data("abc")));
    assert!(matches!(sub, Sub::Done(None)));
    assert_eq!(
        reports,
        vec![String::from(
            "database warning: key 'user-uuid:tw:1' had unexpected value 'abc', was expecting a valid uuid, will attempt to use default value"
        )]
    );
    let st = get_user_from_id(&mut p, b"tw:1");
    let (sub, _) = get_user_from_id_step(&mut p, st, &Err(()));
    assert!(matches!(sub, Sub::Fatal));
}

#[test]
fn user_from_uuid_outcomes() {
    assert!(matches!(get_user_from_uuid(&Ok(Reply::Bulk(vec![])), 5).0, Sub::Done(None)));
    let (sub, _) = get_user_from_uuid(&Ok(Reply::Int(1)), 5);
    match sub {
        Sub::Abort(m) => assert_eq!(m, "fatal error: redis response does not match expected specification"),
        other => panic!("unexpected {:?}", other),
    }
    assert!(matches!(get_user_from_uuid(&Ok(hash(&[("cheese", "")])), 5).0, Sub::Panic(_)));
}

#[test]
fn create_user_when_none_is_stored() {
    let mut p = Pipe::new();
    let st = get_or_create_user_from_id(&mut p, b"tw:2", b"newbie");
    let (sub, _) = get_or_create_user_from_id_step(&mut p, st, &Ok(Reply::Nil));
    assert_eq!(render(&p)[1], cmd(&["INCRBY", "user-uuid-max", "#1"], false));
    let st = match sub {
        Sub::Wait(st @ CreateUser::Incr { .. }, Action::Flush) => st,
        other => panic!("unexpected {:?}", other),
    };
    let (sub, _) = get_or_create_user_from_id_step(&mut p, st, &Ok(Reply::Int(77)));
    match sub {
        Sub::Done((77, u)) => {
            assert_eq!((u.screen_name, u.body, u.cheese, u.gems), (b"newbie".to_vec(), b"danipls".to_vec(), 0, 0));
        },
        other => panic!("unexpected {:?}", other),
    }
    let cmds = render(&p);
    assert_eq!(cmds.len(), 5);
    assert_eq!(cmds[2], cmd(&["HSET", "user-uuid", "tw:2", "#77"], true));
}

#[test]
fn create_user_repairs_a_dangling_number() {
    let mut p = Pipe::new();
    let st = get_or_create_user_from_id(&mut p, b"tw:3", b"ghost");
    let (sub, _) = get_or_create_user_from_id_step(&mut p, st, &Ok(data("8")));
    let st = match sub {
        Sub::Wait(st @ CreateUser::User { uuid: 8, .. }, Action::Flush) => st,
        other => panic!("unexpected {:?}", other),
    };
    let (sub, reports) = get_or_create_user_from_id_step(&mut p, st, &Ok(Reply::Bulk(vec![])));
    assert!(matches!(sub, Sub::Done((8, _))));
    assert_eq!(
        reports,
        vec![String::from("database warning: key 'user-uuid:tw:3' had incorrect value '8', will attempt to repair entry")]
    );
}

#[test]
fn new_cheese_numbering() {
    let c = generate_default_cheese();
    let mut p = Pipe::new();
    new_cheese_uid(&mut p);
    assert_eq!(render(&p), vec![cmd(&["INCRBY", "cheese-uid-max", "#1"], false)]);
    assert!(matches!(new_cheese_uid_step(&mut p, &c, &Ok(Reply::Int(31))), Sub::Done(31)));
    assert_eq!(render(&p)[2], cmd(&["EXPIRE", "cheese:31", "#18000"], true));
    assert!(matches!(new_cheese_uid_step(&mut p, &c, &Ok(Reply::Nil)), Sub::Abort(_)));
    assert!(matches!(new_cheese_uid_step(&mut p, &c, &Err(())), Sub::Fatal));
}

#[test]
fn cheese_fetch_with_a_squirrel_multiplier() {
    let mut p = Pipe::new();
    let st = get_cheese_from_uuid(&mut p, 6);
    assert_eq!(render(&p), vec![cmd(&["HGETALL", "cheese-temp:6"], false)]);
    let r = hash(&[("squirrel-mult", "bad"), ("size", "3"), ("squirrel-mult", "2.5")]);
    let (sub, reports) = get_cheese_step(st, Input::Reply(Ok(r)));
    assert!(reports.is_empty());
    let (st, texts) = match sub {
        Sub::Wait(st @ CheeseFetch::Floats { .. }, Action::ReadFloats(t)) => (st, t),
        other => panic!("unexpected {:?}", other),
    };
    assert_eq!(texts, vec![Some(b"bad".to_vec()), Some(b"2.5".to_vec())]);
    let (sub, reports) = get_cheese_step(st, Input::Floats(vec![None, Some(2.5f32.to_bits())]));
    match sub {
        Sub::Done(c) => assert_eq!((c.size, c.squirrel_mult_bits), (3, 2.5f32.to_bits())),
        other => panic!("unexpected {:?}", other),
    }
    assert_eq!(
        reports,
        vec![String::from(
            "database warning: key 'cheese-temp:6:size' had unexpected value 'bad', will attempt to use default value"
        )]
    );
}

#[test]
fn cheese_fetch_without_floats_and_faults() {
    let mut p = Pipe::new();
    let st = get_cheese_from_id(&mut p, b"gold");
    assert_eq!(render(&p), vec![cmd(&["HGETALL", "cheese:gold"], false)]);
    let (sub, _) = get_cheese_step(st, Input::Reply(Ok(hash(&[("gems", "4")]))));
    assert!(matches!(sub, Sub::Done(c) if c.gems == 4));
    let st = get_cheese_from_id(&mut p, b"gold");
    assert!(matches!(get_cheese_step(st, Input::Reply(Err(()))).0, Sub::Fatal));
    let st = get_cheese_from_id(&mut p, b"gold");
    assert!(matches!(get_cheese_step(st, Input::Reply(Ok(Reply::Okay))).0, Sub::Abort(_)));
    let st = get_cheese_from_id(&mut p, b"gold");
    assert!(matches!(get_cheese_step(st, Input::Start).0, Sub::Panic(_)));
}

#[test]
fn settle_keeps_the_last_multiplier_that_reads() {
    let mut c = generate_default_cheese();
    let notes = vec![
        DbNote::SquirrelMult { val: b"1".to_vec() },
        DbNote::SquirrelMult { val: b"2".to_vec() },
        DbNote::SquirrelMult { val: b"z".to_vec() },
    ];
    let floats = vec![Some(1.0f32.to_bits()), Some(2.0f32.to_bits()), None];
    let reports = settle_cheese(&mut c, b"k", &notes, &floats);
    assert_eq!(c.squirrel_mult_bits, 2.0f32.to_bits());
    assert_eq!(
        reports,
        vec![String::from("database warning: key 'k:size' had unexpected value 'z', will attempt to use default value")]
    );
}
