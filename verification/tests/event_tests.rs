use std::hash::Hasher;

use sneaky_mouse::config::{LayerData, SneakyMouseServer};
use sneaky_mouse::db::UserLookup;
use sneaky_mouse::event::{
    cheese_id_hash, get_event_list, server_event_received, server_shutdown, server_update, spawn_timeout,
    EventState, ShutdownState, UpdateState,
};
use sneaky_mouse::exchange::{Action, Input, Step};
use sneaky_mouse::pipe::{Arg, Pipe};
use sneaky_mouse::reply::Reply;
use sneaky_mouse::rules::push_cheese;

/// The clock's Unix time in the update tests.
const NOW: i64 = 1_700_000_000;

fn server() -> SneakyMouseServer {
    SneakyMouseServer {
        db: LayerData { redis_address: String::from("redis://127.0.0.1/"), pipe: Pipe::new() },
        rng: rand_pcg::Lcg128Xsl64::new(0xcafef00dd15ea5e5, 0xa02bdbf7bb3c0a7ac28fa16a64abf96),
        cur_time_ms: 0,
        last_reset_otherwise_server_genisis_unix: 4_000_000_000,
        cheese_timeouts: Vec::new(),
        cheese_uids: Vec::new(),
        cheese_rooms: Vec::new(),
        cheese_ids: Vec::new(),
    }
}

fn render(p: &Pipe) -> Vec<Vec<String>> {
    p.cmds
        .iter()
        .map(|c| {
            c.args
                .iter()
                .map(|a| match a {
                    Arg::Bytes(b) => String::from_utf8_lossy(b).into_owned(),
                    Arg::Int(i) => format!("#{}", i),
                    Arg::Bool(b) => format!("?{}", b),
                    Arg::F32Bits(f) => format!("f{}", f),
                })
                .collect()
        })
        .collect()
}

fn strs(args: &[&str]) -> Vec<String> {
    args.iter().map(|s| s.to_string()).collect()
}

fn data(s: &str) -> Reply {
    Reply::Data(s.as_bytes().to_vec())
}

fn hash(pairs: &[(&str, &str)]) -> Reply {
    let mut items = Vec::new();
    for (k, v) in pairs {
        items.push(data(k));
        items.push(data(v));
    }
    Reply::Bulk(items)
}

fn event(
    s: &mut SneakyMouseServer,
    name: &[u8],
    keys: &[&[u8]],
    vals: &[&[u8]],
    state: EventState,
    input: Input,
) -> (EventState, Step) {
    server_event_received(s, name, b"9-0", keys, vals, state, input)
}

#[test]
fn event_list_is_sorted() {
    assert_eq!(
        get_event_list(),
        vec![
            "debug:console",
            "sm-cheese:collect",
            "sm-cheese:despawn",
            "sm-cheese:give",
            "sm-cheese:request",
            "sm-cheese:spawn"
        ]
    );
    let mut sorted = get_event_list();
    sorted.sort();
    assert_eq!(sorted, get_event_list());
}

#[test]
fn cheese_id_hash_is_std_default_hasher() {
    let mut h = std::collections::hash_map::DefaultHasher::new();
    h.write(b"gold");
    assert_eq!(cheese_id_hash(b"gold"), h.finish());
    assert_ne!(cheese_id_hash(b"gold"), cheese_id_hash(b"silver"));
}

#[test]
fn debug_event_prints_a_line() {
    let mut s = server();
    let keys: Vec<&[u8]> = vec![b"msg"];
    let vals: Vec<&[u8]> = vec![b"hi"];
    let (st, step) = event(&mut s, b"debug:console", &keys, &vals, EventState::Start, Input::Start);
    assert!(matches!(st, EventState::Done));
    assert!(step.reports.is_empty());
    assert_eq!(step.prints, vec![String::from("debug event: 9-0 <msg:hi> redis://127.0.0.1/\n")]);
    assert!(matches!(step.action, Action::Finish(Ok(()))));
}

#[test]
fn unknown_event_stops_the_server() {
    let mut s = server();
    let none: Vec<&[u8]> = vec![];
    let (_, step) = event(&mut s, b"bogus", &none, &none, EventState::Start, Input::Start);
    match step.action {
        Action::Panic(m) => assert_eq!(
            m,
            "fatal error: we received an unrecognized event from redis, 'bogus', please check the events list\n"
        ),
        other => panic!("unexpected {:?}", other),
    }
}

#[test]
fn despawn_removes_the_rooms_cheese() {
    let mut s = server();
    push_cheese(&mut s, 1000, 1, b"roomA".to_vec(), 0);
    push_cheese(&mut s, 2000, 2, b"roomB".to_vec(), 0);
    let keys: Vec<&[u8]> = vec![b"room-id"];
    let vals: Vec<&[u8]> = vec![b"roomA"];
    let (st, step) = event(&mut s, b"sm-cheese:despawn", &keys, &vals, EventState::Start, Input::Start);
    assert!(matches!(step.action, Action::Flush));
    assert_eq!(s.cheese_uids, vec![2]);
    assert_eq!(render(&s.db.pipe), vec![strs(&["XADD", "sm-cheese:update", "*", "room-id", "roomA"])]);
    let (st, step) = event(&mut s, b"sm-cheese:despawn", &keys, &vals, st, Input::Reply(Ok(Reply::Okay)));
    assert!(matches!(st, EventState::Done));
    assert!(matches!(step.action, Action::Finish(Ok(()))));
}

#[test]
fn despawn_without_a_room_is_reported() {
    let mut s = server();
    let none: Vec<&[u8]> = vec![];
    let (_, step) = event(&mut s, b"sm-cheese:despawn", &none, &none, EventState::Start, Input::Start);
    assert_eq!(
        step.reports,
        vec![String::from(
            "invalid event error: missing critical field 'room-id', name:'sm-cheese:despawn' id:'9-0' contents:{{\n"
        )]
    );
    assert!(matches!(step.action, Action::Finish(Ok(()))));
    assert!(s.db.pipe.cmds.is_empty());
}

#[test]
fn give_without_a_payer_credits_the_receiver() {
    let mut s = server();
    let keys: Vec<&[u8]> = vec![b"dest-id", b"cheese-delta"];
    let vals: Vec<&[u8]> = vec![b"tw:1", b"10"];
    let name = b"sm-cheese:give";
    let (st, step) = event(&mut s, name, &keys, &vals, EventState::Start, Input::Start);
    assert!(matches!(step.action, Action::Flush));
    let (st, step) = event(&mut s, name, &keys, &vals, st, Input::Reply(Ok(data("3"))));
    assert!(matches!(step.action, Action::Flush));
    let user = hash(&[("screen-name", "mami"), ("body", "b"), ("cheese", "5")]);
    let (st, step) = event(&mut s, name, &keys, &vals, st, Input::Reply(Ok(user)));
    assert!(matches!(step.action, Action::Flush));
    assert_eq!(step.reports.len(), 1);
    assert!(step.reports[0].starts_with("invalid event error: field 'dest-id' had an incorrect value"));
    assert_eq!(
        render(&s.db.pipe),
        vec![
            strs(&["HGET", "user-uuid", "tw:1"]),
            strs(&["HGETALL", "user:3"]),
            strs(&["HINCRBY", "user:3", "cheese", "#10"]),
            strs(&["ZADD", "global-cheese-ranking", "#15", "user:3"]),
            strs(&["ZINCRBY", "daily-cheese-ranking", "#10", "user:3"]),
            strs(&["XADD", "sm-cheese:award", "*", "dest-id", "tw:1", "cheese-delta", "#10"]),
        ]
    );
    let (st, step) = event(&mut s, name, &keys, &vals, st, Input::Reply(Ok(Reply::Okay)));
    assert!(matches!(st, EventState::Done));
    assert!(matches!(step.action, Action::Finish(Ok(()))));
}

#[test]
fn give_to_an_unknown_user_is_reported() {
    let mut s = server();
    let keys: Vec<&[u8]> = vec![b"dest-id"];
    let vals: Vec<&[u8]> = vec![b"tw:9"];
    let name = b"sm-cheese:give";
    let (st, _) = event(&mut s, name, &keys, &vals, EventState::Start, Input::Start);
    let (st, step) = event(&mut s, name, &keys, &vals, st, Input::Reply(Ok(Reply::Nil)));
    assert!(matches!(st, EventState::Done));
    assert_eq!(step.reports.len(), 1);
    assert!(step.reports[0].starts_with("invalid event error: field 'dest-id' does not identify a known user"));
    assert!(matches!(step.action, Action::Finish(Ok(()))));
}

#[test]
fn spawn_of_the_default_cheese() {
    let mut s = server();
    let keys: Vec<&[u8]> = vec![b"room-id"];
    let vals: Vec<&[u8]> = vec![b"r1"];
    let name = b"sm-cheese:spawn";
    let (st, step) = event(&mut s, name, &keys, &vals, EventState::Start, Input::Start);
    assert!(matches!(step.action, Action::Flush));
    assert_eq!(render(&s.db.pipe), vec![strs(&["INCRBY", "cheese-uid-max", "#1"])]);
    let (st, step) = event(&mut s, name, &keys, &vals, st, Input::Reply(Ok(Reply::Int(40))));
    assert!(matches!(st, EventState::Done));
    assert!(matches!(step.action, Action::Finish(Ok(()))));
    assert_eq!(s.cheese_uids, vec![40]);
    assert_eq!(s.cheese_rooms, vec![b"r1".to_vec()]);
    assert_eq!(s.cheese_ids, vec![0]);
    assert!(240000 <= s.cheese_timeouts[0] && s.cheese_timeouts[0] <= 300000);
    let cmds = render(&s.db.pipe);
    assert_eq!(cmds.len(), 3);
    assert_eq!(cmds[1][0..2].to_vec(), strs(&["HMSET", "cheese:40"]));
    assert_eq!(cmds[2], strs(&["EXPIRE", "cheese:40", "#18000"]));
}

#[test]
fn spawn_scales_the_size_through_the_application() {
    let mut s = server();
    let keys: Vec<&[u8]> = vec![b"room-id", b"size", b"size-mult", b"size-add"];
    let vals: Vec<&[u8]> = vec![b"r1", b"4", b"2.5", b"1"];
    let name = b"sm-cheese:spawn";
    let (st, step) = event(&mut s, name, &keys, &vals, EventState::Start, Input::Start);
    match step.action {
        Action::ScaleSize { size, mult } => assert_eq!((size, mult), (4, b"2.5".to_vec())),
        other => panic!("unexpected {:?}", other),
    }
    let (st, step) = event(&mut s, name, &keys, &vals, st, Input::Scaled(Some(10)));
    assert!(matches!(step.action, Action::Flush));
    match &st {
        EventState::SpawnUid { cheese, .. } => assert_eq!(cheese.size, 11),
        other => panic!("unexpected {:?}", other),
    }
}

#[test]
fn spawn_with_an_empty_size_stops() {
    let mut s = server();
    let keys: Vec<&[u8]> = vec![b"room-id", b"size"];
    let vals: Vec<&[u8]> = vec![b"r1", b""];
    let (_, step) = event(&mut s, b"sm-cheese:spawn", &keys, &vals, EventState::Start, Input::Start);
    assert!(matches!(step.action, Action::Panic(_)));
}

#[test]
fn request_queues_the_user() {
    let mut s = server();
    let keys: Vec<&[u8]> = vec![b"user-id", b"user-name", b"room-id"];
    let vals: Vec<&[u8]> = vec![b"tw:5", b"neo", b"r2"];
    let name = b"sm-cheese:request";
    let (st, _) = event(&mut s, name, &keys, &vals, EventState::Start, Input::Start);
    let (st, _) = event(&mut s, name, &keys, &vals, st, Input::Reply(Ok(Reply::Nil)));
    let (st, step) = event(&mut s, name, &keys, &vals, st, Input::Reply(Ok(Reply::Int(12))));
    assert!(matches!(st, EventState::AwaitFinish));
    assert!(matches!(step.action, Action::Flush));
    let cmds = render(&s.db.pipe);
    assert_eq!(
        cmds.last().unwrap().clone(),
        strs(&["XADD", "sm-cheese:queue", "*", "room-id", "r2", "user-id", "tw:5", "user-name", "neo", "body", "danipls"])
    );
}

#[test]
fn collect_without_a_uuid_is_reported() {
    let mut s = server();
    let keys: Vec<&[u8]> = vec![b"cheese-uuid", b"user-id"];
    let vals: Vec<&[u8]> = vec![b"x", b"tw:1"];
    let (_, step) = event(&mut s, b"sm-cheese:collect", &keys, &vals, EventState::Start, Input::Start);
    assert_eq!(step.reports.len(), 2);
    assert!(step.reports[0].starts_with("invalid event error: field 'cheese-uuid' had an incorrect value"));
    assert!(step.reports[1].starts_with("invalid event error: missing critical field 'cheese-uuid'"));
    assert!(matches!(step.action, Action::Finish(Ok(()))));
}

#[test]
fn collect_credits_size_gems_and_bonus() {
    let mut s = server();
    let keys: Vec<&[u8]> = vec![b"cheese-uuid", b"user-id"];
    let vals: Vec<&[u8]> = vec![b"8", b"tw:1"];
    let name = b"sm-cheese:collect";
    let (st, _) = event(&mut s, name, &keys, &vals, EventState::Start, Input::Start);
    let (st, _) = event(&mut s, name, &keys, &vals, st, Input::Reply(Ok(data("3"))));
    let user = hash(&[("screen-name", "mami"), ("body", "b"), ("cheese", "100"), ("gems", "1")]);
    let (st, step) = event(&mut s, name, &keys, &vals, st, Input::Reply(Ok(user)));
    assert!(matches!(step.action, Action::Flush));
    let cheese = hash(&[("size", "5"), ("gems", "2"), ("squirrel-mult", "0.5")]);
    let (st, step) = event(&mut s, name, &keys, &vals, st, Input::Reply(Ok(cheese)));
    let st = match step.action {
        Action::ReadFloats(t) => {
            assert_eq!(t, vec![Some(b"0.5".to_vec())]);
            st
        },
        other => panic!("unexpected {:?}", other),
    };
    let (st, step) = event(&mut s, name, &keys, &vals, st, Input::Floats(vec![Some(0.5f32.to_bits())]));
    match step.action {
        Action::SquirrelBonus { cheese, mult_bits } => assert_eq!((cheese, mult_bits), (100, 0.5f32.to_bits())),
        other => panic!("unexpected {:?}", other),
    }
    let before = s.db.pipe.cmds.len();
    let (st, step) = event(&mut s, name, &keys, &vals, st, Input::Bonus(50));
    assert!(matches!(st, EventState::Done));
    assert!(matches!(step.action, Action::Finish(Ok(()))));
    let cmds = render(&s.db.pipe);
    assert_eq!(
        cmds[before..].to_vec(),
        vec![
            strs(&["HINCRBY", "user:3", "cheese", "#55"]),
            strs(&["ZADD", "global-cheese-ranking", "#155", "user:3"]),
            strs(&["ZINCRBY", "daily-cheese-ranking", "#55", "user:3"]),
            strs(&["HINCRBY", "user:3", "gems", "#2"]),
            strs(&["ZADD", "global-gems-ranking", "#3", "user:3"]),
        ]
    );
}

#[test]
fn a_despawn_without_a_room_removes_nothing() {
    let mut s = server();
    push_cheese(&mut s, 800, 1, b"".to_vec(), 0);
    let keys: Vec<&[u8]> = vec![b"user-id"];
    let vals: Vec<&[u8]> = vec![b"u1"];
    let (st, step) = event(&mut s, b"sm-cheese:despawn", &keys, &vals, EventState::Start, Input::Start);
    assert!(matches!(st, EventState::Done));
    assert!(matches!(step.action, Action::Finish(Ok(()))));
    assert_eq!(step.reports.len(), 1);
    assert_eq!(s.cheese_uids, vec![1]);
    assert!(s.db.pipe.cmds.is_empty());
}

#[test]
fn a_spawned_cheese_waits_its_drawn_time_cut_to_its_lifetime() {
    assert_eq!(spawn_timeout(240000), 240000);
    assert_eq!(spawn_timeout(17_995_000), 17_995_000);
    assert_eq!(spawn_timeout(17_995_001), 17_995_000);
    assert_eq!(spawn_timeout(u32::MAX), 17_995_000);
}

#[test]
fn a_number_read_leads_to_the_users_hash() {
    let mut s = server();
    let keys: Vec<&[u8]> = vec![b"dest-id"];
    let vals: Vec<&[u8]> = vec![b"tw:1"];
    let name = b"sm-cheese:give";
    let (st, _) = event(&mut s, name, &keys, &vals, EventState::Start, Input::Start);
    let (st, step) = event(&mut s, name, &keys, &vals, st, Input::Reply(Ok(data("12"))));
    assert!(matches!(step.action, Action::Flush));
    assert!(step.reports.is_empty());
    match st {
        EventState::GiveDest { dest_id, lookup: UserLookup::User { uuid } } => {
            assert_eq!(dest_id, b"tw:1".to_vec());
            assert_eq!(uuid, 12);
        },
        other => panic!("unexpected {:?}", other),
    }
    assert_eq!(render(&s.db.pipe)[1], strs(&["HGETALL", "user:12"]));
}

#[test]
fn a_lost_connection_ends_each_lookup_with_an_error() {
    let cases: Vec<(&[u8], Vec<&[u8]>, Vec<&[u8]>)> = vec![
        (b"sm-cheese:give", vec![b"dest-id"], vec![b"tw:1"]),
        (b"sm-cheese:collect", vec![b"cheese-uuid", b"user-id"], vec![b"7", b"tw:1"]),
        (b"sm-cheese:request", vec![b"user-id", b"user-name", b"room-id"], vec![b"tw:1", b"mami", b"r1"]),
        (b"sm-cheese:spawn", vec![b"room-id", b"cheese-id"], vec![b"r1", b"gouda"]),
    ];
    for (name, keys, vals) in cases.iter() {
        let mut s = server();
        let (st, step) = event(&mut s, name, keys, vals, EventState::Start, Input::Start);
        assert!(matches!(step.action, Action::Flush));
        let before = s.db.pipe.cmds.len();
        let (st, step) = event(&mut s, name, keys, vals, st, Input::Reply(Err(())));
        assert!(matches!(st, EventState::Done));
        assert!(matches!(step.action, Action::Finish(Err(()))));
        assert_eq!(s.db.pipe.cmds.len(), before);
    }
    let mut s = server();
    let keys: Vec<&[u8]> = vec![b"dest-id"];
    let vals: Vec<&[u8]> = vec![b"tw:1"];
    let (st, _) = event(&mut s, b"sm-cheese:give", &keys, &vals, EventState::Start, Input::Start);
    let (st, _) = event(&mut s, b"sm-cheese:give", &keys, &vals, st, Input::Reply(Ok(data("3"))));
    let (st, step) = event(&mut s, b"sm-cheese:give", &keys, &vals, st, Input::Reply(Err(())));
    assert!(matches!(st, EventState::Done));
    assert!(matches!(step.action, Action::Finish(Err(()))));
}

#[test]
fn a_reply_that_is_not_a_hash_stops_the_server() {
    let mismatch = "fatal error: redis response does not match expected specification";
    let mut s = server();
    let keys: Vec<&[u8]> = vec![b"dest-id"];
    let vals: Vec<&[u8]> = vec![b"tw:1"];
    let name = b"sm-cheese:give";
    let (st, _) = event(&mut s, name, &keys, &vals, EventState::Start, Input::Start);
    let (st, _) = event(&mut s, name, &keys, &vals, st, Input::Reply(Ok(data("3"))));
    let before = s.db.pipe.cmds.len();
    let (st, step) = event(&mut s, name, &keys, &vals, st, Input::Reply(Ok(Reply::Int(3))));
    assert!(matches!(st, EventState::Done));
    match step.action {
        Action::Abort(m) => assert_eq!(m, mismatch),
        other => panic!("unexpected {:?}", other),
    }
    assert_eq!(s.db.pipe.cmds.len(), before);
    let mut s = server();
    let keys: Vec<&[u8]> = vec![b"room-id", b"cheese-id"];
    let vals: Vec<&[u8]> = vec![b"r1", b"gouda"];
    let name = b"sm-cheese:spawn";
    let (st, _) = event(&mut s, name, &keys, &vals, EventState::Start, Input::Start);
    let before = s.db.pipe.cmds.len();
    let (st, step) = event(&mut s, name, &keys, &vals, st, Input::Reply(Ok(Reply::Int(3))));
    assert!(matches!(st, EventState::Done));
    match step.action {
        Action::Abort(m) => assert_eq!(m, mismatch),
        other => panic!("unexpected {:?}", other),
    }
    assert_eq!(s.db.pipe.cmds.len(), before);
}

#[test]
fn a_wrong_input_stops_the_event() {
    let mut s = server();
    let keys: Vec<&[u8]> = vec![b"room-id"];
    let vals: Vec<&[u8]> = vec![b"roomA"];
    let (st, _) = event(&mut s, b"sm-cheese:despawn", &keys, &vals, EventState::Start, Input::Start);
    let (_, step) = event(&mut s, b"sm-cheese:despawn", &keys, &vals, st, Input::Bonus(1));
    assert!(matches!(step.action, Action::Panic(_)));
}

#[test]
fn update_waits_for_the_next_cheese() {
    let mut s = server();
    push_cheese(&mut s, 800, 1, b"roomA".to_vec(), 0);
    push_cheese(&mut s, 5000, 2, b"roomB".to_vec(), 0);
    let (st, step) = server_update(&mut s, 500, NOW, UpdateState::Start, Input::Start);
    assert!(matches!(st, UpdateState::Done));
    assert!(matches!(step.action, Action::NextTimeout(300)));
    assert_eq!(s.cur_time_ms, 500);
    assert!(s.db.pipe.cmds.is_empty());
    let mut s = server();
    let (_, step) = server_update(&mut s, 10, NOW, UpdateState::Start, Input::Start);
    assert!(matches!(step.action, Action::NextTimeout(500)));
}

#[test]
fn update_removes_a_cheese_without_a_radical_form() {
    let mut s = server();
    push_cheese(&mut s, 800, 1, b"roomA".to_vec(), 0);
    let (st, step) = server_update(&mut s, 1000, NOW, UpdateState::Start, Input::Start);
    assert!(matches!(step.action, Action::Flush));
    assert!(s.cheese_uids.is_empty());
    assert_eq!(render(&s.db.pipe), vec![strs(&["HGETALL", "cheese-temp:1"])]);
    let (st, step) = server_update(&mut s, 0, NOW, st, Input::Reply(Ok(hash(&[("radical", "null")]))));
    assert!(matches!(step.action, Action::Flush));
    assert_eq!(render(&s.db.pipe)[1], strs(&["XADD", "sm-cheese:update", "*", "room-id", "roomA"]));
    let (st, step) = server_update(&mut s, 0, NOW, st, Input::Reply(Ok(Reply::Okay)));
    assert!(matches!(st, UpdateState::Done));
    assert!(matches!(step.action, Action::NextTimeout(500)));
}

#[test]
fn update_turns_a_cheese_radical() {
    let mut s = server();
    push_cheese(&mut s, 800, 1, b"roomA".to_vec(), 0);
    let (st, _) = server_update(&mut s, 1000, NOW, UpdateState::Start, Input::Start);
    let (st, step) = server_update(&mut s, 0, NOW, st, Input::Reply(Ok(hash(&[("radical", "rad"), ("size", "10")]))));
    match step.action {
        Action::Radicalize { size, mult_bits } => assert_eq!((size, mult_bits), (10, 0)),
        other => panic!("unexpected {:?}", other),
    }
    let (_, step) = server_update(&mut s, 0, NOW, st, Input::Radical { size: 11, mult_bits: 0 });
    assert!(matches!(step.action, Action::Flush));
    let cmds = render(&s.db.pipe);
    assert_eq!(cmds.len(), 3);
    assert_eq!(cmds[1][0..4].to_vec(), strs(&["HMSET", "cheese:1", "radical-image", "rad"]));
    assert!(cmds[1].contains(&String::from("#11")));
    assert_eq!(cmds[2][0..7].to_vec(), strs(&["XADD", "sm-cheese:update", "*", "cheese-uuid", "#1", "room-id", "roomA"]));
}

#[test]
fn update_runs_the_daily_reset_once_due() {
    let mut s = server();
    s.last_reset_otherwise_server_genisis_unix = 1640516400;
    let (_, step) = server_update(&mut s, 1, NOW, UpdateState::Start, Input::Start);
    assert!(matches!(step.action, Action::NextTimeout(500)));
    assert_eq!(s.last_reset_otherwise_server_genisis_unix, NOW);
    let cmds = render(&s.db.pipe);
    assert_eq!(cmds.len(), 2);
    assert_eq!(cmds[0], strs(&["ZREMRANGEBYRANK", "daily-cheese-ranking", "#0", "#-1"]));
    assert_eq!(cmds[1][0..2].to_vec(), strs(&["SET", "daily-reset-unix"]));
}

#[test]
fn update_resets_exactly_when_the_reset_time_has_passed() {
    // 1699959600 is a reset time (11:00 UTC); the next one is 1700046000.
    let mut s = server();
    s.last_reset_otherwise_server_genisis_unix = 1699959599;
    let _ = server_update(&mut s, 1, NOW, UpdateState::Start, Input::Start);
    assert_eq!(s.last_reset_otherwise_server_genisis_unix, NOW);
    assert_eq!(render(&s.db.pipe).len(), 2);
    let mut s = server();
    s.last_reset_otherwise_server_genisis_unix = 1699959600;
    let (_, step) = server_update(&mut s, 1, NOW, UpdateState::Start, Input::Start);
    assert!(matches!(step.action, Action::NextTimeout(500)));
    assert_eq!(s.last_reset_otherwise_server_genisis_unix, 1699959600);
    assert!(s.db.pipe.cmds.is_empty());
    let mut s = server();
    s.last_reset_otherwise_server_genisis_unix = 1699959600;
    let _ = server_update(&mut s, 1, 1700046000, UpdateState::Start, Input::Start);
    assert_eq!(s.last_reset_otherwise_server_genisis_unix, 1700046000);
}

#[test]
fn update_keeps_exactly_the_cheeses_not_yet_turned() {
    let mut s = server();
    push_cheese(&mut s, 800, 1, b"roomA".to_vec(), 0);
    push_cheese(&mut s, 5000, 2, b"roomB".to_vec(), 0);
    push_cheese(&mut s, 900, 3, b"roomC".to_vec(), 0);
    push_cheese(&mut s, 1000, 4, b"roomD".to_vec(), 0);
    let (mut st, mut step) = server_update(&mut s, 1000, NOW, UpdateState::Start, Input::Start);
    let mut turns = 0;
    loop {
        let input = match step.action {
            Action::NextTimeout(n) => {
                assert_eq!(n, 500);
                break;
            }
            Action::Flush => match st {
                UpdateState::Fetch { .. } => Input::Reply(Ok(hash(&[("radical", "null")]))),
                _ => Input::Reply(Ok(Reply::Okay)),
            },
            other => panic!("unexpected {:?}", other),
        };
        let (st2, step2) = server_update(&mut s, 0, NOW, st, input);
        st = st2;
        step = step2;
        turns += 1;
        assert!(turns < 20);
    }
    assert_eq!(s.cheese_uids, vec![2]);
    assert_eq!(s.cheese_timeouts, vec![5000]);
    assert_eq!(s.cheese_rooms, vec![b"roomB".to_vec()]);
}

#[test]
fn update_ends_with_an_error_on_a_lost_connection() {
    let mut s = server();
    push_cheese(&mut s, 800, 1, b"roomA".to_vec(), 0);
    push_cheese(&mut s, 900, 2, b"roomB".to_vec(), 0);
    let (st, step) = server_update(&mut s, 1000, NOW, UpdateState::Start, Input::Start);
    assert!(matches!(st, UpdateState::Fetch { .. }));
    assert!(matches!(step.action, Action::Flush));
    let (st, step) = server_update(&mut s, 0, NOW, st, Input::Reply(Ok(hash(&[("radical", "null")]))));
    assert!(matches!(st, UpdateState::Notify { .. }));
    assert!(matches!(step.action, Action::Flush));
    let (_, step) = server_update(&mut s, 0, NOW, st, Input::Reply(Err(())));
    assert!(matches!(step.action, Action::Finish(Err(()))));
}

#[test]
fn shutdown_despawns_each_room() {
    let mut s = server();
    push_cheese(&mut s, 800, 1, b"roomA".to_vec(), 0);
    push_cheese(&mut s, 900, 2, b"roomB".to_vec(), 0);
    let (st, step) = server_shutdown(&mut s, ShutdownState::Start, Input::Start);
    assert!(matches!(st, ShutdownState::Despawn { i: 0 }));
    assert!(matches!(step.action, Action::Flush));
    let (st, _) = server_shutdown(&mut s, st, Input::Reply(Ok(Reply::Okay)));
    assert!(matches!(st, ShutdownState::Despawn { i: 1 }));
    let (st, _) = server_shutdown(&mut s, st, Input::Reply(Ok(Reply::Okay)));
    assert!(matches!(st, ShutdownState::Flush));
    let (st, step) = server_shutdown(&mut s, st, Input::Reply(Ok(Reply::Okay)));
    assert!(matches!(st, ShutdownState::Done));
    assert!(matches!(step.action, Action::Finish(Ok(()))));
    assert_eq!(
        render(&s.db.pipe),
        vec![
            strs(&["XADD", "sm-cheese:update", "*", "room-id", "roomA"]),
            strs(&["XADD", "sm-cheese:update", "*", "room-id", "roomB"]),
        ]
    );
}
