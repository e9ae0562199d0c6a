use sneaky_mouse::config::{generate_default_cheese, LayerData, SneakyMouseServer, UserData};
use sneaky_mouse::pipe::Pipe;
use sneaky_mouse::rules::{
    clamp_i32, collect_increment, debug_line, f32_bits_is_zero, field_is_nonempty, find_cheese,
    find_room, give_dest, give_src, next_reset_unix, push_cheese, remove_cheese,
    saturating_add_i32, spawn_fields, spawn_size, GiveAmounts, HALF_I32_MAX,
};

fn user(cheese: i64, gems: i64) -> UserData {
    UserData { screen_name: b"mami".to_vec(), hat: None, body: b"danipls".to_vec(), cheese, gems }
}

fn server() -> SneakyMouseServer {
    SneakyMouseServer {
        db: LayerData { redis_address: String::from("redis://127.0.0.1/"), pipe: Pipe::new() },
        rng: rand_pcg::Lcg128Xsl64::new(0xcafef00dd15ea5e5, 0xa02bdbf7bb3c0a7ac28fa16a64abf96),
        cur_time_ms: 0,
        last_reset_otherwise_server_genisis_unix: 0,
        cheese_timeouts: Vec::new(),
        cheese_uids: Vec::new(),
        cheese_rooms: Vec::new(),
        cheese_ids: Vec::new(),
    }
}

fn invalid(field: &str, name: &str, uid: &str, fields: &str) -> String {
    format!(
        "invalid event error: field '{}' had an incorrect value, the event will still be attempted with default values, name:'{}' id:'{}' contents:{{{{\n{}\n}}}}",
        field, name, uid, fields
    )
}

#[test]
fn clamp_and_saturating_add() {
    assert_eq!(clamp_i32(5, 0, 3), 3);
    assert_eq!(clamp_i32(-5, 0, 3), 0);
    assert_eq!(clamp_i32(2, 0, 3), 2);
    assert_eq!(saturating_add_i32(i32::MAX, 1), i32::MAX);
    assert_eq!(saturating_add_i32(i32::MIN, -1), i32::MIN);
    assert_eq!(saturating_add_i32(40, 2), 42);
}

#[test]
fn field_is_nonempty_only_fails_on_an_empty_value() {
    let keys: Vec<&[u8]> = vec![b"a", b"b"];
    let vals: Vec<&[u8]> = vec![b"", b"1"];
    assert!(!field_is_nonempty("a", &keys, &vals));
    assert!(field_is_nonempty("b", &keys, &vals));
    assert!(field_is_nonempty("c", &keys, &vals));
}

#[test]
fn give_dest_cancel_strategy_accepts_a_gift() {
    let keys: Vec<&[u8]> = vec![b"cheese-delta", b"gems-delta"];
    let vals: Vec<&[u8]> = vec![b"100", b"5"];
    let (a, reports) = give_dest(b"sm-cheese:give", b"1-0", &keys, &vals, b"cancel", &user(0, 0));
    assert_eq!((a.cheese_delta, a.gem_delta, a.strat, a.proceed), (100, 5, 0, true));
    assert!(reports.is_empty());
}

#[test]
fn give_dest_cancel_strategy_refuses_an_uncovered_withdrawal() {
    let keys: Vec<&[u8]> = vec![b"cheese-delta"];
    let vals: Vec<&[u8]> = vec![b"-50"];
    let (a, _) = give_dest(b"sm-cheese:give", b"1-0", &keys, &vals, b"cancel", &user(20, 0));
    assert_eq!((a.cheese_delta, a.strat, a.proceed), (-50, 0, false));
}

#[test]
fn give_dest_saturate_strategy_cuts_the_withdrawal() {
    let keys: Vec<&[u8]> = vec![b"cheese-delta"];
    let vals: Vec<&[u8]> = vec![b"-50"];
    let (a, _) = give_dest(b"sm-cheese:give", b"1-0", &keys, &vals, b"saturate", &user(20, 0));
    assert_eq!((a.cheese_delta, a.gem_delta, a.strat, a.proceed), (-20, 0, 2, true));
}

#[test]
fn give_dest_overflow_strategy_lets_it_through() {
    let keys: Vec<&[u8]> = vec![b"cheese-delta"];
    let vals: Vec<&[u8]> = vec![b"-50"];
    let (a, _) = give_dest(b"sm-cheese:give", b"1-0", &keys, &vals, b"overflow", &user(20, 0));
    assert_eq!((a.cheese_delta, a.strat, a.proceed), (-50, 1, true));
}

#[test]
fn give_dest_refuses_uncovered_gems() {
    let keys: Vec<&[u8]> = vec![b"gems-delta"];
    let vals: Vec<&[u8]> = vec![b"-10"];
    let (a, _) = give_dest(b"sm-cheese:give", b"1-0", &keys, &vals, b"overflow", &user(0, 5));
    assert_eq!((a.gem_delta, a.proceed), (-10, false));
}

#[test]
fn give_dest_clamps_and_reports() {
    let keys: Vec<&[u8]> = vec![b"cheese-delta", b"gems-delta"];
    let vals: Vec<&[u8]> = vec![b"2000000000", b"abc"];
    let (a, reports) = give_dest(b"sm-cheese:give", b"7-1", &keys, &vals, b"u42", &user(0, 0));
    assert_eq!((a.cheese_delta, a.gem_delta, a.strat, a.proceed), (HALF_I32_MAX, 0, 0, true));
    let fields = "cheese-delta:2000000000,\ngems-delta:abc";
    assert_eq!(reports.len(), 2);
    assert_eq!(reports[0], invalid("gems-delta", "sm-cheese:give", "7-1", fields));
    assert_eq!(reports[1], invalid("dest-id", "sm-cheese:give", "7-1", fields));
}

fn amounts(cheese_delta: i32, gem_delta: i32, strat: u8) -> GiveAmounts {
    GiveAmounts { cheese_delta, gem_delta, strat, proceed: true }
}

#[test]
fn give_src_cancel_strategy() {
    let keys: Vec<&[u8]> = vec![b"cheese-cost"];
    let vals: Vec<&[u8]> = vec![b"10"];
    let (p, reports) = give_src(b"sm-cheese:give", b"1-0", &keys, &vals, &amounts(100, 0, 0), &user(200, 0));
    assert_eq!((p.cheese_delta, p.cheese_cost, p.gem_cost, p.proceed), (100, 10, 0, true));
    assert!(reports.is_empty());
    let (p, _) = give_src(b"sm-cheese:give", b"1-0", &keys, &vals, &amounts(100, 0, 0), &user(50, 0));
    assert_eq!((p.cheese_delta, p.proceed), (100, false));
}

#[test]
fn give_src_saturate_strategy() {
    let keys: Vec<&[u8]> = vec![b"cheese-cost"];
    let vals: Vec<&[u8]> = vec![b"10"];
    let (p, _) = give_src(b"sm-cheese:give", b"1-0", &keys, &vals, &amounts(100, 0, 2), &user(60, 0));
    assert_eq!((p.cheese_delta, p.cheese_cost, p.proceed), (50, 10, true));
    let (p, _) = give_src(b"sm-cheese:give", b"1-0", &keys, &vals, &amounts(100, 0, 2), &user(5, 0));
    assert_eq!((p.cheese_delta, p.proceed), (0, false));
}

#[test]
fn give_src_checks_gems_and_reports_bad_costs() {
    let keys: Vec<&[u8]> = vec![b"gem-cost", b"cheese-cost"];
    let vals: Vec<&[u8]> = vec![b"1", b"z"];
    let (p, reports) = give_src(b"sm-cheese:give", b"1-0", &keys, &vals, &amounts(0, 5, 1), &user(0, 5));
    assert_eq!((p.cheese_cost, p.gem_cost, p.proceed), (0, 1, false));
    assert_eq!(reports, vec![invalid("cheese-cost", "sm-cheese:give", "1-0", "gem-cost:1,\ncheese-cost:z")]);
}

#[test]
fn spawn_fields_defaults_are_kept() {
    let mut c = generate_default_cheese();
    let keys: Vec<&[u8]> = vec![];
    let vals: Vec<&[u8]> = vec![];
    let reports = spawn_fields(&mut c, b"sm-cheese:spawn", b"1-0", &keys, &vals);
    assert!(reports.is_empty());
    assert_eq!((c.time_min, c.time_max, c.size, c.original_size, c.gems), (240000, 300000, 1, 1, 0));
    assert_eq!(c.image, b"danipls".to_vec());
}

#[test]
fn spawn_fields_reorders_times() {
    let mut c = generate_default_cheese();
    let keys: Vec<&[u8]> = vec![b"time-min", b"time-max"];
    let vals: Vec<&[u8]> = vec![b"1000", b"500"];
    let reports = spawn_fields(&mut c, b"sm-cheese:spawn", b"1-0", &keys, &vals);
    assert_eq!((c.time_min, c.time_max), (500, 500));
    assert_eq!(reports, vec![invalid("time-min", "sm-cheese:spawn", "1-0", "time-min:1000,\ntime-max:500")]);
    let mut c = generate_default_cheese();
    let keys: Vec<&[u8]> = vec![b"time-min"];
    let vals: Vec<&[u8]> = vec![b"1000"];
    spawn_fields(&mut c, b"sm-cheese:spawn", b"1-0", &keys, &vals);
    assert_eq!((c.time_min, c.time_max), (1000, 1000));
}

#[test]
fn spawn_fields_sets_and_clamps() {
    let mut c = generate_default_cheese();
    let keys: Vec<&[u8]> = vec![b"size", b"gems", b"silent", b"exclusive", b"image", b"radical-image"];
    let vals: Vec<&[u8]> = vec![b"999999999", b"x", b"1", b"nope", b"img", b"rad"];
    let reports = spawn_fields(&mut c, b"sm-cheese:spawn", b"1-0", &keys, &vals);
    assert_eq!((c.size, c.original_size, c.gems, c.silent, c.exclusive), (555_555_555, 1, 0, true, false));
    assert_eq!(c.image, b"img".to_vec());
    assert_eq!(c.radical_image, Some(b"rad".to_vec()));
    let fields = "size:999999999,\ngems:x,\nsilent:1,\nexclusive:nope,\nimage:img,\nradical-image:rad";
    assert_eq!(
        reports,
        vec![invalid("gems", "sm-cheese:spawn", "1-0", fields), invalid("exclusive", "sm-cheese:spawn", "1-0", fields)]
    );
}

#[test]
fn spawn_fields_fills_a_zero_original_size() {
    let mut c = generate_default_cheese();
    c.original_size = 0;
    let keys: Vec<&[u8]> = vec![b"size"];
    let vals: Vec<&[u8]> = vec![b"-7"];
    spawn_fields(&mut c, b"sm-cheese:spawn", b"1-0", &keys, &vals);
    assert_eq!((c.size, c.original_size), (-7, -7));
}

#[test]
fn spawn_size_adds_saturates_and_clamps() {
    let keys: Vec<&[u8]> = vec![b"size-add"];
    let vals: Vec<&[u8]> = vec![b"5"];
    assert_eq!(spawn_size(10, b"e", b"1", &keys, &vals).0, 15);
    let vals: Vec<&[u8]> = vec![b"2147483647"];
    assert_eq!(spawn_size(10, b"e", b"1", &keys, &vals).0, 555_555_555);
    let none: Vec<&[u8]> = vec![];
    assert_eq!(spawn_size(600_000_000, b"e", b"1", &none, &none).0, 555_555_555);
    assert_eq!(spawn_size(-600_000_000, b"e", b"1", &none, &none).0, -555_555_555);
    let vals: Vec<&[u8]> = vec![b"q"];
    let (s, reports) = spawn_size(10, b"e", b"1", &keys, &vals);
    assert_eq!(s, 10);
    assert_eq!(reports, vec![invalid("size-add", "e", "1", "size-add:q")]);
}

#[test]
fn collect_increment_adds_the_bonus() {
    assert_eq!(collect_increment(5, None), 5);
    assert_eq!(collect_increment(5, Some(10)), 15);
    assert_eq!(collect_increment(5, Some(i32::MAX)), i32::MAX);
}

#[test]
fn f32_zero_by_bits() {
    assert!(f32_bits_is_zero(0.0f32.to_bits()));
    assert!(f32_bits_is_zero((-0.0f32).to_bits()));
    assert!(!f32_bits_is_zero(1.5f32.to_bits()));
    assert!(!f32_bits_is_zero(f32::MIN_POSITIVE.to_bits()));
}

#[test]
fn next_reset_is_the_following_reset_time() {
    assert_eq!(next_reset_unix(1640516400), Some(1640602800));
    assert_eq!(next_reset_unix(1640516399), Some(1640516400));
    assert_eq!(next_reset_unix(1640602801), Some(1640689200));
    assert_eq!(next_reset_unix(0), Some(39600));
    assert_eq!(next_reset_unix(-1), Some(39600));
    assert_eq!(next_reset_unix(-46801), Some(-46800));
    assert_eq!(next_reset_unix(-46800), Some(39600));
    assert_eq!(next_reset_unix(i64::MAX), None);
    assert_eq!(next_reset_unix(i64::MIN), None);
}

#[test]
fn debug_line_text() {
    let keys: Vec<&[u8]> = vec![b"a", b"b"];
    let vals: Vec<&[u8]> = vec![b"1", b"2"];
    assert_eq!(debug_line(b"5-0", &keys, &vals, "redis://x"), "debug event: 5-0 <a:1, b:2> redis://x\n");
    let none: Vec<&[u8]> = vec![];
    assert_eq!(debug_line(b"5-0", &none, &none, "redis://x"), "debug event: 5-0 <");
}

#[test]
fn cheese_list_find_push_remove() {
    let mut s = server();
    push_cheese(&mut s, 100, 1, b"roomA".to_vec(), 7);
    push_cheese(&mut s, 200, 2, b"roomB".to_vec(), 8);
    push_cheese(&mut s, 300, 3, b"roomA".to_vec(), 9);
    assert_eq!(find_room(&s, b"roomA"), Some(0));
    assert_eq!(find_room(&s, b"roomB"), Some(1));
    assert_eq!(find_room(&s, b"roomC"), None);
    assert_eq!(find_cheese(&s, 9, b"roomA"), Some(2));
    assert_eq!(find_cheese(&s, 9, b"roomB"), None);
    let (uid, room) = remove_cheese(&mut s, 0);
    assert_eq!((uid, room), (1, b"roomA".to_vec()));
    assert_eq!(s.cheese_uids, vec![3, 2]);
    assert_eq!(s.cheese_timeouts, vec![300, 200]);
    assert_eq!(s.cheese_ids, vec![9, 8]);
    assert_eq!(s.cheese_rooms, vec![b"roomA".to_vec(), b"roomB".to_vec()]);
    assert_eq!(find_room(&s, b"roomA"), Some(0));
}
