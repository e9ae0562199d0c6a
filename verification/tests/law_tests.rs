use sneaky_mouse::config::{generate_default_cheese, Currency, UserData};
use sneaky_mouse::db::{add_new_cheese, create_user, parse_cheese_reply, parse_user_reply, CheeseParse, DbNote, UserParse};
use sneaky_mouse::pipe::{Arg, Pipe};
use sneaky_mouse::reply::Reply;
use sneaky_mouse::rules::{give_dest, give_src};
use sneaky_mouse::util::{check_user_saturating_currency, push_u64, to_i32, to_i64, to_u32, to_u64};

/// The bytes the database client sends for an argument.
fn sent(a: &Arg) -> Vec<u8> {
    match a {
        Arg::Bytes(b) => b.clone(),
        Arg::Int(i) => i.to_string().into_bytes(),
        Arg::Bool(b) => if *b { b"1".to_vec() } else { b"0".to_vec() },
        Arg::F32Bits(f) => f32::from_bits(*f).to_string().into_bytes(),
    }
}

/// The hash a hash-setting command stores, as the database gives it back.
fn stored_hash(args: &[Arg]) -> Reply {
    Reply::Bulk(args[2..].iter().map(|a| Reply::Data(sent(a))).collect())
}

#[test]
fn decimal_text_reads_back() {
    for n in [0u64, 7, 10, 4294967295, u64::MAX] {
        let mut m = Vec::new();
        push_u64(&mut m, n);
        assert_eq!(to_u64(&m), Some(n));
    }
    assert_eq!(to_u32(b"4294967296"), Some(u32::MAX));
    assert_eq!(to_i64(i64::MIN.to_string().as_bytes()), Some(-i64::MAX));
    assert_eq!(to_i64(b"-123"), Some(-123));
    assert_eq!(to_i32(b"-2147483647"), Some(-2147483647));
}

#[test]
fn a_stored_user_reads_back() {
    let user = UserData {
        screen_name: b"mami".to_vec(),
        hat: Some(b"cap".to_vec()),
        body: b"slim".to_vec(),
        cheese: -42,
        gems: 9000000000,
    };
    let mut p = Pipe::new();
    create_user(&mut p, b"tw:1", 3, &user);
    match parse_user_reply(&stored_hash(&p.cmds[1].args)) {
        UserParse::Found { user: back, notes } => {
            assert!(notes.is_empty());
            assert_eq!(back.screen_name, user.screen_name);
            assert_eq!(back.hat, user.hat);
            assert_eq!(back.body, user.body);
            assert_eq!((back.cheese, back.gems), (user.cheese, user.gems));
        },
        other => panic!("unexpected {:?}", other),
    }
}

#[test]
fn a_stored_cheese_reads_back_its_times_sizes_and_flags() {
    let mut c = generate_default_cheese();
    c.time_min = 1000;
    c.time_max = 2000;
    c.size = -7;
    c.original_size = 3;
    c.silent = true;
    c.exclusive = false;
    c.gems = 5;
    c.image = b"img".to_vec();
    c.radical_image = Some(b"rad".to_vec());
    let mut p = Pipe::new();
    add_new_cheese(&mut p, 12, &c);
    match parse_cheese_reply(&stored_hash(&p.cmds[0].args)) {
        CheeseParse::Parsed { cheese: back, notes } => {
            assert_eq!((back.time_min, back.time_max), (1000, 2000));
            assert_eq!((back.size, back.original_size), (-7, 3));
            assert_eq!((back.silent, back.exclusive), (true, false));
            assert_eq!(back.image, b"danipls".to_vec());
            assert_eq!(back.gems, 0);
            assert_eq!(back.radical_image, Some(b"danipls".to_vec()));
            assert!(matches!(&notes[0], DbNote::Unrecognized { name, .. } if name == b"radical-image"));
        },
        other => panic!("unexpected {:?}", other),
    }
}

#[test]
fn a_saturated_change_empties_the_balance_at_most() {
    let u = UserData { screen_name: vec![], hat: None, body: vec![], cheese: 10, gems: 0 };
    let (d, ok) = check_user_saturating_currency(&u, Currency::CHEESE, -20, -4);
    assert!(ok);
    assert_eq!(u.cheese - 4 + d as i64, 0);
}

#[test]
fn an_award_leaves_no_balance_negative() {
    let dest = UserData { screen_name: vec![], hat: None, body: vec![], cheese: 3, gems: 2 };
    let src = UserData { screen_name: vec![], hat: None, body: vec![], cheese: 50, gems: 4 };
    let keys: Vec<&[u8]> = vec![b"cheese-delta", b"gems-delta", b"cheese-cost", b"gem-cost"];
    let vals: Vec<&[u8]> = vec![b"100", b"3", b"10", b"1"];
    let (a, _) = give_dest(b"sm-cheese:give", b"1-0", &keys, &vals, b"saturate", &dest);
    assert!(a.proceed);
    let (p, _) = give_src(b"sm-cheese:give", b"1-0", &keys, &vals, &a, &src);
    assert!(p.proceed);
    assert_eq!(p.cheese_delta, 40);
    assert!(dest.cheese + p.cheese_delta as i64 >= 0);
    assert!(src.cheese - p.cheese_delta as i64 - p.cheese_cost as i64 >= 0);
    assert!(src.gems - a.gem_delta as i64 - p.gem_cost as i64 >= 0);
}
