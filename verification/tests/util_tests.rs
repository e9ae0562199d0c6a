use sneaky_mouse::config::{Currency, UserData};
use sneaky_mouse::util::{
    bytes_eq, check_user_has_enough_currency, check_user_saturating_currency, find_field_bool,
    find_field_i32, find_field_u32, find_field_u64, find_field_u8s, invalid_value, is_str_null,
    missing_field, missing_user, push_kvs, push_u64, push_u64_prefix, push_u8s, to_bool, to_i32,
    to_i64, to_u32, to_u64, FieldParse,
};

fn user(cheese: i64, gems: i64) -> UserData {
    UserData { screen_name: b"mami".to_vec(), hat: None, body: b"danipls".to_vec(), cheese, gems }
}

#[test]
fn push_u64_writes_decimal_digits() {
    let mut mem = b"x".to_vec();
    push_u64(&mut mem, 0);
    assert_eq!(mem, b"x0".to_vec());
    let mut mem = Vec::new();
    push_u64(&mut mem, 1234567890);
    assert_eq!(mem, b"1234567890".to_vec());
    let mut mem = Vec::new();
    push_u64(&mut mem, u64::MAX);
    assert_eq!(mem, b"18446744073709551615".to_vec());
}

#[test]
fn push_u64_prefix_returns_the_appended_key() {
    let mut stack = b"ab".to_vec();
    let key = push_u64_prefix(&mut stack, "user:", 42);
    assert_eq!(key, b"user:42".to_vec());
    assert_eq!(stack, b"abuser:42".to_vec());
}

#[test]
fn push_u8s_appends_and_returns_a_copy() {
    let mut stack = b"ab".to_vec();
    let out = push_u8s(&mut stack, b"cd");
    assert_eq!(out, b"cd".to_vec());
    assert_eq!(stack, b"abcd".to_vec());
}

#[test]
fn to_u32_reads_digits_and_saturates() {
    assert_eq!(to_u32(b"123"), Some(123));
    assert_eq!(to_u32(b"007"), Some(7));
    assert_eq!(to_u32(b""), Some(0));
    assert_eq!(to_u32(b"12a"), None);
    assert_eq!(to_u32(b"-1"), None);
    assert_eq!(to_u32(b"4294967295"), Some(u32::MAX));
    assert_eq!(to_u32(b"99999999999"), Some(u32::MAX));
}

#[test]
fn to_u64_reads_digits_and_saturates() {
    assert_eq!(to_u64(b"18446744073709551615"), Some(u64::MAX));
    assert_eq!(to_u64(b"18446744073709551616"), Some(u64::MAX));
    assert_eq!(to_u64(b"42"), Some(42));
    assert_eq!(to_u64(b" 42"), None);
}

#[test]
fn to_i32_reads_a_sign_and_saturates() {
    assert_eq!(to_i32(b"-45"), Some(-45));
    assert_eq!(to_i32(b"45"), Some(45));
    assert_eq!(to_i32(b"-"), Some(0));
    assert_eq!(to_i32(b"99999999999"), Some(i32::MAX));
    assert_eq!(to_i32(b"-99999999999"), Some(-i32::MAX));
    assert_eq!(to_i32(b"4-5"), None);
    assert_eq!(to_i32(b"--1"), None);
    assert_eq!(to_i32(b"+1"), None);
}

#[test]
fn to_i64_reads_a_sign_and_saturates() {
    assert_eq!(to_i64(b"-9223372036854775807"), Some(-9223372036854775807));
    assert_eq!(to_i64(b"99999999999999999999"), Some(i64::MAX));
    assert_eq!(to_i64(b"-99999999999999999999"), Some(-i64::MAX));
    assert_eq!(to_i64(b"12x"), None);
}

#[test]
fn to_bool_accepts_words_and_digits() {
    assert_eq!(to_bool(b"true"), Some(true));
    assert_eq!(to_bool(b"1"), Some(true));
    assert_eq!(to_bool(b"false"), Some(false));
    assert_eq!(to_bool(b"0"), Some(false));
    assert_eq!(to_bool(b"TRUE"), None);
    assert_eq!(to_bool(b""), None);
}

#[test]
fn is_str_null_matches_empty_and_null() {
    assert!(is_str_null(b""));
    assert!(is_str_null(b"null"));
    assert!(!is_str_null(b"nul"));
    assert!(!is_str_null(b"NULL"));
}

#[test]
fn bytes_eq_compares_contents() {
    assert!(bytes_eq(b"abc", b"abc"));
    assert!(!bytes_eq(b"abc", b"abd"));
    assert!(!bytes_eq(b"abc", b"ab"));
}

#[test]
fn find_field_u8s_takes_the_first_match() {
    let keys: Vec<&[u8]> = vec![b"a", b"b", b"b"];
    let vals: Vec<&[u8]> = vec![b"1", b"2", b"3"];
    assert_eq!(find_field_u8s("b", &keys, &vals), Some(&b"2"[..]));
    assert_eq!(find_field_u8s("a", &keys, &vals), Some(&b"1"[..]));
    assert_eq!(find_field_u8s("c", &keys, &vals), None);
}

#[test]
fn find_field_parsers_tell_missing_from_invalid() {
    let keys: Vec<&[u8]> = vec![b"flag", b"n", b"big", b"neg", b"bad"];
    let vals: Vec<&[u8]> = vec![b"1", b"17", b"12345678901", b"-3", b"x"];
    assert_eq!(find_field_bool("flag", &keys, &vals), FieldParse::Found(true));
    assert_eq!(find_field_bool("bad", &keys, &vals), FieldParse::Invalid);
    assert_eq!(find_field_bool("none", &keys, &vals), FieldParse::Missing);
    assert_eq!(find_field_u32("n", &keys, &vals), FieldParse::Found(17));
    assert_eq!(find_field_u32("big", &keys, &vals), FieldParse::Found(u32::MAX));
    assert_eq!(find_field_u32("neg", &keys, &vals), FieldParse::Invalid);
    assert_eq!(find_field_u64("big", &keys, &vals), FieldParse::Found(12345678901));
    assert_eq!(find_field_i32("neg", &keys, &vals), FieldParse::Found(-3));
    assert_eq!(find_field_i32("bad", &keys, &vals), FieldParse::Invalid);
    assert_eq!(find_field_i32("none", &keys, &vals), FieldParse::Missing);
    assert_eq!(find_field_i32("n", &keys, &vals).value(), Some(17));
    assert_eq!(find_field_i32("bad", &keys, &vals).value(), None);
}

#[test]
fn saturating_currency_passes_gains_through() {
    let u = user(10, 3);
    assert_eq!(check_user_saturating_currency(&u, Currency::CHEESE, 5, -3), (5, true));
    assert_eq!(check_user_saturating_currency(&u, Currency::CHEESE, 0, 0), (0, true));
}

#[test]
fn saturating_currency_cuts_a_withdrawal_to_the_balance() {
    let u = user(10, 3);
    assert_eq!(check_user_saturating_currency(&u, Currency::CHEESE, -5, 0), (-5, true));
    assert_eq!(check_user_saturating_currency(&u, Currency::CHEESE, -20, 0), (-10, true));
    assert_eq!(check_user_saturating_currency(&u, Currency::CHEESE, -20, -4), (-6, true));
    assert_eq!(check_user_saturating_currency(&u, Currency::GEMS, -20, 0), (-3, true));
}

#[test]
fn saturating_currency_refuses_an_uncovered_cancel_delta() {
    let u = user(10, 3);
    assert_eq!(check_user_saturating_currency(&u, Currency::CHEESE, -5, -20), (0, false));
    assert_eq!(check_user_saturating_currency(&u, Currency::GEMS, 0, -4), (0, false));
}

#[test]
fn enough_currency_checks_the_balance() {
    let u = user(10, 3);
    assert!(check_user_has_enough_currency(&u, Currency::CHEESE, 5));
    assert!(check_user_has_enough_currency(&u, Currency::CHEESE, -10));
    assert!(!check_user_has_enough_currency(&u, Currency::CHEESE, -11));
    assert!(check_user_has_enough_currency(&u, Currency::GEMS, -3));
    assert!(!check_user_has_enough_currency(&u, Currency::GEMS, -4));
    let broke = user(-5, 0);
    assert!(check_user_has_enough_currency(&broke, Currency::CHEESE, 0));
    assert!(!check_user_has_enough_currency(&broke, Currency::CHEESE, -1));
}

#[test]
fn push_kvs_lists_the_fields() {
    let keys: Vec<&[u8]> = vec![b"a", b"b"];
    let vals: Vec<&[u8]> = vec![b"1", b"2"];
    let mut e = String::from("E");
    push_kvs(&mut e, &keys, &vals);
    assert_eq!(e, "E{{\na:1,\nb:2\n}}");
    let none: Vec<&[u8]> = vec![];
    let mut e = String::from("E");
    push_kvs(&mut e, &none, &none);
    assert_eq!(e, "E{{\n");
}

#[test]
fn push_kvs_replaces_invalid_utf8() {
    let keys: Vec<&[u8]> = vec![b"k"];
    let vals: Vec<&[u8]> = vec![b"\xffz"];
    let mut e = String::new();
    push_kvs(&mut e, &keys, &vals);
    assert_eq!(e, "{{\nk:\u{FFFD}z\n}}");
}

#[test]
fn invalid_value_report_text() {
    let keys: Vec<&[u8]> = vec![b"size"];
    let vals: Vec<&[u8]> = vec![b"x"];
    let r = invalid_value(b"sm-cheese:spawn", b"1-0", &keys, &vals, "size");
    assert_eq!(
        r,
        "invalid event error: field 'size' had an incorrect value, the event will still be attempted with default values, name:'sm-cheese:spawn' id:'1-0' contents:{{\nsize:x\n}}"
    );
}

#[test]
fn missing_user_report_text() {
    let keys: Vec<&[u8]> = vec![b"dest-id"];
    let vals: Vec<&[u8]> = vec![b"u1"];
    let r = missing_user(b"sm-cheese:give", b"2-0", &keys, &vals, "dest-id");
    assert_eq!(
        r,
        "invalid event error: field 'dest-id' does not identify a known user, event is cancelled, name:'sm-cheese:give' id:'2-0' contents:{{\ndest-id:u1\n}}"
    );
}

#[test]
fn missing_field_report_text() {
    let keys: Vec<&[u8]> = vec![];
    let vals: Vec<&[u8]> = vec![];
    let r = missing_field(b"sm-cheese:despawn", b"3-0", &keys, &vals, "room-id");
    assert_eq!(
        r,
        "invalid event error: missing critical field 'room-id', name:'sm-cheese:despawn' id:'3-0' contents:{{\n"
    );
}
