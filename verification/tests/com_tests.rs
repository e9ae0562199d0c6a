use sneaky_mouse::com::{cheese_award, cheese_despawn, cheese_queue, cheese_update, connect_retry, save_cheese_to_pipe};
use sneaky_mouse::config::{generate_default_cheese, generate_default_user};
use sneaky_mouse::pipe::{Arg, Cmd, Pipe};

fn render_args(args: &[Arg]) -> Vec<String> {
    args.iter()
        .map(|a| match a {
            Arg::Bytes(b) => String::from_utf8_lossy(b).into_owned(),
            Arg::Int(i) => format!("#{}", i),
            Arg::Bool(b) => format!("?{}", b),
            Arg::F32Bits(f) => format!("f{}", f),
        })
        .collect()
}

fn render(p: &Pipe) -> Vec<(Vec<String>, bool)> {
    p.cmds.iter().map(|c: &Cmd| (render_args(&c.args), c.ignored)).collect()
}

fn strs(args: &[&str]) -> Vec<String> {
    args.iter().map(|s| s.to_string()).collect()
}

#[test]
fn queue_announcement_with_and_without_a_hat() {
    let mut p = Pipe::new();
    let mut u = generate_default_user(b"neo");
    cheese_queue(&mut p, b"r1", b"tw:1", &u);
    u.hat = Some(b"cap".to_vec());
    cheese_queue(&mut p, b"r1", b"tw:1", &u);
    let base = ["XADD", "sm-cheese:queue", "*", "room-id", "r1", "user-id", "tw:1", "user-name", "neo", "body", "danipls"];
    let mut with_hat = strs(&base);
    with_hat.extend(strs(&["hat", "cap"]));
    assert_eq!(render(&p), vec![(strs(&base), false), (with_hat, false)]);
}

#[test]
fn despawn_announcement() {
    let mut p = Pipe::new();
    cheese_despawn(&mut p, b"r9");
    assert_eq!(render(&p), vec![(strs(&["XADD", "sm-cheese:update", "*", "room-id", "r9"]), false)]);
}

#[test]
fn update_announcement_describes_the_cheese() {
    let mut p = Pipe::new();
    let mut c = generate_default_cheese();
    c.radical_image = None;
    c.squirrel_mult_bits = 1.5f32.to_bits();
    c.silent = true;
    cheese_update(&mut p, b"r1", 77, &c);
    let expected = strs(&[
        "XADD", "sm-cheese:update", "*", "cheese-uuid", "#77", "room-id", "r1", "radical-image", "null", "time-min",
        "#240000", "time-max", "#300000", "size", "#1", "original-size", "#1", "squirrel-mult",
    ]);
    let (args, ignored) = &render(&p)[0];
    assert!(!ignored);
    assert_eq!(args[..expected.len()].to_vec(), expected);
    assert_eq!(args[expected.len()..].to_vec(), vec![format!("f{}", 1.5f32.to_bits()), "silent".into(), "?true".into(), "exclusive".into(), "?false".into()]);
}

#[test]
fn cheese_arguments_are_appended_in_order() {
    let mut args: Vec<Arg> = vec![Arg::Int(1)];
    save_cheese_to_pipe(&mut args, &generate_default_cheese());
    assert_eq!(
        render_args(&args),
        strs(&[
            "#1", "radical-image", "danipls", "time-min", "#240000", "time-max", "#300000", "size", "#1", "original-size", "#1",
            "squirrel-mult", "f0", "silent", "?false", "exclusive", "?false",
        ])
    );
}

#[test]
fn award_announcement_leaves_out_zero_changes() {
    let mut p = Pipe::new();
    cheese_award(&mut p, b"tw:1", None, 0, 0);
    cheese_award(&mut p, b"tw:1", Some(b"tw:2"), -5, 3);
    assert_eq!(
        render(&p),
        vec![
            (strs(&["XADD", "sm-cheese:award", "*", "dest-id", "tw:1"]), false),
            (strs(&["XADD", "sm-cheese:award", "*", "dest-id", "tw:1", "src-id", "tw:2", "cheese-delta", "#-5", "gems-delta", "#3"]), false),
        ]
    );
}

#[test]
fn pipe_builds_commands() {
    let mut p = Pipe::new();
    p.cmd("PING");
    p.arg(Arg::Int(3));
    p.ignore();
    p.cmd("ECHO");
    assert_eq!(render(&p), vec![(strs(&["PING", "#3"]), true), (strs(&["ECHO"]), false)]);
    p.clear();
    assert!(p.cmds.is_empty());
}

#[test]
fn connection_is_tried_thirteen_times_over_a_minute() {
    assert_eq!(connect_retry(0), Some(5000));
    assert_eq!(connect_retry(55000), Some(60000));
    assert_eq!(connect_retry(60000), None);
    let mut waited = 0;
    let mut attempts = 1;
    while let Some(w) = connect_retry(waited) {
        waited = w;
        attempts += 1;
    }
    assert_eq!(attempts, 13);
    assert_eq!(waited, 60000);
}
