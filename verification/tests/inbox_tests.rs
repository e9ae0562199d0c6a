use sneaky_mouse::inbox::{
    event_index, queue_last_id, queue_last_ids, queue_xread, read_last_ids, read_stream_reply, ReadEnd, StreamRead,
};
use sneaky_mouse::pipe::{Arg, Pipe};
use sneaky_mouse::reply::Reply;

fn render(p: &Pipe) -> Vec<(Vec<String>, bool)> {
    p.cmds
        .iter()
        .map(|c| {
            let args = c
                .args
                .iter()
                .map(|a| match a {
                    Arg::Bytes(b) => String::from_utf8_lossy(b).into_owned(),
                    Arg::Int(i) => format!("#{}", i),
                    Arg::Bool(b) => format!("?{}", b),
                    Arg::F32Bits(f) => format!("f{}", f),
                })
                .collect();
            (args, c.ignored)
        })
        .collect()
}

fn strs(args: &[&str]) -> Vec<String> {
    args.iter().map(|s| s.to_string()).collect()
}

fn data(s: &str) -> Reply {
    Reply::Data(s.as_bytes().to_vec())
}

const STREAMS: [&str; 6] =
    ["debug:console", "sm-cheese:collect", "sm-cheese:despawn", "sm-cheese:give", "sm-cheese:request", "sm-cheese:spawn"];

#[test]
fn last_ids_request_names_every_stream() {
    let mut p = Pipe::new();
    queue_last_ids(&mut p);
    let mut expected = strs(&["HMGET", "last_id"]);
    expected.extend(strs(&STREAMS));
    assert_eq!(render(&p), vec![(expected, false)]);
}

#[test]
fn last_ids_default_when_absent() {
    let reply = Reply::Bulk(vec![data("5-1"), Reply::Nil]);
    assert_eq!(read_last_ids(&reply), Some(vec![b"5-1".to_vec(), b"0-0".to_vec()]));
    assert_eq!(read_last_ids(&Reply::Bulk(vec![data("5-1"), Reply::Int(3)])), None);
    assert_eq!(read_last_ids(&Reply::Nil), None);
}

#[test]
fn xread_request() {
    let mut p = Pipe::new();
    let ids: Vec<Vec<u8>> = STREAMS.iter().map(|_| b"0-0".to_vec()).collect();
    queue_xread(&mut p, &ids, 300);
    let mut expected = strs(&["XREAD", "BLOCK", "#300", "COUNT", "#55", "STREAMS"]);
    expected.extend(strs(&STREAMS));
    expected.extend(strs(&["0-0", "0-0", "0-0", "0-0", "0-0", "0-0"]));
    assert_eq!(render(&p), vec![(expected, false)]);
}

#[test]
fn last_id_record() {
    let mut p = Pipe::new();
    queue_last_id(&mut p, b"sm-cheese:give", b"9-0");
    assert_eq!(render(&p), vec![(strs(&["HMSET", "last_id", "sm-cheese:give", "9-0"]), true)]);
}

#[test]
fn event_index_finds_streams() {
    assert_eq!(event_index(b"debug:console"), Some(0));
    assert_eq!(event_index(b"sm-cheese:spawn"), Some(5));
    assert_eq!(event_index(b"sm-cheese:award"), None);
}

fn message(id: &str, fields: &[&str]) -> Reply {
    Reply::Bulk(vec![data(id), Reply::Bulk(fields.iter().map(|f| data(f)).collect())])
}

#[test]
fn stream_reply_gives_events_in_order() {
    let reply = Reply::Bulk(vec![
        Reply::Bulk(vec![
            data("sm-cheese:give"),
            Reply::Bulk(vec![message("1-0", &["dest-id", "tw:1", "extra"]), message("2-0", &[])]),
        ]),
        Reply::Bulk(vec![data("debug:console"), Reply::Bulk(vec![message("3-0", &["a", "b"])])]),
    ]);
    match read_stream_reply(&reply) {
        StreamRead::Events { events, end } => {
            assert_eq!(end, ReadEnd::Complete);
            assert_eq!(events.len(), 3);
            assert_eq!((events[0].stream.clone(), events[0].id.clone()), (b"sm-cheese:give".to_vec(), b"1-0".to_vec()));
            assert_eq!(events[0].keys, vec![b"dest-id".to_vec()]);
            assert_eq!(events[0].vals, vec![b"tw:1".to_vec()]);
            assert!(events[1].keys.is_empty());
            assert_eq!(events[2].stream, b"debug:console".to_vec());
        },
        other => panic!("unexpected {:?}", other),
    }
}

#[test]
fn stream_reply_stops_at_a_fault() {
    let reply = Reply::Bulk(vec![Reply::Bulk(vec![
        data("sm-cheese:give"),
        Reply::Bulk(vec![message("1-0", &["k", "v"]), Reply::Bulk(vec![Reply::Int(2)]), message("3-0", &[])]),
    ])]);
    match read_stream_reply(&reply) {
        StreamRead::Events { events, end } => {
            assert_eq!(end, ReadEnd::Mismatch);
            assert_eq!(events.len(), 1);
        },
        other => panic!("unexpected {:?}", other),
    }
    let short = Reply::Bulk(vec![Reply::Bulk(vec![data("sm-cheese:give")])]);
    assert!(matches!(read_stream_reply(&short), StreamRead::Events { end: ReadEnd::OutOfBounds, .. }));
    let bad_body = Reply::Bulk(vec![Reply::Bulk(vec![
        data("sm-cheese:give"),
        Reply::Bulk(vec![Reply::Bulk(vec![data("1-0"), Reply::Bulk(vec![data("k"), Reply::Nil])])]),
    ])]);
    assert!(matches!(read_stream_reply(&bad_body), StreamRead::Events { end: ReadEnd::Mismatch, .. }));
}

#[test]
fn stream_reply_timeout_and_other() {
    assert!(matches!(read_stream_reply(&Reply::Nil), StreamRead::Timeout));
    assert!(matches!(read_stream_reply(&Reply::Okay), StreamRead::Other));
}
