//! Reading the event streams: the requests that read them, how far each
//! stream has been read, and how the events are taken out of the reply.
use vstd::prelude::*;
use vstd::string::*;
use crate::config::{DEFAULT_LAST_ID, STREAM_READ_COUNT};
use crate::db::data_of;
use crate::event::{event_list, get_event_list};
use crate::key;
use crate::pipe::{Arg, ArgView, Cmd, CmdView, Pipe, bytes, kept, dropped, text, raw};
use crate::reply::Reply;
use crate::util::{bytes_eq, slice_to_vec, str_to_vec};

verus! {

// ---------------------------------------------------------------------------
// How far each stream has been read
// ---------------------------------------------------------------------------

/// Each event stream's name, as an argument.
pub open spec fn stream_args() -> Seq<ArgView> {
    event_list().map_values(|s: Seq<u8>| ArgView::Bytes(s))
}

/// The request for the id each stream was last read up to.
pub open spec fn last_ids_cmd() -> CmdView {
    kept(seq![bytes("HMGET"), bytes(key::LAST_ID)] + stream_args())
}

/// Appends each event stream's name to `args`.
fn push_stream_names(args: &mut Vec<Arg>)
    ensures
        crate::pipe::args_view(final(args)@) == crate::pipe::args_view(old(args)@) + stream_args(),
{
    let names = get_event_list();
    let ghost start = crate::pipe::args_view(args@);
    let mut i: usize = 0;
    while i < names.len()
        invariant
            i <= names@.len(),
            names@.map_values(|s: &str| s.spec_bytes()) == event_list(),
            crate::pipe::args_view(args@) == start + stream_args().take(i as int),
        decreases names@.len() - i,
    {
        let a = text(names[i]);
        let ghost av = a@;
        let ghost before = args@;
        args.push(a);
        proof {
            assert(names@.map_values(|s: &str| s.spec_bytes())[i as int] == names@[i as int].spec_bytes());
            assert(stream_args().take(i as int + 1) =~= stream_args().take(i as int).push(av));
            assert(crate::pipe::args_view(args@) =~= crate::pipe::args_view(before).push(av));
        }
        i = i + 1;
    }
    proof {
        assert(stream_args().take(i as int) =~= stream_args());
    }
}

/// Queues the request for the id each stream was last read up to.
pub fn queue_last_ids(pipe: &mut Pipe)
    ensures
        final(pipe)@ == old(pipe)@.push(last_ids_cmd()),
{
    let mut args: Vec<Arg> = Vec::new();
    args.push(text("HMGET"));
    args.push(text(key::LAST_ID));
    proof {
        assert(crate::pipe::args_view(args@) =~= seq![bytes("HMGET"), bytes(key::LAST_ID)]);
    }
    push_stream_names(&mut args);
    let c = Cmd { args, ignored: false };
    proof {
        assert(c@ =~= last_ids_cmd());
    }
    pipe.push(c);
}

/// The ids read from the reply to `last_ids_cmd`: one per stream, the
/// default id where none is stored; `None` when the reply is not a list of
/// strings and nils.
pub open spec fn spec_last_ids(reply: Reply) -> Option<Seq<Seq<u8>>> {
    match reply {
        Reply::Bulk(ids) => if forall|i: int| 0 <= i < ids@.len() ==> #[trigger] id_ok(ids@[i]) {
            Some(ids@.map_values(|r: Reply| last_id_of(r)))
        } else {
            None
        },
        _ => None,
    }
}

/// Whether an entry of the reply to `last_ids_cmd` is a string or a nil.
pub open spec fn id_ok(r: Reply) -> bool {
    r is Data || r is Nil
}

/// The id an entry of the reply to `last_ids_cmd` gives.
pub open spec fn last_id_of(r: Reply) -> Seq<u8> {
    if r is Data {
        data_of(r)
    } else {
        DEFAULT_LAST_ID.spec_bytes()
    }
}

pub open spec fn vecs_view(v: Seq<Vec<u8>>) -> Seq<Seq<u8>> {
    v.map_values(|x: Vec<u8>| x@)
}

/// Reads the ids each stream was last read up to (see `spec_last_ids`).
pub fn read_last_ids(reply: &Reply) -> (r: Option<Vec<Vec<u8>>>)
    ensures
        match spec_last_ids(*reply) {
            Some(ids) => r matches Some(v) && vecs_view(v@) == ids,
            None => r is None,
        },
{
    match reply {
        Reply::Bulk(ids) => read_ids(ids),
        _ => None,
    }
}

fn read_ids(ids: &Vec<Reply>) -> (r: Option<Vec<Vec<u8>>>)
    ensures
        (forall|i: int| 0 <= i < ids@.len() ==> #[trigger] id_ok(ids@[i])) ==> (r matches Some(v) && vecs_view(v@)
            == ids@.map_values(|r: Reply| last_id_of(r))),
        !(forall|i: int| 0 <= i < ids@.len() ==> #[trigger] id_ok(ids@[i])) ==> r is None,
{
    let mut out: Vec<Vec<u8>> = Vec::new();
    let mut i: usize = 0;
    while i < ids.len()
        invariant
            i <= ids@.len(),
            vecs_view(out@) == ids@.take(i as int).map_values(|r: Reply| last_id_of(r)),
            forall|j: int| 0 <= j < i ==> #[trigger] id_ok(ids@[j]),
        decreases ids@.len() - i,
    {
        let ghost before = out@;
        match &ids[i] {
            Reply::Data(d) => {
                out.push(slice_to_vec(d.as_slice()));
                proof {
                    assert(last_id_of(ids@[i as int]) == d@);
                }
            },
            Reply::Nil => {
                out.push(str_to_vec(DEFAULT_LAST_ID));
            },
            _ => {
                proof {
                    assert(!id_ok(ids@[i as int]));
                }
                return None;
            },
        }
        proof {
            assert(id_ok(ids@[i as int]));
            assert(vecs_view(out@) =~= vecs_view(before).push(last_id_of(ids@[i as int])));
            assert(ids@.take(i as int + 1).map_values(|r: Reply| last_id_of(r)) =~= ids@.take(i as int).map_values(
                |r: Reply| last_id_of(r),
            ).push(last_id_of(ids@[i as int])));
        }
        i = i + 1;
    }
    proof {
        assert(ids@.take(i as int) =~= ids@);
    }
    Some(out)
}

/// The command that records how far a stream has been read.
pub open spec fn last_id_cmd(stream: Seq<u8>, id: Seq<u8>) -> CmdView {
    dropped(seq![bytes("HMSET"), bytes(key::LAST_ID), ArgView::Bytes(stream), ArgView::Bytes(id)])
}

/// Queues the recording of how far a stream has been read.
pub fn queue_last_id(pipe: &mut Pipe, stream: &[u8], id: &[u8])
    ensures
        final(pipe)@ == old(pipe)@.push(last_id_cmd(stream@, id@)),
{
    let mut args: Vec<Arg> = Vec::new();
    args.push(text("HMSET"));
    args.push(text(key::LAST_ID));
    args.push(raw(stream));
    args.push(raw(id));
    let c = Cmd { args, ignored: true };
    proof {
        assert(c@ =~= last_id_cmd(stream@, id@));
    }
    pipe.push(c);
}

/// The request that waits at most `block_ms` milliseconds for the events
/// after the given ids, at most a fixed number from each stream.
pub open spec fn xread_cmd(last_ids: Seq<Seq<u8>>, block_ms: u64) -> CmdView {
    kept(seq![
        bytes("XREAD"),
        bytes("BLOCK"),
        ArgView::Int(block_ms as int),
        bytes("COUNT"),
        ArgView::Int(STREAM_READ_COUNT as int),
        bytes("STREAMS"),
    ] + stream_args() + last_ids.map_values(|s: Seq<u8>| ArgView::Bytes(s)))
}

/// Queues the reading of the events after the given ids.
pub fn queue_xread(pipe: &mut Pipe, last_ids: &Vec<Vec<u8>>, block_ms: u64)
    ensures
        final(pipe)@ == old(pipe)@.push(xread_cmd(vecs_view(last_ids@), block_ms)),
{
    let mut args: Vec<Arg> = Vec::new();
    args.push(text("XREAD"));
    args.push(text("BLOCK"));
    args.push(Arg::Int(block_ms as i128));
    args.push(text("COUNT"));
    args.push(Arg::Int(STREAM_READ_COUNT as i128));
    args.push(text("STREAMS"));
    let ghost head = crate::pipe::args_view(args@);
    push_stream_names(&mut args);
    let ghost mid = crate::pipe::args_view(args@);
    let mut i: usize = 0;
    while i < last_ids.len()
        invariant
            i <= last_ids@.len(),
            crate::pipe::args_view(args@) == mid + vecs_view(last_ids@).take(i as int).map_values(
                |s: Seq<u8>| ArgView::Bytes(s),
            ),
        decreases last_ids@.len() - i,
    {
        let a = raw(last_ids[i].as_slice());
        let ghost before = args@;
        let ghost av = a@;
        args.push(a);
        proof {
            assert(av == ArgView::Bytes(last_ids@[i as int]@));
            assert(crate::pipe::args_view(args@) =~= crate::pipe::args_view(before).push(av));
            assert(vecs_view(last_ids@)[i as int] == last_ids@[i as int]@);
            assert(vecs_view(last_ids@).take(i as int + 1).map_values(|s: Seq<u8>| ArgView::Bytes(s))
                =~= vecs_view(last_ids@).take(i as int).map_values(|s: Seq<u8>| ArgView::Bytes(s)).push(av));
        }
        i = i + 1;
    }
    let c = Cmd { args, ignored: false };
    proof {
        assert(vecs_view(last_ids@).take(i as int) =~= vecs_view(last_ids@));
        assert(c@ =~= xread_cmd(vecs_view(last_ids@), block_ms));
    }
    pipe.push(c);
}

/// The position of an event stream among `event_list`.
pub fn event_index(name: &[u8]) -> (r: Option<usize>)
    ensures
        match r {
            Some(i) => i < event_list().len() && event_list()[i as int] == name@,
            None => !event_list().contains(name@),
        },
{
    let names = get_event_list();
    let mut i: usize = 0;
    while i < names.len()
        invariant
            i <= names@.len(),
            names@.map_values(|s: &str| s.spec_bytes()) == event_list(),
            forall|j: int| 0 <= j < i ==> event_list()[j] != name@,
        decreases names@.len() - i,
    {
        proof {
            assert(names@.map_values(|s: &str| s.spec_bytes())[i as int] == names@[i as int].spec_bytes());
        }
        if bytes_eq(names[i].as_bytes(), name) {
            return Some(i);
        }
        i = i + 1;
    }
    None
}

// ---------------------------------------------------------------------------
// The events in a reply to `xread_cmd`
// ---------------------------------------------------------------------------

/// One event read from a stream: the stream, the event's id, and its fields.
#[derive(Debug)]
pub struct StreamEvent {
    pub stream: Vec<u8>,
    pub id: Vec<u8>,
    pub keys: Vec<Vec<u8>>,
    pub vals: Vec<Vec<u8>>,
}

pub struct EventItem {
    pub stream: Seq<u8>,
    pub id: Seq<u8>,
    pub keys: Seq<Seq<u8>>,
    pub vals: Seq<Seq<u8>>,
}

impl View for StreamEvent {
    type V = EventItem;

    open spec fn view(&self) -> EventItem {
        EventItem { stream: self.stream@, id: self.id@, keys: vecs_view(self.keys@), vals: vecs_view(self.vals@) }
    }
}

pub open spec fn items_view(v: Seq<StreamEvent>) -> Seq<EventItem> {
    v.map_values(|e: StreamEvent| e@)
}

/// How the reading of a reply ended: it was read whole, a part of it was
/// not of the expected kind, or a list was too short for the position read.
#[derive(Copy, Clone, PartialEq, Eq, Structural, Debug)]
pub enum ReadEnd {
    Complete,
    Mismatch,
    OutOfBounds,
}

/// The fields of an event body's first `n` pairs, and whether each is a
/// pair of strings (the fields stop before the first that is not).
pub open spec fn body_fields(body: Seq<Reply>, n: nat) -> (Seq<Seq<u8>>, Seq<Seq<u8>>, bool)
    decreases n,
{
    if n == 0 {
        (seq![], seq![], true)
    } else {
        let (k, v, ok) = body_fields(body, (n - 1) as nat);
        let i = 2 * (n - 1);
        if !ok {
            (k, v, false)
        } else if body[i] is Data && body[i + 1] is Data {
            (k.push(data_of(body[i])), v.push(data_of(body[i + 1])), true)
        } else {
            (k, v, false)
        }
    }
}

/// The event an entry of a stream's list gives: a list of the id and the
/// body, whose fields come in pairs (a last unpaired value is left out).
pub open spec fn message_item(stream: Seq<u8>, m: Reply) -> (Option<EventItem>, ReadEnd) {
    match m {
        Reply::Bulk(msg) => if msg@.len() == 0 {
            (None, ReadEnd::OutOfBounds)
        } else if !(msg@[0] is Data) {
            (None, ReadEnd::Mismatch)
        } else if msg@.len() < 2 {
            (None, ReadEnd::OutOfBounds)
        } else {
            match msg@[1] {
                Reply::Bulk(body) => {
                    let (k, v, ok) = body_fields(body@, (body@.len() / 2) as nat);
                    if ok {
                        (Some(EventItem { stream, id: data_of(msg@[0]), keys: k, vals: v }), ReadEnd::Complete)
                    } else {
                        (None, ReadEnd::Mismatch)
                    }
                },
                _ => (None, ReadEnd::Mismatch),
            }
        },
        _ => (None, ReadEnd::Mismatch),
    }
}

/// The events of a stream's first `n` entries, up to the first that does not read.
pub open spec fn message_items(stream: Seq<u8>, ms: Seq<Reply>, n: nat) -> (Seq<EventItem>, ReadEnd)
    decreases n,
{
    if n == 0 {
        (seq![], ReadEnd::Complete)
    } else {
        let (es, end) = message_items(stream, ms, (n - 1) as nat);
        if end != ReadEnd::Complete {
            (es, end)
        } else {
            match message_item(stream, ms[n - 1]) {
                (Some(x), _) => (es.push(x), ReadEnd::Complete),
                (None, e) => (es, e),
            }
        }
    }
}

/// The events of one stream's entry in the reply: a list of the stream's
/// name and the list of its events.
pub open spec fn stream_items(s: Reply) -> (Seq<EventItem>, ReadEnd) {
    match s {
        Reply::Bulk(sr) => if sr@.len() == 0 {
            (seq![], ReadEnd::OutOfBounds)
        } else if !(sr@[0] is Data) {
            (seq![], ReadEnd::Mismatch)
        } else if sr@.len() < 2 {
            (seq![], ReadEnd::OutOfBounds)
        } else {
            match sr@[1] {
                Reply::Bulk(ms) => message_items(data_of(sr@[0]), ms@, ms@.len()),
                _ => (seq![], ReadEnd::Mismatch),
            }
        },
        _ => (seq![], ReadEnd::Mismatch),
    }
}

/// The events of the first `n` streams of the reply, in order, up to where
/// the reading stopped.
pub open spec fn streams_items(ss: Seq<Reply>, n: nat) -> (Seq<EventItem>, ReadEnd)
    decreases n,
{
    if n == 0 {
        (seq![], ReadEnd::Complete)
    } else {
        let (es, end) = streams_items(ss, (n - 1) as nat);
        if end != ReadEnd::Complete {
            (es, end)
        } else {
            let (es2, e2) = stream_items(ss[n - 1]);
            (es + es2, e2)
        }
    }
}

/// What a reply to `xread_cmd` holds.
#[derive(Debug)]
pub enum StreamRead {
    /// The events read, in order, and how the reading ended.
    Events { events: Vec<StreamEvent>, end: ReadEnd },
    /// No event came before the wait ended.
    Timeout,
    /// A reply of another kind, which holds no event.
    Other,
}

fn read_body(body: &Vec<Reply>) -> (r: (Vec<Vec<u8>>, Vec<Vec<u8>>, bool))
    ensures
        (vecs_view(r.0@), vecs_view(r.1@), r.2) == body_fields(body@, (body@.len() / 2) as nat),
{
    let mut keys: Vec<Vec<u8>> = Vec::new();
    let mut vals: Vec<Vec<u8>> = Vec::new();
    let len = body.len();
    let n = len / 2;
    let mut i: usize = 0;
    while i < n
        invariant
            len == body@.len(),
            n == body@.len() / 2,
            i <= n,
            (vecs_view(keys@), vecs_view(vals@), true) == body_fields(body@, i as nat),
        decreases n - i,
    {
        let ghost k0 = keys@;
        let ghost v0 = vals@;
        assert(2 * i + 1 < body@.len());
        match (&body[2 * i], &body[2 * i + 1]) {
            (Reply::Data(k), Reply::Data(v)) => {
                keys.push(slice_to_vec(k.as_slice()));
                vals.push(slice_to_vec(v.as_slice()));
                proof {
                    assert(vecs_view(keys@) =~= vecs_view(k0).push(k@));
                    assert(vecs_view(vals@) =~= vecs_view(v0).push(v@));
                }
            },
            _ => {
                proof {
                    lemma_body_fields_stop(body@, i as nat, n as nat);
                }
                return (keys, vals, false);
            },
        }
        i = i + 1;
    }
    (keys, vals, true)
}

proof fn lemma_body_fields_stop(body: Seq<Reply>, k: nat, n: nat)
    requires
        k < n,
        body_fields(body, k).2,
        !(body[2 * k as int] is Data && body[2 * k as int + 1] is Data),
    ensures
        body_fields(body, n) == (body_fields(body, k).0, body_fields(body, k).1, false),
    decreases n,
{
    if n > k + 1 {
        lemma_body_fields_stop(body, k, (n - 1) as nat);
    }
}

fn read_message(stream: &[u8], m: &Reply) -> (r: (Option<StreamEvent>, ReadEnd))
    ensures
        match message_item(stream@, *m) {
            (Some(x), e) => r.0 matches Some(ev) && ev@ == x && r.1 == e,
            (None, e) => r.0 is None && r.1 == e,
        },
{
    match m {
        Reply::Bulk(msg) => {
            if msg.len() == 0 {
                return (None, ReadEnd::OutOfBounds);
            }
            let id = match &msg[0] {
                Reply::Data(id) => id,
                _ => {
                    return (None, ReadEnd::Mismatch);
                },
            };
            if msg.len() < 2 {
                return (None, ReadEnd::OutOfBounds);
            }
            match &msg[1] {
                Reply::Bulk(body) => {
                    let (keys, vals, ok) = read_body(body);
                    if ok {
                        let ev = StreamEvent { stream: slice_to_vec(stream), id: slice_to_vec(id.as_slice()), keys, vals };
                        (Some(ev), ReadEnd::Complete)
                    } else {
                        (None, ReadEnd::Mismatch)
                    }
                },
                _ => (None, ReadEnd::Mismatch),
            }
        },
        _ => (None, ReadEnd::Mismatch),
    }
}

fn read_messages(stream: &[u8], ms: &Vec<Reply>, out: &mut Vec<StreamEvent>) -> (r: ReadEnd)
    ensures
        items_view(final(out)@) == items_view(old(out)@) + message_items(stream@, ms@, ms@.len()).0,
        r == message_items(stream@, ms@, ms@.len()).1,
{
    let ghost start = items_view(out@);
    let mut i: usize = 0;
    while i < ms.len()
        invariant
            i <= ms@.len(),
            start == items_view(old(out)@),
            message_items(stream@, ms@, i as nat).1 == ReadEnd::Complete,
            items_view(out@) == start + message_items(stream@, ms@, i as nat).0,
        decreases ms@.len() - i,
    {
        let ghost o0 = out@;
        let (ev, end) = read_message(stream, &ms[i]);
        match ev {
            Some(e) => {
                let ghost x = e@;
                out.push(e);
                proof {
                    assert(items_view(out@) =~= items_view(o0).push(x));
                }
            },
            None => {
                proof {
                    lemma_message_items_stop(stream@, ms@, i as nat, ms@.len());
                    assert(out@ == o0);
                    assert(items_view(out@) == start + message_items(stream@, ms@, ms@.len()).0);
                }
                return end;
            },
        }
        i = i + 1;
    }
    ReadEnd::Complete
}

proof fn lemma_message_items_stop(stream: Seq<u8>, ms: Seq<Reply>, k: nat, n: nat)
    requires
        k < n,
        message_items(stream, ms, k).1 == ReadEnd::Complete,
        message_item(stream, ms[k as int]).0 is None,
    ensures
        message_items(stream, ms, n) == (message_items(stream, ms, k).0, message_item(stream, ms[k as int]).1),
    decreases n,
{
    if n > k + 1 {
        lemma_message_items_stop(stream, ms, k, (n - 1) as nat);
    }
}

fn read_stream(s: &Reply, out: &mut Vec<StreamEvent>) -> (r: ReadEnd)
    ensures
        items_view(final(out)@) == items_view(old(out)@) + stream_items(*s).0,
        r == stream_items(*s).1,
{
    proof {
        assert(items_view(out@) =~= items_view(out@) + seq![]);
    }
    match s {
        Reply::Bulk(sr) => {
            if sr.len() == 0 {
                return ReadEnd::OutOfBounds;
            }
            let name = match &sr[0] {
                Reply::Data(name) => name,
                _ => {
                    return ReadEnd::Mismatch;
                },
            };
            if sr.len() < 2 {
                return ReadEnd::OutOfBounds;
            }
            match &sr[1] {
                Reply::Bulk(ms) => read_messages(name.as_slice(), ms, out),
                _ => ReadEnd::Mismatch,
            }
        },
        _ => ReadEnd::Mismatch,
    }
}

/// Reads the events out of a reply to `xread_cmd`: a list with an entry
/// per stream (see `streams_items`), or a nil when the wait ended.
pub fn read_stream_reply(reply: &Reply) -> (r: StreamRead)
    ensures
        match *reply {
            Reply::Bulk(ss) => r matches StreamRead::Events { events, end } && items_view(events@) == streams_items(
                ss@,
                ss@.len(),
            ).0 && end == streams_items(ss@, ss@.len()).1,
            Reply::Nil => r is Timeout,
            _ => r is Other,
        },
{
    match reply {
        Reply::Bulk(ss) => read_streams(ss),
        Reply::Nil => StreamRead::Timeout,
        _ => StreamRead::Other,
    }
}

fn read_streams(ss: &Vec<Reply>) -> (r: StreamRead)
    ensures
        r matches StreamRead::Events { events, end } && items_view(events@) == streams_items(ss@, ss@.len()).0
            && end == streams_items(ss@, ss@.len()).1,
{
    let mut out: Vec<StreamEvent> = Vec::new();
    let mut i: usize = 0;
    proof {
        assert(items_view(out@) =~= seq![]);
    }
    while i < ss.len()
        invariant
            i <= ss@.len(),
            streams_items(ss@, i as nat).1 == ReadEnd::Complete,
            items_view(out@) == streams_items(ss@, i as nat).0,
        decreases ss@.len() - i,
    {
        let end = read_stream(&ss[i], &mut out);
        if end != ReadEnd::Complete {
            proof {
                lemma_streams_items_stop(ss@, (i + 1) as nat, ss@.len());
            }
            return StreamRead::Events { events: out, end };
        }
        i = i + 1;
    }
    StreamRead::Events { events: out, end: ReadEnd::Complete }
}

proof fn lemma_streams_items_stop(ss: Seq<Reply>, k: nat, n: nat)
    requires
        0 < k <= n,
        streams_items(ss, k).1 != ReadEnd::Complete,
    ensures
        streams_items(ss, n) == streams_items(ss, k),
    decreases n,
{
    if n > k {
        lemma_streams_items_stop(ss, k, (n - 1) as nat);
    }
}

} // verus!
