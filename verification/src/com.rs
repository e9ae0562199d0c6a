//! The events the server writes to its output streams.
use vstd::prelude::*;
use vstd::string::*;
use crate::config::{CheeseData, CheeseView, UserData, UserView, RETRY_CON_TIMEOUT_MS, STR_NULL, TIME_BETWEEN_RETRY_CON_MS};
use crate::field;
use crate::pipe::{Arg, ArgView, Cmd, CmdView, Pipe, bytes, kept, args_view, text, raw};
use crate::stream;

verus! {

/// The arguments that describe a cheese in a stored hash or an update event.
pub open spec fn cheese_args(cheese: CheeseView) -> Seq<ArgView> {
    seq![
        bytes(field::RADICAL_IMAGE),
        match cheese.radical_image {
            Some(s) => ArgView::Bytes(s),
            None => bytes(STR_NULL),
        },
        bytes(field::TIME_MIN),
        ArgView::Int(cheese.time_min as int),
        bytes(field::TIME_MAX),
        ArgView::Int(cheese.time_max as int),
        bytes(field::SIZE),
        ArgView::Int(cheese.size as int),
        bytes(field::ORIGINAL_SIZE),
        ArgView::Int(cheese.original_size as int),
        bytes(field::SQUIRREL_MULT),
        ArgView::F32Bits(cheese.squirrel_mult_bits),
        bytes(field::SILENT),
        ArgView::Bool(cheese.silent),
        bytes(field::EXCLUSIVE),
        ArgView::Bool(cheese.exclusive),
    ]
}

/// Appends the arguments that describe a cheese to a command being built for
/// the pipeline.
pub fn save_cheese_to_pipe(args: &mut Vec<Arg>, cheese: &CheeseData)
    ensures
        args_view(final(args)@) == args_view(old(args)@) + cheese_args(cheese@),
{
    let ghost start = args_view(args@);
    match &cheese.radical_image {
        Some(s) => {
            args.push(text(field::RADICAL_IMAGE));
            args.push(raw(s.as_slice()));
        },
        None => {
            args.push(text(field::RADICAL_IMAGE));
            args.push(text(STR_NULL));
        },
    }
    args.push(text(field::TIME_MIN));
    args.push(Arg::Int(cheese.time_min as i128));
    args.push(text(field::TIME_MAX));
    args.push(Arg::Int(cheese.time_max as i128));
    args.push(text(field::SIZE));
    args.push(Arg::Int(cheese.size as i128));
    args.push(text(field::ORIGINAL_SIZE));
    args.push(Arg::Int(cheese.original_size as i128));
    args.push(text(field::SQUIRREL_MULT));
    args.push(Arg::F32Bits(cheese.squirrel_mult_bits));
    args.push(text(field::SILENT));
    args.push(Arg::Bool(cheese.silent));
    args.push(text(field::EXCLUSIVE));
    args.push(Arg::Bool(cheese.exclusive));
    proof {
        assert(args_view(args@) =~= start + cheese_args(cheese@));
    }
}

/// The stream-append command that announces that a user queued for a cheese.
pub open spec fn cheese_queue_cmd(room: Seq<u8>, user_id: Seq<u8>, user: UserView) -> CmdView {
    kept(seq![
        bytes("XADD"),
        bytes(stream::CHEESE_QUEUE),
        bytes("*"),
        bytes(field::ROOM_ID),
        ArgView::Bytes(room),
        bytes(field::USER_ID),
        ArgView::Bytes(user_id),
        bytes(field::USER_NAME),
        ArgView::Bytes(user.screen_name),
        bytes(field::MOUSE_BODY),
        ArgView::Bytes(user.body),
    ] + match user.hat {
        Some(h) => seq![bytes(field::MOUSE_HAT), ArgView::Bytes(h)],
        None => seq![],
    })
}

/// Queues the announcement that a user queued for a cheese in a room.
pub fn cheese_queue(pipe: &mut Pipe, room: &[u8], user_id: &[u8], user: &UserData)
    ensures
        final(pipe)@ == old(pipe)@.push(cheese_queue_cmd(room@, user_id@, user@)),
{
    let mut args: Vec<Arg> = Vec::new();
    args.push(text("XADD"));
    args.push(text(stream::CHEESE_QUEUE));
    args.push(text("*"));
    args.push(text(field::ROOM_ID));
    args.push(raw(room));
    args.push(text(field::USER_ID));
    args.push(raw(user_id));
    args.push(text(field::USER_NAME));
    args.push(raw(user.screen_name.as_slice()));
    args.push(text(field::MOUSE_BODY));
    args.push(raw(user.body.as_slice()));
    match &user.hat {
        Some(hat) => {
            args.push(text(field::MOUSE_HAT));
            args.push(raw(hat.as_slice()));
        },
        None => {},
    }
    let c = Cmd { args, ignored: false };
    proof {
        assert(c@ =~= cheese_queue_cmd(room@, user_id@, user@));
    }
    pipe.push(c);
}

/// The stream-append command that removes the cheese from a room.
pub open spec fn cheese_despawn_cmd(room: Seq<u8>) -> CmdView {
    kept(seq![bytes("XADD"), bytes(stream::CHEESE_UPDATE), bytes("*"), bytes(field::ROOM_ID), ArgView::Bytes(room)])
}

/// Queues the removal of the cheese from a room.
pub fn cheese_despawn(pipe: &mut Pipe, room: &[u8])
    ensures
        final(pipe)@ == old(pipe)@.push(cheese_despawn_cmd(room@)),
{
    let mut args: Vec<Arg> = Vec::new();
    args.push(text("XADD"));
    args.push(text(stream::CHEESE_UPDATE));
    args.push(text("*"));
    args.push(text(field::ROOM_ID));
    args.push(raw(room));
    let c = Cmd { args, ignored: false };
    proof {
        assert(c@ =~= cheese_despawn_cmd(room@));
    }
    pipe.push(c);
}

/// The stream-append command that announces a changed cheese.
pub open spec fn cheese_update_cmd(room: Seq<u8>, uuid: u64, cheese: CheeseView) -> CmdView {
    kept(seq![
        bytes("XADD"),
        bytes(stream::CHEESE_UPDATE),
        bytes("*"),
        bytes(field::CHEESE_UUID),
        ArgView::Int(uuid as int),
        bytes(field::ROOM_ID),
        ArgView::Bytes(room),
    ] + cheese_args(cheese))
}

/// Queues the announcement of a changed cheese.
pub fn cheese_update(pipe: &mut Pipe, room: &[u8], uuid: u64, cheese: &CheeseData)
    ensures
        final(pipe)@ == old(pipe)@.push(cheese_update_cmd(room@, uuid, cheese@)),
{
    let mut args: Vec<Arg> = Vec::new();
    args.push(text("XADD"));
    args.push(text(stream::CHEESE_UPDATE));
    args.push(text("*"));
    args.push(text(field::CHEESE_UUID));
    args.push(Arg::Int(uuid as i128));
    args.push(text(field::ROOM_ID));
    args.push(raw(room));
    save_cheese_to_pipe(&mut args, cheese);
    let c = Cmd { args, ignored: false };
    proof {
        assert(c@ =~= cheese_update_cmd(room@, uuid, cheese@));
    }
    pipe.push(c);
}

/// The stream-append command that announces an award of cheese and gems.
pub open spec fn cheese_award_cmd(dest_id: Seq<u8>, src_id: Option<Seq<u8>>, cheese_delta: i32, gems_delta: i32) -> CmdView {
    kept(seq![bytes("XADD"), bytes(stream::CHEESE_AWARD), bytes("*"), bytes(field::DEST_ID), ArgView::Bytes(dest_id)]
        + match src_id {
            Some(s) => seq![bytes(field::SRC_ID), ArgView::Bytes(s)],
            None => seq![],
        } + (if cheese_delta != 0 {
            seq![bytes(field::CHEESE_DELTA), ArgView::Int(cheese_delta as int)]
        } else {
            seq![]
        }) + (if gems_delta != 0 {
            seq![bytes(field::GEM_DELTA), ArgView::Int(gems_delta as int)]
        } else {
            seq![]
        }))
}

/// Queues the announcement of an award; a zero change is left out.
pub fn cheese_award(pipe: &mut Pipe, dest_id: &[u8], src_id_opt: Option<&[u8]>, cheese_delta: i32, gems_delta: i32)
    ensures
        final(pipe)@ == old(pipe)@.push(
            cheese_award_cmd(
                dest_id@,
                match src_id_opt {
                    Some(s) => Some(s@),
                    None => None,
                },
                cheese_delta,
                gems_delta,
            ),
        ),
{
    let mut args: Vec<Arg> = Vec::new();
    args.push(text("XADD"));
    args.push(text(stream::CHEESE_AWARD));
    args.push(text("*"));
    args.push(text(field::DEST_ID));
    args.push(raw(dest_id));
    match src_id_opt {
        Some(src_id) => {
            args.push(text(field::SRC_ID));
            args.push(raw(src_id));
        },
        None => {},
    }
    if cheese_delta != 0 {
        args.push(text(field::CHEESE_DELTA));
        args.push(Arg::Int(cheese_delta as i128));
    }
    if gems_delta != 0 {
        args.push(text(field::GEM_DELTA));
        args.push(Arg::Int(gems_delta as i128));
    }
    let c = Cmd { args, ignored: false };
    proof {
        assert(c@ =~= cheese_award_cmd(
            dest_id@,
            match src_id_opt {
                Some(s) => Some(s@),
                None => None,
            },
            cheese_delta,
            gems_delta,
        ));
    }
    pipe.push(c);
}

/// What follows a failed attempt to connect to the database, `waited_ms`
/// having been waited since the first: `Some(w)` to wait
/// `TIME_BETWEEN_RETRY_CON_MS` more and try again, `w` being the time then
/// waited in all; `None` to give up, once `RETRY_CON_TIMEOUT_MS` is reached.
pub fn connect_retry(waited_ms: u64) -> (r: Option<u64>)
    ensures
        r == (if waited_ms < RETRY_CON_TIMEOUT_MS {
            Some((waited_ms + TIME_BETWEEN_RETRY_CON_MS) as u64)
        } else {
            None::<u64>
        }),
{
    if waited_ms < RETRY_CON_TIMEOUT_MS {
        Some(waited_ms + TIME_BETWEEN_RETRY_CON_MS)
    } else {
        None
    }
}

/// The number of attempts to connect made from a failed one after
/// `waited_ms` of waiting, that one included, when every attempt fails.
pub open spec fn connect_attempts(waited_ms: int) -> int
    decreases RETRY_CON_TIMEOUT_MS + TIME_BETWEEN_RETRY_CON_MS - waited_ms,
{
    if waited_ms < RETRY_CON_TIMEOUT_MS {
        1 + connect_attempts(waited_ms + TIME_BETWEEN_RETRY_CON_MS)
    } else {
        1
    }
}

/// Law: when the database cannot be reached, the connection is tried
/// thirteen times, every five seconds over a minute, before giving up.
pub proof fn law_connect_attempts()
    ensures
        connect_attempts(0) == 13,
{
    reveal_with_fuel(connect_attempts, 14);
}

} // verus!
