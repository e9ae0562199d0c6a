//! The stored records: their keys, how a stored hash is read back into a
//! cheese or a user, and the commands that change them.
use vstd::prelude::*;
use vstd::string::*;
use crate::config::{
    CheeseData, CheeseView, UserData, UserView, Currency, DEFAULT_CHEESE_IMAGE,
    DEFAULT_CHEESE_RADICAL_IMAGE, DEFAULT_CHEESE_TIME_MIN, DEFAULT_CHEESE_TIME_MAX,
    DEFAULT_CHEESE_SIZE, DEFAULT_SCREEN_NAME, DEFAULT_MOUSE_BODY, STR_NULL,
};
use crate::key;
use crate::reply::Reply;
use crate::util::{
    bytes_eq, slice_to_vec, str_to_vec, to_u32, to_u64, to_i32, to_i64, to_bool, is_str_null,
    spec_to_u32, spec_to_u64, spec_to_i32, spec_to_i64, spec_to_bool, push_u64_prefix, decimal_digits,
    lossy, utf8_lossy, reads_as_decoded,
};
use crate::com::{cheese_args, save_cheese_to_pipe};
use crate::pipe::{Arg, ArgView, Cmd, CmdView, Pipe, bytes, kept, dropped, text, raw};
use crate::exchange::{Action, Input, Sub, mismatch_spec, mismatch_text, empty_number, empty_number_text, unexpected_input};
use crate::reply::{reply_u64, spec_reply_u64};
use crate::config::default_user;
use crate::config::generate_default_user;

verus! {

// ---------------------------------------------------------------------------
// Reading a stored hash
// ---------------------------------------------------------------------------

/// The bytes of a bulk-string reply.
pub open spec fn data_of(r: Reply) -> Seq<u8> {
    match r {
        Reply::Data(d) => d@,
        _ => Seq::empty(),
    }
}

/// Whether the `i`-th field/value pair of a hash reply is made of two bulk strings.
pub open spec fn pair_ok(items: Seq<Reply>, i: int) -> bool {
    items[2 * i] is Data && items[2 * i + 1] is Data
}

/// Whether the first `m` pairs of a hash reply are well formed.
pub open spec fn pairs_ok(items: Seq<Reply>, m: int) -> bool {
    forall|j: int| 0 <= j < m ==> #[trigger] pair_ok(items, j)
}

/// The number of leading well-formed pairs among the first `n`.
pub open spec fn good_prefix(items: Seq<Reply>, n: nat) -> nat
    decreases n,
{
    if n == 0 {
        0
    } else {
        let g = good_prefix(items, (n - 1) as nat);
        if g == n - 1 && pair_ok(items, n - 1) {
            n
        } else {
            g
        }
    }
}

/// The first `n` field/value pairs of a hash reply.
pub open spec fn pairs_of(items: Seq<Reply>, n: nat) -> Seq<(Seq<u8>, Seq<u8>)> {
    Seq::new(n, |i: int| (data_of(items[2 * i]), data_of(items[2 * i + 1])))
}

proof fn lemma_pairs_of_push(items: Seq<Reply>, n: nat)
    ensures
        pairs_of(items, n + 1) == pairs_of(items, n).push(
            (data_of(items[2 * n as int]), data_of(items[2 * n as int + 1])),
        ),
{
    assert(pairs_of(items, n + 1) =~= pairs_of(items, n).push(
        (data_of(items[2 * n as int]), data_of(items[2 * n as int + 1])),
    ));
}

proof fn lemma_good_prefix_full(items: Seq<Reply>, n: nat)
    requires
        pairs_ok(items, n as int),
    ensures
        good_prefix(items, n) == n,
    decreases n,
{
    if n > 0 {
        assert(pairs_ok(items, n - 1)) by {
            assert forall|j: int| 0 <= j < n - 1 implies #[trigger] pair_ok(items, j) by {
                assert(pair_ok(items, j));
            }
        }
        lemma_good_prefix_full(items, (n - 1) as nat);
        assert(pair_ok(items, n - 1));
    }
}

proof fn lemma_good_prefix_stops(items: Seq<Reply>, k: nat, n: nat)
    requires
        k < n,
        good_prefix(items, k) == k,
        !pair_ok(items, k as int),
    ensures
        good_prefix(items, n) == k,
    decreases n,
{
    if n > k + 1 {
        lemma_good_prefix_stops(items, k, (n - 1) as nat);
    }
}

/// The kind of a field of a stored cheese, in the order the reader tests them.
#[derive(PartialEq, Eq, Structural, Debug, Clone, Copy)]
pub enum CheeseField {
    Image,
    Radical,
    TimeMin,
    TimeMax,
    Size,
    Gems,
    SquirrelMult,
    Silent,
    Exclusive,
    OriginalSize,
    Other,
}

pub open spec fn cheese_field(name: Seq<u8>) -> CheeseField {
    if name == key::CHEESE_IMAGE.spec_bytes() {
        CheeseField::Image
    } else if name == key::CHEESE_RADICAL.spec_bytes() {
        CheeseField::Radical
    } else if name == key::CHEESE_TIME_MIN.spec_bytes() {
        CheeseField::TimeMin
    } else if name == key::CHEESE_TIME_MAX.spec_bytes() {
        CheeseField::TimeMax
    } else if name == key::CHEESE_SIZE.spec_bytes() {
        CheeseField::Size
    } else if name == key::CHEESE_GEMS.spec_bytes() {
        CheeseField::Gems
    } else if name == key::CHEESE_SQUIRREL_MULT.spec_bytes() {
        CheeseField::SquirrelMult
    } else if name == key::CHEESE_SILENT.spec_bytes() {
        CheeseField::Silent
    } else if name == key::CHEESE_EXCLUSIVE.spec_bytes() {
        CheeseField::Exclusive
    } else if name == key::CHEESE_ORIGINAL_SIZE.spec_bytes() {
        CheeseField::OriginalSize
    } else {
        CheeseField::Other
    }
}

fn classify_cheese_field(f: &[u8]) -> (r: CheeseField)
    ensures
        r == cheese_field(f@),
{
    if bytes_eq(f, key::CHEESE_IMAGE.as_bytes()) {
        CheeseField::Image
    } else if bytes_eq(f, key::CHEESE_RADICAL.as_bytes()) {
        CheeseField::Radical
    } else if bytes_eq(f, key::CHEESE_TIME_MIN.as_bytes()) {
        CheeseField::TimeMin
    } else if bytes_eq(f, key::CHEESE_TIME_MAX.as_bytes()) {
        CheeseField::TimeMax
    } else if bytes_eq(f, key::CHEESE_SIZE.as_bytes()) {
        CheeseField::Size
    } else if bytes_eq(f, key::CHEESE_GEMS.as_bytes()) {
        CheeseField::Gems
    } else if bytes_eq(f, key::CHEESE_SQUIRREL_MULT.as_bytes()) {
        CheeseField::SquirrelMult
    } else if bytes_eq(f, key::CHEESE_SILENT.as_bytes()) {
        CheeseField::Silent
    } else if bytes_eq(f, key::CHEESE_EXCLUSIVE.as_bytes()) {
        CheeseField::Exclusive
    } else if bytes_eq(f, key::CHEESE_ORIGINAL_SIZE.as_bytes()) {
        CheeseField::OriginalSize
    } else {
        CheeseField::Other
    }
}

/// The value of the last pair of kind `k`.
pub open spec fn last_raw(pairs: Seq<(Seq<u8>, Seq<u8>)>, k: CheeseField) -> Option<Seq<u8>>
    decreases pairs.len(),
{
    if pairs.len() == 0 {
        None
    } else if cheese_field(pairs.last().0) == k {
        Some(pairs.last().1)
    } else {
        last_raw(pairs.drop_last(), k)
    }
}

/// The last value of kind `k` that reads as a `u32`.
pub open spec fn last_u32(pairs: Seq<(Seq<u8>, Seq<u8>)>, k: CheeseField) -> Option<u32>
    decreases pairs.len(),
{
    if pairs.len() == 0 {
        None
    } else if cheese_field(pairs.last().0) == k && spec_to_u32(pairs.last().1) is Some {
        spec_to_u32(pairs.last().1)
    } else {
        last_u32(pairs.drop_last(), k)
    }
}

/// The last value of kind `k` that reads as an `i32`.
pub open spec fn last_i32(pairs: Seq<(Seq<u8>, Seq<u8>)>, k: CheeseField) -> Option<i32>
    decreases pairs.len(),
{
    if pairs.len() == 0 {
        None
    } else if cheese_field(pairs.last().0) == k && spec_to_i32(pairs.last().1) is Some {
        spec_to_i32(pairs.last().1)
    } else {
        last_i32(pairs.drop_last(), k)
    }
}

/// The last value of kind `k` that reads as a boolean.
pub open spec fn last_bool(pairs: Seq<(Seq<u8>, Seq<u8>)>, k: CheeseField) -> Option<bool>
    decreases pairs.len(),
{
    if pairs.len() == 0 {
        None
    } else if cheese_field(pairs.last().0) == k && spec_to_bool(pairs.last().1) is Some {
        spec_to_bool(pairs.last().1)
    } else {
        last_bool(pairs.drop_last(), k)
    }
}

/// The first valid time, minimum or maximum.
pub open spec fn first_time(pairs: Seq<(Seq<u8>, Seq<u8>)>) -> Option<u32>
    decreases pairs.len(),
{
    if pairs.len() == 0 {
        None
    } else {
        let r = first_time(pairs.drop_last());
        let f = cheese_field(pairs.last().0);
        if r is Some {
            r
        } else if (f == CheeseField::TimeMin || f == CheeseField::TimeMax) && spec_to_u32(
            pairs.last().1,
        ) is Some {
            spec_to_u32(pairs.last().1)
        } else {
            None
        }
    }
}

pub open spec fn unwrap_or<T>(o: Option<T>, d: T) -> T {
    match o {
        Some(v) => v,
        None => d,
    }
}

/// The cheese stored as the given fields: each field takes its last readable
/// value; a time that is missing takes the first time given; anything
/// missing takes its default; the original size defaults to the size.
pub open spec fn cheese_of(pairs: Seq<(Seq<u8>, Seq<u8>)>) -> CheeseView {
    let size = unwrap_or(last_i32(pairs, CheeseField::Size), DEFAULT_CHEESE_SIZE);
    CheeseView {
        image: unwrap_or(last_raw(pairs, CheeseField::Image), DEFAULT_CHEESE_IMAGE.spec_bytes()),
        radical_image: match last_raw(pairs, CheeseField::Radical) {
            None => Some(DEFAULT_CHEESE_RADICAL_IMAGE.spec_bytes()),
            Some(v) => if v.len() == 0 || v == STR_NULL.spec_bytes() {
                None
            } else {
                Some(v)
            },
        },
        time_min: unwrap_or(
            last_u32(pairs, CheeseField::TimeMin),
            unwrap_or(first_time(pairs), DEFAULT_CHEESE_TIME_MIN),
        ),
        time_max: unwrap_or(
            last_u32(pairs, CheeseField::TimeMax),
            unwrap_or(first_time(pairs), DEFAULT_CHEESE_TIME_MAX),
        ),
        size: size,
        original_size: unwrap_or(last_i32(pairs, CheeseField::OriginalSize), size),
        gems: unwrap_or(last_i32(pairs, CheeseField::Gems), 0),
        squirrel_mult_bits: 0,
        silent: unwrap_or(last_bool(pairs, CheeseField::Silent), false),
        exclusive: unwrap_or(last_bool(pairs, CheeseField::Exclusive), false),
    }
}

/// Something in a stored hash worth a warning.
#[derive(Debug)]
pub enum DbNote {
    /// The value of a known field does not read; `field` is the name the
    /// warning gives.
    InvalidEntry { field: &'static str, val: Vec<u8> },
    /// A field the reader does not know.
    Unrecognized { name: Vec<u8>, val: Vec<u8> },
    /// A squirrel multiplier, whose text still has to be read as an `f32`.
    SquirrelMult { val: Vec<u8> },
    /// A field that must be stored is not.
    MissingEntry { field: &'static str },
}

pub enum DbNoteView {
    InvalidEntry { field: Seq<char>, val: Seq<u8> },
    Unrecognized { name: Seq<u8>, val: Seq<u8> },
    SquirrelMult { val: Seq<u8> },
    MissingEntry { field: Seq<char> },
}

impl View for DbNote {
    type V = DbNoteView;

    open spec fn view(&self) -> DbNoteView {
        match self {
            DbNote::InvalidEntry { field, val } => DbNoteView::InvalidEntry { field: field@, val: val@ },
            DbNote::Unrecognized { name, val } => DbNoteView::Unrecognized { name: name@, val: val@ },
            DbNote::SquirrelMult { val } => DbNoteView::SquirrelMult { val: val@ },
            DbNote::MissingEntry { field } => DbNoteView::MissingEntry { field: field@ },
        }
    }
}

pub open spec fn notes_view(notes: Seq<DbNote>) -> Seq<DbNoteView> {
    notes.map_values(|n: DbNote| n@)
}

pub open spec fn invalid_note(field: &str, val: Seq<u8>) -> Seq<DbNoteView> {
    seq![DbNoteView::InvalidEntry { field: field@, val: val }]
}

/// The warnings one field of a stored cheese gives. Several kinds are
/// reported under the name of the size field.
pub open spec fn cheese_note(p: (Seq<u8>, Seq<u8>)) -> Seq<DbNoteView> {
    let v = p.1;
    match cheese_field(p.0) {
        CheeseField::TimeMin => if spec_to_u32(v) is None { invalid_note(key::CHEESE_TIME_MIN, v) } else { seq![] },
        CheeseField::TimeMax => if spec_to_u32(v) is None { invalid_note(key::CHEESE_TIME_MAX, v) } else { seq![] },
        CheeseField::Size => if spec_to_i32(v) is None { invalid_note(key::CHEESE_SIZE, v) } else { seq![] },
        CheeseField::Gems => if spec_to_i32(v) is None { invalid_note(key::CHEESE_SIZE, v) } else { seq![] },
        CheeseField::SquirrelMult => seq![DbNoteView::SquirrelMult { val: v }],
        CheeseField::Silent => if spec_to_bool(v) is None { invalid_note(key::CHEESE_SIZE, v) } else { seq![] },
        CheeseField::Exclusive => if spec_to_bool(v) is None { invalid_note(key::CHEESE_SIZE, v) } else { seq![] },
        CheeseField::OriginalSize => if spec_to_i32(v) is None {
            invalid_note(key::CHEESE_ORIGINAL_SIZE, v)
        } else {
            seq![]
        },
        CheeseField::Other => seq![DbNoteView::Unrecognized { name: p.0, val: v }],
        _ => seq![],
    }
}

pub open spec fn cheese_notes(pairs: Seq<(Seq<u8>, Seq<u8>)>) -> Seq<DbNoteView>
    decreases pairs.len(),
{
    if pairs.len() == 0 {
        seq![]
    } else {
        cheese_notes(pairs.drop_last()) + cheese_note(pairs.last())
    }
}

/// Whether a field kind is read as a signed number.
pub open spec fn cheese_field_signed(k: CheeseField) -> bool {
    k == CheeseField::Size || k == CheeseField::Gems || k == CheeseField::OriginalSize
}

/// Whether every signed field the reader reaches in a hash reply has a
/// non-empty value (the signed reader is not defined on empty text).
pub open spec fn readable_items(s: Seq<Reply>, cheese: bool) -> bool {
    forall|i: int|
        0 <= i < s.len() / 2 && pairs_ok(s, i + 1) && signed_name(cheese, #[trigger] data_of(s[2 * i]))
            ==> data_of(s[2 * i + 1]).len() > 0
}

pub open spec fn reply_readable(reply: Reply, cheese: bool) -> bool {
    match reply {
        Reply::Bulk(items) => items@.len() % 2 == 0 ==> readable_items(items@, cheese),
        _ => true,
    }
}

/// Whether a stored cheese can be read (see `readable_items`).
pub open spec fn cheese_reply_readable(reply: Reply) -> bool {
    reply_readable(reply, true)
}

/// The outcome of reading a stored cheese.
#[derive(Debug)]
pub enum CheeseParse {
    /// The reply is not shaped as a hash; the notes are those of the pairs
    /// read before the fault.
    Mismatch { notes: Vec<DbNote> },
    Parsed { cheese: CheeseData, notes: Vec<DbNote> },
}

/// What reading a stored cheese gives.
pub open spec fn spec_parse_cheese(reply: Reply) -> (bool, CheeseView, Seq<DbNoteView>) {
    match reply {
        Reply::Bulk(items) => {
            let n = (items@.len() / 2) as nat;
            if items@.len() % 2 == 1 {
                (false, cheese_of(seq![]), seq![])
            } else if good_prefix(items@, n) < n {
                (false, cheese_of(seq![]), cheese_notes(pairs_of(items@, good_prefix(items@, n))))
            } else {
                (true, cheese_of(pairs_of(items@, n)), cheese_notes(pairs_of(items@, n)))
            }
        },
        _ => (false, cheese_of(seq![]), seq![]),
    }
}

pub open spec fn cheese_parse_view(p: CheeseParse) -> (bool, CheeseView, Seq<DbNoteView>) {
    match p {
        CheeseParse::Mismatch { notes } => (false, cheese_of(seq![]), notes_view(notes@)),
        CheeseParse::Parsed { cheese, notes } => (true, cheese@, notes_view(notes@)),
    }
}

/// Reads a stored cheese out of the reply to a request for all of its hash.
pub fn parse_cheese_reply(reply: &Reply) -> (r: CheeseParse)
    requires
        cheese_reply_readable(*reply),
    ensures
        cheese_parse_view(r) == spec_parse_cheese(*reply),
{
    let mut notes: Vec<DbNote> = Vec::new();
    let items = match reply {
        Reply::Bulk(items) => items,
        _ => {
            return CheeseParse::Mismatch { notes };
        },
    };
    if items.len() % 2 == 1 {
        return CheeseParse::Mismatch { notes };
    }
    let ghost s = items@;
    let n = items.len() / 2;
    let mut image: Option<Vec<u8>> = None;
    let mut radical: Option<Vec<u8>> = None;
    let mut time_min: Option<u32> = None;
    let mut time_max: Option<u32> = None;
    let mut first: Option<u32> = None;
    let mut size: Option<i32> = None;
    let mut gems: Option<i32> = None;
    let mut original_size: Option<i32> = None;
    let mut silent: Option<bool> = None;
    let mut exclusive: Option<bool> = None;
    let mut k: usize = 0;
    while k < n
        invariant
            s == items@,
            n == s.len() / 2,
            s.len() % 2 == 0,
            k <= n,
            pairs_ok(s, k as int),
            cheese_reply_readable(*reply),
            *reply == Reply::Bulk(*items),
            opt_view(image) == last_raw(pairs_of(s, k as nat), CheeseField::Image),
            opt_view(radical) == last_raw(pairs_of(s, k as nat), CheeseField::Radical),
            time_min == last_u32(pairs_of(s, k as nat), CheeseField::TimeMin),
            time_max == last_u32(pairs_of(s, k as nat), CheeseField::TimeMax),
            first == first_time(pairs_of(s, k as nat)),
            size == last_i32(pairs_of(s, k as nat), CheeseField::Size),
            gems == last_i32(pairs_of(s, k as nat), CheeseField::Gems),
            original_size == last_i32(pairs_of(s, k as nat), CheeseField::OriginalSize),
            silent == last_bool(pairs_of(s, k as nat), CheeseField::Silent),
            exclusive == last_bool(pairs_of(s, k as nat), CheeseField::Exclusive),
            notes_view(notes@) == cheese_notes(pairs_of(s, k as nat)),
        decreases n - k,
    {
        assert(2 * k + 1 < s.len());
        assert(s.len() == items.len());
        let i = 2 * k;
        let (field, val) = match (&items[i], &items[i + 1]) {
            (Reply::Data(f), Reply::Data(v)) => (f, v),
            _ => {
                proof {
                    assert(!pair_ok(s, k as int));
                    lemma_good_prefix_full(s, k as nat);
                    lemma_good_prefix_stops(s, k as nat, n as nat);
                }
                return CheeseParse::Mismatch { notes };
            },
        };
        let ghost pk = pairs_of(s, k as nat);
        let ghost p = (field@, val@);
        proof {
            lemma_pairs_of_push(s, k as nat);
            assert(pairs_of(s, k as nat + 1) == pk.push(p));
            assert(pk.push(p).drop_last() =~= pk);
            assert(pairs_ok(s, k as int + 1)) by {
                assert forall|j: int| 0 <= j < k + 1 implies #[trigger] pair_ok(s, j) by {
                    if j < k {
                        assert(pair_ok(s, j));
                    }
                }
            }
        }
        let ghost old_notes = notes_view(notes@);
        let kind = classify_cheese_field(field.as_slice());
        match kind {
            CheeseField::Image => {
                image = Some(slice_to_vec(val.as_slice()));
            },
            CheeseField::Radical => {
                radical = Some(slice_to_vec(val.as_slice()));
            },
            CheeseField::TimeMin => {
                match to_u32(val.as_slice()) {
                    Some(t) => {
                        time_min = Some(t);
                        if first.is_none() {
                            first = Some(t);
                        }
                    },
                    None => {
                        notes.push(DbNote::InvalidEntry { field: key::CHEESE_TIME_MIN, val: slice_to_vec(val.as_slice()) });
                    },
                }
            },
            CheeseField::TimeMax => {
                match to_u32(val.as_slice()) {
                    Some(t) => {
                        time_max = Some(t);
                        if first.is_none() {
                            first = Some(t);
                        }
                    },
                    None => {
                        notes.push(DbNote::InvalidEntry { field: key::CHEESE_TIME_MAX, val: slice_to_vec(val.as_slice()) });
                    },
                }
            },
            CheeseField::Size => {
                proof {
                    assert(data_of(s[2 * k as int]) == field@);
                }
                match to_i32(val.as_slice()) {
                    Some(t) => {
                        size = Some(t);
                    },
                    None => {
                        notes.push(DbNote::InvalidEntry { field: key::CHEESE_SIZE, val: slice_to_vec(val.as_slice()) });
                    },
                }
            },
            CheeseField::Gems => {
                proof {
                    assert(data_of(s[2 * k as int]) == field@);
                }
                match to_i32(val.as_slice()) {
                    Some(t) => {
                        gems = Some(t);
                    },
                    None => {
                        notes.push(DbNote::InvalidEntry { field: key::CHEESE_SIZE, val: slice_to_vec(val.as_slice()) });
                    },
                }
            },
            CheeseField::SquirrelMult => {
                notes.push(DbNote::SquirrelMult { val: slice_to_vec(val.as_slice()) });
            },
            CheeseField::Silent => {
                match to_bool(val.as_slice()) {
                    Some(t) => {
                        silent = Some(t);
                    },
                    None => {
                        notes.push(DbNote::InvalidEntry { field: key::CHEESE_SIZE, val: slice_to_vec(val.as_slice()) });
                    },
                }
            },
            CheeseField::Exclusive => {
                match to_bool(val.as_slice()) {
                    Some(t) => {
                        exclusive = Some(t);
                    },
                    None => {
                        notes.push(DbNote::InvalidEntry { field: key::CHEESE_SIZE, val: slice_to_vec(val.as_slice()) });
                    },
                }
            },
            CheeseField::OriginalSize => {
                proof {
                    assert(data_of(s[2 * k as int]) == field@);
                }
                match to_i32(val.as_slice()) {
                    Some(t) => {
                        original_size = Some(t);
                    },
                    None => {
                        notes.push(DbNote::InvalidEntry { field: key::CHEESE_ORIGINAL_SIZE, val: slice_to_vec(val.as_slice()) });
                    },
                }
            },
            CheeseField::Other => {
                notes.push(DbNote::Unrecognized { name: slice_to_vec(field.as_slice()), val: slice_to_vec(val.as_slice()) });
            },
        }
        proof {
            assert(notes_view(notes@) =~= old_notes + cheese_note(p));
        }
        k = k + 1;
    }
    proof {
        lemma_good_prefix_full(s, n as nat);
    }
    let image = match image {
        Some(v) => v,
        None => str_to_vec(DEFAULT_CHEESE_IMAGE),
    };
    let radical_image = match radical {
        None => Some(str_to_vec(DEFAULT_CHEESE_RADICAL_IMAGE)),
        Some(v) => if is_str_null(v.as_slice()) {
            None
        } else {
            Some(v)
        },
    };
    let size = match size {
        Some(v) => v,
        None => DEFAULT_CHEESE_SIZE,
    };
    let cheese = CheeseData {
        image,
        radical_image,
        time_min: match time_min {
            Some(t) => t,
            None => match first {
                Some(t) => t,
                None => DEFAULT_CHEESE_TIME_MIN,
            },
        },
        time_max: match time_max {
            Some(t) => t,
            None => match first {
                Some(t) => t,
                None => DEFAULT_CHEESE_TIME_MAX,
            },
        },
        size,
        original_size: match original_size {
            Some(v) => v,
            None => size,
        },
        gems: match gems {
            Some(v) => v,
            None => 0,
        },
        squirrel_mult_bits: 0,
        silent: match silent {
            Some(v) => v,
            None => false,
        },
        exclusive: match exclusive {
            Some(v) => v,
            None => false,
        },
    };
    CheeseParse::Parsed { cheese, notes }
}

pub open spec fn opt_view(o: Option<Vec<u8>>) -> Option<Seq<u8>> {
    match o {
        Some(v) => Some(v@),
        None => None,
    }
}


/// The kind of a field of a stored user, in the order the reader tests them.
#[derive(PartialEq, Eq, Structural, Debug, Clone, Copy)]
pub enum UserField {
    ScreenName,
    Hat,
    Body,
    Cheese,
    Gems,
    Other,
}

pub open spec fn user_field(name: Seq<u8>) -> UserField {
    if name == key::USER_SCREEN_NAME.spec_bytes() {
        UserField::ScreenName
    } else if name == key::USER_HAT.spec_bytes() {
        UserField::Hat
    } else if name == key::USER_BODY.spec_bytes() {
        UserField::Body
    } else if name == key::USER_CHEESE.spec_bytes() {
        UserField::Cheese
    } else if name == key::USER_GEMS.spec_bytes() {
        UserField::Gems
    } else {
        UserField::Other
    }
}

fn classify_user_field(f: &[u8]) -> (r: UserField)
    ensures
        r == user_field(f@),
{
    if bytes_eq(f, key::USER_SCREEN_NAME.as_bytes()) {
        UserField::ScreenName
    } else if bytes_eq(f, key::USER_HAT.as_bytes()) {
        UserField::Hat
    } else if bytes_eq(f, key::USER_BODY.as_bytes()) {
        UserField::Body
    } else if bytes_eq(f, key::USER_CHEESE.as_bytes()) {
        UserField::Cheese
    } else if bytes_eq(f, key::USER_GEMS.as_bytes()) {
        UserField::Gems
    } else {
        UserField::Other
    }
}

/// Whether a stored text stands for "no value".
pub open spec fn null_text(v: Seq<u8>) -> bool {
    v.len() == 0 || v == STR_NULL.spec_bytes()
}

/// The value of the last user field of kind `k` (for the hat, the last one
/// that is not null).
pub open spec fn last_user_raw(pairs: Seq<(Seq<u8>, Seq<u8>)>, k: UserField) -> Option<Seq<u8>>
    decreases pairs.len(),
{
    if pairs.len() == 0 {
        None
    } else if user_field(pairs.last().0) == k && !(k == UserField::Hat && null_text(pairs.last().1)) {
        Some(pairs.last().1)
    } else {
        last_user_raw(pairs.drop_last(), k)
    }
}

/// The last value of user field kind `k` that reads as an `i64`.
pub open spec fn last_user_i64(pairs: Seq<(Seq<u8>, Seq<u8>)>, k: UserField) -> Option<i64>
    decreases pairs.len(),
{
    if pairs.len() == 0 {
        None
    } else if user_field(pairs.last().0) == k && spec_to_i64(pairs.last().1) is Some {
        spec_to_i64(pairs.last().1)
    } else {
        last_user_i64(pairs.drop_last(), k)
    }
}

/// The user stored as the given fields: each takes its last readable value,
/// and the name and body take their defaults when absent.
pub open spec fn user_of(pairs: Seq<(Seq<u8>, Seq<u8>)>) -> UserView {
    UserView {
        screen_name: unwrap_or(last_user_raw(pairs, UserField::ScreenName), DEFAULT_SCREEN_NAME.spec_bytes()),
        hat: last_user_raw(pairs, UserField::Hat),
        body: unwrap_or(last_user_raw(pairs, UserField::Body), DEFAULT_MOUSE_BODY.spec_bytes()),
        cheese: unwrap_or(last_user_i64(pairs, UserField::Cheese), 0),
        gems: unwrap_or(last_user_i64(pairs, UserField::Gems), 0),
    }
}

/// The warnings one field of a stored user gives.
pub open spec fn user_note(p: (Seq<u8>, Seq<u8>)) -> Seq<DbNoteView> {
    let v = p.1;
    match user_field(p.0) {
        UserField::Cheese => if spec_to_i64(v) is None { invalid_note(key::USER_CHEESE, v) } else { seq![] },
        UserField::Gems => if spec_to_i64(v) is None { invalid_note(key::USER_GEMS, v) } else { seq![] },
        UserField::Other => seq![DbNoteView::Unrecognized { name: p.0, val: v }],
        _ => seq![],
    }
}

pub open spec fn user_field_notes(pairs: Seq<(Seq<u8>, Seq<u8>)>) -> Seq<DbNoteView>
    decreases pairs.len(),
{
    if pairs.len() == 0 {
        seq![]
    } else {
        user_field_notes(pairs.drop_last()) + user_note(pairs.last())
    }
}

/// All warnings of a well-formed stored user, missing name and body last.
pub open spec fn user_notes(pairs: Seq<(Seq<u8>, Seq<u8>)>) -> Seq<DbNoteView> {
    user_field_notes(pairs)
        + (if last_user_raw(pairs, UserField::ScreenName) is None {
            seq![DbNoteView::MissingEntry { field: key::USER_SCREEN_NAME@ }]
        } else {
            seq![]
        })
        + (if last_user_raw(pairs, UserField::Body) is None {
            seq![DbNoteView::MissingEntry { field: key::USER_BODY@ }]
        } else {
            seq![]
        })
}

/// Whether a stored user can be read (see `readable_items`).
pub open spec fn user_reply_readable(reply: Reply) -> bool {
    reply_readable(reply, false)
}

/// The outcome of reading a stored user.
#[derive(Debug)]
pub enum UserParse {
    /// The reply is not shaped as a hash.
    Mismatch { notes: Vec<DbNote> },
    /// The hash is empty: no such user.
    NotFound,
    Found { user: UserData, notes: Vec<DbNote> },
}

pub enum UserParseView {
    Mismatch { notes: Seq<DbNoteView> },
    NotFound,
    Found { user: UserView, notes: Seq<DbNoteView> },
}

impl View for UserParse {
    type V = UserParseView;

    open spec fn view(&self) -> UserParseView {
        match self {
            UserParse::Mismatch { notes } => UserParseView::Mismatch { notes: notes_view(notes@) },
            UserParse::NotFound => UserParseView::NotFound,
            UserParse::Found { user, notes } => UserParseView::Found { user: user@, notes: notes_view(notes@) },
        }
    }
}

/// What reading a stored user gives.
pub open spec fn spec_parse_user(reply: Reply) -> UserParseView {
    match reply {
        Reply::Bulk(items) => {
            let n = (items@.len() / 2) as nat;
            if items@.len() % 2 == 1 {
                UserParseView::Mismatch { notes: seq![] }
            } else if items@.len() == 0 {
                UserParseView::NotFound
            } else if good_prefix(items@, n) < n {
                UserParseView::Mismatch { notes: user_field_notes(pairs_of(items@, good_prefix(items@, n))) }
            } else {
                UserParseView::Found { user: user_of(pairs_of(items@, n)), notes: user_notes(pairs_of(items@, n)) }
            }
        },
        _ => UserParseView::Mismatch { notes: seq![] },
    }
}

/// Reads a stored user out of the reply to a request for all of its hash.
pub fn parse_user_reply(reply: &Reply) -> (r: UserParse)
    requires
        user_reply_readable(*reply),
    ensures
        r@ == spec_parse_user(*reply),
{
    let mut notes: Vec<DbNote> = Vec::new();
    let items = match reply {
        Reply::Bulk(items) => items,
        _ => {
            proof {
                assert(notes_view(notes@) =~= seq![]);
            }
            return UserParse::Mismatch { notes };
        },
    };
    if items.len() % 2 == 1 {
        proof {
            assert(notes_view(notes@) =~= seq![]);
        }
        return UserParse::Mismatch { notes };
    }
    if items.len() == 0 {
        return UserParse::NotFound;
    }
    let ghost s = items@;
    let n = items.len() / 2;
    let mut screen_name: Option<Vec<u8>> = None;
    let mut hat: Option<Vec<u8>> = None;
    let mut body: Option<Vec<u8>> = None;
    let mut cheese: Option<i64> = None;
    let mut gems: Option<i64> = None;
    let mut k: usize = 0;
    proof {
        assert(notes_view(notes@) =~= user_field_notes(pairs_of(s, 0)));
    }
    while k < n
        invariant
            s == items@,
            n == s.len() / 2,
            s.len() % 2 == 0,
            k <= n,
            pairs_ok(s, k as int),
            user_reply_readable(*reply),
            *reply == Reply::Bulk(*items),
            opt_view(screen_name) == last_user_raw(pairs_of(s, k as nat), UserField::ScreenName),
            opt_view(hat) == last_user_raw(pairs_of(s, k as nat), UserField::Hat),
            opt_view(body) == last_user_raw(pairs_of(s, k as nat), UserField::Body),
            cheese == last_user_i64(pairs_of(s, k as nat), UserField::Cheese),
            gems == last_user_i64(pairs_of(s, k as nat), UserField::Gems),
            notes_view(notes@) == user_field_notes(pairs_of(s, k as nat)),
        decreases n - k,
    {
        assert(2 * k + 1 < s.len());
        assert(s.len() == items.len());
        let i = 2 * k;
        let (field, val) = match (&items[i], &items[i + 1]) {
            (Reply::Data(f), Reply::Data(v)) => (f, v),
            _ => {
                proof {
                    assert(!pair_ok(s, k as int));
                    lemma_good_prefix_full(s, k as nat);
                    lemma_good_prefix_stops(s, k as nat, n as nat);
                }
                return UserParse::Mismatch { notes };
            },
        };
        let ghost pk = pairs_of(s, k as nat);
        let ghost p = (field@, val@);
        proof {
            lemma_pairs_of_push(s, k as nat);
            assert(pairs_of(s, k as nat + 1) == pk.push(p));
            assert(pk.push(p).drop_last() =~= pk);
            assert(pairs_ok(s, k as int + 1)) by {
                assert forall|j: int| 0 <= j < k + 1 implies #[trigger] pair_ok(s, j) by {
                    if j < k {
                        assert(pair_ok(s, j));
                    }
                }
            }
        }
        let ghost old_notes = notes_view(notes@);
        let kind = classify_user_field(field.as_slice());
        match kind {
            UserField::ScreenName => {
                screen_name = Some(slice_to_vec(val.as_slice()));
            },
            UserField::Hat => {
                if !is_str_null(val.as_slice()) {
                    hat = Some(slice_to_vec(val.as_slice()));
                }
            },
            UserField::Body => {
                body = Some(slice_to_vec(val.as_slice()));
            },
            UserField::Cheese => {
                proof {
                    assert(data_of(s[2 * k as int]) == field@);
                }
                match to_i64(val.as_slice()) {
                    Some(v) => {
                        cheese = Some(v);
                    },
                    None => {
                        notes.push(DbNote::InvalidEntry { field: key::USER_CHEESE, val: slice_to_vec(val.as_slice()) });
                    },
                }
            },
            UserField::Gems => {
                proof {
                    assert(data_of(s[2 * k as int]) == field@);
                }
                match to_i64(val.as_slice()) {
                    Some(v) => {
                        gems = Some(v);
                    },
                    None => {
                        notes.push(DbNote::InvalidEntry { field: key::USER_GEMS, val: slice_to_vec(val.as_slice()) });
                    },
                }
            },
            UserField::Other => {
                notes.push(DbNote::Unrecognized { name: slice_to_vec(field.as_slice()), val: slice_to_vec(val.as_slice()) });
            },
        }
        proof {
            assert(notes_view(notes@) =~= old_notes + user_note(p));
        }
        k = k + 1;
    }
    proof {
        lemma_good_prefix_full(s, n as nat);
    }
    let ghost pairs = pairs_of(s, n as nat);
    let ghost field_notes = notes_view(notes@);
    let screen_name = match screen_name {
        Some(v) => v,
        None => {
            notes.push(DbNote::MissingEntry { field: key::USER_SCREEN_NAME });
            str_to_vec(DEFAULT_SCREEN_NAME)
        },
    };
    let ghost mid_notes = notes_view(notes@);
    let body = match body {
        Some(v) => v,
        None => {
            notes.push(DbNote::MissingEntry { field: key::USER_BODY });
            str_to_vec(DEFAULT_MOUSE_BODY)
        },
    };
    proof {
        assert(notes_view(notes@) =~= user_notes(pairs));
    }
    let user = UserData {
        screen_name,
        hat,
        body,
        cheese: match cheese {
            Some(v) => v,
            None => 0,
        },
        gems: match gems {
            Some(v) => v,
            None => 0,
        },
    };
    UserParse::Found { user, notes }
}

// ---------------------------------------------------------------------------
// Checking that a reply can be read
// ---------------------------------------------------------------------------

/// Tests `cheese_reply_readable`.
pub fn is_cheese_reply_readable(reply: &Reply) -> (r: bool)
    ensures
        r == cheese_reply_readable(*reply),
{
    readable_reply(reply, true)
}

/// Tests `user_reply_readable`.
pub fn is_user_reply_readable(reply: &Reply) -> (r: bool)
    ensures
        r == user_reply_readable(*reply),
{
    readable_reply(reply, false)
}

/// Whether the field named `name` of a cheese (`cheese`) or of a user (otherwise) is read as a
/// signed number.
pub open spec fn signed_name(cheese: bool, name: Seq<u8>) -> bool {
    if cheese {
        cheese_field_signed(cheese_field(name))
    } else {
        user_field(name) == UserField::Cheese || user_field(name) == UserField::Gems
    }
}

fn readable_reply(reply: &Reply, cheese: bool) -> (r: bool)
    ensures
        r == reply_readable(*reply, cheese),
{
    let items = match reply {
        Reply::Bulk(items) => items,
        _ => {
            return true;
        },
    };
    if items.len() % 2 == 1 {
        return true;
    }
    let ghost s = items@;
    let n = items.len() / 2;
    let mut k: usize = 0;
    while k < n
        invariant
            s == items@,
            n == s.len() / 2,
            s.len() % 2 == 0,
            k <= n,
            *reply == Reply::Bulk(*items),
            pairs_ok(s, k as int),
            forall|i: int|
                0 <= i < k && pairs_ok(s, i + 1) && signed_name(cheese, #[trigger] data_of(s[2 * i]))
                    ==> data_of(s[2 * i + 1]).len() > 0,
        decreases n - k,
    {
        assert(2 * k + 1 < s.len());
        assert(s.len() == items.len());
        let i = 2 * k;
        match (&items[i], &items[i + 1]) {
            (Reply::Data(f), Reply::Data(v)) => {
                let signed = if cheese {
                    let kind = classify_cheese_field(f.as_slice());
                    kind == CheeseField::Size || kind == CheeseField::Gems || kind == CheeseField::OriginalSize
                } else {
                    let kind = classify_user_field(f.as_slice());
                    kind == UserField::Cheese || kind == UserField::Gems
                };
                proof {
                    assert(data_of(s[2 * k as int]) == f@);
                    assert(data_of(s[2 * k as int + 1]) == v@);
                    assert(pair_ok(s, k as int));
                    assert(pairs_ok(s, k as int + 1)) by {
                        assert forall|j: int| 0 <= j < k + 1 implies #[trigger] pair_ok(s, j) by {
                            if j < k {
                                assert(pair_ok(s, j));
                            }
                        }
                    }
                }
                assert(signed == signed_name(cheese, f@));
                if signed && v.len() == 0 {
                    assert(signed_name(cheese, data_of(s[2 * k as int])));
                    assert(!readable_items(s, cheese)) by {
                        let i = k as int;
                        assert(0 <= i < s.len() / 2 && pairs_ok(s, i + 1) && signed_name(cheese, data_of(s[2 * i])));
                        assert(data_of(s[2 * i + 1]).len() == 0);
                    }
                    return false;
                }
            },
            _ => {
                proof {
                    assert(!pair_ok(s, k as int));
                    assert forall|i: int|
                        0 <= i < s.len() / 2 && pairs_ok(s, i + 1) && signed_name(cheese, #[trigger] data_of(s[2 * i]))
                            implies data_of(s[2 * i + 1]).len() > 0 by {
                        if i >= k {
                            assert(pair_ok(s, k as int));
                        }
                    }
                }
                return true;
            },
        }
        k = k + 1;
    }
    true
}


// ---------------------------------------------------------------------------
// Warnings about stored records
// ---------------------------------------------------------------------------

/// The text of the warning a note gives about the record under `key`. A
/// squirrel multiplier that does not read is reported as an invalid value
/// of the size field.
pub open spec fn note_text(key: Seq<u8>, note: DbNoteView) -> Seq<char> {
    match note {
        DbNoteView::InvalidEntry { field, val } => "database warning: key '"@ + utf8_lossy(key) + ":"@ + field
            + "' had unexpected value '"@ + utf8_lossy(val) + "', will attempt to use default value"@,
        DbNoteView::Unrecognized { name, val } => "database warning: key '"@ + utf8_lossy(key) + ":"@
            + utf8_lossy(name) + "' is not recognized as a valid database entry, it had value '"@
            + utf8_lossy(val) + "', will ignore"@,
        DbNoteView::SquirrelMult { val } => "database warning: key '"@ + utf8_lossy(key) + ":"@
            + key::CHEESE_SIZE@ + "' had unexpected value '"@ + utf8_lossy(val)
            + "', will attempt to use default value"@,
        DbNoteView::MissingEntry { field } => "database warning: key '"@ + utf8_lossy(key) + ":"@ + field
            + "' had no value, will attempt to use default value"@,
    }
}

/// The warning a note gives about the record under `key`.
pub fn note_message(key: &[u8], note: &DbNote) -> (r: String)
    ensures
        r@ == note_text(key@, note@),
        reads_as_decoded(key@),
        match note@ {
            DbNoteView::InvalidEntry { val, .. } => reads_as_decoded(val),
            DbNoteView::Unrecognized { name, val } => reads_as_decoded(name) && reads_as_decoded(val),
            DbNoteView::SquirrelMult { val } => reads_as_decoded(val),
            DbNoteView::MissingEntry { .. } => true,
        },
{
    let mut m = String::new();
    m.append("database warning: key '");
    let k = lossy(key);
    m.append(k.as_str());
    m.append(":");
    match note {
        DbNote::InvalidEntry { field, val } => {
            m.append(field);
            m.append("' had unexpected value '");
            let v = lossy(val.as_slice());
            m.append(v.as_str());
            m.append("', will attempt to use default value");
        },
        DbNote::Unrecognized { name, val } => {
            let f = lossy(name.as_slice());
            m.append(f.as_str());
            m.append("' is not recognized as a valid database entry, it had value '");
            let v = lossy(val.as_slice());
            m.append(v.as_str());
            m.append("', will ignore");
        },
        DbNote::SquirrelMult { val } => {
            m.append(key::CHEESE_SIZE);
            m.append("' had unexpected value '");
            let v = lossy(val.as_slice());
            m.append(v.as_str());
            m.append("', will attempt to use default value");
        },
        DbNote::MissingEntry { field } => {
            m.append(field);
            m.append("' had no value, will attempt to use default value");
        },
    }
    proof {
        assert(m@ =~= note_text(key@, note@));
        reveal(reads_as_decoded);
    }
    m
}

/// The messages of a list of notes, in order.
pub open spec fn notes_text(key: Seq<u8>, notes: Seq<DbNoteView>) -> Seq<Seq<char>> {
    notes.map_values(|n: DbNoteView| note_text(key, n))
}

pub open spec fn strings_view(v: Seq<String>) -> Seq<Seq<char>> {
    v.map_values(|s: String| s@)
}

/// The messages of the notes that need no further reading.
pub fn notes_messages(key: &[u8], notes: &Vec<DbNote>) -> (r: Vec<String>)
    ensures
        strings_view(r@) == notes_text(key@, notes_view(notes@)),
{
    let mut r: Vec<String> = Vec::new();
    let mut i: usize = 0;
    while i < notes.len()
        invariant
            i <= notes@.len(),
            strings_view(r@) == notes_text(key@, notes_view(notes@.take(i as int))),
        decreases notes@.len() - i,
    {
        let m = note_message(key, &notes[i]);
        let ghost r0 = r@;
        let ghost mv = m@;
        r.push(m);
        proof {
            assert(strings_view(r@) =~= strings_view(r0).push(mv));
            assert(notes_view(notes@.take(i as int + 1)) =~= notes_view(notes@.take(i as int)).push(notes@[i as int]@));
            assert(notes_text(key@, notes_view(notes@.take(i as int + 1))) =~= notes_text(
                key@,
                notes_view(notes@.take(i as int)),
            ).push(note_text(key@, notes@[i as int]@)));
        }
        i = i + 1;
    }
    proof {
        assert(notes@.take(i as int) =~= notes@);
    }
    r
}

/// For each note, the text to read as an `f32` (squirrel multipliers only).
pub open spec fn float_texts(notes: Seq<DbNoteView>) -> Seq<Option<Seq<u8>>> {
    notes.map_values(|n: DbNoteView| match n {
        DbNoteView::SquirrelMult { val } => Some(val),
        _ => None,
    })
}

/// For each note, the text to read as an `f32`.
pub fn notes_float_texts(notes: &Vec<DbNote>) -> (r: Vec<Option<Vec<u8>>>)
    ensures
        r@.len() == notes@.len(),
        forall|i: int| 0 <= i < notes@.len() ==> opt_view(#[trigger] r@[i]) == float_texts(notes_view(notes@))[i],
{
    let mut r: Vec<Option<Vec<u8>>> = Vec::new();
    let mut i: usize = 0;
    while i < notes.len()
        invariant
            i <= notes@.len(),
            r@.len() == i,
            forall|j: int| 0 <= j < i ==> opt_view(#[trigger] r@[j]) == float_texts(notes_view(notes@))[j],
        decreases notes@.len() - i,
    {
        let t = match &notes[i] {
            DbNote::SquirrelMult { val } => Some(slice_to_vec(val.as_slice())),
            _ => None,
        };
        r.push(t);
        i = i + 1;
    }
    r
}

/// Whether any note still needs an `f32` read.
pub fn notes_need_floats(notes: &Vec<DbNote>) -> (r: bool)
    ensures
        r == exists|i: int| 0 <= i < notes@.len() && (#[trigger] notes@[i]) is SquirrelMult,
{
    let mut i: usize = 0;
    while i < notes.len()
        invariant
            i <= notes@.len(),
            forall|j: int| 0 <= j < i ==> !((#[trigger] notes@[j]) is SquirrelMult),
        decreases notes@.len() - i,
    {
        match &notes[i] {
            DbNote::SquirrelMult { .. } => {
                return true;
            },
            _ => {},
        }
        i = i + 1;
    }
    false
}

/// The squirrel multiplier after the notes are settled: the last one that
/// reads, or `start`.
pub open spec fn settled_bits(notes: Seq<DbNoteView>, floats: Seq<Option<u32>>, start: u32) -> u32
    decreases notes.len(),
{
    if notes.len() == 0 {
        start
    } else {
        let i = notes.len() - 1;
        if notes[i] is SquirrelMult && floats[i] is Some {
            floats[i]->Some_0
        } else {
            settled_bits(notes.drop_last(), floats, start)
        }
    }
}

/// The warnings that remain once the notes are settled: every note but the
/// squirrel multipliers that read.
pub open spec fn settled_text(key: Seq<u8>, notes: Seq<DbNoteView>, floats: Seq<Option<u32>>) -> Seq<Seq<char>>
    decreases notes.len(),
{
    if notes.len() == 0 {
        seq![]
    } else {
        let i = notes.len() - 1;
        settled_text(key, notes.drop_last(), floats) + if notes[i] is SquirrelMult && floats[i] is Some {
            seq![]
        } else {
            seq![note_text(key, notes[i])]
        }
    }
}

/// Completes the reading of a stored cheese: `floats[i]` is the `f32` bit
/// pattern that the text of note `i` reads as, if it reads. Returns the
/// warnings to send.
pub fn settle_cheese(cheese: &mut CheeseData, key: &[u8], notes: &Vec<DbNote>, floats: &Vec<Option<u32>>) -> (r: Vec<String>)
    requires
        floats@.len() == notes@.len(),
    ensures
        final(cheese)@ == (CheeseView {
            squirrel_mult_bits: settled_bits(notes_view(notes@), floats@, old(cheese).squirrel_mult_bits),
            ..old(cheese)@
        }),
        strings_view(r@) == settled_text(key@, notes_view(notes@), floats@),
{
    let mut r: Vec<String> = Vec::new();
    let mut i: usize = 0;
    let ghost start = cheese.squirrel_mult_bits;
    while i < notes.len()
        invariant
            i <= notes@.len(),
            floats@.len() == notes@.len(),
            cheese@ == (CheeseView {
                squirrel_mult_bits: settled_bits(notes_view(notes@.take(i as int)), floats@, start),
                ..old(cheese)@
            }),
            start == old(cheese).squirrel_mult_bits,
            strings_view(r@) == settled_text(key@, notes_view(notes@.take(i as int)), floats@),
        decreases notes@.len() - i,
    {
        let ghost nv = notes_view(notes@.take(i as int + 1));
        proof {
            assert(nv.drop_last() =~= notes_view(notes@.take(i as int)));
            assert(nv[i as int] == notes@[i as int]@);
        }
        let mut settled = false;
        match (&notes[i], floats[i]) {
            (DbNote::SquirrelMult { .. }, Some(bits)) => {
                cheese.squirrel_mult_bits = bits;
                settled = true;
            },
            _ => {},
        }
        if !settled {
            let m = note_message(key, &notes[i]);
            r.push(m);
        }
        proof {
            assert(strings_view(r@) =~= settled_text(key@, nv, floats@));
        }
        i = i + 1;
    }
    proof {
        assert(notes@.take(i as int) =~= notes@);
    }
    r
}

/// The warning for a stored key whose value does not read.
pub fn invalid_db_key(key: &str, val: &[u8]) -> (r: String)
    ensures
        r@ == "database warning: key '"@ + key@ + "' had unexpected value '"@ + utf8_lossy(val@)
            + "', will attempt to use default value"@,
        reads_as_decoded(val@),
{
    let mut m = String::new();
    m.append("database warning: key '");
    m.append(key);
    m.append("' had unexpected value '");
    let v = lossy(val);
    m.append(v.as_str());
    m.append("', will attempt to use default value");
    proof {
        reveal(reads_as_decoded);
    }
    m
}

/// The warning for a stored hash field that should hold a user's number.
pub fn invalid_db_uuid(key: &str, field: &[u8], val: &[u8]) -> (r: String)
    ensures
        r@ == "database warning: key '"@ + key@ + ":"@ + utf8_lossy(field@) + "' had unexpected value '"@
            + utf8_lossy(val@) + "', was expecting a valid uuid, will attempt to use default value"@,
        reads_as_decoded(field@),
        reads_as_decoded(val@),
{
    let mut m = String::new();
    m.append("database warning: key '");
    m.append(key);
    m.append(":");
    let f = lossy(field);
    m.append(f.as_str());
    m.append("' had unexpected value '");
    let v = lossy(val);
    m.append(v.as_str());
    m.append("', was expecting a valid uuid, will attempt to use default value");
    proof {
        reveal(reads_as_decoded);
    }
    m
}

/// The warning for a stored entry about to be rewritten.
pub fn invalid_db_entry_attempt_to_repair(key: &[u8], field: &[u8], val: &[u8]) -> (r: String)
    ensures
        r@ == "database warning: key '"@ + utf8_lossy(key@) + ":"@ + utf8_lossy(field@) + "' had incorrect value '"@
            + utf8_lossy(val@) + "', will attempt to repair entry"@,
        reads_as_decoded(key@),
        reads_as_decoded(field@),
        reads_as_decoded(val@),
{
    let mut m = String::new();
    m.append("database warning: key '");
    let k = lossy(key);
    m.append(k.as_str());
    m.append(":");
    let f = lossy(field);
    m.append(f.as_str());
    m.append("' had incorrect value '");
    let v = lossy(val);
    m.append(v.as_str());
    m.append("', will attempt to repair entry");
    proof {
        reveal(reads_as_decoded);
    }
    m
}

// ---------------------------------------------------------------------------
// Keys and commands
// ---------------------------------------------------------------------------

/// The key of a user's hash.
pub open spec fn user_key(uuid: u64) -> Seq<u8> {
    key::PREFIX_USER.spec_bytes() + decimal_digits(uuid as nat)
}

/// The key under which a spawned cheese is written.
pub open spec fn cheese_key(uuid: u64) -> Seq<u8> {
    key::PREFIX_CHEESE.spec_bytes() + decimal_digits(uuid as nat)
}

/// The key under which a spawned cheese is read back.
pub open spec fn cheese_data_key(uuid: u64) -> Seq<u8> {
    key::PREFIX_CHEESE_DATA.spec_bytes() + decimal_digits(uuid as nat)
}

/// The key of a cheese template named by the event.
pub open spec fn cheese_id_key(id: Seq<u8>) -> Seq<u8> {
    key::PREFIX_CHEESE.spec_bytes() + id
}

pub fn make_user_key(uuid: u64) -> (r: Vec<u8>)
    ensures
        r@ == user_key(uuid),
{
    let mut m: Vec<u8> = Vec::new();
    push_u64_prefix(&mut m, key::PREFIX_USER, uuid)
}

pub fn make_cheese_key(uuid: u64) -> (r: Vec<u8>)
    ensures
        r@ == cheese_key(uuid),
{
    let mut m: Vec<u8> = Vec::new();
    push_u64_prefix(&mut m, key::PREFIX_CHEESE, uuid)
}

pub fn make_cheese_data_key(uuid: u64) -> (r: Vec<u8>)
    ensures
        r@ == cheese_data_key(uuid),
{
    let mut m: Vec<u8> = Vec::new();
    push_u64_prefix(&mut m, key::PREFIX_CHEESE_DATA, uuid)
}

pub fn make_cheese_id_key(id: &[u8]) -> (r: Vec<u8>)
    ensures
        r@ == cheese_id_key(id@),
{
    let mut m = str_to_vec(key::PREFIX_CHEESE);
    let tail = slice_to_vec(id);
    let mut i: usize = 0;
    let ghost start = m@;
    while i < tail.len()
        invariant
            i <= tail@.len(),
            m@ == start + tail@.take(i as int),
        decreases tail@.len() - i,
    {
        m.push(tail[i]);
        assert(tail@.take(i as int + 1) =~= tail@.take(i as int).push(tail@[i as int]));
        i = i + 1;
    }
    assert(tail@.take(i as int) =~= tail@);
    m
}

/// The request for a whole hash.
pub open spec fn hgetall_cmd(key: Seq<u8>) -> CmdView {
    kept(seq![bytes("HGETALL"), ArgView::Bytes(key)])
}

/// Queues the request for a whole hash.
pub fn queue_hgetall(pipe: &mut Pipe, key: &[u8])
    ensures
        final(pipe)@ == old(pipe)@.push(hgetall_cmd(key@)),
{
    let mut args: Vec<Arg> = Vec::new();
    args.push(text("HGETALL"));
    args.push(raw(key));
    let c = Cmd { args, ignored: false };
    proof {
        assert(c@ =~= hgetall_cmd(key@));
    }
    pipe.push(c);
}

/// The command that counts up a number and replies with it.
pub open spec fn incr_cmd(name: &str) -> CmdView {
    kept(seq![bytes("INCRBY"), bytes(name), ArgView::Int(1)])
}

/// Queues the counting up of a stored number by one.
pub fn queue_incr(pipe: &mut Pipe, name: &str)
    ensures
        final(pipe)@ == old(pipe)@.push(incr_cmd(name)),
{
    let mut args: Vec<Arg> = Vec::new();
    args.push(text("INCRBY"));
    args.push(text(name));
    args.push(Arg::Int(1));
    let c = Cmd { args, ignored: false };
    proof {
        assert(c@ =~= incr_cmd(name));
    }
    pipe.push(c);
}

/// The lookup of the number of the user with the given id.
pub open spec fn user_uuid_cmd(id: Seq<u8>) -> CmdView {
    kept(seq![bytes("HGET"), bytes(key::USERUUID_HM), ArgView::Bytes(id)])
}

/// Queues the lookup of the number of the user with the given id.
pub fn queue_user_uuid(pipe: &mut Pipe, id: &[u8])
    ensures
        final(pipe)@ == old(pipe)@.push(user_uuid_cmd(id@)),
{
    let mut args: Vec<Arg> = Vec::new();
    args.push(text("HGET"));
    args.push(text(key::USERUUID_HM));
    args.push(raw(id));
    let c = Cmd { args, ignored: false };
    proof {
        assert(c@ =~= user_uuid_cmd(id@));
    }
    pipe.push(c);
}

/// The commands that store a spawned cheese: its hash, and its expiry.
pub open spec fn store_cheese_cmds(uuid: u64, cheese: CheeseView) -> Seq<CmdView> {
    seq![
        dropped(seq![bytes("HMSET"), ArgView::Bytes(cheese_key(uuid))] + cheese_args(cheese)),
        dropped(seq![bytes("EXPIRE"), ArgView::Bytes(cheese_key(uuid)), ArgView::Int(18000)]),
    ]
}

/// Queues the storing of a newly numbered cheese, which expires after five hours.
pub fn add_new_cheese(pipe: &mut Pipe, uuid: u64, cheese: &CheeseData)
    ensures
        final(pipe)@ == old(pipe)@ + store_cheese_cmds(uuid, cheese@),
{
    let k = make_cheese_key(uuid);
    let mut args: Vec<Arg> = Vec::new();
    args.push(text("HMSET"));
    args.push(raw(k.as_slice()));
    save_cheese_to_pipe(&mut args, cheese);
    let c = Cmd { args, ignored: true };
    proof {
        assert(c@ =~= store_cheese_cmds(uuid, cheese@)[0]);
    }
    pipe.push(c);
    let mut args2: Vec<Arg> = Vec::new();
    args2.push(text("EXPIRE"));
    args2.push(raw(k.as_slice()));
    args2.push(Arg::Int(18000));
    let c2 = Cmd { args: args2, ignored: true };
    proof {
        assert(c2@ =~= store_cheese_cmds(uuid, cheese@)[1]);
        assert(pipe@.push(c2@) =~= old(pipe)@ + store_cheese_cmds(uuid, cheese@));
    }
    pipe.push(c2);
}

/// The command that rewrites a spawned cheese.
pub open spec fn set_cheese_cmd(uuid: u64, cheese: CheeseView) -> CmdView {
    dropped(seq![bytes("HMSET"), ArgView::Bytes(cheese_key(uuid))] + cheese_args(cheese))
}

/// Queues the rewriting of a spawned cheese.
pub fn set_cheese(pipe: &mut Pipe, uuid: u64, cheese: &CheeseData)
    ensures
        final(pipe)@ == old(pipe)@.push(set_cheese_cmd(uuid, cheese@)),
{
    let k = make_cheese_key(uuid);
    let mut args: Vec<Arg> = Vec::new();
    args.push(text("HMSET"));
    args.push(raw(k.as_slice()));
    save_cheese_to_pipe(&mut args, cheese);
    let c = Cmd { args, ignored: true };
    proof {
        assert(c@ =~= set_cheese_cmd(uuid, cheese@));
    }
    pipe.push(c);
}

/// The commands that store a new user under `uuid`.
pub open spec fn create_user_cmds(id: Seq<u8>, uuid: u64, user: UserView) -> Seq<CmdView> {
    let link = dropped(seq![bytes("HSET"), bytes(key::USERUUID_HM), ArgView::Bytes(id), ArgView::Int(uuid as int)]);
    seq![
        link,
        dropped(seq![bytes("HMSET"), ArgView::Bytes(user_key(uuid)), bytes(key::USER_SCREEN_NAME), ArgView::Bytes(user.screen_name)]
            + match user.hat {
                Some(h) => seq![bytes(key::USER_HAT), ArgView::Bytes(h)],
                None => seq![],
            }
            + seq![
                bytes(key::USER_BODY),
                ArgView::Bytes(user.body),
                bytes(key::USER_CHEESE),
                ArgView::Int(user.cheese as int),
                bytes(key::USER_GEMS),
                ArgView::Int(user.gems as int),
            ]),
        link,
    ]
}

fn link_user_cmd(id: &[u8], uuid: u64) -> (c: Cmd)
    ensures
        c@ == create_user_cmds(id@, uuid, default_user_view())[0],
{
    let mut args: Vec<Arg> = Vec::new();
    args.push(text("HSET"));
    args.push(text(key::USERUUID_HM));
    args.push(raw(id));
    args.push(Arg::Int(uuid as i128));
    let c = Cmd { args, ignored: true };
    proof {
        assert(c@ =~= create_user_cmds(id@, uuid, default_user_view())[0]);
    }
    c
}

pub open spec fn default_user_view() -> UserView {
    crate::config::default_user(Seq::empty())
}

/// Queues the storing of a new user under `uuid`, and the link from its id.
pub fn create_user(pipe: &mut Pipe, id: &[u8], uuid: u64, user: &UserData)
    ensures
        final(pipe)@ == old(pipe)@ + create_user_cmds(id@, uuid, user@),
{
    let k = make_user_key(uuid);
    let c1 = link_user_cmd(id, uuid);
    let mut args: Vec<Arg> = Vec::new();
    args.push(text("HMSET"));
    args.push(raw(k.as_slice()));
    args.push(text(key::USER_SCREEN_NAME));
    args.push(raw(user.screen_name.as_slice()));
    match &user.hat {
        Some(hat) => {
            args.push(text(key::USER_HAT));
            args.push(raw(hat.as_slice()));
        },
        None => {},
    }
    args.push(text(key::USER_BODY));
    args.push(raw(user.body.as_slice()));
    args.push(text(key::USER_CHEESE));
    args.push(Arg::Int(user.cheese as i128));
    args.push(text(key::USER_GEMS));
    args.push(Arg::Int(user.gems as i128));
    let c2 = Cmd { args, ignored: true };
    let c3 = link_user_cmd(id, uuid);
    proof {
        assert(c2@ =~= create_user_cmds(id@, uuid, user@)[1]);
    }
    let ghost p0 = pipe@;
    pipe.push(c1);
    pipe.push(c2);
    pipe.push(c3);
    proof {
        assert(pipe@ =~= p0 + create_user_cmds(id@, uuid, user@));
    }
}

/// The text an argument is sent as: text as it is, an integer in decimal,
/// a boolean as `1` or `0`. (A float's text is left empty here: it is
/// written by the client's float formatting, which nothing here reads back.)
pub open spec fn sent_text(a: ArgView) -> Seq<u8> {
    match a {
        ArgView::Bytes(b) => b,
        ArgView::Int(i) => crate::util::int_text(i),
        ArgView::Bool(b) => bool_text(b),
        ArgView::F32Bits(_) => Seq::empty(),
    }
}

/// The field/value pairs a hash-setting command sends after its name and key.
pub open spec fn sent_pairs(args: Seq<ArgView>) -> Seq<(Seq<u8>, Seq<u8>)> {
    let fields = args.skip(2);
    Seq::new(fields.len() / 2, |i: int| (sent_text(fields[2 * i]), sent_text(fields[2 * i + 1])))
}

proof fn lemma_user_field_names()
    ensures
        user_field(key::USER_SCREEN_NAME.spec_bytes()) == UserField::ScreenName,
        user_field(key::USER_HAT.spec_bytes()) == UserField::Hat,
        user_field(key::USER_BODY.spec_bytes()) == UserField::Body,
        user_field(key::USER_CHEESE.spec_bytes()) == UserField::Cheese,
        user_field(key::USER_GEMS.spec_bytes()) == UserField::Gems,
{
    reveal_strlit("screen-name");
    reveal_strlit("hat");
    reveal_strlit("body");
    reveal_strlit("cheese");
    reveal_strlit("gems");
    vstd::string::is_ascii_spec_bytes("screen-name");
    vstd::string::is_ascii_spec_bytes("hat");
    vstd::string::is_ascii_spec_bytes("body");
    vstd::string::is_ascii_spec_bytes("cheese");
    vstd::string::is_ascii_spec_bytes("gems");
    assert(is_ascii("screen-name"));
    assert(is_ascii("hat"));
    assert(is_ascii("body"));
    assert(is_ascii("cheese"));
    assert(is_ascii("gems"));
    assert("hat".spec_bytes()[0] != "screen-name".spec_bytes()[0]);
    assert("body".spec_bytes()[0] != "screen-name".spec_bytes()[0]);
    assert("body".spec_bytes()[0] != "hat".spec_bytes()[0]);
    assert("cheese".spec_bytes()[1] != "screen-name".spec_bytes()[1]);
    assert("cheese".spec_bytes()[0] != "hat".spec_bytes()[0]);
    assert("cheese".spec_bytes()[0] != "body".spec_bytes()[0]);
    assert("gems".spec_bytes()[0] != "screen-name".spec_bytes()[0]);
    assert("gems".spec_bytes()[0] != "hat".spec_bytes()[0]);
    assert("gems".spec_bytes()[0] != "body".spec_bytes()[0]);
    assert("gems".spec_bytes()[0] != "cheese".spec_bytes()[0]);
}

/// Law: a user stored by `create_user` is read back as the same user, with
/// no warning, its numbers sent as decimal text; this holds for every user
/// whose hat is not a text that reads as "no value" and whose balances are
/// not the least `i64`.
pub proof fn law_user_read_back(id: Seq<u8>, uuid: u64, user: UserView)
    requires
        user.cheese > i64::MIN,
        user.gems > i64::MIN,
        user.hat matches Some(h) ==> !null_text(h),
    ensures
        user_of(sent_pairs(create_user_cmds(id, uuid, user)[1].args)) == user,
        user_notes(sent_pairs(create_user_cmds(id, uuid, user)[1].args)) == Seq::<DbNoteView>::empty(),
{
    lemma_user_field_names();
    crate::util::law_i64_text_roundtrip(user.cheese);
    crate::util::law_i64_text_roundtrip(user.gems);
    let args = create_user_cmds(id, uuid, user)[1].args;
    let sn = key::USER_SCREEN_NAME.spec_bytes();
    let ht = key::USER_HAT.spec_bytes();
    let bd = key::USER_BODY.spec_bytes();
    let ch = key::USER_CHEESE.spec_bytes();
    let gm = key::USER_GEMS.spec_bytes();
    let c = crate::util::int_text(user.cheese as int);
    let g = crate::util::int_text(user.gems as int);
    let p = sent_pairs(args);
    match user.hat {
        None => {
            assert(p =~= seq![(sn, user.screen_name), (bd, user.body), (ch, c), (gm, g)]);
        },
        Some(h) => {
            assert(p =~= seq![(sn, user.screen_name), (ht, h), (bd, user.body), (ch, c), (gm, g)]);
        },
    }
    reveal_with_fuel(last_user_raw, 6);
    reveal_with_fuel(last_user_i64, 6);
    reveal_with_fuel(user_field_notes, 6);
}

proof fn lemma_cheese_field_names()
    ensures
        cheese_field(crate::field::RADICAL_IMAGE.spec_bytes()) == CheeseField::Other,
        cheese_field(crate::field::TIME_MIN.spec_bytes()) == CheeseField::TimeMin,
        cheese_field(crate::field::TIME_MAX.spec_bytes()) == CheeseField::TimeMax,
        cheese_field(crate::field::SIZE.spec_bytes()) == CheeseField::Size,
        cheese_field(crate::field::ORIGINAL_SIZE.spec_bytes()) == CheeseField::OriginalSize,
        cheese_field(crate::field::SQUIRREL_MULT.spec_bytes()) == CheeseField::SquirrelMult,
        cheese_field(crate::field::SILENT.spec_bytes()) == CheeseField::Silent,
        cheese_field(crate::field::EXCLUSIVE.spec_bytes()) == CheeseField::Exclusive,
{
    reveal_strlit("image");
    reveal_strlit("radical");
    reveal_strlit("radical-image");
    reveal_strlit("time-min");
    reveal_strlit("time-max");
    reveal_strlit("size");
    reveal_strlit("gems");
    reveal_strlit("squirrel-mult");
    reveal_strlit("silent");
    reveal_strlit("exclusive");
    reveal_strlit("original-size");
    vstd::string::is_ascii_spec_bytes("image");
    vstd::string::is_ascii_spec_bytes("radical");
    vstd::string::is_ascii_spec_bytes("radical-image");
    vstd::string::is_ascii_spec_bytes("time-min");
    vstd::string::is_ascii_spec_bytes("time-max");
    vstd::string::is_ascii_spec_bytes("size");
    vstd::string::is_ascii_spec_bytes("gems");
    vstd::string::is_ascii_spec_bytes("squirrel-mult");
    vstd::string::is_ascii_spec_bytes("silent");
    vstd::string::is_ascii_spec_bytes("exclusive");
    vstd::string::is_ascii_spec_bytes("original-size");
    assert(is_ascii("image"));
    assert(is_ascii("radical"));
    assert(is_ascii("radical-image"));
    assert(is_ascii("time-min"));
    assert(is_ascii("time-max"));
    assert(is_ascii("size"));
    assert(is_ascii("gems"));
    assert(is_ascii("squirrel-mult"));
    assert(is_ascii("silent"));
    assert(is_ascii("exclusive"));
    assert(is_ascii("original-size"));
    assert("radical-image".spec_bytes()[0] != "squirrel-mult".spec_bytes()[0]);
    assert("radical-image".spec_bytes()[0] != "original-size".spec_bytes()[0]);
    assert("time-max".spec_bytes()[6] != "time-min".spec_bytes()[6]);
    assert("size".spec_bytes()[0] != "gems".spec_bytes()[0]);
    assert("original-size".spec_bytes()[0] != "squirrel-mult".spec_bytes()[0]);
}

/// The text a boolean is sent as.
pub open spec fn bool_text(b: bool) -> Seq<u8> {
    if b {
        "1".spec_bytes()
    } else {
        "0".spec_bytes()
    }
}

/// The field/value pairs of a stored cheese, as sent.
pub open spec fn stored_cheese_pairs(c: CheeseView) -> Seq<(Seq<u8>, Seq<u8>)> {
    seq![
        (crate::field::RADICAL_IMAGE.spec_bytes(), sent_text(cheese_args(c)[1])),
        (crate::field::TIME_MIN.spec_bytes(), crate::util::int_text(c.time_min as int)),
        (crate::field::TIME_MAX.spec_bytes(), crate::util::int_text(c.time_max as int)),
        (crate::field::SIZE.spec_bytes(), crate::util::int_text(c.size as int)),
        (crate::field::ORIGINAL_SIZE.spec_bytes(), crate::util::int_text(c.original_size as int)),
        (crate::field::SQUIRREL_MULT.spec_bytes(), Seq::<u8>::empty()),
        (crate::field::SILENT.spec_bytes(), bool_text(c.silent)),
        (crate::field::EXCLUSIVE.spec_bytes(), bool_text(c.exclusive)),
    ]
}

proof fn lemma_bool_text(b: bool)
    ensures
        spec_to_bool(bool_text(b)) == Some(b),
{
    reveal_strlit("0");
    reveal_strlit("1");
    reveal_strlit("true");
    vstd::string::is_ascii_spec_bytes("0");
    vstd::string::is_ascii_spec_bytes("1");
    vstd::string::is_ascii_spec_bytes("true");
    assert(is_ascii("0"));
    assert(is_ascii("1"));
    assert(is_ascii("true"));
    assert("0".spec_bytes()[0] != "1".spec_bytes()[0]);
}

proof fn lemma_stored_cheese_pairs(uuid: u64, c: CheeseView)
    ensures
        sent_pairs(store_cheese_cmds(uuid, c)[0].args) == stored_cheese_pairs(c),
{
    let args = store_cheese_cmds(uuid, c)[0].args;
    let f = cheese_args(c);
    assert(args.skip(2) =~= f);
    assert(sent_pairs(args) =~= stored_cheese_pairs(c));
}

/// Law: reading back the hash that `store_cheese_cmds` writes gives the
/// cheese's times, sizes and flags; its image and gems are not written and
/// read back as their defaults, and its radical image is written under a
/// field that the reader does not know, so that it reads back as the
/// default. This holds for every cheese whose sizes are not the least `i32`.
pub proof fn law_cheese_read_back(uuid: u64, c: CheeseView)
    requires
        c.size > i32::MIN,
        c.original_size > i32::MIN,
    ensures
        ({
            let r = cheese_of(sent_pairs(store_cheese_cmds(uuid, c)[0].args));
            &&& r.time_min == c.time_min
            &&& r.time_max == c.time_max
            &&& r.size == c.size
            &&& r.original_size == c.original_size
            &&& r.silent == c.silent
            &&& r.exclusive == c.exclusive
            &&& r.image == DEFAULT_CHEESE_IMAGE.spec_bytes()
            &&& r.gems == 0
            &&& r.radical_image == Some(DEFAULT_CHEESE_RADICAL_IMAGE.spec_bytes())
        }),
{
    lemma_stored_cheese_pairs(uuid, c);
    lemma_stored_cheese_read(c);
}

proof fn lemma_stored_cheese_read(c: CheeseView)
    requires
        c.size > i32::MIN,
        c.original_size > i32::MIN,
    ensures
        ({
            let r = cheese_of(stored_cheese_pairs(c));
            &&& r.time_min == c.time_min
            &&& r.time_max == c.time_max
            &&& r.size == c.size
            &&& r.original_size == c.original_size
            &&& r.silent == c.silent
            &&& r.exclusive == c.exclusive
            &&& r.image == DEFAULT_CHEESE_IMAGE.spec_bytes()
            &&& r.gems == 0
            &&& r.radical_image == Some(DEFAULT_CHEESE_RADICAL_IMAGE.spec_bytes())
        }),
{
    lemma_cheese_field_names();
    crate::util::law_u32_text_roundtrip(c.time_min as nat);
    crate::util::law_u32_text_roundtrip(c.time_max as nat);
    crate::util::law_i32_text_roundtrip(c.size);
    crate::util::law_i32_text_roundtrip(c.original_size);
    lemma_bool_text(c.silent);
    lemma_bool_text(c.exclusive);
    reveal_with_fuel(last_raw, 9);
    reveal_with_fuel(last_u32, 9);
    reveal_with_fuel(last_i32, 9);
    reveal_with_fuel(last_bool, 9);
    reveal_with_fuel(first_time, 9);
}

/// The commands that add `delta` to a user's balance and its rankings.
pub open spec fn incr_currency_cmds(uuid: u64, user: UserView, currency: Currency, delta: i32) -> Seq<CmdView> {
    let k = ArgView::Bytes(user_key(uuid));
    if delta == 0 {
        seq![]
    } else {
        match currency {
            Currency::CHEESE => seq![
                dropped(seq![bytes("HINCRBY"), k, bytes(key::USER_CHEESE), ArgView::Int(delta as int)]),
                dropped(seq![bytes("ZADD"), bytes(key::GLOBAL_CHEESE_RANKING), ArgView::Int(user.cheese + delta), k]),
                dropped(seq![bytes("ZINCRBY"), bytes(key::DAILY_CHEESE_RANKING), ArgView::Int(delta as int), k]),
            ],
            Currency::GEMS => seq![
                dropped(seq![bytes("HINCRBY"), k, bytes(key::USER_GEMS), ArgView::Int(delta as int)]),
                dropped(seq![bytes("ZADD"), bytes(key::GLOBAL_GEMS_RANKING), ArgView::Int(user.gems + delta), k]),
            ],
        }
    }
}

/// Whether the new balance after adding `delta` fits in an `i64`.
pub open spec fn currency_fits(user: UserView, currency: Currency, delta: i32) -> bool {
    let total = match currency {
        Currency::CHEESE => user.cheese as int,
        Currency::GEMS => user.gems as int,
    };
    i64::MIN <= total + delta <= i64::MAX
}

/// Tests `currency_fits`.
pub fn currency_fits_check(user: &UserData, currency: Currency, delta: i32) -> (r: bool)
    ensures
        r == currency_fits(user@, currency, delta),
{
    let total: i64 = match currency {
        Currency::CHEESE => user.cheese,
        Currency::GEMS => user.gems,
    };
    let s: i128 = total as i128 + delta as i128;
    i64::MIN as i128 <= s && s <= i64::MAX as i128
}

/// Queues the adding of `delta` to a user's balance, and the update of the
/// rankings (the daily ranking counts cheese only); nothing when `delta` is 0.
pub fn incr_user_currency(pipe: &mut Pipe, uuid: u64, user: &UserData, currency: Currency, delta: i32)
    requires
        delta != 0 ==> currency_fits(user@, currency, delta),
    ensures
        final(pipe)@ == old(pipe)@ + incr_currency_cmds(uuid, user@, currency, delta),
{
    if delta != 0 {
        let k = make_user_key(uuid);
        let ghost p0 = pipe@;
        let mut a1: Vec<Arg> = Vec::new();
        a1.push(text("HINCRBY"));
        a1.push(raw(k.as_slice()));
        match currency {
            Currency::CHEESE => a1.push(text(key::USER_CHEESE)),
            Currency::GEMS => a1.push(text(key::USER_GEMS)),
        }
        a1.push(Arg::Int(delta as i128));
        let c1 = Cmd { args: a1, ignored: true };
        proof {
            assert(c1@ =~= incr_currency_cmds(uuid, user@, currency, delta)[0]);
        }
        pipe.push(c1);
        match currency {
            Currency::CHEESE => {
                let new_cheese: i64 = user.cheese + delta as i64;
                let mut a2: Vec<Arg> = Vec::new();
                a2.push(text("ZADD"));
                a2.push(text(key::GLOBAL_CHEESE_RANKING));
                a2.push(Arg::Int(new_cheese as i128));
                a2.push(raw(k.as_slice()));
                let c2 = Cmd { args: a2, ignored: true };
                let mut a3: Vec<Arg> = Vec::new();
                a3.push(text("ZINCRBY"));
                a3.push(text(key::DAILY_CHEESE_RANKING));
                a3.push(Arg::Int(delta as i128));
                a3.push(raw(k.as_slice()));
                let c3 = Cmd { args: a3, ignored: true };
                proof {
                    assert(c2@ =~= incr_currency_cmds(uuid, user@, currency, delta)[1]);
                    assert(c3@ =~= incr_currency_cmds(uuid, user@, currency, delta)[2]);
                }
                pipe.push(c2);
                pipe.push(c3);
            },
            Currency::GEMS => {
                let new_gems: i64 = user.gems + delta as i64;
                let mut a2: Vec<Arg> = Vec::new();
                a2.push(text("ZADD"));
                a2.push(text(key::GLOBAL_GEMS_RANKING));
                a2.push(Arg::Int(new_gems as i128));
                a2.push(raw(k.as_slice()));
                let c2 = Cmd { args: a2, ignored: true };
                proof {
                    assert(c2@ =~= incr_currency_cmds(uuid, user@, currency, delta)[1]);
                }
                pipe.push(c2);
            },
        }
        proof {
            assert(pipe@ =~= p0 + incr_currency_cmds(uuid, user@, currency, delta));
        }
    } else {
        proof {
            assert(pipe@ =~= old(pipe)@ + incr_currency_cmds(uuid, user@, currency, delta));
        }
    }
}

/// The request for the time of the last daily reset.
pub open spec fn last_reset_cmd() -> CmdView {
    kept(seq![bytes("GET"), bytes(key::DAILY_RESET_TIMESTAMP_UNIX)])
}

/// Queues the request for the time of the last daily reset.
pub fn queue_get_last_reset_unix(pipe: &mut Pipe)
    ensures
        final(pipe)@ == old(pipe)@.push(last_reset_cmd()),
{
    let mut args: Vec<Arg> = Vec::new();
    args.push(text("GET"));
    args.push(text(key::DAILY_RESET_TIMESTAMP_UNIX));
    let c = Cmd { args, ignored: false };
    proof {
        assert(c@ =~= last_reset_cmd());
    }
    pipe.push(c);
}

/// How the reply to the request for the last reset time is read.
#[derive(Debug)]
pub enum LastReset {
    Time(i64),
    /// No readable time is stored; `warning` is sent when a stored value does not read.
    NotFound { warning: Option<String> },
    /// The connection failed.
    Fatal,
    /// The reply is not a string or nil.
    Mismatch,
}

/// Reads the reply to the request for the last reset time.
pub fn get_last_reset_unix(reply: &Result<Reply, ()>) -> (r: LastReset)
    ensures
        match reply {
            Err(()) => r is Fatal,
            Ok(Reply::Data(d)) => match spec_to_u64(d@) {
                Some(t) => r == LastReset::Time(t as i64),
                None => r matches LastReset::NotFound { warning: Some(w) } && w@ == "database warning: key '"@
                    + key::DAILY_RESET_TIMESTAMP_UNIX@ + "' had unexpected value '"@ + utf8_lossy(d@)
                    + "', will attempt to use default value"@,
            },
            Ok(Reply::Nil) => r matches LastReset::NotFound { warning: None },
            Ok(_) => r is Mismatch,
        },
{
    match reply {
        Err(()) => LastReset::Fatal,
        Ok(Reply::Data(d)) => match to_u64(d.as_slice()) {
            Some(t) => LastReset::Time(t as i64),
            None => LastReset::NotFound { warning: Some(invalid_db_key(key::DAILY_RESET_TIMESTAMP_UNIX, d.as_slice())) },
        },
        Ok(Reply::Nil) => LastReset::NotFound { warning: None },
        Ok(_) => LastReset::Mismatch,
    }
}

/// The commands of the daily reset: empty the daily ranking, store the time.
pub open spec fn daily_reset_cmds(reset_timestamp_unix: i64) -> Seq<CmdView> {
    seq![
        dropped(seq![bytes("ZREMRANGEBYRANK"), bytes(key::DAILY_CHEESE_RANKING), ArgView::Int(0), ArgView::Int(-1)]),
        dropped(seq![bytes("SET"), bytes(key::DAILY_RESET_TIMESTAMP_UNIX), ArgView::Int(reset_timestamp_unix as int)]),
    ]
}

/// Queues the daily reset.
pub fn daily_reset(pipe: &mut Pipe, reset_timestamp_unix: i64)
    ensures
        final(pipe)@ == old(pipe)@ + daily_reset_cmds(reset_timestamp_unix),
{
    let mut a1: Vec<Arg> = Vec::new();
    a1.push(text("ZREMRANGEBYRANK"));
    a1.push(text(key::DAILY_CHEESE_RANKING));
    a1.push(Arg::Int(0));
    a1.push(Arg::Int(-1));
    let c1 = Cmd { args: a1, ignored: true };
    let mut a2: Vec<Arg> = Vec::new();
    a2.push(text("SET"));
    a2.push(text(key::DAILY_RESET_TIMESTAMP_UNIX));
    a2.push(Arg::Int(reset_timestamp_unix as i128));
    let c2 = Cmd { args: a2, ignored: true };
    proof {
        assert(c1@ =~= daily_reset_cmds(reset_timestamp_unix)[0]);
        assert(c2@ =~= daily_reset_cmds(reset_timestamp_unix)[1]);
    }
    let ghost p0 = pipe@;
    pipe.push(c1);
    pipe.push(c2);
    proof {
        assert(pipe@ =~= p0 + daily_reset_cmds(reset_timestamp_unix));
    }
}

// ---------------------------------------------------------------------------
// Lookups that take round trips
// ---------------------------------------------------------------------------

/// Reads the reply to the request for the hash of the user numbered `uuid`:
/// `Done(None)` when there is no such user.
pub fn get_user_from_uuid(reply: &Result<Reply, ()>, uuid: u64) -> (r: (Sub<(), Option<(u64, UserData)>>, Vec<String>))
    ensures
        match *reply {
            Err(()) => r.0 is Fatal && r.1@.len() == 0,
            Ok(rep) => if !user_reply_readable(rep) {
                r.0 matches Sub::Panic(m) && m@ == empty_number_text() && r.1@.len() == 0
            } else {
                match spec_parse_user(rep) {
                    UserParseView::Mismatch { notes } => r.0 matches Sub::Abort(m) && m@ == mismatch_text()
                        && strings_view(r.1@) == notes_text(user_key(uuid), notes),
                    UserParseView::NotFound => r.0 matches Sub::Done(None) && r.1@.len() == 0,
                    UserParseView::Found { user, notes } => r.0 matches Sub::Done(Some((u, ud))) && u == uuid
                        && ud@ == user && strings_view(r.1@) == notes_text(user_key(uuid), notes),
                }
            },
        },
{
    match reply {
        Err(()) => (Sub::Fatal, Vec::new()),
        Ok(rep) => {
            if !is_user_reply_readable(rep) {
                return (Sub::Panic(empty_number()), Vec::new());
            }
            let key = make_user_key(uuid);
            match parse_user_reply(rep) {
                UserParse::Mismatch { notes } => {
                    let m = notes_messages(key.as_slice(), &notes);
                    (Sub::Abort(mismatch_spec()), m)
                },
                UserParse::NotFound => (Sub::Done(None), Vec::new()),
                UserParse::Found { user, notes } => {
                    let m = notes_messages(key.as_slice(), &notes);
                    (Sub::Done(Some((uuid, user))), m)
                },
            }
        },
    }
}

/// Where a lookup of a user by id stands.
#[derive(Debug)]
pub enum UserLookup {
    /// Waiting for the user's number.
    Uuid { id: Vec<u8> },
    /// Waiting for the user's hash.
    User { uuid: u64 },
}

/// Starts the lookup of the user with the given id.
pub fn get_user_from_id(pipe: &mut Pipe, id: &[u8]) -> (r: UserLookup)
    ensures
        final(pipe)@ == old(pipe)@.push(user_uuid_cmd(id@)),
        r matches UserLookup::Uuid { id: i } && i@ == id@,
{
    queue_user_uuid(pipe, id);
    UserLookup::Uuid { id: slice_to_vec(id) }
}

/// One turn of the lookup of a user by id, on the reply to its request.
/// A stored number that does not read, or none stored, means no such user.
pub fn get_user_from_id_step(pipe: &mut Pipe, st: UserLookup, reply: &Result<Reply, ()>) -> (r: (Sub<UserLookup, Option<(u64, UserData)>>, Vec<String>))
    ensures
        match st {
            UserLookup::Uuid { id } => match *reply {
                Err(()) => r.0 is Fatal && final(pipe)@ == old(pipe)@,
                Ok(Reply::Data(d)) => match spec_to_u64(d@) {
                    Some(u) => r.0 matches Sub::Wait(UserLookup::User { uuid }, Action::Flush) && uuid == u
                        && r.1@.len() == 0 && final(pipe)@ == old(pipe)@.push(hgetall_cmd(user_key(u))),
                    None => r.0 matches Sub::Done(None) && final(pipe)@ == old(pipe)@ && r.1@.len() == 1
                        && r.1@[0]@ == "database warning: key '"@ + key::USERUUID_HM@ + ":"@ + utf8_lossy(id@)
                        + "' had unexpected value '"@ + utf8_lossy(d@)
                        + "', was expecting a valid uuid, will attempt to use default value"@,
                },
                Ok(_) => r.0 matches Sub::Done(None) && final(pipe)@ == old(pipe)@ && r.1@.len() == 0,
            },
            UserLookup::User { uuid } => final(pipe)@ == old(pipe)@ && match *reply {
                Err(()) => r.0 is Fatal,
                Ok(rep) => if !user_reply_readable(rep) {
                    r.0 matches Sub::Panic(m) && m@ == empty_number_text()
                } else {
                    match spec_parse_user(rep) {
                        UserParseView::Mismatch { notes } => r.0 matches Sub::Abort(m) && m@ == mismatch_text()
                            && strings_view(r.1@) == notes_text(user_key(uuid), notes),
                        UserParseView::NotFound => r.0 matches Sub::Done(None) && r.1@.len() == 0,
                        UserParseView::Found { user, notes } => r.0 matches Sub::Done(Some((u, ud))) && u == uuid
                            && ud@ == user && strings_view(r.1@) == notes_text(user_key(uuid), notes),
                    }
                },
            },
        },
{
    match st {
        UserLookup::Uuid { id } => match reply {
            Err(()) => (Sub::Fatal, Vec::new()),
            Ok(Reply::Data(d)) => match to_u64(d.as_slice()) {
                Some(u) => {
                    let k = make_user_key(u);
                    queue_hgetall(pipe, k.as_slice());
                    (Sub::Wait(UserLookup::User { uuid: u }, Action::Flush), Vec::new())
                },
                None => {
                    let mut m: Vec<String> = Vec::new();
                    m.push(invalid_db_uuid(key::USERUUID_HM, id.as_slice(), d.as_slice()));
                    (Sub::Done(None), m)
                },
            },
            Ok(_) => (Sub::Done(None), Vec::new()),
        },
        UserLookup::User { uuid } => {
            let (sub, m) = get_user_from_uuid(reply, uuid);
            let out = match sub {
                Sub::Done(v) => Sub::Done(v),
                Sub::Fatal => Sub::Fatal,
                Sub::Abort(s) => Sub::Abort(s),
                Sub::Panic(s) => Sub::Panic(s),
                Sub::Wait(_, a) => Sub::Panic(unexpected_input()),
            };
            (out, m)
        },
    }
}

/// Where the reading of a stored cheese stands.
#[derive(Debug)]
pub enum CheeseFetch {
    /// Waiting for the cheese's hash.
    Hash { key: Vec<u8> },
    /// Waiting for the squirrel multipliers to be read as `f32`s.
    Floats { key: Vec<u8>, cheese: CheeseData, notes: Vec<DbNote> },
}

/// Starts reading the cheese stored under `key`.
pub fn get_cheese(pipe: &mut Pipe, key: Vec<u8>) -> (r: CheeseFetch)
    ensures
        final(pipe)@ == old(pipe)@.push(hgetall_cmd(key@)),
        r matches CheeseFetch::Hash { key: k } && k@ == key@,
{
    queue_hgetall(pipe, key.as_slice());
    CheeseFetch::Hash { key }
}

/// Starts reading the cheese template with the given id.
pub fn get_cheese_from_id(pipe: &mut Pipe, id: &[u8]) -> (r: CheeseFetch)
    ensures
        final(pipe)@ == old(pipe)@.push(hgetall_cmd(cheese_id_key(id@))),
        r matches CheeseFetch::Hash { key: k } && k@ == cheese_id_key(id@),
{
    get_cheese(pipe, make_cheese_id_key(id))
}

/// Starts reading the spawned cheese numbered `uuid`.
pub fn get_cheese_from_uuid(pipe: &mut Pipe, uuid: u64) -> (r: CheeseFetch)
    ensures
        final(pipe)@ == old(pipe)@.push(hgetall_cmd(cheese_data_key(uuid))),
        r matches CheeseFetch::Hash { key: k } && k@ == cheese_data_key(uuid),
{
    get_cheese(pipe, make_cheese_data_key(uuid))
}

/// All floats unread.
fn no_floats(n: usize) -> (r: Vec<Option<u32>>)
    ensures
        r@.len() == n,
        forall|i: int| 0 <= i < n ==> r@[i] is None,
{
    let mut r: Vec<Option<u32>> = Vec::new();
    let mut i: usize = 0;
    while i < n
        invariant
            i <= n,
            r@.len() == i,
            forall|j: int| 0 <= j < i ==> r@[j] is None,
        decreases n - i,
    {
        r.push(None);
        i = i + 1;
    }
    r
}

/// The cheese, and the reports, that a turn of reading a stored cheese ends
/// with, when it ends there: a readable hash whose squirrel multipliers need
/// no reading, or the multipliers read.
pub open spec fn fetched_cheese(fetch: CheeseFetch, input: Input) -> Option<(CheeseView, Seq<Seq<char>>)> {
    match (fetch, input) {
        (CheeseFetch::Hash { key }, Input::Reply(Ok(rep))) => if cheese_reply_readable(rep) {
            let (ok, c, notes) = spec_parse_cheese(rep);
            if ok && forall|i: int| 0 <= i < notes.len() ==> !((#[trigger] notes[i]) is SquirrelMult) {
                Some((c, notes_text(key@, notes)))
            } else {
                None
            }
        } else {
            None
        },
        (CheeseFetch::Floats { key, cheese, notes }, Input::Floats(f)) => if f@.len() == notes@.len() {
            Some(
                (
                    CheeseView {
                        squirrel_mult_bits: settled_bits(notes_view(notes@), f@, cheese.squirrel_mult_bits),
                        ..cheese@
                    },
                    settled_text(key@, notes_view(notes@), f@),
                ),
            )
        } else {
            None
        },
        _ => None,
    }
}

/// The key, the parsed cheese and the notes of a turn of reading a stored
/// cheese that goes on to read its squirrel multipliers: a readable hash
/// with a squirrel multiplier among its notes.
pub open spec fn asked_floats(fetch: CheeseFetch, input: Input) -> Option<(Seq<u8>, CheeseView, Seq<DbNoteView>)> {
    match (fetch, input) {
        (CheeseFetch::Hash { key }, Input::Reply(Ok(rep))) => if cheese_reply_readable(rep) {
            let (ok, c, notes) = spec_parse_cheese(rep);
            if ok && exists|i: int| 0 <= i < notes.len() && (#[trigger] notes[i]) is SquirrelMult {
                Some((key@, c, notes))
            } else {
                None
            }
        } else {
            None
        },
        _ => None,
    }
}

/// One turn of reading a stored cheese. The warnings come once the squirrel
/// multipliers are read, in the order of the fields.
pub fn get_cheese_step(st: CheeseFetch, input: Input) -> (r: (Sub<CheeseFetch, CheeseData>, Vec<String>))
    ensures
        match (st, input) {
            (CheeseFetch::Hash { key }, Input::Reply(Err(()))) => r.0 is Fatal,
            (CheeseFetch::Hash { key }, Input::Reply(Ok(rep))) => if !cheese_reply_readable(rep) {
                r.0 matches Sub::Panic(m) && m@ == empty_number_text()
            } else {
                let (ok, cheese, notes) = spec_parse_cheese(rep);
                if !ok {
                    r.0 matches Sub::Abort(m) && m@ == mismatch_text() && strings_view(r.1@) == notes_text(key@, notes)
                } else {
                    match r.0 {
                        Sub::Done(c) => c@ == cheese && strings_view(r.1@) == notes_text(key@, notes)
                            && forall|i: int| 0 <= i < notes.len() ==> !(notes[i] is SquirrelMult),
                        Sub::Wait(CheeseFetch::Floats { key: k, cheese: c, notes: n }, Action::ReadFloats(t)) =>
                            k@ == key@ && c@ == cheese && notes_view(n@) == notes && r.1@.len() == 0
                            && t@.len() == notes.len()
                            && forall|i: int| 0 <= i < notes.len() ==> opt_view(#[trigger] t@[i]) == float_texts(notes)[i]
                            && exists|i: int| 0 <= i < notes.len() && (#[trigger] notes[i]) is SquirrelMult,
                        _ => false,
                    }
                }
            },
            (CheeseFetch::Floats { key, cheese, notes }, Input::Floats(f)) => if f@.len() == notes@.len() {
                r.0 matches Sub::Done(c) && c@ == (CheeseView {
                    squirrel_mult_bits: settled_bits(notes_view(notes@), f@, cheese.squirrel_mult_bits),
                    ..cheese@
                }) && strings_view(r.1@) == settled_text(key@, notes_view(notes@), f@)
            } else {
                r.0 is Panic
            },
            _ => r.0 is Panic,
        },
        fetched_cheese(st, input) matches Some((c, reps)) ==> (r.0 matches Sub::Done(cd) && cd@ == c && strings_view(
            r.1@,
        ) == reps),
{
    match (st, input) {
        (CheeseFetch::Hash { key }, Input::Reply(reply)) => match reply {
            Err(()) => (Sub::Fatal, Vec::new()),
            Ok(rep) => {
                if !is_cheese_reply_readable(&rep) {
                    return (Sub::Panic(empty_number()), Vec::new());
                }
                match parse_cheese_reply(&rep) {
                    CheeseParse::Mismatch { notes } => {
                        let m = notes_messages(key.as_slice(), &notes);
                        (Sub::Abort(mismatch_spec()), m)
                    },
                    CheeseParse::Parsed { mut cheese, notes } => {
                        if notes_need_floats(&notes) {
                            proof {
                                let i = choose|i: int| 0 <= i < notes@.len() && (#[trigger] notes@[i]) is SquirrelMult;
                                assert(notes_view(notes@)[i] is SquirrelMult);
                            }
                            let t = notes_float_texts(&notes);
                            (Sub::Wait(CheeseFetch::Floats { key, cheese, notes }, Action::ReadFloats(t)), Vec::new())
                        } else {
                            let f = no_floats(notes.len());
                            let m = settle_cheese(&mut cheese, key.as_slice(), &notes, &f);
                            proof {
                                assert forall|i: int| 0 <= i < notes@.len() implies !(notes_view(notes@)[i] is SquirrelMult) by {
                                    assert(!(notes@[i] is SquirrelMult));
                                }
                                lemma_settle_without_floats(key@, notes_view(notes@), f@, 0);
                            }
                            (Sub::Done(cheese), m)
                        }
                    },
                }
            },
        },
        (CheeseFetch::Floats { key, mut cheese, notes }, Input::Floats(f)) => {
            if f.len() == notes.len() {
                let m = settle_cheese(&mut cheese, key.as_slice(), &notes, &f);
                (Sub::Done(cheese), m)
            } else {
                (Sub::Panic(unexpected_input()), Vec::new())
            }
        },
        _ => (Sub::Panic(unexpected_input()), Vec::new()),
    }
}

proof fn lemma_settle_without_floats(key: Seq<u8>, notes: Seq<DbNoteView>, floats: Seq<Option<u32>>, start: u32)
    requires
        floats.len() >= notes.len(),
        forall|i: int| 0 <= i < floats.len() ==> floats[i] is None,
    ensures
        settled_bits(notes, floats, start) == start,
        settled_text(key, notes, floats) == notes_text(key, notes),
    decreases notes.len(),
{
    if notes.len() > 0 {
        lemma_settle_without_floats(key, notes.drop_last(), floats, start);
        assert(notes_text(key, notes) =~= notes_text(key, notes.drop_last()).push(note_text(key, notes.last())));
    }
}

/// Where the lookup-or-creation of a user by id stands.
#[derive(Debug)]
pub enum CreateUser {
    /// Waiting for the user's number.
    Uuid { id: Vec<u8>, name: Vec<u8> },
    /// Waiting for the hash of the user with a stored number.
    User { id: Vec<u8>, name: Vec<u8>, uuid: u64, data: Vec<u8> },
    /// Waiting for a fresh number.
    Incr { id: Vec<u8>, name: Vec<u8> },
}

/// Starts looking up the user with the given id, to be created under
/// `screen_name` if there is none.
pub fn get_or_create_user_from_id(pipe: &mut Pipe, id: &[u8], screen_name: &[u8]) -> (r: CreateUser)
    ensures
        final(pipe)@ == old(pipe)@.push(user_uuid_cmd(id@)),
        r matches CreateUser::Uuid { id: i, name: n } && i@ == id@ && n@ == screen_name@,
{
    queue_user_uuid(pipe, id);
    CreateUser::Uuid { id: slice_to_vec(id), name: slice_to_vec(screen_name) }
}

fn create_default_user(pipe: &mut Pipe, id: &[u8], name: &[u8], uuid: u64) -> (r: (u64, UserData))
    ensures
        r.0 == uuid,
        r.1@ == default_user(name@),
        final(pipe)@ == old(pipe)@ + create_user_cmds(id@, uuid, default_user(name@)),
{
    let user = generate_default_user(name);
    create_user(pipe, id, uuid, &user);
    (uuid, user)
}

/// One turn of the lookup-or-creation of a user by id. A stored number that
/// does not read, or that names no stored user, is repaired by storing a new
/// user; a missing one gets a fresh number.
pub fn get_or_create_user_from_id_step(pipe: &mut Pipe, st: CreateUser, reply: &Result<Reply, ()>) -> (r: (Sub<CreateUser, (u64, UserData)>, Vec<String>))
    ensures
        match st {
            CreateUser::Uuid { id, name } => match *reply {
                Err(()) => r.0 is Fatal && final(pipe)@ == old(pipe)@,
                Ok(Reply::Data(d)) => match spec_to_u64(d@) {
                    Some(u) => r.0 matches Sub::Wait(CreateUser::User { id: i, name: n, uuid, data }, Action::Flush)
                        && i@ == id@ && n@ == name@ && uuid == u && data@ == d@ && r.1@.len() == 0
                        && final(pipe)@ == old(pipe)@.push(hgetall_cmd(user_key(u))),
                    None => r.0 matches Sub::Wait(CreateUser::Incr { id: i, name: n }, Action::Flush)
                        && i@ == id@ && n@ == name@ && final(pipe)@ == old(pipe)@.push(incr_cmd(key::MAXUUID))
                        && r.1@.len() == 1 && r.1@[0]@ == "database warning: key '"@
                        + utf8_lossy(key::USERUUID_HM.spec_bytes()) + ":"@ + utf8_lossy(id@) + "' had incorrect value '"@
                        + utf8_lossy(d@) + "', will attempt to repair entry"@,
                },
                Ok(_) => r.0 matches Sub::Wait(CreateUser::Incr { id: i, name: n }, Action::Flush)
                    && i@ == id@ && n@ == name@ && final(pipe)@ == old(pipe)@.push(incr_cmd(key::MAXUUID))
                    && r.1@.len() == 0,
            },
            CreateUser::User { id, name, uuid, data } => match *reply {
                Err(()) => r.0 is Fatal && final(pipe)@ == old(pipe)@,
                Ok(rep) => if !user_reply_readable(rep) {
                    r.0 is Panic
                } else {
                    match spec_parse_user(rep) {
                        UserParseView::Mismatch { notes } => r.0 is Abort && final(pipe)@ == old(pipe)@,
                        UserParseView::NotFound => r.0 matches Sub::Done((u, user)) && u == uuid
                            && user@ == default_user(name@)
                            && final(pipe)@ == old(pipe)@ + create_user_cmds(id@, uuid, default_user(name@)),
                        UserParseView::Found { user, notes } => r.0 matches Sub::Done((u, ud)) && u == uuid
                            && ud@ == user && final(pipe)@ == old(pipe)@,
                    }
                },
            },
            CreateUser::Incr { id, name } => match *reply {
                Err(()) => r.0 is Fatal && final(pipe)@ == old(pipe)@,
                Ok(rep) => match spec_reply_u64(rep) {
                    None => r.0 is Abort && final(pipe)@ == old(pipe)@,
                    Some(u) => r.0 matches Sub::Done((uu, user)) && uu == u && user@ == default_user(name@)
                        && final(pipe)@ == old(pipe)@ + create_user_cmds(id@, u, default_user(name@)),
                },
            },
        },
{
    match st {
        CreateUser::Uuid { id, name } => match reply {
            Err(()) => (Sub::Fatal, Vec::new()),
            Ok(Reply::Data(d)) => match to_u64(d.as_slice()) {
                Some(u) => {
                    let k = make_user_key(u);
                    queue_hgetall(pipe, k.as_slice());
                    (Sub::Wait(CreateUser::User { id, name, uuid: u, data: slice_to_vec(d.as_slice()) }, Action::Flush), Vec::new())
                },
                None => {
                    let mut m: Vec<String> = Vec::new();
                    m.push(invalid_db_entry_attempt_to_repair(key::USERUUID_HM.as_bytes(), id.as_slice(), d.as_slice()));
                    queue_incr(pipe, key::MAXUUID);
                    (Sub::Wait(CreateUser::Incr { id, name }, Action::Flush), m)
                },
            },
            Ok(_) => {
                queue_incr(pipe, key::MAXUUID);
                (Sub::Wait(CreateUser::Incr { id, name }, Action::Flush), Vec::new())
            },
        },
        CreateUser::User { id, name, uuid, data } => {
            let (sub, mut m) = get_user_from_uuid(reply, uuid);
            match sub {
                Sub::Done(Some(found)) => (Sub::Done(found), m),
                Sub::Done(None) => {
                    m.push(invalid_db_entry_attempt_to_repair(key::USERUUID_HM.as_bytes(), id.as_slice(), data.as_slice()));
                    let created = create_default_user(pipe, id.as_slice(), name.as_slice(), uuid);
                    (Sub::Done(created), m)
                },
                Sub::Fatal => (Sub::Fatal, m),
                Sub::Abort(s) => (Sub::Abort(s), m),
                Sub::Panic(s) => (Sub::Panic(s), m),
                Sub::Wait(_, _) => (Sub::Panic(unexpected_input()), m),
            }
        },
        CreateUser::Incr { id, name } => match reply {
            Err(()) => (Sub::Fatal, Vec::new()),
            Ok(rep) => match reply_u64(rep) {
                None => (Sub::Abort(mismatch_spec()), Vec::new()),
                Some(u) => {
                    let created = create_default_user(pipe, id.as_slice(), name.as_slice(), u);
                    (Sub::Done(created), Vec::new())
                },
            },
        },
    }
}

/// Starts numbering a new spawned cheese.
pub fn new_cheese_uid(pipe: &mut Pipe)
    ensures
        final(pipe)@ == old(pipe)@.push(incr_cmd(key::CHEESE_UID_MAX)),
{
    queue_incr(pipe, key::CHEESE_UID_MAX);
}

/// Reads the reply to the request for a new cheese number and queues the
/// storing of the cheese under it.
pub fn new_cheese_uid_step(pipe: &mut Pipe, cheese: &CheeseData, reply: &Result<Reply, ()>) -> (r: Sub<(), u64>)
    ensures
        match *reply {
            Err(()) => r is Fatal && final(pipe)@ == old(pipe)@,
            Ok(rep) => match spec_reply_u64(rep) {
                None => r is Abort && final(pipe)@ == old(pipe)@,
                Some(u) => r == Sub::<(), u64>::Done(u) && final(pipe)@ == old(pipe)@ + store_cheese_cmds(u, cheese@),
            },
        },
{
    match reply {
        Err(()) => Sub::Fatal,
        Ok(rep) => match reply_u64(rep) {
            None => Sub::Abort(mismatch_spec()),
            Some(u) => {
                add_new_cheese(pipe, u, cheese);
                Sub::Done(u)
            },
        },
    }
}
} // verus!
