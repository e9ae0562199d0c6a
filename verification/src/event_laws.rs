//! Laws of the event handling, over all inputs: what an award takes from its
//! payer, what a collection credits, which times a spawn takes, what a
//! request announces, and which cheese a despawn removes.
use vstd::prelude::*;
use vstd::string::*;
use crate::config::{CheeseEntry, CheeseView, Currency, SneakyMouseServer, UserView};
use crate::db;
use crate::db::CreateUser;
use crate::event;
use crate::event::EventState;
use crate::exchange::{Action, Input, Step};
use crate::field;
use crate::key;
use crate::pipe::{ArgView, CmdView, bytes};
use crate::rules;
use crate::stream;
use crate::util::{field_value, spec_to_i32, spec_to_u32, spec_to_u64, decimal_digits, law_u64_text_roundtrip};

verus! {

// ---------------------------------------------------------------------------
// What queued commands add to a stored hash
// ---------------------------------------------------------------------------

/// What command `c` adds to field `f` of the hash stored under `key`: the
/// increment of an `HINCRBY` on that key and field, 0 for any other command.
pub open spec fn hincrby_amount(c: CmdView, key: Seq<u8>, f: Seq<u8>) -> int {
    if c.args.len() == 4 && c.args[0] == bytes("HINCRBY") && c.args[1] == ArgView::Bytes(key) && c.args[2]
        == ArgView::Bytes(f) {
        match c.args[3] {
            ArgView::Int(d) => d,
            _ => 0,
        }
    } else {
        0
    }
}

/// What the commands `cmds` add, in all, to field `f` of the hash under `key`.
pub open spec fn hash_increment(cmds: Seq<CmdView>, key: Seq<u8>, f: Seq<u8>) -> int
    decreases cmds.len(),
{
    if cmds.len() == 0 {
        0
    } else {
        hash_increment(cmds.drop_last(), key, f) + hincrby_amount(cmds.last(), key, f)
    }
}

/// What the commands queued from `old` to `new` add to field `f` of the hash
/// under `key`.
pub open spec fn queued_increment(old: &SneakyMouseServer, new: &SneakyMouseServer, key: Seq<u8>, f: Seq<u8>) -> int {
    hash_increment(new.db.pipe@, key, f) - hash_increment(old.db.pipe@, key, f)
}

/// The field of a user's hash that holds a currency.
pub open spec fn currency_field(c: Currency) -> Seq<u8> {
    match c {
        Currency::CHEESE => key::USER_CHEESE.spec_bytes(),
        Currency::GEMS => key::USER_GEMS.spec_bytes(),
    }
}

pub proof fn lemma_hash_increment_append(a: Seq<CmdView>, b: Seq<CmdView>, key: Seq<u8>, f: Seq<u8>)
    ensures
        hash_increment(a + b, key, f) == hash_increment(a, key, f) + hash_increment(b, key, f),
    decreases b.len(),
{
    if b.len() == 0 {
        assert(a + b =~= a);
    } else {
        lemma_hash_increment_append(a, b.drop_last(), key, f);
        assert((a + b).drop_last() =~= a + b.drop_last());
        assert((a + b).last() == b.last());
    }
}

proof fn lemma_command_names()
    ensures
        "HINCRBY".spec_bytes() != "ZADD".spec_bytes(),
        "HINCRBY".spec_bytes() != "ZINCRBY".spec_bytes(),
        "HINCRBY".spec_bytes() != "XADD".spec_bytes(),
        key::USER_CHEESE.spec_bytes() != key::USER_GEMS.spec_bytes(),
{
    reveal_strlit("HINCRBY");
    reveal_strlit("ZADD");
    reveal_strlit("ZINCRBY");
    reveal_strlit("XADD");
    reveal_strlit("cheese");
    reveal_strlit("gems");
    vstd::string::is_ascii_spec_bytes("HINCRBY");
    vstd::string::is_ascii_spec_bytes("ZADD");
    vstd::string::is_ascii_spec_bytes("ZINCRBY");
    vstd::string::is_ascii_spec_bytes("XADD");
    vstd::string::is_ascii_spec_bytes("cheese");
    vstd::string::is_ascii_spec_bytes("gems");
    assert(is_ascii("HINCRBY"));
    assert(is_ascii("ZADD"));
    assert(is_ascii("ZINCRBY"));
    assert(is_ascii("XADD"));
    assert(is_ascii("cheese"));
    assert(is_ascii("gems"));
    assert("HINCRBY".spec_bytes()[0] != "ZADD".spec_bytes()[0]);
    assert("HINCRBY".spec_bytes()[0] != "ZINCRBY".spec_bytes()[0]);
    assert("HINCRBY".spec_bytes()[0] != "XADD".spec_bytes()[0]);
    assert("cheese".spec_bytes()[0] != "gems".spec_bytes()[0]);
}

/// A change of a user's balance adds its amount to the user's field of that
/// currency, and nothing to any other field.
pub proof fn lemma_currency_increment(uuid: u64, user: UserView, cur: Currency, delta: int, key: Seq<u8>, f: Seq<u8>)
    requires
        delta == 0 || i32::MIN <= delta <= i32::MAX,
    ensures
        hash_increment(db::incr_currency_cmds(uuid, user, cur, delta as i32), key, f) == (if key == db::user_key(uuid)
            && f == currency_field(cur) {
            delta
        } else {
            0
        }),
{
    lemma_command_names();
    let cmds = db::incr_currency_cmds(uuid, user, cur, delta as i32);
    if delta == 0 {
        assert(cmds.len() == 0);
    } else {
        reveal_with_fuel(hash_increment, 4);
        assert((delta as i32) as int == delta);
        match cur {
            Currency::CHEESE => {
                assert(cmds.drop_last().drop_last().drop_last() =~= Seq::<CmdView>::empty());
            },
            Currency::GEMS => {
                assert(cmds.drop_last().drop_last() =~= Seq::<CmdView>::empty());
            },
        }
    }
}

/// Different user numbers have different keys.
pub proof fn lemma_user_key_injective(a: u64, b: u64)
    requires
        a != b,
    ensures
        db::user_key(a) != db::user_key(b),
{
    let p = key::PREFIX_USER.spec_bytes();
    if db::user_key(a) == db::user_key(b) {
        assert(db::user_key(a).skip(p.len() as int) =~= decimal_digits(a as nat));
        assert(db::user_key(b).skip(p.len() as int) =~= decimal_digits(b as nat));
        law_u64_text_roundtrip(a);
        law_u64_text_roundtrip(b);
        assert(spec_to_u64(decimal_digits(a as nat)) == spec_to_u64(decimal_digits(b as nat)));
    }
}

// ---------------------------------------------------------------------------
// Awards and collections
// ---------------------------------------------------------------------------

/// The number that event field `f` gives, 0 where it is absent or does not
/// read as an `i32`, kept within half of `i32::MAX` either way.
pub open spec fn given_amount(e: rules::EventView, f: &str) -> int {
    let v = match field_value(e.keys, e.vals, f.spec_bytes()) {
        Some(s) => match spec_to_i32(s) {
            Some(c) => c as int,
            None => 0,
        },
        None => 0,
    };
    if v > rules::HALF_I32_MAX {
        rules::HALF_I32_MAX as int
    } else if v < -rules::HALF_I32_MAX {
        -rules::HALF_I32_MAX
    } else {
        v
    }
}

/// Law: an award with a payer that goes through takes from the payer the
/// cheese and gems passed to the receiver plus the event's costs: what
/// leaves the payer is what the receiver gets plus the cost (when the payer
/// is the receiver, the cost alone).
pub proof fn law_award_payer_pays_cost(
    old: &SneakyMouseServer,
    new: &SneakyMouseServer,
    e: rules::EventView,
    dest_id: Seq<u8>,
    dest_uuid: u64,
    dest_user: UserView,
    amounts: rules::GiveAmountsView,
    src_id: Seq<u8>,
    src_uuid: u64,
    src_user: UserView,
    prior: Seq<Seq<char>>,
    st: EventState,
    step: Step,
)
    requires
        event::src_turn(old, new, e, dest_id, dest_uuid, dest_user, amounts, src_id, src_uuid, src_user, prior, st, step),
        step.action is Flush,
    ensures
        ({
            let cheese = key::USER_CHEESE.spec_bytes();
            let gems = key::USER_GEMS.spec_bytes();
            let paid = queued_increment(old, new, db::user_key(src_uuid), cheese);
            let got = queued_increment(old, new, db::user_key(dest_uuid), cheese);
            let paid_gems = queued_increment(old, new, db::user_key(src_uuid), gems);
            let got_gems = queued_increment(old, new, db::user_key(dest_uuid), gems);
            &&& src_uuid != dest_uuid ==> paid == -got - given_amount(e, field::CHEESE_COST)
            &&& src_uuid != dest_uuid ==> paid_gems == -got_gems - given_amount(e, field::GEM_COST)
            &&& src_uuid == dest_uuid ==> paid == -given_amount(e, field::CHEESE_COST)
            &&& src_uuid == dest_uuid ==> paid_gems == -given_amount(e, field::GEM_COST)
            &&& src_uuid != dest_uuid && amounts.strat != 2 ==> got == amounts.cheese_delta
            &&& src_uuid != dest_uuid ==> got_gems == amounts.gem_delta
        }),
{
    let p = rules::spec_give_src(e, amounts, src_user);
    assert(amounts.strat != 2 ==> p.0 == amounts.cheese_delta);
    assert(p.1 == given_amount(e, field::CHEESE_COST));
    assert(p.2 == given_amount(e, field::GEM_COST));
    let (cd, cc, gc, gd) = (p.0, p.1, p.2, amounts.gem_delta);
    assert(new.db.pipe@ == old.db.pipe@ + db::incr_currency_cmds(src_uuid, src_user, Currency::CHEESE, (-cd - cc) as i32)
        + db::incr_currency_cmds(src_uuid, src_user, Currency::GEMS, (-gd - gc) as i32) + db::incr_currency_cmds(
        dest_uuid,
        dest_user,
        Currency::CHEESE,
        cd as i32,
    ) + db::incr_currency_cmds(dest_uuid, dest_user, Currency::GEMS, gd as i32) + seq![
        crate::com::cheese_award_cmd(dest_id, Some(src_id), cd as i32, gd as i32),
    ]);
    lemma_award_ledger(
        old.db.pipe@,
        new.db.pipe@,
        src_uuid,
        src_user,
        dest_uuid,
        dest_user,
        cd,
        cc,
        gd,
        gc,
        crate::com::cheese_award_cmd(dest_id, Some(src_id), cd as i32, gd as i32),
    );
}

/// What the commands of an award add to the balances of its payer and
/// receiver.
proof fn lemma_award_ledger(
    o: Seq<CmdView>,
    n: Seq<CmdView>,
    src_uuid: u64,
    src_user: UserView,
    dest_uuid: u64,
    dest_user: UserView,
    cd: int,
    cc: int,
    gd: int,
    gc: int,
    award: CmdView,
)
    requires
        -cd - cc == 0 || i32::MIN <= -cd - cc <= i32::MAX,
        -gd - gc == 0 || i32::MIN <= -gd - gc <= i32::MAX,
        cd == 0 || i32::MIN <= cd <= i32::MAX,
        gd == 0 || i32::MIN <= gd <= i32::MAX,
        award.args.len() > 0 && award.args[0] == bytes("XADD"),
        n == o + db::incr_currency_cmds(src_uuid, src_user, Currency::CHEESE, (-cd - cc) as i32)
            + db::incr_currency_cmds(src_uuid, src_user, Currency::GEMS, (-gd - gc) as i32) + db::incr_currency_cmds(
            dest_uuid,
            dest_user,
            Currency::CHEESE,
            cd as i32,
        ) + db::incr_currency_cmds(dest_uuid, dest_user, Currency::GEMS, gd as i32) + seq![award],
    ensures
        ({
            let cheese = key::USER_CHEESE.spec_bytes();
            let gems = key::USER_GEMS.spec_bytes();
            let ks = db::user_key(src_uuid);
            let kd = db::user_key(dest_uuid);
            &&& src_uuid != dest_uuid ==> hash_increment(n, ks, cheese) - hash_increment(o, ks, cheese) == -cd - cc
            &&& src_uuid != dest_uuid ==> hash_increment(n, kd, cheese) - hash_increment(o, kd, cheese) == cd
            &&& src_uuid != dest_uuid ==> hash_increment(n, ks, gems) - hash_increment(o, ks, gems) == -gd - gc
            &&& src_uuid != dest_uuid ==> hash_increment(n, kd, gems) - hash_increment(o, kd, gems) == gd
            &&& src_uuid == dest_uuid ==> hash_increment(n, ks, cheese) - hash_increment(o, ks, cheese) == -cc
            &&& src_uuid == dest_uuid ==> hash_increment(n, ks, gems) - hash_increment(o, ks, gems) == -gc
        }),
{
    let a = db::incr_currency_cmds(src_uuid, src_user, Currency::CHEESE, (-cd - cc) as i32);
    let b = db::incr_currency_cmds(src_uuid, src_user, Currency::GEMS, (-gd - gc) as i32);
    let c = db::incr_currency_cmds(dest_uuid, dest_user, Currency::CHEESE, cd as i32);
    let d = db::incr_currency_cmds(dest_uuid, dest_user, Currency::GEMS, gd as i32);
    let w = seq![award];
    lemma_command_names();
    if src_uuid != dest_uuid {
        lemma_user_key_injective(src_uuid, dest_uuid);
    }
    lemma_award_ledger_at(o, src_uuid, src_user, dest_uuid, dest_user, cd, cc, gd, gc, award, db::user_key(src_uuid), key::USER_CHEESE.spec_bytes());
    lemma_award_ledger_at(o, src_uuid, src_user, dest_uuid, dest_user, cd, cc, gd, gc, award, db::user_key(dest_uuid), key::USER_CHEESE.spec_bytes());
    lemma_award_ledger_at(o, src_uuid, src_user, dest_uuid, dest_user, cd, cc, gd, gc, award, db::user_key(src_uuid), key::USER_GEMS.spec_bytes());
    lemma_award_ledger_at(o, src_uuid, src_user, dest_uuid, dest_user, cd, cc, gd, gc, award, db::user_key(dest_uuid), key::USER_GEMS.spec_bytes());
}

proof fn lemma_award_ledger_at(
    o: Seq<CmdView>,
    src_uuid: u64,
    src_user: UserView,
    dest_uuid: u64,
    dest_user: UserView,
    cd: int,
    cc: int,
    gd: int,
    gc: int,
    award: CmdView,
    k: Seq<u8>,
    f: Seq<u8>,
)
    requires
        -cd - cc == 0 || i32::MIN <= -cd - cc <= i32::MAX,
        -gd - gc == 0 || i32::MIN <= -gd - gc <= i32::MAX,
        cd == 0 || i32::MIN <= cd <= i32::MAX,
        gd == 0 || i32::MIN <= gd <= i32::MAX,
        award.args.len() > 0 && award.args[0] == bytes("XADD"),
    ensures
        ({
            let a = db::incr_currency_cmds(src_uuid, src_user, Currency::CHEESE, (-cd - cc) as i32);
            let b = db::incr_currency_cmds(src_uuid, src_user, Currency::GEMS, (-gd - gc) as i32);
            let c = db::incr_currency_cmds(dest_uuid, dest_user, Currency::CHEESE, cd as i32);
            let d = db::incr_currency_cmds(dest_uuid, dest_user, Currency::GEMS, gd as i32);
            let ks = db::user_key(src_uuid);
            let kd = db::user_key(dest_uuid);
            hash_increment(o + a + b + c + d + seq![award], k, f) - hash_increment(o, k, f)
                == (if k == ks && f == currency_field(Currency::CHEESE) { -cd - cc } else { 0 })
                + (if k == ks && f == currency_field(Currency::GEMS) { -gd - gc } else { 0 })
                + (if k == kd && f == currency_field(Currency::CHEESE) { cd } else { 0 })
                + (if k == kd && f == currency_field(Currency::GEMS) { gd } else { 0 })
        }),
{
    let a = db::incr_currency_cmds(src_uuid, src_user, Currency::CHEESE, (-cd - cc) as i32);
    let b = db::incr_currency_cmds(src_uuid, src_user, Currency::GEMS, (-gd - gc) as i32);
    let c = db::incr_currency_cmds(dest_uuid, dest_user, Currency::CHEESE, cd as i32);
    let d = db::incr_currency_cmds(dest_uuid, dest_user, Currency::GEMS, gd as i32);
    let w = seq![award];
    lemma_command_names();
    assert(w.drop_last() =~= Seq::<CmdView>::empty());
    assert(w.last() == award);
    assert(bytes("XADD") != bytes("HINCRBY"));
    assert(hincrby_amount(award, k, f) == 0);
    assert(hash_increment(Seq::<CmdView>::empty(), k, f) == 0);
    assert(hash_increment(w, k, f) == 0);
    lemma_hash_increment_append(o + a + b + c + d, w, k, f);
    lemma_hash_increment_append(o + a + b + c, d, k, f);
    lemma_hash_increment_append(o + a + b, c, k, f);
    lemma_hash_increment_append(o + a, b, k, f);
    lemma_hash_increment_append(o, a, k, f);
    lemma_currency_increment(src_uuid, src_user, Currency::CHEESE, -cd - cc, k, f);
    lemma_currency_increment(src_uuid, src_user, Currency::GEMS, -gd - gc, k, f);
    lemma_currency_increment(dest_uuid, dest_user, Currency::CHEESE, cd, k, f);
    lemma_currency_increment(dest_uuid, dest_user, Currency::GEMS, gd, k, f);
}

/// Law: an award without a payer that goes through credits the receiver the
/// event's `cheese-delta` (unless the receiver's strategy is to saturate,
/// which may cut a withdrawal down) and its `gem-delta`, each read as 0 where
/// absent or unreadable and kept within half of `i32::MAX`.
pub proof fn law_award_credits_given_amounts(
    old: &SneakyMouseServer,
    new: &SneakyMouseServer,
    e: rules::EventView,
    dest_id: Seq<u8>,
    uuid: u64,
    user: UserView,
    prior: Seq<Seq<char>>,
    st: EventState,
    step: Step,
)
    requires
        event::dest_turn(old, new, e, dest_id, uuid, user, prior, st, step),
        event::field_of(e, field::SRC_ID) is None,
        step.action is Flush,
    ensures
        rules::strategy(dest_id).0 != 2 ==> queued_increment(old, new, db::user_key(uuid), key::USER_CHEESE.spec_bytes())
            == given_amount(e, field::CHEESE_DELTA),
        queued_increment(old, new, db::user_key(uuid), key::USER_GEMS.spec_bytes()) == given_amount(e, field::GEM_DELTA),
{
    let (a, reps) = rules::spec_give_dest(e, dest_id, user);
    assert(a.gem_delta == given_amount(e, field::GEM_DELTA));
    assert(rules::strategy(dest_id).0 != 2 ==> a.cheese_delta == given_amount(e, field::CHEESE_DELTA));
    let award = crate::com::cheese_award_cmd(dest_id, None, a.cheese_delta as i32, a.gem_delta as i32);
    let o = old.db.pipe@;
    let x = db::incr_currency_cmds(uuid, user, Currency::CHEESE, a.cheese_delta as i32);
    let y = db::incr_currency_cmds(uuid, user, Currency::GEMS, a.gem_delta as i32);
    let w = seq![award];
    assert(new.db.pipe@ == o + x + y + w);
    lemma_command_names();
    assert(w.drop_last() =~= Seq::<CmdView>::empty());
    assert(w.last() == award);
    assert(bytes("XADD") != bytes("HINCRBY"));
    let k = db::user_key(uuid);
    let cf = key::USER_CHEESE.spec_bytes();
    let gf = key::USER_GEMS.spec_bytes();
    assert(hash_increment(Seq::<CmdView>::empty(), k, cf) == 0);
    assert(hash_increment(Seq::<CmdView>::empty(), k, gf) == 0);
    assert(hincrby_amount(award, k, cf) == 0);
    assert(hincrby_amount(award, k, gf) == 0);
    lemma_hash_increment_append(o + x + y, w, k, cf);
    lemma_hash_increment_append(o + x, y, k, cf);
    lemma_hash_increment_append(o, x, k, cf);
    lemma_hash_increment_append(o + x + y, w, k, gf);
    lemma_hash_increment_append(o + x, y, k, gf);
    lemma_hash_increment_append(o, x, k, gf);
    lemma_currency_increment(uuid, user, Currency::CHEESE, a.cheese_delta, k, cf);
    lemma_currency_increment(uuid, user, Currency::GEMS, a.gem_delta, k, cf);
    lemma_currency_increment(uuid, user, Currency::CHEESE, a.cheese_delta, k, gf);
    lemma_currency_increment(uuid, user, Currency::GEMS, a.gem_delta, k, gf);
}

/// Law: a collection that goes through credits the collector the cheese's
/// current size (with a squirrel bonus, the bonus plus the size, kept within
/// the bounds of `i32`), whatever its original size, and the cheese's gems.
pub proof fn law_collect_credits_size(
    old: &SneakyMouseServer,
    new: &SneakyMouseServer,
    uuid: u64,
    user: UserView,
    cheese: CheeseView,
    bonus: Option<i32>,
    prior: Seq<Seq<char>>,
    st: EventState,
    step: Step,
)
    requires
        event::collect_turn(old, new, uuid, user, cheese, bonus, prior, st, step),
        step.action matches Action::Finish(Ok(())),
    ensures
        queued_increment(old, new, db::user_key(uuid), key::USER_CHEESE.spec_bytes()) == match bonus {
            None => cheese.size as int,
            Some(b) => if b + cheese.size > i32::MAX {
                i32::MAX as int
            } else if b + cheese.size < i32::MIN {
                i32::MIN as int
            } else {
                b + cheese.size
            },
        },
        queued_increment(old, new, db::user_key(uuid), key::USER_GEMS.spec_bytes()) == cheese.gems,
{
    let incr = rules::spec_collect_increment(cheese.size, bonus);
    let a = db::incr_currency_cmds(uuid, user, Currency::CHEESE, incr);
    let b = db::incr_currency_cmds(uuid, user, Currency::GEMS, cheese.gems);
    let k = db::user_key(uuid);
    let cheese_f = key::USER_CHEESE.spec_bytes();
    let gems_f = key::USER_GEMS.spec_bytes();
    lemma_command_names();
    assert(new.db.pipe@ == old.db.pipe@ + a + b);
    lemma_hash_increment_append(old.db.pipe@ + a, b, k, cheese_f);
    lemma_hash_increment_append(old.db.pipe@, a, k, cheese_f);
    lemma_hash_increment_append(old.db.pipe@ + a, b, k, gems_f);
    lemma_hash_increment_append(old.db.pipe@, a, k, gems_f);
    lemma_currency_increment(uuid, user, Currency::CHEESE, incr as int, k, cheese_f);
    lemma_currency_increment(uuid, user, Currency::GEMS, cheese.gems as int, k, cheese_f);
    lemma_currency_increment(uuid, user, Currency::CHEESE, incr as int, k, gems_f);
    lemma_currency_increment(uuid, user, Currency::GEMS, cheese.gems as int, k, gems_f);
}

// ---------------------------------------------------------------------------
// Spawns
// ---------------------------------------------------------------------------

/// Law: the times a spawn gives its cheese come from the event's `time-min`
/// and `time-max`: given in order, each is taken as it is; given out of
/// order, the cheese lasts the smaller; given alone, it sets both.
pub proof fn law_spawn_takes_given_times(e: rules::EventView, c: CheeseView, t: u32, m: u32)
    ensures
        ({
            let tmin = field_value(e.keys, e.vals, field::TIME_MIN.spec_bytes());
            let tmax = field_value(e.keys, e.vals, field::TIME_MAX.spec_bytes());
            let got = rules::spec_spawn_fields(e, c).0;
            &&& (tmin matches Some(a) && spec_to_u32(a) == Some(t)) && (tmax matches Some(b) && spec_to_u32(b)
                == Some(m)) ==> (if t <= m {
                got.time_min == t && got.time_max == m
            } else {
                got.time_min == m && got.time_max == m
            })
            &&& (tmin matches Some(a) && spec_to_u32(a) == Some(t)) && tmax is None ==> got.time_min == t
                && got.time_max == t
            &&& tmin is None && (tmax matches Some(b) && spec_to_u32(b) == Some(m)) ==> got.time_min == m
                && got.time_max == m
        }),
{
}

// ---------------------------------------------------------------------------
// Requests
// ---------------------------------------------------------------------------

/// Whether command `c` carries `v` as the value of its field `name`.
pub open spec fn carries(c: CmdView, name: &str, v: Seq<u8>) -> bool {
    exists|i: int| 0 <= i && i + 1 < c.args.len() && #[trigger] c.args[i] == bytes(name) && c.args[i + 1] == ArgView::Bytes(v)
}

/// Law: a request for a stored user announces, in the queue stream, the
/// room, the user's id, and the screen name, body and (when it has one) hat
/// of the user as read from the database.
pub proof fn law_request_announces_stored_user(
    old: &SneakyMouseServer,
    new: &SneakyMouseServer,
    user_id: Seq<u8>,
    room: Seq<u8>,
    create: CreateUser,
    input: Input,
    st: EventState,
    step: Step,
    user: UserView,
    notes: Seq<db::DbNoteView>,
)
    requires
        event::request_turn(old, new, user_id, room, create, input, st, step),
        create is User,
        event::reply_user(input) == Some((user, notes)),
    ensures
        new.db.pipe@.len() == old.db.pipe@.len() + 1,
        ({
            let c = new.db.pipe@.last();
            &&& c.args[0] == bytes("XADD")
            &&& c.args[1] == bytes(stream::CHEESE_QUEUE)
            &&& carries(c, field::ROOM_ID, room)
            &&& carries(c, field::USER_ID, user_id)
            &&& carries(c, field::USER_NAME, user.screen_name)
            &&& carries(c, field::MOUSE_BODY, user.body)
            &&& user.hat matches Some(h) ==> carries(c, field::MOUSE_HAT, h)
            &&& user.hat is None ==> c.args.len() == 11
        }),
{
    let c = new.db.pipe@.last();
    assert(c == crate::com::cheese_queue_cmd(room, user_id, user));
    let head = seq![
        bytes("XADD"),
        bytes(stream::CHEESE_QUEUE),
        bytes("*"),
        bytes(field::ROOM_ID),
        ArgView::Bytes(room),
        bytes(field::USER_ID),
        ArgView::Bytes(user_id),
        bytes(field::USER_NAME),
        ArgView::Bytes(user.screen_name),
        bytes(field::MOUSE_BODY),
        ArgView::Bytes(user.body),
    ];
    let tail = match user.hat {
        Some(h) => seq![bytes(field::MOUSE_HAT), ArgView::Bytes(h)],
        None => seq![],
    };
    assert(c.args == head + tail);
    assert(c.args[0] == bytes("XADD"));
    assert(c.args[1] == bytes(stream::CHEESE_QUEUE));
    assert(c.args[3] == bytes(field::ROOM_ID) && c.args[4] == ArgView::Bytes(room));
    assert(carries(c, field::ROOM_ID, room));
    assert(c.args[5] == bytes(field::USER_ID) && c.args[6] == ArgView::Bytes(user_id));
    assert(carries(c, field::USER_ID, user_id));
    assert(c.args[7] == bytes(field::USER_NAME) && c.args[8] == ArgView::Bytes(user.screen_name));
    assert(carries(c, field::USER_NAME, user.screen_name));
    assert(c.args[9] == bytes(field::MOUSE_BODY) && c.args[10] == ArgView::Bytes(user.body));
    assert(carries(c, field::MOUSE_BODY, user.body));
    if let Some(h) = user.hat {
        assert(c.args[11] == bytes(field::MOUSE_HAT) && c.args[12] == ArgView::Bytes(h));
        assert(carries(c, field::MOUSE_HAT, h));
    }
}

// ---------------------------------------------------------------------------
// Despawns
// ---------------------------------------------------------------------------

proof fn lemma_first_in_room(s: Seq<CheeseEntry>, room: Seq<u8>)
    ensures
        ({
            let r = rules::first_in_room(s, room);
            &&& -1 <= r < s.len()
            &&& r == -1 <==> forall|j: int| 0 <= j < s.len() ==> (#[trigger] s[j]).room != room
            &&& r >= 0 ==> s[r].room == room && forall|j: int| 0 <= j < r ==> (#[trigger] s[j]).room != room
        }),
    decreases s.len(),
{
    if s.len() > 0 {
        lemma_first_in_room(s.drop_last(), room);
        assert forall|j: int| 0 <= j < s.len() - 1 implies s.drop_last()[j] == s[j] by {}
    }
}

/// Law: a despawn that names a room removes from the spawned cheeses the
/// first one in that room, whatever template it was spawned from, and keeps
/// all the others; with none in the room, the cheeses stay as they were.
pub proof fn law_despawn_removes_first_in_room(s: Seq<CheeseEntry>, e: rules::EventView, room: Seq<u8>, i: int)
    requires
        e.name == stream::CHEESE_DESPAWN.spec_bytes(),
        event::field_of(e, field::ROOM_ID) == Some(room),
    ensures
        (forall|j: int| 0 <= j < s.len() ==> (#[trigger] s[j]).room != room) ==> event::despawned(s, e) == s,
        0 <= i < s.len() && s[i].room == room && (forall|j: int| 0 <= j < i ==> (#[trigger] s[j]).room != room) ==> {
            &&& event::despawned(s, e).len() == s.len() - 1
            &&& event::despawned(s, e).to_multiset() == s.to_multiset().remove(s[i])
        },
{
    broadcast use vstd::seq_lib::group_to_multiset_ensures;

    lemma_first_in_room(s, room);
    let r = rules::first_in_room(s, room);
    if 0 <= i < s.len() && s[i].room == room && (forall|j: int| 0 <= j < i ==> (#[trigger] s[j]).room != room) {
        if r < i {
            assert(s[r].room == room);
        }
        if r > i {
            assert(s[i].room != room);
        }
        assert(r == i);
        rules::law_remove_keeps_others(s, i);
        assert(s.remove(i).to_multiset() == s.to_multiset().remove(s[i]));
    }
}

} // verus!
