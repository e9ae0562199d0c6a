//! The server's procedures: handling one incoming event, the periodic
//! update, and the shutdown. Each is a sequence of turns; between turns the
//! application performs the I/O asked for (see `exchange`).
use vstd::prelude::*;
use vstd::string::*;
use std::collections::hash_map::DefaultHasher;
use std::hash::Hasher;
use vstd::std_specs::hash::DefaultHasherAdditionalSpecFns;
use crate::config::{
    CheeseData, UserData, UserView, Currency, SneakyMouseServer, CheeseEntry, CHEESE_TTL_MS,
    generate_default_cheese,
};
use crate::field;
use crate::stream;
use crate::com;
use crate::db;
use crate::db::{UserLookup, CheeseFetch, CreateUser, currency_fits};
use crate::exchange::{Action, Input, Step, Sub, unexpected_input, empty_number, empty_number_text, mismatch_text};
use crate::reply::Reply;
use crate::rules;
use crate::rules::{event_ok, field_is_nonempty, f32_bits_is_zero};
use crate::util::{
    FieldParse, byte_strs, find_field_u8s, find_field_u64, missing_field, missing_user, invalid_value,
    bytes_eq, slice_to_vec, lossy, spec_to_u64,
};
use crate::db::strings_view;
use crate::pipe::CmdView;

verus! {

/// The names of the event streams the server reads, in byte order.
pub open spec fn event_list() -> Seq<Seq<u8>> {
    seq![
        stream::DEBUG_CONSOLE.spec_bytes(),
        stream::CHEESE_COLLECT.spec_bytes(),
        stream::CHEESE_DESPAWN.spec_bytes(),
        stream::CHEESE_GIVE.spec_bytes(),
        stream::CHEESE_REQUEST.spec_bytes(),
        stream::CHEESE_SPAWN.spec_bytes(),
    ]
}

/// The names of the event streams the server reads, in byte order.
pub fn get_event_list() -> (r: Vec<&'static str>)
    ensures
        r@.map_values(|s: &str| s.spec_bytes()) == event_list(),
{
    let mut v: Vec<&'static str> = Vec::new();
    v.push(stream::DEBUG_CONSOLE);
    v.push(stream::CHEESE_COLLECT);
    v.push(stream::CHEESE_DESPAWN);
    v.push(stream::CHEESE_GIVE);
    v.push(stream::CHEESE_REQUEST);
    v.push(stream::CHEESE_SPAWN);
    proof {
        assert(v@.map_values(|s: &str| s.spec_bytes()) =~= event_list());
    }
    v
}

/// Calls rand's `Rng::gen_range` on the inclusive range `low..=high`.
/// Trusted: the result lies in the range, as rand documents; which value
/// comes is chance. rand panics on an empty range, which `requires` leaves out.
#[verifier::external_body]
fn gen_range_u32(rng: &mut rand_pcg::Lcg128Xsl64, low: u32, high: u32) -> (r: u32)
    requires
        low <= high,
    ensures
        low <= r <= high,
{
    rand::Rng::gen_range(rng, low..=high)
}

/// How long a new cheese waits before it turns, for a time `drawn` between
/// its times: the drawn time, cut to just under the lifetime of its record.
pub open spec fn spawn_timeout_of(drawn: u32) -> u64 {
    if (drawn as u64) < CHEESE_TTL_MS - 5000 {
        drawn as u64
    } else {
        (CHEESE_TTL_MS - 5000) as u64
    }
}

/// How long a new cheese waits before it turns, for a time `drawn` between
/// its times.
pub fn spawn_timeout(drawn: u32) -> (r: u64)
    ensures
        r == spawn_timeout_of(drawn),
{
    let ttl_left: u64 = CHEESE_TTL_MS - 5000;
    if (drawn as u64) < ttl_left {
        drawn as u64
    } else {
        ttl_left
    }
}

/// The hash of a cheese template id, by std's `DefaultHasher` over its bytes.
pub fn cheese_id_hash(id: &[u8]) -> (r: u64)
    ensures
        r == DefaultHasher::spec_finish(seq![id@]),
{
    let mut hasher = DefaultHasher::new();
    hasher.write(id);
    hasher.finish()
}

fn one(report: String) -> (r: Vec<String>)
    ensures
        r@ == seq![report],
{
    let mut v: Vec<String> = Vec::new();
    v.push(report);
    v
}

fn append(a: &mut Vec<String>, b: Vec<String>)
    ensures
        final(a)@ == old(a)@ + b@,
        strings_view(final(a)@) == strings_view(old(a)@) + strings_view(b@),
{
    let ghost bv = b@;
    let mut b = b;
    a.append(&mut b);
    proof {
        assert(strings_view(a@) =~= strings_view(old(a)@) + strings_view(bv));
    }
}

fn step(reports: Vec<String>, action: Action) -> (r: Step)
    ensures
        r.reports == reports,
        r.prints@.len() == 0,
        r.action == action,
{
    Step { reports, prints: Vec::new(), action }
}

fn overflow() -> (r: String)
    ensures
        r@ == "attempt to add with overflow"@,
{
    String::from_str("attempt to add with overflow")
}

/// Where the handling of an event stands between turns.
#[derive(Debug)]
pub enum EventState {
    Start,
    /// An award waits for its receiver.
    GiveDest { dest_id: Vec<u8>, lookup: UserLookup },
    /// An award waits for its payer.
    GiveSrc {
        dest_id: Vec<u8>,
        dest_uuid: u64,
        dest_user: UserData,
        amounts: rules::GiveAmounts,
        src_id: Vec<u8>,
        lookup: UserLookup,
    },
    /// Waiting for the round trip that ends the event.
    AwaitFinish,
    /// A spawn waits for the cheese it starts from.
    SpawnFetch { room: Vec<u8>, hash: u64, uid: Option<u64>, fetch: CheeseFetch },
    /// A spawn waits for the scaled size.
    SpawnScale { room: Vec<u8>, hash: u64, uid: Option<u64>, cheese: CheeseData },
    /// A spawn waits for the new cheese's number.
    SpawnUid { room: Vec<u8>, hash: u64, cheese: CheeseData },
    /// A request waits for its user.
    RequestUser { user_id: Vec<u8>, room: Vec<u8>, create: CreateUser },
    /// A collection waits for its collector.
    CollectUser { cheese_uuid: u64, lookup: UserLookup },
    /// A collection waits for its cheese.
    CollectCheese { uuid: u64, user: UserData, fetch: CheeseFetch },
    /// A collection waits for the squirrel bonus.
    CollectBonus { uuid: u64, user: UserData, cheese: CheeseData },
    Done,
}

/// What the handling of an event keeps unchanged.
pub open spec fn keeps_clock(old: &SneakyMouseServer, new: &SneakyMouseServer) -> bool {
    &&& new.cur_time_ms == old.cur_time_ms
    &&& new.last_reset_otherwise_server_genisis_unix == old.last_reset_otherwise_server_genisis_unix
}

/// Adds to a user's balance, or stops the server where the sum overflows.
fn add_currency(pipe: &mut crate::pipe::Pipe, uuid: u64, user: &UserData, currency: Currency, delta: i32) -> (ok: bool)
    ensures
        ok ==> final(pipe)@ == old(pipe)@ + db::incr_currency_cmds(uuid, user@, currency, delta),
        !ok ==> final(pipe)@ == old(pipe)@,
        ok == (delta == 0 || currency_fits(user@, currency, delta)),
{
    if delta != 0 && !db::currency_fits_check(user, currency, delta) {
        return false;
    }
    db::incr_user_currency(pipe, uuid, user, currency, delta);
    true
}

/// The turn of a spawn once its cheese `c` is known (`prior` are the
/// reports so far): the event's fields shape it (see
/// `rules::spec_spawn_fields`); with a size multiplier, the application is
/// asked to scale the size; otherwise the spawn ends as `spawn_end` says.
pub open spec fn spawn_turn(
    old: &SneakyMouseServer,
    new: &SneakyMouseServer,
    e: rules::EventView,
    room: Seq<u8>,
    hash: u64,
    uid: Option<u64>,
    c: crate::config::CheeseView,
    prior: Seq<Seq<char>>,
    st: EventState,
    step: Step,
) -> bool {
    let (c1, reps) = rules::spec_spawn_fields(e, c);
    if !nonempty(e, field::SIZE) || !nonempty(e, field::GEMS) {
        step.action is Panic
    } else {
        match field_of(e, field::SIZE_MULT) {
            Some(m) => {
                &&& strings_view(step.reports@) == prior + reps
                &&& new.db.pipe@ == old.db.pipe@
                &&& step.action matches Action::ScaleSize { size, mult } && size == c1.size && mult@ == m
                &&& st matches EventState::SpawnScale { room: r, hash: h, uid: u, cheese } && r@ == room && h == hash && u
                    == uid && cheese@ == c1
            },
            None => spawn_end(old, new, e, room, hash, uid, c1, prior + reps, st, step),
        }
    }
}

/// The end of a spawn, once the size is scaled: the event's size increment
/// is applied (see `rules::spec_spawn_size`); a cheese already spawned in
/// the room is rewritten; a new one asks for its number.
pub open spec fn spawn_end(
    old: &SneakyMouseServer,
    new: &SneakyMouseServer,
    e: rules::EventView,
    room: Seq<u8>,
    hash: u64,
    uid: Option<u64>,
    c: crate::config::CheeseView,
    prior: Seq<Seq<char>>,
    st: EventState,
    step: Step,
) -> bool {
    let (size, reps) = rules::spec_spawn_size(e, c.size);
    let c2 = crate::config::CheeseView { size: size, ..c };
    if !nonempty(e, field::SIZE_INCR) {
        step.action is Panic
    } else {
        &&& strings_view(step.reports@) == prior + reps
        &&& match uid {
            Some(u) => {
                &&& new.db.pipe@ == old.db.pipe@.push(db::set_cheese_cmd(u, c2))
                &&& st is Done
                &&& step.action matches Action::Finish(Ok(()))
            },
            None => {
                &&& new.db.pipe@ == old.db.pipe@.push(db::incr_cmd(crate::key::CHEESE_UID_MAX))
                &&& step.action is Flush
                &&& st matches EventState::SpawnUid { room: r, hash: h, cheese } && r@ == room && h == hash && cheese@ == c2
            },
        }
    }
}

/// The spawn, once the cheese it starts from is known.
fn spawn_shape(
    server: &mut SneakyMouseServer,
    event_name: &[u8],
    event_uid: &[u8],
    keys: &[&[u8]],
    vals: &[&[u8]],
    room: Vec<u8>,
    hash: u64,
    uid: Option<u64>,
    cheese: CheeseData,
    reports: Vec<String>,
) -> (r: (EventState, Step))
    requires
        old(server).wf(),
        event_ok(keys@, vals@),
    ensures
        final(server).wf(),
        keeps_clock(old(server), final(server)),
        final(server).cheeses() == old(server).cheeses(),
        spawn_turn(
            old(server),
            final(server),
            rules::event_view(event_name, event_uid, keys@, vals@),
            room@,
            hash,
            uid,
            cheese@,
            strings_view(reports@),
            r.0,
            r.1,
        ),
{
    let mut reports = reports;
    let mut cheese = cheese;
    if !field_is_nonempty(field::SIZE, keys, vals) || !field_is_nonempty(field::GEMS, keys, vals) {
        return (EventState::Done, step(reports, Action::Panic(empty_number())));
    }
    let r = rules::spawn_fields(&mut cheese, event_name, event_uid, keys, vals);
    append(&mut reports, r);
    proof {
        rules::lemma_fields_in_range(keys@, vals@, field::SIZE_MULT.spec_bytes());
    }
    match find_field_u8s(field::SIZE_MULT, keys, vals) {
        Some(m) => {
            let size = cheese.size;
            (
                EventState::SpawnScale { room, hash, uid, cheese },
                step(reports, Action::ScaleSize { size, mult: slice_to_vec(m) }),
            )
        },
        None => spawn_finish(server, event_name, event_uid, keys, vals, room, hash, uid, cheese, reports),
    }
}

/// The spawn, once the size is scaled.
fn spawn_finish(
    server: &mut SneakyMouseServer,
    event_name: &[u8],
    event_uid: &[u8],
    keys: &[&[u8]],
    vals: &[&[u8]],
    room: Vec<u8>,
    hash: u64,
    uid: Option<u64>,
    cheese: CheeseData,
    reports: Vec<String>,
) -> (r: (EventState, Step))
    requires
        old(server).wf(),
        event_ok(keys@, vals@),
    ensures
        final(server).wf(),
        keeps_clock(old(server), final(server)),
        final(server).cheeses() == old(server).cheeses(),
        spawn_end(
            old(server),
            final(server),
            rules::event_view(event_name, event_uid, keys@, vals@),
            room@,
            hash,
            uid,
            cheese@,
            strings_view(reports@),
            r.0,
            r.1,
        ),
{
    let mut reports = reports;
    let mut cheese = cheese;
    if !field_is_nonempty(field::SIZE_INCR, keys, vals) {
        return (EventState::Done, step(reports, Action::Panic(empty_number())));
    }
    let (size, r) = rules::spawn_size(cheese.size, event_name, event_uid, keys, vals);
    append(&mut reports, r);
    cheese.size = size;
    match uid {
        Some(u) => {
            db::set_cheese(&mut server.db.pipe, u, &cheese);
            (EventState::Done, step(reports, Action::Finish(Ok(()))))
        },
        None => {
            db::new_cheese_uid(&mut server.db.pipe);
            (EventState::SpawnUid { room, hash, cheese }, step(reports, Action::Flush))
        },
    }
}

/// The last turn of a collection: the collector, numbered `uuid`, is
/// credited what the cheese is worth (see `rules::spec_collect_increment`)
/// and its gems, and the rankings are updated.
pub open spec fn collect_turn(
    old: &SneakyMouseServer,
    new: &SneakyMouseServer,
    uuid: u64,
    user: UserView,
    cheese: crate::config::CheeseView,
    bonus: Option<i32>,
    prior: Seq<Seq<char>>,
    st: EventState,
    step: Step,
) -> bool {
    let incr = rules::spec_collect_increment(cheese.size, bonus);
    &&& strings_view(step.reports@) == prior
    &&& if adds(user, Currency::CHEESE, incr as int) && adds(user, Currency::GEMS, cheese.gems as int) {
        &&& new.db.pipe@ == old.db.pipe@ + db::incr_currency_cmds(uuid, user, Currency::CHEESE, incr)
            + db::incr_currency_cmds(uuid, user, Currency::GEMS, cheese.gems)
        &&& st is Done
        &&& step.action matches Action::Finish(Ok(()))
    } else {
        step.action is Panic
    }
}

/// The collection, once the collector and the cheese are known.
fn collect_finish(
    server: &mut SneakyMouseServer,
    uuid: u64,
    user: &UserData,
    cheese: &CheeseData,
    bonus: Option<i32>,
    reports: Vec<String>,
) -> (r: (EventState, Step))
    requires
        old(server).wf(),
    ensures
        final(server).wf(),
        keeps_clock(old(server), final(server)),
        final(server).cheeses() == old(server).cheeses(),
        collect_turn(old(server), final(server), uuid, user@, cheese@, bonus, strings_view(reports@), r.0, r.1),
{
    let ghost p0 = server.db.pipe@;
    let incr = rules::collect_increment(cheese.size, bonus);
    if !add_currency(&mut server.db.pipe, uuid, user, Currency::CHEESE, incr) {
        return (EventState::Done, step(reports, Action::Panic(overflow())));
    }
    if !add_currency(&mut server.db.pipe, uuid, user, Currency::GEMS, cheese.gems) {
        return (EventState::Done, step(reports, Action::Panic(overflow())));
    }
    proof {
        assert(server.db.pipe@ =~= p0 + db::incr_currency_cmds(uuid, user@, Currency::CHEESE, incr)
            + db::incr_currency_cmds(uuid, user@, Currency::GEMS, cheese.gems));
    }
    (EventState::Done, step(reports, Action::Finish(Ok(()))))
}

/// Ends the event on a part that cannot go on.
fn end_sub<S, T>(sub: Sub<S, T>, reports: Vec<String>) -> (r: (EventState, Step))
    ensures
        r.0 is Done,
        r.1.reports == reports,
        r.1.prints@.len() == 0,
        match sub {
            Sub::Fatal => r.1.action matches Action::Finish(Err(())),
            Sub::Abort(m) => r.1.action == Action::Abort(m),
            Sub::Panic(m) => r.1.action == Action::Panic(m),
            _ => r.1.action is Panic,
        },
{
    match sub {
        Sub::Fatal => (EventState::Done, step(reports, Action::Finish(Err(())))),
        Sub::Abort(m) => (EventState::Done, step(reports, Action::Abort(m))),
        Sub::Panic(m) => (EventState::Done, step(reports, Action::Panic(m))),
        _ => (EventState::Done, step(reports, Action::Panic(unexpected_input()))),
    }
}

/// Whether adding `delta` to a balance can be queued: it changes nothing, or
/// the new balance fits.
pub open spec fn adds(user: UserView, currency: Currency, delta: int) -> bool {
    delta == 0 || (i32::MIN <= delta <= i32::MAX && currency_fits(user, currency, delta as i32))
}

/// Whether the event's field `f`, where present, is not empty.
pub open spec fn nonempty(e: rules::EventView, f: &str) -> bool {
    crate::util::field_nonempty(e.keys, e.vals, f.spec_bytes())
}

/// The turn of an award once its receiver, numbered `uuid`, is known
/// (`prior` are the reports of the lookup): the receiver's check decides
/// (see `rules::spec_give_dest`); a refused award ends; with a payer, the
/// payer is looked up; without one, the receiver is credited, both
/// rankings are updated and the award is announced.
pub open spec fn dest_turn(
    old: &SneakyMouseServer,
    new: &SneakyMouseServer,
    e: rules::EventView,
    dest_id: Seq<u8>,
    uuid: u64,
    user: UserView,
    prior: Seq<Seq<char>>,
    st: EventState,
    step: Step,
) -> bool {
    let (a, reps) = rules::spec_give_dest(e, dest_id, user);
    if !nonempty(e, field::CHEESE_DELTA) || !nonempty(e, field::GEM_DELTA) {
        step.action is Panic
    } else {
        &&& strings_view(step.reports@) == prior + reps
        &&& if !a.proceed {
            &&& st is Done
            &&& step.action matches Action::Finish(Ok(()))
            &&& new.db.pipe@ == old.db.pipe@
        } else {
            match field_of(e, field::SRC_ID) {
                Some(src) => {
                    &&& new.db.pipe@ == old.db.pipe@.push(db::user_uuid_cmd(src))
                    &&& step.action is Flush
                    &&& st matches EventState::GiveSrc { src_id, dest_uuid, amounts, .. } && src_id@ == src && dest_uuid
                        == uuid && amounts@ == a
                },
                None => if adds(user, Currency::CHEESE, a.cheese_delta) && adds(user, Currency::GEMS, a.gem_delta) {
                    &&& new.db.pipe@ == old.db.pipe@ + db::incr_currency_cmds(
                        uuid,
                        user,
                        Currency::CHEESE,
                        a.cheese_delta as i32,
                    ) + db::incr_currency_cmds(uuid, user, Currency::GEMS, a.gem_delta as i32) + seq![
                        com::cheese_award_cmd(dest_id, None, a.cheese_delta as i32, a.gem_delta as i32),
                    ]
                    &&& st is AwaitFinish
                    &&& step.action is Flush
                } else {
                    step.action is Panic
                },
            }
        }
    }
}

/// The award, once the receiver is known.
#[verifier::rlimit(40)]
fn give_with_dest(
    server: &mut SneakyMouseServer,
    event_name: &[u8],
    event_uid: &[u8],
    keys: &[&[u8]],
    vals: &[&[u8]],
    dest_id: Vec<u8>,
    dest_uuid: u64,
    dest_user: UserData,
    reports: Vec<String>,
) -> (r: (EventState, Step))
    requires
        old(server).wf(),
        event_ok(keys@, vals@),
    ensures
        final(server).wf(),
        keeps_clock(old(server), final(server)),
        final(server).cheeses() == old(server).cheeses(),
        dest_turn(
            old(server),
            final(server),
            rules::event_view(event_name, event_uid, keys@, vals@),
            dest_id@,
            dest_uuid,
            dest_user@,
            strings_view(reports@),
            r.0,
            r.1,
        ),
{
    let ghost prior = strings_view(reports@);
    let ghost e = rules::event_view(event_name, event_uid, keys@, vals@);
    let mut reports = reports;
    if !field_is_nonempty(field::CHEESE_DELTA, keys, vals) || !field_is_nonempty(field::GEM_DELTA, keys, vals) {
        return (EventState::Done, step(reports, Action::Panic(empty_number())));
    }
    let (amounts, r) = rules::give_dest(event_name, event_uid, keys, vals, dest_id.as_slice(), &dest_user);
    append(&mut reports, r);
    if !amounts.proceed {
        return (EventState::Done, step(reports, Action::Finish(Ok(()))));
    }
    proof {
        rules::lemma_fields_in_range(keys@, vals@, field::SRC_ID.spec_bytes());
    }
    match find_field_u8s(field::SRC_ID, keys, vals) {
        Some(src_id) => {
            let lookup = db::get_user_from_id(&mut server.db.pipe, src_id);
            let src = slice_to_vec(src_id);
            (EventState::GiveSrc { dest_id, dest_uuid, dest_user, amounts, src_id: src, lookup }, step(reports, Action::Flush))
        },
        None => {
            let ghost p0 = server.db.pipe@;
            let ghost a = rules::spec_give_dest(e, dest_id@, dest_user@).0;
            proof {
                assert(amounts.cheese_delta == a.cheese_delta as i32);
                assert(amounts.gem_delta == a.gem_delta as i32);
            }
            if !add_currency(&mut server.db.pipe, dest_uuid, &dest_user, Currency::CHEESE, amounts.cheese_delta) {
                return (EventState::Done, step(reports, Action::Panic(overflow())));
            }
            if !add_currency(&mut server.db.pipe, dest_uuid, &dest_user, Currency::GEMS, amounts.gem_delta) {
                return (EventState::Done, step(reports, Action::Panic(overflow())));
            }
            com::cheese_award(&mut server.db.pipe, dest_id.as_slice(), None, amounts.cheese_delta, amounts.gem_delta);
            proof {
                assert(server.db.pipe@ =~= p0 + db::incr_currency_cmds(
                    dest_uuid,
                    dest_user@,
                    Currency::CHEESE,
                    a.cheese_delta as i32,
                ) + db::incr_currency_cmds(dest_uuid, dest_user@, Currency::GEMS, a.gem_delta as i32) + seq![
                    com::cheese_award_cmd(dest_id@, None, a.cheese_delta as i32, a.gem_delta as i32),
                ]);
            }
            (EventState::AwaitFinish, step(reports, Action::Flush))
        },
    }
}

/// The turn of an award once its payer, numbered `src_uuid`, is known
/// (`prior` are the reports of the lookup): the payer's check decides (see
/// `rules::spec_give_src`); a refused award ends; otherwise the payer pays
/// the cheese and gems passed on plus the costs, the receiver is credited,
/// the rankings are updated and the award is announced.
pub open spec fn src_turn(
    old: &SneakyMouseServer,
    new: &SneakyMouseServer,
    e: rules::EventView,
    dest_id: Seq<u8>,
    dest_uuid: u64,
    dest_user: UserView,
    amounts: rules::GiveAmountsView,
    src_id: Seq<u8>,
    src_uuid: u64,
    src_user: UserView,
    prior: Seq<Seq<char>>,
    st: EventState,
    step: Step,
) -> bool {
    let p = rules::spec_give_src(e, amounts, src_user);
    let half = rules::HALF_I32_MAX as int;
    if !nonempty(e, field::CHEESE_COST) || !nonempty(e, field::GEM_COST) || !(-half <= amounts.cheese_delta <= half
        && -half <= amounts.gem_delta <= half) {
        step.action is Panic
    } else {
        let (cd, cc, gc, gd) = (p.0, p.1, p.2, amounts.gem_delta);
        &&& strings_view(step.reports@) == prior + p.4
        &&& if !p.3 {
            &&& st is Done
            &&& step.action matches Action::Finish(Ok(()))
            &&& new.db.pipe@ == old.db.pipe@
        } else if adds(src_user, Currency::CHEESE, -cd - cc) && adds(src_user, Currency::GEMS, -gd - gc) && adds(
            dest_user,
            Currency::CHEESE,
            cd,
        ) && adds(dest_user, Currency::GEMS, gd) {
            &&& new.db.pipe@ == old.db.pipe@ + db::incr_currency_cmds(src_uuid, src_user, Currency::CHEESE, (-cd - cc) as i32)
                + db::incr_currency_cmds(src_uuid, src_user, Currency::GEMS, (-gd - gc) as i32) + db::incr_currency_cmds(
                dest_uuid,
                dest_user,
                Currency::CHEESE,
                cd as i32,
            ) + db::incr_currency_cmds(dest_uuid, dest_user, Currency::GEMS, gd as i32) + seq![
                com::cheese_award_cmd(dest_id, Some(src_id), cd as i32, gd as i32),
            ]
            &&& st is AwaitFinish
            &&& step.action is Flush
        } else {
            step.action is Panic
        }
    }
}

#[verifier::rlimit(40)]
/// The award, once the payer is known.
fn give_with_src(
    server: &mut SneakyMouseServer,
    event_name: &[u8],
    event_uid: &[u8],
    keys: &[&[u8]],
    vals: &[&[u8]],
    dest_id: Vec<u8>,
    dest_uuid: u64,
    dest_user: UserData,
    amounts: rules::GiveAmounts,
    src_id: Vec<u8>,
    src_uuid: u64,
    src_user: UserData,
    reports: Vec<String>,
) -> (r: (EventState, Step))
    requires
        old(server).wf(),
        event_ok(keys@, vals@),
    ensures
        final(server).wf(),
        keeps_clock(old(server), final(server)),
        final(server).cheeses() == old(server).cheeses(),
        src_turn(
            old(server),
            final(server),
            rules::event_view(event_name, event_uid, keys@, vals@),
            dest_id@,
            dest_uuid,
            dest_user@,
            amounts@,
            src_id@,
            src_uuid,
            src_user@,
            strings_view(reports@),
            r.0,
            r.1,
        ),
{
    let ghost e = rules::event_view(event_name, event_uid, keys@, vals@);
    let ghost p0 = server.db.pipe@;
    let mut reports = reports;
    if !field_is_nonempty(field::CHEESE_COST, keys, vals) || !field_is_nonempty(field::GEM_COST, keys, vals) {
        return (EventState::Done, step(reports, Action::Panic(empty_number())));
    }
    if !(-rules::HALF_I32_MAX <= amounts.cheese_delta && amounts.cheese_delta <= rules::HALF_I32_MAX
        && -rules::HALF_I32_MAX <= amounts.gem_delta && amounts.gem_delta <= rules::HALF_I32_MAX) {
        return (EventState::Done, step(reports, Action::Panic(unexpected_input())));
    }
    let (pay, r) = rules::give_src(event_name, event_uid, keys, vals, &amounts, &src_user);
    append(&mut reports, r);
    if !pay.proceed {
        return (EventState::Done, step(reports, Action::Finish(Ok(()))));
    }
    let cd = pay.cheese_delta;
    let gd = amounts.gem_delta;
    if !add_currency(&mut server.db.pipe, src_uuid, &src_user, Currency::CHEESE, -cd - pay.cheese_cost) {
        return (EventState::Done, step(reports, Action::Panic(overflow())));
    }
    if !add_currency(&mut server.db.pipe, src_uuid, &src_user, Currency::GEMS, -gd - pay.gem_cost) {
        return (EventState::Done, step(reports, Action::Panic(overflow())));
    }
    if !add_currency(&mut server.db.pipe, dest_uuid, &dest_user, Currency::CHEESE, cd) {
        return (EventState::Done, step(reports, Action::Panic(overflow())));
    }
    if !add_currency(&mut server.db.pipe, dest_uuid, &dest_user, Currency::GEMS, gd) {
        return (EventState::Done, step(reports, Action::Panic(overflow())));
    }
    com::cheese_award(&mut server.db.pipe, dest_id.as_slice(), Some(src_id.as_slice()), cd, gd);
    proof {
        let ghost p = rules::spec_give_src(e, amounts@, src_user@);
        assert(server.db.pipe@ =~= p0 + db::incr_currency_cmds(src_uuid, src_user@, Currency::CHEESE, (-p.0 - p.1) as i32)
            + db::incr_currency_cmds(src_uuid, src_user@, Currency::GEMS, (-gd - p.2) as i32) + db::incr_currency_cmds(
            dest_uuid,
            dest_user@,
            Currency::CHEESE,
            p.0 as i32,
        ) + db::incr_currency_cmds(dest_uuid, dest_user@, Currency::GEMS, gd as i32) + seq![
            com::cheese_award_cmd(dest_id@, Some(src_id@), p.0 as i32, gd as i32),
        ]);
    }
    (EventState::AwaitFinish, step(reports, Action::Flush))
}

/// Whether the event is the one named `name`.
fn is_event(event_name: &[u8], name: &str) -> (r: bool)
    ensures
        r == (event_name@ == name.spec_bytes()),
{
    bytes_eq(event_name, name.as_bytes())
}

/// An award's turn while its receiver is looked up.
fn give_dest_turn(
    server: &mut SneakyMouseServer,
    event_name: &[u8],
    event_uid: &[u8],
    keys: &[&[u8]],
    vals: &[&[u8]],
    dest_id: Vec<u8>,
    lookup: UserLookup,
    input: Input,
) -> (r: (EventState, Step))
    requires
        old(server).wf(),
        event_ok(keys@, vals@),
    ensures
        final(server).wf(),
        keeps_clock(old(server), final(server)),
        final(server).cheeses() == old(server).cheeses(),
        no_user(lookup, input) ==> ends_no_user(old(server), final(server), rules::event_view(event_name, event_uid, keys@, vals@), field::DEST_ID, r.0, r.1),
        lost(input) ==> ends_lost(old(server), final(server), r.0, r.1),
        lookup matches UserLookup::User { uuid } ==> stops_on_bad_user(old(server), final(server), uuid, input, r.0, r.1),
        number_read(lookup, input) matches Some(u) ==> {
            &&& asks_user(old(server), final(server), u, r.1)
            &&& r.0 matches EventState::GiveDest { dest_id: d2, lookup: UserLookup::User { uuid } } && d2@ == dest_id@
                && uuid == u
        },
        lookup matches UserLookup::User { uuid } ==> (reply_user(input) is Some ==> dest_turn(
            old(server),
            final(server),
            rules::event_view(event_name, event_uid, keys@, vals@),
            dest_id@,
            uuid,
            (reply_user(input)->0).0,
            db::notes_text(db::user_key(uuid), (reply_user(input)->0).1),
            r.0,
            r.1,
        )),
{
    let reply = match input {
        Input::Reply(r) => r,
        _ => {
            return (EventState::Done, step(Vec::new(), Action::Panic(unexpected_input())));
        },
    };
    let (sub, mut reports) = db::get_user_from_id_step(&mut server.db.pipe, lookup, &reply);
    match sub {
        Sub::Wait(l, a) => (EventState::GiveDest { dest_id, lookup: l }, step(reports, a)),
        Sub::Done(None) => {
            let m = missing_user(event_name, event_uid, keys, vals, field::DEST_ID);
            let ghost before = strings_view(reports@);
            let ghost mv = m@;
            reports.push(m);
            proof {
                assert(strings_view(reports@) =~= before.push(mv));
                if before.len() == 0 {
                    assert(before.push(mv) =~= seq![mv]);
                }
            }
            (EventState::Done, step(reports, Action::Finish(Ok(()))))
        },
        Sub::Done(Some((uuid, user))) => give_with_dest(
            server,
            event_name,
            event_uid,
            keys,
            vals,
            dest_id,
            uuid,
            user,
            reports,
        ),
        other => end_sub(other, reports),
    }
}

/// An award's turn while its payer is looked up.
fn give_src_turn(
    server: &mut SneakyMouseServer,
    event_name: &[u8],
    event_uid: &[u8],
    keys: &[&[u8]],
    vals: &[&[u8]],
    dest_id: Vec<u8>,
    dest_uuid: u64,
    dest_user: UserData,
    amounts: rules::GiveAmounts,
    src_id: Vec<u8>,
    lookup: UserLookup,
    input: Input,
) -> (r: (EventState, Step))
    requires
        old(server).wf(),
        event_ok(keys@, vals@),
    ensures
        final(server).wf(),
        keeps_clock(old(server), final(server)),
        final(server).cheeses() == old(server).cheeses(),
        no_user(lookup, input) ==> ends_no_user(old(server), final(server), rules::event_view(event_name, event_uid, keys@, vals@), field::DEST_ID, r.0, r.1),
        lost(input) ==> ends_lost(old(server), final(server), r.0, r.1),
        lookup matches UserLookup::User { uuid } ==> stops_on_bad_user(old(server), final(server), uuid, input, r.0, r.1),
        number_read(lookup, input) matches Some(u) ==> {
            &&& asks_user(old(server), final(server), u, r.1)
            &&& r.0 matches EventState::GiveSrc {
                dest_id: d2,
                dest_uuid: du,
                dest_user: dd,
                amounts: a2,
                src_id: s2,
                lookup: UserLookup::User { uuid },
            } && d2@ == dest_id@ && du == dest_uuid && dd@ == dest_user@ && a2@ == amounts@ && s2@ == src_id@ && uuid == u
        },
        lookup matches UserLookup::User { uuid } ==> (reply_user(input) is Some ==> src_turn(
            old(server),
            final(server),
            rules::event_view(event_name, event_uid, keys@, vals@),
            dest_id@,
            dest_uuid,
            dest_user@,
            amounts@,
            src_id@,
            uuid,
            (reply_user(input)->0).0,
            db::notes_text(db::user_key(uuid), (reply_user(input)->0).1),
            r.0,
            r.1,
        )),
{
    let reply = match input {
        Input::Reply(r) => r,
        _ => {
            return (EventState::Done, step(Vec::new(), Action::Panic(unexpected_input())));
        },
    };
    let (sub, mut reports) = db::get_user_from_id_step(&mut server.db.pipe, lookup, &reply);
    match sub {
        Sub::Wait(l, a) => (
            EventState::GiveSrc { dest_id, dest_uuid, dest_user, amounts, src_id, lookup: l },
            step(reports, a),
        ),
        Sub::Done(None) => {
            let m = missing_user(event_name, event_uid, keys, vals, field::DEST_ID);
            let ghost before = strings_view(reports@);
            let ghost mv = m@;
            reports.push(m);
            proof {
                assert(strings_view(reports@) =~= before.push(mv));
                if before.len() == 0 {
                    assert(before.push(mv) =~= seq![mv]);
                }
            }
            (EventState::Done, step(reports, Action::Finish(Ok(()))))
        },
        Sub::Done(Some((uuid, user))) => give_with_src(
            server,
            event_name,
            event_uid,
            keys,
            vals,
            dest_id,
            dest_uuid,
            dest_user,
            amounts,
            src_id,
            uuid,
            user,
            reports,
        ),
        other => end_sub(other, reports),
    }
}

/// A spawn's turn while its cheese is read.
fn spawn_fetch_turn(
    server: &mut SneakyMouseServer,
    event_name: &[u8],
    event_uid: &[u8],
    keys: &[&[u8]],
    vals: &[&[u8]],
    room: Vec<u8>,
    hash: u64,
    uid: Option<u64>,
    fetch: CheeseFetch,
    input: Input,
) -> (r: (EventState, Step))
    requires
        old(server).wf(),
        event_ok(keys@, vals@),
    ensures
        final(server).wf(),
        keeps_clock(old(server), final(server)),
        final(server).cheeses() == old(server).cheeses(),
        fetch is Hash && lost(input) ==> ends_lost(old(server), final(server), r.0, r.1),
        stops_on_bad_cheese(old(server), final(server), fetch, input, r.0, r.1),
        db::asked_floats(fetch, input) matches Some((k, c, notes)) ==> {
            &&& final(server).db.pipe@ == old(server).db.pipe@
            &&& r.0 matches EventState::SpawnFetch { room: r2, hash: h2, uid: u2, fetch: f2 } && r2@ == room@ && h2 == hash
                && u2 == uid && asks_floats(k, c, notes, f2, r.1)
        },
        db::fetched_cheese(fetch, input) matches Some((c, reps)) ==> spawn_turn(
            old(server),
            final(server),
            rules::event_view(event_name, event_uid, keys@, vals@),
            room@,
            hash,
            uid,
            c,
            reps,
            r.0,
            r.1,
        ),
{
    let (sub, reports) = db::get_cheese_step(fetch, input);
    match sub {
        Sub::Wait(f, a) => (EventState::SpawnFetch { room, hash, uid, fetch: f }, step(reports, a)),
        Sub::Done(cheese) => spawn_shape(
            server,
            event_name,
            event_uid,
            keys,
            vals,
            room,
            hash,
            uid,
            cheese,
            reports,
        ),
        other => end_sub(other, reports),
    }
}

/// A spawn's turn once its new cheese is numbered.
fn spawn_uid_turn(
    server: &mut SneakyMouseServer,
    room: Vec<u8>,
    hash: u64,
    cheese: CheeseData,
    input: Input,
) -> (r: (EventState, Step))
    requires
        old(server).wf(),
    ensures
        final(server).wf(),
        keeps_clock(old(server), final(server)),
        spawn_uid_cheeses(old(server).cheeses(), final(server).cheeses(), room@, hash, cheese, input),
        match input {
            Input::Reply(Ok(rep)) => match crate::reply::spec_reply_u64(rep) {
                Some(u) => if cheese.time_min <= cheese.time_max {
                    &&& final(server).db.pipe@ == old(server).db.pipe@ + db::store_cheese_cmds(u, cheese@)
                    &&& r.1.action matches Action::Finish(Ok(()))
                } else {
                    r.1.action is Panic
                },
                None => r.1.action is Abort && final(server).db.pipe@ == old(server).db.pipe@,
            },
            Input::Reply(Err(())) => r.1.action matches Action::Finish(Err(())),
            _ => r.1.action is Panic,
        },
{
    let reply = match input {
        Input::Reply(r) => r,
        _ => {
            return (EventState::Done, step(Vec::new(), Action::Panic(unexpected_input())));
        },
    };
    match db::new_cheese_uid_step(&mut server.db.pipe, &cheese, &reply) {
        Sub::Done(u) => {
            if cheese.time_min > cheese.time_max {
                return (
                    EventState::Done,
                    step(
                        Vec::new(),
                        Action::Panic(String::from_str("UniformSampler::sample_single_inclusive: low > high")),
                    ),
                );
            }
            let ms = gen_range_u32(&mut server.rng, cheese.time_min, cheese.time_max);
            let timeout: u64 = spawn_timeout(ms);
            let ghost before = server.cheeses();
            let ghost rv = room@;
            rules::push_cheese(server, timeout, u, room, hash);
            proof {
                assert(server.cheeses() == before.push(CheeseEntry { timeout, uid: u, room: rv, id: hash }));
            }
            (EventState::Done, step(Vec::new(), Action::Finish(Ok(()))))
        },
        other => end_sub(other, Vec::new()),
    }
}

/// A request's turn while its user is looked up or stored.
fn request_user_turn(
    server: &mut SneakyMouseServer,
    user_id: Vec<u8>,
    room: Vec<u8>,
    create: CreateUser,
    input: Input,
) -> (r: (EventState, Step))
    requires
        old(server).wf(),
    ensures
        final(server).wf(),
        keeps_clock(old(server), final(server)),
        final(server).cheeses() == old(server).cheeses(),
        request_turn(old(server), final(server), user_id@, room@, create, input, r.0, r.1),
{
    let reply = match input {
        Input::Reply(r) => r,
        _ => {
            return (EventState::Done, step(Vec::new(), Action::Panic(unexpected_input())));
        },
    };
    let (sub, reports) = db::get_or_create_user_from_id_step(&mut server.db.pipe, create, &reply);
    match sub {
        Sub::Wait(c, a) => (EventState::RequestUser { user_id, room, create: c }, step(reports, a)),
        Sub::Done((uuid, user)) => {
            let ghost p1 = server.db.pipe@;
            com::cheese_queue(&mut server.db.pipe, room.as_slice(), user_id.as_slice(), &user);
            proof {
                assert(server.db.pipe@ =~= p1 + seq![com::cheese_queue_cmd(room@, user_id@, user@)]);
            }
            (EventState::AwaitFinish, step(reports, Action::Flush))
        },
        other => end_sub(other, reports),
    }
}

/// A collection's turn while its collector is looked up.
fn collect_user_turn(
    server: &mut SneakyMouseServer,
    event_name: &[u8],
    event_uid: &[u8],
    keys: &[&[u8]],
    vals: &[&[u8]],
    cheese_uuid: u64,
    lookup: UserLookup,
    input: Input,
) -> (r: (EventState, Step))
    requires
        old(server).wf(),
        event_ok(keys@, vals@),
    ensures
        final(server).wf(),
        keeps_clock(old(server), final(server)),
        final(server).cheeses() == old(server).cheeses(),
        no_user(lookup, input) ==> ends_no_user(old(server), final(server), rules::event_view(event_name, event_uid, keys@, vals@), field::USER_ID, r.0, r.1),
        lost(input) ==> ends_lost(old(server), final(server), r.0, r.1),
        lookup matches UserLookup::User { uuid } ==> stops_on_bad_user(old(server), final(server), uuid, input, r.0, r.1),
        number_read(lookup, input) matches Some(u) ==> {
            &&& asks_user(old(server), final(server), u, r.1)
            &&& r.0 matches EventState::CollectUser { cheese_uuid: c2, lookup: UserLookup::User { uuid } } && c2
                == cheese_uuid && uuid == u
        },
        lookup matches UserLookup::User { uuid } ==> (reply_user(input) matches Some((user, notes)) ==> {
            &&& final(server).db.pipe@ == old(server).db.pipe@.push(db::hgetall_cmd(db::cheese_data_key(cheese_uuid)))
            &&& r.1.action is Flush
            &&& strings_view(r.1.reports@) == db::notes_text(db::user_key(uuid), notes)
            &&& r.0 matches EventState::CollectCheese { uuid: u2, user: ud, fetch: CheeseFetch::Hash { key } } && u2 == uuid
                && ud@ == user && key@ == db::cheese_data_key(cheese_uuid)
        }),
{
    let reply = match input {
        Input::Reply(r) => r,
        _ => {
            return (EventState::Done, step(Vec::new(), Action::Panic(unexpected_input())));
        },
    };
    let (sub, mut reports) = db::get_user_from_id_step(&mut server.db.pipe, lookup, &reply);
    match sub {
        Sub::Wait(l, a) => (EventState::CollectUser { cheese_uuid, lookup: l }, step(reports, a)),
        Sub::Done(None) => {
            let m = missing_user(event_name, event_uid, keys, vals, field::USER_ID);
            let ghost before = strings_view(reports@);
            let ghost mv = m@;
            reports.push(m);
            proof {
                assert(strings_view(reports@) =~= before.push(mv));
                if before.len() == 0 {
                    assert(before.push(mv) =~= seq![mv]);
                }
            }
            (EventState::Done, step(reports, Action::Finish(Ok(()))))
        },
        Sub::Done(Some((uuid, user))) => {
            let fetch = db::get_cheese_from_uuid(&mut server.db.pipe, cheese_uuid);
            (EventState::CollectCheese { uuid, user, fetch }, step(reports, Action::Flush))
        },
        other => end_sub(other, reports),
    }
}

/// A collection's turn while its cheese is read.
fn collect_cheese_turn(server: &mut SneakyMouseServer, uuid: u64, user: UserData, fetch: CheeseFetch, input: Input) -> (r: (
    EventState,
    Step,
))
    requires
        old(server).wf(),
    ensures
        final(server).wf(),
        keeps_clock(old(server), final(server)),
        final(server).cheeses() == old(server).cheeses(),
        fetch is Hash && lost(input) ==> ends_lost(old(server), final(server), r.0, r.1),
        stops_on_bad_cheese(old(server), final(server), fetch, input, r.0, r.1),
        db::asked_floats(fetch, input) matches Some((k, c, notes)) ==> {
            &&& final(server).db.pipe@ == old(server).db.pipe@
            &&& r.0 matches EventState::CollectCheese { uuid: u2, user: ud, fetch: f2 } && u2 == uuid && ud@ == user@
                && asks_floats(k, c, notes, f2, r.1)
        },
        db::fetched_cheese(fetch, input) matches Some((c, reps)) ==> (if rules::f32_is_zero(c.squirrel_mult_bits) {
            collect_turn(old(server), final(server), uuid, user@, c, None, reps, r.0, r.1)
        } else {
            &&& r.1.action matches Action::SquirrelBonus { cheese, mult_bits } && cheese == user.cheese
                && mult_bits == c.squirrel_mult_bits
            &&& final(server).db.pipe@ == old(server).db.pipe@
            &&& strings_view(r.1.reports@) == reps
            &&& r.0 matches EventState::CollectBonus { cheese: c2, .. } && c2@ == c
        }),
{
    let (sub, reports) = db::get_cheese_step(fetch, input);
    match sub {
        Sub::Wait(f, a) => (EventState::CollectCheese { uuid, user, fetch: f }, step(reports, a)),
        Sub::Done(cheese) => {
            if f32_bits_is_zero(cheese.squirrel_mult_bits) {
                collect_finish(server, uuid, &user, &cheese, None, reports)
            } else {
                let c = user.cheese;
                let m = cheese.squirrel_mult_bits;
                (
                    EventState::CollectBonus { uuid, user, cheese },
                    step(reports, Action::SquirrelBonus { cheese: c, mult_bits: m }),
                )
            }
        },
        other => end_sub(other, reports),
    }
}

/// One turn of the handling of an incoming event: `state` is where it stood
/// (`Start` at first), `input` what the last action gave (`Input::Start` at
/// first). Reports go to the error stream; the event ends with
/// `Action::Finish`, `Action::Abort` or `Action::Panic`.
#[verifier::rlimit(30)]
pub fn server_event_received(
    server: &mut SneakyMouseServer,
    event_name: &[u8],
    event_uid: &[u8],
    keys: &[&[u8]],
    vals: &[&[u8]],
    state: EventState,
    input: Input,
) -> (r: (EventState, Step))
    requires
        old(server).wf(),
        event_ok(keys@, vals@),
    ensures
        final(server).wf(),
        keeps_clock(old(server), final(server)),
        // The spawned cheeses change only by a despawn, which removes the
        // first cheese in the event's room, or by the spawn of a new cheese,
        // which adds it; every other turn leaves them as they were.
        match state {
            EventState::Start => final(server).cheeses() == despawned(
                old(server).cheeses(),
                rules::event_view(event_name, event_uid, keys@, vals@),
            ),
            EventState::SpawnUid { room, hash, cheese } => spawn_uid_cheeses(
                old(server).cheeses(),
                final(server).cheeses(),
                room@,
                hash,
                cheese,
                input,
            ),
            _ => final(server).cheeses() == old(server).cheeses(),
        },
        state is Start ==> first_turn(old(server), final(server), rules::event_view(event_name, event_uid, keys@, vals@), r.0, r.1),
        // The round trip that ends an event ends it as the connection went.
        state is AwaitFinish ==> final(server).db.pipe@ == old(server).db.pipe@ && r.0 is Done && match input {
            Input::Reply(Ok(_)) => r.1.action matches Action::Finish(Ok(())),
            Input::Reply(Err(())) => r.1.action matches Action::Finish(Err(())),
            _ => r.1.action is Panic,
        },
        state is Done ==> r.1.action is Panic,
        // A lookup that finds no user ends the event with a report (an
        // award reports its receiver's field, whichever party is missing).
        state matches EventState::GiveDest { lookup, .. } ==> (no_user(lookup, input) ==> ends_no_user(
            old(server),
            final(server),
            rules::event_view(event_name, event_uid, keys@, vals@),
            field::DEST_ID,
            r.0,
            r.1,
        )),
        state matches EventState::GiveSrc { lookup, .. } ==> (no_user(lookup, input) ==> ends_no_user(
            old(server),
            final(server),
            rules::event_view(event_name, event_uid, keys@, vals@),
            field::DEST_ID,
            r.0,
            r.1,
        )),
        state matches EventState::CollectUser { lookup, .. } ==> (no_user(lookup, input) ==> ends_no_user(
            old(server),
            final(server),
            rules::event_view(event_name, event_uid, keys@, vals@),
            field::USER_ID,
            r.0,
            r.1,
        )),
        // A lookup that reads a user's number goes on to read the user's
        // hash; a hash that does not read as a user stops the server; a lost
        // connection ends the event with an error.
        state matches EventState::GiveDest { dest_id, lookup } ==> {
            &&& lost(input) ==> ends_lost(old(server), final(server), r.0, r.1)
            &&& lookup matches UserLookup::User { uuid } ==> stops_on_bad_user(
                old(server),
                final(server),
                uuid,
                input,
                r.0,
                r.1,
            )
            &&& number_read(lookup, input) matches Some(u) ==> {
                &&& asks_user(old(server), final(server), u, r.1)
                &&& r.0 matches EventState::GiveDest { dest_id: d2, lookup: UserLookup::User { uuid } } && d2@ == dest_id@
                    && uuid == u
            }
        },
        state matches EventState::GiveSrc { dest_id, dest_uuid, dest_user, amounts, src_id, lookup } ==> {
            &&& lost(input) ==> ends_lost(old(server), final(server), r.0, r.1)
            &&& lookup matches UserLookup::User { uuid } ==> stops_on_bad_user(
                old(server),
                final(server),
                uuid,
                input,
                r.0,
                r.1,
            )
            &&& number_read(lookup, input) matches Some(u) ==> {
                &&& asks_user(old(server), final(server), u, r.1)
                &&& r.0 matches EventState::GiveSrc {
                    dest_id: d2,
                    dest_uuid: du,
                    dest_user: dd,
                    amounts: a2,
                    src_id: s2,
                    lookup: UserLookup::User { uuid },
                } && d2@ == dest_id@ && du == dest_uuid && dd@ == dest_user@ && a2@ == amounts@ && s2@ == src_id@
                    && uuid == u
            }
        },
        state matches EventState::CollectUser { cheese_uuid, lookup } ==> {
            &&& lost(input) ==> ends_lost(old(server), final(server), r.0, r.1)
            &&& lookup matches UserLookup::User { uuid } ==> stops_on_bad_user(
                old(server),
                final(server),
                uuid,
                input,
                r.0,
                r.1,
            )
            &&& number_read(lookup, input) matches Some(u) ==> {
                &&& asks_user(old(server), final(server), u, r.1)
                &&& r.0 matches EventState::CollectUser { cheese_uuid: c2, lookup: UserLookup::User { uuid } } && c2
                    == cheese_uuid && uuid == u
            }
        },
        // The collector found, the collected cheese is read.
        state matches EventState::CollectUser { cheese_uuid, lookup: UserLookup::User { uuid } } ==> (reply_user(input)
            matches Some((user, notes)) ==> {
            &&& final(server).db.pipe@ == old(server).db.pipe@.push(db::hgetall_cmd(db::cheese_data_key(cheese_uuid)))
            &&& r.1.action is Flush
            &&& strings_view(r.1.reports@) == db::notes_text(db::user_key(uuid), notes)
            &&& r.0 matches EventState::CollectCheese { uuid: u2, user: ud, fetch: CheeseFetch::Hash { key } } && u2 == uuid
                && ud@ == user && key@ == db::cheese_data_key(cheese_uuid)
        }),
        // A stored cheese whose squirrel multipliers are to be read asks the
        // application to read them, the cheese kept for the next turn; a hash
        // that does not read as a cheese stops the server; a lost connection
        // while its hash is read ends the event with an error.
        state matches EventState::SpawnFetch { room, hash, uid, fetch } ==> {
            &&& fetch is Hash && lost(input) ==> ends_lost(old(server), final(server), r.0, r.1)
            &&& stops_on_bad_cheese(old(server), final(server), fetch, input, r.0, r.1)
            &&& db::asked_floats(fetch, input) matches Some((k, c, notes)) ==> {
                &&& final(server).db.pipe@ == old(server).db.pipe@
                &&& r.0 matches EventState::SpawnFetch { room: r2, hash: h2, uid: u2, fetch: f2 } && r2@ == room@ && h2
                    == hash && u2 == uid && asks_floats(k, c, notes, f2, r.1)
            }
        },
        state matches EventState::CollectCheese { uuid, user, fetch } ==> {
            &&& fetch is Hash && lost(input) ==> ends_lost(old(server), final(server), r.0, r.1)
            &&& stops_on_bad_cheese(old(server), final(server), fetch, input, r.0, r.1)
            &&& db::asked_floats(fetch, input) matches Some((k, c, notes)) ==> {
                &&& final(server).db.pipe@ == old(server).db.pipe@
                &&& r.0 matches EventState::CollectCheese { uuid: u2, user: ud, fetch: f2 } && u2 == uuid && ud@ == user@
                    && asks_floats(k, c, notes, f2, r.1)
            }
        },
        // A request's user, found or stored anew, is announced as queued.
        state matches EventState::RequestUser { user_id, room, create } ==> request_turn(
            old(server),
            final(server),
            user_id@,
            room@,
            create,
            input,
            r.0,
            r.1,
        ),
        // The award's turn once the receiver is found.
        state matches EventState::GiveDest { dest_id, lookup: UserLookup::User { uuid } } ==> reply_user(input) is Some
            ==> dest_turn(
            old(server),
            final(server),
            rules::event_view(event_name, event_uid, keys@, vals@),
            dest_id@,
            uuid,
            (reply_user(input)->0).0,
            db::notes_text(db::user_key(uuid), (reply_user(input)->0).1),
            r.0,
            r.1,
        ),
        // The award's turn once the payer is found.
        state matches EventState::GiveSrc {
            dest_id,
            dest_uuid,
            dest_user,
            amounts,
            src_id,
            lookup: UserLookup::User { uuid },
        } ==> reply_user(input) is Some ==> src_turn(
            old(server),
            final(server),
            rules::event_view(event_name, event_uid, keys@, vals@),
            dest_id@,
            dest_uuid,
            dest_user@,
            amounts@,
            src_id@,
            uuid,
            (reply_user(input)->0).0,
            db::notes_text(db::user_key(uuid), (reply_user(input)->0).1),
            r.0,
            r.1,
        ),
        // The spawn goes on once its cheese is read.
        state matches EventState::SpawnFetch { room, hash, uid, fetch } ==> (db::fetched_cheese(fetch, input) matches Some(
            (c, reps),
        ) ==> spawn_turn(
            old(server),
            final(server),
            rules::event_view(event_name, event_uid, keys@, vals@),
            room@,
            hash,
            uid,
            c,
            reps,
            r.0,
            r.1,
        )),
        // A collection goes on once its cheese is read: without a squirrel
        // multiplier it ends, with one the application is asked for the bonus.
        state matches EventState::CollectCheese { uuid, user, fetch } ==> (db::fetched_cheese(fetch, input) matches Some(
            (c, reps),
        ) ==> (if rules::f32_is_zero(c.squirrel_mult_bits) {
            collect_turn(old(server), final(server), uuid, user@, c, None, reps, r.0, r.1)
        } else {
            &&& r.1.action matches Action::SquirrelBonus { cheese, mult_bits } && cheese == user.cheese
                && mult_bits == c.squirrel_mult_bits
            &&& final(server).db.pipe@ == old(server).db.pipe@
            &&& strings_view(r.1.reports@) == reps
            &&& r.0 matches EventState::CollectBonus { cheese: c2, .. } && c2@ == c
        })),
        // The spawn's end, once the application has scaled the size.
        state matches EventState::SpawnScale { room, hash, uid, cheese } ==> (match input {
            Input::Scaled(Some(sz)) => spawn_end(
                old(server),
                final(server),
                rules::event_view(event_name, event_uid, keys@, vals@),
                room@,
                hash,
                uid,
                crate::config::CheeseView { size: sz, ..cheese@ },
                seq![],
                r.0,
                r.1,
            ),
            Input::Scaled(None) => spawn_end(
                old(server),
                final(server),
                rules::event_view(event_name, event_uid, keys@, vals@),
                room@,
                hash,
                uid,
                cheese@,
                seq![rules::invalid_report(rules::event_view(event_name, event_uid, keys@, vals@), field::SIZE_MULT)],
                r.0,
                r.1,
            ),
            _ => r.1.action is Panic,
        }),
        // A new cheese is stored under the number it got.
        state matches EventState::SpawnUid { room, hash, cheese } ==> (match input {
            Input::Reply(Ok(rep)) => match crate::reply::spec_reply_u64(rep) {
                Some(u) => if cheese.time_min <= cheese.time_max {
                    &&& final(server).db.pipe@ == old(server).db.pipe@ + db::store_cheese_cmds(u, cheese@)
                    &&& r.1.action matches Action::Finish(Ok(()))
                } else {
                    r.1.action is Panic
                },
                None => r.1.action is Abort && final(server).db.pipe@ == old(server).db.pipe@,
            },
            Input::Reply(Err(())) => r.1.action matches Action::Finish(Err(())),
            _ => r.1.action is Panic,
        }),
        // The collection's last turn, once the squirrel bonus is known.
        state matches EventState::CollectBonus { uuid, user, cheese } ==> (input matches Input::Bonus(b)
            ==> collect_turn(old(server), final(server), uuid, user@, cheese@, Some(b), seq![], r.0, r.1)),
{
    match state {
        EventState::Start => start_turn(server, event_name, event_uid, keys, vals),
        EventState::GiveDest { dest_id, lookup } => give_dest_turn(
            server,
            event_name,
            event_uid,
            keys,
            vals,
            dest_id,
            lookup,
            input,
        ),
        EventState::GiveSrc { dest_id, dest_uuid, dest_user, amounts, src_id, lookup } => give_src_turn(
            server,
            event_name,
            event_uid,
            keys,
            vals,
            dest_id,
            dest_uuid,
            dest_user,
            amounts,
            src_id,
            lookup,
            input,
        ),
        EventState::AwaitFinish => match input {
            Input::Reply(Ok(_)) => (EventState::Done, step(Vec::new(), Action::Finish(Ok(())))),
            Input::Reply(Err(())) => (EventState::Done, step(Vec::new(), Action::Finish(Err(())))),
            _ => (EventState::Done, step(Vec::new(), Action::Panic(unexpected_input()))),
        },
        EventState::SpawnFetch { room, hash, uid, fetch } => spawn_fetch_turn(
            server,
            event_name,
            event_uid,
            keys,
            vals,
            room,
            hash,
            uid,
            fetch,
            input,
        ),
        EventState::SpawnScale { room, hash, uid, cheese } => {
            let mut cheese = cheese;
            let mut reports: Vec<String> = Vec::new();
            proof {
                assert(strings_view(reports@) =~= seq![]);
            }
            match input {
                Input::Scaled(Some(s)) => {
                    cheese.size = s;
                },
                Input::Scaled(None) => {
                    let m = invalid_value(event_name, event_uid, keys, vals, field::SIZE_MULT);
                    let ghost mv = m@;
                    reports.push(m);
                    proof {
                        assert(strings_view(reports@) =~= seq![mv]);
                    }
                },
                _ => {
                    return (EventState::Done, step(reports, Action::Panic(unexpected_input())));
                },
            }
            spawn_finish(server, event_name, event_uid, keys, vals, room, hash, uid, cheese, reports)
        },
        EventState::SpawnUid { room, hash, cheese } => spawn_uid_turn(server, room, hash, cheese, input),
        EventState::RequestUser { user_id, room, create } => request_user_turn(server, user_id, room, create, input),
        EventState::CollectUser { cheese_uuid, lookup } => collect_user_turn(
            server,
            event_name,
            event_uid,
            keys,
            vals,
            cheese_uuid,
            lookup,
            input,
        ),
        EventState::CollectCheese { uuid, user, fetch } => collect_cheese_turn(server, uuid, user, fetch, input),
        EventState::CollectBonus { uuid, user, cheese } => match input {
            Input::Bonus(b) => {
                let none: Vec<String> = Vec::new();
                proof {
                    assert(strings_view(none@) =~= seq![]);
                }
                collect_finish(server, uuid, &user, &cheese, Some(b), none)
            },
            _ => (EventState::Done, step(Vec::new(), Action::Panic(unexpected_input()))),
        },
        EventState::Done => (EventState::Done, step(Vec::new(), Action::Panic(unexpected_input()))),
    }
}

/// The user, and the notes about it, that a reply holding a user's hash gives.
pub open spec fn reply_user(input: Input) -> Option<(UserView, Seq<db::DbNoteView>)> {
    match input {
        Input::Reply(Ok(rep)) => if db::user_reply_readable(rep) {
            match db::spec_parse_user(rep) {
                db::UserParseView::Found { user, notes } => Some((user, notes)),
                _ => None,
            }
        } else {
            None
        },
        _ => None,
    }
}

/// Whether the reply to a lookup of a user by id shows that there is no
/// such user: no number is stored for the id, or no hash for the number.
pub open spec fn no_user(lookup: UserLookup, input: Input) -> bool {
    match input {
        Input::Reply(Ok(rep)) => match lookup {
            UserLookup::Uuid { .. } => !(rep is Data),
            UserLookup::User { .. } => db::user_reply_readable(rep) && db::spec_parse_user(rep) is NotFound,
        },
        _ => false,
    }
}

/// A turn that ends the event with the report that field `f` names no
/// known user, queuing nothing.
pub open spec fn ends_no_user(
    old: &SneakyMouseServer,
    new: &SneakyMouseServer,
    e: rules::EventView,
    f: &str,
    st: EventState,
    step: Step,
) -> bool {
    &&& st is Done
    &&& step.action matches Action::Finish(Ok(()))
    &&& new.db.pipe@ == old.db.pipe@
    &&& strings_view(step.reports@) == seq![rules::missing_user_report(e, f)]
}

/// Whether `input` tells of a lost connection.
pub open spec fn lost(input: Input) -> bool {
    input matches Input::Reply(Err(()))
}

/// A turn that ends the event on a lost connection, queuing nothing.
pub open spec fn ends_lost(old: &SneakyMouseServer, new: &SneakyMouseServer, st: EventState, step: Step) -> bool {
    &&& st is Done
    &&& step.action matches Action::Finish(Err(()))
    &&& new.db.pipe@ == old.db.pipe@
}

/// A turn on the reply to the request for the hash of the user numbered
/// `uuid` that does not read as a user's hash: one that does not read at all
/// stops the server, one whose fields do not match aborts it with the notes
/// of the user's record reported; either way nothing is queued.
pub open spec fn stops_on_bad_user(
    old: &SneakyMouseServer,
    new: &SneakyMouseServer,
    uuid: u64,
    input: Input,
    st: EventState,
    step: Step,
) -> bool {
    match input {
        Input::Reply(Ok(rep)) => if !db::user_reply_readable(rep) {
            &&& st is Done
            &&& step.action matches Action::Panic(m) && m@ == empty_number_text()
            &&& new.db.pipe@ == old.db.pipe@
        } else {
            match db::spec_parse_user(rep) {
                db::UserParseView::Mismatch { notes } => {
                    &&& st is Done
                    &&& step.action matches Action::Abort(m) && m@ == mismatch_text()
                    &&& new.db.pipe@ == old.db.pipe@
                    &&& strings_view(step.reports@) == db::notes_text(db::user_key(uuid), notes)
                },
                _ => true,
            }
        },
        _ => true,
    }
}

/// A turn on the reply to the request for a stored cheese's hash that does
/// not read as a cheese: one that does not read at all stops the server, one
/// whose fields do not match aborts it with the notes of the record
/// reported; either way nothing is queued.
pub open spec fn stops_on_bad_cheese(
    old: &SneakyMouseServer,
    new: &SneakyMouseServer,
    fetch: CheeseFetch,
    input: Input,
    st: EventState,
    step: Step,
) -> bool {
    match (fetch, input) {
        (CheeseFetch::Hash { key }, Input::Reply(Ok(rep))) => if !db::cheese_reply_readable(rep) {
            &&& st is Done
            &&& step.action matches Action::Panic(m) && m@ == empty_number_text()
            &&& new.db.pipe@ == old.db.pipe@
        } else {
            let (ok, _c, notes) = db::spec_parse_cheese(rep);
            !ok ==> {
                &&& st is Done
                &&& step.action matches Action::Abort(m) && m@ == mismatch_text()
                &&& new.db.pipe@ == old.db.pipe@
                &&& strings_view(step.reports@) == db::notes_text(key@, notes)
            }
        },
        _ => true,
    }
}

/// The number that the reply to the request for a user's number reads as,
/// while the lookup waits for it.
pub open spec fn number_read(lookup: UserLookup, input: Input) -> Option<u64> {
    match (lookup, input) {
        (UserLookup::Uuid { .. }, Input::Reply(Ok(Reply::Data(d)))) => spec_to_u64(d@),
        _ => None,
    }
}

/// A turn that requests the hash of the user numbered `u` and asks for the
/// round trip, with nothing to report.
pub open spec fn asks_user(old: &SneakyMouseServer, new: &SneakyMouseServer, u: u64, step: Step) -> bool {
    &&& new.db.pipe@ == old.db.pipe@.push(db::hgetall_cmd(db::user_key(u)))
    &&& step.action is Flush
    &&& step.reports@.len() == 0
    &&& step.prints@.len() == 0
}

/// A turn that asks the application to read the squirrel multipliers of a
/// cheese as floats, with nothing to report, keeping the cheese's `key`, its
/// parsed fields `c` and its `notes` in `fetch` for the next turn.
pub open spec fn asks_floats(key: Seq<u8>, c: crate::config::CheeseView, notes: Seq<db::DbNoteView>, fetch: CheeseFetch, step: Step) -> bool {
    &&& step.action matches Action::ReadFloats(t) && t@.len() == notes.len() && forall|i: int|
        0 <= i < notes.len() ==> db::opt_view(#[trigger] t@[i]) == db::float_texts(notes)[i]
    &&& step.reports@.len() == 0
    &&& fetch matches CheeseFetch::Floats { key: k, cheese: c2, notes: n } && k@ == key && c2@ == c && db::notes_view(n@)
        == notes
}

/// The turn of a request in the lookup-or-creation of its user: the
/// number read leads to the user's hash, a missing or unreadable number to a
/// fresh one; the user, found or newly stored, is announced as queued for the
/// room's cheese; a lost connection ends the event with an error.
pub open spec fn request_turn(
    old: &SneakyMouseServer,
    new: &SneakyMouseServer,
    user_id: Seq<u8>,
    room: Seq<u8>,
    create: CreateUser,
    input: Input,
    st: EventState,
    step: Step,
) -> bool {
    match input {
        Input::Reply(Err(())) => ends_lost(old, new, st, step),
        Input::Reply(Ok(rep)) => match create {
            CreateUser::Uuid { id, name } => match rep {
                Reply::Data(d) => match spec_to_u64(d@) {
                    Some(u) => {
                        &&& asks_user(old, new, u, step)
                        &&& st matches EventState::RequestUser {
                            user_id: i2,
                            room: r2,
                            create: CreateUser::User { id: i3, name: n3, uuid, data },
                        } && i2@ == user_id && r2@ == room && i3@ == id@ && n3@ == name@ && uuid == u && data@ == d@
                    },
                    None => {
                        &&& new.db.pipe@ == old.db.pipe@.push(db::incr_cmd(crate::key::MAXUUID))
                        &&& step.action is Flush
                        &&& step.reports@.len() == 1
                        &&& st matches EventState::RequestUser { user_id: i2, room: r2, create: CreateUser::Incr { id: i3, name: n3 } }
                            && i2@ == user_id && r2@ == room && i3@ == id@ && n3@ == name@
                    },
                },
                _ => {
                    &&& new.db.pipe@ == old.db.pipe@.push(db::incr_cmd(crate::key::MAXUUID))
                    &&& step.action is Flush
                    &&& step.reports@.len() == 0
                    &&& st matches EventState::RequestUser { user_id: i2, room: r2, create: CreateUser::Incr { id: i3, name: n3 } }
                        && i2@ == user_id && r2@ == room && i3@ == id@ && n3@ == name@
                },
            },
            CreateUser::User { id, name, uuid, .. } => if !db::user_reply_readable(rep) {
                step.action is Panic
            } else {
                match db::spec_parse_user(rep) {
                    db::UserParseView::Mismatch { .. } => step.action is Abort,
                    db::UserParseView::NotFound => {
                        &&& new.db.pipe@ == old.db.pipe@ + db::create_user_cmds(id@, uuid, crate::config::default_user(name@))
                            + seq![com::cheese_queue_cmd(room, user_id, crate::config::default_user(name@))]
                        &&& st is AwaitFinish
                        &&& step.action is Flush
                    },
                    db::UserParseView::Found { user, .. } => {
                        &&& new.db.pipe@ == old.db.pipe@.push(com::cheese_queue_cmd(room, user_id, user))
                        &&& st is AwaitFinish
                        &&& step.action is Flush
                    },
                }
            },
            CreateUser::Incr { id, name } => match crate::reply::spec_reply_u64(rep) {
                Some(u) => {
                    &&& new.db.pipe@ == old.db.pipe@ + db::create_user_cmds(id@, u, crate::config::default_user(name@))
                        + seq![com::cheese_queue_cmd(room, user_id, crate::config::default_user(name@))]
                    &&& st is AwaitFinish
                    &&& step.action is Flush
                },
                None => step.action is Abort,
            },
        },
        _ => step.action is Panic,
    }
}

/// The spawned cheeses after the first turn of event `e`: a despawn that
/// names a room removes the first cheese in it, if there is one; every other
/// event leaves them as they were.
pub open spec fn despawned(s: Seq<CheeseEntry>, e: rules::EventView) -> Seq<CheeseEntry> {
    if e.name == stream::CHEESE_DESPAWN.spec_bytes() {
        match field_of(e, field::ROOM_ID) {
            Some(room) => if rules::first_in_room(s, room) >= 0 {
                rules::swap_removed(s, rules::first_in_room(s, room))
            } else {
                s
            },
            None => s,
        }
    } else {
        s
    }
}

/// The spawned cheeses before (`old`) and after (`new`) the turn of a spawn
/// that gets its new cheese's number: a reply that gives a number `u`, with
/// a time range that is not empty, adds the cheese under `u` in `room`,
/// turning after `spawn_timeout_of` a time drawn between its times; any
/// other input leaves them as they were.
pub open spec fn spawn_uid_cheeses(
    old: Seq<CheeseEntry>,
    new: Seq<CheeseEntry>,
    room: Seq<u8>,
    hash: u64,
    cheese: CheeseData,
    input: Input,
) -> bool {
    match input {
        Input::Reply(Ok(rep)) => match crate::reply::spec_reply_u64(rep) {
            Some(u) => if cheese.time_min <= cheese.time_max {
                exists|d: u32|
                    cheese.time_min <= d <= cheese.time_max && new == old.push(
                        CheeseEntry { timeout: spawn_timeout_of(d), uid: u, room, id: hash },
                    )
            } else {
                new == old
            },
            None => new == old,
        },
        _ => new == old,
    }
}

/// The value of an event field.
pub open spec fn field_of(e: rules::EventView, f: &str) -> Option<Seq<u8>> {
    crate::util::field_value(e.keys, e.vals, f.spec_bytes())
}

/// A turn that ends the event with the report that field `f` is missing,
/// queuing nothing.
pub open spec fn ends_missing(
    old: &SneakyMouseServer,
    new: &SneakyMouseServer,
    e: rules::EventView,
    f: &str,
    st: EventState,
    step: Step,
) -> bool {
    &&& st is Done
    &&& step.action matches Action::Finish(Ok(()))
    &&& new.db.pipe@ == old.db.pipe@
    &&& strings_view(step.reports@) == seq![rules::missing_report(e, f)]
    &&& step.prints@.len() == 0
}

/// A turn that queues `cmd` and asks for the round trip, with nothing to report.
pub open spec fn queues(old: &SneakyMouseServer, new: &SneakyMouseServer, cmd: CmdView, step: Step) -> bool {
    &&& new.db.pipe@ == old.db.pipe@.push(cmd)
    &&& step.action is Flush
    &&& step.reports@.len() == 0
    &&& step.prints@.len() == 0
}

/// What the first turn of an event does, by the event's name: an award, a
/// request and a collection look up their user by id; a despawn announces
/// the room's cheese gone; the debug console prints the event; a missing
/// field ends the event with a report; an unknown event stops the server.
/// A spawn that names a cheese reads the cheese already spawned from it in
/// the room, or else the named cheese; one that names none, or whose name
/// hashes to 0, starts from the default cheese.
pub open spec fn first_turn(
    old: &SneakyMouseServer,
    new: &SneakyMouseServer,
    e: rules::EventView,
    st: EventState,
    step: Step,
) -> bool {
    let name = e.name;
    if name == stream::CHEESE_GIVE.spec_bytes() {
        match field_of(e, field::DEST_ID) {
            Some(d) => queues(old, new, db::user_uuid_cmd(d), step) && (st matches EventState::GiveDest { dest_id, .. }
                && dest_id@ == d),
            None => ends_missing(old, new, e, field::DEST_ID, st, step),
        }
    } else if name == stream::CHEESE_SPAWN.spec_bytes() {
        match field_of(e, field::ROOM_ID) {
            None => ends_missing(old, new, e, field::ROOM_ID, st, step),
            Some(room) => match field_of(e, field::CHEESE_ID) {
                None => spawn_turn(old, new, e, room, 0, None, crate::config::default_cheese(), seq![], st, step),
                Some(id) => {
                    let hash = DefaultHasher::spec_finish(seq![id]);
                    let i = rules::first_cheese(old.cheeses(), hash, room);
                    if i >= 0 {
                        let uid = old.cheeses()[i].uid;
                        queues(old, new, db::hgetall_cmd(db::cheese_data_key(uid)), step) && (st matches EventState::SpawnFetch {
                            uid: u,
                            hash: h,
                            ..
                        } && u == Some(uid) && h == hash)
                    } else if hash == 0 {
                        spawn_turn(old, new, e, room, 0, None, crate::config::default_cheese(), seq![], st, step)
                    } else {
                        queues(old, new, db::hgetall_cmd(db::cheese_id_key(id)), step) && (st matches EventState::SpawnFetch {
                            uid: u,
                            hash: h,
                            ..
                        } && u is None && h == hash)
                    }
                },
            },
        }
    } else if name == stream::CHEESE_REQUEST.spec_bytes() {
        if field_of(e, field::USER_ID) is None {
            ends_missing(old, new, e, field::USER_ID, st, step)
        } else if field_of(e, field::USER_NAME) is None {
            ends_missing(old, new, e, field::USER_NAME, st, step)
        } else if field_of(e, field::ROOM_ID) is None {
            ends_missing(old, new, e, field::ROOM_ID, st, step)
        } else {
            queues(old, new, db::user_uuid_cmd(field_of(e, field::USER_ID)->0), step) && st is RequestUser
        }
    } else if name == stream::CHEESE_COLLECT.spec_bytes() {
        match crate::util::field_parse(field_of(e, field::CHEESE_UUID), |s| spec_to_u64(s)) {
            FieldParse::Found(u) => match field_of(e, field::USER_ID) {
                Some(id) => queues(old, new, db::user_uuid_cmd(id), step) && (st matches EventState::CollectUser {
                    cheese_uuid,
                    ..
                } && cheese_uuid == u),
                None => ends_missing(old, new, e, field::USER_ID, st, step),
            },
            FieldParse::Invalid => {
                &&& st is Done
                &&& step.action matches Action::Finish(Ok(()))
                &&& new.db.pipe@ == old.db.pipe@
                &&& strings_view(step.reports@) == seq![
                    rules::invalid_report(e, field::CHEESE_UUID),
                    rules::missing_report(e, field::CHEESE_UUID),
                ]
            },
            FieldParse::Missing => ends_missing(old, new, e, field::CHEESE_UUID, st, step),
        }
    } else if name == stream::CHEESE_DESPAWN.spec_bytes() {
        match field_of(e, field::ROOM_ID) {
            Some(room) => queues(old, new, com::cheese_despawn_cmd(room), step) && st is AwaitFinish,
            None => ends_missing(old, new, e, field::ROOM_ID, st, step),
        }
    } else if name == stream::DEBUG_CONSOLE.spec_bytes() {
        &&& st is Done
        &&& step.action matches Action::Finish(Ok(()))
        &&& new.db.pipe@ == old.db.pipe@
        &&& step.reports@.len() == 0
        &&& strings_view(step.prints@) == seq![rules::debug_text(e.uid, e.keys, e.vals, old.db.redis_address@)]
    } else {
        &&& st is Done
        &&& step.action is Panic
        &&& new.db.pipe@ == old.db.pipe@
    }
}

/// Ends the event with the report that field `f` is missing.
fn end_missing(event_name: &[u8], event_uid: &[u8], keys: &[&[u8]], vals: &[&[u8]], f: &str) -> (r: (EventState, Step))
    requires
        event_ok(keys@, vals@),
    ensures
        r.0 is Done,
        r.1.action matches Action::Finish(Ok(())),
        strings_view(r.1.reports@) == seq![rules::missing_report(rules::event_view(event_name, event_uid, keys@, vals@), f)],
        r.1.prints@.len() == 0,
{
    let m = missing_field(event_name, event_uid, keys, vals, f);
    let reports = one(m);
    proof {
        assert(strings_view(reports@) =~= seq![rules::missing_report(rules::event_view(event_name, event_uid, keys@, vals@), f)]);
    }
    (EventState::Done, step(reports, Action::Finish(Ok(()))))
}

proof fn lemma_only_despawn_despawns()
    ensures
        stream::DEBUG_CONSOLE.spec_bytes() != stream::CHEESE_DESPAWN.spec_bytes(),
        stream::CHEESE_GIVE.spec_bytes() != stream::CHEESE_DESPAWN.spec_bytes(),
        stream::CHEESE_SPAWN.spec_bytes() != stream::CHEESE_DESPAWN.spec_bytes(),
        stream::CHEESE_REQUEST.spec_bytes() != stream::CHEESE_DESPAWN.spec_bytes(),
        stream::CHEESE_COLLECT.spec_bytes() != stream::CHEESE_DESPAWN.spec_bytes(),
{
    reveal_strlit("debug:console");
    reveal_strlit("sm-cheese:give");
    reveal_strlit("sm-cheese:spawn");
    reveal_strlit("sm-cheese:request");
    reveal_strlit("sm-cheese:collect");
    reveal_strlit("sm-cheese:despawn");
    vstd::string::is_ascii_spec_bytes("debug:console");
    vstd::string::is_ascii_spec_bytes("sm-cheese:give");
    vstd::string::is_ascii_spec_bytes("sm-cheese:spawn");
    vstd::string::is_ascii_spec_bytes("sm-cheese:request");
    vstd::string::is_ascii_spec_bytes("sm-cheese:collect");
    vstd::string::is_ascii_spec_bytes("sm-cheese:despawn");
    assert(vstd::string::is_ascii("debug:console"));
    assert(vstd::string::is_ascii("sm-cheese:give"));
    assert(vstd::string::is_ascii("sm-cheese:spawn"));
    assert(vstd::string::is_ascii("sm-cheese:request"));
    assert(vstd::string::is_ascii("sm-cheese:collect"));
    assert(vstd::string::is_ascii("sm-cheese:despawn"));
    assert("debug:console".spec_bytes()[0] != "sm-cheese:despawn".spec_bytes()[0]);
    assert("sm-cheese:give".spec_bytes()[10] != "sm-cheese:despawn".spec_bytes()[10]);
    assert("sm-cheese:spawn".spec_bytes()[10] != "sm-cheese:despawn".spec_bytes()[10]);
    assert("sm-cheese:request".spec_bytes()[10] != "sm-cheese:despawn".spec_bytes()[10]);
    assert("sm-cheese:collect".spec_bytes()[10] != "sm-cheese:despawn".spec_bytes()[10]);
}

/// The first turn of an event.
fn start_turn(
    server: &mut SneakyMouseServer,
    event_name: &[u8],
    event_uid: &[u8],
    keys: &[&[u8]],
    vals: &[&[u8]],
) -> (r: (EventState, Step))
    requires
        old(server).wf(),
        event_ok(keys@, vals@),
    ensures
        final(server).wf(),
        keeps_clock(old(server), final(server)),
        final(server).cheeses() == despawned(old(server).cheeses(), rules::event_view(event_name, event_uid, keys@, vals@)),
        first_turn(old(server), final(server), rules::event_view(event_name, event_uid, keys@, vals@), r.0, r.1),
{
    proof {
        lemma_only_despawn_despawns();
        rules::lemma_fields_in_range(keys@, vals@, field::DEST_ID.spec_bytes());
        rules::lemma_fields_in_range(keys@, vals@, field::ROOM_ID.spec_bytes());
        rules::lemma_fields_in_range(keys@, vals@, field::CHEESE_ID.spec_bytes());
        rules::lemma_fields_in_range(keys@, vals@, field::USER_ID.spec_bytes());
        rules::lemma_fields_in_range(keys@, vals@, field::USER_NAME.spec_bytes());
        rules::lemma_fields_in_range(keys@, vals@, field::CHEESE_UUID.spec_bytes());
    }
    if is_event(event_name, stream::CHEESE_GIVE) {
        match find_field_u8s(field::DEST_ID, keys, vals) {
            Some(dest_id) => {
                let lookup = db::get_user_from_id(&mut server.db.pipe, dest_id);
                (EventState::GiveDest { dest_id: slice_to_vec(dest_id), lookup }, step(Vec::new(), Action::Flush))
            },
            None => end_missing(event_name, event_uid, keys, vals, field::DEST_ID),
        }
    } else if is_event(event_name, stream::CHEESE_SPAWN) {
        let room = match find_field_u8s(field::ROOM_ID, keys, vals) {
            Some(room) => room,
            None => {
                return end_missing(event_name, event_uid, keys, vals, field::ROOM_ID);
            },
        };
        match find_field_u8s(field::CHEESE_ID, keys, vals) {
            Some(cheese_id) => {
                let hash = cheese_id_hash(cheese_id);
                let uid = match rules::find_cheese(server, hash, room) {
                    Some(i) => Some(server.cheese_uids[i]),
                    None => None,
                };
                match uid {
                    Some(u) => {
                        let fetch = db::get_cheese_from_uuid(&mut server.db.pipe, u);
                        (
                            EventState::SpawnFetch { room: slice_to_vec(room), hash, uid, fetch },
                            step(Vec::new(), Action::Flush),
                        )
                    },
                    None => {
                        if hash == 0 {
                            let cheese = generate_default_cheese();
                            spawn_shape(
                                server,
                                event_name,
                                event_uid,
                                keys,
                                vals,
                                slice_to_vec(room),
                                hash,
                                None,
                                cheese,
                                Vec::new(),
                            )
                        } else {
                            let fetch = db::get_cheese_from_id(&mut server.db.pipe, cheese_id);
                            (
                                EventState::SpawnFetch { room: slice_to_vec(room), hash, uid: None, fetch },
                                step(Vec::new(), Action::Flush),
                            )
                        }
                    },
                }
            },
            None => {
                let cheese = generate_default_cheese();
                spawn_shape(server, event_name, event_uid, keys, vals, slice_to_vec(room), 0, None, cheese, Vec::new())
            },
        }
    } else if is_event(event_name, stream::CHEESE_REQUEST) {
        let user_id = match find_field_u8s(field::USER_ID, keys, vals) {
            Some(v) => v,
            None => {
                return end_missing(event_name, event_uid, keys, vals, field::USER_ID);
            },
        };
        let name = match find_field_u8s(field::USER_NAME, keys, vals) {
            Some(v) => v,
            None => {
                return end_missing(event_name, event_uid, keys, vals, field::USER_NAME);
            },
        };
        let room = match find_field_u8s(field::ROOM_ID, keys, vals) {
            Some(v) => v,
            None => {
                return end_missing(event_name, event_uid, keys, vals, field::ROOM_ID);
            },
        };
        let create = db::get_or_create_user_from_id(&mut server.db.pipe, user_id, name);
        (
            EventState::RequestUser { user_id: slice_to_vec(user_id), room: slice_to_vec(room), create },
            step(Vec::new(), Action::Flush),
        )
    } else if is_event(event_name, stream::CHEESE_COLLECT) {
        let cheese_uuid = match find_field_u64(field::CHEESE_UUID, keys, vals) {
            FieldParse::Found(u) => u,
            FieldParse::Invalid => {
                let mut reports: Vec<String> = Vec::new();
                let m1 = invalid_value(event_name, event_uid, keys, vals, field::CHEESE_UUID);
                let m2 = missing_field(event_name, event_uid, keys, vals, field::CHEESE_UUID);
                let ghost v1 = m1@;
                let ghost v2 = m2@;
                reports.push(m1);
                reports.push(m2);
                proof {
                    assert(strings_view(reports@) =~= seq![v1, v2]);
                }
                return (EventState::Done, step(reports, Action::Finish(Ok(()))));
            },
            FieldParse::Missing => {
                return end_missing(event_name, event_uid, keys, vals, field::CHEESE_UUID);
            },
        };
        match find_field_u8s(field::USER_ID, keys, vals) {
            Some(user_id) => {
                let lookup = db::get_user_from_id(&mut server.db.pipe, user_id);
                (EventState::CollectUser { cheese_uuid, lookup }, step(Vec::new(), Action::Flush))
            },
            None => end_missing(event_name, event_uid, keys, vals, field::USER_ID),
        }
    } else if is_event(event_name, stream::CHEESE_DESPAWN) {
        match find_field_u8s(field::ROOM_ID, keys, vals) {
            Some(room) => {
                match rules::find_room(server, room) {
                    Some(i) => {
                        rules::remove_cheese(server, i);
                    },
                    None => {},
                }
                com::cheese_despawn(&mut server.db.pipe, room);
                (EventState::AwaitFinish, step(Vec::new(), Action::Flush))
            },
            None => end_missing(event_name, event_uid, keys, vals, field::ROOM_ID),
        }
    } else if is_event(event_name, stream::DEBUG_CONSOLE) {
        let line = rules::debug_line(event_uid, keys, vals, server.db.redis_address.as_str());
        let ghost lv = line@;
        let mut prints: Vec<String> = Vec::new();
        prints.push(line);
        proof {
            assert(strings_view(prints@) =~= seq![lv]);
        }
        (EventState::Done, Step { reports: Vec::new(), prints, action: Action::Finish(Ok(())) })
    } else {
        let mut m = String::from_str("fatal error: we received an unrecognized event from redis, '");
        let n = lossy(event_name);
        m.append(n.as_str());
        m.append("', please check the events list\n");
        (EventState::Done, step(Vec::new(), Action::Panic(m)))
    }
}


// ---------------------------------------------------------------------------
// The periodic update
// ---------------------------------------------------------------------------

/// Where the update stands between turns. `i` is how far the cheeses have
/// been checked, `next` the wait found so far.
#[derive(Debug)]
pub enum UpdateState {
    Start,
    /// Waiting for a cheese that turned.
    Fetch { i: usize, next: u64, uid: u64, room: Vec<u8>, fetch: CheeseFetch },
    /// Waiting for the radical size and multiplier of a cheese that turned.
    Radical { i: usize, next: u64, uid: u64, room: Vec<u8>, cheese: CheeseData },
    /// Waiting for the round trip that announces a cheese that turned.
    Notify { i: usize, next: u64 },
    Done,
}

/// Whether the first `i` cheeses are still to turn, and `next` waits no
/// longer than any of them, nor than the longest wait.
pub open spec fn scanned(server: &SneakyMouseServer, i: int, next: u64) -> bool {
    &&& 0 <= i <= server.cheese_timeouts@.len()
    &&& next <= field::TIMEOUT_MAX_MS
    &&& next == wait_for(server.cheese_timeouts@.take(i), server.cur_time_ms)
    &&& forall|j: int| 0 <= j < i ==> {
        &&& server.cur_time_ms < #[trigger] server.cheese_timeouts@[j]
        &&& next <= server.cheese_timeouts@[j] - server.cur_time_ms
    }
}

/// How long to wait for the first of the cheeses turning at `timeouts` to
/// turn, at clock `now`, and no longer than the longest wait: the least of
/// `TIMEOUT_MAX_MS` and each timeout less `now`.
pub open spec fn wait_for(timeouts: Seq<u64>, now: u64) -> int
    decreases timeouts.len(),
{
    if timeouts.len() == 0 {
        field::TIMEOUT_MAX_MS as int
    } else {
        let w = wait_for(timeouts.drop_last(), now);
        let left = timeouts.last() - now;
        if left < w {
            left
        } else {
            w
        }
    }
}

/// Whether no cheese has turned yet, and a wait of `n` lasts until the next
/// one turns, or the longest wait if that ends first.
pub open spec fn all_pending(server: &SneakyMouseServer, n: u64) -> bool {
    &&& n <= field::TIMEOUT_MAX_MS
    &&& n == wait_for(server.cheese_timeouts@, server.cur_time_ms)
    &&& forall|j: int| 0 <= j < server.cheese_timeouts@.len() ==> {
        &&& server.cur_time_ms < #[trigger] server.cheese_timeouts@[j]
        &&& n <= server.cheese_timeouts@[j] - server.cur_time_ms
    }
}

/// Where an update may stand.
pub open spec fn update_state_ok(server: &SneakyMouseServer, st: UpdateState) -> bool {
    match st {
        UpdateState::Fetch { i, next, .. } => scanned(server, i as int, next),
        UpdateState::Radical { i, next, .. } => scanned(server, i as int, next),
        UpdateState::Notify { i, next } => scanned(server, i as int, next),
        _ => true,
    }
}

/// Whether spawned cheese `i` had turned and is the one removed, numbered
/// `uid` in `room`, with the request for its stored record queued.
pub open spec fn turned(old: &SneakyMouseServer, new: &SneakyMouseServer, i: int, uid: u64, room: Seq<u8>) -> bool {
    &&& 0 <= i < old.cheeses().len()
    &&& old.cheeses()[i].timeout <= old.cur_time_ms
    &&& old.cheeses()[i].uid == uid
    &&& old.cheeses()[i].room == room
    &&& new.cheeses() == rules::swap_removed(old.cheeses(), i)
    &&& new.db.pipe@ == old.db.pipe@.push(db::hgetall_cmd(db::cheese_data_key(uid)))
}

/// Whether the time of the daily reset after `last` lies in the range of `i64`.
pub open spec fn reset_in_range(last: i64) -> bool {
    i64::MIN <= last - rules::reset_phase() && rules::spec_next_reset(last as int) <= i64::MAX
}

/// Whether the daily reset after `last` is due at `now`.
pub open spec fn reset_due(last: i64, now: i64) -> bool {
    reset_in_range(last) && rules::spec_next_reset(last as int) <= now
}

/// What the first turn of an update queues for the daily reset.
pub open spec fn reset_cmds(last: i64, now: i64) -> Seq<CmdView> {
    if reset_due(last, now) {
        db::daily_reset_cmds(now)
    } else {
        seq![]
    }
}

/// Whether the spawned cheeses `b` follow from `a` in one turn of an update
/// at clock `now`: they stay as they were, or one cheese whose time has come
/// is removed.
pub open spec fn update_step(a: Seq<CheeseEntry>, b: Seq<CheeseEntry>, now: u64) -> bool {
    b == a || exists|i: int| 0 <= i < a.len() && a[i].timeout <= now && b == rules::swap_removed(a, i)
}

/// Law: over the turns of one update, whose clock stands at `now`, the
/// spawned cheeses that are left when it ends are exactly those whose time
/// has not come: each of them as often as before, and none of the others.
pub proof fn law_update_keeps_pending(turns: Seq<Seq<CheeseEntry>>, now: u64)
    requires
        turns.len() >= 1,
        forall|k: int| 0 <= k < turns.len() - 1 ==> update_step(#[trigger] turns[k], turns[k + 1], now),
        forall|j: int| 0 <= j < turns.last().len() ==> (#[trigger] turns.last()[j]).timeout > now,
    ensures
        forall|c: CheeseEntry|
            #[trigger] turns.last().to_multiset().count(c) == (if c.timeout > now {
                turns[0].to_multiset().count(c)
            } else {
                0
            }),
{
    broadcast use vstd::seq_lib::group_to_multiset_ensures;

    lemma_steps_keep_pending(turns, now, turns.len() - 1);
    assert forall|c: CheeseEntry| c.timeout <= now implies #[trigger] turns.last().to_multiset().count(c) == 0 by {
        if turns.last().to_multiset().count(c) > 0 {
            assert(turns.last().contains(c));
            let j = choose|j: int| 0 <= j < turns.last().len() && turns.last()[j] == c;
            assert(turns.last()[j].timeout > now);
        }
    }
}

proof fn lemma_steps_keep_pending(turns: Seq<Seq<CheeseEntry>>, now: u64, k: int)
    requires
        0 <= k < turns.len(),
        forall|m: int| 0 <= m < turns.len() - 1 ==> update_step(#[trigger] turns[m], turns[m + 1], now),
    ensures
        forall|c: CheeseEntry|
            c.timeout > now ==> #[trigger] turns[k].to_multiset().count(c) == turns[0].to_multiset().count(c),
    decreases k,
{
    broadcast use vstd::seq_lib::group_to_multiset_ensures;

    if k > 0 {
        lemma_steps_keep_pending(turns, now, k - 1);
        let a = turns[k - 1];
        let b = turns[k];
        assert(update_step(a, b, now));
        if b != a {
            let i = choose|i: int| 0 <= i < a.len() && a[i].timeout <= now && b == rules::swap_removed(a, i);
            rules::law_remove_keeps_others(a, i);
            assert forall|c: CheeseEntry| c.timeout > now implies #[trigger] b.to_multiset().count(c)
                == a.to_multiset().count(c) by {
                assert(a.remove(i).to_multiset() == a.to_multiset().remove(a[i]));
                assert(c != a[i]);
            }
        }
    }
}

/// Whether some cheese of `s` from index `from` on has turned at clock `now`.
pub open spec fn any_turned(s: Seq<CheeseEntry>, from: int, now: u64) -> bool {
    exists|j: int| from <= j < s.len() && (#[trigger] s[j]).timeout <= now
}

/// Checks the cheeses from `i` on: the first that has turned is removed and
/// its stored record requested.
fn scan(server: &mut SneakyMouseServer, start: usize, next: u64, reports: Vec<String>) -> (r: (UpdateState, Step))
    requires
        old(server).wf(),
        scanned(old(server), start as int, next),
    ensures
        final(server).wf(),
        update_state_ok(final(server), r.0),
        final(server).cur_time_ms == old(server).cur_time_ms,
        final(server).last_reset_otherwise_server_genisis_unix == old(server).last_reset_otherwise_server_genisis_unix,
        final(server).cheeses().len() <= old(server).cheeses().len(),
        r.1.action matches Action::NextTimeout(n) ==> final(server).cheeses() == old(server).cheeses() && all_pending(
            final(server),
            n,
        ),
        r.1.action is NextTimeout ==> final(server).db.pipe@ == old(server).db.pipe@,
        r.1.action is NextTimeout || r.1.action is Flush,
        r.0 matches UpdateState::Fetch { i, uid, room, .. } ==> turned(old(server), final(server), i as int, uid, room@),
        r.0 is Fetch <==> r.1.action is Flush,
        r.0 is Fetch || r.0 is Done,
        // A cheese that has turned is found; when none has, the update ends.
        r.0 is Fetch <==> any_turned(old(server).cheeses(), start as int, old(server).cur_time_ms),
{
    let ghost i0 = start as int;
    let mut i = start;
    let mut next = next;
    while i < server.cheese_timeouts.len()
        invariant
            server.wf(),
            scanned(server, i as int, next),
            server == old(server),
            i0 == start,
            i0 <= i,
        decreases server.cheese_timeouts@.len() - i,
    {
        let t = server.cheese_timeouts[i];
        if t <= server.cur_time_ms {
            let ghost before = *server;
            proof {
                assert(before.cheeses()[i as int].timeout == t);
            }
            let (uid, room) = rules::remove_cheese(server, i);
            proof {
                assert(server.cheeses().len() == server.cheese_timeouts@.len());
                assert(before.cheeses().len() == before.cheese_timeouts@.len());
                assert(rules::swap_removed(before.cheeses(), i as int).len() == before.cheeses().len() - 1);
                assert forall|j: int| 0 <= j < i implies server.cheese_timeouts@[j] == before.cheese_timeouts@[j] by {
                    assert(j < server.cheese_timeouts@.len());
                    assert(server.cheeses()[j] == rules::swap_removed(before.cheeses(), i as int)[j]);
                    assert(server.cheeses()[j].timeout == server.cheese_timeouts@[j]);
                    assert(before.cheeses()[j].timeout == before.cheese_timeouts@[j]);
                }
                assert(server.cheese_timeouts@.take(i as int) =~= before.cheese_timeouts@.take(i as int));
            }
            proof {
                assert forall|j: int| 0 <= j < i implies {
                    &&& server.cur_time_ms < #[trigger] server.cheese_timeouts@[j]
                    &&& next <= server.cheese_timeouts@[j] - server.cur_time_ms
                } by {
                    assert(before.cur_time_ms < before.cheese_timeouts@[j]);
                }
                assert(scanned(server, i as int, next));
            }
            let fetch = db::get_cheese_from_uuid(&mut server.db.pipe, uid);
            proof {
                assert(i0 <= i < old(server).cheeses().len() && old(server).cheeses()[i as int].timeout
                    <= old(server).cur_time_ms);
            }
            return (UpdateState::Fetch { i, next, uid, room, fetch }, step(reports, Action::Flush));
        }
        let left = t - server.cur_time_ms;
        proof {
            assert(server.cheese_timeouts@.take(i + 1).drop_last() =~= server.cheese_timeouts@.take(i as int));
        }
        if left < next {
            next = left;
        }
        i = i + 1;
    }
    proof {
        assert(server.cheese_timeouts@.take(i as int) =~= server.cheese_timeouts@);
        assert forall|j: int| i0 <= j < server.cheeses().len() implies !((#[trigger] server.cheeses()[j]).timeout
            <= server.cur_time_ms) by {
            assert(server.cheeses()[j].timeout == server.cheese_timeouts@[j]);
        }
    }
    (UpdateState::Done, step(reports, Action::NextTimeout(next)))
}

/// Whether the spawned cheeses of `new` follow from those of `old` by a
/// turn of `scan` that gave `st`.
proof fn lemma_scan_step(old: &SneakyMouseServer, new: &SneakyMouseServer, st: UpdateState)
    requires
        st matches UpdateState::Fetch { i, uid, room, .. } ==> turned(old, new, i as int, uid, room@),
        !(st is Fetch) ==> new.cheeses() == old.cheeses(),
        new.cur_time_ms == old.cur_time_ms,
    ensures
        update_step(old.cheeses(), new.cheeses(), new.cur_time_ms),
{
    if let UpdateState::Fetch { i, .. } = st {
        assert(0 <= i < old.cheeses().len() && old.cheeses()[i as int].timeout <= new.cur_time_ms && new.cheeses()
            == rules::swap_removed(old.cheeses(), i as int));
    }
}

/// The first turn of the periodic update: the clock moves on by `delta_ms`,
/// the daily reset runs if it is due at `now`, and the cheeses are checked.
fn start_update(server: &mut SneakyMouseServer, delta_ms: u64, now: i64) -> (r: (UpdateState, Step))
    requires
        old(server).wf(),
        old(server).cur_time_ms + delta_ms <= u64::MAX,
    ensures
        final(server).wf(),
        update_state_ok(final(server), r.0),
        final(server).cheeses().len() <= old(server).cheeses().len(),
        final(server).cur_time_ms == old(server).cur_time_ms + delta_ms,
        final(server).last_reset_otherwise_server_genisis_unix == (if reset_due(
            old(server).last_reset_otherwise_server_genisis_unix,
            now,
        ) {
            now
        } else {
            old(server).last_reset_otherwise_server_genisis_unix
        }),
        match r.0 {
            UpdateState::Fetch { uid, .. } => final(server).db.pipe@ == (old(server).db.pipe@ + reset_cmds(
                old(server).last_reset_otherwise_server_genisis_unix,
                now,
            )).push(db::hgetall_cmd(db::cheese_data_key(uid))),
            _ => final(server).db.pipe@ == old(server).db.pipe@ + reset_cmds(
                old(server).last_reset_otherwise_server_genisis_unix,
                now,
            ),
        },
        !reset_in_range(old(server).last_reset_otherwise_server_genisis_unix) ==> r.1.action is Panic,
        reset_in_range(old(server).last_reset_otherwise_server_genisis_unix) ==> if any_turned(
            old(server).cheeses(),
            0,
            final(server).cur_time_ms,
        ) {
            r.0 is Fetch && r.1.action is Flush
        } else {
            r.1.action is NextTimeout && final(server).cheeses() == old(server).cheeses()
        },
        update_step(old(server).cheeses(), final(server).cheeses(), final(server).cur_time_ms),
        r.1.action matches Action::NextTimeout(n) ==> all_pending(final(server), n),
        r.0 matches UpdateState::Fetch { i, uid, room, .. } ==> ({
            &&& i < old(server).cheeses().len()
            &&& old(server).cheeses()[i as int].timeout <= final(server).cur_time_ms
            &&& old(server).cheeses()[i as int].uid == uid
            &&& old(server).cheeses()[i as int].room == room@
            &&& final(server).cheeses() == rules::swap_removed(old(server).cheeses(), i as int)
            &&& final(server).db.pipe@.last() == db::hgetall_cmd(db::cheese_data_key(uid))
        }),
{
    let ghost p0 = server.db.pipe@;
    let ghost last0 = server.last_reset_otherwise_server_genisis_unix;
    server.cur_time_ms = server.cur_time_ms + delta_ms;
    let last: i64 = server.last_reset_otherwise_server_genisis_unix;
    match rules::next_reset_unix(last) {
        None => {
            proof {
                assert(server.db.pipe@ =~= p0 + reset_cmds(last0, now));
            }
            return (UpdateState::Done, step(Vec::new(), Action::Panic(overflow())));
        },
        Some(next_reset) => {
            proof {
                rules::lemma_next_reset_after(last as int);
            }
            if next_reset <= now {
                server.last_reset_otherwise_server_genisis_unix = now;
                db::daily_reset(&mut server.db.pipe, now);
            }
        },
    }
    proof {
        assert(server.db.pipe@ =~= p0 + reset_cmds(last0, now));
    }
    let ghost mid = *server;
    proof {
        assert(server.cheese_timeouts@.take(0) =~= Seq::<u64>::empty());
    }
    let r = scan(server, 0, field::TIMEOUT_MAX_MS, Vec::new());
    proof {
        lemma_scan_step(&mid, server, r.0);
    }
    r
}

/// One turn of the periodic update: `state` is where it stood (`Start` at
/// first), `input` what the last action gave (`Input::Start` at first);
/// `delta_ms` is the time passed since the last update and `now` the Unix
/// time in seconds, both used at the first turn. The update runs the daily
/// reset when it is due at `now`, then replaces each
/// cheese that has turned by its radical form, or removes it when it has
/// none; it ends with `Action::NextTimeout`, how long to wait for events.
pub fn server_update(
    server: &mut SneakyMouseServer,
    delta_ms: u64,
    now: i64,
    state: UpdateState,
    input: Input,
) -> (r: (UpdateState, Step))
    requires
        old(server).wf(),
        update_state_ok(old(server), state),
        state is Start ==> old(server).cur_time_ms + delta_ms <= u64::MAX,
    ensures
        final(server).wf(),
        update_state_ok(final(server), r.0),
        final(server).cheeses().len() <= old(server).cheeses().len(),
        // Time moves forward only at the first turn.
        final(server).cur_time_ms == (if state is Start { old(server).cur_time_ms + delta_ms } else { old(server).cur_time_ms as int }),
        // The first turn runs the daily reset once it is due at `now`: the
        // last reset becomes `now`, and the reset is queued.
        final(server).last_reset_otherwise_server_genisis_unix == (if state is Start && reset_due(
            old(server).last_reset_otherwise_server_genisis_unix,
            now,
        ) {
            now
        } else {
            old(server).last_reset_otherwise_server_genisis_unix
        }),
        state is Start ==> match r.0 {
            UpdateState::Fetch { uid, .. } => final(server).db.pipe@ == (old(server).db.pipe@ + reset_cmds(
                old(server).last_reset_otherwise_server_genisis_unix,
                now,
            )).push(db::hgetall_cmd(db::cheese_data_key(uid))),
            _ => final(server).db.pipe@ == old(server).db.pipe@ + reset_cmds(
                old(server).last_reset_otherwise_server_genisis_unix,
                now,
            ),
        },
        // A time of the next reset out of range ends the update at once.
        state is Start && !reset_in_range(old(server).last_reset_otherwise_server_genisis_unix) ==> r.1.action is Panic,
        // Otherwise the first turn goes on to read a cheese that has turned,
        // or ends the update when none has.
        state is Start && reset_in_range(old(server).last_reset_otherwise_server_genisis_unix) ==> if any_turned(
            old(server).cheeses(),
            0,
            final(server).cur_time_ms,
        ) {
            r.0 is Fetch && r.1.action is Flush
        } else {
            r.1.action is NextTimeout && final(server).cheeses() == old(server).cheeses()
        },
        // Once a turned cheese is announced, the check goes on from where it
        // stood; a lost connection ends the update with an error.
        state matches UpdateState::Notify { i, .. } ==> match input {
            Input::Reply(Ok(_)) => if any_turned(old(server).cheeses(), i as int, old(server).cur_time_ms) {
                r.0 is Fetch && r.1.action is Flush
            } else {
                r.1.action is NextTimeout && final(server).cheeses() == old(server).cheeses()
            },
            Input::Reply(Err(())) => r.1.action matches Action::Finish(Err(())),
            _ => r.1.action is Panic,
        },
        // Each turn keeps the spawned cheeses, or removes one whose time has come.
        update_step(old(server).cheeses(), final(server).cheeses(), final(server).cur_time_ms),
        // When the update ends, no cheese that has turned is left, and the wait
        // ends no later than the next one turns.
        r.1.action matches Action::NextTimeout(n) ==> all_pending(final(server), n),
        // A cheese that has turned is removed, and its stored record requested.
        (state is Start || state is Notify) ==> (r.0 matches UpdateState::Fetch { i, uid, room, .. } ==> ({
            &&& i < old(server).cheeses().len()
            &&& old(server).cheeses()[i as int].timeout <= final(server).cur_time_ms
            &&& old(server).cheeses()[i as int].uid == uid
            &&& old(server).cheeses()[i as int].room == room@
            &&& final(server).cheeses() == rules::swap_removed(old(server).cheeses(), i as int)
            &&& final(server).db.pipe@.last() == db::hgetall_cmd(db::cheese_data_key(uid))
        })),
        // Once a turned cheese is read: one with a radical form is turned
        // radical (the application scales its size and multiplier); one
        // without is announced gone.
        state matches UpdateState::Fetch { i, next, uid, room, fetch } ==> (db::fetched_cheese(fetch, input) matches Some(
            (c, reps),
        ) ==> ({
            &&& strings_view(r.1.reports@) == reps
            &&& match c.radical_image {
                Some(rad) => {
                    &&& r.1.action matches Action::Radicalize { size, mult_bits } && size == c.size && mult_bits
                        == c.squirrel_mult_bits
                    &&& r.0 matches UpdateState::Radical { cheese: c2, uid: u2, room: room2, .. } && u2 == uid && room2@
                        == room@ && c2@ == (crate::config::CheeseView { image: rad, exclusive: true, ..c })
                    &&& final(server).db.pipe@ == old(server).db.pipe@
                },
                None => {
                    &&& final(server).db.pipe@ == old(server).db.pipe@.push(com::cheese_despawn_cmd(room@))
                    &&& r.1.action is Flush
                    &&& r.0 == (UpdateState::Notify { i, next })
                },
            }
        })),
        // A cheese turned radical is stored and announced with its new size and multiplier.
        state matches UpdateState::Radical { i, next, uid, room, cheese } ==> (input matches Input::Radical {
            size,
            mult_bits,
        } ==> ({
            let c = crate::config::CheeseView { size: size, squirrel_mult_bits: mult_bits, ..cheese@ };
            &&& final(server).db.pipe@ == old(server).db.pipe@ + seq![
                db::set_cheese_cmd(uid, c),
                com::cheese_update_cmd(room@, uid, c),
            ]
            &&& r.1.action is Flush
            &&& r.0 == (UpdateState::Notify { i, next })
        })),
{
    match state {
        UpdateState::Start => start_update(server, delta_ms, now),
        UpdateState::Fetch { i, next, uid, room, fetch } => {
            let (sub, reports) = db::get_cheese_step(fetch, input);
            match sub {
                Sub::Wait(f, a) => (UpdateState::Fetch { i, next, uid, room, fetch: f }, step(reports, a)),
                Sub::Done(cheese) => {
                    let mut cheese = cheese;
                    match &cheese.radical_image {
                        Some(radical) => {
                            cheese.image = slice_to_vec(radical.as_slice());
                            cheese.exclusive = true;
                            let size = cheese.size;
                            let mult_bits = cheese.squirrel_mult_bits;
                            (
                                UpdateState::Radical { i, next, uid, room, cheese },
                                step(reports, Action::Radicalize { size, mult_bits }),
                            )
                        },
                        None => {
                            com::cheese_despawn(&mut server.db.pipe, room.as_slice());
                            (UpdateState::Notify { i, next }, step(reports, Action::Flush))
                        },
                    }
                },
                Sub::Fatal => (UpdateState::Done, step(reports, Action::Finish(Err(())))),
                Sub::Abort(m) => (UpdateState::Done, step(reports, Action::Abort(m))),
                Sub::Panic(m) => (UpdateState::Done, step(reports, Action::Panic(m))),
            }
        },
        UpdateState::Radical { i, next, uid, room, cheese } => match input {
            Input::Radical { size, mult_bits } => {
                let ghost p0 = server.db.pipe@;
                let mut cheese = cheese;
                cheese.size = size;
                cheese.squirrel_mult_bits = mult_bits;
                db::set_cheese(&mut server.db.pipe, uid, &cheese);
                com::cheese_update(&mut server.db.pipe, room.as_slice(), uid, &cheese);
                proof {
                    assert(server.db.pipe@ =~= p0 + seq![
                        db::set_cheese_cmd(uid, cheese@),
                        com::cheese_update_cmd(room@, uid, cheese@),
                    ]);
                }
                (UpdateState::Notify { i, next }, step(Vec::new(), Action::Flush))
            },
            _ => (UpdateState::Done, step(Vec::new(), Action::Panic(unexpected_input()))),
        },
        UpdateState::Notify { i, next } => match input {
            Input::Reply(Ok(_)) => scan(server, i, next, Vec::new()),
            Input::Reply(Err(())) => (UpdateState::Done, step(Vec::new(), Action::Finish(Err(())))),
            _ => (UpdateState::Done, step(Vec::new(), Action::Panic(unexpected_input()))),
        },
        UpdateState::Done => (UpdateState::Done, step(Vec::new(), Action::Panic(unexpected_input()))),
    }
}

// ---------------------------------------------------------------------------
// The shutdown
// ---------------------------------------------------------------------------

/// Where the shutdown stands between turns.
#[derive(Debug)]
pub enum ShutdownState {
    Start,
    /// Waiting for the removal of the cheese of room `i`.
    Despawn { i: usize },
    /// Waiting for the last round trip.
    Flush,
    Done,
}

/// One turn of the shutdown: the cheese of every room is removed, each in a
/// round trip of its own, then the queued commands are sent.
pub fn server_shutdown(server: &mut SneakyMouseServer, state: ShutdownState, input: Input) -> (r: (ShutdownState, Step))
    requires
        old(server).wf(),
    ensures
        final(server).wf(),
        final(server).cheeses() == old(server).cheeses(),
        match state {
            ShutdownState::Start => if old(server).cheese_rooms@.len() > 0 {
                final(server).db.pipe@ == old(server).db.pipe@.push(com::cheese_despawn_cmd(old(server).cheese_rooms@[0]@))
                    && r.0 == (ShutdownState::Despawn { i: 0 }) && r.1.action == Action::Flush
            } else {
                final(server).db.pipe@ == old(server).db.pipe@ && r.0 == ShutdownState::Flush && r.1.action
                    == Action::Flush
            },
            ShutdownState::Despawn { i } => match input {
                Input::Reply(Ok(_)) => if i + 1 < old(server).cheese_rooms@.len() {
                    &&& final(server).db.pipe@ == old(server).db.pipe@.push(
                        com::cheese_despawn_cmd(old(server).cheese_rooms@[i + 1]@),
                    )
                    &&& r.0 matches ShutdownState::Despawn { i: j } && j == i + 1
                    &&& r.1.action == Action::Flush
                } else if i + 1 == old(server).cheese_rooms@.len() {
                    &&& final(server).db.pipe@ == old(server).db.pipe@
                    &&& r.0 == ShutdownState::Flush
                    &&& r.1.action == Action::Flush
                } else {
                    r.1.action is Panic
                },
                Input::Reply(Err(())) => r.1.action matches Action::Finish(Err(())),
                _ => r.1.action is Panic,
            },
            ShutdownState::Flush => match input {
                Input::Reply(Ok(_)) => r.1.action matches Action::Finish(Ok(())),
                Input::Reply(Err(())) => r.1.action matches Action::Finish(Err(())),
                _ => r.1.action is Panic,
            },
            ShutdownState::Done => r.1.action is Panic,
        },
{
    match state {
        ShutdownState::Start => despawn_from(server, 0),
        ShutdownState::Despawn { i } => match input {
            Input::Reply(Ok(_)) => {
                if i < server.cheese_rooms.len() {
                    despawn_from(server, i + 1)
                } else {
                    (ShutdownState::Done, step(Vec::new(), Action::Panic(unexpected_input())))
                }
            },
            Input::Reply(Err(())) => (ShutdownState::Done, step(Vec::new(), Action::Finish(Err(())))),
            _ => (ShutdownState::Done, step(Vec::new(), Action::Panic(unexpected_input()))),
        },
        ShutdownState::Flush => match input {
            Input::Reply(Ok(_)) => (ShutdownState::Done, step(Vec::new(), Action::Finish(Ok(())))),
            Input::Reply(Err(())) => (ShutdownState::Done, step(Vec::new(), Action::Finish(Err(())))),
            _ => (ShutdownState::Done, step(Vec::new(), Action::Panic(unexpected_input()))),
        },
        ShutdownState::Done => (ShutdownState::Done, step(Vec::new(), Action::Panic(unexpected_input()))),
    }
}

fn despawn_from(server: &mut SneakyMouseServer, i: usize) -> (r: (ShutdownState, Step))
    requires
        old(server).wf(),
    ensures
        final(server).wf(),
        final(server).cheeses() == old(server).cheeses(),
        i < old(server).cheese_rooms@.len() ==> final(server).db.pipe@ == old(server).db.pipe@.push(
            com::cheese_despawn_cmd(old(server).cheese_rooms@[i as int]@),
        ) && r.0 == (ShutdownState::Despawn { i }) && r.1.action == Action::Flush,
        i >= old(server).cheese_rooms@.len() ==> final(server).db.pipe@ == old(server).db.pipe@ && r.0
            == ShutdownState::Flush && r.1.action == Action::Flush,
{
    if i < server.cheese_rooms.len() {
        com::cheese_despawn(&mut server.db.pipe, server.cheese_rooms[i].as_slice());
        (ShutdownState::Despawn { i }, step(Vec::new(), Action::Flush))
    } else {
        (ShutdownState::Flush, step(Vec::new(), Action::Flush))
    }
}
} // verus!
