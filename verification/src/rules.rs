//! The game's rules for the incoming events: how an award is funded, how a
//! spawned cheese is shaped by the event's fields, what collecting it is
//! worth, and which cheese a room holds.
use vstd::prelude::*;
use vstd::string::*;
use crate::config::{CheeseData, CheeseView, UserData, Currency, SneakyMouseServer, CheeseEntry, SM_RESET_EPOCH_UNIX, SECS_IN_DAY_UNIX};
use crate::util::{lossy, utf8_lossy, reads_as_decoded, fields_read_as_decoded, lemma_read_as_decoded_step, lemma_fields_read_as_decoded};
use crate::field;
use crate::util::{
    FieldParse, field_parse, field_value, field_in_range, field_nonempty, byte_strs, find_field_u8s,
    find_field_i32, find_field_u32, find_field_bool, spec_to_i32, spec_to_u32, spec_to_bool,
    invalid_value, report_text, bytes_eq, balance, saturating_delta, check_user_has_enough_currency,
    check_user_saturating_currency, slice_to_vec,
};
use crate::db::strings_view;

verus! {

/// Half of `i32::MAX`: the bound on the amounts of an award.
pub const HALF_I32_MAX: i32 = 1073741823;

/// `v` restricted to `[lo, hi]`.
pub open spec fn clamp(v: int, lo: int, hi: int) -> int {
    if v < lo {
        lo
    } else if v > hi {
        hi
    } else {
        v
    }
}

/// Restricts `v` to `[lo, hi]`.
pub fn clamp_i32(v: i32, lo: i32, hi: i32) -> (r: i32)
    requires
        lo <= hi,
    ensures
        r == clamp(v as int, lo as int, hi as int),
{
    if v < lo {
        lo
    } else if v > hi {
        hi
    } else {
        v
    }
}

/// `a + b`, saturated to the range of `i32`.
pub open spec fn sat_add_i32(a: int, b: int) -> int {
    clamp(a + b, i32::MIN as int, i32::MAX as int)
}

/// Adds, saturating at the bounds of `i32`.
pub fn saturating_add_i32(a: i32, b: i32) -> (r: i32)
    ensures
        r == sat_add_i32(a as int, b as int),
{
    let s: i64 = a as i64 + b as i64;
    if s < i32::MIN as i64 {
        i32::MIN
    } else if s > i32::MAX as i64 {
        i32::MAX
    } else {
        s as i32
    }
}

/// The value a lookup gives, or `d`.
pub open spec fn value_or<T>(p: FieldParse<T>, d: T) -> T {
    match p {
        FieldParse::Found(v) => v,
        _ => d,
    }
}

/// The fields of an event, as byte strings.
pub struct EventView {
    pub name: Seq<u8>,
    pub uid: Seq<u8>,
    pub keys: Seq<Seq<u8>>,
    pub vals: Seq<Seq<u8>>,
}

/// Whether each of the event's keys has a value (values past the last key
/// are not read).
pub open spec fn event_ok(keys: Seq<&[u8]>, vals: Seq<&[u8]>) -> bool {
    keys.len() <= vals.len()
}

/// The report for an invalid value of `f` in the event.
pub open spec fn invalid_report(e: EventView, f: &str) -> Seq<char> {
    report_text(
        "invalid event error: field '"@,
        f@,
        "' had an incorrect value, the event will still be attempted with default values, name:'"@,
        e.name,
        e.uid,
        e.keys,
        e.vals,
    )
}

/// The report for a field the event cannot do without.
pub open spec fn missing_report(e: EventView, f: &str) -> Seq<char> {
    report_text("invalid event error: missing critical field '"@, f@, "', name:'"@, e.name, e.uid, e.keys, e.vals)
}

/// The report for a field that names no known user.
pub open spec fn missing_user_report(e: EventView, f: &str) -> Seq<char> {
    report_text(
        "invalid event error: field '"@,
        f@,
        "' does not identify a known user, event is cancelled, name:'"@,
        e.name,
        e.uid,
        e.keys,
        e.vals,
    )
}

/// The reports for a lookup that found an invalid value.
pub open spec fn invalid_if<T>(p: FieldParse<T>, e: EventView, f: &str) -> Seq<Seq<char>> {
    if p is Invalid {
        seq![invalid_report(e, f)]
    } else {
        seq![]
    }
}

/// How the given event field reads as an `i32`.
pub open spec fn i32_field(e: EventView, f: &str) -> FieldParse<i32> {
    field_parse(field_value(e.keys, e.vals, f.spec_bytes()), |s| spec_to_i32(s))
}

/// How the given event field reads as a `u32`.
pub open spec fn u32_field(e: EventView, f: &str) -> FieldParse<u32> {
    field_parse(field_value(e.keys, e.vals, f.spec_bytes()), |s| spec_to_u32(s))
}

/// How the given event field reads as a boolean.
pub open spec fn bool_field(e: EventView, f: &str) -> FieldParse<bool> {
    field_parse(field_value(e.keys, e.vals, f.spec_bytes()), |s| spec_to_bool(s))
}

/// Tests `field_nonempty` for an event field.
pub fn field_is_nonempty(key: &str, keys: &[&[u8]], vals: &[&[u8]]) -> (r: bool)
    requires
        event_ok(keys@, vals@),
    ensures
        r == field_nonempty(byte_strs(keys@), byte_strs(vals@), key.spec_bytes()),
{
    proof {
        lemma_fields_in_range(keys@, vals@, key.spec_bytes());
    }
    match find_field_u8s(key, keys, vals) {
        Some(v) => v.len() > 0,
        None => true,
    }
}

/// The view of an event.
pub open spec fn event_view(name: &[u8], uid: &[u8], keys: Seq<&[u8]>, vals: Seq<&[u8]>) -> EventView {
    EventView { name: name@, uid: uid@, keys: byte_strs(keys), vals: byte_strs(vals) }
}

pub proof fn lemma_fields_in_range(keys: Seq<&[u8]>, vals: Seq<&[u8]>, key: Seq<u8>)
    requires
        event_ok(keys, vals),
    ensures
        field_in_range(byte_strs(keys), byte_strs(vals), key),
{
    lemma_first_match_below(byte_strs(keys), key);
}

proof fn lemma_first_match_below(keys: Seq<Seq<u8>>, key: Seq<u8>)
    ensures
        crate::util::first_match(keys, key) < keys.len(),
    decreases keys.len(),
{
    if keys.len() > 0 {
        lemma_first_match_below(keys.drop_last(), key);
    }
}

// ---------------------------------------------------------------------------
// Awards
// ---------------------------------------------------------------------------

/// How the award's cheese is limited by what a payer holds.
pub open spec fn strategy(dest_id: Seq<u8>) -> (u8, bool) {
    if dest_id == field::CHEESE_STRAT_CANCEL.spec_bytes() {
        (0, true)
    } else if dest_id == field::CHEESE_STRAT_OVERFLOW.spec_bytes() {
        (1, true)
    } else if dest_id == field::CHEESE_STRAT_SATURATE.spec_bytes() {
        (2, true)
    } else {
        (0, false)
    }
}

/// An award's amounts after the receiver's check.
#[derive(Debug)]
pub struct GiveAmounts {
    pub cheese_delta: i32,
    pub gem_delta: i32,
    pub strat: u8,
    /// Whether the award goes on.
    pub proceed: bool,
}

/// What the receiver's check decides: the amounts are read from the event
/// (0 when absent or unreadable) and clamped to half of `i32::MAX`; the
/// strategy is read from the value the receiver is named by (strategy 0,
/// "cancel", when it names none); under strategy 0 a withdrawal of cheese
/// must be covered by the receiver, under strategy 2 it is cut down to what
/// the receiver holds; a withdrawal of gems must be covered.
pub open spec fn spec_give_dest(e: EventView, dest_id: Seq<u8>, dest: crate::config::UserView) -> (GiveAmountsView, Seq<Seq<char>>) {
    let cp = i32_field(e, field::CHEESE_DELTA);
    let gp = i32_field(e, field::GEM_DELTA);
    let cd0 = clamp(value_or(cp, 0i32) as int, -HALF_I32_MAX as int, HALF_I32_MAX as int);
    let gd = clamp(value_or(gp, 0i32) as int, -HALF_I32_MAX as int, HALF_I32_MAX as int);
    let (strat, strat_ok) = strategy(dest_id);
    let user_total = dest.cheese as int;
    let cd = if strat == 2 { saturating_delta(user_total, cd0, 0).0 } else { cd0 };
    let ok_cheese = if strat == 0 { cd0 >= 0 || user_total + cd0 >= 0 } else { true };
    let proceed = ok_cheese && (gd >= 0 || dest.gems as int + gd >= 0);
    (
        GiveAmountsView { cheese_delta: cd, gem_delta: gd, strat, proceed },
        invalid_if(cp, e, field::CHEESE_DELTA) + invalid_if(gp, e, field::GEM_DELTA) + if strat_ok {
            seq![]
        } else {
            seq![invalid_report(e, field::DEST_ID)]
        },
    )
}

pub struct GiveAmountsView {
    pub cheese_delta: int,
    pub gem_delta: int,
    pub strat: u8,
    pub proceed: bool,
}

impl View for GiveAmounts {
    type V = GiveAmountsView;

    open spec fn view(&self) -> GiveAmountsView {
        GiveAmountsView {
            cheese_delta: self.cheese_delta as int,
            gem_delta: self.gem_delta as int,
            strat: self.strat,
            proceed: self.proceed,
        }
    }
}

fn report_invalid<T>(
    reports: &mut Vec<String>,
    p: &FieldParse<T>,
    event_name: &[u8],
    event_uid: &[u8],
    keys: &[&[u8]],
    vals: &[&[u8]],
    f: &str,
)
    requires
        event_ok(keys@, vals@),
    ensures
        strings_view(final(reports)@) == strings_view(old(reports)@) + invalid_if(
            *p,
            event_view(event_name, event_uid, keys@, vals@),
            f,
        ),
{
    let ghost r0 = strings_view(reports@);
    match p {
        FieldParse::Invalid => {
            let m = invalid_value(event_name, event_uid, keys, vals, f);
            let ghost mv = m@;
            reports.push(m);
            proof {
                assert(strings_view(reports@) =~= r0.push(mv));
            }
        },
        _ => {
            proof {
                assert(strings_view(reports@) =~= r0 + seq![]);
            }
        },
    }
}

/// The receiver's check of an award (see `spec_give_dest`).
pub fn give_dest(
    event_name: &[u8],
    event_uid: &[u8],
    keys: &[&[u8]],
    vals: &[&[u8]],
    dest_id: &[u8],
    dest_user: &UserData,
) -> (r: (GiveAmounts, Vec<String>))
    requires
        event_ok(keys@, vals@),
        field_nonempty(byte_strs(keys@), byte_strs(vals@), field::CHEESE_DELTA.spec_bytes()),
        field_nonempty(byte_strs(keys@), byte_strs(vals@), field::GEM_DELTA.spec_bytes()),
    ensures
        r.0@ == spec_give_dest(event_view(event_name, event_uid, keys@, vals@), dest_id@, dest_user@).0,
        strings_view(r.1@) == spec_give_dest(event_view(event_name, event_uid, keys@, vals@), dest_id@, dest_user@).1,
        -HALF_I32_MAX <= r.0.cheese_delta <= HALF_I32_MAX,
        -HALF_I32_MAX <= r.0.gem_delta <= HALF_I32_MAX,
{
    let ghost e = event_view(event_name, event_uid, keys@, vals@);
    proof {
        lemma_fields_in_range(keys@, vals@, field::CHEESE_DELTA.spec_bytes());
        lemma_fields_in_range(keys@, vals@, field::GEM_DELTA.spec_bytes());
    }
    let mut reports: Vec<String> = Vec::new();
    let cp = find_field_i32(field::CHEESE_DELTA, keys, vals);
    report_invalid(&mut reports, &cp, event_name, event_uid, keys, vals, field::CHEESE_DELTA);
    let gp = find_field_i32(field::GEM_DELTA, keys, vals);
    report_invalid(&mut reports, &gp, event_name, event_uid, keys, vals, field::GEM_DELTA);
    let cd0 = clamp_i32(cp.value().unwrap_or(0), -HALF_I32_MAX, HALF_I32_MAX);
    let gd = clamp_i32(gp.value().unwrap_or(0), -HALF_I32_MAX, HALF_I32_MAX);
    let ghost before = strings_view(reports@);
    let strat: u8 = if bytes_eq(dest_id, field::CHEESE_STRAT_CANCEL.as_bytes()) {
        0
    } else if bytes_eq(dest_id, field::CHEESE_STRAT_OVERFLOW.as_bytes()) {
        1
    } else if bytes_eq(dest_id, field::CHEESE_STRAT_SATURATE.as_bytes()) {
        2
    } else {
        let m = invalid_value(event_name, event_uid, keys, vals, field::DEST_ID);
        reports.push(m);
        0
    };
    proof {
        assert(strings_view(reports@) =~= spec_give_dest(e, dest_id@, dest_user@).1);
    }
    let mut cheese_delta = cd0;
    let mut ok_cheese = true;
    if strat == 0 {
        ok_cheese = check_user_has_enough_currency(dest_user, Currency::CHEESE, cd0);
    } else if strat == 2 {
        let (d, _) = check_user_saturating_currency(dest_user, Currency::CHEESE, cd0, 0);
        cheese_delta = d;
    }
    let proceed = ok_cheese && check_user_has_enough_currency(dest_user, Currency::GEMS, gd);
    (GiveAmounts { cheese_delta, gem_delta: gd, strat, proceed }, reports)
}

/// The payer's part of an award.
#[derive(Debug)]
pub struct GivePayment {
    pub cheese_delta: i32,
    pub cheese_cost: i32,
    pub gem_cost: i32,
    pub proceed: bool,
}

/// What the payer's check decides: the costs are read from the event (0 when
/// absent or unreadable) and clamped to half of `i32::MAX`; the payer pays
/// the receiver's cheese and gems plus the costs; under strategy 0 the
/// cheese must be covered; under strategy 2 the cheese passed on is cut down
/// to what the payer holds once the cost is paid, and the award stops if the
/// cost is not covered; the gems must be covered.
pub open spec fn spec_give_src(e: EventView, amounts: GiveAmountsView, src: crate::config::UserView) -> (
    int,
    int,
    int,
    bool,
    Seq<Seq<char>>,
) {
    let ccp = i32_field(e, field::CHEESE_COST);
    let gcp = i32_field(e, field::GEM_COST);
    let cc = clamp(value_or(ccp, 0i32) as int, -HALF_I32_MAX as int, HALF_I32_MAX as int);
    let gc = clamp(value_or(gcp, 0i32) as int, -HALF_I32_MAX as int, HALF_I32_MAX as int);
    let cd = amounts.cheese_delta;
    let total = src.cheese as int;
    let (cd2, ok_cheese) = if amounts.strat == 0 {
        (cd, -cd - cc >= 0 || total + (-cd - cc) >= 0)
    } else if amounts.strat == 2 {
        let (d, ok) = saturating_delta(total, -cd, -cc);
        (-d, ok)
    } else {
        (cd, true)
    };
    let gd = amounts.gem_delta;
    let proceed = ok_cheese && (-gd - gc >= 0 || src.gems as int + (-gd - gc) >= 0);
    (cd2, cc, gc, proceed, invalid_if(ccp, e, field::CHEESE_COST) + invalid_if(gcp, e, field::GEM_COST))
}

impl GivePayment {
    pub open spec fn tuple(&self) -> (int, int, int, bool) {
        (self.cheese_delta as int, self.cheese_cost as int, self.gem_cost as int, self.proceed)
    }
}

/// The payer's check of an award (see `spec_give_src`).
pub fn give_src(
    event_name: &[u8],
    event_uid: &[u8],
    keys: &[&[u8]],
    vals: &[&[u8]],
    amounts: &GiveAmounts,
    src_user: &UserData,
) -> (r: (GivePayment, Vec<String>))
    requires
        event_ok(keys@, vals@),
        field_nonempty(byte_strs(keys@), byte_strs(vals@), field::CHEESE_COST.spec_bytes()),
        field_nonempty(byte_strs(keys@), byte_strs(vals@), field::GEM_COST.spec_bytes()),
        -HALF_I32_MAX <= amounts.cheese_delta <= HALF_I32_MAX,
        -HALF_I32_MAX <= amounts.gem_delta <= HALF_I32_MAX,
    ensures
        ({
            let s = spec_give_src(event_view(event_name, event_uid, keys@, vals@), amounts@, src_user@);
            &&& r.0.tuple() == (s.0, s.1, s.2, s.3)
            &&& strings_view(r.1@) == s.4
        }),
        -HALF_I32_MAX <= r.0.cheese_delta <= HALF_I32_MAX,
        -HALF_I32_MAX <= r.0.cheese_cost <= HALF_I32_MAX,
        -HALF_I32_MAX <= r.0.gem_cost <= HALF_I32_MAX,
{
    let ghost e = event_view(event_name, event_uid, keys@, vals@);
    proof {
        lemma_fields_in_range(keys@, vals@, field::CHEESE_COST.spec_bytes());
        lemma_fields_in_range(keys@, vals@, field::GEM_COST.spec_bytes());
    }
    let mut reports: Vec<String> = Vec::new();
    let ccp = find_field_i32(field::CHEESE_COST, keys, vals);
    report_invalid(&mut reports, &ccp, event_name, event_uid, keys, vals, field::CHEESE_COST);
    let gcp = find_field_i32(field::GEM_COST, keys, vals);
    report_invalid(&mut reports, &gcp, event_name, event_uid, keys, vals, field::GEM_COST);
    proof {
        assert(strings_view(reports@) =~= spec_give_src(e, amounts@, src_user@).4);
    }
    let cc = clamp_i32(ccp.value().unwrap_or(0), -HALF_I32_MAX, HALF_I32_MAX);
    let gc = clamp_i32(gcp.value().unwrap_or(0), -HALF_I32_MAX, HALF_I32_MAX);
    let mut cheese_delta = amounts.cheese_delta;
    let mut ok_cheese = true;
    if amounts.strat == 0 {
        ok_cheese = check_user_has_enough_currency(src_user, Currency::CHEESE, -cheese_delta - cc);
    } else if amounts.strat == 2 {
        let (d, is) = check_user_saturating_currency(src_user, Currency::CHEESE, -cheese_delta, -cc);
        ok_cheese = is;
        cheese_delta = -d;
    }
    let proceed = ok_cheese && check_user_has_enough_currency(src_user, Currency::GEMS, -amounts.gem_delta - gc);
    (GivePayment { cheese_delta, cheese_cost: cc, gem_cost: gc, proceed }, reports)
}

/// Law: an award that goes on under strategy 0 or 2 leaves neither party
/// with a negative balance when it started with none.
pub proof fn law_award_keeps_balances(
    e: EventView,
    dest_id: Seq<u8>,
    dest: crate::config::UserView,
    src: crate::config::UserView,
)
    requires
        dest.cheese >= 0,
        dest.gems >= 0,
        src.cheese >= 0,
        src.gems >= 0,
        spec_give_dest(e, dest_id, dest).0.proceed,
        spec_give_dest(e, dest_id, dest).0.strat != 1,
        spec_give_src(e, spec_give_dest(e, dest_id, dest).0, src).3,
    ensures
        ({
            let a = spec_give_dest(e, dest_id, dest).0;
            let p = spec_give_src(e, a, src);
            &&& dest.cheese + p.0 >= 0
            &&& dest.gems + a.gem_delta >= 0
            &&& src.cheese - p.0 - p.1 >= 0
            &&& src.gems - a.gem_delta - p.2 >= 0
        }),
{
}


// ---------------------------------------------------------------------------
// Spawning
// ---------------------------------------------------------------------------

/// The reports and times that the event's time fields give a cheese: a time
/// given alone sets both; two times given out of order report the minimum
/// and use the maximum for both.
pub open spec fn spawn_times(e: EventView, c: CheeseView) -> (u32, u32, Seq<Seq<char>>) {
    let tminp = u32_field(e, field::TIME_MIN);
    let tmaxp = u32_field(e, field::TIME_MAX);
    let reports = invalid_if(tminp, e, field::TIME_MIN) + invalid_if(tmaxp, e, field::TIME_MAX);
    match tminp {
        FieldParse::Found(t) => match tmaxp {
            FieldParse::Found(m) => if t > m {
                (m, m, reports + seq![invalid_report(e, field::TIME_MIN)])
            } else {
                (t, m, reports)
            },
            _ => (t, t, reports),
        },
        _ => match tmaxp {
            FieldParse::Found(m) => (m, m, reports),
            _ => (c.time_min, c.time_max, reports),
        },
    }
}

/// What the event's fields make of a cheese before its size is scaled: the
/// times (see `spawn_times`); the size, given or kept, clamped; the original
/// size, when 0, set to the size; the gems, given or kept, clamped; the
/// flags and images, given or kept.
pub open spec fn spec_spawn_fields(e: EventView, c: CheeseView) -> (CheeseView, Seq<Seq<char>>) {
    let (tmin, tmax, r1) = spawn_times(e, c);
    let sp = i32_field(e, field::SIZE);
    let size = clamp(value_or(sp, c.size) as int, -field::CHEESE_SIZE_MAX as int, field::CHEESE_SIZE_MAX as int) as i32;
    let gp = i32_field(e, field::GEMS);
    let sl = bool_field(e, field::SILENT);
    let ex = bool_field(e, field::EXCLUSIVE);
    (
        CheeseView {
            image: match field_value(e.keys, e.vals, field::IMAGE.spec_bytes()) {
                Some(v) => v,
                None => c.image,
            },
            radical_image: match field_value(e.keys, e.vals, field::RADICAL_IMAGE.spec_bytes()) {
                Some(v) => Some(v),
                None => c.radical_image,
            },
            time_min: tmin,
            time_max: tmax,
            size: size,
            original_size: if c.original_size == 0 { size } else { c.original_size },
            gems: clamp(value_or(gp, c.gems) as int, -field::CHEESE_GEMS_MAX as int, field::CHEESE_GEMS_MAX as int) as i32,
            squirrel_mult_bits: c.squirrel_mult_bits,
            silent: value_or(sl, c.silent),
            exclusive: value_or(ex, c.exclusive),
        },
        r1 + invalid_if(sp, e, field::SIZE) + invalid_if(gp, e, field::GEMS) + invalid_if(sl, e, field::SILENT)
            + invalid_if(ex, e, field::EXCLUSIVE),
    )
}

/// Applies the event's fields to a cheese about to spawn (see `spec_spawn_fields`).
pub fn spawn_fields(
    cheese: &mut CheeseData,
    event_name: &[u8],
    event_uid: &[u8],
    keys: &[&[u8]],
    vals: &[&[u8]],
) -> (r: Vec<String>)
    requires
        event_ok(keys@, vals@),
        field_nonempty(byte_strs(keys@), byte_strs(vals@), field::SIZE.spec_bytes()),
        field_nonempty(byte_strs(keys@), byte_strs(vals@), field::GEMS.spec_bytes()),
    ensures
        final(cheese)@ == spec_spawn_fields(event_view(event_name, event_uid, keys@, vals@), old(cheese)@).0,
        strings_view(r@) == spec_spawn_fields(event_view(event_name, event_uid, keys@, vals@), old(cheese)@).1,
{
    let ghost e = event_view(event_name, event_uid, keys@, vals@);
    proof {
        lemma_fields_in_range(keys@, vals@, field::TIME_MIN.spec_bytes());
        lemma_fields_in_range(keys@, vals@, field::TIME_MAX.spec_bytes());
        lemma_fields_in_range(keys@, vals@, field::SIZE.spec_bytes());
        lemma_fields_in_range(keys@, vals@, field::GEMS.spec_bytes());
        lemma_fields_in_range(keys@, vals@, field::SILENT.spec_bytes());
        lemma_fields_in_range(keys@, vals@, field::EXCLUSIVE.spec_bytes());
        lemma_fields_in_range(keys@, vals@, field::IMAGE.spec_bytes());
        lemma_fields_in_range(keys@, vals@, field::RADICAL_IMAGE.spec_bytes());
    }
    let mut reports: Vec<String> = Vec::new();
    let tminp = find_field_u32(field::TIME_MIN, keys, vals);
    report_invalid(&mut reports, &tminp, event_name, event_uid, keys, vals, field::TIME_MIN);
    let tmaxp = find_field_u32(field::TIME_MAX, keys, vals);
    report_invalid(&mut reports, &tmaxp, event_name, event_uid, keys, vals, field::TIME_MAX);
    match tminp {
        FieldParse::Found(t) => match tmaxp {
            FieldParse::Found(m) => {
                cheese.time_min = t;
                cheese.time_max = m;
                if t > m {
                    let r = invalid_value(event_name, event_uid, keys, vals, field::TIME_MIN);
                    reports.push(r);
                    cheese.time_min = m;
                }
            },
            _ => {
                cheese.time_min = t;
                cheese.time_max = t;
            },
        },
        _ => match tmaxp {
            FieldParse::Found(m) => {
                cheese.time_min = m;
                cheese.time_max = m;
            },
            _ => {},
        },
    }
    proof {
        assert(strings_view(reports@) =~= spawn_times(e, old(cheese)@).2);
    }
    let sp = find_field_i32(field::SIZE, keys, vals);
    report_invalid(&mut reports, &sp, event_name, event_uid, keys, vals, field::SIZE);
    cheese.size = clamp_i32(sp.value().unwrap_or(cheese.size), -field::CHEESE_SIZE_MAX, field::CHEESE_SIZE_MAX);
    if cheese.original_size == 0 {
        cheese.original_size = cheese.size;
    }
    let gp = find_field_i32(field::GEMS, keys, vals);
    report_invalid(&mut reports, &gp, event_name, event_uid, keys, vals, field::GEMS);
    cheese.gems = clamp_i32(gp.value().unwrap_or(cheese.gems), -field::CHEESE_GEMS_MAX, field::CHEESE_GEMS_MAX);
    let sl = find_field_bool(field::SILENT, keys, vals);
    report_invalid(&mut reports, &sl, event_name, event_uid, keys, vals, field::SILENT);
    cheese.silent = sl.value().unwrap_or(cheese.silent);
    let ex = find_field_bool(field::EXCLUSIVE, keys, vals);
    report_invalid(&mut reports, &ex, event_name, event_uid, keys, vals, field::EXCLUSIVE);
    cheese.exclusive = ex.value().unwrap_or(cheese.exclusive);
    match find_field_u8s(field::IMAGE, keys, vals) {
        Some(v) => {
            cheese.image = slice_to_vec(v);
        },
        None => {},
    }
    match find_field_u8s(field::RADICAL_IMAGE, keys, vals) {
        Some(v) => {
            cheese.radical_image = Some(slice_to_vec(v));
        },
        None => {},
    }
    proof {
        assert(strings_view(reports@) =~= spec_spawn_fields(e, old(cheese)@).1);
    }
    reports
}

/// What the size increment of the event makes of a (scaled) size: added,
/// saturating, then clamped.
pub open spec fn spec_spawn_size(e: EventView, size: i32) -> (i32, Seq<Seq<char>>) {
    let ip = i32_field(e, field::SIZE_INCR);
    let s = match ip {
        FieldParse::Found(x) => sat_add_i32(size as int, x as int),
        _ => size as int,
    };
    (
        clamp(s, -field::CHEESE_SIZE_MAX as int, field::CHEESE_SIZE_MAX as int) as i32,
        invalid_if(ip, e, field::SIZE_INCR),
    )
}

/// Applies the event's size increment (see `spec_spawn_size`).
pub fn spawn_size(
    size: i32,
    event_name: &[u8],
    event_uid: &[u8],
    keys: &[&[u8]],
    vals: &[&[u8]],
) -> (r: (i32, Vec<String>))
    requires
        event_ok(keys@, vals@),
        field_nonempty(byte_strs(keys@), byte_strs(vals@), field::SIZE_INCR.spec_bytes()),
    ensures
        r.0 == spec_spawn_size(event_view(event_name, event_uid, keys@, vals@), size).0,
        strings_view(r.1@) == spec_spawn_size(event_view(event_name, event_uid, keys@, vals@), size).1,
{
    proof {
        lemma_fields_in_range(keys@, vals@, field::SIZE_INCR.spec_bytes());
    }
    let mut reports: Vec<String> = Vec::new();
    let ip = find_field_i32(field::SIZE_INCR, keys, vals);
    report_invalid(&mut reports, &ip, event_name, event_uid, keys, vals, field::SIZE_INCR);
    let s = match ip {
        FieldParse::Found(x) => saturating_add_i32(size, x),
        _ => size,
    };
    (clamp_i32(s, -field::CHEESE_SIZE_MAX, field::CHEESE_SIZE_MAX), reports)
}

/// Law: a spawned cheese's size stays within the size bound, whatever the event says.
pub proof fn law_spawn_size_bounded(e: EventView, size: i32)
    ensures
        -field::CHEESE_SIZE_MAX <= spec_spawn_size(e, size).0 <= field::CHEESE_SIZE_MAX,
{
}

/// Law: the times of a spawned cheese are in order whenever the event gives
/// any time.
pub proof fn law_spawn_times_ordered(e: EventView, c: CheeseView)
    requires
        u32_field(e, field::TIME_MIN) is Found || u32_field(e, field::TIME_MAX) is Found,
    ensures
        spawn_times(e, c).0 <= spawn_times(e, c).1,
{
}

// ---------------------------------------------------------------------------
// Collecting
// ---------------------------------------------------------------------------

/// Whether an `f32` is zero (either sign), by its bit pattern.
pub open spec fn f32_is_zero(bits: u32) -> bool {
    bits & 0x7fff_ffff == 0
}

/// Tests `f32_is_zero`.
pub fn f32_bits_is_zero(bits: u32) -> (r: bool)
    ensures
        r == f32_is_zero(bits),
{
    bits & 0x7fff_ffff == 0
}

/// What collecting a cheese adds to the collector's cheese: its size, plus,
/// when its squirrel multiplier is not zero, the collector's balance scaled
/// by it (`bonus`), saturating.
pub open spec fn spec_collect_increment(size: i32, bonus: Option<i32>) -> i32 {
    match bonus {
        Some(b) => sat_add_i32(b as int, size as int) as i32,
        None => size,
    }
}

pub fn collect_increment(size: i32, bonus: Option<i32>) -> (r: i32)
    ensures
        r == spec_collect_increment(size, bonus),
{
    match bonus {
        Some(b) => saturating_add_i32(b, size),
        None => size,
    }
}

// ---------------------------------------------------------------------------
// The spawned cheeses
// ---------------------------------------------------------------------------

/// The index of the first spawned cheese from template `id` in `room`, or -1.
pub open spec fn first_cheese(s: Seq<CheeseEntry>, id: u64, room: Seq<u8>) -> int
    decreases s.len(),
{
    if s.len() == 0 {
        -1
    } else {
        let r = first_cheese(s.drop_last(), id, room);
        if r >= 0 {
            r
        } else if s.last().id == id && s.last().room == room {
            s.len() - 1
        } else {
            -1
        }
    }
}

/// The index of the first spawned cheese in `room`, or -1.
pub open spec fn first_in_room(s: Seq<CheeseEntry>, room: Seq<u8>) -> int
    decreases s.len(),
{
    if s.len() == 0 {
        -1
    } else {
        let r = first_in_room(s.drop_last(), room);
        if r >= 0 {
            r
        } else if s.last().room == room {
            s.len() - 1
        } else {
            -1
        }
    }
}

proof fn lemma_cheeses_take(server: &SneakyMouseServer, k: int)
    requires
        server.wf(),
        0 <= k < server.cheese_timeouts@.len(),
    ensures
        server.cheeses().take(k + 1).drop_last() == server.cheeses().take(k),
        server.cheeses().take(k + 1).last() == server.cheeses()[k],
{
    assert(server.cheeses().take(k + 1).drop_last() =~= server.cheeses().take(k));
}

/// Finds the first spawned cheese from template `id` in `room`.
pub fn find_cheese(server: &SneakyMouseServer, id: u64, room: &[u8]) -> (r: Option<usize>)
    requires
        server.wf(),
    ensures
        match r {
            Some(i) => i == first_cheese(server.cheeses(), id, room@) && i < server.cheese_timeouts@.len(),
            None => first_cheese(server.cheeses(), id, room@) == -1,
        },
{
    let mut i: usize = 0;
    while i < server.cheese_ids.len()
        invariant
            server.wf(),
            server.cheese_ids@.len() == server.cheese_timeouts@.len(),
            i <= server.cheese_ids@.len(),
            first_cheese(server.cheeses().take(i as int), id, room@) == -1,
        decreases server.cheese_ids@.len() - i,
    {
        proof {
            lemma_cheeses_take(server, i as int);
        }
        if server.cheese_ids[i] == id && bytes_eq(server.cheese_rooms[i].as_slice(), room) {
            proof {
                assert(first_cheese(server.cheeses().take(i as int + 1), id, room@) == i);
                lemma_first_cheese_prefix(server.cheeses(), id, room@, i as int + 1);
            }
            return Some(i);
        }
        i = i + 1;
    }
    proof {
        assert(server.cheeses().take(i as int) =~= server.cheeses());
    }
    None
}

proof fn lemma_first_cheese_prefix(s: Seq<CheeseEntry>, id: u64, room: Seq<u8>, n: int)
    requires
        0 <= n <= s.len(),
        first_cheese(s.take(n), id, room) >= 0,
    ensures
        first_cheese(s, id, room) == first_cheese(s.take(n), id, room),
    decreases s.len() - n,
{
    if n < s.len() {
        assert(s.take(n + 1).drop_last() =~= s.take(n));
        lemma_first_cheese_prefix(s, id, room, n + 1);
    } else {
        assert(s.take(n) =~= s);
    }
}

proof fn lemma_first_in_room_prefix(s: Seq<CheeseEntry>, room: Seq<u8>, n: int)
    requires
        0 <= n <= s.len(),
        first_in_room(s.take(n), room) >= 0,
    ensures
        first_in_room(s, room) == first_in_room(s.take(n), room),
    decreases s.len() - n,
{
    if n < s.len() {
        assert(s.take(n + 1).drop_last() =~= s.take(n));
        lemma_first_in_room_prefix(s, room, n + 1);
    } else {
        assert(s.take(n) =~= s);
    }
}

/// Finds the first spawned cheese in `room`.
pub fn find_room(server: &SneakyMouseServer, room: &[u8]) -> (r: Option<usize>)
    requires
        server.wf(),
    ensures
        match r {
            Some(i) => i == first_in_room(server.cheeses(), room@) && i < server.cheese_timeouts@.len(),
            None => first_in_room(server.cheeses(), room@) == -1,
        },
{
    let mut i: usize = 0;
    while i < server.cheese_rooms.len()
        invariant
            server.wf(),
            server.cheese_rooms@.len() == server.cheese_timeouts@.len(),
            i <= server.cheese_rooms@.len(),
            first_in_room(server.cheeses().take(i as int), room@) == -1,
        decreases server.cheese_rooms@.len() - i,
    {
        proof {
            lemma_cheeses_take(server, i as int);
        }
        if bytes_eq(server.cheese_rooms[i].as_slice(), room) {
            proof {
                assert(first_in_room(server.cheeses().take(i as int + 1), room@) == i);
                lemma_first_in_room_prefix(server.cheeses(), room@, i as int + 1);
            }
            return Some(i);
        }
        i = i + 1;
    }
    proof {
        assert(server.cheeses().take(i as int) =~= server.cheeses());
    }
    None
}

/// The spawned cheeses after entry `i` is removed: the last entry takes its place.
pub open spec fn swap_removed(s: Seq<CheeseEntry>, i: int) -> Seq<CheeseEntry> {
    s.update(i, s.last()).drop_last()
}

/// Removes spawned cheese `i`, moving the last one into its place; returns
/// its number and room.
pub fn remove_cheese(server: &mut SneakyMouseServer, i: usize) -> (r: (u64, Vec<u8>))
    requires
        old(server).wf(),
        i < old(server).cheese_timeouts@.len(),
    ensures
        final(server).wf(),
        final(server).cheeses() == swap_removed(old(server).cheeses(), i as int),
        r.0 == old(server).cheeses()[i as int].uid,
        r.1@ == old(server).cheeses()[i as int].room,
        final(server).db == old(server).db,
        final(server).cur_time_ms == old(server).cur_time_ms,
        final(server).last_reset_otherwise_server_genisis_unix == old(server).last_reset_otherwise_server_genisis_unix,
{
    let ghost before = server.cheeses();
    server.cheese_timeouts.swap_remove(i);
    let uid = server.cheese_uids.swap_remove(i);
    let room = server.cheese_rooms.swap_remove(i);
    server.cheese_ids.swap_remove(i);
    proof {
        assert(server.cheeses() =~= swap_removed(before, i as int));
    }
    (uid, room)
}

/// Adds a spawned cheese at the end.
pub fn push_cheese(server: &mut SneakyMouseServer, timeout: u64, uid: u64, room: Vec<u8>, id: u64)
    requires
        old(server).wf(),
    ensures
        final(server).wf(),
        final(server).cheeses() == old(server).cheeses().push(CheeseEntry { timeout, uid, room: room@, id }),
        final(server).db == old(server).db,
        final(server).cur_time_ms == old(server).cur_time_ms,
        final(server).last_reset_otherwise_server_genisis_unix == old(server).last_reset_otherwise_server_genisis_unix,
{
    let ghost before = server.cheeses();
    let ghost rv = room@;
    server.cheese_timeouts.push(timeout);
    server.cheese_uids.push(uid);
    server.cheese_rooms.push(room);
    server.cheese_ids.push(id);
    proof {
        assert(server.cheeses() =~= before.push(CheeseEntry { timeout, uid, room: rv, id }));
    }
}

/// Law: removing a spawned cheese keeps every other one, and only it goes.
pub proof fn law_remove_keeps_others(s: Seq<CheeseEntry>, i: int)
    requires
        0 <= i < s.len(),
    ensures
        swap_removed(s, i).len() == s.len() - 1,
        swap_removed(s, i).to_multiset() == s.remove(i).to_multiset(),
{
    broadcast use vstd::multiset::group_multiset_axioms;

    let t = swap_removed(s, i);
    let u = s.update(i, s.last());
    assert(u =~= t.push(s.last()));
    vstd::seq_lib::to_multiset_update(s, i, s.last());
    vstd::seq_lib::to_multiset_build(t, s.last());
    vstd::seq_lib::to_multiset_remove(s, i);
    assert(s.contains(s[i]));
    vstd::seq_lib::to_multiset_contains(s, s[i]);
    let a = s.last();
    let b = s[i];
    assert(t.to_multiset().insert(a) == s.to_multiset().insert(a).remove(b));
    assert(s.remove(i).to_multiset() == s.to_multiset().remove(b));
    assert forall|x: CheeseEntry| t.to_multiset().count(x) == s.remove(i).to_multiset().count(x) by {
        assert(t.to_multiset().insert(a).count(x) == s.to_multiset().insert(a).remove(b).count(x));
        assert(s.to_multiset().count(b) > 0);
    }
    assert(t.to_multiset() =~= s.remove(i).to_multiset());
}


// ---------------------------------------------------------------------------
// The daily reset
// ---------------------------------------------------------------------------

/// The time of day, in seconds after midnight UTC, at which the daily reset falls.
pub open spec fn reset_phase() -> int {
    SM_RESET_EPOCH_UNIX as int % SECS_IN_DAY_UNIX as int
}

/// The time of the next daily reset after `last`: the first time after it
/// that falls at the reset time of a day (`/` is floor division here).
pub open spec fn spec_next_reset(last: int) -> int {
    reset_phase() + ((last - reset_phase()) / (SECS_IN_DAY_UNIX as int) + 1) * SECS_IN_DAY_UNIX as int
}

/// The time of the next daily reset after `last`; `None` where the
/// computation leaves the range of `i64`.
pub fn next_reset_unix(last: i64) -> (r: Option<i64>)
    ensures
        match r {
            Some(t) => t == spec_next_reset(last as int) && i64::MIN <= last - reset_phase(),
            None => !(i64::MIN <= last - reset_phase() && spec_next_reset(last as int) <= i64::MAX),
        },
{
    let phase: i128 = (SM_RESET_EPOCH_UNIX % SECS_IN_DAY_UNIX) as i128;
    let d: i128 = SECS_IN_DAY_UNIX as i128;
    let a: i128 = last as i128 - phase;
    if a < i64::MIN as i128 {
        return None;
    }
    let q: i128 = if a >= 0 {
        a / d
    } else {
        -((-a + d - 1) / d)
    };
    proof {
        assert(phase == reset_phase());
        if a >= 0 {
            assert(q == (a as int) / 86400);
        } else {
            assert(q == (a as int) / 86400) by (nonlinear_arith)
                requires
                    a < 0,
                    q == -((-a + 86400 - 1) / 86400),
            {
                let p = (-a + 86400 - 1) / 86400;
                assert(p * 86400 <= -a + 86399 < p * 86400 + 86400);
                assert(-p * 86400 <= a < -p * 86400 + 86400);
            }
        }
        assert(-(i64::MAX as int) - 1 <= q <= i64::MAX) by (nonlinear_arith)
            requires
                q == (a as int) / 86400,
                i64::MIN <= a <= i64::MAX + 86400;
    }
    let t: i128 = phase + (q + 1) * d;
    if t > i64::MAX as i128 {
        return None;
    }
    proof {
        assert(t == spec_next_reset(last as int));
        assert(t >= i64::MIN) by (nonlinear_arith)
            requires
                t == phase + (q + 1) * 86400,
                q == (a as int) / 86400,
                a >= i64::MIN,
                phase >= 0;
    }
    Some(t as i64)
}

/// The next reset comes after the last one.
pub proof fn lemma_next_reset_after(last: int)
    ensures
        spec_next_reset(last) > last,
{
    law_next_reset_is_next(last);
}

/// Law: the next reset is the first reset time strictly after the last one.
pub proof fn law_next_reset_is_next(last: int)
    ensures
        spec_next_reset(last) > last,
        (spec_next_reset(last) - reset_phase()) % (SECS_IN_DAY_UNIX as int) == 0,
        spec_next_reset(last) - SECS_IN_DAY_UNIX <= last,
{
    let d = SECS_IN_DAY_UNIX as int;
    let a = last - reset_phase();
    let q = a / d;
    assert(q * d <= a < q * d + d) by (nonlinear_arith)
        requires
            d == 86400,
            q == a / d;
    assert(((q + 1) * d) % d == 0) by (nonlinear_arith)
        requires
            d == 86400;
}

// ---------------------------------------------------------------------------
// The debug console
// ---------------------------------------------------------------------------

/// The text of the `i`-th field of a debug event.
pub open spec fn debug_entry(keys: Seq<Seq<u8>>, vals: Seq<Seq<u8>>, i: int, address: Seq<char>) -> Seq<char> {
    utf8_lossy(keys[i]) + ":"@ + utf8_lossy(vals[i]) + if i + 1 == keys.len() {
        "> "@ + address + "\n"@
    } else {
        ", "@
    }
}

pub open spec fn debug_entries(keys: Seq<Seq<u8>>, vals: Seq<Seq<u8>>, n: nat, address: Seq<char>) -> Seq<char>
    decreases n,
{
    if n == 0 {
        Seq::empty()
    } else {
        debug_entries(keys, vals, (n - 1) as nat, address) + debug_entry(keys, vals, n - 1, address)
    }
}

/// What the debug console prints for an event.
pub open spec fn debug_text(uid: Seq<u8>, keys: Seq<Seq<u8>>, vals: Seq<Seq<u8>>, address: Seq<char>) -> Seq<char> {
    "debug event: "@ + utf8_lossy(uid) + " <"@ + debug_entries(keys, vals, keys.len(), address)
}

/// The line the debug console prints for an event.
#[verifier::spinoff_prover]
pub fn debug_line(event_uid: &[u8], keys: &[&[u8]], vals: &[&[u8]], address: &str) -> (r: String)
    requires
        keys@.len() <= vals@.len(),
    ensures
        r@ == debug_text(event_uid@, byte_strs(keys@), byte_strs(vals@), address@),
        reads_as_decoded(event_uid@),
        fields_read_as_decoded(byte_strs(keys@), byte_strs(vals@)),
{
    let ghost ks = byte_strs(keys@);
    let ghost vs = byte_strs(vals@);
    let mut out = String::new();
    out.append("debug event: ");
    let u = lossy(event_uid);
    out.append(u.as_str());
    out.append(" <");
    assert(reads_as_decoded(event_uid@)) by {
        reveal(reads_as_decoded);
    }
    let ghost start = out@;
    let mut i: usize = 0;
    while i < keys.len()
        invariant
            i <= keys@.len() <= vals@.len(),
            ks == byte_strs(keys@),
            vs == byte_strs(vals@),
            out@ == start + debug_entries(ks, vs, i as nat, address@),
            reads_as_decoded(event_uid@),
            forall|j: int| 0 <= j < i ==> #[trigger] reads_as_decoded(ks[j]) && reads_as_decoded(vs[j]),
        decreases keys@.len() - i,
    {
        let k = lossy(keys[i]);
        out.append(k.as_str());
        out.append(":");
        let v = lossy(vals[i]);
        out.append(v.as_str());
        if i + 1 == keys.len() {
            out.append("> ");
            out.append(address);
            out.append("\n");
        } else {
            out.append(", ");
        }
        proof {
            assert(ks[i as int] == keys@[i as int]@);
            assert(vs[i as int] == vals@[i as int]@);
            assert(out@ =~= start + debug_entries(ks, vs, (i + 1) as nat, address@));
            assert(reads_as_decoded(ks[i as int]) && reads_as_decoded(vs[i as int])) by {
                reveal(reads_as_decoded);
            }
        }
        proof {
            lemma_read_as_decoded_step(ks, vs, i as int);
        }
        i = i + 1;
    }
    proof {
        lemma_fields_read_as_decoded(ks, vs, i as int);
    }
    out
}
} // verus!
