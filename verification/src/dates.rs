use vstd::prelude::*;
use vstd::arithmetic::div_mod::lemma_fundamental_div_mod;
use vstd::arithmetic::div_mod::lemma_fundamental_div_mod_converse_div;
use vstd::arithmetic::div_mod::lemma_mod_bound;

verus! {

/// A calendar date in the proleptic Gregorian calendar.
#[derive(Clone, Copy, Debug, PartialEq, Eq, Structural)]
pub struct CivilDate {
    pub year: i64,
    pub month: u32,
    pub day: u32,
}

/// Seconds values this module accepts: about one hundred thousand years
/// either side of the epoch, far beyond any clock reading.
pub const SECS_BOUND: i64 = 9_000_000_000_000;

/// Relies on chrono::Local::now for the wall clock: the instant as seconds
/// since the epoch, and the local offset from universal time in seconds.
/// chrono keeps the offset strictly within one day, and its datetimes within
/// years -262144..=262143, so the instant stays well under 8.3e12 seconds in
/// magnitude.
#[verifier::external_body]
pub fn read_wall_clock() -> (r: (i64, i32))
    ensures
        -86400 < r.1 < 86400,
        -8_400_000_000_000 < r.0 < 8_400_000_000_000,
{
    let now = chrono::Local::now();
    (now.timestamp(), now.offset().local_minus_utc())
}

/// The day a seconds-since-epoch instant falls on, rounding toward minus
/// infinity.
pub open spec fn spec_day_index(secs: int) -> int {
    secs / 86400
}

/// Floor division of a bounded instant by a positive divisor.
fn div_floor(a: i64, d: u64) -> (r: i64)
    requires
        0 < d <= 1_000_000,
        -SECS_BOUND <= a <= SECS_BOUND,
    ensures
        r == a as int / d as int,
        -SECS_BOUND <= r <= SECS_BOUND,
{
    if a >= 0 {
        let q = ((a as u64) / d) as i64;
        proof {
            lemma_fundamental_div_mod(a as int, d as int);
        }
        q
    } else {
        let n = (-a) as u64;
        let q0 = ((n + (d - 1)) / d) as i64;
        let r = -q0;
        proof {
            let ni = n as int;
            let dd = d as int;
            lemma_fundamental_div_mod(ni, dd);
            lemma_mod_bound(ni, dd);
            let q = ni / dd;
            let rm = ni % dd;
            if rm == 0 {
                assert(ni + dd - 1 == q * dd + (dd - 1));
                lemma_fundamental_div_mod_converse_div(ni + dd - 1, dd, q, dd - 1);
                assert(-ni == (-q) * dd + 0) by (nonlinear_arith)
                    requires ni == q * dd;
                lemma_fundamental_div_mod_converse_div(-ni, dd, -q, 0);
            } else {
                assert(ni + dd - 1 == (q + 1) * dd + (rm - 1)) by (nonlinear_arith)
                    requires ni == q * dd + rm;
                lemma_fundamental_div_mod_converse_div(ni + dd - 1, dd, q + 1, rm - 1);
                assert(-ni == (-q - 1) * dd + (dd - rm)) by (nonlinear_arith)
                    requires ni == q * dd + rm;
                lemma_fundamental_div_mod_converse_div(-ni, dd, -q - 1, dd - rm);
            }
        }
        r
    }
}

/// The day a bounded instant falls on.
pub fn div_floor_secs(secs: i64) -> (r: i64)
    requires
        -SECS_BOUND <= secs <= SECS_BOUND,
    ensures
        r == spec_day_index(secs as int),
        -120_000_000 <= r <= 120_000_000,
{
    let r = div_floor(secs, 86400);
    proof {
        vstd::arithmetic::div_mod::lemma_div_is_ordered(secs as int, SECS_BOUND as int, 86400);
        vstd::arithmetic::div_mod::lemma_div_is_ordered(-(SECS_BOUND as int), secs as int, 86400);
        lemma_fundamental_div_mod(SECS_BOUND as int, 86400);
        lemma_mod_bound(SECS_BOUND as int, 86400);
        lemma_fundamental_div_mod(-(SECS_BOUND as int), 86400);
        lemma_mod_bound(-(SECS_BOUND as int), 86400);
        assert((SECS_BOUND as int) / 86400 <= 120_000_000) by (nonlinear_arith)
            requires
                SECS_BOUND as int == 86400 * ((SECS_BOUND as int) / 86400) + (SECS_BOUND as int)
                    % 86400,
                0 <= (SECS_BOUND as int) % 86400 < 86400,
        ;
        assert(-(SECS_BOUND as int) / 86400 >= -120_000_000) by (nonlinear_arith)
            requires
                -(SECS_BOUND as int) == 86400 * ((-(SECS_BOUND as int)) / 86400) + (-(
                SECS_BOUND as int)) % 86400,
                0 <= (-(SECS_BOUND as int)) % 86400 < 86400,
        ;
    }
    r
}

/// The civil date a day index falls on, by era decomposition over the
/// 146097-day Gregorian cycle. The two guards reject a remainder that the
/// cycle arithmetic cannot place; no day index reaches them.
pub open spec fn spec_civil(day: int) -> Option<(int, int, int)> {
    let z = day + 719468;
    let era = z / 146097;
    let doe = z % 146097;
    let yoe = (doe - doe / 1460 + doe / 36524 - doe / 146096) / 365;
    let pd = 365 * yoe + yoe / 4 - yoe / 100;
    if doe < pd {
        None
    } else {
        let doy = doe - pd;
        let mp = (5 * doy + 2) / 153;
        let dsub = (153 * mp + 2) / 5;
        if doy < dsub {
            None
        } else {
            let d = doy - dsub + 1;
            let m = if mp < 10 {
                mp + 3
            } else {
                mp - 9
            };
            let y = yoe + era * 400 + if m <= 2 {
                1int
            } else {
                0int
            };
            Some((y, m, d))
        }
    }
}

/// Converts a day index to its civil date.
pub fn civil_from_day(day: i64) -> (r: Option<CivilDate>)
    requires
        -1_000_000_000 <= day <= 1_000_000_000,
    ensures
        match r {
            Some(c) => spec_civil(day as int) == Some((c.year as int, c.month as int, c.day as int)),
            None => spec_civil(day as int) is None,
        },
{
    let z: i64 = day + 719468;
    let era = div_floor(z, 146097);
    let doe_i: i64 = z - era * 146097;
    proof {
        lemma_fundamental_div_mod(z as int, 146097);
        lemma_mod_bound(z as int, 146097);
    }
    assert(0 <= doe_i < 146097);
    assert(doe_i == (z as int) % 146097);
    let doe: u64 = doe_i as u64;
    assert(doe / 1460 <= doe && doe / 36524 <= doe && doe / 146096 <= doe) by (nonlinear_arith);
    assert(doe / 146096 <= doe / 36524) by (nonlinear_arith);
    let yn: u64 = doe - doe / 1460 + doe / 36524 - doe / 146096;
    let yoe: u64 = yn / 365;
    assert(yn / 365 <= yn) by (nonlinear_arith);
    assert(yoe / 100 <= yoe / 4 + 365 * yoe) by (nonlinear_arith);
    let pd: u64 = 365 * yoe + yoe / 4 - yoe / 100;
    if doe < pd {
        return None;
    }
    let doy: u64 = doe - pd;
    let mp: u64 = (5 * doy + 2) / 153;
    assert((5 * doy + 2) / 153 <= 5 * doy + 2) by (nonlinear_arith);
    let dsub: u64 = (153 * mp + 2) / 5;
    if doy < dsub {
        return None;
    }
    let d: u64 = doy - dsub + 1;
    let m: u64 = if mp < 10 {
        mp + 3
    } else {
        mp - 9
    };
    let y: i64 = (yoe as i64) + era * 400 + if m <= 2 {
        1
    } else {
        0
    };
    Some(CivilDate { year: y, month: m as u32, day: d as u32 })
}

} // verus!
