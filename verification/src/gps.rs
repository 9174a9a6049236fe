//! GPS extraction: raw integer coordinate tuples and their scale records
//! turned into exact rational point records. Two device generations use
//! different stream shapes: one logs a cluster of five-value tuples with
//! shared fix, precision and datetime records and is averaged to one point
//! per chunk; the other logs nine-value tuples with per-point date, fix and
//! precision and keeps every point.
//!
//! Coordinates are kept as exact ratios of integers rather than floats:
//! a component is its raw integer sum divided by the count and scale the
//! record declares. Callers divide at the edge, in whatever precision they
//! need.

use vstd::prelude::*;

use crate::fourcc::FourCC;
use crate::stream::{Matched, Stream, StreamType};
use crate::timestamp::Timestamp;
use crate::value::{spec_string_of, Value};

verus! {

/// An exact ratio of two integers. The denominator is kept as declared:
/// a zero denominator stands for the undefined result a zero scale record
/// produces, and is for the caller to handle at the edge.
#[derive(Debug, Clone, Copy, PartialEq, Eq, Structural)]
pub struct Ratio {
    pub num: i128,
    pub den: i128,
}

/// The first element of an integer value, used when a value stands for
/// one number.
pub open spec fn head_int(v: &Value) -> Option<i128> {
    match spec_ints(v) {
        Some(x) => if x.len() > 0 {
            Some(x[0])
        } else {
            None
        },
        None => None,
    }
}

/// The first numbers of the integer components of a complex value, in
/// order, non-numeric components skipped.
pub open spec fn complex_first_ints(comps: Seq<Value>) -> Seq<i128>
    decreases comps.len(),
{
    if comps.len() == 0 {
        Seq::empty()
    } else {
        let rest = complex_first_ints(comps.drop_last());
        match simple_head_int(&comps.last()) {
            Some(n) => rest.push(n),
            None => rest,
        }
    }
}

/// The first element of a simple integer value.
pub open spec fn simple_head_int(v: &Value) -> Option<i128> {
    match v {
        Value::Sint8(x) => if x@.len() > 0 {
            Some(x@[0] as i128)
        } else {
            None
        },
        Value::Uint8(x) => if x@.len() > 0 {
            Some(x@[0] as i128)
        } else {
            None
        },
        Value::Sint16(x) => if x@.len() > 0 {
            Some(x@[0] as i128)
        } else {
            None
        },
        Value::Uint16(x) => if x@.len() > 0 {
            Some(x@[0] as i128)
        } else {
            None
        },
        Value::Sint32(x) => if x@.len() > 0 {
            Some(x@[0] as i128)
        } else {
            None
        },
        Value::Uint32(x) => if x@.len() > 0 {
            Some(x@[0] as i128)
        } else {
            None
        },
        Value::Sint64(x) => if x@.len() > 0 {
            Some(x@[0] as i128)
        } else {
            None
        },
        Value::Uint64(x) => if x@.len() > 0 {
            Some(x@[0] as i128)
        } else {
            None
        },
        _ => None,
    }
}

/// All numbers of an integer-valued value: the elements of an integer
/// vector, or the leading numbers of the components of a complex value.
/// Floats, fixed-point numbers and strings carry no exact integers and
/// yield nothing.
pub open spec fn spec_ints(v: &Value) -> Option<Seq<i128>> {
    match v {
        Value::Sint8(x) => Some(x@.map_values(|e: i8| e as i128)),
        Value::Uint8(x) => Some(x@.map_values(|e: u8| e as i128)),
        Value::Sint16(x) => Some(x@.map_values(|e: i16| e as i128)),
        Value::Uint16(x) => Some(x@.map_values(|e: u16| e as i128)),
        Value::Sint32(x) => Some(x@.map_values(|e: i32| e as i128)),
        Value::Uint32(x) => Some(x@.map_values(|e: u32| e as i128)),
        Value::Sint64(x) => Some(x@.map_values(|e: i64| e as i128)),
        Value::Uint64(x) => Some(x@.map_values(|e: u64| e as i128)),
        Value::Complex(comps) => Some(complex_first_ints(comps@)),
        _ => None,
    }
}

/// Every number an integer value yields lies within one 64-bit word.
pub proof fn lemma_ints_bounded(v: &Value)
    ensures
        match spec_ints(v) {
            Some(x) => forall|i: int|
                0 <= i < x.len() ==> -0x8000_0000_0000_0000 <= #[trigger] x[i]
                    <= 0xffff_ffff_ffff_ffff,
            None => true,
        },
{
    match v {
        Value::Complex(comps) => {
            lemma_complex_firsts_bounded(comps@);
        },
        _ => {},
    }
}

pub proof fn lemma_complex_firsts_bounded(comps: Seq<Value>)
    ensures
        forall|i: int|
            0 <= i < complex_first_ints(comps).len() ==> -0x8000_0000_0000_0000
                <= #[trigger] complex_first_ints(comps)[i] <= 0xffff_ffff_ffff_ffff,
    decreases comps.len(),
{
    if comps.len() > 0 {
        lemma_complex_firsts_bounded(comps.drop_last());
        let rest = complex_first_ints(comps.drop_last());
        match simple_head_int(&comps.last()) {
            Some(n) => {
                assert(complex_first_ints(comps) == rest.push(n));
                assert(-0x8000_0000_0000_0000 <= n <= 0xffff_ffff_ffff_ffff);
                assert forall|i: int|
                    0 <= i < complex_first_ints(comps).len() implies -0x8000_0000_0000_0000
                    <= #[trigger] complex_first_ints(comps)[i] <= 0xffff_ffff_ffff_ffff by {
                    if i < rest.len() {
                        assert(complex_first_ints(comps)[i] == rest[i]);
                    } else {
                        assert(complex_first_ints(comps)[i] == n);
                    }
                }
            },
            None => {},
        }
    }
}

/// The numbers of an integer-valued value.
pub fn to_ints(v: &Value) -> (r: Option<Vec<i128>>)
    ensures
        match r {
            Some(x) => spec_ints(v) == Some(x@),
            None => spec_ints(v) is None,
        },
{
    match v {
        Value::Sint8(x) => {
            let mut out: Vec<i128> = Vec::new();
            let m = x.len();
            let mut i: usize = 0;
            while i < m
                invariant
                    m == x@.len(),
                    i <= m,
                    out@.len() == i,
                    forall|j: int| 0 <= j < i ==> out@[j] == x@.map_values(|e: i8| e as i128)[j],
                decreases m - i,
            {
                out.push(x[i] as i128);
                i = i + 1;
            }
            proof {
                assert(out@ =~= x@.map_values(|e: i8| e as i128));
            }
            Some(out)
        },
        Value::Uint8(x) => {
            let mut out: Vec<i128> = Vec::new();
            let m = x.len();
            let mut i: usize = 0;
            while i < m
                invariant
                    m == x@.len(),
                    i <= m,
                    out@.len() == i,
                    forall|j: int| 0 <= j < i ==> out@[j] == x@.map_values(|e: u8| e as i128)[j],
                decreases m - i,
            {
                out.push(x[i] as i128);
                i = i + 1;
            }
            proof {
                assert(out@ =~= x@.map_values(|e: u8| e as i128));
            }
            Some(out)
        },
        Value::Sint16(x) => {
            let mut out: Vec<i128> = Vec::new();
            let m = x.len();
            let mut i: usize = 0;
            while i < m
                invariant
                    m == x@.len(),
                    i <= m,
                    out@.len() == i,
                    forall|j: int| 0 <= j < i ==> out@[j] == x@.map_values(|e: i16| e as i128)[j],
                decreases m - i,
            {
                out.push(x[i] as i128);
                i = i + 1;
            }
            proof {
                assert(out@ =~= x@.map_values(|e: i16| e as i128));
            }
            Some(out)
        },
        Value::Uint16(x) => {
            let mut out: Vec<i128> = Vec::new();
            let m = x.len();
            let mut i: usize = 0;
            while i < m
                invariant
                    m == x@.len(),
                    i <= m,
                    out@.len() == i,
                    forall|j: int| 0 <= j < i ==> out@[j] == x@.map_values(|e: u16| e as i128)[j],
                decreases m - i,
            {
                out.push(x[i] as i128);
                i = i + 1;
            }
            proof {
                assert(out@ =~= x@.map_values(|e: u16| e as i128));
            }
            Some(out)
        },
        Value::Sint32(x) => {
            let mut out: Vec<i128> = Vec::new();
            let m = x.len();
            let mut i: usize = 0;
            while i < m
                invariant
                    m == x@.len(),
                    i <= m,
                    out@.len() == i,
                    forall|j: int| 0 <= j < i ==> out@[j] == x@.map_values(|e: i32| e as i128)[j],
                decreases m - i,
            {
                out.push(x[i] as i128);
                i = i + 1;
            }
            proof {
                assert(out@ =~= x@.map_values(|e: i32| e as i128));
            }
            Some(out)
        },
        Value::Uint32(x) => {
            let mut out: Vec<i128> = Vec::new();
            let m = x.len();
            let mut i: usize = 0;
            while i < m
                invariant
                    m == x@.len(),
                    i <= m,
                    out@.len() == i,
                    forall|j: int| 0 <= j < i ==> out@[j] == x@.map_values(|e: u32| e as i128)[j],
                decreases m - i,
            {
                out.push(x[i] as i128);
                i = i + 1;
            }
            proof {
                assert(out@ =~= x@.map_values(|e: u32| e as i128));
            }
            Some(out)
        },
        Value::Sint64(x) => {
            let mut out: Vec<i128> = Vec::new();
            let m = x.len();
            let mut i: usize = 0;
            while i < m
                invariant
                    m == x@.len(),
                    i <= m,
                    out@.len() == i,
                    forall|j: int| 0 <= j < i ==> out@[j] == x@.map_values(|e: i64| e as i128)[j],
                decreases m - i,
            {
                out.push(x[i] as i128);
                i = i + 1;
            }
            proof {
                assert(out@ =~= x@.map_values(|e: i64| e as i128));
            }
            Some(out)
        },
        Value::Uint64(x) => {
            let mut out: Vec<i128> = Vec::new();
            let m = x.len();
            let mut i: usize = 0;
            while i < m
                invariant
                    m == x@.len(),
                    i <= m,
                    out@.len() == i,
                    forall|j: int| 0 <= j < i ==> out@[j] == x@.map_values(|e: u64| e as i128)[j],
                decreases m - i,
            {
                out.push(x[i] as i128);
                i = i + 1;
            }
            proof {
                assert(out@ =~= x@.map_values(|e: u64| e as i128));
            }
            Some(out)
        },
        Value::Complex(comps) => {
            let mut out: Vec<i128> = Vec::new();
            let m = comps.len();
            let mut i: usize = 0;
            while i < m
                invariant
                    m == comps@.len(),
                    i <= m,
                    out@ == complex_first_ints(comps@.take(i as int)),
                decreases m - i,
            {
                proof {
                    assert(comps@.take(i as int + 1).drop_last() =~= comps@.take(i as int));
                    assert(comps@.take(i as int + 1).last() == comps@[i as int]);
                }
                match head_of_simple(&comps[i]) {
                    Some(n) => out.push(n),
                    None => {},
                }
                i = i + 1;
            }
            proof {
                assert(comps@.take(m as int) =~= comps@);
            }
            Some(out)
        },
        _ => None,
    }
}

/// The first number of a simple integer value.
fn head_of_simple(v: &Value) -> (r: Option<i128>)
    ensures
        r == simple_head_int(v),
{
    match v {
        Value::Sint8(x) => if x.len() > 0 {
            Some(x[0] as i128)
        } else {
            None
        },
        Value::Uint8(x) => if x.len() > 0 {
            Some(x[0] as i128)
        } else {
            None
        },
        Value::Sint16(x) => if x.len() > 0 {
            Some(x[0] as i128)
        } else {
            None
        },
        Value::Uint16(x) => if x.len() > 0 {
            Some(x[0] as i128)
        } else {
            None
        },
        Value::Sint32(x) => if x.len() > 0 {
            Some(x[0] as i128)
        } else {
            None
        },
        Value::Uint32(x) => if x.len() > 0 {
            Some(x[0] as i128)
        } else {
            None
        },
        Value::Sint64(x) => if x.len() > 0 {
            Some(x[0] as i128)
        } else {
            None
        },
        Value::Uint64(x) => if x.len() > 0 {
            Some(x[0] as i128)
        } else {
            None
        },
        _ => None,
    }
}

/// An instant, counted in milliseconds from the start of the year 2000,
/// the earliest time this telemetry can carry.
#[derive(Debug, Clone, Copy, PartialEq, Eq, Structural)]
pub struct DateTime {
    /// Milliseconds since the start of the year 2000.
    pub ms: i64,
}

/// Days from the civil epoch to the given calendar date (valid for the
/// years this telemetry covers).
pub open spec fn spec_days_from_civil(y: int, m: int, d: int) -> int {
    let yy = if m <= 2 {
        y - 1
    } else {
        y
    };
    let era = yy / 400;
    let yoe = yy - era * 400;
    let mp = if m > 2 {
        m - 3
    } else {
        m + 9
    };
    let doy = (153 * mp + 2) / 5 + d - 1;
    let doe = yoe * 365 + yoe / 4 - yoe / 100 + doy;
    era * 146097 + doe - 719468
}

/// Days from the start of 2000 to the given date.
pub open spec fn spec_days_since_2000(y: int, m: int, d: int) -> int {
    spec_days_from_civil(y, m, d) - 10957
}

/// Whether the year has an extra day in its second month.
pub open spec fn is_leap(y: int) -> bool {
    y % 4 == 0 && (y % 100 != 0 || y % 400 == 0)
}

/// Days the given month of the given year holds.
pub open spec fn days_in_month(y: int, m: int) -> int {
    if m == 2 {
        if is_leap(y) {
            29
        } else {
            28
        }
    } else if m == 4 || m == 6 || m == 9 || m == 11 {
        30
    } else {
        31
    }
}

/// Whether the character is a decimal digit.
pub open spec fn is_digit(c: char) -> bool {
    '0' <= c && c <= '9'
}

/// The numeric value of a decimal digit.
pub open spec fn dv(c: char) -> int {
    c as int - 48
}

/// The instant a textual datetime of the form `yymmddhhmmss.sss` names, in
/// milliseconds since 2000, or nothing for a string that is not of that
/// shape. The two-digit year counts from 2000.
pub open spec fn spec_parse_gpsu(s: Seq<char>) -> Option<int> {
    if s.len() == 16 && s[12] == '.' && is_digit(s[0]) && is_digit(s[1]) && is_digit(s[2])
        && is_digit(s[3]) && is_digit(s[4]) && is_digit(s[5]) && is_digit(s[6]) && is_digit(s[7])
        && is_digit(s[8]) && is_digit(s[9]) && is_digit(s[10]) && is_digit(s[11]) && is_digit(
        s[13],
    ) && is_digit(s[14]) && is_digit(s[15]) {
        let yy = dv(s[0]) * 10 + dv(s[1]);
        let mo = dv(s[2]) * 10 + dv(s[3]);
        let dd = dv(s[4]) * 10 + dv(s[5]);
        let hh = dv(s[6]) * 10 + dv(s[7]);
        let mi = dv(s[8]) * 10 + dv(s[9]);
        let ss = dv(s[10]) * 10 + dv(s[11]);
        let ms = dv(s[13]) * 100 + dv(s[14]) * 10 + dv(s[15]);
        if 1 <= mo <= 12 && 1 <= dd <= days_in_month(2000 + yy, mo) && hh <= 23 && mi <= 59
            && ss <= 59 {
            Some(
                spec_days_since_2000(2000 + yy, mo, dd) * 86400000 + hh * 3600000 + mi * 60000 + ss
                    * 1000 + ms,
            )
        } else {
            None
        }
    } else {
        None
    }
}

fn digit(c: char) -> (r: Option<u32>)
    ensures
        match r {
            Some(n) => is_digit(c) && n == dv(c),
            None => !is_digit(c),
        },
{
    if c >= '0' && c <= '9' {
        Some(c as u32 - 48)
    } else {
        None
    }
}

/// Parse a textual datetime of the form `yymmddhhmmss.sss`, the shape the
/// per-cluster UTC record uses, into an instant.
pub fn parse_gpsu(s: &str) -> (r: Option<DateTime>)
    ensures
        match r {
            Some(dt) => spec_parse_gpsu(s@) == Some(dt.ms as int),
            None => spec_parse_gpsu(s@) is None,
        },
{
    if s.unicode_len() != 16 {
        return None;
    }
    if s.get_char(12) != '.' {
        return None;
    }
    let mut ds: Vec<u32> = Vec::new();
    let mut i: usize = 0;
    while i < 16
        invariant
            s@.len() == 16,
            i <= 16,
            ds@.len() == i,
            forall|j: int| 0 <= j < i && j != 12 ==> is_digit(#[trigger] s@[j]),
            forall|j: int| 0 <= j < i && j != 12 ==> #[trigger] ds@[j] == dv(s@[j]),
        decreases 16 - i,
    {
        if i == 12 {
            ds.push(0);
        } else {
            match digit(s.get_char(i)) {
                Some(n) => {
                    ds.push(n);
                    proof {
                        assert(is_digit(s@[i as int]));
                        assert(ds@[i as int] == dv(s@[i as int]));
                    }
                },
                None => {
                    return None;
                },
            }
        }
        i = i + 1;
    }
    let yy = ds[0] * 10 + ds[1];
    let mo = ds[2] * 10 + ds[3];
    let dd = ds[4] * 10 + ds[5];
    let hh = ds[6] * 10 + ds[7];
    let mi = ds[8] * 10 + ds[9];
    let ss = ds[10] * 10 + ds[11];
    let ms = ds[13] * 100 + ds[14] * 10 + ds[15];
    let year = 2000 + yy;
    let leap = year % 4 == 0 && (year % 100 != 0 || year % 400 == 0);
    let dim: u32 = if mo == 2 {
        if leap {
            29
        } else {
            28
        }
    } else if mo == 4 || mo == 6 || mo == 9 || mo == 11 {
        30
    } else {
        31
    };
    if !(1 <= mo && mo <= 12 && 1 <= dd && dd <= dim && hh <= 23 && mi <= 59 && ss <= 59) {
        return None;
    }
    let days = days_since_2000(year as u16, mo as u8, dd as u8);
    let total: i64 = days * 86400000 + (hh as i64) * 3600000 + (mi as i64) * 60000 + (ss as i64)
        * 1000 + ms as i64;
    Some(DateTime { ms: total })
}

/// Days from the start of 2000 to the given date.
pub fn days_since_2000(y: u16, m: u8, d: u8) -> (r: i64)
    requires
        2000 <= y <= 2099,
        1 <= m <= 12,
        1 <= d <= 31,
    ensures
        r == spec_days_since_2000(y as int, m as int, d as int),
{
    let yy: i64 = if m <= 2 {
        y as i64 - 1
    } else {
        y as i64
    };
    let era: i64 = yy / 400;
    let yoe: i64 = yy - era * 400;
    let mp: i64 = if m > 2 {
        m as i64 - 3
    } else {
        m as i64 + 9
    };
    let doy: i64 = (153 * mp + 2) / 5 + d as i64 - 1;
    let doe: i64 = yoe * 365 + yoe / 4 - yoe / 100 + doy;
    era * 146097 + doe - 719468 - 10957
}

/// A ratio collapsed to the nearest integer (ties rounded up), or zero
/// where the denominator is zero.
pub open spec fn spec_ratio_round(n: int, d: int) -> int {
    if d == 0 {
        0
    } else {
        let nn = if d < 0 {
            -n
        } else {
            n
        };
        let dd = if d < 0 {
            -d
        } else {
            d
        };
        if nn >= 0 {
            (2 * nn + dd) / (2 * dd)
        } else {
            -((2 * (-nn) + dd - 1) / (2 * dd))
        }
    }
}

/// The value clamped into the signed 64-bit range.
pub open spec fn sat64(x: int) -> int {
    if x > i64::MAX {
        i64::MAX as int
    } else if x < i64::MIN {
        i64::MIN as int
    } else {
        x
    }
}

/// The ratio rounded to the nearest integer, clamped into 64 bits.
pub fn ratio_round(n: i128, d: i128) -> (r: i64)
    requires
        -0x2000_0000_0000_0000_0000_0000_0000_0000 < n,
        n < 0x2000_0000_0000_0000_0000_0000_0000_0000,
        -0x2000_0000_0000_0000_0000_0000_0000_0000 < d,
        d < 0x2000_0000_0000_0000_0000_0000_0000_0000,
    ensures
        r == sat64(spec_ratio_round(n as int, d as int)),
{
    if d == 0 {
        return 0;
    }
    let (nn, dd): (i128, i128) = if d < 0 {
        (-n, -d)
    } else {
        (n, d)
    };
    let q: i128 = if nn >= 0 {
        (2 * nn + dd) / (2 * dd)
    } else {
        -((2 * (-nn) + dd - 1) / (2 * dd))
    };
    if q > i64::MAX as i128 {
        i64::MAX
    } else if q < i64::MIN as i128 {
        i64::MIN
    } else {
        q as i64
    }
}

/// All values of a terminal record as integer rows, or nothing if any
/// value is not integer-valued.
pub open spec fn rows_of(vals: Seq<Value>) -> Option<Seq<Seq<i128>>>
    decreases vals.len(),
{
    if vals.len() == 0 {
        Some(Seq::empty())
    } else {
        match rows_of(vals.drop_last()) {
            Some(rs) => match spec_ints(&vals.last()) {
                Some(r) => Some(rs.push(r)),
                None => None,
            },
            None => None,
        }
    }
}

/// The leading number of each value, or nothing if any value has none:
/// the layout scale records use, one number per component.
pub open spec fn firsts_of(vals: Seq<Value>) -> Option<Seq<i128>>
    decreases vals.len(),
{
    if vals.len() == 0 {
        Some(Seq::empty())
    } else {
        match firsts_of(vals.drop_last()) {
            Some(hs) => match head_int(&vals.last()) {
                Some(h) => Some(hs.push(h)),
                None => None,
            },
            None => None,
        }
    }
}

/// The sum of one column across the rows; a row without that column
/// contributes nothing.
pub open spec fn col_sum(rows: Seq<Seq<i128>>, c: int) -> int
    decreases rows.len(),
{
    if rows.len() == 0 {
        0
    } else {
        col_sum(rows.drop_last(), c) + if 0 <= c < rows.last().len() {
            rows.last()[c]
        } else {
            0
        }
    }
}

/// Every row has at least `w` columns.
pub open spec fn rows_wide(rows: Seq<Seq<i128>>, w: int) -> bool {
    forall|i: int| 0 <= i < rows.len() ==> (#[trigger] rows[i]).len() >= w
}

/// Every number lies within one 64-bit word.
pub open spec fn ints_bounded(xs: Seq<i128>) -> bool {
    forall|i: int|
        0 <= i < xs.len() ==> -0x8000_0000_0000_0000 <= #[trigger] xs[i] <= 0xffff_ffff_ffff_ffff
}

/// Every number of every row lies within one 64-bit word.
pub open spec fn rows_bounded(rows: Seq<Seq<i128>>) -> bool {
    forall|i: int| 0 <= i < rows.len() ==> ints_bounded(#[trigger] rows[i])
}

pub proof fn lemma_rows_of_bounded(vals: Seq<Value>)
    ensures
        match rows_of(vals) {
            Some(rows) => rows_bounded(rows),
            None => true,
        },
    decreases vals.len(),
{
    if vals.len() > 0 {
        lemma_rows_of_bounded(vals.drop_last());
        lemma_ints_bounded(&vals.last());
        match rows_of(vals) {
            Some(rows) => {
                match (rows_of(vals.drop_last()), spec_ints(&vals.last())) {
                    (Some(rs), Some(r)) => {
                        assert forall|i: int| 0 <= i < rows.len() implies ints_bounded(
                            #[trigger] rows[i],
                        ) by {
                            if i < rs.len() {
                                assert(rows[i] == rs[i]);
                            } else {
                                assert(rows[i] == r);
                            }
                        }
                    },
                    _ => {},
                }
            },
            None => {},
        }
    }
}

pub proof fn lemma_firsts_bounded(vals: Seq<Value>)
    ensures
        match firsts_of(vals) {
            Some(hs) => ints_bounded(hs),
            None => true,
        },
    decreases vals.len(),
{
    if vals.len() > 0 {
        lemma_firsts_bounded(vals.drop_last());
        lemma_ints_bounded(&vals.last());
        match firsts_of(vals) {
            Some(hs) => {
                match (firsts_of(vals.drop_last()), head_int(&vals.last())) {
                    (Some(h0), Some(h)) => {
                        assert forall|i: int| 0 <= i < hs.len() implies -0x8000_0000_0000_0000
                            <= #[trigger] hs[i] <= 0xffff_ffff_ffff_ffff by {
                            if i < h0.len() {
                                assert(hs[i] == h0[i]);
                            } else {
                                assert(hs[i] == h);
                            }
                        }
                    },
                    _ => {},
                }
            },
            None => {},
        }
    }
}

/// All values of a terminal record as integer rows.
pub fn rows_of_values(vals: &Vec<Value>) -> (r: Option<Vec<Vec<i128>>>)
    ensures
        match r {
            Some(rows) => rows_of(vals@) == Some(rows@.map_values(|v: Vec<i128>| v@)),
            None => rows_of(vals@) is None,
        },
{
    let mut out: Vec<Vec<i128>> = Vec::new();
    let m = vals.len();
    let mut i: usize = 0;
    while i < m
        invariant
            m == vals@.len(),
            i <= m,
            rows_of(vals@.take(i as int)) == Some(out@.map_values(|v: Vec<i128>| v@)),
        decreases m - i,
    {
        proof {
            assert(vals@.take(i as int + 1).drop_last() =~= vals@.take(i as int));
            assert(vals@.take(i as int + 1).last() == vals@[i as int]);
        }
        match to_ints(&vals[i]) {
            Some(row) => {
                let ghost pre = out@;
                out.push(row);
                proof {
                    assert(out@.map_values(|v: Vec<i128>| v@) =~= pre.map_values(
                        |v: Vec<i128>| v@,
                    ).push(out@.last()@));
                }
            },
            None => {
                proof {
                    lemma_rows_of_prefix_none(vals@, i as int);
                }
                return None;
            },
        }
        i = i + 1;
    }
    proof {
        assert(vals@.take(m as int) =~= vals@);
    }
    Some(out)
}

/// A value without integers anywhere in the list makes the whole list
/// yield nothing.
pub proof fn lemma_rows_of_prefix_none(vals: Seq<Value>, i: int)
    requires
        0 <= i < vals.len(),
        spec_ints(&vals[i]) is None,
    ensures
        rows_of(vals) is None,
    decreases vals.len(),
{
    if vals.len() > 0 {
        if i == vals.len() - 1 {
            assert(vals.last() == vals[i]);
        } else {
            assert(vals.drop_last()[i] == vals[i]);
            lemma_rows_of_prefix_none(vals.drop_last(), i);
        }
    }
}

pub proof fn lemma_firsts_of_prefix_none(vals: Seq<Value>, i: int)
    requires
        0 <= i < vals.len(),
        head_int(&vals[i]) is None,
    ensures
        firsts_of(vals) is None,
    decreases vals.len(),
{
    if vals.len() > 0 {
        if i == vals.len() - 1 {
            assert(vals.last() == vals[i]);
        } else {
            assert(vals.drop_last()[i] == vals[i]);
            lemma_firsts_of_prefix_none(vals.drop_last(), i);
        }
    }
}

/// The leading number of each value.
pub fn firsts_of_values(vals: &Vec<Value>) -> (r: Option<Vec<i128>>)
    ensures
        match r {
            Some(hs) => firsts_of(vals@) == Some(hs@),
            None => firsts_of(vals@) is None,
        },
{
    let mut out: Vec<i128> = Vec::new();
    let m = vals.len();
    let mut i: usize = 0;
    while i < m
        invariant
            m == vals@.len(),
            i <= m,
            firsts_of(vals@.take(i as int)) == Some(out@),
        decreases m - i,
    {
        proof {
            assert(vals@.take(i as int + 1).drop_last() =~= vals@.take(i as int));
            assert(vals@.take(i as int + 1).last() == vals@[i as int]);
        }
        match to_ints(&vals[i]) {
            Some(row) => {
                if row.len() == 0 {
                    proof {
                        lemma_firsts_of_prefix_none(vals@, i as int);
                    }
                    return None;
                }
                out.push(row[0]);
            },
            None => {
                proof {
                    lemma_firsts_of_prefix_none(vals@, i as int);
                }
                return None;
            },
        }
        i = i + 1;
    }
    proof {
        assert(vals@.take(m as int) =~= vals@);
    }
    Some(out)
}

/// The sum of one column across bounded rows.
pub fn sum_col(rows: &Vec<Vec<i128>>, c: usize) -> (r: i128)
    requires
        rows@.len() <= 0xffff,
        rows_bounded(rows@.map_values(|v: Vec<i128>| v@)),
    ensures
        r == col_sum(rows@.map_values(|v: Vec<i128>| v@), c as int),
{
    let ghost rr = rows@.map_values(|v: Vec<i128>| v@);
    let mut sum: i128 = 0;
    let m = rows.len();
    let mut i: usize = 0;
    while i < m
        invariant
            m == rr.len() == rows@.len(),
            m <= 0xffff,
            rr == rows@.map_values(|v: Vec<i128>| v@),
            rows_bounded(rr),
            i <= m,
            sum == col_sum(rr.take(i as int), c as int),
            -(i as int) * 0x1_0000_0000_0000_0000 <= sum <= (i as int) * 0x1_0000_0000_0000_0000,
        decreases m - i,
    {
        proof {
            assert(rr.take(i as int + 1).drop_last() =~= rr.take(i as int));
            assert(rr.take(i as int + 1).last() == rr[i as int]);
            assert(rr[i as int] == rows@[i as int]@);
            assert(ints_bounded(rr[i as int]));
            assert((i as int + 1) * 0x1_0000_0000_0000_0000 == (i as int)
                * 0x1_0000_0000_0000_0000 + 0x1_0000_0000_0000_0000) by (nonlinear_arith);
            assert((i as int) * 0x1_0000_0000_0000_0000 <= 0xffff * 0x1_0000_0000_0000_0000)
                by (nonlinear_arith)
                requires
                    0 <= i as int <= 0xffff,
            ;
        }
        let row = &rows[i];
        if c < row.len() {
            sum = sum + row[c];
        }
        i = i + 1;
    }
    proof {
        assert(rr.take(m as int) =~= rr);
    }
    sum
}

/// One GPS point: coordinates and speeds as exact ratios of the raw
/// integers over their scale divisors, the point's instant, signal quality,
/// and the relative time within the recording.
#[derive(Debug, Clone, Copy, PartialEq, Eq, Structural)]
pub struct GoProPoint {
    /// Latitude: raw value over scale, in degrees.
    pub latitude: Ratio,
    /// Longitude: raw value over scale, in degrees.
    pub longitude: Ratio,
    /// Altitude: raw value over scale, in metres.
    pub altitude: Ratio,
    /// Ground speed: raw value over scale, in metres per second.
    pub speed2d: Ratio,
    /// Spatial speed: raw value over scale, in metres per second.
    pub speed3d: Ratio,
    /// The point's instant; for the older layout the whole cluster's.
    pub datetime: DateTime,
    /// Dilution of precision, descaled; lower is better.
    pub dop: Ratio,
    /// Satellite lock: zero for none, two or three for a 2D or 3D fix.
    pub fix: u32,
    /// Milliseconds from the start of the recording.
    pub time_ms: i64,
}

/// The scale for one component: the scale record's entry, or one where the
/// record is shorter.
pub open spec fn scale_at(scales: Seq<i128>, k: int) -> int {
    if 0 <= k < scales.len() {
        scales[k] as int
    } else {
        1
    }
}

/// The value clamped into the unsigned 32-bit range.
pub open spec fn clamp_u32(x: int) -> int {
    if x < 0 {
        0
    } else if x > 0xffff_ffff {
        0xffff_ffff
    } else {
        x
    }
}

/// One point from one raw tuple and the scale record: each coordinate
/// component is its raw value over its scale; the instant is the day and
/// second offsets from the start of 2000, rounded to milliseconds; signal
/// quality fields are descaled likewise. Components the tuple does not
/// carry keep their zero values.
pub open spec fn spec_from_raw(row: Seq<i128>, scales: Seq<i128>) -> GoProPoint {
    GoProPoint {
        latitude: if row.len() > 0 {
            Ratio { num: row[0], den: scale_at(scales, 0) as i128 }
        } else {
            Ratio { num: 0, den: 1 }
        },
        longitude: if row.len() > 1 {
            Ratio { num: row[1], den: scale_at(scales, 1) as i128 }
        } else {
            Ratio { num: 0, den: 1 }
        },
        altitude: if row.len() > 2 {
            Ratio { num: row[2], den: scale_at(scales, 2) as i128 }
        } else {
            Ratio { num: 0, den: 1 }
        },
        speed2d: if row.len() > 3 {
            Ratio { num: row[3], den: scale_at(scales, 3) as i128 }
        } else {
            Ratio { num: 0, den: 1 }
        },
        speed3d: if row.len() > 4 {
            Ratio { num: row[4], den: scale_at(scales, 4) as i128 }
        } else {
            Ratio { num: 0, den: 1 }
        },
        datetime: DateTime {
            ms: sat64(
                sat64(
                    if row.len() > 5 {
                        spec_ratio_round(row[5] * 86400000, scale_at(scales, 5) as int)
                    } else {
                        0
                    },
                ) + sat64(
                    if row.len() > 6 {
                        spec_ratio_round(row[6] * 1000, scale_at(scales, 6) as int)
                    } else {
                        0
                    },
                ),
            ) as i64,
        },
        dop: if row.len() > 7 {
            Ratio { num: row[7], den: scale_at(scales, 7) as i128 }
        } else {
            Ratio { num: 0, den: 1 }
        },
        fix: if row.len() > 8 {
            clamp_u32(spec_ratio_round(row[8] as int, scale_at(scales, 8))) as u32
        } else {
            0
        },
        time_ms: 0,
    }
}

/// The scale for one component.
fn scale_of(scales: &Vec<i128>, k: usize) -> (r: i128)
    ensures
        r as int == scale_at(scales@, k as int),
{
    if k < scales.len() {
        scales[k]
    } else {
        1
    }
}

/// One point from one raw tuple and the scale record.
pub fn from_raw(row: &Vec<i128>, scales: &Vec<i128>) -> (r: GoProPoint)
    requires
        ints_bounded(row@),
        ints_bounded(scales@),
    ensures
        r == spec_from_raw(row@, scales@),
{
    let lat = if row.len() > 0 {
        Ratio { num: row[0], den: scale_of(scales, 0) }
    } else {
        Ratio { num: 0, den: 1 }
    };
    let lon = if row.len() > 1 {
        Ratio { num: row[1], den: scale_of(scales, 1) }
    } else {
        Ratio { num: 0, den: 1 }
    };
    let alt = if row.len() > 2 {
        Ratio { num: row[2], den: scale_of(scales, 2) }
    } else {
        Ratio { num: 0, den: 1 }
    };
    let sp2 = if row.len() > 3 {
        Ratio { num: row[3], den: scale_of(scales, 3) }
    } else {
        Ratio { num: 0, den: 1 }
    };
    let sp3 = if row.len() > 4 {
        Ratio { num: row[4], den: scale_of(scales, 4) }
    } else {
        Ratio { num: 0, den: 1 }
    };
    let day_ms: i64 = if row.len() > 5 {
        ratio_round(row[5] * 86400000, scale_of(scales, 5))
    } else {
        0
    };
    let sec_ms: i64 = if row.len() > 6 {
        ratio_round(row[6] * 1000, scale_of(scales, 6))
    } else {
        0
    };
    let total: i128 = day_ms as i128 + sec_ms as i128;
    let dtms: i64 = if total > i64::MAX as i128 {
        i64::MAX
    } else if total < i64::MIN as i128 {
        i64::MIN
    } else {
        total as i64
    };
    let dop = if row.len() > 7 {
        Ratio { num: row[7], den: scale_of(scales, 7) }
    } else {
        Ratio { num: 0, den: 1 }
    };
    let fix: u32 = if row.len() > 8 {
        let f = ratio_round(row[8], scale_of(scales, 8));
        if f < 0 {
            0
        } else if f > 0xffff_ffff {
            0xffff_ffff
        } else {
            f as u32
        }
    } else {
        0
    };
    GoProPoint {
        latitude: lat,
        longitude: lon,
        altitude: alt,
        speed2d: sp2,
        speed3d: sp3,
        datetime: DateTime { ms: dtms },
        dop,
        fix,
        time_ms: 0,
    }
}

/// The cluster datetime record's instant, for the older layout: the value
/// must be a textual datetime of the expected shape.
pub open spec fn spec_gpsu_of(s: Stream) -> Option<int> {
    match s.spec_find(&FourCC::GPSU) {
        Some(u) => match u.spec_first_value() {
            Some(v) => match v {
                Value::Datetime(txt) => spec_parse_gpsu(txt@),
                _ => None,
            },
            None => None,
        },
        None => None,
    }
}

/// The cluster fix record's value, for the older layout.
pub open spec fn spec_gpsf_of(s: Stream) -> Option<u32> {
    match s.spec_find(&FourCC::GPSF) {
        Some(u) => match u.spec_first_value() {
            Some(v) => match v {
                Value::Uint32(ns) => if ns@.len() > 0 {
                    Some(ns@[0])
                } else {
                    None
                },
                _ => None,
            },
            None => None,
        },
        None => None,
    }
}

/// The cluster precision record's value, for the older layout.
pub open spec fn spec_gpsp_of(s: Stream) -> Option<u16> {
    match s.spec_find(&FourCC::GPSP) {
        Some(u) => match u.spec_first_value() {
            Some(v) => match v {
                Value::Uint16(ns) => if ns@.len() > 0 {
                    Some(ns@[0])
                } else {
                    None
                },
                _ => None,
            },
            None => None,
        },
        None => None,
    }
}

/// The scale record of a named stream, one leading number per component.
pub open spec fn spec_scales_of(s: Stream) -> Option<Seq<i128>> {
    match s.spec_find(&FourCC::SCAL) {
        Some(sc) => match sc.streams {
            StreamType::Values(svals) => firsts_of(svals@),
            StreamType::Nested(_) => None,
        },
        None => None,
    }
}

/// The integer rows of the coordinate record with the given tag.
pub open spec fn spec_rows_of_tag(s: Stream, tag: FourCC) -> Option<Seq<Seq<i128>>> {
    match s.spec_find(&tag) {
        Some(g) => match g.streams {
            StreamType::Values(vals) => rows_of(vals@),
            StreamType::Nested(_) => None,
        },
        None => None,
    }
}

/// The older layout's one averaged point per named stream: the linear
/// average of the cluster's five-component tuples, each component summed
/// and divided by the tuple count and its scale; fix, precision and the
/// cluster instant come from their own records; the relative time is the
/// parent chunk's. Nothing comes out of a stream whose records are absent,
/// non-integer, narrower than five columns, empty, or wider than a record
/// can declare.
pub open spec fn spec_from_gps5(s: Stream, time: Option<Timestamp>) -> Option<GoProPoint> {
    match spec_rows_of_tag(s, FourCC::GPS5) {
        Some(rows) => if rows.len() == 0 || rows.len() > 0xffff || !rows_wide(rows, 5) {
            None
        } else {
            match spec_scales_of(s) {
                Some(scales) => match spec_gpsu_of(s) {
                    Some(dtms) => match spec_gpsf_of(s) {
                        Some(fix) => match spec_gpsp_of(s) {
                            Some(dop) => Some(
                                GoProPoint {
                                    latitude: Ratio {
                                        num: col_sum(rows, 0) as i128,
                                        den: (rows.len() * scale_at(scales, 0)) as i128,
                                    },
                                    longitude: Ratio {
                                        num: col_sum(rows, 1) as i128,
                                        den: (rows.len() * scale_at(scales, 1)) as i128,
                                    },
                                    altitude: Ratio {
                                        num: col_sum(rows, 2) as i128,
                                        den: (rows.len() * scale_at(scales, 2)) as i128,
                                    },
                                    speed2d: Ratio {
                                        num: col_sum(rows, 3) as i128,
                                        den: (rows.len() * scale_at(scales, 3)) as i128,
                                    },
                                    speed3d: Ratio {
                                        num: col_sum(rows, 4) as i128,
                                        den: (rows.len() * scale_at(scales, 4)) as i128,
                                    },
                                    datetime: DateTime { ms: sat64(dtms) as i64 },
                                    dop: Ratio { num: dop as i128, den: 100 },
                                    fix,
                                    time_ms: match time {
                                        Some(t) => t.relative,
                                        None => 0,
                                    },
                                },
                            ),
                            None => None,
                        },
                        None => None,
                    },
                    None => None,
                },
                None => None,
            }
        },
        None => None,
    }
}

/// One averaged point from a named stream of the older layout.
pub fn from_gps5(m: &Matched<'_>) -> (r: Option<GoProPoint>)
    ensures
        r == spec_from_gps5(*m.stream, m.time),
{
    let s = m.stream;
    let g = match s.find(&FourCC::GPS5) {
        Some(g) => g,
        None => {
            return None;
        },
    };
    let vals = match g.values() {
        Some(v) => v,
        None => {
            return None;
        },
    };
    let rows = match rows_of_values(vals) {
        Some(r) => r,
        None => {
            return None;
        },
    };
    let ghost rr = rows@.map_values(|v: Vec<i128>| v@);
    proof {
        assert(m.stream.spec_find(&FourCC::GPS5) == Some(*g));
        assert(rows_of(vals@) == Some(rr));
        assert(spec_rows_of_tag(*m.stream, FourCC::GPS5) == Some(rr));
    }
    proof {
        assert(rr.len() == rows@.len());
    }
    if rows.len() == 0 || rows.len() > 0xffff {
        return None;
    }
    let mut k: usize = 0;
    let m2 = rows.len();
    while k < m2
        invariant
            m2 == rows@.len(),
            k <= m2,
            rr == rows@.map_values(|v: Vec<i128>| v@),
            spec_rows_of_tag(*m.stream, FourCC::GPS5) == Some(rr),
            0 < rr.len() <= 0xffff,
            forall|j: int| 0 <= j < k ==> (#[trigger] rr[j]).len() >= 5,
        decreases m2 - k,
    {
        if rows[k].len() < 5 {
            proof {
                assert(rr[k as int].len() < 5);
                assert(!rows_wide(rr, 5));
            }
            return None;
        }
        k = k + 1;
    }
    let sc = match s.find(&FourCC::SCAL) {
        Some(x) => x,
        None => {
            return None;
        },
    };
    let svals = match sc.values() {
        Some(v) => v,
        None => {
            return None;
        },
    };
    let scales = match firsts_of_values(svals) {
        Some(x) => x,
        None => {
            return None;
        },
    };
    let dt = match s.find(&FourCC::GPSU) {
        Some(u) => match u.first_value() {
            Some(Value::Datetime(txt)) => match parse_gpsu(txt.as_str()) {
                Some(d) => d,
                None => {
                    return None;
                },
            },
            _ => {
                return None;
            },
        },
        None => {
            return None;
        },
    };
    let fix = match s.find(&FourCC::GPSF) {
        Some(u) => match u.first_value() {
            Some(Value::Uint32(ns)) => if ns.len() > 0 {
                ns[0]
            } else {
                return None;
            },
            _ => {
                return None;
            },
        },
        None => {
            return None;
        },
    };
    let dop16 = match s.find(&FourCC::GPSP) {
        Some(u) => match u.first_value() {
            Some(Value::Uint16(ns)) => if ns.len() > 0 {
                ns[0]
            } else {
                return None;
            },
            _ => {
                return None;
            },
        },
        None => {
            return None;
        },
    };
    proof {
        lemma_rows_of_bounded(vals@);
        lemma_firsts_bounded(svals@);
    }
    let n = rows.len();
    let mut comps: Vec<Ratio> = Vec::new();
    let mut c: usize = 0;
    while c < 5
        invariant
            n == rr.len() == rows@.len(),
            0 < n <= 0xffff,
            rr == rows@.map_values(|v: Vec<i128>| v@),
            rows_bounded(rr),
            ints_bounded(scales@),
            c <= 5,
            comps@.len() == c,
            forall|j: int|
                0 <= j < c ==> #[trigger] comps@[j] == (Ratio {
                    num: col_sum(rr, j) as i128,
                    den: (rr.len() * scale_at(scales@, j)) as i128,
                }),
        decreases 5 - c,
    {
        let sum = sum_col(&rows, c);
        let scl = scale_of(&scales, c);
        proof {
            assert(n as int * scale_at(scales@, c as int) <= 0xffff * 0xffff_ffff_ffff_ffff)
                by (nonlinear_arith)
                requires
                    0 < n as int <= 0xffff,
                    scale_at(scales@, c as int) <= 0xffff_ffff_ffff_ffff,
            ;
            assert(n as int * scale_at(scales@, c as int) >= 0xffff * -0x8000_0000_0000_0000)
                by (nonlinear_arith)
                requires
                    0 < n as int <= 0xffff,
                    scale_at(scales@, c as int) >= -0x8000_0000_0000_0000,
            ;
        }
        let den: i128 = n as i128 * scl;
        comps.push(Ratio { num: sum, den });
        c = c + 1;
    }
    let time_ms: i64 = match &m.time {
        Some(t) => t.relative,
        None => 0,
    };
    Some(
        GoProPoint {
            latitude: comps[0],
            longitude: comps[1],
            altitude: comps[2],
            speed2d: comps[3],
            speed3d: comps[4],
            datetime: DateTime { ms: dt.ms },
            dop: Ratio { num: dop16 as i128, den: 100 },
            fix,
            time_ms,
        },
    )
}

/// Every row spans exactly `w` columns.
pub open spec fn rows_exact(rows: Seq<Seq<i128>>, w: int) -> bool {
    forall|i: int| 0 <= i < rows.len() ==> (#[trigger] rows[i]).len() == w
}

/// The newer layout's points, before their relative times are set: one per
/// raw tuple, each descaled against the shared scale record.
pub open spec fn spec_gps9_base(rows: Seq<Seq<i128>>, scales: Seq<i128>) -> Seq<GoProPoint> {
    Seq::new(rows.len(), |i: int| spec_from_raw(rows[i], scales))
}

/// The newer layout's per-point records from one named stream: every tuple
/// becomes a point; with a chunk timestamp, each point's relative time is
/// the chunk's plus the point's offset from the first point's instant.
/// Nothing comes out where records are missing, tuples are not integers,
/// or tuple and scale widths disagree; with a timestamp but no points
/// nothing comes out either, since no zero reference exists.
pub open spec fn spec_from_gps9(s: Stream, time: Option<Timestamp>) -> Option<Seq<GoProPoint>> {
    match spec_rows_of_tag(s, FourCC::GPS9) {
        Some(rows) => match spec_scales_of(s) {
            Some(scales) => if !rows_exact(rows, scales.len() as int) {
                None
            } else {
                let base = spec_gps9_base(rows, scales);
                match time {
                    Some(ts) => if base.len() == 0 {
                        None
                    } else {
                        Some(
                            Seq::new(
                                base.len(),
                                |i: int|
                                    GoProPoint {
                                        time_ms: sat64(
                                            ts.relative + base[i].datetime.ms
                                                - base[0].datetime.ms,
                                        ) as i64,
                                        ..base[i]
                                    },
                            ),
                        )
                    },
                    None => Some(base),
                }
            },
            None => None,
        },
        None => None,
    }
}

/// The points of one named stream of the newer layout.
pub fn from_gps9(m: &Matched<'_>) -> (r: Option<Vec<GoProPoint>>)
    ensures
        match r {
            Some(pts) => spec_from_gps9(*m.stream, m.time) == Some(pts@),
            None => spec_from_gps9(*m.stream, m.time) is None,
        },
{
    let s = m.stream;
    let g = match s.find(&FourCC::GPS9) {
        Some(g) => g,
        None => {
            return None;
        },
    };
    let vals = match g.values() {
        Some(v) => v,
        None => {
            return None;
        },
    };
    let rows = match rows_of_values(vals) {
        Some(x) => x,
        None => {
            return None;
        },
    };
    let ghost rr = rows@.map_values(|v: Vec<i128>| v@);
    let sc = match s.find(&FourCC::SCAL) {
        Some(x) => x,
        None => {
            return None;
        },
    };
    let svals = match sc.values() {
        Some(v) => v,
        None => {
            return None;
        },
    };
    let scales = match firsts_of_values(svals) {
        Some(x) => x,
        None => {
            return None;
        },
    };
    proof {
        lemma_rows_of_bounded(vals@);
        lemma_firsts_bounded(svals@);
    }
    let w = scales.len();
    let m2 = rows.len();
    let mut k: usize = 0;
    while k < m2
        invariant
            m2 == rows@.len() == rr.len(),
            rr == rows@.map_values(|v: Vec<i128>| v@),
            spec_rows_of_tag(*m.stream, FourCC::GPS9) == Some(rr),
            spec_scales_of(*m.stream) == Some(scales@),
            w == scales@.len(),
            k <= m2,
            forall|j: int| 0 <= j < k ==> (#[trigger] rr[j]).len() == w,
        decreases m2 - k,
    {
        if rows[k].len() != w {
            proof {
                assert(rr[k as int].len() != w);
                assert(!rows_exact(rr, scales@.len() as int));
            }
            return None;
        }
        k = k + 1;
    }
    let mut base: Vec<GoProPoint> = Vec::new();
    let mut i: usize = 0;
    while i < m2
        invariant
            m2 == rows@.len() == rr.len(),
            rr == rows@.map_values(|v: Vec<i128>| v@),
            rows_bounded(rr),
            ints_bounded(scales@),
            i <= m2,
            base@.len() == i,
            forall|j: int| 0 <= j < i ==> #[trigger] base@[j] == spec_from_raw(rr[j], scales@),
        decreases m2 - i,
    {
        proof {
            assert(ints_bounded(rr[i as int]));
            assert(rr[i as int] == rows@[i as int]@);
        }
        let p = from_raw(&rows[i], &scales);
        base.push(p);
        i = i + 1;
    }
    proof {
        assert(base@ =~= spec_gps9_base(rr, scales@));
    }
    match &m.time {
        Some(ts) => {
            if base.len() == 0 {
                return None;
            }
            let dt0 = base[0].datetime.ms;
            let rel = ts.relative;
            let ghost gbase = base@;
            let ghost gts = *ts;
            let mut out: Vec<GoProPoint> = Vec::new();
            let mut j: usize = 0;
            while j < m2
                invariant
                    m2 == gbase.len(),
                    base@ == gbase,
                    j <= m2,
                    out@.len() == j,
                    0 < gbase.len(),
                    dt0 == gbase[0].datetime.ms,
                    rel == gts.relative,
                    forall|p: int|
                        0 <= p < j ==> #[trigger] out@[p] == (GoProPoint {
                            time_ms: sat64(
                                gts.relative + gbase[p].datetime.ms - gbase[0].datetime.ms,
                            ) as i64,
                            ..gbase[p]
                        }),
                decreases m2 - j,
            {
                let b = base[j];
                let shifted: i128 = rel as i128 + b.datetime.ms as i128 - dt0 as i128;
                let tm: i64 = if shifted > i64::MAX as i128 {
                    i64::MAX
                } else if shifted < i64::MIN as i128 {
                    i64::MIN
                } else {
                    shifted as i64
                };
                out.push(
                    GoProPoint {
                        latitude: b.latitude,
                        longitude: b.longitude,
                        altitude: b.altitude,
                        speed2d: b.speed2d,
                        speed3d: b.speed3d,
                        datetime: b.datetime,
                        dop: b.dop,
                        fix: b.fix,
                        time_ms: tm,
                    },
                );
                j = j + 1;
            }
            proof {
                assert(out@ =~= Seq::new(
                    gbase.len(),
                    |i: int|
                        GoProPoint {
                            time_ms: sat64(
                                gts.relative + gbase[i].datetime.ms - gbase[0].datetime.ms,
                            ) as i64,
                            ..gbase[i]
                        },
                ));
            }
            Some(out)
        },
        None => Some(base),
    }
}

/// An ordered GPS track: the points extracted from every matched named
/// stream, in order.
#[derive(Debug)]
pub struct Gps(pub Vec<GoProPoint>);

/// The points whose satellite lock reaches the floor, in order.
pub open spec fn kept_points(pts: Seq<GoProPoint>, min_fix: u32) -> Seq<GoProPoint>
    decreases pts.len(),
{
    if pts.len() == 0 {
        Seq::empty()
    } else {
        let rest = kept_points(pts.drop_last(), min_fix);
        if pts.last().fix >= min_fix {
            rest.push(pts.last())
        } else {
            rest
        }
    }
}

/// The first point with at least the given satellite lock.
pub open spec fn first_fixed(pts: Seq<GoProPoint>, min_fix: u32) -> Option<GoProPoint>
    decreases pts.len(),
{
    if pts.len() == 0 {
        None
    } else if pts[0].fix >= min_fix {
        Some(pts[0])
    } else {
        first_fixed(pts.skip(1), min_fix)
    }
}

impl Gps {
    /// Number of points.
    pub fn len(&self) -> (r: usize)
        ensures
            r == self.0@.len(),
    {
        self.0.len()
    }

    /// The first point.
    pub fn first(&self) -> (r: Option<&GoProPoint>)
        ensures
            if self.0@.len() > 0 {
                r matches Some(p) && *p == self.0@[0]
            } else {
                r is None
            },
    {
        if self.0.len() > 0 {
            Some(&self.0[0])
        } else {
            None
        }
    }

    /// The last point.
    pub fn last(&self) -> (r: Option<&GoProPoint>)
        ensures
            if self.0@.len() > 0 {
                r matches Some(p) && *p == self.0@.last()
            } else {
                r is None
            },
    {
        if self.0.len() > 0 {
            Some(&self.0[self.0.len() - 1])
        } else {
            None
        }
    }

    /// The track's start: the instant of the first point with at least the
    /// given satellite lock (a 2D lock if none is given), less that point's
    /// relative time within the recording.
    pub fn t0(&self, min_gps_fix: Option<u32>) -> (r: Option<DateTime>)
        ensures
            ({
                let min = match min_gps_fix {
                    Some(m) => m,
                    None => 2,
                };
                match first_fixed(self.0@, min) {
                    Some(p) => r matches Some(dt) && dt.ms as int == sat64(
                        p.datetime.ms - p.time_ms,
                    ),
                    None => r is None,
                }
            }),
    {
        let min: u32 = match min_gps_fix {
            Some(m) => m,
            None => 2,
        };
        let m2 = self.0.len();
        let mut i: usize = 0;
        proof {
            assert(self.0@.skip(0) =~= self.0@);
        }
        while i < m2
            invariant
                m2 == self.0@.len(),
                i <= m2,
                min == match min_gps_fix {
                    Some(m) => m,
                    None => 2u32,
                },
                first_fixed(self.0@, min) == first_fixed(self.0@.skip(i as int), min),
            decreases m2 - i,
        {
            proof {
                assert(self.0@.skip(i as int)[0] == self.0@[i as int]);
                assert(self.0@.skip(i as int).skip(1) =~= self.0@.skip(i as int + 1));
            }
            let p = self.0[i];
            if p.fix >= min {
                let diff: i128 = p.datetime.ms as i128 - p.time_ms as i128;
                let ms: i64 = if diff > i64::MAX as i128 {
                    i64::MAX
                } else if diff < i64::MIN as i128 {
                    i64::MIN
                } else {
                    diff as i64
                };
                proof {
                    assert(first_fixed(self.0@.skip(i as int), min) == Some(p));
                    assert(ms as int == sat64(p.datetime.ms - p.time_ms));
                }
                return Some(DateTime { ms });
            }
            i = i + 1;
        }
        proof {
            assert(self.0@.skip(m2 as int).len() == 0);
        }
        None
    }

    /// The track without the points whose satellite lock is below the
    /// floor: without a lock a device logs zeros or a stale position, so
    /// both place and time of such points are wrong.
    pub fn prune(self, min_gps_fix: u32) -> (r: Gps)
        ensures
            r.0@ == kept_points(self.0@, min_gps_fix),
    {
        let mut out: Vec<GoProPoint> = Vec::new();
        let pts = self.0;
        let m2 = pts.len();
        let mut i: usize = 0;
        while i < m2
            invariant
                m2 == pts@.len(),
                i <= m2,
                out@ == kept_points(pts@.take(i as int), min_gps_fix),
            decreases m2 - i,
        {
            proof {
                assert(pts@.take(i as int + 1).drop_last() =~= pts@.take(i as int));
                assert(pts@.take(i as int + 1).last() == pts@[i as int]);
            }
            let p = pts[i];
            if p.fix >= min_gps_fix {
                out.push(p);
            }
            i = i + 1;
        }
        proof {
            assert(pts@.take(m2 as int) =~= pts@);
        }
        Gps(out)
    }

    /// Prune in place; the count of removed points comes back.
    pub fn prune_mut(&mut self, min_gps_fix: u32) -> (r: usize)
        ensures
            final(self).0@ == kept_points(old(self).0@, min_gps_fix),
            r == old(self).0@.len() - final(self).0@.len(),
    {
        let len1 = self.0.len();
        let mut out: Vec<GoProPoint> = Vec::new();
        let m2 = self.0.len();
        let mut i: usize = 0;
        while i < m2
            invariant
                m2 == self.0@.len(),
                self.0@ == old(self).0@,
                i <= m2,
                out@.len() <= i,
                out@ == kept_points(self.0@.take(i as int), min_gps_fix),
            decreases m2 - i,
        {
            proof {
                assert(self.0@.take(i as int + 1).drop_last() =~= self.0@.take(i as int));
                assert(self.0@.take(i as int + 1).last() == self.0@[i as int]);
            }
            let p = self.0[i];
            if p.fix >= min_gps_fix {
                out.push(p);
            }
            i = i + 1;
        }
        proof {
            assert(self.0@.take(m2 as int) =~= self.0@);
        }
        self.0 = out;
        len1 - self.0.len()
    }
}

/// A 32-bit fixed-point Q number as an exact ratio: the raw word over
/// two to the fifteenth, the divisor this encoding is decoded by.
pub fn q32_to_ratio(raw: u32) -> (r: Ratio)
    ensures
        r == (Ratio { num: raw as i128, den: 0x8000 }),
{
    Ratio { num: raw as i128, den: 0x8000 }
}

/// A 64-bit fixed-point Q number as an exact ratio: the raw word over two
/// to the thirty-first.
pub fn q64_to_ratio(raw: u64) -> (r: Ratio)
    ensures
        r == (Ratio { num: raw as i128, den: 0x8000_0000 }),
{
    Ratio { num: raw as i128, den: 0x8000_0000 }
}

} // verus!
