use vstd::prelude::*;
use chrono::{Datelike, Timelike};
use crate::blocks::opt_str_view;
use crate::error::IndexerError;

verus! {

/// A UTC calendar instant at second resolution.
#[derive(Debug, Clone, Copy, PartialEq, Eq)]
pub struct UtcStamp {
    pub year: u32,
    pub month: u32,
    pub day: u32,
    pub hour: u32,
    pub minute: u32,
    pub second: u32,
}

impl UtcStamp {
    /// Fields within their calendar ranges.
    pub open spec fn wf(&self) -> bool {
        &&& 1 <= self.month <= 12
        &&& 1 <= self.day <= 31
        &&& self.hour < 24
        &&& self.minute < 60
        &&& self.second < 60
    }
}

#[verifier::external_type_specification]
#[verifier::external_body]
pub struct ExSystemTime(std::time::SystemTime);

/// Relies on std's `SystemTime::now`: a reading of the system clock.
#[verifier::external_body]
fn system_now() -> std::time::SystemTime {
    std::time::SystemTime::now()
}

/// Relies on std's `SystemTime::duration_since`: the time from the Unix
/// epoch to `t`, or `None` when `t` lies before the epoch.
#[verifier::external_body]
fn since_epoch(t: &std::time::SystemTime) -> Option<std::time::Duration> {
    t.duration_since(std::time::UNIX_EPOCH).ok()
}

/// Relies on std's `Duration::as_secs`: the whole seconds of `d`.
#[verifier::external_body]
fn whole_seconds(d: &std::time::Duration) -> u64 {
    d.as_secs()
}

/// The calendar instant that chrono gives for a count of seconds since the
/// Unix epoch.
pub uninterp spec fn calendar_of(secs: u64) -> UtcStamp;

/// Relies on chrono's `DateTime::from_timestamp` and its `Datelike` /
/// `Timelike` accessors: the UTC calendar fields of `secs` seconds after the
/// Unix epoch, or `None` beyond chrono's last date (year 262142). With no
/// fraction of a second the seconds field stays below 60, and a count at or
/// after the epoch gives a year from 1970; the time of day is the count's
/// remainder within its day.
#[verifier::external_body]
fn utc_calendar(secs: u64) -> (r: Option<UtcStamp>)
    requires
        secs <= i64::MAX,
    ensures
        r matches Some(t) ==> t == calendar_of(secs) && t.wf() && 1970 <= t.year <= 262142
            && t.hour == secs % 86400 / 3600 && t.minute == secs % 3600 / 60 && t.second == secs % 60,
{
    match chrono::DateTime::from_timestamp(secs as i64, 0) {
        Some(d) => Some(UtcStamp {
            year: d.year() as u32,
            month: d.month(),
            day: d.day(),
            hour: d.hour(),
            minute: d.minute(),
            second: d.second(),
        }),
        None => None,
    }
}

/// The current UTC time, or `None` when the system clock reads a time before
/// the Unix epoch or beyond the last representable date.
pub fn utc_now() -> (r: Option<UtcStamp>)
    ensures
        r matches Some(t) ==> t.wf(),
{
    let now = system_now();
    match since_epoch(&now) {
        Some(d) => {
            let secs = whole_seconds(&d);
            if secs <= i64::MAX as u64 {
                utc_calendar(secs)
            } else {
                None
            }
        },
        None => None,
    }
}

pub open spec fn digit_char(d: nat) -> char {
    if d == 0 { '0' } else if d == 1 { '1' } else if d == 2 { '2' } else if d == 3 { '3' }
    else if d == 4 { '4' } else if d == 5 { '5' } else if d == 6 { '6' } else if d == 7 { '7' }
    else if d == 8 { '8' } else { '9' }
}

/// Decimal digits of `v`, left-padded with zeros to at least `w` digits.
pub open spec fn decimal(v: nat, w: nat) -> Seq<char>
    decreases v + w,
{
    if v == 0 && w == 0 {
        Seq::empty()
    } else {
        decimal(v / 10, if w > 0 { (w - 1) as nat } else { 0 }).push(digit_char(v % 10))
    }
}

/// The year as `%Y` writes it: four digits at least, with a leading `+`
/// after year 9999.
pub open spec fn year_text(y: nat) -> Seq<char> {
    if y > 9999 { "+"@ + decimal(y, 4) } else { decimal(y, 4) }
}

/// `blocks_%Y%m%d_%H%M%S`.
pub open spec fn file_base(t: UtcStamp) -> Seq<char> {
    "blocks_"@ + year_text(t.year as nat) + decimal(t.month as nat, 2) + decimal(t.day as nat, 2)
        + "_"@ + decimal(t.hour as nat, 2) + decimal(t.minute as nat, 2)
        + decimal(t.second as nat, 2)
}

/// The end of the name of the `k`-th file named within one second: `.parquet`
/// for the first, `_k.parquet` after it.
pub open spec fn file_suffix(k: nat) -> Seq<char> {
    if k == 0 {
        ".parquet"@
    } else {
        "_"@ + decimal(k, 1) + ".parquet"@
    }
}

/// `name` placed in directory `dir`: a separator is added unless `dir` is
/// empty or already ends in one.
pub open spec fn join_path(dir: Seq<char>, name: Seq<char>) -> Seq<char> {
    if dir.len() == 0 || dir.last() == '/' {
        dir + name
    } else {
        dir + "/"@ + name
    }
}

/// `path` names an output file in `dir`, stamped with some valid instant and
/// numbered within its second.
pub open spec fn is_output_path(dir: Seq<char>, path: Seq<char>) -> bool {
    exists|t: UtcStamp, k: nat|
        t.wf() && #[trigger] join_path(dir, file_base(t) + file_suffix(k)) == path
}

fn digit_str(d: u32) -> (r: &'static str)
    requires
        d < 10,
    ensures
        r@ == seq![digit_char(d as nat)],
{
    proof {
        reveal_strlit("0");
        reveal_strlit("1");
        reveal_strlit("2");
        reveal_strlit("3");
        reveal_strlit("4");
        reveal_strlit("5");
        reveal_strlit("6");
        reveal_strlit("7");
        reveal_strlit("8");
        reveal_strlit("9");
    }
    match d {
        0 => "0",
        1 => "1",
        2 => "2",
        3 => "3",
        4 => "4",
        5 => "5",
        6 => "6",
        7 => "7",
        8 => "8",
        _ => "9",
    }
}

fn append_decimal(s: &mut String, v: u64, w: u64)
    ensures
        final(s)@ == old(s)@ + decimal(v as nat, w as nat),
    decreases v + w,
{
    if v == 0 && w == 0 {
        proof {
            assert(old(s)@ + decimal(0, 0) =~= old(s)@);
        }
        return;
    }
    let w1: u64 = if w > 0 { w - 1 } else { 0 };
    append_decimal(s, v / 10, w1);
    s.append(digit_str((v % 10) as u32));
    proof {
        let ws: nat = if w > 0 { (w - 1) as nat } else { 0 };
        assert(ws == w1 as nat);
        assert(decimal(v as nat, w as nat) == decimal((v / 10) as nat, ws).push(digit_char((v % 10) as nat)));
        assert(final(s)@ =~= old(s)@ + decimal(v as nat, w as nat));
    }
}

/// The stamp part of an output file name for instant `t`.
pub fn make_file_base(t: UtcStamp) -> (r: String)
    ensures
        r@ == file_base(t),
{
    let mut s = String::from_str("blocks_");
    if t.year > 9999 {
        s.append("+");
    }
    append_decimal(&mut s, t.year as u64, 4);
    append_decimal(&mut s, t.month as u64, 2);
    append_decimal(&mut s, t.day as u64, 2);
    s.append("_");
    append_decimal(&mut s, t.hour as u64, 2);
    append_decimal(&mut s, t.minute as u64, 2);
    append_decimal(&mut s, t.second as u64, 2);
    proof {
        assert(s@ =~= file_base(t));
    }
    s
}

/// The full output file name: `base` followed by the suffix of number `k`.
pub fn make_file_name(base: &str, k: u64) -> (r: String)
    ensures
        r@ == base@ + file_suffix(k as nat),
{
    let mut s = String::from_str(base);
    if k > 0 {
        s.append("_");
        append_decimal(&mut s, k, 1);
    }
    s.append(".parquet");
    proof {
        assert(s@ =~= base@ + file_suffix(k as nat));
    }
    s
}

/// `name` placed in directory `dir`.
pub fn make_path(dir: &str, name: &str) -> (r: String)
    ensures
        r@ == join_path(dir@, name@),
{
    let n = dir.unicode_len();
    let mut s = String::from_str(dir);
    if n > 0 && dir.get_char(n - 1) != '/' {
        s.append("/");
    }
    s.append(name);
    s
}

/// Different numbers have different decimal digits.
pub proof fn lemma_decimal_injective(a: nat, b: nat)
    requires
        decimal(a, 0) == decimal(b, 0),
    ensures
        a == b,
    decreases a + b,
{
    if a == 0 && b == 0 {
    } else if a == 0 {
        assert(decimal(b, 0).len() > 0);
    } else if b == 0 {
        assert(decimal(a, 0).len() > 0);
    } else {
        let da = decimal(a / 10, 0);
        let db = decimal(b / 10, 0);
        assert(decimal(a, 0) == da.push(digit_char(a % 10)));
        assert(decimal(b, 0) == db.push(digit_char(b % 10)));
        assert(da == decimal(a, 0).drop_last());
        assert(db == decimal(b, 0).drop_last());
        assert(digit_char(a % 10) == decimal(a, 0).last());
        assert(a % 10 == b % 10);
        lemma_decimal_injective(a / 10, b / 10);
    }
}

/// Different numbers give different file name suffixes.
pub proof fn lemma_suffix_injective(j: nat, k: nat)
    requires
        file_suffix(j) == file_suffix(k),
    ensures
        j == k,
{
    reveal_strlit("_");
    reveal_strlit(".parquet");
    if j > 0 {
        assert(decimal(j, 1) == decimal(j, 0));
    }
    if k > 0 {
        assert(decimal(k, 1) == decimal(k, 0));
    }
    if j > 0 && k > 0 {
        let sj = file_suffix(j);
        assert(decimal(j, 0) =~= sj.subrange(1, sj.len() - 8));
        assert(decimal(k, 0) =~= sj.subrange(1, sj.len() - 8));
        lemma_decimal_injective(j, k);
    } else if j > 0 {
        assert(decimal(j, 0).len() > 0);
        assert(file_suffix(j).len() > file_suffix(k).len());
    } else if k > 0 {
        assert(decimal(k, 0).len() > 0);
        assert(file_suffix(k).len() > file_suffix(j).len());
    }
}

/// Within one directory and one stamp, paths with different numbers differ.
pub proof fn lemma_path_injective(dir: Seq<char>, base: Seq<char>, j: nat, k: nat)
    requires
        join_path(dir, base + file_suffix(j)) == join_path(dir, base + file_suffix(k)),
    ensures
        j == k,
{
    let pj = join_path(dir, base + file_suffix(j));
    let n = pj.len() - (base + file_suffix(j)).len();
    assert((base + file_suffix(j)) =~= pj.subrange(n, pj.len() as int));
    assert((base + file_suffix(k)) =~= pj.subrange(n, pj.len() as int));
    assert(file_suffix(j) =~= (base + file_suffix(j)).subrange(base.len() as int, (base + file_suffix(j)).len() as int));
    assert(file_suffix(k) =~= (base + file_suffix(k)).subrange(base.len() as int, (base + file_suffix(k)).len() as int));
    lemma_suffix_injective(j, k);
}

/// The number of the next file named under stamp text `base`, after files
/// up to number `seq` were named under `last_base`: one more within the same
/// second, none left after the largest, else the first.
pub open spec fn next_number(base: Seq<char>, last_base: Seq<char>, seq: u64) -> Option<nat> {
    if base == last_base {
        if seq < u64::MAX { Some((seq + 1) as nat) } else { None }
    } else {
        Some(0)
    }
}

/// The number chosen for the next file: `next_number`, moved to a number
/// with a longer suffix when that path is the one to avoid.
pub open spec fn chosen_number(
    dir: Seq<char>,
    base: Seq<char>,
    last_base: Seq<char>,
    seq: u64,
    avoid: Option<Seq<char>>,
) -> Option<nat> {
    match next_number(base, last_base, seq) {
        None => None,
        Some(k) => if avoid == Some(join_path(dir, base + file_suffix(k))) {
            if k == 0 {
                Some(1)
            } else if k * 10 <= u64::MAX {
                Some((k * 10) as nat)
            } else {
                None
            }
        } else {
            Some(k)
        },
    }
}

/// The path, stamp text and number of the next output file in `dir` for
/// instant `t`, after files up to number `seq` were named under `last_base`,
/// never the path `avoid`; an error when no number is left in the second.
pub fn choose_path(dir: &str, t: UtcStamp, last_base: &String, seq: u64, avoid: &Option<String>) -> (r: Result<
    (String, String, u64),
    IndexerError,
>)
    ensures
        match chosen_number(dir@, file_base(t), last_base@, seq, opt_str_view(*avoid)) {
            Some(k) => r matches Ok((p, b, n)) && n == k && b@ == file_base(t)
                && p@ == join_path(dir@, file_base(t) + file_suffix(k)),
            None => r matches Err(e) && e is StorageError,
        },
        r matches Ok((p, b, n)) ==> (opt_str_view(*avoid) matches Some(a) ==> p@ != a),
{
    let base = make_file_base(t);
    let k: u64 = if base == *last_base {
        if seq < u64::MAX {
            seq + 1
        } else {
            return Err(IndexerError::StorageError(String::from_str("too many files named in one second")));
        }
    } else {
        0
    };
    let name = make_file_name(base.as_str(), k);
    let path = make_path(dir, name.as_str());
    let clash = match avoid {
        Some(a) => *a == path,
        None => false,
    };
    if !clash {
        return Ok((path, base, k));
    }
    let k2: u64 = if k == 0 {
        1
    } else if k <= u64::MAX / 10 {
        k * 10
    } else {
        return Err(IndexerError::StorageError(String::from_str("too many files named in one second")));
    };
    proof {
        lemma_longer_suffix(k as nat);
    }
    let name2 = make_file_name(base.as_str(), k2);
    let path2 = make_path(dir, name2.as_str());
    proof {
        assert(path2@.len() != path@.len());
    }
    Ok((path2, base, k2))
}

/// A number past `k` whose suffix is longer than that of `k`.
pub proof fn lemma_longer_suffix(k: nat)
    ensures
        k == 0 ==> file_suffix(1).len() > file_suffix(0).len(),
        k > 0 ==> file_suffix(k * 10).len() == file_suffix(k).len() + 1,
{
    if k > 0 {
        assert(decimal(k * 10, 1) == decimal(k, 0).push('0')) by {
            assert((k * 10) / 10 == k && (k * 10) % 10 == 0) by (nonlinear_arith);
        }
        assert(decimal(k, 1) == decimal(k, 0));
    } else {
        assert(decimal(1, 1) == decimal(0, 0).push('1'));
    }
}

} // verus!
