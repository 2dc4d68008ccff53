//! Calendar timestamps fixed at UTC offset zero, and their rendering as
//! `YYYY-MM-DD HH:MM:SS`.

use vstd::prelude::*;
use crate::strutil::chars_to_string;
use chrono::Datelike;
use chrono::Timelike;

verus! {

/// Mathematical model of a timestamp: the six calendar fields.
pub struct TsView {
    pub year: int,
    pub month: int,
    pub day: int,
    pub hour: int,
    pub minute: int,
    pub second: int,
}

/// A calendar timestamp fixed at UTC offset zero.
#[derive(Debug, Clone, Copy)]
pub struct Timestamp {
    pub year: i32,
    pub month: u32,
    pub day: u32,
    pub hour: u32,
    pub minute: u32,
    pub second: u32,
}

impl View for Timestamp {
    type V = TsView;

    open spec fn view(&self) -> TsView {
        TsView {
            year: self.year as int,
            month: self.month as int,
            day: self.day as int,
            hour: self.hour as int,
            minute: self.minute as int,
            second: self.second as int,
        }
    }
}

/// Field ranges under which a timestamp renders with a four-digit year.
pub open spec fn ts_wf(t: TsView) -> bool {
    &&& 0 <= t.year <= 9999
    &&& 1 <= t.month <= 12
    &&& 1 <= t.day <= 31
    &&& 0 <= t.hour <= 23
    &&& 0 <= t.minute <= 59
    &&& 0 <= t.second <= 59
}

impl Timestamp {
    pub open spec fn wf(&self) -> bool {
        ts_wf(self@)
    }

    pub fn new(year: i32, month: u32, day: u32, hour: u32, minute: u32, second: u32) -> (r:
        Timestamp)
        ensures
            r@ == (TsView { year: year as int, month: month as int, day: day as int,
                hour: hour as int, minute: minute as int, second: second as int }),
    {
        Timestamp { year, month, day, hour, minute, second }
    }
}

/// The decimal digit character for `d` (meaningful for 0 through 9).
pub open spec fn digit_char(d: int) -> char {
    ((48 + d) as u8) as char
}

/// `n` zero-padded to two decimal digits (the low two digits of `n`).
pub open spec fn pad2_spec(n: int) -> Seq<char> {
    seq![digit_char(n / 10 % 10), digit_char(n % 10)]
}

/// `n` zero-padded to four decimal digits (the low four digits of `n`).
pub open spec fn pad4_spec(n: int) -> Seq<char> {
    seq![
        digit_char(n / 1000 % 10),
        digit_char(n / 100 % 10),
        digit_char(n / 10 % 10),
        digit_char(n % 10),
    ]
}

/// A timestamp rendered as `YYYY-MM-DD HH:MM:SS`.
pub open spec fn ts_str_spec(t: TsView) -> Seq<char> {
    pad4_spec(t.year) + seq!['-'] + pad2_spec(t.month) + seq!['-'] + pad2_spec(t.day) + seq![' ']
        + pad2_spec(t.hour) + seq![':'] + pad2_spec(t.minute) + seq![':'] + pad2_spec(t.second)
}

fn push_pad2(out: &mut Vec<char>, n: u32)
    ensures
        final(out)@ == old(out)@ + pad2_spec(n as int),
{
    let d1: u8 = (n / 10 % 10) as u8;
    let d0: u8 = (n % 10) as u8;
    out.push((48u8 + d1) as char);
    out.push((48u8 + d0) as char);
    proof {
        assert(out@ =~= old(out)@ + pad2_spec(n as int));
    }
}

fn push_pad4(out: &mut Vec<char>, n: u32)
    ensures
        final(out)@ == old(out)@ + pad4_spec(n as int),
{
    let d3: u8 = (n / 1000 % 10) as u8;
    let d2: u8 = (n / 100 % 10) as u8;
    let d1: u8 = (n / 10 % 10) as u8;
    let d0: u8 = (n % 10) as u8;
    out.push((48u8 + d3) as char);
    out.push((48u8 + d2) as char);
    out.push((48u8 + d1) as char);
    out.push((48u8 + d0) as char);
    proof {
        assert(out@ =~= old(out)@ + pad4_spec(n as int));
    }
}

/// Renders a timestamp as `YYYY-MM-DD HH:MM:SS`.
pub fn format_timestamp(t: &Timestamp) -> (r: String)
    requires
        t.wf(),
    ensures
        r@ == ts_str_spec(t@),
{
    let mut out: Vec<char> = Vec::new();
    push_pad4(&mut out, t.year as u32);
    out.push('-');
    push_pad2(&mut out, t.month);
    out.push('-');
    push_pad2(&mut out, t.day);
    out.push(' ');
    push_pad2(&mut out, t.hour);
    out.push(':');
    push_pad2(&mut out, t.minute);
    out.push(':');
    push_pad2(&mut out, t.second);
    proof {
        assert(out@ =~= ts_str_spec(t@));
    }
    chars_to_string(&out)
}

/// The UTC calendar fields (year, month, day, hour, minute, second) of a
/// Unix timestamp in seconds; a pure function of the seconds, absent only
/// outside the calendar range the external converter supports.
pub uninterp spec fn civil_of(secs: int) -> Option<(int, int, int, int, int, int)>;

/// Unix seconds whose UTC year has four digits: 1970-01-01 00:00:00 through
/// 9999-12-31 23:59:59.
pub open spec fn unix_renderable(secs: int) -> bool {
    0 <= secs <= 253402300799
}

/// The timestamp a Unix-seconds date converts to: its UTC calendar fields,
/// absent when the conversion fails or the year has no four-digit form.
pub open spec fn date_of_unix(secs: int) -> Option<TsView> {
    match civil_of(secs) {
        None => None,
        Some(c) => if 0 <= c.0 <= 9999 {
            Some(TsView { year: c.0, month: c.1, day: c.2, hour: c.3, minute: c.4, second: c.5 })
        } else {
            None
        },
    }
}

/// Relies on chrono's `DateTime::from_timestamp` (with the `Datelike` and
/// `Timelike` accessors): the UTC calendar fields of a Unix timestamp depend
/// on the seconds alone; `None` comes only outside chrono's supported range,
/// which covers the years 1970 through 9999; month, day, hour, minute and
/// second lie in their usual calendar ranges.
#[verifier::external_body]
fn civil_from_unix(secs: i64) -> (r: Option<(i32, u32, u32, u32, u32, u32)>)
    ensures
        match r {
            Some(t) => {
                &&& Some((t.0 as int, t.1 as int, t.2 as int, t.3 as int, t.4 as int, t.5 as int))
                    == civil_of(secs as int)
                &&& 1 <= t.1 <= 12 && 1 <= t.2 <= 31 && t.3 <= 23 && t.4 <= 59 && t.5 <= 59
                &&& unix_renderable(secs as int) ==> 1970 <= t.0 <= 9999
            },
            None => civil_of(secs as int) is None && !unix_renderable(secs as int),
        },
{
    let dt = chrono::DateTime::from_timestamp(secs, 0)?;
    Some((dt.year(), dt.month(), dt.day(), dt.hour(), dt.minute(), dt.second()))
}

/// Converts Unix seconds to a calendar timestamp at UTC offset zero; absent
/// exactly when [`date_of_unix`] is, and always present on the
/// four-digit-year range.
pub fn timestamp_from_unix(secs: i64) -> (r: Option<Timestamp>)
    ensures
        unix_renderable(secs as int) ==> r is Some,
        match r {
            Some(t) => date_of_unix(secs as int) == Some(t@) && t.wf(),
            None => date_of_unix(secs as int) is None,
        },
{
    match civil_from_unix(secs) {
        None => None,
        Some(t) => {
            if 0 <= t.0 && t.0 <= 9999 {
                Some(Timestamp {
                    year: t.0,
                    month: t.1,
                    day: t.2,
                    hour: t.3,
                    minute: t.4,
                    second: t.5,
                })
            } else {
                None
            }
        },
    }
}

} // verus!
