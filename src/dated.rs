//! Local date and time as plain numbers, and the dated names built from them.

use vstd::prelude::*;
use vstd::string::*;

verus! {

/// A local date and time to the minute.
#[derive(Clone, Copy, Debug, PartialEq, Eq, Structural)]
pub struct DateTime {
    pub year: u16,
    pub month: u8,
    pub day: u8,
    pub hour: u8,
    pub minute: u8,
}

impl DateTime {
    /// A year of four digits, a month, a day of the month, an hour of the day and a minute.
    pub open spec fn wf(&self) -> bool {
        &&& self.year <= 9999
        &&& 1 <= self.month <= 12
        &&& 1 <= self.day <= 31
        &&& self.hour < 24
        &&& self.minute < 60
    }

    /// The date and time, or `None` when a field is out of range.
    pub fn new(year: u16, month: u8, day: u8, hour: u8, minute: u8) -> (r: Option<DateTime>)
        ensures
            r matches Some(d) ==> d.wf() && d == (DateTime { year, month, day, hour, minute }),
            r is None ==> !(DateTime { year, month, day, hour, minute }).wf(),
    {
        let d = DateTime { year, month, day, hour, minute };
        if year <= 9999 && 1 <= month && month <= 12 && 1 <= day && day <= 31 && hour < 24
            && minute < 60 {
            Some(d)
        } else {
            None
        }
    }
}

pub open spec fn digit_chars() -> Seq<char> {
    seq!['0', '1', '2', '3', '4', '5', '6', '7', '8', '9']
}

pub open spec fn is_digit(c: char) -> bool {
    '0' <= c && c <= '9'
}

/// The last `width` decimal digits of `n`, zero-padded.
pub open spec fn padded(n: nat, width: nat) -> Seq<char>
    decreases width,
{
    if width == 0 {
        Seq::empty()
    } else {
        padded(n / 10, (width - 1) as nat).push(digit_chars()[(n % 10) as int])
    }
}

/// The decimal digits of `n`, without leading zeros.
pub open spec fn decimal(n: nat) -> Seq<char>
    decreases n,
{
    if n < 10 {
        seq![digit_chars()[n as int]]
    } else {
        decimal(n / 10).push(digit_chars()[(n % 10) as int])
    }
}

/// `YYYY-MM-DD`.
pub open spec fn date_text(d: DateTime) -> Seq<char> {
    padded(d.year as nat, 4) + seq!['-'] + padded(d.month as nat, 2) + seq!['-'] + padded(
        d.day as nat,
        2,
    )
}

/// `_YYYY-MM-DD-HHhMM`: zero-padded, on a 24-hour clock, without seconds.
pub open spec fn dated_suffix(d: DateTime) -> Seq<char> {
    seq!['_'] + date_text(d) + seq!['-'] + padded(d.hour as nat, 2) + seq!['h'] + padded(
        d.minute as nat,
        2,
    )
}

/// The one-character string of the digit `d`.
fn digit(d: u64) -> (r: String)
    requires
        d < 10,
    ensures
        r@ == seq![digit_chars()[d as int]],
{
    proof {
        reveal_strlit("0123456789");
    }
    let digits = "0123456789";
    assert(digits@ =~= digit_chars());
    let s = digits.substring_char(d as usize, (d + 1) as usize);
    assert(s@ =~= seq![digit_chars()[d as int]]);
    String::from_str(s)
}

/// The last `width` decimal digits of `n`, zero-padded.
pub fn format_padded(n: u64, width: u64) -> (r: String)
    ensures
        r@ == padded(n as nat, width as nat),
    decreases width,
{
    if width == 0 {
        String::new()
    } else {
        let head = format_padded(n / 10, width - 1);
        let d = digit(n % 10);
        let r = head.concat(d.as_str());
        assert(r@ =~= padded(n as nat, width as nat));
        r
    }
}

/// The decimal digits of `n`.
pub fn format_decimal(n: u64) -> (r: String)
    ensures
        r@ == decimal(n as nat),
    decreases n,
{
    if n < 10 {
        digit(n)
    } else {
        let head = format_decimal(n / 10);
        let d = digit(n % 10);
        let r = head.concat(d.as_str());
        assert(r@ =~= decimal(n as nat));
        r
    }
}

/// One character as a string.
fn one(c: char) -> (r: String)
    requires
        c == '_' || c == '-' || c == 'h',
    ensures
        r@ == seq![c],
{
    proof {
        reveal_strlit("_-h");
    }
    let marks = "_-h";
    if c == '_' {
        String::from_str(marks.substring_char(0, 1))
    } else if c == '-' {
        String::from_str(marks.substring_char(1, 2))
    } else {
        String::from_str(marks.substring_char(2, 3))
    }
}

/// `YYYY-MM-DD`.
pub fn format_date(d: DateTime) -> (r: String)
    ensures
        r@ == date_text(d),
{
    let r = format_padded(d.year as u64, 4).concat(one('-').as_str()).concat(
        format_padded(d.month as u64, 2).as_str(),
    ).concat(one('-').as_str()).concat(format_padded(d.day as u64, 2).as_str());
    assert(r@ =~= date_text(d));
    r
}

/// `_YYYY-MM-DD-HHhMM`, the suffix of a dated backup name.
pub fn format_dated_suffix(d: DateTime) -> (r: String)
    ensures
        r@ == dated_suffix(d),
{
    let r = one('_').concat(format_date(d).as_str()).concat(one('-').as_str()).concat(
        format_padded(d.hour as u64, 2).as_str(),
    ).concat(one('h').as_str()).concat(format_padded(d.minute as u64, 2).as_str());
    assert(r@ =~= dated_suffix(d));
    r
}

} // verus!
