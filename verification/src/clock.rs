//! The instant at which a request is signed, and the two texts that the
//! protocol writes it in.

use vstd::prelude::*;
use crate::text::push_chars;

verus! {

/// One instant of UTC, to the second. Both timestamps of a request are
/// written from one such value, so that they cannot disagree.
#[derive(Debug, Clone, Copy, PartialEq, Eq, Structural)]
pub struct Timestamp {
    pub year: u16,
    pub month: u8,
    pub day: u8,
    pub hour: u8,
    pub minute: u8,
    pub second: u8,
}

/// The character for a value below 10.
pub open spec fn digit_text(d: int) -> char {
    (48 + d) as u8 as char
}

/// A number below 100 in two digits.
pub open spec fn two_digits(n: int) -> Seq<char> {
    seq![digit_text(n / 10), digit_text(n % 10)]
}

/// A number below 10000 in four digits.
pub open spec fn four_digits(n: int) -> Seq<char> {
    seq![
        digit_text(n / 1000),
        digit_text((n / 100) % 10),
        digit_text((n / 10) % 10),
        digit_text(n % 10),
    ]
}

impl Timestamp {
    /// A year of four digits, a month, a day of a month, and a time of day.
    /// Second 60 is a leap second.
    pub open spec fn wf(&self) -> bool {
        &&& self.year <= 9999
        &&& 1 <= self.month <= 12
        &&& 1 <= self.day <= 31
        &&& self.hour <= 23
        &&& self.minute <= 59
        &&& self.second <= 60
    }

    /// The date as `YYYYMMDD`.
    pub open spec fn date_text(&self) -> Seq<char> {
        four_digits(self.year as int) + two_digits(self.month as int) + two_digits(self.day as int)
    }

    /// The instant as `YYYYMMDDTHHMMSSZ`.
    pub open spec fn full_text(&self) -> Seq<char> {
        self.date_text() + seq!['T'] + two_digits(self.hour as int) + two_digits(
            self.minute as int,
        ) + two_digits(self.second as int) + seq!['Z']
    }

    /// The timestamp with these fields, where they make one.
    pub fn new(year: u16, month: u8, day: u8, hour: u8, minute: u8, second: u8) -> (r: Option<
        Timestamp,
    >)
        ensures
            r == if (Timestamp { year, month, day, hour, minute, second }).wf() {
                Some(Timestamp { year, month, day, hour, minute, second })
            } else {
                None
            },
    {
        if year <= 9999 && 1 <= month && month <= 12 && 1 <= day && day <= 31 && hour <= 23
            && minute <= 59 && second <= 60 {
            Some(Timestamp { year, month, day, hour, minute, second })
        } else {
            None
        }
    }

    /// Writes the date: the scope of a signing key begins with it.
    pub fn timestamp_date(&self) -> (out: String)
        requires
            self.wf(),
        ensures
            out@ == self.date_text(),
            out@.len() == 8,
    {
        let mut digits: Vec<char> = Vec::new();
        push_four(&mut digits, self.year);
        push_two(&mut digits, self.month);
        push_two(&mut digits, self.day);
        let mut out = String::new();
        push_chars(&mut out, &digits);
        assert(out@ =~= self.date_text());
        out
    }

    /// Writes the full timestamp: the second line of the string to sign, and
    /// the value of the date header.
    pub fn timestamp_full(&self) -> (out: String)
        requires
            self.wf(),
        ensures
            out@ == self.full_text(),
            out@.len() == 16,
    {
        let mut digits: Vec<char> = Vec::new();
        push_four(&mut digits, self.year);
        push_two(&mut digits, self.month);
        push_two(&mut digits, self.day);
        digits.push('T');
        push_two(&mut digits, self.hour);
        push_two(&mut digits, self.minute);
        push_two(&mut digits, self.second);
        digits.push('Z');
        let mut out = String::new();
        push_chars(&mut out, &digits);
        assert(out@ =~= self.full_text());
        out
    }
}

/// Appends a number below 100 in two digits.
pub fn push_two(out: &mut Vec<char>, n: u8)
    requires
        n < 100,
    ensures
        final(out)@ == old(out)@ + two_digits(n as int),
{
    out.push((48 + n / 10) as char);
    out.push((48 + n % 10) as char);
    assert(final(out)@ =~= old(out)@ + two_digits(n as int));
}

/// Appends a number below 10000 in four digits.
pub fn push_four(out: &mut Vec<char>, n: u16)
    requires
        n < 10000,
    ensures
        final(out)@ == old(out)@ + four_digits(n as int),
{
    let a: u8 = (n / 1000) as u8;
    let b: u8 = ((n / 100) % 10) as u8;
    let c: u8 = ((n / 10) % 10) as u8;
    let d: u8 = (n % 10) as u8;
    out.push((48 + a) as char);
    out.push((48 + b) as char);
    out.push((48 + c) as char);
    out.push((48 + d) as char);
    assert(final(out)@ =~= old(out)@ + four_digits(n as int));
}

/// The date of an instant is the first eight characters of its full
/// timestamp: the two texts of one instant name the same day.
pub proof fn lemma_date_begins_full(t: Timestamp)
    ensures
        t.date_text().len() == 8,
        t.full_text().len() == 16,
        t.full_text().take(8) == t.date_text(),
{
    assert(t.full_text().take(8) =~= t.date_text());
}

} // verus!
