//! The numbered list from which a credential is picked: how a line of the
//! list is written, and how an answer is read.

use vstd::prelude::*;
use vstd::string::StringExecFns;
use crate::text::{chars_of, push_chars};

verus! {

/// `s` without its line feeds.
pub open spec fn strip_line_feeds(s: Seq<char>) -> Seq<char>
    decreases s.len(),
{
    if s.len() == 0 {
        Seq::empty()
    } else if s.last() == '\n' {
        strip_line_feeds(s.drop_last())
    } else {
        strip_line_feeds(s.drop_last()).push(s.last())
    }
}

/// The character for a value below 10.
pub open spec fn digit_char(d: nat) -> char {
    (48 + d) as u8 as char
}

/// `n` in decimal, without leading zeros.
pub open spec fn decimal(n: nat) -> Seq<char>
    decreases n,
{
    if n < 10 {
        seq![digit_char(n)]
    } else {
        decimal(n / 10).push(digit_char(n % 10))
    }
}

/// `s` behind as many spaces as it takes to fill `width` characters.
pub open spec fn pad_left(s: Seq<char>, width: nat) -> Seq<char> {
    if s.len() >= width {
        s
    } else {
        Seq::new((width - s.len()) as nat, |i: int| ' ') + s
    }
}

/// One line of the list: the number, right-aligned in `width` characters,
/// a full stop, a space, the item without line feeds, and a line feed.
pub open spec fn menu_line_text(width: nat, number: nat, item: Seq<char>) -> Seq<char> {
    pad_left(decimal(number), width) + seq!['.', ' '] + strip_line_feeds(item) + seq!['\n']
}

/// One of the ten decimal digits.
pub open spec fn is_digit(c: char) -> bool {
    '0' <= c && c <= '9'
}

/// Every character of `s` is a decimal digit.
pub open spec fn all_digits(s: Seq<char>) -> bool {
    forall|i: int| 0 <= i < s.len() ==> is_digit(#[trigger] s[i])
}

/// The number that a run of decimal digits writes.
pub open spec fn digits_value(s: Seq<char>) -> nat
    decreases s.len(),
{
    if s.len() == 0 {
        0
    } else {
        digits_value(s.drop_last()) * 10 + ((s.last() as u32 - 48) as nat)
    }
}

/// The digits of a number that may be written with a plus sign in front.
pub open spec fn unsigned_part(s: Seq<char>) -> Seq<char> {
    if s.len() > 0 && s[0] == '+' {
        s.drop_first()
    } else {
        s
    }
}

/// The number that `s` writes: an optional plus sign and then one or more
/// decimal digits and nothing else, for a number that fits in `usize`.
pub open spec fn parse_number(s: Seq<char>) -> Option<usize> {
    let d = unsigned_part(s);
    if d.len() > 0 && all_digits(d) && digits_value(d) <= usize::MAX {
        Some(digits_value(d) as usize)
    } else {
        None
    }
}

/// The answer that a line gives: its number, line feeds set aside, where
/// that number lies between `min` and `max`.
pub open spec fn choice_of(line: Seq<char>, min: usize, max: usize) -> Option<usize> {
    match parse_number(strip_line_feeds(line)) {
        Some(n) => if min <= n && n <= max {
            Some(n)
        } else {
            None
        },
        None => None,
    }
}

/// A longer run of digits writes a number at least as large.
pub proof fn lemma_digits_value_prefix(s: Seq<char>, i: int)
    requires
        0 <= i <= s.len(),
        all_digits(s),
    ensures
        digits_value(s.take(i)) <= digits_value(s),
    decreases s.len() - i,
{
    if i < s.len() {
        lemma_digits_value_prefix(s, i + 1);
        assert(s.take(i + 1).drop_last() =~= s.take(i));
        assert(is_digit(s[i]));
        assert(s.take(i + 1).last() == s[i]);
    } else {
        assert(s.take(i) =~= s);
    }
}

/// Removes the line feeds from `s`.
pub fn without_line_feeds(s: &str) -> (out: Vec<char>)
    ensures
        out@ == strip_line_feeds(s@),
{
    let chars = chars_of(s);
    let mut out: Vec<char> = Vec::new();
    let mut i: usize = 0;
    while i < chars.len()
        invariant
            i <= chars.len(),
            chars@ == s@,
            out@ == strip_line_feeds(s@.take(i as int)),
        decreases chars.len() - i,
    {
        proof {
            let next = s@.take(i + 1);
            assert(next.drop_last() =~= s@.take(i as int));
            assert(next.last() == chars[i as int]);
        }
        if chars[i] != '\n' {
            out.push(chars[i]);
        }
        i += 1;
    }
    assert(s@.take(i as int) =~= s@);
    out
}

/// Reads a number as `str::parse::<usize>` reads one.
pub fn parse_digits(s: &Vec<char>) -> (r: Option<usize>)
    ensures
        r == parse_number(s@),
{
    let start: usize = if s.len() > 0 && s[0] == '+' {
        1
    } else {
        0
    };
    if start == s.len() {
        return None;
    }
    let ghost d = unsigned_part(s@);
    assert(d =~= s@.skip(start as int));
    let mut value: usize = 0;
    let mut i: usize = start;
    while i < s.len()
        invariant
            start <= i <= s.len(),
            d == s@.skip(start as int),
            d == unsigned_part(s@),
            all_digits(d.take(i - start)),
            value == digits_value(d.take(i - start)),
        decreases s.len() - i,
    {
        let c = s[i];
        let ghost next = d.take(i - start + 1);
        proof {
            assert(next.drop_last() =~= d.take(i - start));
            assert(next.last() == c);
        }
        if !('0' <= c && c <= '9') {
            assert(!is_digit(d[i - start]));
            return None;
        }
        assert(all_digits(next)) by {
            assert forall|k: int| 0 <= k < next.len() implies is_digit(#[trigger] next[k]) by {
                if k < next.len() - 1 {
                    assert(next[k] == d.take(i - start)[k]);
                }
            }
        }
        let digit: usize = (c as u32 - 48) as usize;
        let grown = match value.checked_mul(10) {
            Some(tens) => tens.checked_add(digit),
            None => None,
        };
        match grown {
            Some(v) => {
                value = v;
            },
            None => {
                proof {
                    assert(digits_value(next) > usize::MAX);
                    if all_digits(d) {
                        lemma_digits_value_prefix(d, i - start + 1);
                    }
                }
                return None;
            },
        }
        i += 1;
    }
    assert(d.take(i - start) =~= d);
    Some(value)
}

/// Reads the answer to a prompt: the number on the line, where it lies
/// between `min` and `max`; `None` asks for the prompt to be shown again.
pub fn parse_choice(line: &str, min: usize, max: usize) -> (r: Option<usize>)
    ensures
        r == choice_of(line@, min, max),
{
    let text = without_line_feeds(line);
    match parse_digits(&text) {
        Some(n) => if min <= n && n <= max {
            Some(n)
        } else {
            None
        },
        None => None,
    }
}

/// Reads the answer to a list of `count` numbered items: the index of the
/// item picked, counting from zero.
pub fn pick_index(line: &str, count: usize) -> (r: Option<usize>)
    ensures
        r == match choice_of(line@, 1, count) {
            Some(n) => Some((n - 1) as usize),
            None => None,
        },
{
    match parse_choice(line, 1, count) {
        Some(n) => Some(n - 1),
        None => None,
    }
}

/// Appends `n` in decimal to `out`.
pub fn push_decimal(out: &mut Vec<char>, n: usize)
    ensures
        final(out)@ == old(out)@ + decimal(n as nat),
    decreases n,
{
    if n >= 10 {
        push_decimal(out, n / 10);
    }
    let d: u8 = (n % 10) as u8;
    out.push((48 + d) as char);
    assert(final(out)@ =~= old(out)@ + decimal(n as nat));
}

/// Writes one line of the list.
pub fn menu_line(width: usize, number: usize, item: &str) -> (out: String)
    ensures
        out@ == menu_line_text(width as nat, number as nat, item@),
{
    let mut digits: Vec<char> = Vec::new();
    push_decimal(&mut digits, number);
    assert(digits@ =~= decimal(number as nat));
    let text = without_line_feeds(item);
    let mut out = String::new();
    let mut filled: usize = digits.len();
    while filled < width
        invariant
            digits@.len() <= filled,
            filled <= width || filled == digits@.len(),
            out@ == Seq::new((filled - digits@.len()) as nat, |i: int| ' '),
        decreases width - filled,
    {
        out.push(' ');
        filled += 1;
        assert(out@ =~= Seq::new((filled - digits@.len()) as nat, |i: int| ' '));
    }
    let ghost pad = out@;
    assert(pad + digits@ =~= pad_left(digits@, width as nat));
    push_chars(&mut out, &digits);
    out.push('.');
    out.push(' ');
    push_chars(&mut out, &text);
    out.push('\n');
    assert(out@ =~= menu_line_text(width as nat, number as nat, item@));
    out
}

/// The lines of the list for `items`, numbered from 1.
pub open spec fn menu_lines_text(width: nat, items: Seq<Seq<char>>) -> Seq<Seq<char>> {
    Seq::new(items.len(), |i: int| menu_line_text(width, (i + 1) as nat, items[i]))
}

/// Writes the lines of the list for `items`, numbered from 1.
pub fn menu_lines(width: usize, items: &Vec<String>) -> (out: Vec<String>)
    ensures
        out.deep_view() == menu_lines_text(width as nat, items.deep_view()),
{
    let mut out: Vec<String> = Vec::new();
    let mut i: usize = 0;
    while i < items.len()
        invariant
            i <= items.len(),
            out.deep_view() == menu_lines_text(width as nat, items.deep_view()).take(i as int),
        decreases items.len() - i,
    {
        let ghost before = out.deep_view();
        let line = menu_line(width, i + 1, items[i].as_str());
        out.push(line);
        i += 1;
        assert(out.deep_view() =~= menu_lines_text(width as nat, items.deep_view()).take(
            i as int,
        )) by {
            assert(out.deep_view() =~= before.push(line@));
        }
    }
    assert(menu_lines_text(width as nat, items.deep_view()).take(i as int) =~= menu_lines_text(
        width as nat,
        items.deep_view(),
    ));
    out
}

} // verus!
