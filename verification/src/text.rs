//! Small text operations that the rest of the library is stated over:
//! decimal numerals, prefixes and substrings.

use vstd::prelude::*;
use vstd::string::{StrSliceExecFns, StringExecFns};

verus! {

/// The character that writes the digit `d`.
pub open spec fn digit_char(d: nat) -> char {
    if d == 0 {
        '0'
    } else if d == 1 {
        '1'
    } else if d == 2 {
        '2'
    } else if d == 3 {
        '3'
    } else if d == 4 {
        '4'
    } else if d == 5 {
        '5'
    } else if d == 6 {
        '6'
    } else if d == 7 {
        '7'
    } else if d == 8 {
        '8'
    } else {
        '9'
    }
}

/// The decimal numeral of `n`, without leading zeros.
pub open spec fn decimal(n: nat) -> Seq<char>
    decreases n,
{
    if n < 10 {
        seq![digit_char(n)]
    } else {
        decimal(n / 10).push(digit_char(n % 10))
    }
}

/// A reading in tenths of a percent, rounded to the nearest, halves up.
pub open spec fn tenths_of(reading: u64) -> nat {
    ((reading + 50) / 100) as nat
}

/// A reading written as a percentage with one decimal place.
pub open spec fn one_decimal(reading: u64) -> Seq<char> {
    decimal(tenths_of(reading) / 10) + seq!['.'] + seq![digit_char(tenths_of(reading) % 10)]
}

/// Whether `text` begins with `prefix`.
pub open spec fn has_prefix(text: Seq<char>, prefix: Seq<char>) -> bool {
    text.len() >= prefix.len() && text.take(prefix.len() as int) == prefix
}

/// Whether `needle` occurs in `text` at `at`.
pub open spec fn occurs_at(text: Seq<char>, needle: Seq<char>, at: int) -> bool {
    0 <= at && at + needle.len() <= text.len() && text.subrange(at, at + needle.len()) == needle
}

/// Whether `needle` occurs somewhere in `text`.
pub open spec fn contains_text(text: Seq<char>, needle: Seq<char>) -> bool {
    exists|at: int| occurs_at(text, needle, at)
}

/// `text` without any of the characters `c` that it begins with.
pub open spec fn without_leading(text: Seq<char>, c: char) -> Seq<char>
    decreases text.len(),
{
    if text.len() > 0 && text[0] == c {
        without_leading(text.skip(1), c)
    } else {
        text
    }
}

/// `text` without any of the copies of `prefix` that it begins with.
pub open spec fn without_leading_text(text: Seq<char>, prefix: Seq<char>) -> Seq<char>
    decreases text.len(),
{
    if prefix.len() > 0 && has_prefix(text, prefix) {
        without_leading_text(text.skip(prefix.len() as int), prefix)
    } else {
        text
    }
}

/// The numeral of one digit.
fn digit_str(d: u64) -> (text: &'static str)
    requires
        d < 10,
    ensures
        text@ == seq![digit_char(d as nat)],
{
    proof {
        reveal_strlit("0");
        reveal_strlit("1");
        reveal_strlit("2");
        reveal_strlit("3");
        reveal_strlit("4");
        reveal_strlit("5");
        reveal_strlit("6");
        reveal_strlit("7");
        reveal_strlit("8");
        reveal_strlit("9");
    }
    let text = if d == 0 {
        "0"
    } else if d == 1 {
        "1"
    } else if d == 2 {
        "2"
    } else if d == 3 {
        "3"
    } else if d == 4 {
        "4"
    } else if d == 5 {
        "5"
    } else if d == 6 {
        "6"
    } else if d == 7 {
        "7"
    } else if d == 8 {
        "8"
    } else {
        "9"
    };
    assert(text@ =~= seq![digit_char(d as nat)]);
    text
}

/// Writes `n` in decimal.
pub fn decimal_text(n: u64) -> (text: String)
    ensures
        text@ == decimal(n as nat),
    decreases n,
{
    if n < 10 {
        String::from_str(digit_str(n))
    } else {
        let mut text = decimal_text(n / 10);
        text.append(digit_str(n % 10));
        assert(text@ =~= decimal(n as nat));
        text
    }
}

/// Writes a reading as a percentage with one decimal place.
pub fn one_decimal_text(reading: u64) -> (text: String)
    ensures
        text@ == one_decimal(reading),
{
    let carry: u64 = if reading % 100 >= 50 {
        1
    } else {
        0
    };
    let tenths: u64 = reading / 100 + carry;
    assert(tenths == tenths_of(reading));
    let mut text = decimal_text(tenths / 10);
    proof {
        reveal_strlit(".");
    }
    text.append(".");
    text.append(digit_str(tenths % 10));
    assert(text@ =~= one_decimal(reading));
    text
}

/// The characters of `s`.
pub fn chars_of(s: &str) -> (chars: Vec<char>)
    ensures
        chars@ == s@,
{
    let n: usize = s.unicode_len();
    let mut chars: Vec<char> = Vec::new();
    let mut i: usize = 0;
    while i < n
        invariant
            i <= n,
            n == s@.len(),
            chars@ == s@.take(i as int),
        decreases n - i,
    {
        chars.push(s.get_char(i));
        assert(s@.take(i + 1) =~= s@.take(i as int).push(s@[i as int]));
        i += 1;
    }
    assert(s@.take(n as int) =~= s@);
    chars
}

/// Whether `needle` stands in `text` at `at`.
fn matches_at(text: &Vec<char>, needle: &Vec<char>, at: usize) -> (found: bool)
    requires
        at + needle@.len() <= text@.len(),
    ensures
        found == occurs_at(text@, needle@, at as int),
{
    let n: usize = text.len();
    let mut k: usize = 0;
    while k < needle.len()
        invariant
            k <= needle@.len(),
            n == text@.len(),
            at + needle@.len() <= text@.len(),
            forall|j: int| 0 <= j < k ==> text@[at + j] == needle@[j],
        decreases needle@.len() - k,
    {
        if text[at + k] != needle[k] {
            proof {
                let part = text@.subrange(at as int, at + needle@.len());
                assert(part[k as int] != needle@[k as int]);
            }
            return false;
        }
        k += 1;
    }
    assert(text@.subrange(at as int, at + needle@.len()) =~= needle@);
    true
}

/// Whether `text` begins with `prefix`.
pub fn starts_with(text: &str, prefix: &str) -> (found: bool)
    ensures
        found == has_prefix(text@, prefix@),
{
    let chars = chars_of(text);
    let wanted = chars_of(prefix);
    if chars.len() < wanted.len() {
        return false;
    }
    let found = matches_at(&chars, &wanted, 0);
    assert(chars@.take(wanted@.len() as int) =~= chars@.subrange(0, 0 + wanted@.len() as int));
    found
}

/// Whether `needle` occurs somewhere in `text`.
pub fn contains(text: &str, needle: &str) -> (found: bool)
    ensures
        found == contains_text(text@, needle@),
{
    let chars = chars_of(text);
    let wanted = chars_of(needle);
    if chars.len() < wanted.len() {
        return false;
    }
    let last: usize = chars.len() - wanted.len();
    let mut at: usize = 0;
    while at < last
        invariant
            at <= last,
            last == chars@.len() - wanted@.len(),
            chars@ == text@,
            wanted@ == needle@,
            forall|j: int| 0 <= j < at ==> !occurs_at(text@, needle@, j),
        decreases last - at,
    {
        if matches_at(&chars, &wanted, at) {
            return true;
        }
        at += 1;
    }
    matches_at(&chars, &wanted, last)
}

/// What follows `prefix` in `text`, if `text` begins with it.
pub fn strip_prefix(text: &str, prefix: &str) -> (rest: Option<String>)
    ensures
        rest is Some <==> has_prefix(text@, prefix@),
        rest is Some ==> rest->Some_0@ == text@.skip(prefix@.len() as int),
{
    if !starts_with(text, prefix) {
        return None;
    }
    let from: usize = prefix.unicode_len();
    let to: usize = text.unicode_len();
    let rest = text.substring_char(from, to);
    assert(text@.subrange(from as int, to as int) =~= text@.skip(from as int));
    Some(String::from_str(rest))
}

/// `text` without any of the characters `c` that it begins with.
pub fn trim_leading(text: &str, c: char) -> (rest: String)
    ensures
        rest@ == without_leading(text@, c),
{
    let n: usize = text.unicode_len();
    let mut from: usize = 0;
    assert(text@.skip(0) =~= text@);
    while from < n && text.get_char(from) == c
        invariant
            from <= n,
            n == text@.len(),
            without_leading(text@, c) == without_leading(text@.skip(from as int), c),
        decreases n - from,
    {
        assert(text@.skip(from as int).skip(1) =~= text@.skip(from + 1));
        from += 1;
    }
    let rest = text.substring_char(from, n);
    assert(text@.subrange(from as int, n as int) =~= text@.skip(from as int));
    String::from_str(rest)
}

/// `text` without any of the copies of `prefix` that it begins with.
pub fn trim_leading_text(text: &str, prefix: &str) -> (rest: String)
    ensures
        rest@ == without_leading_text(text@, prefix@),
{
    let chars = chars_of(text);
    let wanted = chars_of(prefix);
    let n: usize = chars.len();
    let step: usize = wanted.len();
    let mut from: usize = 0;
    assert(text@.skip(0) =~= text@);
    if step > 0 {
        while n - from >= step && matches_at(&chars, &wanted, from)
            invariant
                from <= n,
                step > 0,
                n == chars@.len(),
                step == wanted@.len(),
                chars@ == text@,
                wanted@ == prefix@,
                without_leading_text(text@, prefix@) == without_leading_text(
                    text@.skip(from as int),
                    prefix@,
                ),
            decreases n - from,
        {
            proof {
                let rest = text@.skip(from as int);
                assert(rest.take(step as int) =~= text@.subrange(from as int, from + step));
                assert(rest.skip(step as int) =~= text@.skip(from + step));
            }
            from += step;
        }
        proof {
            let rest = text@.skip(from as int);
            if n - from >= step {
                assert(rest.take(step as int) =~= text@.subrange(from as int, from + step));
            }
        }
    }
    let rest = text.substring_char(from, n);
    assert(text@.subrange(from as int, n as int) =~= text@.skip(from as int));
    String::from_str(rest)
}

} // verus!
