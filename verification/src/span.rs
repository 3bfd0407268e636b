//! Lengths of time as whole nanoseconds.

use std::time::Duration;
use vstd::prelude::*;

use crate::text::{chars_of, is_digit, is_space, is_whitespace};

verus! {

/// The total number of nanoseconds in a `Duration`.
pub uninterp spec fn nanos(d: Duration) -> nat;

/// `Duration::as_nanos` returns the total number of nanoseconds that the
/// duration contains; that number has a name.
pub assume_specification[ Duration::as_nanos ](d: &Duration) -> (n: u128)
    ensures
        n == nanos(*d),
;

/// `Duration::from_secs` makes a duration of that many whole seconds.
pub assume_specification[ Duration::from_secs ](secs: u64) -> (d: Duration)
    ensures
        nanos(d) == secs * 1_000_000_000,
;

/// `Duration::from_millis` makes a duration of that many whole milliseconds.
pub assume_specification[ Duration::from_millis ](millis: u64) -> (d: Duration)
    ensures
        nanos(d) == millis * 1_000_000,
;

/// Whether the duration has no length. A zero setting switches its limit off.
pub fn is_zero(d: Duration) -> (r: bool)
    ensures
        r == (nanos(d) == 0),
{
    d.as_nanos() == 0
}

/// What a text such as `120s` or `1h 30m` stands for: a number of nanoseconds, or
/// why it stands for none.
pub uninterp spec fn human_duration(text: Seq<char>) -> Result<nat, Seq<char>>;

/// Whether a text holds one span at most, such as `120s` or `1.5h`: behind the
/// first unit there is no further number.
pub open spec fn is_one_span(text: Seq<char>) -> bool {
    forall|i: int, j: int|
        #![trigger text[i], text[j]]
        0 <= i < j < text.len() && in_unit(text[i]) ==> !is_digit(text[j])
}

/// Whether a character can belong to a unit: it stands in no number and separates
/// nothing.
pub open spec fn in_unit(c: char) -> bool {
    !is_digit(c) && !is_space(c) && c != '.'
}

/// The sum of the numbers in a text that are complete, and the number at its end.
/// Spaces do not end a number.
pub open spec fn numbers(text: Seq<char>) -> (nat, nat)
    decreases text.len(),
{
    if text.len() == 0 {
        (0, 0)
    } else {
        let (sum, last) = numbers(text.drop_last());
        let c = text.last();
        if is_digit(c) {
            (sum, last * 10 + (c as nat - '0' as nat) as nat)
        } else if is_space(c) {
            (sum, last)
        } else {
            (sum + last, 0)
        }
    }
}

/// What the numbers in a text add up to, whatever their units.
pub open spec fn number_sum(text: Seq<char>) -> nat {
    numbers(text).0 + numbers(text).1
}

/// So many years of 365.25 days are fewer seconds than the largest number of them
/// that a duration can hold; one more year may be as many.
pub const MAX_NUMBER_SUM: u64 = 584_542_046_090;

/// Whether a text can be read as a duration. The parser checks its sums, except
/// for one: where the spans before have added up to the largest number of seconds
/// there is, to the second, and a further span fills up one second more. A text
/// of one span cannot come to that, and neither can a text whose numbers stay
/// below it even if every one of them counted years, the largest unit.
pub open spec fn is_readable(text: Seq<char>) -> bool {
    is_one_span(text) || number_sum(text) <= MAX_NUMBER_SUM
}

/// The numbers of a longer text add up to no less.
proof fn lemma_number_sum_grows(text: Seq<char>, n: int)
    requires
        0 <= n <= text.len(),
    ensures
        number_sum(text.take(n)) <= number_sum(text),
    decreases text.len() - n,
{
    if n == text.len() {
        assert(text.take(n) =~= text);
    } else {
        assert(text.take(n + 1).drop_last() =~= text.take(n));
        lemma_number_sum_grows(text, n + 1);
    }
}

/// Whether a text holds one span at most.
fn one_span(chars: &Vec<char>) -> (r: bool)
    ensures
        r == is_one_span(chars@),
{
    let mut unit: Option<usize> = None;
    let mut i: usize = 0;
    while i < chars.len()
        invariant
            i <= chars@.len(),
            match unit {
                Some(u) => u < i && in_unit(chars@[u as int]),
                None => forall|k: int| 0 <= k < i ==> !in_unit(#[trigger] chars@[k]),
            },
            forall|k: int, j: int|
                #![trigger chars@[k], chars@[j]]
                0 <= k < j < i && in_unit(chars@[k]) ==> !is_digit(chars@[j]),
        decreases chars.len() - i,
    {
        let c: char = chars[i];
        let digit = '0' <= c && c <= '9';
        if digit {
            match unit {
                Some(u) => {
                    assert(in_unit(chars@[u as int]) && is_digit(chars@[i as int]));
                    return false;
                },
                None => {},
            }
        } else if !is_whitespace(c) && c != '.' {
            unit = Some(i);
        }
        i = i + 1;
    }
    true
}

/// Whether the numbers in a text stay below the limit.
fn numbers_fit(text: &str, chars: &Vec<char>) -> (r: bool)
    requires
        chars@ == text@,
    ensures
        r == (number_sum(text@) <= MAX_NUMBER_SUM),
{
    let mut sum: u64 = 0;
    let mut last: u64 = 0;
    let mut i: usize = 0;
    assert(text@.take(0) =~= Seq::<char>::empty());
    while i < chars.len()
        invariant
            i <= chars@.len(),
            chars@ == text@,
            numbers(text@.take(i as int)) == (sum as nat, last as nat),
            sum + last <= MAX_NUMBER_SUM,
        decreases chars.len() - i,
    {
        let c: char = chars[i];
        assert(text@.take(i + 1).drop_last() =~= text@.take(i as int));
        assert(text@.take(i + 1).last() == c);
        if '0' <= c && c <= '9' {
            last = last * 10 + (c as u64 - '0' as u64);
        } else if !is_whitespace(c) {
            sum = sum + last;
            last = 0;
        }
        if sum + last > MAX_NUMBER_SUM {
            proof {
                lemma_number_sum_grows(text@, i + 1);
            }
            return false;
        }
        i = i + 1;
    }
    assert(text@.take(i as int) =~= text@);
    true
}

/// Whether a text can be read as a duration.
pub fn readable(text: &str) -> (r: bool)
    ensures
        r == is_readable(text@),
{
    let chars = chars_of(text);
    one_span(&chars) || numbers_fit(text, &chars)
}

/// `humantime::parse_duration` reads a duration written with units, or says why
/// it cannot; what it makes of a text has a name.
#[verifier::external_body]
pub(crate) fn parse_human(text: &str) -> (r: Result<Duration, String>)
    requires
        is_readable(text@),
    ensures
        match r {
            Ok(d) => human_duration(text@) == Ok::<nat, Seq<char>>(nanos(d)),
            Err(e) => human_duration(text@) == Err::<nat, Seq<char>>(e@),
        },
{
    humantime::parse_duration(text).map_err(|e| e.to_string())
}

/// The length of an optional duration.
pub open spec fn option_nanos(d: Option<Duration>) -> Option<nat> {
    match d {
        Some(d) => Some(nanos(d)),
        None => None,
    }
}

/// A limit that a zero length switches off.
pub fn limit(d: Duration) -> (r: Option<Duration>)
    ensures
        option_nanos(r) == if nanos(d) == 0 {
            None
        } else {
            Some(nanos(d))
        },
{
    if is_zero(d) {
        None
    } else {
        Some(d)
    }
}

/// The length of an optional setting that a default stands in for when it is
/// absent or cannot be read.
pub open spec fn setting_nanos(read: Option<Result<nat, Seq<char>>>, default_secs: nat) -> nat {
    match read {
        Some(Ok(n)) => n,
        _ => default_secs * 1_000_000_000,
    }
}

/// A duration from a setting that was read, or a default of whole seconds.
pub fn duration_or(read: Option<Result<Duration, String>>, default_secs: u64) -> (r: Duration)
    ensures
        nanos(r) == match read {
            Some(Ok(d)) => nanos(d),
            _ => (default_secs * 1_000_000_000) as nat,
        },
{
    match read {
        Some(Ok(d)) => d,
        _ => Duration::from_secs(default_secs),
    }
}

/// A duration from the environment: what the setting says, or a default of whole
/// seconds where it is absent or cannot be read.
pub fn duration_setting(raw: Option<&str>, default_secs: u64) -> (r: Duration)
    requires
        raw matches Some(s) ==> is_readable(s@),
    ensures
        nanos(r) == setting_nanos(
            match raw {
                Some(s) => Some(human_duration(s@)),
                None => None,
            },
            default_secs as nat,
        ),
{
    match raw {
        Some(s) => duration_or(Some(parse_human(s)), default_secs),
        None => duration_or(None, default_secs),
    }
}

} // verus!
