//! Plain text helpers shared by every module: characters, whitespace, ASCII
//! case, decimal numbers and joins, each stated over `Seq<char>`.

use vstd::prelude::*;

verus! {

/// `String::push` appends the given character to the end of the string.
pub assume_specification[ String::push ](s: &mut String, c: char)
    ensures
        final(s)@ == old(s)@.push(c),
;

/// The characters of `s`, in order.
pub fn chars_of(s: &str) -> (out: Vec<char>)
    ensures
        out@ == s@,
{
    let mut out: Vec<char> = Vec::new();
    for c in it: s.chars()
        invariant
            out@ == it.seq().take(it.index() as int),
            it.seq() == s@,
    {
        out.push(c);
        assert(it.seq().take(it.index() as int).push(c) =~= it.seq().take(it.index() + 1));
    }
    assert(s@.take(s@.len() as int) =~= s@);
    out
}

/// The string made of `chars[from..to]`.
pub fn string_of(chars: &Vec<char>, from: usize, to: usize) -> (out: String)
    requires
        from <= to <= chars@.len(),
    ensures
        out@ == chars@.subrange(from as int, to as int),
{
    let mut out = String::new();
    let mut i: usize = from;
    assert(out@ =~= chars@.subrange(from as int, from as int));
    while i < to
        invariant
            from <= i <= to <= chars@.len(),
            out@ == chars@.subrange(from as int, i as int),
        decreases to - i,
    {
        out.push(chars[i]);
        assert(chars@.subrange(from as int, i as int).push(chars@[i as int]) =~= chars@.subrange(
            from as int,
            i + 1,
        ));
        i = i + 1;
    }
    out
}

/// Whether two strings hold the same characters.
pub fn str_eq(a: &str, b: &str) -> (r: bool)
    ensures
        r == (a@ == b@),
{
    let x = chars_of(a);
    let y = chars_of(b);
    if x.len() != y.len() {
        return false;
    }
    let mut i: usize = 0;
    while i < x.len()
        invariant
            i <= x@.len(),
            x@.len() == y@.len(),
            x@ == a@,
            y@ == b@,
            forall|j: int| 0 <= j < i ==> x@[j] == y@[j],
        decreases x.len() - i,
    {
        if x[i] != y[i] {
            return false;
        }
        i = i + 1;
    }
    assert(a@ =~= b@);
    true
}

/// Whether `s` starts with `prefix`.
pub open spec fn has_prefix(s: Seq<char>, prefix: Seq<char>) -> bool {
    prefix.len() <= s.len() && s.take(prefix.len() as int) == prefix
}

/// Whether `s` starts with `prefix`.
pub fn starts_with(s: &str, prefix: &str) -> (r: bool)
    ensures
        r == has_prefix(s@, prefix@),
{
    let x = chars_of(s);
    let y = chars_of(prefix);
    if x.len() < y.len() {
        return false;
    }
    let mut i: usize = 0;
    while i < y.len()
        invariant
            i <= y@.len() <= x@.len(),
            x@ == s@,
            y@ == prefix@,
            forall|j: int| 0 <= j < i ==> x@[j] == y@[j],
        decreases y.len() - i,
    {
        if x[i] != y[i] {
            assert(x@.take(y@.len() as int)[i as int] != y@[i as int]);
            return false;
        }
        i = i + 1;
    }
    assert(x@.take(y@.len() as int) =~= y@);
    true
}

/// The position of `item` in a list of strings, if it is there.
pub open spec fn listed(items: Seq<String>, item: Seq<char>) -> bool {
    exists|i: int| 0 <= i < items.len() && (#[trigger] items[i])@ == item
}

/// Whether `item` occurs in `items`.
pub fn list_contains(items: &Vec<String>, item: &str) -> (r: bool)
    ensures
        r == listed(items@, item@),
{
    let mut i: usize = 0;
    while i < items.len()
        invariant
            i <= items@.len(),
            forall|j: int| 0 <= j < i ==> (#[trigger] items@[j])@ != item@,
        decreases items.len() - i,
    {
        if str_eq(items[i].as_str(), item) {
            assert(items@[i as int]@ == item@);
            return true;
        }
        i = i + 1;
    }
    false
}

/// The views of a list of strings.
pub open spec fn texts(items: Seq<String>) -> Seq<Seq<char>> {
    items.map_values(|s: String| s@)
}

/// A copy of a list of strings.
pub fn copy_strings(items: &Vec<String>) -> (out: Vec<String>)
    ensures
        texts(out@) == texts(items@),
        out@ == items@,
{
    let mut out: Vec<String> = Vec::new();
    let mut i: usize = 0;
    while i < items.len()
        invariant
            i <= items@.len(),
            out@ == items@.take(i as int),
        decreases items.len() - i,
    {
        out.push(items[i].clone());
        assert(items@.take(i as int).push(items@[i as int]) =~= items@.take(i + 1));
        i = i + 1;
    }
    assert(items@.take(items@.len() as int) =~= items@);
    out
}

// ---------------------------------------------------------------------------
// Decimal numbers
// ---------------------------------------------------------------------------

/// The character of a single decimal digit.
pub open spec fn digit_char(d: nat) -> char {
    ('0' as nat + d) as char
}

/// The decimal text of `n`: no sign, no leading zero.
pub open spec fn decimal(n: nat) -> Seq<char>
    decreases n,
{
    if n < 10 {
        seq![digit_char(n)]
    } else {
        decimal(n / 10).push(digit_char(n % 10))
    }
}

/// The character of the digit `d`.
pub fn digit(d: u64) -> (c: char)
    requires
        d < 10,
    ensures
        c == digit_char(d as nat),
{
    (48u8 + d as u8) as char
}

/// The decimal text of `n`.
pub fn decimal_of(n: u64) -> (out: String)
    ensures
        out@ == decimal(n as nat),
    decreases n,
{
    if n < 10 {
        let mut out = String::new();
        out.push(digit(n));
        assert(out@ =~= seq![digit_char(n as nat)]);
        out
    } else {
        let mut out = decimal_of(n / 10);
        out.push(digit(n % 10));
        out
    }
}

/// The decimal text of `n`.
pub fn decimal_of_u128(n: u128) -> (out: String)
    ensures
        out@ == decimal(n as nat),
    decreases n,
{
    if n < 10 {
        decimal_of(n as u64)
    } else {
        let mut out = decimal_of_u128(n / 10);
        out.push(digit((n % 10) as u64));
        out
    }
}

/// Appends the decimal text of `n` to `out`.
pub fn push_decimal(out: &mut String, n: u64)
    ensures
        final(out)@ == old(out)@ + decimal(n as nat),
{
    let text = decimal_of(n);
    out.append(text.as_str());
}

/// The decimal text of `n`, with a minus sign when it is negative.
pub open spec fn signed_decimal(n: int) -> Seq<char> {
    if n < 0 {
        "-"@ + decimal((-n) as nat)
    } else {
        decimal(n as nat)
    }
}

/// The decimal text of `n`, with a minus sign when it is negative.
pub fn signed_decimal_of(n: i64) -> (out: String)
    ensures
        out@ == signed_decimal(n as int),
{
    if n < 0 {
        let magnitude: u64 = (-(n as i128)) as u64;
        let mut out = "-".to_owned();
        push_decimal(&mut out, magnitude);
        out
    } else {
        decimal_of(n as u64)
    }
}

/// The digits after the point of `r / unit`, without trailing zeros. `unit` is
/// a power of ten and `r` is below it.
pub open spec fn fraction(r: nat, unit: nat) -> Seq<char>
    decreases unit,
{
    if r == 0 || unit <= 1 {
        Seq::empty()
    } else {
        seq![digit_char(r / (unit / 10))] + fraction(r % (unit / 10), unit / 10)
    }
}

/// The decimal text of `n / unit`, with no point when it is whole.
pub open spec fn scaled_decimal(n: nat, unit: nat) -> Seq<char> {
    if n % unit == 0 {
        decimal(n / unit)
    } else {
        decimal(n / unit) + "."@ + fraction(n % unit, unit)
    }
}

/// What digits after a point stand for, in parts of `unit`.
pub open spec fn fraction_value(digits: Seq<char>, unit: nat) -> int
    decreases digits.len(),
{
    if digits.len() == 0 {
        0
    } else {
        (digits[0] as int - '0' as int) * (unit / 10) + fraction_value(digits.skip(1), unit / 10)
    }
}

/// Whether `n` is a power of ten.
pub open spec fn is_power_of_ten(n: nat) -> bool
    decreases n,
{
    n == 1 || (n >= 10 && n % 10 == 0 && is_power_of_ten(n / 10))
}

/// The digits after the point stand for what they were made of, and the last of
/// them is no zero.
pub proof fn law_fraction_is_exact(r: nat, unit: nat)
    requires
        r < unit,
        is_power_of_ten(unit),
    ensures
        fraction_value(fraction(r, unit), unit) == r,
        forall|i: int|
            0 <= i < fraction(r, unit).len() ==> '0' <= #[trigger] fraction(r, unit)[i] <= '9',
        r > 0 ==> fraction(r, unit).len() > 0 && fraction(r, unit).last() != '0',
    decreases unit,
{
    if r > 0 {
        let step = unit / 10;
        let d = r / step;
        let rest = r % step;
        assert(unit == step * 10 && step > 0);
        assert(d < 10 && rest < step && d * step + rest == r) by (nonlinear_arith)
            requires
                r < step * 10,
                step > 0,
                d == r / step,
                rest == r % step,
        ;
        law_fraction_is_exact(rest, step);
        let digits = fraction(r, unit);
        assert(digits =~= seq![digit_char(d)] + fraction(rest, step));
        assert(digits.skip(1) =~= fraction(rest, step));
        assert(digits[0] as int - '0' as int == d);
        assert((digits[0] as int - '0' as int) * step == d * step) by (nonlinear_arith)
            requires
                digits[0] as int - '0' as int == d,
        ;
        assert forall|i: int| 0 <= i < digits.len() implies '0' <= #[trigger] digits[i] <= '9' by {
            if i > 0 {
                assert(digits[i] == fraction(rest, step)[i - 1]);
            }
        }
        if rest > 0 {
            assert(digits.last() == fraction(rest, step).last());
        } else {
            assert(digits.last() == digit_char(d));
            assert(d > 0) by (nonlinear_arith)
                requires
                    d * step + rest == r,
                    rest == 0,
                    r > 0,
            ;
        }
    }
}

/// The decimal text of `micros` microseconds as seconds.
pub fn seconds_of_micros(micros: u64) -> (out: String)
    ensures
        out@ == scaled_decimal(micros as nat, 1_000_000),
{
    let mut out = decimal_of(micros / 1_000_000);
    let whole: u64 = micros % 1_000_000;
    if whole == 0 {
        return out;
    }
    out.append(".");
    let ghost start = out@;
    let mut r: u64 = whole;
    let mut unit: u64 = 1_000_000;
    assert(start + fraction(r as nat, unit as nat) =~= out@ + fraction(r as nat, unit as nat));
    while r != 0
        invariant
            r < unit,
            unit == 1_000_000 || unit == 100_000 || unit == 10_000 || unit == 1_000 || unit == 100
                || unit == 10 || unit == 1,
            out@ + fraction(r as nat, unit as nat) == start + fraction(whole as nat, 1_000_000),
        decreases unit,
    {
        let step: u64 = unit / 10;
        let d: u64 = r / step;
        assert(d < 10) by (nonlinear_arith)
            requires
                r < step * 10,
                step > 0,
                d == r / step,
        ;
        let ghost before = out@;
        out.push(digit(d));
        proof {
            assert(before + (seq![digit_char(d as nat)] + fraction(
                (r % step) as nat,
                step as nat,
            )) =~= out@ + fraction((r % step) as nat, step as nat));
        }
        r = r % step;
        unit = step;
    }
    assert(out@ =~= out@ + fraction(0, unit as nat));
    out
}

// ---------------------------------------------------------------------------
// Whitespace
// ---------------------------------------------------------------------------

/// The code points with the Unicode `White_Space` property.
pub open spec fn is_space(c: char) -> bool {
    let n = c as u32;
    ||| 0x09 <= n <= 0x0d
    ||| n == 0x20
    ||| n == 0x85
    ||| n == 0xa0
    ||| n == 0x1680
    ||| 0x2000 <= n <= 0x200a
    ||| n == 0x2028
    ||| n == 0x2029
    ||| n == 0x202f
    ||| n == 0x205f
    ||| n == 0x3000
}

/// Whether `c` is whitespace.
pub fn is_whitespace(c: char) -> (r: bool)
    ensures
        r == is_space(c),
{
    let n: u32 = c as u32;
    (n >= 0x09 && n <= 0x0d) || n == 0x20 || n == 0x85 || n == 0xa0 || n == 0x1680 || (n >= 0x2000
        && n <= 0x200a) || n == 0x2028 || n == 0x2029 || n == 0x202f || n == 0x205f || n == 0x3000
}

/// `s` without its leading whitespace.
pub open spec fn trim_start(s: Seq<char>) -> Seq<char>
    decreases s.len(),
{
    if s.len() > 0 && is_space(s[0]) {
        trim_start(s.skip(1))
    } else {
        s
    }
}

/// `s` without its trailing whitespace.
pub open spec fn trim_end(s: Seq<char>) -> Seq<char>
    decreases s.len(),
{
    if s.len() > 0 && is_space(s.last()) {
        trim_end(s.drop_last())
    } else {
        s
    }
}

/// `s` without the whitespace at either end.
pub open spec fn trimmed(s: Seq<char>) -> Seq<char> {
    trim_end(trim_start(s))
}

/// The number of leading characters of `s` that are not whitespace.
pub open spec fn word_len(s: Seq<char>) -> nat
    decreases s.len(),
{
    if s.len() > 0 && !is_space(s[0]) {
        1 + word_len(s.skip(1))
    } else {
        0
    }
}

/// `word_len` stays within the text.
pub proof fn lemma_word_len(s: Seq<char>)
    ensures
        word_len(s) <= s.len(),
        forall|i: int| 0 <= i < word_len(s) ==> !is_space(#[trigger] s[i]),
        word_len(s) < s.len() ==> is_space(s[word_len(s) as int]),
    decreases s.len(),
{
    if s.len() > 0 && !is_space(s[0]) {
        lemma_word_len(s.skip(1));
        assert forall|i: int| 0 <= i < word_len(s) implies !is_space(#[trigger] s[i]) by {
            if i > 0 {
                assert(s.skip(1)[i - 1] == s[i]);
            }
        }
    }
}

/// Trimming the front never makes a text longer.
pub proof fn lemma_trim_start(s: Seq<char>)
    ensures
        trim_start(s).len() <= s.len(),
        trim_start(s) == s.skip(s.len() - trim_start(s).len()),
        trim_start(s).len() > 0 ==> !is_space(trim_start(s)[0]),
        forall|i: int| 0 <= i < s.len() - trim_start(s).len() ==> is_space(#[trigger] s[i]),
    decreases s.len(),
{
    if s.len() > 0 && is_space(s[0]) {
        lemma_trim_start(s.skip(1));
        let n = s.len() - trim_start(s).len();
        assert(s.skip(1).skip(n - 1) =~= s.skip(n));
        assert forall|i: int| 0 <= i < n implies is_space(#[trigger] s[i]) by {
            if i > 0 {
                assert(s.skip(1)[i - 1] == s[i]);
            }
        }
    } else {
        assert(s.skip(0) =~= s);
    }
}

/// Trimming the end never makes a text longer.
pub proof fn lemma_trim_end(s: Seq<char>)
    ensures
        trim_end(s).len() <= s.len(),
        trim_end(s) == s.take(trim_end(s).len() as int),
        trim_end(s).len() > 0 ==> !is_space(trim_end(s).last()),
    decreases s.len(),
{
    if s.len() > 0 && is_space(s.last()) {
        lemma_trim_end(s.drop_last());
        assert(s.drop_last().take(trim_end(s).len() as int) =~= s.take(trim_end(s).len() as int));
    } else {
        assert(s.take(s.len() as int) =~= s);
    }
}

/// The whitespace-separated words of `s`, in order.
pub open spec fn words(s: Seq<char>) -> Seq<Seq<char>>
    decreases s.len(),
    via words_decreases
{
    let t = trim_start(s);
    if t.len() == 0 {
        Seq::empty()
    } else {
        let k = word_len(t) as int;
        seq![t.take(k)] + words(t.skip(k))
    }
}

#[via_fn]
proof fn words_decreases(s: Seq<char>) {
    lemma_trim_start(s);
    lemma_word_len(trim_start(s));
}

/// `items` with one separator between neighbours.
pub open spec fn joined(items: Seq<Seq<char>>, separator: Seq<char>) -> Seq<char>
    decreases items.len(),
{
    if items.len() == 0 {
        Seq::empty()
    } else if items.len() == 1 {
        items[0]
    } else {
        joined(items.drop_last(), separator) + separator + items.last()
    }
}

/// What whitespace is put around a text, trimming gives the text back, and it
/// takes nothing from a text whose ends are no whitespace.
pub proof fn law_trimming_undoes_padding(pre: Seq<char>, s: Seq<char>, post: Seq<char>)
    requires
        forall|i: int| 0 <= i < pre.len() ==> is_space(#[trigger] pre[i]),
        forall|i: int| 0 <= i < post.len() ==> is_space(#[trigger] post[i]),
        s.len() > 0 ==> !is_space(s[0]) && !is_space(s.last()),
    ensures
        trimmed(pre + s + post) == s,
    decreases pre.len() + post.len(),
{
    let all = pre + s + post;
    if pre.len() > 0 {
        law_trimming_undoes_padding(pre.skip(1), s, post);
        assert(all.skip(1) =~= pre.skip(1) + s + post);
        assert(is_space(all[0]));
    } else if s.len() > 0 {
        assert(all =~= s + post);
        assert(all[0] == s[0]);
        lemma_trim_padded_end(s, post);
    } else {
        assert(all =~= post);
        lemma_trim_blank(post);
        assert(s =~= Seq::<char>::empty());
    }
}

proof fn lemma_trim_padded_end(s: Seq<char>, post: Seq<char>)
    requires
        forall|i: int| 0 <= i < post.len() ==> is_space(#[trigger] post[i]),
        s.len() > 0,
        !is_space(s.last()),
    ensures
        trim_end(s + post) == s,
    decreases post.len(),
{
    if post.len() > 0 {
        lemma_trim_padded_end(s, post.drop_last());
        assert((s + post).drop_last() =~= s + post.drop_last());
        assert((s + post).last() == post.last());
    } else {
        assert(s + post =~= s);
    }
}

proof fn lemma_trim_blank(post: Seq<char>)
    requires
        forall|i: int| 0 <= i < post.len() ==> is_space(#[trigger] post[i]),
    ensures
        trim_start(post) == Seq::<char>::empty(),
    decreases post.len(),
{
    if post.len() > 0 {
        lemma_trim_blank(post.skip(1));
    } else {
        assert(post =~= Seq::<char>::empty());
    }
}

/// A trimmed text has no whitespace at its ends, and what was taken away is
/// nothing but whitespace.
pub proof fn law_trimmed_ends(s: Seq<char>) -> (at: int)
    ensures
        trimmed(s).len() > 0 ==> !is_space(trimmed(s)[0]) && !is_space(trimmed(s).last()),
        0 <= at <= at + trimmed(s).len() <= s.len(),
        trimmed(s) == s.subrange(at, at + trimmed(s).len()),
        forall|i: int|
            0 <= i < at || at + trimmed(s).len() <= i < s.len() ==> is_space(#[trigger] s[i]),
{
    let t = trim_start(s);
    let at = s.len() - t.len();
    lemma_trim_start(s);
    lemma_trim_end(t);
    lemma_trim_end_takes_space(t);
    assert forall|i: int|
        0 <= i < at || at + trimmed(s).len() <= i < s.len() implies is_space(#[trigger] s[i]) by {
        if i >= at {
            assert(t[i - at] == s[i]);
        }
    }
    assert(trimmed(s) =~= s.subrange(at, at + trimmed(s).len()));
    at
}

proof fn lemma_trim_end_takes_space(s: Seq<char>)
    ensures
        forall|i: int| trim_end(s).len() <= i < s.len() ==> is_space(#[trigger] s[i]),
    decreases s.len(),
{
    if s.len() > 0 && is_space(s.last()) {
        lemma_trim_end_takes_space(s.drop_last());
        assert forall|i: int| trim_end(s).len() <= i < s.len() implies is_space(#[trigger] s[i]) by {
            if i < s.len() - 1 {
                assert(s.drop_last()[i] == s[i]);
            }
        }
    }
}

/// Whitespace in front of a text changes none of its words, a text of whitespace
/// has none, and a word at the front is the first.
pub proof fn law_words(word: Seq<char>, space: char, rest: Seq<char>)
    requires
        is_space(space),
        forall|i: int| 0 <= i < word.len() ==> !is_space(#[trigger] word[i]),
    ensures
        words(seq![space] + rest) == words(rest),
        words(Seq::empty()) == Seq::<Seq<char>>::empty(),
        word.len() > 0 ==> words(word + seq![space] + rest) == seq![word] + words(rest),
        word.len() > 0 ==> words(word) == seq![word],
{
    assert((seq![space] + rest).skip(1) =~= rest);
    assert(words(seq![space] + rest) == words(rest));
    if word.len() > 0 {
        let all = word + seq![space] + rest;
        assert(all[0] == word[0]);
        lemma_word_in_front(word, seq![space] + rest);
        assert(all =~= word + (seq![space] + rest));
        assert(all.take(word.len() as int) =~= word);
        assert(all.skip(word.len() as int) =~= seq![space] + rest);
        lemma_word_in_front(word, Seq::empty());
        assert(word + Seq::<char>::empty() =~= word);
        assert(word.take(word.len() as int) =~= word);
        assert(word.skip(word.len() as int) =~= Seq::<char>::empty());
        assert(words(Seq::<char>::empty()) =~= Seq::<Seq<char>>::empty());
        assert(seq![word] + Seq::<Seq<char>>::empty() =~= seq![word]);
    }
}

proof fn lemma_word_in_front(word: Seq<char>, rest: Seq<char>)
    requires
        forall|i: int| 0 <= i < word.len() ==> !is_space(#[trigger] word[i]),
        rest.len() > 0 ==> is_space(rest[0]),
    ensures
        word_len(word + rest) == word.len(),
    decreases word.len(),
{
    if word.len() > 0 {
        assert((word + rest)[0] == word[0]);
        assert((word + rest).skip(1) =~= word.skip(1) + rest);
        lemma_word_in_front(word.skip(1), rest);
    } else {
        assert(word + rest =~= rest);
    }
}

/// The words of `s` with a single space between neighbours.
pub open spec fn collapsed(s: Seq<char>) -> Seq<char> {
    joined(words(s), seq![' '])
}

/// `s` without the whitespace at either end.
pub fn trim(s: &str) -> (out: String)
    ensures
        out@ == trimmed(s@),
{
    let chars = chars_of(s);
    let mut from: usize = 0;
    assert(chars@.skip(0) =~= chars@);
    while from < chars.len() && is_whitespace(chars[from])
        invariant
            from <= chars@.len(),
            chars@ == s@,
            trim_start(s@) == trim_start(s@.skip(from as int)),
        decreases chars.len() - from,
    {
        assert(s@.skip(from as int).skip(1) =~= s@.skip(from + 1));
        from = from + 1;
    }
    let ghost t = s@.skip(from as int);
    assert(t == trim_start(s@));
    let mut to: usize = chars.len();
    assert(t =~= s@.subrange(from as int, to as int));
    while to > from && is_whitespace(chars[to - 1])
        invariant
            from <= to <= chars@.len(),
            chars@ == s@,
            trim_end(t) == trim_end(s@.subrange(from as int, to as int)),
        decreases to,
    {
        assert(s@.subrange(from as int, to as int).drop_last() =~= s@.subrange(
            from as int,
            to - 1,
        ));
        to = to - 1;
    }
    string_of(&chars, from, to)
}

/// Adding one more item to a join adds the separator, unless it is the first.
pub proof fn lemma_joined_push(items: Seq<Seq<char>>, item: Seq<char>, separator: Seq<char>)
    ensures
        joined(items.push(item), separator) == if items.len() == 0 {
            item
        } else {
            joined(items, separator) + separator + item
        },
{
    assert(items.push(item).drop_last() =~= items);
}

/// The words of `s` with a single space between neighbours.
pub fn collapse_whitespace(s: &str) -> (out: String)
    ensures
        out@ == collapsed(s@),
{
    let chars = chars_of(s);
    let mut out = String::new();
    let ghost mut done: Seq<Seq<char>> = Seq::empty();
    let mut at: usize = 0;
    assert(s@.skip(0) =~= s@);
    assert(Seq::<Seq<char>>::empty() + words(s@) =~= words(s@));
    loop
        invariant
            at <= chars@.len(),
            chars@ == s@,
            words(s@) == done + words(s@.skip(at as int)),
            out@ == joined(done, seq![' ']),
            (at > 0) == (done.len() > 0),
        ensures
            out@ == collapsed(s@),
        decreases chars.len() - at,
    {
        let ghost rest = s@.skip(at as int);
        let mut start: usize = at;
        while start < chars.len() && is_whitespace(chars[start])
            invariant
                at <= start <= chars@.len(),
                chars@ == s@,
                trim_start(rest) == trim_start(s@.skip(start as int)),
            decreases chars.len() - start,
        {
            assert(s@.skip(start as int).skip(1) =~= s@.skip(start + 1));
            start = start + 1;
        }
        let ghost t = s@.skip(start as int);
        assert(t == trim_start(rest));
        if start >= chars.len() {
            assert(words(rest) =~= Seq::<Seq<char>>::empty());
            assert(words(s@) =~= done);
            break;
        }
        let mut end: usize = start;
        assert(s@.skip(end as int) =~= t.skip(0));
        while end < chars.len() && !is_whitespace(chars[end])
            invariant
                start <= end <= chars@.len(),
                chars@ == s@,
                t == s@.skip(start as int),
                word_len(t) == (end - start) + word_len(s@.skip(end as int)),
            decreases chars.len() - end,
        {
            assert(s@.skip(end as int).skip(1) =~= s@.skip(end + 1));
            end = end + 1;
        }
        let ghost k = (end - start) as int;
        assert(word_len(t) == k);
        assert(t.take(k) =~= s@.subrange(start as int, end as int));
        assert(t.skip(k) =~= s@.skip(end as int));
        let word = string_of(&chars, start, end);
        proof {
            lemma_word_len(t);
            assert(!is_space(t[0]));
            assert(end > start);
            lemma_joined_push(done, word@, seq![' ']);
            assert(words(s@) =~= done.push(word@) + words(s@.skip(end as int)));
        }
        if at > 0 {
            out.push(' ');
            assert(out@ =~= joined(done, seq![' ']) + seq![' ']);
        }
        out.append(word.as_str());
        proof {
            if done.len() == 0 {
                assert(out@ =~= word@);
            }
            done = done.push(word@);
        }
        at = end;
    }
    out
}

// ---------------------------------------------------------------------------
// ASCII case
// ---------------------------------------------------------------------------

/// `c` with `A` to `Z` mapped to `a` to `z`.
pub open spec fn ascii_lower(c: char) -> char {
    if 'A' <= c <= 'Z' {
        (c as u32 + 32) as char
    } else {
        c
    }
}

/// Whether two texts are equal once ASCII letters are lower-cased.
pub open spec fn same_ignoring_ascii_case(a: Seq<char>, b: Seq<char>) -> bool {
    a.len() == b.len() && forall|i: int|
        0 <= i < a.len() ==> ascii_lower(#[trigger] a[i]) == ascii_lower(b[i])
}

/// `c` with `A` to `Z` mapped to `a` to `z`.
pub fn lower(c: char) -> (r: char)
    ensures
        r == ascii_lower(c),
{
    if c >= 'A' && c <= 'Z' {
        ((c as u8) + 32) as char
    } else {
        c
    }
}

/// Whether two strings are equal once ASCII letters are lower-cased.
pub fn eq_ignore_ascii_case(a: &str, b: &str) -> (r: bool)
    ensures
        r == same_ignoring_ascii_case(a@, b@),
{
    let x = chars_of(a);
    let y = chars_of(b);
    if x.len() != y.len() {
        return false;
    }
    let mut i: usize = 0;
    while i < x.len()
        invariant
            i <= x@.len(),
            x@.len() == y@.len(),
            x@ == a@,
            y@ == b@,
            forall|j: int| 0 <= j < i ==> ascii_lower(#[trigger] a@[j]) == ascii_lower(b@[j]),
        decreases x.len() - i,
    {
        if lower(x[i]) != lower(y[i]) {
            assert(ascii_lower(a@[i as int]) != ascii_lower(b@[i as int]));
            return false;
        }
        i = i + 1;
    }
    true
}

// ---------------------------------------------------------------------------
// Unsigned decimal parsing
// ---------------------------------------------------------------------------

/// Why a text is not an unsigned decimal number within a bound.
#[derive(Clone, Copy, Debug, PartialEq, Eq, Structural)]
pub enum NumberError {
    /// There is no text at all.
    Empty,
    /// A character is not a decimal digit.
    InvalidDigit,
    /// The number is above the bound.
    TooLarge,
}

/// Whether `c` is a decimal digit.
pub open spec fn is_digit(c: char) -> bool {
    '0' <= c <= '9'
}

/// Reads `digits` from the left, with `seen` as the value read so far: the
/// first character that is no digit, or that takes the value above `max`,
/// decides the error.
pub open spec fn read_digits(digits: Seq<char>, seen: nat, max: nat) -> Result<nat, NumberError>
    decreases digits.len(),
{
    if digits.len() == 0 {
        Ok(seen)
    } else if !is_digit(digits[0]) {
        Err(NumberError::InvalidDigit)
    } else {
        let next = seen * 10 + (digits[0] as nat - '0' as nat) as nat;
        if next > max {
            Err(NumberError::TooLarge)
        } else {
            read_digits(digits.skip(1), next, max)
        }
    }
}

/// The number that `s` writes: an optional `+`, at least one decimal digit and
/// nothing else.
pub open spec fn parsed_number(s: Seq<char>, max: nat) -> Result<nat, NumberError> {
    if s.len() == 0 {
        Err(NumberError::Empty)
    } else if s.len() == 1 && (s[0] == '+' || s[0] == '-') {
        Err(NumberError::InvalidDigit)
    } else if s[0] == '+' {
        read_digits(s.skip(1), 0, max)
    } else {
        read_digits(s, 0, max)
    }
}

/// Parses an unsigned decimal number of at most `max`.
pub fn parse_number(s: &str, max: u64) -> (r: Result<u64, NumberError>)
    ensures
        match r {
            Ok(n) => n <= max && parsed_number(s@, max as nat) == Ok::<nat, NumberError>(
                n as nat,
            ),
            Err(e) => parsed_number(s@, max as nat) == Err::<nat, NumberError>(e),
        },
{
    let chars = chars_of(s);
    if chars.len() == 0 {
        return Err(NumberError::Empty);
    }
    if chars.len() == 1 && (chars[0] == '+' || chars[0] == '-') {
        return Err(NumberError::InvalidDigit);
    }
    let mut i: usize = if chars[0] == '+' {
        1
    } else {
        0
    };
    let mut n: u64 = 0;
    assert(s@.skip(0) =~= s@);
    while i < chars.len()
        invariant
            i <= chars@.len(),
            chars@ == s@,
            n <= max,
            parsed_number(s@, max as nat) == read_digits(s@.skip(i as int), n as nat, max as nat),
        decreases chars.len() - i,
    {
        let c = chars[i];
        if c < '0' || c > '9' {
            return Err(NumberError::InvalidDigit);
        }
        let d: u64 = c as u64 - 48;
        let next: u128 = n as u128 * 10 + d as u128;
        if next > max as u128 {
            return Err(NumberError::TooLarge);
        }
        assert(s@.skip(i as int).skip(1) =~= s@.skip(i + 1));
        n = next as u64;
        i = i + 1;
    }
    Ok(n)
}

impl NumberError {
    /// What the error says to an operator.
    pub open spec fn message(self) -> Seq<char> {
        match self {
            NumberError::Empty => "cannot parse integer from empty string"@,
            NumberError::InvalidDigit => "invalid digit found in string"@,
            NumberError::TooLarge => "number too large to fit in target type"@,
        }
    }

    /// What the error says to an operator.
    pub fn to_text(self) -> (out: String)
        ensures
            out@ == self.message(),
    {
        match self {
            NumberError::Empty => "cannot parse integer from empty string".to_owned(),
            NumberError::InvalidDigit => "invalid digit found in string".to_owned(),
            NumberError::TooLarge => "number too large to fit in target type".to_owned(),
        }
    }
}

/// Reading back the decimal text of a number gives the number.
pub proof fn law_decimal_round_trip(n: nat, max: nat)
    requires
        n <= max,
    ensures
        parsed_number(decimal(n), max) == Ok::<nat, NumberError>(n),
{
    lemma_decimal_digits(n);
    lemma_read_decimal(n, max);
}

/// The decimal text is made of digits and is not empty.
pub proof fn lemma_decimal_digits(n: nat)
    ensures
        decimal(n).len() > 0,
        forall|i: int| 0 <= i < decimal(n).len() ==> is_digit(#[trigger] decimal(n)[i]),
    decreases n,
{
    if n >= 10 {
        lemma_decimal_digits(n / 10);
    }
}

proof fn lemma_read_push(digits: Seq<char>, c: char, seen: nat, max: nat)
    requires
        is_digit(c),
        read_digits(digits, seen, max) is Ok,
    ensures
        read_digits(digits.push(c), seen, max) == read_digits(
            seq![c],
            read_digits(digits, seen, max)->Ok_0,
            max,
        ),
    decreases digits.len(),
{
    if digits.len() == 0 {
        assert(digits.push(c) =~= seq![c]);
    } else {
        let next = seen * 10 + (digits[0] as nat - '0' as nat) as nat;
        lemma_read_push(digits.skip(1), c, next, max);
        assert(digits.push(c).skip(1) =~= digits.skip(1).push(c));
    }
}

proof fn lemma_read_decimal(n: nat, max: nat)
    requires
        n <= max,
    ensures
        read_digits(decimal(n), 0, max) == Ok::<nat, NumberError>(n),
    decreases n,
{
    reveal_with_fuel(read_digits, 2);
    if n >= 10 {
        lemma_read_decimal(n / 10, max);
        lemma_read_push(decimal(n / 10), digit_char(n % 10), 0, max);
        assert(seq![digit_char(n % 10)].skip(1) =~= Seq::<char>::empty());
    } else {
        assert(seq![digit_char(n)].skip(1) =~= Seq::<char>::empty());
    }
}

// ---------------------------------------------------------------------------
// Splitting
// ---------------------------------------------------------------------------

/// The position of the first `c` in `s`, or the length of `s`.
pub open spec fn find_char(s: Seq<char>, c: char) -> nat
    decreases s.len(),
{
    if s.len() == 0 || s[0] == c {
        0
    } else {
        1 + find_char(s.skip(1), c)
    }
}

/// `find_char` finds the first occurrence, if there is one.
pub proof fn lemma_find_char(s: Seq<char>, c: char)
    ensures
        find_char(s, c) <= s.len(),
        find_char(s, c) < s.len() ==> s[find_char(s, c) as int] == c,
        forall|i: int| 0 <= i < find_char(s, c) ==> #[trigger] s[i] != c,
    decreases s.len(),
{
    if s.len() > 0 && s[0] != c {
        lemma_find_char(s.skip(1), c);
        assert forall|i: int| 0 <= i < find_char(s, c) implies #[trigger] s[i] != c by {
            if i > 0 {
                assert(s.skip(1)[i - 1] == s[i]);
            }
        }
    }
}

/// What stands before and after the first `c` in `s`, if there is one.
pub open spec fn cut(s: Seq<char>, c: char) -> Option<(Seq<char>, Seq<char>)> {
    let at = find_char(s, c) as int;
    if at < s.len() {
        Some((s.take(at), s.skip(at + 1)))
    } else {
        None
    }
}

/// The fields of `s` between the `c`s: always at least one.
pub open spec fn fields(s: Seq<char>, c: char) -> Seq<Seq<char>>
    decreases s.len(),
    via fields_decreases
{
    match cut(s, c) {
        Some((first, rest)) => seq![first] + fields(rest, c),
        None => seq![s],
    }
}

#[via_fn]
proof fn fields_decreases(s: Seq<char>, c: char) {
    lemma_find_char(s, c);
}

/// What stands before and after the first `c` in `s`, if there is one.
pub fn split_once(s: &str, c: char) -> (r: Option<(String, String)>)
    ensures
        match r {
            Some((a, b)) => cut(s@, c) == Some((a@, b@)),
            None => cut(s@, c) is None,
        },
{
    let chars = chars_of(s);
    let mut at: usize = 0;
    assert(s@.skip(0) =~= s@);
    while at < chars.len() && chars[at] != c
        invariant
            at <= chars@.len(),
            chars@ == s@,
            find_char(s@, c) == at + find_char(s@.skip(at as int), c),
        decreases chars.len() - at,
    {
        assert(s@.skip(at as int).skip(1) =~= s@.skip(at + 1));
        at = at + 1;
    }
    assert(find_char(s@, c) == at);
    if at < chars.len() {
        let a = string_of(&chars, 0, at);
        let b = string_of(&chars, at + 1, chars.len());
        assert(a@ =~= s@.take(at as int));
        assert(b@ =~= s@.skip(at + 1));
        Some((a, b))
    } else {
        None
    }
}

/// The fields of `s` between the `c`s.
pub fn split(s: &str, c: char) -> (r: Vec<String>)
    ensures
        texts(r@) == fields(s@, c),
{
    let mut out: Vec<String> = Vec::new();
    let mut rest = s.to_owned();
    assert(texts(out@) =~= Seq::<Seq<char>>::empty());
    assert(texts(out@) + fields(rest@, c) =~= fields(s@, c));
    loop
        invariant_except_break
            texts(out@) + fields(rest@, c) == fields(s@, c),
        ensures
            texts(out@) == fields(s@, c),
        decreases rest@.len(),
    {
        proof {
            lemma_find_char(rest@, c);
        }
        match split_once(rest.as_str(), c) {
            Some((first, tail)) => {
                let ghost before = texts(out@);
                let ghost had = rest@;
                out.push(first);
                proof {
                    assert(texts(out@) =~= before.push(first@));
                    assert(before + (seq![first@] + fields(tail@, c)) =~= before.push(first@)
                        + fields(tail@, c));
                }
                rest = tail;
            },
            None => {
                let ghost before = texts(out@);
                let ghost had = rest@;
                out.push(rest);
                proof {
                    assert(texts(out@) =~= before.push(had));
                    assert(before + seq![had] =~= before.push(had));
                }
                break;
            },
        }
    }
    out
}

/// A cut parts a text at the first occurrence of the character, which is in
/// neither part, and there is none exactly if the character does not occur.
pub proof fn law_cut_parts_at_the_first(s: Seq<char>, c: char)
    ensures
        cut(s, c) is None <==> !s.contains(c),
        cut(s, c) matches Some((first, rest)) ==> s == first + seq![c] + rest && !first.contains(c),
{
    lemma_find_char(s, c);
    let at = find_char(s, c) as int;
    if at < s.len() {
        assert(s =~= s.take(at) + seq![c] + s.skip(at + 1));
        assert(s[at] == c);
        assert forall|i: int| 0 <= i < at implies s.take(at)[i] != c by {
            assert(s[i] != c);
        }
    }
}

/// What stands before the first character of its kind, and what stands behind it,
/// are the parts of the cut.
pub proof fn law_cut_of_join(first: Seq<char>, c: char, rest: Seq<char>)
    requires
        !first.contains(c),
    ensures
        cut(first + seq![c] + rest, c) == Some((first, rest)),
{
    let all = first + seq![c] + rest;
    lemma_find_char(all, c);
    let at = find_char(all, c) as int;
    assert(all[first.len() as int] == c);
    if at < first.len() {
        assert(first[at] == all[at]);
    }
    assert(all.take(at) =~= first);
    assert(all.skip(at + 1) =~= rest);
}

/// The fields of a text with the separator between neighbours are the text, and
/// none of them holds the separator.
pub proof fn law_fields_make_the_text(s: Seq<char>, c: char)
    ensures
        fields(s, c).len() > 0,
        joined(fields(s, c), seq![c]) == s,
        forall|i: int| 0 <= i < fields(s, c).len() ==> !(#[trigger] fields(s, c)[i]).contains(c),
    decreases s.len(),
{
    law_cut_parts_at_the_first(s, c);
    match cut(s, c) {
        Some((first, rest)) => {
            law_fields_make_the_text(rest, c);
            lemma_joined_front(first, fields(rest, c), seq![c]);
            assert(first + seq![c] + rest =~= s);
            let all = fields(s, c);
            assert forall|i: int| 0 <= i < all.len() implies !(#[trigger] all[i]).contains(c) by {
                if i > 0 {
                    assert(all[i] == fields(rest, c)[i - 1]);
                }
            }
        },
        None => {},
    }
}

/// One more field behind a separator is the last one.
pub proof fn law_last_field(s: Seq<char>, c: char, last: Seq<char>)
    requires
        !last.contains(c),
    ensures
        fields(s + seq![c] + last, c) == fields(s, c).push(last),
        fields(last, c) == seq![last],
    decreases s.len(),
{
    law_cut_parts_at_the_first(last, c);
    let all = s + seq![c] + last;
    law_cut_parts_at_the_first(s, c);
    lemma_find_char(s, c);
    lemma_find_char(all, c);
    let at = find_char(s, c) as int;
    let found = find_char(all, c) as int;
    assert(all[s.len() as int] == c);
    if at < s.len() {
        assert(all[at] == c);
        if found < at {
            assert(s[found] == all[found]);
        }
        let rest = s.skip(at + 1);
        law_last_field(rest, c, last);
        assert(all.take(at) =~= s.take(at));
        assert(all.skip(at + 1) =~= rest + seq![c] + last);
        assert(found == at);
        assert(cut(all, c) == Some((s.take(at), rest + seq![c] + last)));
        assert(cut(s, c) == Some((s.take(at), rest)));
        assert(seq![s.take(at)] + fields(rest, c).push(last) =~= (seq![s.take(at)] + fields(
            rest,
            c,
        )).push(last));
    } else {
        if found < s.len() {
            assert(s[found] == all[found]);
        }
        assert(all.take(found) =~= s);
        assert(all.skip(found + 1) =~= last);
        assert(cut(all, c) == Some((s, last)));
        assert(fields(s, c) == seq![s]);
        assert(fields(last, c) == seq![last]);
        assert(seq![s] + seq![last] =~= seq![s].push(last));
    }
}

proof fn lemma_joined_front(first: Seq<char>, rest: Seq<Seq<char>>, separator: Seq<char>)
    requires
        rest.len() > 0,
    ensures
        joined(seq![first] + rest, separator) == first + separator + joined(rest, separator),
    decreases rest.len(),
{
    let all = seq![first] + rest;
    assert(joined(all, separator) == joined(all.drop_last(), separator) + separator + all.last());
    if rest.len() == 1 {
        assert(all.drop_last() =~= seq![first]);
        assert(joined(seq![first], separator) == first);
        assert(all.last() == rest[0]);
    } else {
        lemma_joined_front(first, rest.drop_last(), separator);
        assert(all.drop_last() =~= seq![first] + rest.drop_last());
        assert(all.last() == rest.last());
        assert(first + separator + joined(rest.drop_last(), separator) + separator + rest.last()
            =~= first + separator + (joined(rest.drop_last(), separator) + separator
            + rest.last()));
    }
}

/// `s` without one trailing carriage return.
pub open spec fn chomp(s: Seq<char>) -> Seq<char> {
    if s.len() > 0 && s.last() == '\r' {
        s.drop_last()
    } else {
        s
    }
}

/// The lines of `s`: what stands between line feeds, each without its carriage
/// return, and nothing for a text that ends in a line feed.
pub open spec fn lines(s: Seq<char>) -> Seq<Seq<char>>
    decreases s.len(),
    via lines_decreases
{
    if s.len() == 0 {
        Seq::empty()
    } else {
        match cut(s, '\n') {
            Some((first, rest)) => seq![chomp(first)] + lines(rest),
            None => seq![s],
        }
    }
}

/// What stands before a line feed is a line, less a carriage return at its end;
/// an unfinished last line counts, and nothing after the last line feed does not.
pub proof fn law_lines(first: Seq<char>, rest: Seq<char>)
    requires
        !first.contains('\n'),
    ensures
        lines(first + seq!['\n'] + rest) == seq![
            if first.len() > 0 && first.last() == '\r' {
                first.drop_last()
            } else {
                first
            },
        ] + lines(rest),
        first.len() > 0 ==> lines(first) == seq![first],
        lines(Seq::empty()) == Seq::<Seq<char>>::empty(),
{
    let all = first + seq!['\n'] + rest;
    lemma_find_char(all, '\n');
    let at = find_char(all, '\n') as int;
    assert(all[first.len() as int] == '\n');
    if at < first.len() {
        assert(first[at] == all[at]);
    }
    assert(all.take(at) =~= first);
    assert(all.skip(at + 1) =~= rest);
    lemma_find_char(first, '\n');
}

#[via_fn]
proof fn lines_decreases(s: Seq<char>) {
    lemma_find_char(s, '\n');
}

/// `s` without one trailing carriage return.
fn chomp_of(s: &str) -> (out: String)
    ensures
        out@ == chomp(s@),
{
    let chars = chars_of(s);
    let n: usize = chars.len();
    if n > 0 && chars[n - 1] == '\r' {
        let out = string_of(&chars, 0, n - 1);
        assert(out@ =~= s@.drop_last());
        out
    } else {
        s.to_owned()
    }
}

/// The lines of `s`.
pub fn lines_of(s: &str) -> (r: Vec<String>)
    ensures
        texts(r@) == lines(s@),
{
    let mut out: Vec<String> = Vec::new();
    let mut rest = s.to_owned();
    assert(texts(out@) =~= Seq::<Seq<char>>::empty());
    assert(texts(out@) + lines(rest@) =~= lines(s@));
    loop
        invariant_except_break
            texts(out@) + lines(rest@) == lines(s@),
        ensures
            texts(out@) == lines(s@),
        decreases rest@.len(),
    {
        if rest.as_str().is_empty() {
            assert(texts(out@) + lines(rest@) =~= texts(out@));
            break;
        }
        proof {
            lemma_find_char(rest@, '\n');
        }
        let ghost before = texts(out@);
        match split_once(rest.as_str(), '\n') {
            Some((first, tail)) => {
                let line = chomp_of(first.as_str());
                let ghost shown = line@;
                out.push(line);
                proof {
                    assert(texts(out@) =~= before.push(shown));
                    assert(before + (seq![shown] + lines(tail@)) =~= before.push(shown) + lines(
                        tail@,
                    ));
                }
                rest = tail;
            },
            None => {
                let ghost had = rest@;
                out.push(rest);
                proof {
                    assert(texts(out@) =~= before.push(had));
                    assert(before + seq![had] =~= before.push(had));
                }
                break;
            },
        }
    }
    out
}

// ---------------------------------------------------------------------------
// Order
// ---------------------------------------------------------------------------

/// Whether `a` comes before `b` in the order of code points.
pub open spec fn text_before(a: Seq<char>, b: Seq<char>) -> bool
    decreases a.len(),
{
    if b.len() == 0 {
        false
    } else if a.len() == 0 {
        true
    } else if a[0] == b[0] {
        text_before(a.skip(1), b.skip(1))
    } else {
        a[0] < b[0]
    }
}

/// The order of texts is a strict total order.
pub proof fn lemma_text_order(a: Seq<char>, b: Seq<char>, c: Seq<char>)
    ensures
        !text_before(a, a),
        text_before(a, b) ==> !text_before(b, a) && a != b,
        a != b ==> text_before(a, b) || text_before(b, a),
        text_before(a, b) && text_before(b, c) ==> text_before(a, c),
    decreases a.len() + b.len() + c.len(),
{
    if a.len() > 0 {
        if b.len() > 0 && c.len() > 0 {
            lemma_text_order(a.skip(1), b.skip(1), c.skip(1));
        } else if b.len() > 0 {
            lemma_text_order(a.skip(1), b.skip(1), c);
        } else {
            lemma_text_order(a.skip(1), b, c);
        }
        if b.len() > 0 && a[0] == b[0] && a.skip(1) == b.skip(1) {
            assert(a =~= seq![a[0]] + a.skip(1));
            assert(b =~= seq![b[0]] + b.skip(1));
        }
    } else if b.len() == 0 {
        assert(a =~= b);
    }
}

/// Whether `a` comes before `b` in the order of code points.
pub fn is_before(a: &str, b: &str) -> (r: bool)
    ensures
        r == text_before(a@, b@),
{
    let x = chars_of(a);
    let y = chars_of(b);
    let mut i: usize = 0;
    assert(a@.skip(0) =~= a@);
    assert(b@.skip(0) =~= b@);
    while i < x.len() && i < y.len() && x[i] == y[i]
        invariant
            i <= x@.len(),
            i <= y@.len(),
            x@ == a@,
            y@ == b@,
            text_before(a@, b@) == text_before(a@.skip(i as int), b@.skip(i as int)),
        decreases x.len() - i,
    {
        assert(a@.skip(i as int).skip(1) =~= a@.skip(i + 1));
        assert(b@.skip(i as int).skip(1) =~= b@.skip(i + 1));
        i = i + 1;
    }
    if i >= y.len() {
        false
    } else if i >= x.len() {
        true
    } else {
        x[i] < y[i]
    }
}

/// Whether every text comes before the ones after it.
pub open spec fn strictly_sorted(items: Seq<Seq<char>>) -> bool {
    forall|i: int, j: int|
        0 <= i < j < items.len() ==> text_before(#[trigger] items[i], #[trigger] items[j])
}

/// Puts a text in its place in a sorted list, unless it is there already.
pub fn insert_sorted(items: &mut Vec<String>, item: &str)
    requires
        strictly_sorted(texts(old(items)@)),
    ensures
        strictly_sorted(texts(final(items)@)),
        forall|t: Seq<char>|
            texts(final(items)@).contains(t) <==> texts(old(items)@).contains(t) || t == item@,
{
    let ghost before = texts(items@);
    let mut i: usize = 0;
    while i < items.len() && is_before(items[i].as_str(), item)
        invariant
            i <= items@.len(),
            items@ == old(items)@,
            before == texts(items@),
            strictly_sorted(before),
            forall|j: int| 0 <= j < i ==> text_before(#[trigger] before[j], item@),
        decreases items.len() - i,
    {
        assert(before[i as int] == items@[i as int]@);
        i = i + 1;
    }
    if i < items.len() && str_eq(items[i].as_str(), item) {
        assert(before[i as int] == item@);
        return;
    }
    proof {
        assert forall|j: int| i <= j < before.len() implies text_before(
            item@,
            #[trigger] before[j],
        ) by {
            assert(before[i as int] == items@[i as int]@);
            lemma_text_order(before[i as int], item@, item@);
            if j > i {
                lemma_text_order(item@, before[i as int], before[j]);
            }
        }
    }
    items.insert(i, item.to_owned());
    proof {
        let after = texts(items@);
        assert(after =~= before.insert(i as int, item@));
        assert forall|a: int, b: int| 0 <= a < b < after.len() implies text_before(
            #[trigger] after[a],
            #[trigger] after[b],
        ) by {
            if a < i && b < i {
                assert(text_before(before[a], before[b]));
            } else if a < i && b > i {
                assert(text_before(before[a], before[b - 1]));
            } else if a > i {
                assert(text_before(before[a - 1], before[b - 1]));
            } else if b == i {
                assert(text_before(before[a], item@));
            } else {
                assert(text_before(item@, before[b - 1]));
            }
        }
        assert forall|t: Seq<char>| after.contains(t) <==> before.contains(t) || t == item@ by {
            if after.contains(t) {
                let k = choose|k: int| 0 <= k < after.len() && after[k] == t;
                if k < i {
                    assert(before[k] == t);
                } else if k > i {
                    assert(before[k - 1] == t);
                }
            }
            if before.contains(t) {
                let k = choose|k: int| 0 <= k < before.len() && before[k] == t;
                if k < i {
                    assert(after[k] == t);
                } else {
                    assert(after[k + 1] == t);
                }
            }
            if t == item@ {
                assert(after[i as int] == t);
            }
        }
    }
}

} // verus!
