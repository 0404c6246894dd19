//! Character-level definitions shared by the parsers and formatters.

use vstd::prelude::*;
use vstd::string::*;

verus! {

/// `s` begins with `prefix`.
pub open spec fn starts_with(s: Seq<char>, prefix: Seq<char>) -> bool {
    prefix.len() <= s.len() && s.subrange(0, prefix.len() as int) == prefix
}

/// An ASCII decimal digit.
pub open spec fn is_digit(c: char) -> bool {
    '0' as int <= c as int && c as int <= '9' as int
}

/// The numeric value of an ASCII decimal digit.
pub open spec fn digit_value(c: char) -> nat {
    (c as int - '0' as int) as nat
}

/// The ASCII digit that stands for `d` (for `d < 10`).
pub open spec fn digit_char(d: nat) -> char {
    (d + '0' as int) as char
}

pub open spec fn all_digits(s: Seq<char>) -> bool {
    forall|i: int| 0 <= i < s.len() ==> is_digit(#[trigger] s[i])
}

/// The value of a run of decimal digits, most significant first.
pub open spec fn decimal_value(s: Seq<char>) -> nat
    decreases s.len(),
{
    if s.len() == 0 {
        0
    } else {
        decimal_value(s.drop_last()) * 10 + digit_value(s.last())
    }
}

/// The decimal representation of `n`, without leading zeros.
pub open spec fn decimal(n: nat) -> Seq<char>
    decreases n,
{
    if n < 10 {
        seq![digit_char(n)]
    } else {
        decimal(n / 10).push(digit_char(n % 10))
    }
}

/// Splits `s` into its longest prefix of digits and the rest.
pub open spec fn take_digits(s: Seq<char>) -> (Seq<char>, Seq<char>)
    decreases s.len(),
{
    if s.len() > 0 && is_digit(s[0]) {
        let (d, r) = take_digits(s.drop_first());
        (seq![s[0]] + d, r)
    } else {
        (Seq::empty(), s)
    }
}

/// `s` holds nothing, or starts with something other than a digit.
pub open spec fn starts_without_digit(s: Seq<char>) -> bool {
    s.len() == 0 || !is_digit(s[0])
}

pub proof fn lemma_digit_char(d: nat)
    requires
        d < 10,
    ensures
        is_digit(digit_char(d)),
        digit_value(digit_char(d)) == d,
{
}

pub proof fn lemma_decimal_digits(n: nat)
    ensures
        all_digits(decimal(n)),
        decimal(n).len() >= 1,
        decimal_value(decimal(n)) == n,
    decreases n,
{
    lemma_digit_char(n % 10);
    if n >= 10 {
        lemma_decimal_digits(n / 10);
        let d = decimal(n);
        assert(d.drop_last() =~= decimal(n / 10));
        assert(d.last() == digit_char(n % 10));
        assert(decimal_value(d) == (n / 10) * 10 + n % 10);
        assert((n / 10) * 10 + n % 10 == n);
        assert forall|i: int| 0 <= i < d.len() implies is_digit(#[trigger] d[i]) by {
            if i < d.len() - 1 {
                assert(d[i] == decimal(n / 10)[i]);
            }
        }
    } else {
        let d = decimal(n);
        assert(d =~= seq![digit_char(n)]);
        assert(d.drop_last() =~= Seq::<char>::empty());
        assert(decimal_value(d.drop_last()) == 0);
        assert(d.last() == digit_char(n));
        assert(digit_value(d.last()) == n);
        assert(decimal_value(d) == n);
    }
}

pub proof fn lemma_take_digits_shape(s: Seq<char>)
    ensures
        take_digits(s).0 + take_digits(s).1 == s,
        all_digits(take_digits(s).0),
        starts_without_digit(take_digits(s).1),
    decreases s.len(),
{
    if s.len() > 0 && is_digit(s[0]) {
        lemma_take_digits_shape(s.drop_first());
        let (d, r) = take_digits(s.drop_first());
        assert(d + r == s.drop_first());
        assert(seq![s[0]] + d + r =~= seq![s[0]] + s.drop_first());
        assert(seq![s[0]] + s.drop_first() =~= s);
        let dd = seq![s[0]] + d;
        assert forall|i: int| 0 <= i < dd.len() implies is_digit(#[trigger] dd[i]) by {
            if i > 0 {
                assert(dd[i] == d[i - 1]);
            }
        }
    }
}

/// Taking the digits of a run of digits followed by a non-digit gives them back.
pub proof fn lemma_take_digits_concat(ds: Seq<char>, rest: Seq<char>)
    requires
        all_digits(ds),
        starts_without_digit(rest),
    ensures
        take_digits(ds + rest) == (ds, rest),
    decreases ds.len(),
{
    if ds.len() == 0 {
        assert(ds + rest =~= rest);
    } else {
        let s = ds + rest;
        assert(s[0] == ds[0]);
        assert(s.drop_first() =~= ds.drop_first() + rest);
        assert(all_digits(ds.drop_first())) by {
            assert forall|i: int| 0 <= i < ds.drop_first().len() implies is_digit(
                #[trigger] ds.drop_first()[i],
            ) by {
                assert(ds.drop_first()[i] == ds[i + 1]);
            }
        }
        lemma_take_digits_concat(ds.drop_first(), rest);
        assert(seq![ds[0]] + ds.drop_first() =~= ds);
    }
}

/// Stepping over the first character of a run of digits.
pub proof fn lemma_take_digits_step(s: Seq<char>, i: int)
    requires
        0 <= i < s.len(),
        is_digit(s[i]),
    ensures
        take_digits(s.skip(i)).0 == seq![s[i]] + take_digits(s.skip(i + 1)).0,
        take_digits(s.skip(i)).1 == take_digits(s.skip(i + 1)).1,
{
    assert(s.skip(i).drop_first() =~= s.skip(i + 1));
}

/// The value of a digit run extended by one digit.
pub proof fn lemma_decimal_value_push(s: Seq<char>, c: char)
    ensures
        decimal_value(s.push(c)) == decimal_value(s) * 10 + digit_value(c),
{
    assert(s.push(c).drop_last() =~= s);
}

/// The one-character text of the digit `d`.
pub fn digit_str(d: u32) -> (r: &'static str)
    requires
        d < 10,
    ensures
        r@ == seq![digit_char(d as nat)],
{
    proof {
        reveal_strlit("0");
        reveal_strlit("1");
        reveal_strlit("2");
        reveal_strlit("3");
        reveal_strlit("4");
        reveal_strlit("5");
        reveal_strlit("6");
        reveal_strlit("7");
        reveal_strlit("8");
        reveal_strlit("9");
    }
    match d {
        0 => "0",
        1 => "1",
        2 => "2",
        3 => "3",
        4 => "4",
        5 => "5",
        6 => "6",
        7 => "7",
        8 => "8",
        _ => "9",
    }
}

/// Appends the decimal text of `n` to `buf`.
pub fn push_decimal(buf: &mut String, n: u64)
    ensures
        final(buf)@ == old(buf)@ + decimal(n as nat),
    decreases n,
{
    if n >= 10 {
        push_decimal(buf, n / 10);
    }
    buf.append(digit_str((n % 10) as u32));
    proof {
        if n >= 10 {
            assert(decimal(n as nat) == decimal((n / 10) as nat).push(digit_char((n % 10) as nat)));
        }
    }
    assert(final(buf)@ =~= old(buf)@ + decimal(n as nat));
}

/// `x` is `n` when `n` fits in a `u32`, and above `u32::MAX` otherwise.
pub open spec fn capped(x: u64, n: nat) -> bool {
    &&& n <= u32::MAX ==> x == n
    &&& n > u32::MAX ==> x > u32::MAX
}

/// Reads a run of digits of `chars` from `start`. Gives the index after it, and its value, which
/// is exact when it fits in a `u32` and above `u32::MAX` otherwise.
pub fn scan_digits(chars: &Vec<char>, start: usize) -> (res: (usize, u64))
    requires
        start <= chars@.len(),
    ensures
        start <= res.0 <= chars@.len(),
        res.0 - start == take_digits(chars@.skip(start as int)).0.len(),
        take_digits(chars@.skip(start as int)).0 == chars@.subrange(start as int, res.0 as int),
        take_digits(chars@.skip(start as int)).1 == chars@.skip(res.0 as int),
        decimal_value(chars@.subrange(start as int, res.0 as int)) <= u32::MAX ==> res.1
            == decimal_value(chars@.subrange(start as int, res.0 as int)),
        decimal_value(chars@.subrange(start as int, res.0 as int)) > u32::MAX ==> res.1
            > u32::MAX,
{
    let mut i = start;
    let mut value: u64 = 0;
    let ghost s = chars@;
    while i < chars.len() && '0' <= chars[i] && chars[i] <= '9'
        invariant
            s == chars@,
            start <= i <= s.len(),
            all_digits(s.subrange(start as int, i as int)),
            take_digits(s.skip(start as int)).0 == s.subrange(start as int, i as int) + take_digits(
                s.skip(i as int),
            ).0,
            take_digits(s.skip(start as int)).1 == take_digits(s.skip(i as int)).1,
            value <= 42949672959,
            decimal_value(s.subrange(start as int, i as int)) <= u32::MAX ==> value
                == decimal_value(s.subrange(start as int, i as int)),
            decimal_value(s.subrange(start as int, i as int)) > u32::MAX ==> value > u32::MAX,
        decreases s.len() - i,
    {
        let c = chars[i];
        let d = (c as u32 - '0' as u32) as u64;
        proof {
            lemma_take_digits_step(s, i as int);
            assert(s.subrange(start as int, i as int + 1) =~= s.subrange(start as int, i as int).push(c));
            lemma_decimal_value_push(s.subrange(start as int, i as int), c);
            assert(s.subrange(start as int, i as int) + (seq![c] + take_digits(s.skip(i + 1)).0)
                =~= s.subrange(start as int, i as int + 1) + take_digits(s.skip(i + 1)).0);
        }
        if value <= 4294967295 {
            value = value * 10 + d;
        }
        i = i + 1;
    }
    proof {
        assert(take_digits(s.skip(i as int)).0 =~= Seq::<char>::empty());
        assert(s.subrange(start as int, i as int) + Seq::<char>::empty() =~= s.subrange(start as int, i as int));
    }
    (i, value)
}

/// The characters of a text, one by one.
pub fn chars_of(s: &str) -> (v: Vec<char>)
    ensures
        v@ == s@,
{
    let n = s.unicode_len();
    let mut v: Vec<char> = Vec::new();
    let mut i: usize = 0;
    while i < n
        invariant
            n == s@.len(),
            i <= n,
            v@ == s@.subrange(0, i as int),
        decreases n - i,
    {
        let c = s.get_char(i);
        v.push(c);
        proof {
            assert(s@.subrange(0, i as int + 1) =~= s@.subrange(0, i as int).push(c));
        }
        i = i + 1;
    }
    proof {
        assert(s@.subrange(0, n as int) =~= s@);
    }
    v
}

/// The number that `str::parse` reads into an unsigned integer type, before the range check:
/// an optional `+`, then one or more ASCII digits, and nothing else.
pub open spec fn parse_unsigned(s: Seq<char>) -> Option<nat> {
    let t = if s.len() > 0 && s[0] == '+' {
        s.drop_first()
    } else {
        s
    };
    if t.len() > 0 && all_digits(t) {
        Some(decimal_value(t))
    } else {
        None
    }
}

/// Reads an unsigned number from `s` as [`parse_unsigned`] does, capped as [`capped`] says.
pub fn scan_unsigned(s: &str) -> (res: Option<u64>)
    ensures
        res is Some <==> parse_unsigned(s@) is Some,
        res matches Some(x) ==> capped(x, parse_unsigned(s@)->0),
{
    let chars = chars_of(s);
    let ghost c = chars@;
    let start: usize = if chars.len() > 0 && chars[0] == '+' {
        1
    } else {
        0
    };
    proof {
        if start == 1 {
            assert(c.drop_first() =~= c.skip(1));
        } else {
            assert(c =~= c.skip(0));
        }
    }
    let (end, value) = scan_digits(&chars, start);
    proof {
        lemma_take_digits_shape(c.skip(start as int));
        assert(c.skip(start as int) =~= c.subrange(start as int, end as int) + c.skip(end as int));
    }
    if end == start || end != chars.len() {
        proof {
            let t = c.skip(start as int);
            if t.len() > 0 && all_digits(t) {
                if end == start {
                    assert(is_digit(t[0]));
                    assert(t[0] == c.skip(end as int)[0]);
                } else {
                    assert(t[end - start] == c.skip(end as int)[0]);
                }
            }
        }
        return None;
    }
    proof {
        assert(c.skip(end as int) =~= Seq::<char>::empty());
        assert(c.skip(start as int) =~= c.subrange(start as int, end as int));
    }
    Some(value)
}

/// The largest `u16`, as a `u64`.
const U16_LIMIT: u64 = 65535;

/// The largest `u32`, as a `u64`.
const U32_LIMIT: u64 = 4294967295;

/// Reads a `u16` as `str::parse::<u16>` does: `None` where that gives an error.
pub fn parse_u16(s: &str) -> (res: Option<u16>)
    ensures
        res == match parse_unsigned(s@) {
            Some(n) if n <= u16::MAX => Some(n as u16),
            _ => None::<u16>,
        },
{
    match scan_unsigned(s) {
        Some(x) if x <= U16_LIMIT => Some(x as u16),
        _ => None,
    }
}

/// Reads a `u32` as `str::parse::<u32>` does: `None` where that gives an error.
pub fn parse_u32(s: &str) -> (res: Option<u32>)
    ensures
        res == match parse_unsigned(s@) {
            Some(n) if n <= u32::MAX => Some(n as u32),
            _ => None::<u32>,
        },
{
    match scan_unsigned(s) {
        Some(x) if x <= U32_LIMIT => Some(x as u32),
        _ => None,
    }
}

/// Where the line that starts at `j` ends: the index of the next `\n`, or the length of `s`.
pub open spec fn line_end(s: Seq<char>, j: int) -> int
    decreases s.len() - j,
{
    if j >= s.len() {
        s.len() as int
    } else if s[j] == '\n' {
        j
    } else {
        line_end(s, j + 1)
    }
}

pub proof fn lemma_line_end(s: Seq<char>, j: int)
    requires
        0 <= j <= s.len(),
    ensures
        j <= line_end(s, j) <= s.len(),
        line_end(s, j) < s.len() ==> s[line_end(s, j)] == '\n',
        forall|k: int| j <= k < line_end(s, j) ==> s[k] != '\n',
    decreases s.len() - j,
{
    if j < s.len() && s[j] != '\n' {
        lemma_line_end(s, j + 1);
    }
}

/// A line without the `\r` of a `\r\n` line ending.
pub open spec fn strip_cr(line: Seq<char>) -> Seq<char> {
    if line.len() > 0 && line.last() == '\r' {
        line.drop_last()
    } else {
        line
    }
}

/// The lines of `s` from index `j` on, as `str::lines` gives them: split at `\n` or `\r\n`,
/// without the line endings, the final line ending optional.
pub open spec fn lines_from(s: Seq<char>, j: int) -> Seq<Seq<char>>
    decreases s.len() - j,
{
    if j < 0 || j >= s.len() {
        Seq::empty()
    } else {
        let e = line_end(s, j);
        proof {
            lemma_line_end(s, j);
        }
        if e < s.len() {
            seq![strip_cr(s.subrange(j, e))] + lines_from(s, e + 1)
        } else {
            seq![s.subrange(j, e)]
        }
    }
}

/// The lines of a text, as `str::lines` gives them.
pub open spec fn lines(s: Seq<char>) -> Seq<Seq<char>> {
    lines_from(s, 0)
}

/// Compares two texts character by character.
pub fn texts_equal(a: &str, b: &str) -> (res: bool)
    ensures
        res == (a@ == b@),
{
    let x = chars_of(a);
    let y = chars_of(b);
    if x.len() != y.len() {
        return false;
    }
    let mut i: usize = 0;
    while i < x.len()
        invariant
            x@ == a@,
            y@ == b@,
            x@.len() == y@.len(),
            i <= x@.len(),
            forall|k: int| 0 <= k < i ==> #[trigger] x@[k] == y@[k],
        decreases x@.len() - i,
    {
        if x[i] != y[i] {
            return false;
        }
        i = i + 1;
    }
    proof {
        assert(a@ =~= b@);
    }
    true
}

/// The code of a character with ASCII upper case letters turned to lower case.
pub open spec fn lower_code(c: char) -> u32 {
    if 'A' as u32 <= c as u32 && c as u32 <= 'Z' as u32 {
        (c as u32 + 32) as u32
    } else {
        c as u32
    }
}

/// A text with ASCII upper case letters turned to lower case, as character codes.
pub open spec fn ascii_lower(s: Seq<char>) -> Seq<u32> {
    s.map_values(|c: char| lower_code(c))
}

/// Two texts are equal when ASCII letters are compared without regard to case.
pub open spec fn same_ignoring_ascii_case(a: Seq<char>, b: Seq<char>) -> bool {
    ascii_lower(a) == ascii_lower(b)
}

/// The code of `c`, with ASCII upper case letters turned to lower case.
fn lower_code_of(c: char) -> (code: u32)
    ensures
        code == lower_code(c),
{
    let n = c as u32;
    if 65 <= n && n <= 90 {
        n + 32
    } else {
        n
    }
}

/// Compares two texts as `str::eq_ignore_ascii_case` does: equal when ASCII letters are compared
/// without regard to case.
pub fn eq_ignore_ascii_case(a: &str, b: &str) -> (res: bool)
    ensures
        res == same_ignoring_ascii_case(a@, b@),
{
    let x = chars_of(a);
    let y = chars_of(b);
    if x.len() != y.len() {
        proof {
            assert(ascii_lower(a@).len() != ascii_lower(b@).len());
        }
        return false;
    }
    let mut i: usize = 0;
    while i < x.len()
        invariant
            x@ == a@,
            y@ == b@,
            x@.len() == y@.len(),
            i <= x@.len(),
            forall|k: int| 0 <= k < i ==> lower_code(#[trigger] x@[k]) == lower_code(y@[k]),
        decreases x@.len() - i,
    {
        if lower_code_of(x[i]) != lower_code_of(y[i]) {
            proof {
                assert(ascii_lower(a@)[i as int] != ascii_lower(b@)[i as int]);
            }
            return false;
        }
        i = i + 1;
    }
    proof {
        assert(ascii_lower(a@) =~= ascii_lower(b@));
    }
    true
}

} // verus!

verus! {

/// `needle` occurs in `text` starting at position `i`.
pub open spec fn occurs_at(text: Seq<char>, needle: Seq<char>, i: int) -> bool {
    0 <= i && i + needle.len() <= text.len() && text.subrange(i, i + needle.len()) == needle
}

/// `needle` occurs somewhere in `text`, as `str::contains` finds it.
pub open spec fn occurs(text: Seq<char>, needle: Seq<char>) -> bool {
    exists|i: int| occurs_at(text, needle, i)
}

/// Whether `needle` matches `text` at position `i`, character by character.
pub(crate) fn matches_at(text: &Vec<char>, needle: &Vec<char>, i: usize) -> (res: bool)
    requires
        i + needle@.len() <= text@.len(),
        text@.len() <= usize::MAX,
    ensures
        res == occurs_at(text@, needle@, i as int),
{
    let mut k: usize = 0;
    while k < needle.len()
        invariant
            i + needle@.len() <= text@.len(),
            text@.len() <= usize::MAX,
            k <= needle@.len(),
            forall|m: int| 0 <= m < k ==> #[trigger] text@[i + m] == needle@[m],
        decreases needle@.len() - k,
    {
        let at = i + k;
        if text[at] != needle[k] {
            proof {
                assert(text@.subrange(i as int, i + needle@.len())[k as int] != needle@[k as int]);
            }
            return false;
        }
        k = k + 1;
    }
    proof {
        assert forall|m: int| 0 <= m < needle@.len() implies #[trigger] text@.subrange(
            i as int,
            i + needle@.len(),
        )[m] == needle@[m] by {
            assert(text@[i + m] == needle@[m]);
        }
        assert(text@.subrange(i as int, i + needle@.len()) =~= needle@);
    }
    true
}

/// Whether `needle` occurs in `text`.
pub fn contains_text(text: &str, needle: &str) -> (res: bool)
    ensures
        res == occurs(text@, needle@),
{
    let t = chars_of(text);
    let n = chars_of(needle);
    if n.len() > t.len() {
        return false;
    }
    let last = t.len() - n.len();
    let mut i: usize = 0;
    loop
        invariant
            t@ == text@,
            n@ == needle@,
            last == t@.len() - n@.len(),
            t@.len() <= usize::MAX,
            i <= last,
            forall|j: int| 0 <= j < i ==> !#[trigger] occurs_at(text@, needle@, j),
        ensures
            forall|j: int| 0 <= j <= last ==> !#[trigger] occurs_at(text@, needle@, j),
        decreases last - i,
    {
        if matches_at(&t, &n, i) {
            return true;
        }
        if i == last {
            break;
        }
        i = i + 1;
    }
    proof {
        assert forall|j: int| !#[trigger] occurs_at(text@, needle@, j) by {
            if 0 <= j && j <= last {
            }
        }
    }
    false
}

} // verus!

verus! {

/// The decimal text of a signed number: a `-` before the digits of a negative one.
pub open spec fn signed_decimal(n: int) -> Seq<char> {
    if n < 0 {
        "-"@ + decimal((-n) as nat)
    } else {
        decimal(n as nat)
    }
}

/// Appends the decimal text of a signed number.
pub fn push_signed(buf: &mut String, n: i32)
    ensures
        final(buf)@ == old(buf)@ + signed_decimal(n as int),
{
    if n < 0 {
        buf.append("-");
        let magnitude: i64 = -(n as i64);
        push_decimal(buf, magnitude as u64);
    } else {
        push_decimal(buf, n as u64);
    }
    proof {
        assert(final(buf)@ =~= old(buf)@ + signed_decimal(n as int)) by {
            reveal_strlit("-");
        }
    }
}

} // verus!

verus! {

/// `text` with every occurrence of `from` replaced by `to`, taken from left to right without
/// overlap, as `str::replace` does.
pub open spec fn replaced(text: Seq<char>, from: Seq<char>, to: Seq<char>) -> Seq<char>
    recommends
        from.len() > 0,
    decreases text.len(),
{
    if from.len() == 0 || text.len() < from.len() {
        text
    } else if text.take(from.len() as int) == from {
        to + replaced(text.skip(from.len() as int), from, to)
    } else {
        seq![text[0]] + replaced(text.skip(1), from, to)
    }
}

/// Replaces every occurrence of `from` in `text` by `to`.
pub fn replace_all(text: &str, from: &str, to: &str) -> (res: String)
    requires
        from@.len() > 0,
    ensures
        res@ == replaced(text@, from@, to@),
{
    let t = chars_of(text);
    let f = chars_of(from);
    let n = t.len();
    let m = f.len();
    let mut out = String::new();
    let mut i: usize = 0;
    proof {
        assert(text@.skip(0) =~= text@);
        assert(out@ + text@ =~= text@);
        assert(out@ + replaced(text@, from@, to@) =~= replaced(text@, from@, to@));
    }
    while i < n
        invariant
            t@ == text@,
            f@ == from@,
            n == t@.len(),
            m == f@.len(),
            m > 0,
            i <= n,
            out@ + replaced(text@.skip(i as int), from@, to@) == replaced(text@, from@, to@),
        decreases n - i,
    {
        let ghost rest = text@.skip(i as int);
        if m <= n - i && matches_at(&t, &f, i) {
            proof {
                assert(rest.take(m as int) =~= text@.subrange(i as int, i + m));
                assert(rest.skip(m as int) =~= text@.skip(i + m));
                assert(out@ + to@ + replaced(text@.skip(i + m), from@, to@) =~= out@ + replaced(rest, from@, to@));
            }
            out.append(to);
            i = i + m;
        } else {
            let c = text.substring_char(i, i + 1);
            proof {
                if m <= n - i {
                    assert(rest.take(m as int) =~= text@.subrange(i as int, i + m));
                }
                assert(rest.skip(1) =~= text@.skip(i + 1));
                assert(c@ =~= seq![rest[0]]);
                assert(out@ + c@ + replaced(text@.skip(i + 1), from@, to@) =~= out@ + replaced(rest, from@, to@));
            }
            out.append(c);
            i = i + 1;
        }
    }
    proof {
        assert(text@.skip(i as int) =~= Seq::<char>::empty());
        assert(out@ + Seq::<char>::empty() =~= out@);
    }
    out
}

} // verus!

verus! {

/// The texts of a list of strings.
pub open spec fn line_texts(lines: Seq<String>) -> Seq<Seq<char>> {
    lines.map_values(|l: String| l@)
}

/// `lines_from` at a line that does not end the text: the line, then the lines after it.
proof fn lemma_lines_from_step(s: Seq<char>, j: int)
    requires
        0 <= j < s.len(),
    ensures
        line_end(s, j) < s.len() ==> lines_from(s, j) == seq![
            strip_cr(s.subrange(j, line_end(s, j))),
        ] + lines_from(s, line_end(s, j) + 1),
        line_end(s, j) >= s.len() ==> lines_from(s, j) == seq![s.subrange(j, line_end(s, j))],
{
    lemma_line_end(s, j);
}

/// The lines of a text, as `str::lines` gives them.
pub fn lines_of(text: &str) -> (out: Vec<String>)
    ensures
        line_texts(out@) == lines(text@),
{
    let chars = chars_of(text);
    let n = chars.len();
    let ghost s = text@;
    let mut out: Vec<String> = Vec::new();
    let mut j: usize = 0;
    proof {
        assert(line_texts(out@) =~= Seq::<Seq<char>>::empty());
        assert(Seq::<Seq<char>>::empty() + lines_from(s, 0) =~= lines_from(s, 0));
    }
    while j < n
        invariant
            chars@ == s,
            s == text@,
            n == s.len(),
            j <= n,
            line_texts(out@) + lines_from(s, j as int) == lines(s),
        decreases n - j,
    {
        let e = crate::package::server::properties::scan_line_end(&chars, j);
        proof {
            lemma_lines_from_step(s, j as int);
            lemma_line_end(s, j as int);
        }
        let ghost before = line_texts(out@);
        if e < n {
            let line = if e > j && chars[e - 1] == '\r' {
                text.substring_char(j, e - 1)
            } else {
                text.substring_char(j, e)
            };
            proof {
                assert(line@ =~= strip_cr(s.subrange(j as int, e as int)));
            }
            out.push(line.to_owned());
            proof {
                assert(line_texts(out@) =~= before.push(line@));
                assert(before.push(line@) + lines_from(s, e + 1) =~= before + (seq![line@] + lines_from(s, e + 1)));
            }
            j = e + 1;
        } else {
            let line = text.substring_char(j, e);
            out.push(line.to_owned());
            proof {
                assert(line_texts(out@) =~= before.push(line@));
                assert(lines_from(s, e as int) =~= Seq::<Seq<char>>::empty());
                assert(before.push(line@) + lines_from(s, e as int) =~= before + seq![line@]);
            }
            j = e;
        }
    }
    proof {
        assert(lines_from(s, j as int) =~= Seq::<Seq<char>>::empty());
        assert(line_texts(out@) + Seq::<Seq<char>>::empty() =~= line_texts(out@));
    }
    out
}

} // verus!

verus! {

/// Law: a text in which `from` does not occur is left as it is by replacing `from`.
pub proof fn law_replace_without_occurrence(text: Seq<char>, from: Seq<char>, to: Seq<char>)
    requires
        from.len() > 0,
        !occurs(text, from),
    ensures
        replaced(text, from, to) == text,
    decreases text.len(),
{
    if text.len() >= from.len() {
        assert(text.take(from.len() as int) != from) by {
            assert(text.subrange(0, from.len() as int) == text.take(from.len() as int));
            if text.take(from.len() as int) == from {
                assert(occurs_at(text, from, 0));
            }
        }
        let rest = text.skip(1);
        assert(!occurs(rest, from)) by {
            if occurs(rest, from) {
                let i = choose|i: int| occurs_at(rest, from, i);
                assert(text.subrange(i + 1, i + 1 + from.len()) =~= rest.subrange(i, i + from.len()));
                assert(occurs_at(text, from, i + 1));
            }
        }
        law_replace_without_occurrence(rest, from, to);
        assert(seq![text[0]] + rest =~= text);
    }
}

/// Law: where `from` starts the text, replacing puts `to` in its place and goes on after it.
pub proof fn law_replace_at_start(text: Seq<char>, from: Seq<char>, to: Seq<char>)
    requires
        from.len() > 0,
        starts_with(text, from),
    ensures
        replaced(text, from, to) == to + replaced(text.skip(from.len() as int), from, to),
{
    assert(text.take(from.len() as int) =~= text.subrange(0, from.len() as int));
}

} // verus!
