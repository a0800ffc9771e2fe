//! Text handling: trimming, searching, replacing, and decimal numbers.
//!
//! Every function here works on the characters of its argument (`s@`, a
//! `Seq<char>`), never on bytes.

use vstd::prelude::*;

verus! {

/// An optional text by its characters.
pub open spec fn chars_or_none(s: Option<String>) -> Option<Seq<char>> {
    match s {
        Some(chars) => Some(chars@),
        None => None,
    }
}

/// The characters with the Unicode property `White_Space`.
pub open spec fn is_white_space(c: char) -> bool {
    let n = c as u32;
    ||| 0x09 <= n <= 0x0d
    ||| n == 0x20
    ||| n == 0x85
    ||| n == 0xa0
    ||| n == 0x1680
    ||| 0x2000 <= n <= 0x200a
    ||| n == 0x2028
    ||| n == 0x2029
    ||| n == 0x202f
    ||| n == 0x205f
    ||| n == 0x3000
}

/// `s` without the white space it starts with.
pub open spec fn trimmed_start(s: Seq<char>) -> Seq<char>
    decreases s.len(),
{
    if s.len() > 0 && is_white_space(s.first()) {
        trimmed_start(s.drop_first())
    } else {
        s
    }
}

/// `s` without the white space it ends with.
pub open spec fn trimmed_end(s: Seq<char>) -> Seq<char>
    decreases s.len(),
{
    if s.len() > 0 && is_white_space(s.last()) {
        trimmed_end(s.drop_last())
    } else {
        s
    }
}

/// `s` without the white space it starts or ends with.
pub open spec fn trimmed(s: Seq<char>) -> Seq<char> {
    trimmed_end(trimmed_start(s))
}

/// `s` without the copies of `c` it ends with.
pub open spec fn without_trailing(s: Seq<char>, c: char) -> Seq<char>
    decreases s.len(),
{
    if s.len() > 0 && s.last() == c {
        without_trailing(s.drop_last(), c)
    } else {
        s
    }
}

/// What follows the last `c` in `s`: all of `s` where `c` does not occur.
pub open spec fn after_last(s: Seq<char>, c: char) -> Seq<char>
    decreases s.len(),
{
    if s.len() == 0 || s.last() == c {
        Seq::empty()
    } else {
        after_last(s.drop_last(), c).push(s.last())
    }
}

/// `pattern` stands in `s` at position `at`.
pub open spec fn occurs_at(s: Seq<char>, pattern: Seq<char>, at: int) -> bool {
    &&& 0 <= at <= s.len() - pattern.len()
    &&& s.subrange(at, at + pattern.len()) == pattern
}

/// `pattern` stands somewhere in `s`.
pub open spec fn occurs(s: Seq<char>, pattern: Seq<char>) -> bool {
    exists|at: int| occurs_at(s, pattern, at)
}

/// `s` with each occurrence of `pattern`, taken from the left, replaced by `with`.
pub open spec fn replaced(s: Seq<char>, pattern: Seq<char>, with: Seq<char>) -> Seq<char>
    recommends
        pattern.len() > 0,
    decreases s.len(),
{
    if pattern.len() == 0 || s.len() < pattern.len() {
        s
    } else if s.take(pattern.len() as int) == pattern {
        with + replaced(s.skip(pattern.len() as int), pattern, with)
    } else {
        seq![s[0]] + replaced(s.skip(1), pattern, with)
    }
}

/// The decimal digit with the value `d`.
pub open spec fn digit(d: nat) -> char {
    (48 + d) as char
}

/// `c` is one of the ten decimal digits of ASCII.
pub open spec fn is_digit(c: char) -> bool {
    48 <= c as u32 <= 57
}

/// The decimal digits of `n`, without leading zeros.
pub open spec fn decimal(n: nat) -> Seq<char>
    decreases n,
{
    if n < 10 {
        seq![digit(n)]
    } else {
        decimal(n / 10).push(digit(n % 10))
    }
}

/// Every character of `s` is a decimal digit.
pub open spec fn all_digits(s: Seq<char>) -> bool {
    forall|i: int| 0 <= i < s.len() ==> is_digit(#[trigger] s[i])
}

/// The number that the digits of `s` write.
pub open spec fn digits_value(s: Seq<char>) -> nat
    decreases s.len(),
{
    if s.len() == 0 {
        0
    } else {
        digits_value(s.drop_last()) * 10 + (s.last() as u32 - 48) as nat
    }
}

/// `s` without one leading plus sign.
pub open spec fn without_plus(s: Seq<char>) -> Seq<char> {
    if s.len() > 0 && s[0] == '+' {
        s.skip(1)
    } else {
        s
    }
}

/// The number that `s` writes: an optional plus sign and then one or more
/// digits, of a value that fits in 64 bits. Anything else is no number.
pub open spec fn parsed_u64(s: Seq<char>) -> Option<u64> {
    let digits = without_plus(s);
    if digits.len() > 0 && all_digits(digits) && digits_value(digits) <= u64::MAX {
        Some(digits_value(digits) as u64)
    } else {
        None
    }
}

/// Whether `c` has the Unicode property `White_Space`.
pub fn white_space(c: char) -> (res: bool)
    ensures
        res == is_white_space(c),
{
    let n: u32 = c as u32;
    (0x09 <= n && n <= 0x0d) || n == 0x20 || n == 0x85 || n == 0xa0 || n == 0x1680 || (0x2000 <= n
        && n <= 0x200a) || n == 0x2028 || n == 0x2029 || n == 0x202f || n == 0x205f || n == 0x3000
}

/// The characters of `s`, in order.
pub(crate) fn chars_of(s: &str) -> (chars: Vec<char>)
    ensures
        chars@ == s@,
{
    let mut chars: Vec<char> = Vec::new();
    for c in iter: s.chars()
        invariant
            iter.seq() == s@,
            chars@ == iter.seq().take(iter.index() as int),
    {
        chars.push(c);
    }
    chars
}

proof fn lemma_trimmed_start_is_suffix(s: Seq<char>, from: int)
    requires
        0 <= from <= s.len(),
        forall|i: int| 0 <= i < from ==> is_white_space(#[trigger] s[i]),
        from < s.len() ==> !is_white_space(s[from]),
    ensures
        trimmed_start(s) == s.skip(from),
    decreases from,
{
    if from > 0 {
        assert(is_white_space(s[0]));
        let rest = s.drop_first();
        assert forall|i: int| 0 <= i < from - 1 implies is_white_space(#[trigger] rest[i]) by {
            assert(rest[i] == s[i + 1]);
        }
        lemma_trimmed_start_is_suffix(rest, from - 1);
        assert(rest.skip(from - 1) == s.skip(from));
    } else {
        assert(s.skip(0) == s);
    }
}

proof fn lemma_trimmed_end_is_prefix(s: Seq<char>, to: int)
    requires
        0 <= to <= s.len(),
        forall|i: int| to <= i < s.len() ==> is_white_space(#[trigger] s[i]),
        to > 0 ==> !is_white_space(s[to - 1]),
    ensures
        trimmed_end(s) == s.take(to),
    decreases s.len() - to,
{
    if to < s.len() {
        assert(is_white_space(s[s.len() - 1]));
        let rest = s.drop_last();
        lemma_trimmed_end_is_prefix(rest, to);
        assert(rest.take(to) == s.take(to));
    } else {
        assert(s.take(to) == s);
    }
}

/// The part of `s` between its leading and its trailing white space.
pub fn trim(s: &str) -> (res: &str)
    ensures
        res@ == trimmed(s@),
{
    let chars: Vec<char> = chars_of(s);
    let mut from: usize = 0;
    while from < chars.len() && white_space(chars[from])
        invariant
            chars@ == s@,
            from <= chars.len(),
            forall|i: int| 0 <= i < from ==> is_white_space(#[trigger] chars@[i]),
        decreases chars.len() - from,
    {
        from = from + 1;
    }
    let mut to: usize = chars.len();
    while from < to && white_space(chars[to - 1])
        invariant
            chars@ == s@,
            from <= to <= chars.len(),
            forall|i: int| to <= i < chars.len() ==> is_white_space(#[trigger] chars@[i]),
        decreases to,
    {
        to = to - 1;
    }
    proof {
        lemma_trimmed_start_is_suffix(s@, from as int);
        let rest = s@.skip(from as int);
        assert forall|i: int| to - from <= i < rest.len() implies is_white_space(
            #[trigger] rest[i],
        ) by {
            assert(rest[i] == chars@[i + from]);
        }
        lemma_trimmed_end_is_prefix(rest, to - from);
        assert(rest.take(to - from) == s@.subrange(from as int, to as int));
    }
    s.substring_char(from, to)
}

/// The part of `s` before the copies of `c` that it ends with.
pub fn trim_end_matches(s: &str, c: char) -> (res: &str)
    ensures
        res@ == without_trailing(s@, c),
{
    let chars: Vec<char> = chars_of(s);
    let mut to: usize = chars.len();
    assert(s@.take(to as int) == s@);
    while 0 < to && chars[to - 1] == c
        invariant
            chars@ == s@,
            to <= chars.len(),
            without_trailing(s@.take(to as int), c) == without_trailing(s@, c),
        decreases to,
    {
        assert(s@.take(to as int).drop_last() == s@.take(to - 1));
        to = to - 1;
    }
    s.substring_char(0, to)
}

/// The part of `s` after the last `c`, all of `s` where there is none.
pub fn last_part(s: &str, c: char) -> (res: &str)
    ensures
        res@ == after_last(s@, c),
{
    let chars: Vec<char> = chars_of(s);
    let mut from: usize = chars.len();
    assert(s@.take(from as int) == s@);
    assert(s@.skip(from as int) == Seq::<char>::empty());
    while 0 < from && chars[from - 1] != c
        invariant
            chars@ == s@,
            from <= chars.len(),
            after_last(s@, c) == after_last(s@.take(from as int), c) + s@.skip(from as int),
        decreases from,
    {
        assert(s@.take(from as int).drop_last() == s@.take(from - 1));
        assert(s@.skip(from - 1) == seq![s@[from - 1]] + s@.skip(from as int));
        from = from - 1;
    }
    let ghost rest = s@.take(from as int);
    assert(after_last(rest, c) == Seq::<char>::empty());
    assert(s@.skip(from as int) == s@.subrange(from as int, s@.len() as int));
    s.substring_char(from, chars.len())
}

/// Whether the two texts hold the same characters.
pub fn same_text(a: &str, b: &str) -> (res: bool)
    ensures
        res == (a@ == b@),
{
    let left: Vec<char> = chars_of(a);
    let right: Vec<char> = chars_of(b);
    if left.len() != right.len() {
        return false;
    }
    let mut i: usize = 0;
    while i < left.len()
        invariant
            left@ == a@,
            right@ == b@,
            left.len() == right.len(),
            i <= left.len(),
            forall|j: int| 0 <= j < i ==> left@[j] == right@[j],
        decreases left.len() - i,
    {
        if left[i] != right[i] {
            return false;
        }
        i = i + 1;
    }
    assert(a@ =~= b@);
    true
}

/// Whether `pattern` stands in `chars` at position `at`.
fn stands_at(chars: &Vec<char>, pattern: &Vec<char>, at: usize) -> (res: bool)
    requires
        at <= chars.len(),
    ensures
        res == occurs_at(chars@, pattern@, at as int),
{
    if pattern.len() > chars.len() - at {
        return false;
    }
    let mut i: usize = 0;
    while i < pattern.len()
        invariant
            at + pattern.len() <= chars.len(),
            i <= pattern.len(),
            forall|j: int| 0 <= j < i ==> chars@[at + j] == #[trigger] pattern@[j],
        decreases pattern.len() - i,
    {
        if chars[at + i] != pattern[i] {
            assert(chars@.subrange(at as int, at + pattern.len())[i as int] != pattern@[i as int]);
            return false;
        }
        i = i + 1;
    }
    assert(chars@.subrange(at as int, at + pattern.len()) == pattern@);
    true
}

/// Whether `pattern` stands somewhere in `s`.
pub fn contains(s: &str, pattern: &str) -> (res: bool)
    ensures
        res == occurs(s@, pattern@),
{
    let chars: Vec<char> = chars_of(s);
    let sought: Vec<char> = chars_of(pattern);
    let mut at: usize = 0;
    while at < chars.len()
        invariant
            chars@ == s@,
            sought@ == pattern@,
            at <= chars.len(),
            forall|j: int| 0 <= j < at ==> !occurs_at(s@, pattern@, j),
        decreases chars.len() - at,
    {
        if stands_at(&chars, &sought, at) {
            return true;
        }
        at = at + 1;
    }
    stands_at(&chars, &sought, at)
}

/// `s` with each occurrence of `pattern`, taken from the left, replaced by `with`.
pub fn replace(s: &str, pattern: &str, with: &str) -> (res: String)
    requires
        pattern@.len() > 0,
    ensures
        res@ == replaced(s@, pattern@, with@),
{
    let chars: Vec<char> = chars_of(s);
    let sought: Vec<char> = chars_of(pattern);
    let mut out: String = String::new();
    let mut copied: usize = 0;
    let mut at: usize = 0;
    assert(s@.skip(0) == s@);
    assert(out@ + s@.subrange(0, 0) + s@ == s@);
    assert(out@ + s@.subrange(0, 0) + replaced(s@, pattern@, with@) == replaced(
        s@,
        pattern@,
        with@,
    ));
    while at < chars.len()
        invariant
            chars@ == s@,
            sought@ == pattern@,
            pattern@.len() > 0,
            copied <= at <= chars.len(),
            out@ + s@.subrange(copied as int, at as int) + replaced(
                s@.skip(at as int),
                pattern@,
                with@,
            ) == replaced(s@, pattern@, with@),
        decreases chars.len() - at,
    {
        let ghost before = out@;
        let ghost rest = s@.skip(at as int);
        let ghost pending = s@.subrange(copied as int, at as int);
        if stands_at(&chars, &sought, at) {
            assert(rest.take(pattern@.len() as int) == s@.subrange(at as int, at + pattern@.len()));
            out.append(s.substring_char(copied, at));
            out.append(with);
            at = at + sought.len();
            copied = at;
            assert(rest.skip(pattern@.len() as int) == s@.skip(at as int));
            assert(s@.subrange(copied as int, at as int) == Seq::<char>::empty());
            let ghost tail = replaced(s@.skip(at as int), pattern@, with@);
            assert(before + pending + (with@ + tail) == out@ + Seq::<char>::empty() + tail);
        } else {
            proof {
                if rest.len() >= pattern@.len() {
                    assert(rest.take(pattern@.len() as int) == s@.subrange(
                        at as int,
                        at + pattern@.len(),
                    ));
                } else {
                    assert(s@.skip(at + 1).len() < pattern@.len());
                }
            }
            at = at + 1;
            assert(rest.skip(1) == s@.skip(at as int));
            let ghost tail = replaced(s@.skip(at as int), pattern@, with@);
            assert(rest == seq![rest[0]] + rest.skip(1));
            assert(replaced(rest, pattern@, with@) == seq![rest[0]] + tail);
            assert(s@.subrange(copied as int, at as int) == pending + seq![rest[0]]);
            assert(before + pending + (seq![rest[0]] + tail) == out@ + s@.subrange(
                copied as int,
                at as int,
            ) + tail);
        }
    }
    assert(s@.skip(at as int) == Seq::<char>::empty());
    assert(replaced(s@.skip(at as int), pattern@, with@) == Seq::<char>::empty());
    out.append(s.substring_char(copied, at));
    out
}

/// The decimal digit with the value `d`, as a text of one character.
fn digit_text(d: u64) -> (res: &'static str)
    requires
        d < 10,
    ensures
        res@ == seq![digit(d as nat)],
{
    proof {
        reveal_strlit("0");
        reveal_strlit("1");
        reveal_strlit("2");
        reveal_strlit("3");
        reveal_strlit("4");
        reveal_strlit("5");
        reveal_strlit("6");
        reveal_strlit("7");
        reveal_strlit("8");
        reveal_strlit("9");
    }
    if d == 0 {
        "0"
    } else if d == 1 {
        "1"
    } else if d == 2 {
        "2"
    } else if d == 3 {
        "3"
    } else if d == 4 {
        "4"
    } else if d == 5 {
        "5"
    } else if d == 6 {
        "6"
    } else if d == 7 {
        "7"
    } else if d == 8 {
        "8"
    } else {
        "9"
    }
}

/// The decimal digits of `n`.
pub fn decimal_text(n: u64) -> (res: String)
    ensures
        res@ == decimal(n as nat),
    decreases n,
{
    if n < 10 {
        digit_text(n).to_owned()
    } else {
        let mut out: String = decimal_text(n / 10);
        out.append(digit_text(n % 10));
        out
    }
}

proof fn lemma_digits_value_grows(s: Seq<char>, to: int)
    requires
        0 <= to <= s.len(),
    ensures
        digits_value(s.take(to)) <= digits_value(s),
    decreases s.len() - to,
{
    if to < s.len() {
        assert(s.drop_last().take(to) == s.take(to));
        lemma_digits_value_grows(s.drop_last(), to);
    } else {
        assert(s.take(to) == s);
    }
}

/// The number that `s` writes in decimal, if it writes one that fits in 64 bits.
pub fn parse_u64(s: &str) -> (res: Option<u64>)
    ensures
        res == parsed_u64(s@),
{
    let chars: Vec<char> = chars_of(s);
    let from: usize = if chars.len() > 0 && chars[0] == '+' {
        1
    } else {
        0
    };
    let ghost digits = without_plus(s@);
    assert(digits == s@.skip(from as int));
    if chars.len() == from {
        return None;
    }
    let mut value: u64 = 0;
    let mut i: usize = from;
    assert(digits.take(0) == Seq::<char>::empty());
    while i < chars.len()
        invariant
            chars@ == s@,
            from <= i <= chars.len(),
            digits == s@.skip(from as int),
            digits == without_plus(s@),
            forall|j: int| 0 <= j < i - from ==> is_digit(#[trigger] digits[j]),
            value == digits_value(digits.take(i - from)),
        decreases chars.len() - i,
    {
        let code: u32 = chars[i] as u32;
        assert(digits[i - from] == chars@[i as int]);
        if code < 48 || 57 < code {
            return None;
        }
        let next: u128 = value as u128 * 10 + (code - 48) as u128;
        assert(digits.take(i + 1 - from).drop_last() == digits.take(i - from));
        assert(next == digits_value(digits.take(i + 1 - from)));
        if next > u64::MAX as u128 {
            proof {
                lemma_digits_value_grows(digits, i + 1 - from);
            }
            return None;
        }
        value = next as u64;
        i = i + 1;
    }
    assert(digits.take(i - from) == digits);
    Some(value)
}

} // verus!
