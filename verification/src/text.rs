//! Text operations, stated over the sequence of a text's characters.
//!
//! Positions are counted in characters, never in bytes.

use vstd::prelude::*;
use vstd::string::*;

verus! {

/// `String::push` appends one character at the end of the text.
pub assume_specification[ String::push ](s: &mut String, c: char)
    ensures
        final(s)@ == old(s)@.push(c),
;

/// The characters with the Unicode property White_Space.
pub open spec fn white_space(c: char) -> bool {
    ||| '\u{9}' <= c <= '\u{d}'
    ||| c == ' '
    ||| c == '\u{85}'
    ||| c == '\u{a0}'
    ||| c == '\u{1680}'
    ||| '\u{2000}' <= c <= '\u{200a}'
    ||| c == '\u{2028}'
    ||| c == '\u{2029}'
    ||| c == '\u{202f}'
    ||| c == '\u{205f}'
    ||| c == '\u{3000}'
}

/// `s` without its leading white space.
pub open spec fn left_trimmed(s: Seq<char>) -> Seq<char>
    decreases s.len(),
{
    if s.len() > 0 && white_space(s[0]) {
        left_trimmed(s.drop_first())
    } else {
        s
    }
}

/// `s` without its trailing white space.
pub open spec fn right_trimmed(s: Seq<char>) -> Seq<char>
    decreases s.len(),
{
    if s.len() > 0 && white_space(s.last()) {
        right_trimmed(s.drop_last())
    } else {
        s
    }
}

/// `s` without the white space on either side.
pub open spec fn trimmed(s: Seq<char>) -> Seq<char> {
    right_trimmed(left_trimmed(s))
}

/// `s` has no white space at either end.
pub open spec fn is_trimmed(s: Seq<char>) -> bool {
    s.len() > 0 ==> !white_space(s[0]) && !white_space(s.last())
}

/// `s` without the leading characters that are in `set`.
pub open spec fn without_leading(s: Seq<char>, set: Seq<char>) -> Seq<char>
    decreases s.len(),
{
    if s.len() > 0 && set.contains(s[0]) {
        without_leading(s.drop_first(), set)
    } else {
        s
    }
}

/// `s` without the trailing repetitions of `c`.
pub open spec fn without_trailing(s: Seq<char>, c: char) -> Seq<char>
    decreases s.len(),
{
    if s.len() > 0 && s.last() == c {
        without_trailing(s.drop_last(), c)
    } else {
        s
    }
}

/// `part` stands in `s` at position `at`.
pub open spec fn occurs_at(s: Seq<char>, part: Seq<char>, at: int) -> bool {
    0 <= at && at + part.len() <= s.len() && s.subrange(at, at + part.len()) == part
}

/// The first position at or after `from` where `part` stands in `s`.
pub open spec fn first_match_from(s: Seq<char>, part: Seq<char>, from: int) -> Option<int>
    decreases s.len() - from,
{
    if from < 0 || from + part.len() > s.len() {
        None
    } else if occurs_at(s, part, from) {
        Some(from)
    } else if from == s.len() {
        None
    } else {
        first_match_from(s, part, from + 1)
    }
}

/// The first position where `part` stands in `s`.
pub open spec fn first_match(s: Seq<char>, part: Seq<char>) -> Option<int> {
    first_match_from(s, part, 0)
}

/// `part` stands somewhere in `s`.
pub open spec fn has_part(s: Seq<char>, part: Seq<char>) -> bool {
    exists|at: int| occurs_at(s, part, at)
}

/// `s` without the occurrences of `part`, taken from the left and not overlapping.
pub open spec fn without_part(s: Seq<char>, part: Seq<char>) -> Seq<char>
    decreases s.len(),
{
    if part.len() == 0 || s.len() == 0 {
        s
    } else if part.is_prefix_of(s) {
        without_part(s.skip(part.len() as int), part)
    } else {
        seq![s[0]] + without_part(s.drop_first(), part)
    }
}

/// `s` with every `from` replaced by `to`.
pub open spec fn with_replaced(s: Seq<char>, from: char, to: char) -> Seq<char> {
    s.map_values(
        |c: char|
            if c == from {
                to
            } else {
                c
            },
    )
}

/// The lower-case letter for an ASCII capital; any other character as it is.
pub open spec fn ascii_lower(c: char) -> char {
    if 'A' <= c <= 'Z' {
        (c as u32 + 32) as char
    } else {
        c
    }
}

/// `s` with its ASCII capitals in lower case.
pub open spec fn ascii_lowered(s: Seq<char>) -> Seq<char> {
    s.map_values(|c: char| ascii_lower(c))
}

/// The decimal digit for `d`.
pub open spec fn digit(d: nat) -> char {
    (48 + d) as char
}

/// `n` in decimal notation.
pub open spec fn decimal(n: nat) -> Seq<char>
    decreases n,
{
    if n < 10 {
        seq![digit(n)]
    } else {
        decimal(n / 10).push(digit(n % 10))
    }
}

/// `n` in decimal notation, with a minus sign where it is negative.
pub open spec fn signed_decimal(n: int) -> Seq<char> {
    if n < 0 {
        seq!['-'] + decimal((-n) as nat)
    } else {
        decimal(n as nat)
    }
}

/// Every character of `s` is a decimal digit.
pub open spec fn all_digits(s: Seq<char>) -> bool {
    forall|i: int| 0 <= i < s.len() ==> '0' <= #[trigger] s[i] <= '9'
}

/// The number that the digits of `s` stand for.
pub open spec fn digits_value(s: Seq<char>) -> nat
    decreases s.len(),
{
    if s.len() == 0 {
        0
    } else {
        (digits_value(s.drop_last()) * 10 + (s.last() as u32 - 48)) as nat
    }
}

/// The number that `s` writes: an optional plus sign, then one or more digits, of a value that
/// fits in 32 bits.
pub open spec fn parsed_u32(s: Seq<char>) -> Option<u32> {
    let digits = if s.len() > 0 && s[0] == '+' {
        s.drop_first()
    } else {
        s
    };
    if digits.len() > 0 && all_digits(digits) && digits_value(digits) <= u32::MAX {
        Some(digits_value(digits) as u32)
    } else {
        None
    }
}

/// The text that an optional string holds.
pub open spec fn opt_view(s: Option<String>) -> Option<Seq<char>> {
    match s {
        Some(s) => Some(s@),
        None => None,
    }
}

/// The texts of a result.
pub open spec fn text_result(r: Result<String, String>) -> Result<Seq<char>, Seq<char>> {
    match r {
        Ok(s) => Ok(s@),
        Err(s) => Err(s@),
    }
}

/// The characters of `s`.
pub fn chars(s: &str) -> (r: Vec<char>)
    ensures
        r@ == s@,
{
    let mut r: Vec<char> = Vec::new();
    for c in it: s.chars()
        invariant
            r@ == it.seq().take(it.index()),
    {
        r.push(c);
        assert(it.seq().take(it.index() + 1) == it.seq().take(it.index()).push(c));
    }
    r
}

/// Whether two texts are the same.
pub fn same(a: &str, b: &str) -> (r: bool)
    ensures
        r == (a@ == b@),
{
    let x = a.as_bytes();
    let y = b.as_bytes();
    proof {
        vstd::utf8::encode_utf8_decode_utf8(a@);
        vstd::utf8::encode_utf8_decode_utf8(b@);
    }
    if x.len() != y.len() {
        return false;
    }
    let mut i: usize = 0;
    while i < x.len()
        invariant
            x@ == a.spec_bytes(),
            y@ == b.spec_bytes(),
            x.len() == y.len(),
            i <= x.len(),
            forall|k: int| 0 <= k < i ==> x[k] == y[k],
        decreases x.len() - i,
    {
        if x[i] != y[i] {
            return false;
        }
        i = i + 1;
    }
    assert(x@ =~= y@);
    true
}

/// Whether `c` has the Unicode property White_Space.
pub fn is_white_space(c: char) -> (r: bool)
    ensures
        r == white_space(c),
{
    ('\u{9}' <= c && c <= '\u{d}') || c == ' ' || c == '\u{85}' || c == '\u{a0}' || c == '\u{1680}'
        || ('\u{2000}' <= c && c <= '\u{200a}') || c == '\u{2028}' || c == '\u{2029}' || c
        == '\u{202f}' || c == '\u{205f}' || c == '\u{3000}'
}

/// `s` without its leading white space.
pub fn trim_start(s: &str) -> (r: &str)
    ensures
        r@ == left_trimmed(s@),
{
    let cs = chars(s);
    let mut i: usize = 0;
    assert(cs@.skip(0) == cs@);
    while i < cs.len() && is_white_space(cs[i])
        invariant
            i <= cs.len(),
            left_trimmed(cs@) == left_trimmed(cs@.skip(i as int)),
        decreases cs.len() - i,
    {
        assert(cs@.skip(i as int).drop_first() == cs@.skip(i + 1));
        i = i + 1;
    }
    s.substring_char(i, cs.len())
}

/// `s` without its trailing white space.
pub fn trim_end(s: &str) -> (r: &str)
    ensures
        r@ == right_trimmed(s@),
{
    let cs = chars(s);
    let mut n: usize = cs.len();
    assert(cs@.take(n as int) == cs@);
    while n > 0 && is_white_space(cs[n - 1])
        invariant
            n <= cs.len(),
            right_trimmed(cs@) == right_trimmed(cs@.take(n as int)),
        decreases n,
    {
        assert(cs@.take(n as int).drop_last() == cs@.take(n - 1));
        n = n - 1;
    }
    s.substring_char(0, n)
}

/// `s` without the white space on either side.
pub fn trim(s: &str) -> (r: &str)
    ensures
        r@ == trimmed(s@),
{
    trim_end(trim_start(s))
}

/// `s` without the leading characters that are in `set`.
pub fn trim_leading<'a>(s: &'a str, set: &[char]) -> (r: &'a str)
    ensures
        r@ == without_leading(s@, set@),
{
    let cs = chars(s);
    let mut i: usize = 0;
    assert(cs@.skip(0) == cs@);
    while i < cs.len() && has_char(set, cs[i])
        invariant
            i <= cs.len(),
            without_leading(cs@, set@) == without_leading(cs@.skip(i as int), set@),
        decreases cs.len() - i,
    {
        assert(cs@.skip(i as int).drop_first() == cs@.skip(i + 1));
        i = i + 1;
    }
    s.substring_char(i, cs.len())
}

/// `s` without the trailing repetitions of `c`.
pub fn trim_trailing(s: &str, c: char) -> (r: &str)
    ensures
        r@ == without_trailing(s@, c),
{
    let cs = chars(s);
    let mut n: usize = cs.len();
    assert(cs@.take(n as int) == cs@);
    while n > 0 && cs[n - 1] == c
        invariant
            n <= cs.len(),
            without_trailing(cs@, c) == without_trailing(cs@.take(n as int), c),
        decreases n,
    {
        assert(cs@.take(n as int).drop_last() == cs@.take(n - 1));
        n = n - 1;
    }
    s.substring_char(0, n)
}

/// Whether `c` is one of `set`.
pub fn has_char(set: &[char], c: char) -> (r: bool)
    ensures
        r == set@.contains(c),
{
    let mut i: usize = 0;
    while i < set.len()
        invariant
            i <= set.len(),
            forall|k: int| 0 <= k < i ==> set@[k] != c,
        decreases set.len() - i,
    {
        if set[i] == c {
            assert(set@[i as int] == c);
            return true;
        }
        i = i + 1;
    }
    false
}

/// Whether `part` stands in `s` at position `at`.
pub fn stands_at(s: &Vec<char>, part: &Vec<char>, at: usize) -> (r: bool)
    requires
        at + part.len() <= s.len(),
    ensures
        r == occurs_at(s@, part@, at as int),
{
    let mut i: usize = 0;
    while i < part.len()
        invariant
            at + part.len() <= s.len(),
            i <= part.len(),
            forall|k: int| 0 <= k < i ==> s@[at + k] == part@[k],
        decreases part.len() - i,
    {
        if s[at + i] != part[i] {
            assert(s@.subrange(at as int, at + part.len())[i as int] != part@[i as int]);
            return false;
        }
        i = i + 1;
    }
    assert(s@.subrange(at as int, at + part.len()) =~= part@);
    true
}

/// Whether `s` begins with `part`.
pub fn starts_with(s: &str, part: &str) -> (r: bool)
    ensures
        r == part@.is_prefix_of(s@),
{
    let a = chars(s);
    let b = chars(part);
    a.len() >= b.len() && stands_at(&a, &b, 0)
}

/// What follows `part` in `s`, where `s` begins with it.
pub fn strip_prefix<'a>(s: &'a str, part: &str) -> (r: Option<&'a str>)
    ensures
        match r {
            Some(rest) => part@.is_prefix_of(s@) && rest@ == s@.skip(part@.len() as int),
            None => !part@.is_prefix_of(s@),
        },
{
    if starts_with(s, part) {
        let from = part.unicode_len();
        let to = s.unicode_len();
        Some(s.substring_char(from, to))
    } else {
        None
    }
}

/// What precedes `part` in `s`, where `s` ends with it.
pub fn strip_suffix<'a>(s: &'a str, part: &str) -> (r: Option<&'a str>)
    ensures
        match r {
            Some(rest) => part@.is_suffix_of(s@) && rest@ == s@.take(s@.len() - part@.len()),
            None => !part@.is_suffix_of(s@),
        },
{
    let a = chars(s);
    let b = chars(part);
    if a.len() >= b.len() && stands_at(&a, &b, a.len() - b.len()) {
        Some(s.substring_char(0, a.len() - b.len()))
    } else {
        None
    }
}

/// The first position where `part` stands in `s`.
pub fn find(s: &str, part: &str) -> (r: Option<usize>)
    ensures
        match r {
            Some(at) => first_match(s@, part@) == Some(at as int) && at + part@.len() <= s@.len(),
            None => first_match(s@, part@) is None,
        },
{
    let a = chars(s);
    let b = chars(part);
    let mut at: usize = 0;
    while at <= a.len() && b.len() <= a.len() - at
        invariant
            at <= a.len() + 1,
            a@ == s@,
            b@ == part@,
            first_match(a@, b@) == first_match_from(a@, b@, at as int),
        decreases a.len() + 1 - at,
    {
        if stands_at(&a, &b, at) {
            return Some(at);
        }
        if at == a.len() {
            return None;
        }
        at = at + 1;
    }
    None
}

/// Where a first match is found from `from`, it is the first; where none is, there is none.
pub proof fn lemma_first_match_from(s: Seq<char>, part: Seq<char>, from: int)
    requires
        0 <= from,
    ensures
        match first_match_from(s, part, from) {
            Some(at) => from <= at && occurs_at(s, part, at) && forall|k: int|
                from <= k < at ==> !occurs_at(s, part, k),
            None => forall|k: int| from <= k ==> !occurs_at(s, part, k),
        },
    decreases s.len() - from,
{
    if from + part.len() > s.len() || occurs_at(s, part, from) || from == s.len() {
    } else {
        lemma_first_match_from(s, part, from + 1);
    }
}

/// `first_match` gives the least position of `part` in `s`, and a position wherever there is one.
pub proof fn lemma_first_match(s: Seq<char>, part: Seq<char>)
    ensures
        match first_match(s, part) {
            Some(at) => occurs_at(s, part, at) && forall|k: int|
                0 <= k < at ==> !occurs_at(s, part, k),
            None => !has_part(s, part),
        },
        first_match(s, part) is Some <==> has_part(s, part),
{
    lemma_first_match_from(s, part, 0);
}

/// Whether `part` stands somewhere in `s`.
pub fn contains(s: &str, part: &str) -> (r: bool)
    ensures
        r == has_part(s@, part@),
{
    proof {
        lemma_first_match(s@, part@);
    }
    find(s, part).is_some()
}

/// `s` with every `from` replaced by `to`.
pub fn replace_char(s: &str, from: char, to: char) -> (r: String)
    ensures
        r@ == with_replaced(s@, from, to),
{
    let cs = chars(s);
    let mut r = String::new();
    let mut i: usize = 0;
    while i < cs.len()
        invariant
            i <= cs.len(),
            r@ == with_replaced(cs@.take(i as int), from, to),
        decreases cs.len() - i,
    {
        if cs[i] == from {
            r.push(to);
        } else {
            r.push(cs[i]);
        }
        i = i + 1;
        assert(r@ =~= with_replaced(cs@.take(i as int), from, to));
    }
    assert(cs@.take(i as int) == s@);
    r
}

/// `s` with its ASCII capitals in lower case.
pub fn ascii_lowercase(s: &str) -> (r: String)
    ensures
        r@ == ascii_lowered(s@),
{
    let cs = chars(s);
    let mut r = String::new();
    let mut i: usize = 0;
    while i < cs.len()
        invariant
            i <= cs.len(),
            r@ == ascii_lowered(cs@.take(i as int)),
        decreases cs.len() - i,
    {
        let c = cs[i];
        if 'A' <= c && c <= 'Z' {
            let code: u8 = c as u8;
            r.push((code + 32) as char);
        } else {
            r.push(c);
        }
        i = i + 1;
        assert(r@ =~= ascii_lowered(cs@.take(i as int)));
    }
    assert(cs@.take(i as int) == s@);
    r
}

/// `n` in decimal notation.
pub fn to_decimal(n: u64) -> (r: String)
    ensures
        r@ == decimal(n as nat),
    decreases n,
{
    if n < 10 {
        let mut r = String::new();
        r.push((48 + n as u8) as char);
        assert(r@ =~= decimal(n as nat));
        r
    } else {
        let mut r = to_decimal(n / 10);
        r.push((48 + (n % 10) as u8) as char);
        r
    }
}

/// `n` in decimal notation, with a minus sign where it is negative.
pub fn to_signed_decimal(n: i64) -> (r: String)
    ensures
        r@ == signed_decimal(n as int),
{
    if n >= 0 {
        to_decimal(n as u64)
    } else {
        let magnitude: u64 = if n == i64::MIN {
            9223372036854775808
        } else {
            (-n) as u64
        };
        let digits = to_decimal(magnitude);
        let mut r = String::new();
        r.push('-');
        r.append(digits.as_str());
        assert(r@ =~= signed_decimal(n as int));
        r
    }
}

/// The value of a digit string grows with every digit.
proof fn lemma_digits_value_grows(s: Seq<char>, n: int)
    requires
        all_digits(s),
        0 <= n <= s.len(),
    ensures
        digits_value(s.take(n)) <= digits_value(s),
    decreases s.len() - n,
{
    if n < s.len() {
        assert(s.take(n + 1).drop_last() == s.take(n));
        assert(s.take(n + 1).last() == s[n]);
        lemma_digits_value_grows(s, n + 1);
    } else {
        assert(s.take(n) == s);
    }
}

/// The number that `s` writes, where it writes one of 32 bits.
pub fn parse_u32(s: &str) -> (r: Option<u32>)
    ensures
        r == parsed_u32(s@),
{
    let cs = chars(s);
    let start: usize = if cs.len() > 0 && cs[0] == '+' {
        1
    } else {
        0
    };
    let ghost digits = cs@.skip(start as int);
    assert(digits =~= (if s@.len() > 0 && s@[0] == '+' {
        s@.drop_first()
    } else {
        s@
    }));
    if cs.len() == start {
        return None;
    }
    let mut value: u32 = 0;
    let mut i: usize = start;
    while i < cs.len()
        invariant
            start <= i <= cs.len(),
            digits == cs@.skip(start as int),
            digits == (if s@.len() > 0 && s@[0] == '+' {
                s@.drop_first()
            } else {
                s@
            }),
            all_digits(digits.take(i - start)),
            value == digits_value(digits.take(i - start)),
        decreases cs.len() - i,
    {
        let c = cs[i];
        assert(digits[i - start] == c);
        if !('0' <= c && c <= '9') {
            return None;
        }
        assert(digits.take(i + 1 - start).drop_last() == digits.take(i - start));
        assert(digits.take(i + 1 - start).last() == c);
        let wide: u64 = value as u64 * 10 + (c as u32 - 48) as u64;
        if wide > u32::MAX as u64 {
            proof {
                if all_digits(digits) {
                    lemma_digits_value_grows(digits, i + 1 - start);
                }
            }
            return None;
        }
        value = wide as u32;
        i = i + 1;
        assert(all_digits(digits.take(i - start)));
    }
    assert(digits.take(i - start) == digits);
    Some(value)
}

/// `s` without the occurrences of `part`, taken from the left and not overlapping.
pub fn remove_part(s: &str, part: &str) -> (r: String)
    ensures
        r@ == without_part(s@, part@),
{
    let a = chars(s);
    let b = chars(part);
    let mut r = String::new();
    if b.len() == 0 {
        return s.to_owned();
    }
    let mut i: usize = 0;
    assert(a@.skip(0) == a@);
    while i < a.len()
        invariant
            i <= a.len(),
            0 < b.len(),
            without_part(a@, b@) == r@ + without_part(a@.skip(i as int), b@),
        decreases a.len() - i,
    {
        let ghost rest = a@.skip(i as int);
        if b.len() <= a.len() - i && stands_at(&a, &b, i) {
            assert(b@.is_prefix_of(rest)) by {
                assert(rest.subrange(0, b.len() as int) == a@.subrange(i as int, i + b.len()));
            }
            assert(rest.skip(b.len() as int) == a@.skip(i + b.len()));
            i = i + b.len();
        } else {
            assert(!b@.is_prefix_of(rest)) by {
                if b@.is_prefix_of(rest) {
                    assert(a@.subrange(i as int, i + b.len()) == rest.subrange(0, b.len() as int));
                }
            }
            assert(rest.drop_first() == a@.skip(i + 1));
            let ghost before = r@;
            r.push(a[i]);
            assert(r@ + without_part(a@.skip(i + 1), b@) == before + (seq![rest[0]] + without_part(
                a@.skip(i + 1),
                b@,
            )));
            i = i + 1;
        }
    }
    assert(r@ + without_part(a@.skip(i as int), b@) == r@);
    r
}

/// `s` is nothing but white space.
pub open spec fn all_white(s: Seq<char>) -> bool {
    forall|i: int| 0 <= i < s.len() ==> white_space(#[trigger] s[i])
}

/// Trimming leaves no white space at either end, so that there is none to trim again.
pub proof fn lemma_trimmed(s: Seq<char>)
    ensures
        is_trimmed(trimmed(s)),
        trimmed(trimmed(s)) == trimmed(s),
{
    lemma_left_trimmed(s);
    lemma_right_trimmed(left_trimmed(s));
}

/// Law: trimming takes off white space at both ends and nothing else: what was taken off is all
/// white space, and what is left has none at either end.
pub proof fn law_trimming_takes_off_white_space_only(s: Seq<char>) -> (cut: (int, int))
    ensures
        0 <= cut.0 <= cut.1 <= s.len(),
        trimmed(s) == s.subrange(cut.0, cut.1),
        all_white(s.subrange(0, cut.0)),
        all_white(s.subrange(cut.1, s.len() as int)),
        is_trimmed(trimmed(s)),
{
    lemma_trimmed(s);
    lemma_left_cut(s);
    let left = left_trimmed(s);
    let from = s.len() - left.len();
    lemma_right_cut(left);
    let to = from + right_trimmed(left).len();
    assert(trimmed(s) =~= s.subrange(from, to));
    assert(s.subrange(0, from) =~= s.take(from));
    assert(s.subrange(to, s.len() as int) =~= left.skip(right_trimmed(left).len() as int));
    (from, to)
}

/// What is trimmed off on the left is white space.
proof fn lemma_left_cut(s: Seq<char>)
    ensures
        left_trimmed(s).len() <= s.len(),
        left_trimmed(s) == s.skip(s.len() - left_trimmed(s).len()),
        all_white(s.take(s.len() - left_trimmed(s).len())),
    decreases s.len(),
{
    lemma_left_trimmed(s);
    if s.len() > 0 && white_space(s[0]) {
        let rest = s.drop_first();
        lemma_left_cut(rest);
        let n = s.len() - left_trimmed(s).len();
        assert forall|i: int| 0 <= i < n implies white_space(#[trigger] s.take(n)[i]) by {
            if i > 0 {
                assert(rest.take(n - 1)[i - 1] == s[i]);
            }
        }
    }
}

/// What is trimmed off on the right is white space.
proof fn lemma_right_cut(s: Seq<char>)
    ensures
        right_trimmed(s).len() <= s.len(),
        right_trimmed(s) == s.take(right_trimmed(s).len() as int),
        all_white(s.skip(right_trimmed(s).len() as int)),
    decreases s.len(),
{
    if s.len() > 0 && white_space(s.last()) {
        let rest = s.drop_last();
        lemma_right_cut(rest);
        let n = right_trimmed(s).len() as int;
        assert(s.take(n) =~= rest.take(n));
        assert forall|i: int| 0 <= i < s.len() - n implies white_space(
            #[trigger] s.skip(n)[i],
        ) by {
            if i < rest.len() - n {
                assert(rest.skip(n)[i] == s[n + i]);
            }
        }
    } else {
        assert(s.take(s.len() as int) =~= s);
    }
}

/// Law: of the ASCII characters, the space and those from the tabulator to the carriage return are
/// white space, and no other is.
pub proof fn law_ascii_white_space(c: char)
    requires
        c <= '\u{7f}',
    ensures
        white_space(c) <==> c == ' ' || c == '\t' || c == '\n' || c == '\u{b}' || c == '\u{c}' || c
            == '\r',
{
}

/// Law: the decimal notation of a number is made of digits, begins with a zero only where the
/// number is zero, and stands for that number.
pub proof fn law_decimal_stands_for_its_number(n: nat)
    ensures
        decimal(n).len() > 0,
        all_digits(decimal(n)),
        digits_value(decimal(n)) == n,
        decimal(n)[0] == '0' <==> n == 0,
    decreases n,
{
    if n >= 10 {
        law_decimal_stands_for_its_number(n / 10);
        let d = decimal(n);
        assert(d.drop_last() =~= decimal(n / 10));
        assert forall|i: int| 0 <= i < d.len() implies '0' <= #[trigger] d[i] <= '9' by {
            if i < d.len() - 1 {
                assert(d[i] == decimal(n / 10)[i]);
            }
        }
    } else {
        let d = decimal(n);
        assert(d.drop_last() =~= Seq::<char>::empty());
        assert(digits_value(d.drop_last()) == 0);
    }
}

/// Law: a number that was written down is read back, with or without a plus sign, as far as it
/// fits in 32 bits; and what is read is written in digits, behind a plus sign at most.
pub proof fn law_written_number_is_read_back(n: nat, s: Seq<char>)
    ensures
        n <= u32::MAX ==> parsed_u32(decimal(n)) == Some(n as u32) && parsed_u32(
            seq!['+'] + decimal(n),
        ) == Some(n as u32),
        n > u32::MAX ==> parsed_u32(decimal(n)) is None,
        parsed_u32(s) is Some ==> s.len() > 0 && all_digits(s.drop_first()) && ('0' <= s[0] <= '9'
            || (s[0] == '+' && s.len() > 1)),
{
    law_decimal_stands_for_its_number(n);
    let d = decimal(n);
    let plus = seq!['+'] + d;
    assert(plus.drop_first() =~= d);
    assert('0' <= d[0] <= '9');
    if parsed_u32(s) is Some && s[0] != '+' {
        assert forall|i: int| 0 <= i < s.drop_first().len() implies '0' <= #[trigger] s.drop_first()[i]
            <= '9' by {
            assert(s.drop_first()[i] == s[i + 1]);
        }
    }
}

/// Law: a negative number is written as its opposite behind a minus sign.
pub proof fn law_minus_sign_marks_the_negative(n: nat)
    requires
        n > 0,
    ensures
        signed_decimal(n as int) == decimal(n),
        signed_decimal(-n) == seq!['-'] + decimal(n),
{
}

/// Law: replacing a character keeps the length and every other character, and leaves none of it.
pub proof fn law_replacing_keeps_the_rest(s: Seq<char>, from: char, to: char)
    requires
        from != to,
    ensures
        with_replaced(s, from, to).len() == s.len(),
        !with_replaced(s, from, to).contains(from),
        forall|i: int|
            0 <= i < s.len() ==> (#[trigger] with_replaced(s, from, to)[i]) == (if s[i] == from {
                to
            } else {
                s[i]
            }),
{
}

/// Law: lower case changes ASCII capitals only, each to the small letter 32 places behind it.
pub proof fn law_lower_case_changes_capitals_only(s: Seq<char>, i: int)
    requires
        0 <= i < s.len(),
    ensures
        ascii_lowered(s).len() == s.len(),
        !('A' <= s[i] <= 'Z') ==> ascii_lowered(s)[i] == s[i],
        'A' <= s[i] <= 'Z' ==> ascii_lowered(s)[i] as int == s[i] as int + 32,
{
}

/// Law: where a part is first found, it stands; and wherever it stands, it is found there or
/// before.
pub proof fn law_first_match_is_the_first(
    s: Seq<char>,
    part: Seq<char>,
    before: Seq<char>,
    after: Seq<char>,
)
    ensures
        first_match(s, part) matches Some(at) ==> 0 <= at <= s.len() - part.len() && s == s.take(at)
            + part + s.skip(at + part.len()),
        first_match(before + part + after, part) matches Some(at) && at <= before.len(),
        has_part(s, part) <==> first_match(s, part) is Some,
{
    lemma_first_match_from(s, part, 0);
    lemma_first_match(s, part);
    if let Some(at) = first_match(s, part) {
        assert(occurs_at(s, part, at));
        assert(s =~= s.take(at) + s.subrange(at, at + part.len()) + s.skip(at + part.len()));
    }
    let whole = before + part + after;
    lemma_first_match_from(whole, part, 0);
    let n = before.len() as int;
    assert(whole.subrange(n, n + part.len()) =~= part);
    assert(occurs_at(whole, part, n));
}

/// Law: removing a part takes its first occurrence out, and goes on behind it; a text without the
/// part stays as it is.
pub proof fn law_removing_takes_out_each_occurrence(s: Seq<char>, part: Seq<char>)
    requires
        part.len() > 0,
    ensures
        match first_match(s, part) {
            Some(at) => without_part(s, part) == s.take(at) + without_part(
                s.skip(at + part.len()),
                part,
            ),
            None => without_part(s, part) == s,
        },
{
    lemma_first_match_from(s, part, 0);
    match first_match(s, part) {
        Some(at) => {
            lemma_removing_up_to(s, part, at);
        },
        None => {
            lemma_removing_nothing(s, part);
        },
    }
}

/// What stands before the first occurrence of a part stays when the part is removed.
proof fn lemma_removing_up_to(s: Seq<char>, part: Seq<char>, at: int)
    requires
        part.len() > 0,
        occurs_at(s, part, at),
        forall|k: int| 0 <= k < at ==> !occurs_at(s, part, k),
    ensures
        without_part(s, part) == s.take(at) + without_part(s.skip(at + part.len()), part),
    decreases at,
{
    if at == 0 {
        assert(part =~= s.subrange(0, part.len() as int));
        assert(part.is_prefix_of(s));
        assert(s.take(0) + without_part(s.skip(part.len() as int), part) =~= without_part(
            s.skip(part.len() as int),
            part,
        ));
    } else {
        assert(!part.is_prefix_of(s)) by {
            assert(!occurs_at(s, part, 0));
        }
        let rest = s.drop_first();
        assert(rest.subrange(at - 1, at - 1 + part.len()) =~= s.subrange(at, at + part.len()));
        assert forall|k: int| 0 <= k < at - 1 implies !occurs_at(rest, part, k) by {
            assert(!occurs_at(s, part, k + 1));
            assert(rest.subrange(k, k + part.len()) =~= s.subrange(k + 1, k + 1 + part.len()));
        }
        lemma_removing_up_to(rest, part, at - 1);
        assert(rest.skip(at - 1 + part.len()) =~= s.skip(at + part.len()));
        assert(seq![s[0]] + (rest.take(at - 1) + without_part(s.skip(at + part.len()), part))
            =~= s.take(at) + without_part(s.skip(at + part.len()), part));
    }
}

/// A text that does not hold a part stays as it is when the part is removed.
proof fn lemma_removing_nothing(s: Seq<char>, part: Seq<char>)
    requires
        part.len() > 0,
        forall|k: int| 0 <= k ==> !occurs_at(s, part, k),
    ensures
        without_part(s, part) == s,
    decreases s.len(),
{
    if s.len() > 0 {
        assert(!part.is_prefix_of(s)) by {
            assert(!occurs_at(s, part, 0));
        }
        let rest = s.drop_first();
        assert forall|k: int| 0 <= k implies !occurs_at(rest, part, k) by {
            assert(!occurs_at(s, part, k + 1));
            if k + part.len() <= rest.len() {
                assert(rest.subrange(k, k + part.len()) =~= s.subrange(k + 1, k + 1 + part.len()));
            }
        }
        lemma_removing_nothing(rest, part);
        assert(seq![s[0]] + rest =~= s);
    }
}

/// Trimming keeps a part of the text.
pub proof fn lemma_trimmed_is_part(s: Seq<char>)
    ensures
        has_part(s, trimmed(s)),
{
    lemma_left_trimmed(s);
    lemma_right_trimmed(left_trimmed(s));
    let at = s.len() - left_trimmed(s).len();
    assert(s.subrange(at, at + trimmed(s).len()) =~= trimmed(s));
    assert(occurs_at(s, trimmed(s), at));
}

/// White space behind a text makes no difference to trimming it on the right.
pub proof fn lemma_right_white_is_trimmed(s: Seq<char>, after: Seq<char>)
    requires
        all_white(after),
    ensures
        right_trimmed(s + after) == right_trimmed(s),
    decreases after.len(),
{
    let all = s + after;
    if after.len() == 0 {
        assert(all =~= s);
    } else {
        assert(all.drop_last() =~= s + after.drop_last());
        assert(all.last() == after.last());
        lemma_right_white_is_trimmed(s, after.drop_last());
    }
}

/// White space behind a text that ends with none is trimmed off it.
pub proof fn lemma_right_padding_is_trimmed(s: Seq<char>, after: Seq<char>)
    requires
        all_white(after),
        s.len() > 0 ==> !white_space(s.last()),
    ensures
        right_trimmed(s + after) == s,
{
    lemma_right_white_is_trimmed(s, after);
}

/// Trimming on the left ends in the first of two texts where there is more than white space in it.
pub proof fn lemma_left_trimmed_of_sum(s: Seq<char>, rest: Seq<char>)
    requires
        trimmed(s).len() > 0,
    ensures
        left_trimmed(s + rest) == left_trimmed(s) + rest,
        left_trimmed(s).len() > 0,
    decreases s.len(),
{
    let all = s + rest;
    if white_space(s[0]) {
        assert(all.drop_first() =~= s.drop_first() + rest);
        lemma_left_trimmed_of_sum(s.drop_first(), rest);
    }
}

/// White space around a text is trimmed off it.
pub proof fn lemma_padding_is_trimmed(before: Seq<char>, s: Seq<char>, after: Seq<char>)
    requires
        all_white(before),
        all_white(after),
    ensures
        trimmed(before + s + after) == trimmed(s),
    decreases before.len(), s.len(), after.len(),
{
    let all = before + s + after;
    if before.len() > 0 {
        assert(all.drop_first() =~= before.drop_first() + s + after);
        assert(all[0] == before[0]);
        assert forall|i: int| 0 <= i < before.drop_first().len() implies white_space(
            #[trigger] before.drop_first()[i],
        ) by {
            assert(before.drop_first()[i] == before[i + 1]);
        }
        lemma_padding_is_trimmed(before.drop_first(), s, after);
    } else if s.len() > 0 && white_space(s[0]) {
        assert(all.drop_first() =~= before + s.drop_first() + after);
        lemma_padding_is_trimmed(before, s.drop_first(), after);
    } else if s.len() == 0 {
        if after.len() > 0 {
            assert(all.drop_first() =~= before + s + after.drop_first());
            assert(all[0] == after[0]);
            assert forall|i: int| 0 <= i < after.drop_first().len() implies white_space(
                #[trigger] after.drop_first()[i],
            ) by {
                assert(after.drop_first()[i] == after[i + 1]);
            }
            lemma_padding_is_trimmed(before, s, after.drop_first());
        } else {
            assert(all =~= s);
        }
    } else {
        assert(left_trimmed(all) == all);
        if after.len() > 0 {
            assert(all.drop_last() =~= before + s + after.drop_last());
            assert(all.last() == after.last());
            lemma_padding_is_trimmed(before, s, after.drop_last());
            assert(left_trimmed(all.drop_last()) == all.drop_last());
        } else {
            assert(all =~= s);
        }
    }
}

/// Trimming on the left keeps an end of the text and leaves no leading white space.
proof fn lemma_left_trimmed(s: Seq<char>)
    ensures
        left_trimmed(s).len() > 0 ==> !white_space(left_trimmed(s)[0]),
        left_trimmed(s).len() <= s.len(),
        left_trimmed(s) == s.skip(s.len() - left_trimmed(s).len()),
    decreases s.len(),
{
    if s.len() > 0 && white_space(s[0]) {
        lemma_left_trimmed(s.drop_first());
    }
}

/// Trimming on the right keeps a beginning of the text and leaves no trailing white space.
pub proof fn lemma_right_trimmed(s: Seq<char>)
    ensures
        right_trimmed(s).len() > 0 ==> !white_space(right_trimmed(s).last()),
        right_trimmed(s).is_prefix_of(s),
    decreases s.len(),
{
    if s.len() > 0 && white_space(s.last()) {
        lemma_right_trimmed(s.drop_last());
    }
}

} // verus!
