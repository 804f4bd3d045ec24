//! Text building and inspection.
//!
//! Pipeline descriptions, metric pages and control packets are all plain text,
//! so what they say is stated here over sequences of characters: decimal
//! numerals in both directions, prefixes, substrings and the last occurrence
//! of a separator.

#[allow(unused_imports)]
use vstd::arithmetic::power::{lemma_pow1, lemma_pow_positive, pow};
use vstd::prelude::*;

verus! {

/// The decimal digit `d` as a character.
pub open spec fn digit_char(d: int) -> char {
    (48 + d) as char
}

/// The decimal numeral of `n`, without leading zeros.
pub open spec fn decimal(n: nat) -> Seq<char>
    decreases n,
{
    if n < 10 {
        seq![digit_char(n as int)]
    } else {
        decimal(n / 10).push(digit_char((n % 10) as int))
    }
}

/// The decimal numeral of an integer, with a leading minus sign below zero.
pub open spec fn signed_decimal(n: int) -> Seq<char> {
    if n < 0 {
        seq!['-'] + decimal((-n) as nat)
    } else {
        decimal(n as nat)
    }
}

/// How a truth value is spelled.
pub open spec fn bool_text(b: bool) -> Seq<char> {
    if b {
        "true"@
    } else {
        "false"@
    }
}

/// The occurrence of `needle` in `hay` that starts at `i`.
pub open spec fn occurs_at(hay: Seq<char>, needle: Seq<char>, i: int) -> bool {
    0 <= i && i + needle.len() <= hay.len() && hay.subrange(i, i + needle.len()) == needle
}

/// The digits of a fraction `frac / (10 * unit)`, without trailing zeros.
pub open spec fn fraction_digits(frac: nat, unit: nat) -> Seq<char>
    decreases unit,
{
    if frac == 0 || unit == 0 {
        seq![]
    } else {
        seq![digit_char((frac / unit) as int)] + fraction_digits(frac % unit, unit / 10)
    }
}

/// A number of microseconds, in seconds.
pub open spec fn seconds_text(us: nat) -> Seq<char> {
    if us % 1_000_000 == 0 {
        decimal(us / 1_000_000)
    } else {
        decimal(us / 1_000_000) + "."@ + fraction_digits(us % 1_000_000, 100_000)
    }
}

/// A text that may be absent, by view.
pub open spec fn maybe(s: Option<&str>) -> Option<Seq<char>> {
    match s {
        Some(t) => Some(t@),
        None => None,
    }
}

/// Whether `needle` occurs anywhere in `hay`.
pub open spec fn has_substring(hay: Seq<char>, needle: Seq<char>) -> bool {
    exists|i: int| occurs_at(hay, needle, i)
}

/// Whether `s` begins with `prefix`.
pub open spec fn has_prefix(s: Seq<char>, prefix: Seq<char>) -> bool {
    occurs_at(s, prefix, 0)
}

/// Whether `c` is one of the ten decimal digits.
pub open spec fn is_digit(c: char) -> bool {
    '0' <= c <= '9'
}

/// Whether `s` is made of decimal digits only.
pub open spec fn all_digits(s: Seq<char>) -> bool {
    forall|i: int| 0 <= i < s.len() ==> is_digit(#[trigger] s[i])
}

/// The number that a string of digits denotes.
pub open spec fn digits_value(s: Seq<char>) -> nat
    decreases s.len(),
{
    if s.len() == 0 {
        0
    } else {
        (digits_value(s.drop_last()) * 10 + (s.last() as int - 48)) as nat
    }
}

/// The number that an unsigned numeral denotes: an optional plus sign, then at
/// least one digit and nothing else.
pub open spec fn unsigned_numeral(s: Seq<char>) -> Option<nat> {
    let digits = if s.len() > 0 && s[0] == '+' {
        s.skip(1)
    } else {
        s
    };
    if digits.len() > 0 && all_digits(digits) {
        Some(digits_value(digits))
    } else {
        None
    }
}

/// The number that a signed numeral denotes: an optional plus or minus sign,
/// then at least one digit and nothing else.
pub open spec fn signed_numeral(s: Seq<char>) -> Option<int> {
    if s.len() > 0 && s[0] == '-' {
        let digits = s.skip(1);
        if digits.len() > 0 && all_digits(digits) {
            Some(-(digits_value(digits) as int))
        } else {
            None
        }
    } else {
        match unsigned_numeral(s) {
            Some(n) => Some(n as int),
            None => None,
        }
    }
}

/// The numeral `s` read as a number of at most `max`, if it is one.
pub open spec fn numeral_up_to(s: Seq<char>, max: nat) -> Option<nat> {
    match unsigned_numeral(s) {
        Some(n) => if n <= max {
            Some(n)
        } else {
            None
        },
        None => None,
    }
}

/// Whether `c` separates words.
pub open spec fn is_space(c: char) -> bool {
    ||| 9 <= c as int <= 13
    ||| c as int == 0x20
    ||| c as int == 0x85
    ||| c as int == 0xa0
    ||| c as int == 0x1680
    ||| 0x2000 <= c as int <= 0x200a
    ||| c as int == 0x2028
    ||| c as int == 0x2029
    ||| c as int == 0x202f
    ||| c as int == 0x205f
    ||| c as int == 0x3000
}

/// The length of the run of separators that `s` starts with.
pub open spec fn space_run(s: Seq<char>) -> nat
    decreases s.len(),
{
    if s.len() == 0 || !is_space(s[0]) {
        0
    } else {
        1 + space_run(s.skip(1))
    }
}

/// The length of the word that `s` starts with.
pub open spec fn word_run(s: Seq<char>) -> nat
    decreases s.len(),
{
    if s.len() == 0 || is_space(s[0]) {
        0
    } else {
        1 + word_run(s.skip(1))
    }
}

pub proof fn lemma_space_run(s: Seq<char>)
    ensures
        space_run(s) <= s.len(),
        space_run(s) < s.len() ==> !is_space(s[space_run(s) as int]),
        forall|i: int| 0 <= i < space_run(s) ==> is_space(#[trigger] s[i]),
    decreases s.len(),
{
    if s.len() > 0 && is_space(s[0]) {
        let t = s.skip(1);
        lemma_space_run(t);
        assert forall|i: int| 0 <= i < space_run(s) implies is_space(#[trigger] s[i]) by {
            if i > 0 {
                assert(t[i - 1] == s[i]);
            }
        }
    }
}

pub proof fn lemma_word_run(s: Seq<char>)
    ensures
        word_run(s) <= s.len(),
        s.len() > 0 && !is_space(s[0]) ==> word_run(s) >= 1,
        word_run(s) < s.len() ==> is_space(s[word_run(s) as int]),
        forall|i: int| 0 <= i < word_run(s) ==> !is_space(#[trigger] s[i]),
    decreases s.len(),
{
    if s.len() > 0 && !is_space(s[0]) {
        let t = s.skip(1);
        lemma_word_run(t);
        assert forall|i: int| 0 <= i < word_run(s) implies !is_space(#[trigger] s[i]) by {
            if i > 0 {
                assert(t[i - 1] == s[i]);
            }
        }
    }
}

/// The words of `s`: its maximal runs of characters that are no separators.
pub open spec fn words(s: Seq<char>) -> Seq<Seq<char>>
    decreases s.len(),
{
    let rest = s.skip(space_run(s) as int);
    if rest.len() == 0 {
        seq![]
    } else {
        proof {
            lemma_space_run(s);
            lemma_word_run(rest);
        }
        seq![rest.take(word_run(rest) as int)] + words(rest.skip(word_run(rest) as int))
    }
}

/// The characters of a string, one by one.
pub fn chars_of(s: &str) -> (r: Vec<char>)
    ensures
        r@ == s@,
{
    let mut out: Vec<char> = Vec::new();
    for c in it: s.chars()
        invariant
            out@ == it.seq().take(it.index()),
            it.seq() == s@,
    {
        out.push(c);
    }
    out
}

fn push_digit(out: &mut String, d: u64)
    requires
        d < 10,
    ensures
        final(out)@ == old(out)@.push(digit_char(d as int)),
{
    proof {
        reveal_strlit("0");
        reveal_strlit("1");
        reveal_strlit("2");
        reveal_strlit("3");
        reveal_strlit("4");
        reveal_strlit("5");
        reveal_strlit("6");
        reveal_strlit("7");
        reveal_strlit("8");
        reveal_strlit("9");
    }
    let s: &str = if d == 0 {
        "0"
    } else if d == 1 {
        "1"
    } else if d == 2 {
        "2"
    } else if d == 3 {
        "3"
    } else if d == 4 {
        "4"
    } else if d == 5 {
        "5"
    } else if d == 6 {
        "6"
    } else if d == 7 {
        "7"
    } else if d == 8 {
        "8"
    } else {
        "9"
    };
    assert(s@ =~= seq![digit_char(d as int)]);
    out.append(s);
    assert(out@ =~= old(out)@.push(digit_char(d as int)));
}

/// Appends the decimal numeral of `n`.
pub fn push_decimal(out: &mut String, n: u64)
    ensures
        final(out)@ == old(out)@ + decimal(n as nat),
    decreases n,
{
    if n < 10 {
        push_digit(out, n);
        assert(out@ =~= old(out)@ + decimal(n as nat));
    } else {
        push_decimal(out, n / 10);
        push_digit(out, n % 10);
        assert(out@ =~= old(out)@ + decimal(n as nat));
    }
}

fn push_fraction(out: &mut String, frac: u64, unit: u64)
    requires
        frac == 0 || frac < 10 * unit,
        unit == 0 || unit == 1 || unit == 10 || unit == 100 || unit == 1_000 || unit == 10_000
            || unit == 100_000,
    ensures
        final(out)@ == old(out)@ + fraction_digits(frac as nat, unit as nat),
    decreases unit,
{
    if frac == 0 || unit == 0 {
        assert(out@ + fraction_digits(frac as nat, unit as nat) =~= out@);
        return;
    }
    push_digit(out, frac / unit);
    push_fraction(out, frac % unit, unit / 10);
    assert(out@ =~= old(out)@ + fraction_digits(frac as nat, unit as nat));
}

/// Appends a number of microseconds, in seconds.
pub fn push_seconds(out: &mut String, us: u64)
    ensures
        final(out)@ == old(out)@ + seconds_text(us as nat),
{
    push_decimal(out, us / 1_000_000);
    if us % 1_000_000 != 0 {
        out.append(".");
        push_fraction(out, us % 1_000_000, 100_000);
    }
    assert(out@ =~= old(out)@ + seconds_text(us as nat));
}

/// Appends the decimal numeral of a signed number.
pub fn push_signed(out: &mut String, n: i64)
    ensures
        final(out)@ == old(out)@ + signed_decimal(n as int),
{
    if n < 0 {
        let magnitude: u64 = (-(n as i128)) as u64;
        proof {
            reveal_strlit("-");
        }
        out.append("-");
        push_decimal(out, magnitude);
        assert("-"@ =~= seq!['-']);
        assert(out@ =~= old(out)@ + signed_decimal(n as int));
    } else {
        push_decimal(out, n as u64);
    }
}

/// Appends `true` or `false`.
pub fn push_bool(out: &mut String, b: bool)
    ensures
        final(out)@ == old(out)@ + bool_text(b),
{
    if b {
        out.append("true");
    } else {
        out.append("false");
    }
}

/// Whether two strings hold the same characters.
pub fn same_text(a: &str, b: &str) -> (r: bool)
    ensures
        r == (a@ == b@),
{
    a.to_owned() == b.to_owned()
}

fn matches_at(hay: &Vec<char>, needle: &Vec<char>, i: usize) -> (r: bool)
    requires
        i + needle@.len() <= hay@.len(),
    ensures
        r == occurs_at(hay@, needle@, i as int),
{
    let hay_len: usize = hay.len();
    let mut j: usize = 0;
    while j < needle.len()
        invariant
            j <= needle@.len(),
            hay_len == hay@.len(),
            i + needle@.len() <= hay@.len(),
            forall|k: int| 0 <= k < j ==> hay@[i + k] == #[trigger] needle@[k],
        decreases needle@.len() - j,
    {
        if hay[i + j] != needle[j] {
            assert(hay@.subrange(i as int, i + needle@.len())[j as int] != needle@[j as int]);
            return false;
        }
        j += 1;
    }
    assert(hay@.subrange(i as int, i + needle@.len()) =~= needle@);
    true
}

/// Whether `needle` occurs in `hay`.
pub fn contains(hay: &str, needle: &str) -> (r: bool)
    ensures
        r == has_substring(hay@, needle@),
{
    let h = chars_of(hay);
    let n = chars_of(needle);
    if n.len() > h.len() {
        return false;
    }
    let last: usize = h.len() - n.len();
    let mut i: usize = 0;
    while i <= last
        invariant
            h@ == hay@,
            n@ == needle@,
            last == h@.len() - n@.len(),
            i <= last + 1,
            forall|k: int| 0 <= k < i ==> !occurs_at(h@, n@, k),
        decreases last + 1 - i,
    {
        if matches_at(&h, &n, i) {
            return true;
        }
        if i == last {
            assert forall|k: int| !occurs_at(hay@, needle@, k) by {}
            return false;
        }
        i += 1;
    }
    false
}

/// Whether `s` begins with `prefix`.
pub fn starts_with(s: &str, prefix: &str) -> (r: bool)
    ensures
        r == has_prefix(s@, prefix@),
{
    let h = chars_of(s);
    let n = chars_of(prefix);
    if n.len() > h.len() {
        return false;
    }
    matches_at(&h, &n, 0)
}

proof fn lemma_digits_value_grows(s: Seq<char>, k: int)
    requires
        0 <= k <= s.len(),
        all_digits(s),
    ensures
        digits_value(s.take(k)) <= digits_value(s),
    decreases s.len() - k,
{
    if k == s.len() {
        assert(s.take(k) =~= s);
    } else {
        lemma_digits_value_grows(s, k + 1);
        assert(s.take(k + 1).drop_last() =~= s.take(k));
        assert(is_digit(s[k]));
    }
}

/// Reads digits as a number, unless it exceeds `max`.
fn read_digits(s: &Vec<char>, from: usize, max: u64) -> (r: Option<u64>)
    requires
        from <= s@.len(),
    ensures
        ({
            let digits = s@.skip(from as int);
            r == if digits.len() > 0 && all_digits(digits) && digits_value(digits) <= max {
                Some(digits_value(digits) as u64)
            } else {
                None
            }
        }),
{
    let ghost digits = s@.skip(from as int);
    if from == s.len() {
        return None;
    }
    let mut value: u64 = 0;
    let mut i: usize = from;
    assert(digits.take(0) =~= seq![]);
    while i < s.len()
        invariant
            digits == s@.skip(from as int),
            from <= i <= s@.len(),
            all_digits(digits.take(i - from)),
            value == digits_value(digits.take(i - from)),
            value <= max,
        decreases s@.len() - i,
    {
        let c: char = s[i];
        assert(digits[i - from] == c);
        if !('0' <= c && c <= '9') {
            assert(!is_digit(digits[i - from]));
            return None;
        }
        let d: u64 = (c as u32 - 48) as u64;
        let wide: u128 = value as u128 * 10 + d as u128;
        proof {
            let next = digits.take(i + 1 - from);
            assert(next.drop_last() =~= digits.take(i - from));
            assert(next.last() == c);
            assert(wide == digits_value(next));
            assert forall|k: int| 0 <= k < next.len() implies is_digit(#[trigger] next[k]) by {
                if k < i - from {
                    assert(digits.take(i - from)[k] == next[k]);
                }
            }
            if wide > max && all_digits(digits) {
                lemma_digits_value_grows(digits, i + 1 - from);
            }
        }
        if wide > max as u128 {
            return None;
        }
        value = wide as u64;
        i += 1;
    }
    assert(digits.take(i - from) =~= digits);
    Some(value)
}

/// Reads an unsigned numeral of at most `max`.
pub fn parse_unsigned(s: &str, max: u64) -> (r: Option<u64>)
    ensures
        r == match numeral_up_to(s@, max as nat) {
            Some(n) => Some(n as u64),
            None => None,
        },
{
    let cs = chars_of(s);
    let from: usize = if cs.len() > 0 && cs[0] == '+' {
        1
    } else {
        0
    };
    assert(cs@.skip(0) =~= cs@);
    read_digits(&cs, from, max)
}

/// Reads a signed numeral that fits in 64 bits.
pub fn parse_signed(s: &str) -> (r: Option<i64>)
    ensures
        r == match signed_numeral(s@) {
            Some(n) => if i64::MIN <= n <= i64::MAX {
                Some(n as i64)
            } else {
                None
            },
            None => None,
        },
{
    let cs = chars_of(s);
    if cs.len() > 0 && cs[0] == '-' {
        match read_digits(&cs, 1, 0x8000_0000_0000_0000) {
            Some(m) => Some((-(m as i128)) as i64),
            None => None,
        }
    } else {
        let from: usize = if cs.len() > 0 && cs[0] == '+' {
            1
        } else {
            0
        };
        assert(cs@.skip(0) =~= cs@);
        match read_digits(&cs, from, 0x7fff_ffff_ffff_ffff) {
            Some(m) => Some(m as i64),
            None => None,
        }
    }
}

/// The position of the last `c` in `s`.
pub fn last_position(s: &Vec<char>, c: char) -> (r: Option<usize>)
    ensures
        match r {
            Some(i) => i < s@.len() && s@[i as int] == c && forall|j: int|
                i < j < s@.len() ==> s@[j] != c,
            None => forall|j: int| 0 <= j < s@.len() ==> s@[j] != c,
        },
{
    let mut i: usize = s.len();
    while i > 0
        invariant
            i <= s@.len(),
            forall|j: int| i <= j < s@.len() ==> s@[j] != c,
        decreases i,
    {
        if s[i - 1] == c {
            return Some(i - 1);
        }
        i -= 1;
    }
    None
}

fn space_char(c: char) -> (r: bool)
    ensures
        r == is_space(c),
{
    let n: u32 = c as u32;
    (9 <= n && n <= 13) || n == 0x20 || n == 0x85 || n == 0xa0 || n == 0x1680 || (0x2000 <= n && n
        <= 0x200a) || n == 0x2028 || n == 0x2029 || n == 0x202f || n == 0x205f || n == 0x3000
}

fn space_end(cs: &Vec<char>, from: usize) -> (r: usize)
    requires
        from <= cs@.len(),
    ensures
        r == from + space_run(cs@.skip(from as int)),
        r <= cs@.len(),
{
    let mut i: usize = from;
    let ghost whole = space_run(cs@.skip(from as int));
    while i < cs.len() && space_char(cs[i])
        invariant
            from <= i <= cs@.len(),
            whole == (i - from) + space_run(cs@.skip(i as int)),
        decreases cs@.len() - i,
    {
        assert(cs@.skip(i as int).skip(1) =~= cs@.skip(i + 1));
        assert(cs@.skip(i as int)[0] == cs@[i as int]);
        i += 1;
    }
    assert(i < cs@.len() ==> cs@.skip(i as int)[0] == cs@[i as int]);
    i
}

fn word_end(cs: &Vec<char>, from: usize) -> (r: usize)
    requires
        from <= cs@.len(),
    ensures
        r == from + word_run(cs@.skip(from as int)),
        r <= cs@.len(),
{
    let mut i: usize = from;
    let ghost whole = word_run(cs@.skip(from as int));
    while i < cs.len() && !space_char(cs[i])
        invariant
            from <= i <= cs@.len(),
            whole == (i - from) + word_run(cs@.skip(i as int)),
        decreases cs@.len() - i,
    {
        assert(cs@.skip(i as int).skip(1) =~= cs@.skip(i + 1));
        assert(cs@.skip(i as int)[0] == cs@[i as int]);
        i += 1;
    }
    assert(i < cs@.len() ==> cs@.skip(i as int)[0] == cs@[i as int]);
    i
}

/// The texts that a list of strings holds.
pub open spec fn texts(v: Seq<String>) -> Seq<Seq<char>> {
    v.map_values(|w: String| w@)
}

/// Splits a string into its words.
pub fn split_words(s: &str) -> (r: Vec<String>)
    ensures
        texts(r@) == words(s@),
{
    let cs = chars_of(s);
    let mut out: Vec<String> = Vec::new();
    let mut i: usize = 0;
    assert(cs@.skip(0) =~= s@);
    assert(texts(out@) + words(cs@.skip(0)) =~= words(s@));
    loop
        invariant
            cs@ == s@,
            i <= cs@.len(),
            texts(out@) + words(cs@.skip(i as int)) == words(s@),
        decreases cs@.len() - i,
    {
        let start: usize = space_end(&cs, i);
        let ghost rest = cs@.skip(i as int).skip(space_run(cs@.skip(i as int)) as int);
        assert(rest =~= cs@.skip(start as int));
        if start == cs.len() {
            assert(texts(out@) =~= words(s@));
            return out;
        }
        let end: usize = word_end(&cs, start);
        proof {
            lemma_space_run(cs@.skip(i as int));
            lemma_word_run(rest);
            assert(rest.take(word_run(rest) as int) =~= s@.subrange(start as int, end as int));
            assert(rest.skip(word_run(rest) as int) =~= cs@.skip(end as int));
        }
        let ghost before = out@;
        out.push(s.substring_char(start, end).to_owned());
        assert(texts(out@) =~= texts(before).push(s@.subrange(start as int, end as int)));
        assert(texts(out@) + words(cs@.skip(end as int)) =~= texts(before) + words(
            cs@.skip(i as int),
        ));
        i = end;
    }
}

/// A numeral reads back as the number it was made of. It has no leading zero,
/// so that no other numeral stands for that number.
pub proof fn law_numerals_read_back(n: nat)
    ensures
        decimal(n).len() > 0,
        all_digits(decimal(n)),
        digits_value(decimal(n)) == n,
        n > 0 ==> decimal(n)[0] != '0',
        unsigned_numeral(decimal(n)) == Some(n),
    decreases n,
{
    let s = decimal(n);
    if n >= 10 {
        law_numerals_read_back(n / 10);
        assert(s.drop_last() =~= decimal(n / 10));
        assert(s[0] == decimal(n / 10)[0]);
        assert forall|i: int| 0 <= i < s.len() implies is_digit(#[trigger] s[i]) by {
            if i < s.len() - 1 {
                assert(s[i] == decimal(n / 10)[i]);
            }
        }
    } else {
        assert(s.drop_last() =~= Seq::<char>::empty());
        reveal_with_fuel(digits_value, 2);
    }
}

/// A signed numeral reads back as well.
pub proof fn law_signed_numerals_read_back(n: int)
    ensures
        signed_numeral(signed_decimal(n)) == Some(n),
{
    if n < 0 {
        law_numerals_read_back((-n) as nat);
        assert(signed_decimal(n).skip(1) =~= decimal((-n) as nat));
    } else {
        law_numerals_read_back(n as nat);
    }
}

/// Two numbers with the same numeral are the same number.
pub proof fn law_numerals_are_distinct(a: nat, b: nat)
    ensures
        decimal(a) == decimal(b) ==> a == b,
{
    law_numerals_read_back(a);
    law_numerals_read_back(b);
}

/// One line that gives a value of a series.
pub open spec fn value_line(series: Seq<char>, value: Seq<char>) -> Seq<char> {
    series + " "@ + value + "\n"@
}

/// Whether a text is made of whole lines.
pub open spec fn whole_lines(text: Seq<char>) -> bool {
    text.len() > 0 ==> text.last() == '\n'
}

/// Whether `line` is a line of a text, between what comes before and after it.
pub open spec fn line_between(
    text: Seq<char>,
    before: Seq<char>,
    line: Seq<char>,
    after: Seq<char>,
) -> bool {
    text == before + line + after && whole_lines(before)
}

/// Whether two texts differ in nothing but one line: in `a` it gives the value
/// `x` of a series, in `b` the value `y`.
#[verifier::opaque]
pub open spec fn one_line_apart(
    a: Seq<char>,
    b: Seq<char>,
    series: Seq<char>,
    x: Seq<char>,
    y: Seq<char>,
) -> bool {
    exists|before: Seq<char>, after: Seq<char>|
        {
            &&& #[trigger] line_between(a, before, value_line(series, x), after)
            &&& line_between(b, before, value_line(series, y), after)
        }
}

/// Whether a line of a text gives this value of a series.
#[verifier::opaque]
pub open spec fn has_value(text: Seq<char>, series: Seq<char>, value: Seq<char>) -> bool {
    exists|before: Seq<char>, after: Seq<char>| #[trigger]
        line_between(text, before, value_line(series, value), after)
}

/// Where texts differ in one line, each has the line with its own value.
pub proof fn lemma_apart_has_values(
    a: Seq<char>,
    b: Seq<char>,
    series: Seq<char>,
    x: Seq<char>,
    y: Seq<char>,
)
    requires
        one_line_apart(a, b, series, x, y),
    ensures
        has_value(a, series, x),
        has_value(b, series, y),
{
    reveal(one_line_apart);
    reveal(has_value);
    let (before, after) = choose|before: Seq<char>, after: Seq<char>|
        {
            &&& #[trigger] line_between(a, before, value_line(series, x), after)
            &&& line_between(b, before, value_line(series, y), after)
        };
    assert(line_between(a, before, value_line(series, x), after));
    assert(line_between(b, before, value_line(series, y), after));
}

/// Lines of a series that give different values are one line apart.
pub proof fn lemma_lines_apart(
    before: Seq<char>,
    series: Seq<char>,
    x: Seq<char>,
    y: Seq<char>,
    after: Seq<char>,
)
    requires
        whole_lines(before),
    ensures
        one_line_apart(
            before + value_line(series, x) + after,
            before + value_line(series, y) + after,
            series,
            x,
            y,
        ),
{
    reveal(one_line_apart);
    assert(line_between(
        before + value_line(series, x) + after,
        before,
        value_line(series, x),
        after,
    ));
}

/// Texts that are one line apart stay so between the same other lines.
pub proof fn lemma_apart_between(
    head: Seq<char>,
    a: Seq<char>,
    b: Seq<char>,
    tail: Seq<char>,
    series: Seq<char>,
    x: Seq<char>,
    y: Seq<char>,
)
    requires
        whole_lines(head),
        one_line_apart(a, b, series, x, y),
    ensures
        one_line_apart(head + a + tail, head + b + tail, series, x, y),
{
    reveal(one_line_apart);
    let (before, after) = choose|before: Seq<char>, after: Seq<char>|
        {
            &&& #[trigger] line_between(a, before, value_line(series, x), after)
            &&& line_between(b, before, value_line(series, y), after)
        };
    assert(head + a + tail =~= (head + before) + value_line(series, x) + (after + tail));
    assert(head + b + tail =~= (head + before) + value_line(series, y) + (after + tail));
    assert(line_between(
        head + a + tail,
        head + before,
        value_line(series, x),
        after + tail,
    ));
}

/// What occurs in one of two texts occurs in both together.
pub proof fn lemma_substring_of_sum(a: Seq<char>, b: Seq<char>, needle: Seq<char>)
    ensures
        has_substring(a, needle) ==> has_substring(a + b, needle),
        has_substring(b, needle) ==> has_substring(a + b, needle),
{
    if has_substring(a, needle) {
        let i = choose|i: int| occurs_at(a, needle, i);
        assert((a + b).subrange(i, i + needle.len()) =~= a.subrange(i, i + needle.len()));
        assert(occurs_at(a + b, needle, i));
    }
    if has_substring(b, needle) {
        let i = choose|i: int| occurs_at(b, needle, i);
        let k = a.len() + i;
        assert((a + b).subrange(k, k + needle.len()) =~= b.subrange(i, i + needle.len()));
        assert(occurs_at(a + b, needle, k));
    }
}

/// A text occurs between any two others.
pub proof fn lemma_substring_between(a: Seq<char>, needle: Seq<char>, b: Seq<char>)
    ensures
        has_substring(a + needle + b, needle),
{
    let whole = a + needle + b;
    let i = a.len() as int;
    assert(whole.subrange(i, i + needle.len()) =~= needle);
    assert(occurs_at(whole, needle, i));
}

/// Whether `value` stands in a text right behind `mark`, and the character
/// `stop` ends it.
#[verifier::opaque]
pub open spec fn stands_between(
    text: Seq<char>,
    mark: Seq<char>,
    value: Seq<char>,
    stop: char,
) -> bool {
    exists|before: Seq<char>, after: Seq<char>|
        {
            &&& text == #[trigger] (before + mark + value + after)
            &&& after.len() > 0
            &&& after[0] == stop
        }
}

pub proof fn lemma_stands(
    before: Seq<char>,
    mark: Seq<char>,
    value: Seq<char>,
    after: Seq<char>,
    stop: char,
)
    requires
        after.len() > 0,
        after[0] == stop,
    ensures
        stands_between(before + mark + value + after, mark, value, stop),
{
    reveal(stands_between);
}

/// What stands in a text stands in it with more text behind.
pub proof fn lemma_stands_before(
    text: Seq<char>,
    tail: Seq<char>,
    mark: Seq<char>,
    value: Seq<char>,
    stop: char,
)
    requires
        stands_between(text, mark, value, stop),
    ensures
        stands_between(text + tail, mark, value, stop),
{
    reveal(stands_between);
    let (before, after) = choose|before: Seq<char>, after: Seq<char>|
        {
            &&& text == #[trigger] (before + mark + value + after)
            &&& after.len() > 0
            &&& after[0] == stop
        };
    assert(text + tail =~= before + mark + value + (after + tail));
    assert((after + tail)[0] == stop);
}

/// The same with more text in front.
pub proof fn lemma_stands_behind(
    head: Seq<char>,
    text: Seq<char>,
    mark: Seq<char>,
    value: Seq<char>,
    stop: char,
)
    requires
        stands_between(text, mark, value, stop),
    ensures
        stands_between(head + text, mark, value, stop),
{
    reveal(stands_between);
    let (before, after) = choose|before: Seq<char>, after: Seq<char>|
        {
            &&& text == #[trigger] (before + mark + value + after)
            &&& after.len() > 0
            &&& after[0] == stop
        };
    assert(head + text =~= (head + before) + mark + value + after);
}

/// A numeral ends where the first character comes that is no digit.
pub proof fn lemma_numeral_ends(m: nat, n: nat, a: Seq<char>, b: Seq<char>)
    requires
        a.len() > 0,
        b.len() > 0,
        !is_digit(a[0]),
        !is_digit(b[0]),
        decimal(m) + a == decimal(n) + b,
    ensures
        m == n,
        a == b,
{
    law_numerals_read_back(m);
    law_numerals_read_back(n);
    let (x, y) = (decimal(m), decimal(n));
    let whole = x + a;
    if x.len() < y.len() {
        assert(whole[x.len() as int] == a[0]);
        assert((y + b)[x.len() as int] == y[x.len() as int]);
        assert(false);
    }
    if y.len() < x.len() {
        assert((y + b)[y.len() as int] == b[0]);
        assert(whole[y.len() as int] == x[y.len() as int]);
        assert(false);
    }
    assert(whole.take(x.len() as int) =~= x);
    assert((y + b).take(y.len() as int) =~= y);
    assert(whole.skip(x.len() as int) =~= a);
    assert((y + b).skip(y.len() as int) =~= b);
}

/// Texts with the same beginning go on the same if they are the same.
pub proof fn lemma_same_beginning(head: Seq<char>, a: Seq<char>, b: Seq<char>)
    requires
        head + a == head + b,
    ensures
        a == b,
{
    assert((head + a).skip(head.len() as int) =~= a);
    assert((head + b).skip(head.len() as int) =~= b);
}

/// Four numerals between the same separators.
pub open spec fn four_numerals(
    head: Seq<char>,
    n: (nat, nat, nat, nat),
    s: (Seq<char>, Seq<char>, Seq<char>, Seq<char>),
) -> Seq<char> {
    head + decimal(n.0) + s.0 + decimal(n.1) + s.1 + decimal(n.2) + s.2 + decimal(n.3) + s.3
}

/// Numerals that are told apart by their separators can be read back.
pub proof fn lemma_four_numerals(
    head: Seq<char>,
    m: (nat, nat, nat, nat),
    n: (nat, nat, nat, nat),
    s: (Seq<char>, Seq<char>, Seq<char>, Seq<char>),
)
    requires
        four_numerals(head, m, s) == four_numerals(head, n, s),
        s.0.len() > 0 && !is_digit(s.0[0]),
        s.1.len() > 0 && !is_digit(s.1[0]),
        s.2.len() > 0 && !is_digit(s.2[0]),
        s.3.len() > 0 && !is_digit(s.3[0]),
    ensures
        m == n,
{
    let (a3, b3) = (decimal(m.3) + s.3, decimal(n.3) + s.3);
    let (a2, b2) = (decimal(m.2) + (s.2 + a3), decimal(n.2) + (s.2 + b3));
    let (a1, b1) = (decimal(m.1) + (s.1 + a2), decimal(n.1) + (s.1 + b2));
    let (a0, b0) = (decimal(m.0) + (s.0 + a1), decimal(n.0) + (s.0 + b1));
    lemma_nested(head, m, s);
    lemma_nested(head, n, s);
    lemma_same_beginning(head, a0, b0);
    lemma_numeral_ends(m.0, n.0, s.0 + a1, s.0 + b1);
    lemma_same_beginning(s.0, a1, b1);
    lemma_numeral_ends(m.1, n.1, s.1 + a2, s.1 + b2);
    lemma_same_beginning(s.1, a2, b2);
    lemma_numeral_ends(m.2, n.2, s.2 + a3, s.2 + b3);
    lemma_same_beginning(s.2, a3, b3);
    lemma_numeral_ends(m.3, n.3, s.3, s.3);
}

proof fn lemma_nested(
    head: Seq<char>,
    n: (nat, nat, nat, nat),
    s: (Seq<char>, Seq<char>, Seq<char>, Seq<char>),
)
    ensures
        four_numerals(head, n, s) == head + (decimal(n.0) + (s.0 + (decimal(n.1) + (s.1 + (decimal(
            n.2,
        ) + (s.2 + (decimal(n.3) + s.3))))))),
{
    let (a, b, c, d) = (decimal(n.0), decimal(n.1), decimal(n.2), decimal(n.3));
    assert(four_numerals(head, n, s) =~= head + (a + (s.0 + (b + (s.1 + (c + (s.2 + (d
        + s.3))))))));
}

/// Whether a text ends with another.
pub open spec fn ends_with(text: Seq<char>, end: Seq<char>) -> bool {
    occurs_at(text, end, text.len() - end.len())
}

pub proof fn lemma_ends_with(head: Seq<char>, end: Seq<char>)
    ensures
        ends_with(head + end, end),
{
    assert((head + end).subrange(head.len() as int, (head + end).len() as int) =~= end);
}

/// Whether a character never follows another in a text.
pub open spec fn never_follows(text: Seq<char>, first: char, second: char) -> bool {
    forall|i: int| 0 <= i < text.len() - 1 && #[trigger] text[i] == first ==> text[i + 1] != second
}

pub proof fn lemma_never_follows_sum(a: Seq<char>, b: Seq<char>, first: char, second: char)
    requires
        never_follows(a, first, second),
        never_follows(b, first, second),
        a.len() > 0 && b.len() > 0 ==> a.last() != first || b[0] != second,
    ensures
        never_follows(a + b, first, second),
{
    let c = a + b;
    assert forall|i: int| 0 <= i < c.len() - 1 && #[trigger] c[i] == first implies c[i + 1]
        != second by {
        if i < a.len() - 1 {
            assert(c[i] == a[i] && c[i + 1] == a[i + 1]);
        } else if i >= a.len() {
            assert(c[i] == b[i - a.len()] && c[i + 1] == b[i - a.len() + 1]);
        } else {
            assert(c[i] == a.last());
            assert(c[i + 1] == b[0]);
        }
    }
}

/// In a list of five members each value stands behind its name, up to the next
/// comma.
pub proof fn lemma_five_members(
    start: Seq<char>,
    m: (Seq<char>, Seq<char>, Seq<char>, Seq<char>, Seq<char>),
    v: (Seq<char>, Seq<char>, Seq<char>, Seq<char>, Seq<char>),
    end: Seq<char>,
)
    requires
        end.len() > 0,
        end[0] == ',',
    ensures
        ({
            let text = start + m.0 + v.0 + (","@ + m.1) + v.1 + (","@ + m.2) + v.2 + (","@ + m.3)
                + v.3 + (","@ + m.4) + v.4 + end;
            &&& stands_between(text, m.0, v.0, ',')
            &&& stands_between(text, m.1, v.1, ',')
            &&& stands_between(text, m.2, v.2, ',')
            &&& stands_between(text, m.3, v.3, ',')
            &&& stands_between(text, m.4, v.4, ',')
        }),
{
    reveal_strlit(",");
    let comma = ","@;
    let t0 = start + m.0 + v.0;
    let t1 = t0 + (comma + m.1) + v.1;
    let t2 = t1 + (comma + m.2) + v.2;
    let t3 = t2 + (comma + m.3) + v.3;
    let t4 = t3 + (comma + m.4) + v.4;
    let text = t4 + end;
    let r4 = (comma + m.4) + v.4 + end;
    let r3 = (comma + m.3) + v.3 + r4;
    let r2 = (comma + m.2) + v.2 + r3;
    let r1 = (comma + m.1) + v.1 + r2;
    lemma_stands(start, m.0, v.0, r1, ',');
    assert(text =~= start + m.0 + v.0 + r1);
    lemma_stands(t0 + comma, m.1, v.1, r2, ',');
    assert(text =~= (t0 + comma) + m.1 + v.1 + r2);
    lemma_stands(t1 + comma, m.2, v.2, r3, ',');
    assert(text =~= (t1 + comma) + m.2 + v.2 + r3);
    lemma_stands(t2 + comma, m.3, v.3, r4, ',');
    assert(text =~= (t2 + comma) + m.3 + v.3 + r4);
    lemma_stands(t3 + comma, m.4, v.4, end, ',');
    assert(text =~= (t3 + comma) + m.4 + v.4 + end);
}

/// A line among whole lines gives its value.
pub proof fn lemma_line_among(
    before: Seq<char>,
    line: Seq<char>,
    after: Seq<char>,
    series: Seq<char>,
    value: Seq<char>,
)
    requires
        whole_lines(before),
        line == value_line(series, value),
    ensures
        has_value(before + line + after, series, value),
{
    reveal(has_value);
    assert(line_between(before + line + after, before, value_line(series, value), after));
}

/// What a text says, it says with more behind it.
pub proof fn lemma_value_before(
    text: Seq<char>,
    more: Seq<char>,
    series: Seq<char>,
    value: Seq<char>,
)
    requires
        has_value(text, series, value),
    ensures
        has_value(text + more, series, value),
{
    reveal(has_value);
    let (before, after) = choose|before: Seq<char>, after: Seq<char>| #[trigger]
        line_between(text, before, value_line(series, value), after);
    assert(text + more =~= before + value_line(series, value) + (after + more));
    assert(line_between(text + more, before, value_line(series, value), after + more));
}

/// The same with whole lines in front of it.
pub proof fn lemma_value_behind(
    head: Seq<char>,
    text: Seq<char>,
    series: Seq<char>,
    value: Seq<char>,
)
    requires
        whole_lines(head),
        has_value(text, series, value),
    ensures
        has_value(head + text, series, value),
{
    reveal(has_value);
    let (before, after) = choose|before: Seq<char>, after: Seq<char>| #[trigger]
        line_between(text, before, value_line(series, value), after);
    assert(head + text =~= (head + before) + value_line(series, value) + after);
    assert(line_between(head + text, head + before, value_line(series, value), after));
}

/// Whole lines behind whole lines are whole lines.
pub proof fn lemma_whole_sum(a: Seq<char>, b: Seq<char>)
    requires
        whole_lines(a),
        whole_lines(b),
    ensures
        whole_lines(a + b),
{
    if b.len() == 0 {
        assert(a + b =~= a);
    } else {
        assert((a + b).last() == b.last());
    }
}

/// A word at the beginning of a text reaches to the first separator.
pub proof fn lemma_first_word(word: Seq<char>, rest: Seq<char>)
    requires
        forall|i: int| 0 <= i < word.len() ==> !is_space(#[trigger] word[i]),
        rest.len() > 0 ==> is_space(rest[0]),
    ensures
        word_run(word + rest) == word.len(),
    decreases word.len(),
{
    let text = word + rest;
    if word.len() == 0 {
        assert(text =~= rest);
    } else {
        let shorter = word.skip(1);
        assert(text.skip(1) =~= shorter + rest);
        assert forall|i: int| 0 <= i < shorter.len() implies !is_space(#[trigger] shorter[i]) by {
            assert(shorter[i] == word[i + 1]);
        }
        lemma_first_word(shorter, rest);
        assert(text[0] == word[0]);
    }
}

/// Words are what stands between separators: a word and what follows its
/// separator are the first word and the words behind it.
pub proof fn law_words_stand_between_separators(word: Seq<char>, space: char, rest: Seq<char>)
    requires
        word.len() > 0,
        forall|i: int| 0 <= i < word.len() ==> !is_space(#[trigger] word[i]),
        is_space(space),
    ensures
        words(word + seq![space] + rest) == seq![word] + words(rest),
        words(seq![space] + rest) == words(rest),
        words(word) == seq![word],
        words(Seq::<char>::empty()) == Seq::<Seq<char>>::empty(),
{
    let behind = seq![space] + rest;
    let text = word + seq![space] + rest;
    assert(text =~= word + behind);
    assert(text[0] == word[0]);
    assert(text.skip(0) =~= text);
    assert(behind[0] == space);
    lemma_first_word(word, behind);
    assert(text.take(word.len() as int) =~= word);
    assert(text.skip(word.len() as int) =~= behind);
    lemma_leading_space(space, rest);
    let none = Seq::<char>::empty();
    assert(word + none =~= word);
    lemma_first_word(word, none);
    assert(word.skip(0) =~= word);
    assert(word.take(word.len() as int) =~= word);
    assert(word.skip(word.len() as int) =~= none);
    assert(none.skip(0) =~= none);
    assert(words(none) =~= Seq::<Seq<char>>::empty());
    assert(words(word) =~= seq![word]);
}

proof fn lemma_leading_space(space: char, rest: Seq<char>)
    requires
        is_space(space),
    ensures
        words(seq![space] + rest) == words(rest),
{
    let text = seq![space] + rest;
    assert(text.skip(1) =~= rest);
    assert(text[0] == space);
    lemma_space_run(rest);
    assert(space_run(text) == 1 + space_run(rest));
    assert(text.skip(space_run(text) as int) =~= rest.skip(space_run(rest) as int));
}

/// A numeral is a word.
pub proof fn lemma_numeral_is_a_word(n: nat)
    ensures
        decimal(n).len() > 0,
        forall|i: int| 0 <= i < decimal(n).len() ==> !is_space(#[trigger] decimal(n)[i]),
{
    law_numerals_read_back(n);
    let s = decimal(n);
    assert forall|i: int| 0 <= i < s.len() implies !is_space(#[trigger] s[i]) by {
        assert(is_digit(s[i]));
    }
}

proof fn lemma_leading_digit(d: char, s: Seq<char>)
    requires
        is_digit(d),
        all_digits(s),
    ensures
        digits_value(seq![d] + s) == (d as int - 48) * pow(10, s.len()) + digits_value(s),
    decreases s.len(),
{
    let whole = seq![d] + s;
    reveal(pow);
    if s.len() == 0 {
        assert(whole.drop_last() =~= Seq::<char>::empty());
        reveal_with_fuel(digits_value, 2);
        assert(whole.last() == d);
    } else {
        let front = s.drop_last();
        assert(whole.drop_last() =~= seq![d] + front);
        assert(whole.last() == s.last());
        lemma_leading_digit(d, front);
        let (v, p) = (d as int - 48, pow(10, front.len()));
        assert((v * p) * 10 == v * (10 * p)) by (nonlinear_arith);
    }
}

proof fn lemma_fraction(frac: nat, k: nat)
    requires
        0 < frac < 10 * pow(10, k),
    ensures
        ({
            let s = fraction_digits(frac, pow(10, k) as nat);
            &&& 1 <= s.len() <= k + 1
            &&& all_digits(s)
            &&& s.last() != '0'
            &&& digits_value(s) * pow(10, (k + 1 - s.len()) as nat) == frac
        }),
    decreases k,
{
    reveal(pow);
    let unit = pow(10, k) as nat;
    lemma_pow_positive(10, k);
    let d = frac / unit;
    let rest = frac % unit;
    assert(d < 10 && frac == d * unit + rest) by (nonlinear_arith)
        requires
            d == frac / unit,
            rest == frac % unit,
            frac < 10 * unit,
            unit > 0,
    ;
    let c = digit_char(d as int);
    let s = fraction_digits(frac, unit);
    let tail = fraction_digits(rest, unit / 10);
    assert(s == seq![c] + tail);
    if rest == 0 {
        assert(tail =~= Seq::<char>::empty());
        assert(s =~= seq![c]);
        assert(s.drop_last() =~= Seq::<char>::empty());
        reveal_with_fuel(digits_value, 2);
        assert(digits_value(s) == d);
        assert(d > 0) by (nonlinear_arith)
            requires
                frac == d * unit + rest,
                rest == 0,
                frac > 0,
        ;
        assert(c != '0');
        assert((k + 1 - s.len()) as nat == k);
        assert(digits_value(s) * pow(10, (k + 1 - s.len()) as nat) == d * unit);
        assert forall|i: int| 0 <= i < s.len() implies is_digit(#[trigger] s[i]) by {
            assert(s[i] == c);
        }
    } else {
        assert(k > 0);
        let j = (k - 1) as nat;
        assert(unit / 10 == pow(10, j)) by {
            assert(unit == 10 * pow(10, j));
        }
        lemma_fraction(rest, j);
        lemma_leading_digit(c, tail);
        assert(s.last() == tail.last());
        let m = (k - tail.len()) as nat;
        vstd::arithmetic::power::lemma_pow_adds(10, tail.len(), m);
        let (p, q, v) = (pow(10, tail.len()), pow(10, m), digits_value(tail) as int);
        assert((d * p + v) * q == d * (p * q) + v * q) by (nonlinear_arith);
        assert(tail.len() + m == k);
        assert(p * q == unit);
        assert((j + 1 - tail.len()) as nat == m);
        assert((k + 1 - s.len()) as nat == m);
        assert(digits_value(s) == d * p + v);
        assert forall|i: int| 0 <= i < s.len() implies is_digit(#[trigger] s[i]) by {
            if i > 0 {
                assert(s[i] == tail[i - 1]);
            }
        }
    }
}

/// A number of microseconds, written in seconds, reads back: in front of the
/// point stand the whole seconds, behind it, in at most six digits and without
/// trailing zeros, the rest.
pub proof fn law_seconds_read_back(us: nat)
    ensures
        us % 1_000_000 == 0 ==> seconds_text(us) == decimal(us / 1_000_000),
        us % 1_000_000 != 0 ==> exists|digits: Seq<char>|
            {
                &&& seconds_text(us) == #[trigger] (decimal(us / 1_000_000) + "."@ + digits)
                &&& 1 <= digits.len() <= 6
                &&& all_digits(digits)
                &&& digits.last() != '0'
                &&& digits_value(digits) * pow(10, (6 - digits.len()) as nat) == us % 1_000_000
            },
{
    if us % 1_000_000 != 0 {
        assert(pow(10, 5) == 100_000) by {
            reveal_with_fuel(pow, 6);
        }
        lemma_fraction(us % 1_000_000, 5);
        let digits = fraction_digits(us % 1_000_000, 100_000);
        assert(seconds_text(us) == decimal(us / 1_000_000) + "."@ + digits);
    }
}

/// Three numerals between the same separators.
pub open spec fn three_numerals(
    head: Seq<char>,
    n: (nat, nat, nat),
    s: (Seq<char>, Seq<char>, Seq<char>),
) -> Seq<char> {
    head + decimal(n.0) + s.0 + decimal(n.1) + s.1 + decimal(n.2) + s.2
}

/// Three numerals that are told apart by their separators can be read back.
pub proof fn lemma_three_numerals(
    head: Seq<char>,
    m: (nat, nat, nat),
    n: (nat, nat, nat),
    s: (Seq<char>, Seq<char>, Seq<char>),
)
    requires
        three_numerals(head, m, s) == three_numerals(head, n, s),
        s.0.len() > 0 && !is_digit(s.0[0]),
        s.1.len() > 0 && !is_digit(s.1[0]),
        s.2.len() > 0 && !is_digit(s.2[0]),
    ensures
        m == n,
{
    let (a2, b2) = (decimal(m.2) + s.2, decimal(n.2) + s.2);
    let (a1, b1) = (decimal(m.1) + (s.1 + a2), decimal(n.1) + (s.1 + b2));
    let (a0, b0) = (decimal(m.0) + (s.0 + a1), decimal(n.0) + (s.0 + b1));
    lemma_nested_three(head, m, s);
    lemma_nested_three(head, n, s);
    lemma_same_beginning(head, a0, b0);
    lemma_numeral_ends(m.0, n.0, s.0 + a1, s.0 + b1);
    lemma_same_beginning(s.0, a1, b1);
    lemma_numeral_ends(m.1, n.1, s.1 + a2, s.1 + b2);
    lemma_same_beginning(s.1, a2, b2);
    lemma_numeral_ends(m.2, n.2, s.2, s.2);
}

proof fn lemma_nested_three(
    head: Seq<char>,
    n: (nat, nat, nat),
    s: (Seq<char>, Seq<char>, Seq<char>),
)
    ensures
        three_numerals(head, n, s) == head + (decimal(n.0) + (s.0 + (decimal(n.1) + (s.1 + (decimal(
            n.2,
        ) + s.2))))),
{
    let (a, b, c) = (decimal(n.0), decimal(n.1), decimal(n.2));
    assert(three_numerals(head, n, s) =~= head + (a + (s.0 + (b + (s.1 + (c + s.2))))));
}

/// Numerals are read digit by digit: leading zeros add nothing, a digit behind
/// multiplies by ten, and a sign in front, where one is allowed, does what it
/// says. What is empty, or holds anything else, is no number.
pub proof fn law_numerals_are_read_digit_by_digit(s: Seq<char>, d: char, max: nat)
    requires
        all_digits(s),
        s.len() > 0,
        is_digit(d),
    ensures
        unsigned_numeral(s) == Some(digits_value(s)),
        unsigned_numeral(seq!['+'] + s) == Some(digits_value(s)),
        unsigned_numeral(seq!['-'] + s) is None,
        unsigned_numeral(seq!['0'] + s) == Some(digits_value(s)),
        unsigned_numeral(s.push(d)) == Some((10 * digits_value(s) + (d as int - 48)) as nat),
        unsigned_numeral(s.push(' ')) is None,
        unsigned_numeral(Seq::<char>::empty()) is None,
        unsigned_numeral(seq!['+']) is None,
        signed_numeral(seq!['-'] + s) == Some(-(digits_value(s) as int)),
        signed_numeral(s) == Some(digits_value(s) as int),
        numeral_up_to(s, max) is Some <==> digits_value(s) <= max,
        numeral_up_to(s, max) matches Some(n) ==> n == digits_value(s),
{
    assert(is_digit(s[0]));
    let plus = seq!['+'] + s;
    let minus = seq!['-'] + s;
    assert(plus.skip(1) =~= s);
    assert(minus.skip(1) =~= s);
    assert(minus[0] == '-' && !is_digit(minus[0]));
    let zero = seq!['0'] + s;
    assert forall|i: int| 0 <= i < zero.len() implies is_digit(#[trigger] zero[i]) by {
        if i > 0 {
            assert(zero[i] == s[i - 1]);
        }
    }
    lemma_leading_digit('0', s);
    let longer = s.push(d);
    assert(longer.drop_last() =~= s);
    assert forall|i: int| 0 <= i < longer.len() implies is_digit(#[trigger] longer[i]) by {
        if i < s.len() {
            assert(longer[i] == s[i]);
        }
    }
    let spoiled = s.push(' ');
    assert(spoiled[0] == s[0]);
    assert(spoiled[s.len() as int] == ' ' && !is_digit(' '));
    assert(seq!['+'].skip(1) =~= Seq::<char>::empty());
}

/// Of the ASCII characters the blank and the five that move the cursor separate
/// words; what can be seen separates none, nor does any letter or digit.
pub proof fn law_only_blanks_separate(c: char)
    requires
        (c as int) < 128,
    ensures
        is_space(c) <==> c == ' ' || c == '\t' || c == '\n' || c == '\r' || c as int == 11 || c as int
            == 12,
        is_digit(c) ==> !is_space(c),
        33 <= c as int ==> !is_space(c),
{
}

} // verus!
