//! Characters, numerals and the parts of a text.

use vstd::prelude::*;
use vstd::std_specs::iter::IteratorSpec;
use vstd::string::*;

verus! {

/// Copies the characters of `s` into a vector.
pub fn to_chars(s: &str) -> (out: Vec<char>)
    ensures
        out@ == s@,
{
    let mut out: Vec<char> = Vec::new();
    let mut it = s.chars();
    let ghost mut n: int = 0;
    let mut done = false;
    while !done
        invariant
            0 <= n <= s@.len(),
            out@ == s@.subrange(0, n),
            it.remaining() == s@.subrange(n, s@.len() as int),
            it.obeys_prophetic_iter_laws(),
            done ==> n == s@.len(),
        decreases s@.len() - n + (if done { 0int } else { 1int }),
    {
        match it.next() {
            Some(c) => {
                out.push(c);
                proof { n = n + 1; }
            },
            None => {
                done = true;
            },
        }
    }
    out
}

/// Whether `a` and `b` hold the same characters.
pub fn same_text(a: &str, b: &str) -> (r: bool)
    ensures
        r == (a@ == b@),
{
    let x = String::from_str(a);
    let y = String::from_str(b);
    x == y
}

/// The character that stands for the digit `d`.
pub open spec fn digit_char(d: nat) -> char {
    if d == 0 {
        '0'
    } else if d == 1 {
        '1'
    } else if d == 2 {
        '2'
    } else if d == 3 {
        '3'
    } else if d == 4 {
        '4'
    } else if d == 5 {
        '5'
    } else if d == 6 {
        '6'
    } else if d == 7 {
        '7'
    } else if d == 8 {
        '8'
    } else {
        '9'
    }
}

/// The decimal numeral of `n`, without leading zeros.
pub open spec fn decimal(n: nat) -> Seq<char>
    decreases n,
{
    if n < 10 {
        seq![digit_char(n)]
    } else {
        decimal(n / 10).push(digit_char(n % 10))
    }
}

/// A numeral has at least one digit.
pub proof fn lemma_decimal_len(n: nat)
    ensures
        decimal(n).len() >= 1,
    decreases n,
{
    if n >= 10 {
        lemma_decimal_len(n / 10);
    }
}

/// Two numbers with the same numeral are the same number.
pub proof fn lemma_decimal_injective(a: nat, b: nat)
    requires
        decimal(a) == decimal(b),
    ensures
        a == b,
    decreases a,
{
    if a < 10 && b < 10 {
        assert(decimal(a)[0] == digit_char(a));
        assert(decimal(b)[0] == digit_char(b));
        assert(a == b);
    } else if a < 10 {
        lemma_decimal_len(b / 10);
        assert(decimal(a).len() == 1);
        assert(decimal(b).len() == decimal(b / 10).len() + 1);
        assert(false);
    } else if b < 10 {
        lemma_decimal_len(a / 10);
        assert(decimal(b).len() == 1);
        assert(decimal(a).len() == decimal(a / 10).len() + 1);
        assert(false);
    } else {
        let x = decimal(a / 10).push(digit_char(a % 10));
        let y = decimal(b / 10).push(digit_char(b % 10));
        assert(decimal(a) == x);
        assert(decimal(b) == y);
        assert(x.drop_last() =~= decimal(a / 10));
        assert(y.drop_last() =~= decimal(b / 10));
        assert(x.last() == digit_char(a % 10));
        assert(y.last() == digit_char(b % 10));
        lemma_decimal_injective(a / 10, b / 10);
        assert(a / 10 == b / 10);
        assert(a % 10 == b % 10);
    }
}

/// A numeral holds nothing but digits.
pub proof fn lemma_decimal_digits(n: nat)
    ensures
        forall|i: int| 0 <= i < decimal(n).len() ==> is_digit(#[trigger] decimal(n)[i]),
    decreases n,
{
    if n >= 10 {
        lemma_decimal_digits(n / 10);
        let front = decimal(n / 10);
        assert forall|i: int| 0 <= i < decimal(n).len() implies is_digit(
            #[trigger] decimal(n)[i],
        ) by {
            if i < front.len() {
                assert(decimal(n)[i] == front[i]);
            } else {
                assert(decimal(n)[i] == digit_char(n % 10));
            }
        }
    } else {
        assert(decimal(n)[0] == digit_char(n));
    }
}

/// A text made of a name, a dot and a numeral gives back the name and the
/// number: two such texts are equal only if their names are equal and
/// their numbers are.
pub proof fn lemma_numbered_injective(a: Seq<char>, n: nat, b: Seq<char>, m: nat)
    requires
        a + "."@ + decimal(n) == b + "."@ + decimal(m),
    ensures
        a == b,
        n == m,
{
    reveal_strlit(".");
    let x = a + "."@ + decimal(n);
    let y = b + "."@ + decimal(m);
    lemma_decimal_digits(n);
    lemma_decimal_digits(m);
    assert(x.len() == a.len() + 1 + decimal(n).len());
    assert(y.len() == b.len() + 1 + decimal(m).len());
    if decimal(n).len() < decimal(m).len() {
        let at = a.len() as int;
        assert(x[at] == '.');
        assert(y[at] == decimal(m)[at - b.len() - 1]);
        assert(is_digit(decimal(m)[at - b.len() - 1]));
        assert(false);
    } else if decimal(m).len() < decimal(n).len() {
        let at = b.len() as int;
        assert(y[at] == '.');
        assert(x[at] == decimal(n)[at - a.len() - 1]);
        assert(is_digit(decimal(n)[at - a.len() - 1]));
        assert(false);
    } else {
        assert(x.take(a.len() as int) =~= a);
        assert(y.take(b.len() as int) =~= b);
        assert(x.skip(a.len() as int + 1) =~= decimal(n));
        assert(y.skip(b.len() as int + 1) =~= decimal(m));
        lemma_decimal_injective(n, m);
    }
}

/// Texts that differ still differ before a common end.
pub proof fn lemma_common_end(x: Seq<char>, y: Seq<char>, end: Seq<char>)
    requires
        x + end == y + end,
    ensures
        x == y,
{
    assert((x + end).len() == x.len() + end.len());
    assert((y + end).len() == y.len() + end.len());
    assert((x + end).take(x.len() as int) =~= x);
    assert((y + end).take(y.len() as int) =~= y);
}

/// Texts that differ still differ behind a common start.
pub proof fn lemma_common_start(start: Seq<char>, x: Seq<char>, y: Seq<char>)
    requires
        start + x == start + y,
    ensures
        x == y,
{
    assert((start + x).skip(start.len() as int) =~= x);
    assert((start + y).skip(start.len() as int) =~= y);
}

fn digit_str(d: u64) -> (r: &'static str)
    requires
        d < 10,
    ensures
        r@ == seq![digit_char(d as nat)],
{
    proof {
        reveal_strlit("0");
        reveal_strlit("1");
        reveal_strlit("2");
        reveal_strlit("3");
        reveal_strlit("4");
        reveal_strlit("5");
        reveal_strlit("6");
        reveal_strlit("7");
        reveal_strlit("8");
        reveal_strlit("9");
    }
    let r = if d == 0 {
        "0"
    } else if d == 1 {
        "1"
    } else if d == 2 {
        "2"
    } else if d == 3 {
        "3"
    } else if d == 4 {
        "4"
    } else if d == 5 {
        "5"
    } else if d == 6 {
        "6"
    } else if d == 7 {
        "7"
    } else if d == 8 {
        "8"
    } else {
        "9"
    };
    assert(r@ =~= seq![digit_char(d as nat)]);
    r
}

/// Writes `n` as a decimal numeral.
pub fn decimal_string(n: u64) -> (r: String)
    ensures
        r@ == decimal(n as nat),
    decreases n,
{
    if n < 10 {
        String::from_str(digit_str(n))
    } else {
        let mut r = decimal_string(n / 10);
        r.append(digit_str(n % 10));
        assert(r@ =~= decimal(n as nat));
        r
    }
}

/// Whether `c` is white space: a character with the Unicode property
/// `White_Space`.
pub open spec fn is_whitespace(c: char) -> bool {
    let n = c as u32;
    (0x09 <= n <= 0x0D) || n == 0x20 || n == 0x85 || n == 0xA0 || n == 0x1680 || (0x2000 <= n
        <= 0x200A) || n == 0x2028 || n == 0x2029 || n == 0x202F || n == 0x205F || n == 0x3000
}

/// Whether `c` is white space.
pub fn is_space(c: char) -> (r: bool)
    ensures
        r == is_whitespace(c),
{
    let n = c as u32;
    (0x09 <= n && n <= 0x0D) || n == 0x20 || n == 0x85 || n == 0xA0 || n == 0x1680 || (0x2000 <= n
        && n <= 0x200A) || n == 0x2028 || n == 0x2029 || n == 0x202F || n == 0x205F || n == 0x3000
}

/// `s` without the white space at its start.
pub open spec fn trim_start(s: Seq<char>) -> Seq<char>
    decreases s.len(),
{
    if s.len() > 0 && is_whitespace(s[0]) {
        trim_start(s.skip(1))
    } else {
        s
    }
}

/// `s` without the white space at its end.
pub open spec fn trim_end(s: Seq<char>) -> Seq<char>
    decreases s.len(),
{
    if s.len() > 0 && is_whitespace(s.last()) {
        trim_end(s.drop_last())
    } else {
        s
    }
}

/// `s` without the white space at its start and at its end.
pub open spec fn trimmed(s: Seq<char>) -> Seq<char> {
    trim_end(trim_start(s))
}

/// The part of `s` without the white space at its start and at its end.
pub fn trim<'a>(s: &'a str) -> (r: &'a str)
    ensures
        r@ == trimmed(s@),
{
    let chars = to_chars(s);
    let n = chars.len();
    let mut a: usize = 0;
    assert(s@.skip(0) =~= s@);
    while a < n && is_space(chars[a])
        invariant
            chars@ == s@,
            n == chars@.len(),
            a <= n,
            trim_start(s@) == trim_start(s@.skip(a as int)),
        decreases n - a,
    {
        assert(s@.skip(a as int).skip(1) =~= s@.skip(a + 1));
        a = a + 1;
    }
    assert(trim_start(s@) == s@.skip(a as int));
    let mut b: usize = n;
    assert(s@.subrange(a as int, n as int) =~= s@.skip(a as int));
    while b > a && is_space(chars[b - 1])
        invariant
            chars@ == s@,
            n == chars@.len(),
            a <= b <= n,
            trimmed(s@) == trim_end(s@.subrange(a as int, b as int)),
        decreases b,
    {
        assert(s@.subrange(a as int, b as int).drop_last() =~= s@.subrange(a as int, b - 1));
        b = b - 1;
    }
    s.substring_char(a, b)
}

/// Whether `s` starts with `prefix`.
pub open spec fn has_prefix(s: Seq<char>, prefix: Seq<char>) -> bool {
    prefix.len() <= s.len() && s.take(prefix.len() as int) == prefix
}

/// What follows `prefix` in `s`, where `s` starts with it.
pub open spec fn without_prefix(s: Seq<char>, prefix: Seq<char>) -> Option<Seq<char>> {
    if has_prefix(s, prefix) {
        Some(s.skip(prefix.len() as int))
    } else {
        None
    }
}

/// The characters of an optional string.
pub open spec fn option_view(s: Option<&str>) -> Option<Seq<char>> {
    match s {
        Some(s) => Some(s@),
        None => None,
    }
}

/// The part of `s` that follows `prefix`, where `s` starts with it.
pub fn strip_prefix<'a>(s: &'a str, prefix: &str) -> (r: Option<&'a str>)
    ensures
        option_view(r) == without_prefix(s@, prefix@),
{
    let chars = to_chars(s);
    let start = to_chars(prefix);
    if start.len() > chars.len() {
        return None;
    }
    let mut i: usize = 0;
    while i < start.len()
        invariant
            chars@ == s@,
            start@ == prefix@,
            start@.len() <= chars@.len(),
            i <= start@.len(),
            s@.take(i as int) == prefix@.take(i as int),
        decreases start.len() - i,
    {
        if chars[i] != start[i] {
            assert(s@.take(prefix@.len() as int)[i as int] != prefix@[i as int]);
            return None;
        }
        assert(s@.take(i + 1) =~= s@.take(i as int).push(s@[i as int]));
        assert(prefix@.take(i + 1) =~= prefix@.take(i as int).push(prefix@[i as int]));
        i = i + 1;
    }
    assert(prefix@.take(prefix@.len() as int) =~= prefix@);
    assert(s@.subrange(start@.len() as int, chars@.len() as int) =~= s@.skip(prefix@.len() as int));
    Some(s.substring_char(start.len(), chars.len()))
}

/// `s` up to the first two slashes in a row, or all of it where it has none.
pub open spec fn without_comment(s: Seq<char>) -> Seq<char>
    decreases s.len(),
{
    if s.len() < 2 {
        s
    } else if s[0] == '/' && s[1] == '/' {
        Seq::<char>::empty()
    } else {
        seq![s[0]] + without_comment(s.skip(1))
    }
}

/// The part of `s` before the first two slashes in a row.
pub fn before_comment<'a>(s: &'a str) -> (r: &'a str)
    ensures
        r@ == without_comment(s@),
{
    let chars = to_chars(s);
    let n = chars.len();
    let mut i: usize = 0;
    assert(s@.skip(0) =~= s@);
    assert(s@.take(0) + without_comment(s@) =~= without_comment(s@));
    while n - i >= 2 && !(chars[i] == '/' && chars[i + 1] == '/')
        invariant
            chars@ == s@,
            n == chars@.len(),
            i <= n,
            without_comment(s@) == s@.take(i as int) + without_comment(s@.skip(i as int)),
        decreases n - i,
    {
        let ghost rest = s@.skip(i as int);
        assert(rest.skip(1) =~= s@.skip(i + 1));
        assert(s@.take(i as int) + (seq![rest[0]] + without_comment(rest.skip(1))) =~= s@.take(i + 1)
            + without_comment(s@.skip(i + 1)));
        i = i + 1;
    }
    let ghost rest = s@.skip(i as int);
    if n - i >= 2 {
        assert(without_comment(rest) =~= Seq::<char>::empty());
        assert(s@.take(i as int) + Seq::<char>::empty() =~= s@.subrange(0, i as int));
        s.substring_char(0, i)
    } else {
        assert(without_comment(rest) == rest);
        assert(s@.take(i as int) + rest =~= s@.subrange(0, n as int));
        s.substring_char(0, n)
    }
}

/// The number of characters at the start of `s` that are no white space.
pub open spec fn word_len(s: Seq<char>) -> nat
    decreases s.len(),
{
    if s.len() > 0 && !is_whitespace(s[0]) {
        1 + word_len(s.skip(1))
    } else {
        0
    }
}

/// The words of `s`: its longest runs of characters that are no white space,
/// in order.
pub open spec fn words(s: Seq<char>) -> Seq<Seq<char>>
    decreases s.len(),
    via words_decreases
{
    if s.len() == 0 {
        Seq::<Seq<char>>::empty()
    } else if is_whitespace(s[0]) {
        words(s.skip(1))
    } else {
        let n = word_len(s);
        seq![s.take(n as int)] + words(s.skip(n as int))
    }
}

#[via_fn]
proof fn words_decreases(s: Seq<char>) {
    lemma_word_len_bound(s);
}

/// A word is never longer than the text it starts.
pub proof fn lemma_word_len_bound(s: Seq<char>)
    ensures
        word_len(s) <= s.len(),
        s.len() > 0 && !is_whitespace(s[0]) ==> word_len(s) >= 1,
    decreases s.len(),
{
    if s.len() > 0 && !is_whitespace(s[0]) {
        lemma_word_len_bound(s.skip(1));
    }
}

/// The characters of each owned string of a list, in order.
pub open spec fn string_views(strings: Seq<String>) -> Seq<Seq<char>> {
    Seq::new(strings.len(), |i: int| strings[i]@)
}

/// The characters of each string of a list, in order.
pub open spec fn texts(parts: Seq<&str>) -> Seq<Seq<char>> {
    Seq::new(parts.len(), |i: int| parts[i]@)
}

/// The words of `s`, split at white space.
pub fn split_whitespace<'a>(s: &'a str) -> (parts: Vec<&'a str>)
    ensures
        texts(parts@) == words(s@),
{
    let chars = to_chars(s);
    let n = chars.len();
    let mut parts: Vec<&'a str> = Vec::new();
    let mut i: usize = 0;
    assert(s@.skip(0) =~= s@);
    assert(texts(parts@) + words(s@) =~= words(s@));
    while i < n
        invariant
            chars@ == s@,
            n == chars@.len(),
            i <= n,
            words(s@) == texts(parts@) + words(s@.skip(i as int)),
        decreases n - i,
    {
        let ghost rest = s@.skip(i as int);
        if is_space(chars[i]) {
            assert(rest.skip(1) =~= s@.skip(i + 1));
            i = i + 1;
        } else {
            let mut j: usize = i + 1;
            assert(rest.skip(1) =~= s@.skip(j as int));
            while j < n && !is_space(chars[j])
                invariant
                    chars@ == s@,
                    n == chars@.len(),
                    i < j <= n,
                    rest == s@.skip(i as int),
                    word_len(rest) == (j - i) + word_len(s@.skip(j as int)),
                decreases n - j,
            {
                assert(s@.skip(j as int).skip(1) =~= s@.skip(j + 1));
                j = j + 1;
            }
            proof {
                lemma_word_len_bound(rest);
                assert(word_len(s@.skip(j as int)) == 0);
                assert(rest.take(j - i) =~= s@.subrange(i as int, j as int));
                assert(rest.skip(j - i) =~= s@.skip(j as int));
            }
            let ghost before = texts(parts@);
            parts.push(s.substring_char(i, j));
            assert(texts(parts@) =~= before + seq![s@.subrange(i as int, j as int)]);
            assert(before + (seq![s@.subrange(i as int, j as int)] + words(s@.skip(j as int)))
                =~= texts(parts@) + words(s@.skip(j as int)));
            i = j;
        }
    }
    assert(texts(parts@) + words(s@.skip(n as int)) =~= texts(parts@));
    parts
}

/// The number of characters of `s` before its first newline.
pub open spec fn line_len(s: Seq<char>) -> nat
    decreases s.len(),
{
    if s.len() > 0 && s[0] != '\n' {
        1 + line_len(s.skip(1))
    } else {
        0
    }
}

/// The lines of `s`: the runs of characters between its newlines, in order. A
/// text that ends in a newline has an empty last line.
pub open spec fn lines(s: Seq<char>) -> Seq<Seq<char>>
    decreases s.len(),
{
    let n = line_len(s);
    if n < s.len() {
        seq![s.take(n as int)] + lines(s.skip(n as int + 1))
    } else {
        seq![s]
    }
}

/// The lines of `s`, split at newlines.
pub fn split_lines<'a>(s: &'a str) -> (parts: Vec<&'a str>)
    ensures
        texts(parts@) == lines(s@),
{
    let chars = to_chars(s);
    let n = chars.len();
    let mut parts: Vec<&'a str> = Vec::new();
    let mut i: usize = 0;
    let mut done = false;
    assert(s@.skip(0) =~= s@);
    assert(texts(parts@) + lines(s@) =~= lines(s@));
    while !done
        invariant
            chars@ == s@,
            n == chars@.len(),
            i <= n,
            !done ==> lines(s@) == texts(parts@) + lines(s@.skip(i as int)),
            done ==> lines(s@) == texts(parts@),
        decreases n - i + (if done { 0int } else { 1int }),
    {
        let ghost rest = s@.skip(i as int);
        let mut j: usize = i;
        while j < n && chars[j] != '\n'
            invariant
                chars@ == s@,
                n == chars@.len(),
                i <= j <= n,
                rest == s@.skip(i as int),
                line_len(rest) == (j - i) + line_len(s@.skip(j as int)),
            decreases n - j,
        {
            assert(s@.skip(j as int).skip(1) =~= s@.skip(j + 1));
            j = j + 1;
        }
        proof {
            assert(line_len(s@.skip(j as int)) == 0);
            assert(rest.take(j - i) =~= s@.subrange(i as int, j as int));
            assert(j == n ==> rest =~= s@.subrange(i as int, j as int));
            assert(j < n ==> rest.skip(j - i + 1) =~= s@.skip(j + 1));
        }
        let ghost before = texts(parts@);
        parts.push(s.substring_char(i, j));
        assert(texts(parts@) =~= before + seq![s@.subrange(i as int, j as int)]);
        if j < n {
            assert(before + (seq![s@.subrange(i as int, j as int)] + lines(s@.skip(j + 1)))
                =~= texts(parts@) + lines(s@.skip(j + 1)));
            i = j + 1;
        } else {
            done = true;
        }
    }
    parts
}

/// Why a text is not the numeral of a 16-bit number.
#[derive(Clone, Copy, Debug, PartialEq, Eq, Structural)]
pub enum NumberError {
    /// The text is empty.
    Empty,
    /// A character is no decimal digit, or a sign stands alone.
    InvalidDigit,
    /// The digits read so far stand for a number above 65535.
    TooLarge,
}

/// Whether `c` is a decimal digit.
pub open spec fn is_digit(c: char) -> bool {
    0x30 <= c as u32 <= 0x39
}

/// The number that the digit `c` stands for.
pub open spec fn digit_value(c: char) -> nat {
    (c as u32 - 0x30) as nat
}

/// The number that the digits `s` stand for when they follow digits that
/// stand for `acc`: read from the left, up to the first character that is no
/// digit or that takes the number above `limit`.
pub open spec fn read_digits(acc: nat, s: Seq<char>, limit: nat) -> Result<nat, NumberError>
    decreases s.len(),
{
    if s.len() == 0 {
        Ok(acc)
    } else if !is_digit(s[0]) {
        Err(NumberError::InvalidDigit)
    } else if acc * 10 + digit_value(s[0]) > limit {
        Err(NumberError::TooLarge)
    } else {
        read_digits(acc * 10 + digit_value(s[0]), s.skip(1), limit)
    }
}

/// The 16-bit number that `s` is a decimal numeral of: digits, after an
/// optional plus sign.
pub open spec fn parse_number(s: Seq<char>) -> Result<u16, NumberError> {
    if s.len() == 0 {
        Err(NumberError::Empty)
    } else {
        let digits = if s[0] == '+' { s.skip(1) } else { s };
        if digits.len() == 0 {
            Err(NumberError::InvalidDigit)
        } else {
            match read_digits(0, digits, 0xFFFF) {
                Ok(n) => Ok(n as u16),
                Err(e) => Err(e),
            }
        }
    }
}

/// Reads `s` as the decimal numeral of a 16-bit number.
pub fn parse_u16(s: &str) -> (r: Result<u16, NumberError>)
    ensures
        r == parse_number(s@),
{
    let chars = to_chars(s);
    let n = chars.len();
    if n == 0 {
        return Err(NumberError::Empty);
    }
    let mut i: usize = if chars[0] == '+' { 1 } else { 0 };
    if i == n {
        return Err(NumberError::InvalidDigit);
    }
    let ghost digits = s@.skip(i as int);
    let ghost start = i;
    assert(s@.skip(0) =~= s@);
    let mut acc: u32 = 0;
    assert(digits.skip(0) =~= digits);
    while i < n
        invariant
            chars@ == s@,
            n == chars@.len(),
            start <= i <= n,
            digits == s@.skip(start as int),
            acc <= 0xFFFF,
            parse_number(s@) == match read_digits(0, digits, 0xFFFF) {
                Ok(n) => Ok::<u16, NumberError>(n as u16),
                Err(e) => Err(e),
            },
            read_digits(0, digits, 0xFFFF) == read_digits(acc as nat, digits.skip(i - start), 0xFFFF),
        decreases n - i,
    {
        let c = chars[i];
        let code = c as u32;
        assert(digits.skip(i - start)[0] == c);
        if code < 0x30 || code > 0x39 {
            return Err(NumberError::InvalidDigit);
        }
        let next = acc * 10 + (code - 0x30);
        if next > 0xFFFF {
            return Err(NumberError::TooLarge);
        }
        assert(digits.skip(i - start).skip(1) =~= digits.skip(i + 1 - start));
        acc = next;
        i = i + 1;
    }
    Ok(acc as u16)
}

/// The words in which a number error is reported.
pub open spec fn number_error_text(e: NumberError) -> Seq<char> {
    match e {
        NumberError::Empty => "cannot parse integer from empty string"@,
        NumberError::InvalidDigit => "invalid digit found in string"@,
        NumberError::TooLarge => "number too large to fit in target type"@,
    }
}

impl NumberError {
    /// The words in which this error is reported.
    pub fn message(self) -> (r: &'static str)
        ensures
            r@ == number_error_text(self),
    {
        match self {
            NumberError::Empty => "cannot parse integer from empty string",
            NumberError::InvalidDigit => "invalid digit found in string",
            NumberError::TooLarge => "number too large to fit in target type",
        }
    }
}

} // verus!
