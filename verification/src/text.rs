//! Character-level text handling shared by the command parsers and the
//! debug-adapter message framing: whitespace splitting, number parsing in a
//! radix and decimal formatting.
use vstd::prelude::*;

verus! {

/// The characters that `char::is_whitespace` accepts (Unicode `White_Space`).
pub open spec fn is_unicode_ws(c: char) -> bool {
    ||| c == '\t' || c == '\n' || c == '\u{0B}' || c == '\u{0C}' || c == '\r' || c == ' '
    ||| c == '\u{85}' || c == '\u{A0}' || c == '\u{1680}'
    ||| ('\u{2000}' <= c && c <= '\u{200A}')
    ||| c == '\u{2028}' || c == '\u{2029}' || c == '\u{202F}' || c == '\u{205F}' || c == '\u{3000}'
}

/// The characters that `u8::is_ascii_whitespace` accepts.
pub open spec fn is_ascii_ws(c: char) -> bool {
    c == '\t' || c == '\n' || c == '\u{0C}' || c == '\r' || c == ' '
}

/// Whitespace test selected by `ascii`.
pub open spec fn is_ws(c: char, ascii: bool) -> bool {
    if ascii {
        is_ascii_ws(c)
    } else {
        is_unicode_ws(c)
    }
}

pub fn char_is_ws(c: char, ascii: bool) -> (r: bool)
    ensures
        r == is_ws(c, ascii),
{
    if c == '\t' || c == '\n' || c == '\u{0C}' || c == '\r' || c == ' ' {
        true
    } else if ascii {
        false
    } else {
        c == '\u{0B}' || c == '\u{85}' || c == '\u{A0}' || c == '\u{1680}' || ('\u{2000}' <= c
            && c <= '\u{200A}') || c == '\u{2028}' || c == '\u{2029}' || c == '\u{202F}' || c
            == '\u{205F}' || c == '\u{3000}'
    }
}

/// The words of `s`: the maximal runs of non-whitespace characters, in order.
/// `cur` is the part of a word already read.
pub open spec fn split_words_from(s: Seq<char>, cur: Seq<char>, ascii: bool) -> Seq<Seq<char>>
    decreases s.len(),
{
    if s.len() == 0 {
        if cur.len() == 0 {
            seq![]
        } else {
            seq![cur]
        }
    } else if is_ws(s[0], ascii) {
        if cur.len() == 0 {
            split_words_from(s.drop_first(), seq![], ascii)
        } else {
            seq![cur] + split_words_from(s.drop_first(), seq![], ascii)
        }
    } else {
        split_words_from(s.drop_first(), cur.push(s[0]), ascii)
    }
}

/// What `str::split_whitespace` (or, with `ascii`, `str::split_ascii_whitespace`) yields.
pub open spec fn split_words(s: Seq<char>, ascii: bool) -> Seq<Seq<char>> {
    split_words_from(s, seq![], ascii)
}

/// `s` without its trailing (Unicode) whitespace, as `str::trim_end` gives it.
pub open spec fn trim_end(s: Seq<char>) -> Seq<char>
    decreases s.len(),
{
    if s.len() > 0 && is_unicode_ws(s.last()) {
        trim_end(s.drop_last())
    } else {
        s
    }
}

/// The characters of a string slice, in order.
pub fn str_chars(s: &str) -> (v: Vec<char>)
    ensures
        v@ == s@,
{
    let mut v: Vec<char> = Vec::new();
    for c in it: s.chars()
        invariant
            v@ == it.seq().take(it.index() as int),
            it.seq() == s@,
        ensures
            v@ == s@,
    {
        v.push(c);
        assert(it.seq().take(it.index() + 1) =~= it.seq().take(it.index() as int).push(c));
    }
    v
}

/// `String::push`: the contract claims that the string's characters after the
/// call are those before with `c` appended.
#[verifier::external_body]
pub(crate) fn push_char(s: &mut String, c: char)
    ensures
        final(s)@ == old(s)@.push(c),
{
    s.push(c);
}

/// A `String` holding exactly the characters of `v`.
pub fn string_from_chars(v: &Vec<char>) -> (s: String)
    ensures
        s@ == v@,
{
    let mut s = String::new();
    let mut i: usize = 0;
    while i < v.len()
        invariant
            i <= v.len(),
            s@ == v@.take(i as int),
        decreases v.len() - i,
    {
        push_char(&mut s, v[i]);
        i += 1;
        assert(v@.take(i as int) =~= v@.take(i - 1).push(v@[i - 1]));
    }
    assert(v@.take(v.len() as int) =~= v@);
    s
}

/// Appends the characters of `v` to `s`.
pub fn append_chars(s: &mut String, v: &Vec<char>)
    ensures
        final(s)@ == old(s)@ + v@,
{
    let mut i: usize = 0;
    while i < v.len()
        invariant
            i <= v.len(),
            s@ == old(s)@ + v@.take(i as int),
        decreases v.len() - i,
    {
        push_char(s, v[i]);
        i += 1;
        assert(v@.take(i as int) =~= v@.take(i - 1).push(v@[i - 1]));
    }
    assert(v@.take(v.len() as int) =~= v@);
}

proof fn lemma_split_step(s: Seq<char>, i: int, cur: Seq<char>, ascii: bool)
    requires
        0 <= i < s.len(),
    ensures
        split_words_from(s.skip(i), cur, ascii) == if is_ws(s[i], ascii) {
            if cur.len() == 0 {
                split_words_from(s.skip(i + 1), seq![], ascii)
            } else {
                seq![cur] + split_words_from(s.skip(i + 1), seq![], ascii)
            }
        } else {
            split_words_from(s.skip(i + 1), cur.push(s[i]), ascii)
        },
{
    assert(s.skip(i).drop_first() =~= s.skip(i + 1));
    assert(s.skip(i)[0] == s[i]);
}

/// Splits `s` into its words, as `split_whitespace` / `split_ascii_whitespace` do.
pub fn split_words_exec(s: &Vec<char>, ascii: bool) -> (words: Vec<Vec<char>>)
    ensures
        words@.len() == split_words(s@, ascii).len(),
        forall|k: int| 0 <= k < words@.len() ==> #[trigger] words@[k]@ == split_words(s@, ascii)[k],
{
    let mut words: Vec<Vec<char>> = Vec::new();
    let mut cur: Vec<char> = Vec::new();
    let mut i: usize = 0;
    let ghost done: Seq<Seq<char>> = seq![];
    assert(s@.skip(0) =~= s@);
    assert(done + split_words(s@, ascii) =~= split_words(s@, ascii));
    while i < s.len()
        invariant
            i <= s.len(),
            words@.len() == done.len(),
            forall|k: int| 0 <= k < words@.len() ==> #[trigger] words@[k]@ == done[k],
            done + split_words_from(s@.skip(i as int), cur@, ascii) == split_words(s@, ascii),
        decreases s.len() - i,
    {
        proof {
            lemma_split_step(s@, i as int, cur@, ascii);
        }
        let c = s[i];
        if char_is_ws(c, ascii) {
            if cur.len() > 0 {
                proof {
                    assert(done + (seq![cur@] + split_words_from(s@.skip(i + 1), seq![], ascii))
                        =~= done.push(cur@) + split_words_from(s@.skip(i + 1), seq![], ascii));
                    done = done.push(cur@);
                }
                words.push(cur);
                cur = Vec::new();
            } else {
                assert(cur@ =~= seq![]);
            }
            assert(cur@ =~= seq![]);
        } else {
            cur.push(c);
        }
        i += 1;
    }
    proof {
        assert(s@.skip(i as int) =~= seq![]);
    }
    if cur.len() > 0 {
        proof {
            assert(done + seq![cur@] =~= done.push(cur@));
            done = done.push(cur@);
        }
        words.push(cur);
    } else {
        assert(done + seq![] =~= done);
    }
    words
}

/// Removes the trailing (Unicode) whitespace from `s`.
pub fn trim_end_exec(s: &Vec<char>) -> (r: Vec<char>)
    ensures
        r@ == trim_end(s@),
{
    let mut n = s.len();
    assert(s@.take(n as int) =~= s@);
    while n > 0 && char_is_ws(s[n - 1], false)
        invariant
            n <= s.len(),
            trim_end(s@.take(n as int)) == trim_end(s@),
        decreases n,
    {
        assert(s@.take(n as int).drop_last() =~= s@.take(n - 1));
        n -= 1;
    }
    let mut r: Vec<char> = Vec::new();
    let mut j: usize = 0;
    while j < n
        invariant
            j <= n <= s.len(),
            r@ == s@.take(j as int),
        decreases n - j,
    {
        r.push(s[j]);
        j += 1;
        assert(s@.take(j as int) =~= s@.take(j - 1).push(s@[j - 1]));
    }
    assert(s@.take(s.len() as int) =~= s@);
    r
}

/// The value of `c` as a digit of the given radix (`char::to_digit`), radix at most 36.
pub open spec fn digit_value(c: char, radix: u32) -> Option<int> {
    let v: int = if '0' <= c && c <= '9' {
        c as int - '0' as int
    } else if 'a' <= c && c <= 'z' {
        c as int - 'a' as int + 10
    } else if 'A' <= c && c <= 'Z' {
        c as int - 'A' as int + 10
    } else {
        -1
    };
    if 0 <= v < radix {
        Some(v)
    } else {
        None
    }
}

pub fn char_digit(c: char, radix: u32) -> (r: Option<u32>)
    requires
        2 <= radix <= 36,
    ensures
        match digit_value(c, radix) {
            Some(v) => r == Some(v as u32),
            None => r is None,
        },
{
    let v: u32 = if '0' <= c && c <= '9' {
        (c as u32) - ('0' as u32)
    } else if 'a' <= c && c <= 'z' {
        (c as u32) - ('a' as u32) + 10
    } else if 'A' <= c && c <= 'Z' {
        (c as u32) - ('A' as u32) + 10
    } else {
        return None;
    };
    if v < radix {
        Some(v)
    } else {
        None
    }
}

/// Whether every character of `s` is a digit of `radix`.
pub open spec fn all_digits(s: Seq<char>, radix: u32) -> bool {
    forall|i: int| 0 <= i < s.len() ==> (#[trigger] digit_value(s[i], radix)) is Some
}

/// The number that the digits `s` spell in `radix` (most significant first).
pub open spec fn digits_value(s: Seq<char>, radix: u32) -> int
    decreases s.len(),
{
    if s.len() == 0 {
        0
    } else {
        digits_value(s.drop_last(), radix) * radix + digit_value(s.last(), radix).unwrap()
    }
}

/// Why a number could not be read from a string.
#[derive(Debug, Clone, Copy, PartialEq, Eq, Structural)]
pub enum ParseNumberError {
    /// The string holds no digits.
    Empty,
    /// A character is not a digit of the radix.
    InvalidDigit,
    /// The number does not fit the integer type.
    Overflow,
}

/// The digits that `from_str_radix` reads of an unsigned type: a single leading
/// `+` is skipped.
pub open spec fn unsigned_digits(s: Seq<char>) -> Seq<char> {
    if s.len() > 0 && s[0] == '+' {
        s.drop_first()
    } else {
        s
    }
}

/// What `from_str_radix` returns for an unsigned type whose largest value is `max`.
pub open spec fn parse_unsigned(s: Seq<char>, radix: u32, max: int) -> Result<int, ParseNumberError> {
    let d = unsigned_digits(s);
    if s.len() == 0 {
        Err(ParseNumberError::Empty)
    } else if d.len() == 0 || !all_digits(d, radix) {
        Err(ParseNumberError::InvalidDigit)
    } else if digits_value(d, radix) > max {
        Err(ParseNumberError::Overflow)
    } else {
        Ok(digits_value(d, radix))
    }
}

proof fn lemma_digits_value_step(s: Seq<char>, i: int, radix: u32)
    requires
        0 <= i < s.len(),
    ensures
        digits_value(s.take(i + 1), radix) == digits_value(s.take(i), radix) * radix
            + digit_value(s[i], radix).unwrap(),
{
    assert(s.take(i + 1).drop_last() =~= s.take(i));
}

proof fn lemma_digits_value_nonneg_mono(s: Seq<char>, radix: u32)
    requires
        all_digits(s, radix),
        radix >= 2,
    ensures
        digits_value(s, radix) >= 0,
    decreases s.len(),
{
    if s.len() > 0 {
        assert(all_digits(s.drop_last(), radix)) by {
            assert forall|i: int| 0 <= i < s.drop_last().len() implies (#[trigger] digit_value(
                s.drop_last()[i],
                radix,
            )) is Some by {
                assert(s.drop_last()[i] == s[i]);
            }
        }
        lemma_digits_value_nonneg_mono(s.drop_last(), radix);
        assert(digit_value(s[s.len() - 1], radix) is Some);
        assert(digits_value(s.drop_last(), radix) * radix >= 0) by (nonlinear_arith)
            requires
                digits_value(s.drop_last(), radix) >= 0,
                radix >= 2,
        ;
    }
}

/// A number that `parse_unsigned` reads lies between 0 and `max`.
pub proof fn lemma_parse_unsigned_range(s: Seq<char>, radix: u32, max: int)
    requires
        2 <= radix,
    ensures
        parse_unsigned(s, radix, max) matches Ok(v) ==> 0 <= v <= max,
{
    let d = unsigned_digits(s);
    if all_digits(d, radix) {
        lemma_digits_value_nonneg_mono(d, radix);
    }
}

proof fn lemma_digits_prefix_grows(s: Seq<char>, i: int, j: int, radix: u32)
    requires
        0 <= i <= j <= s.len(),
        all_digits(s, radix),
        radix >= 2,
    ensures
        digits_value(s.take(i), radix) <= digits_value(s.take(j), radix),
    decreases j - i,
{
    if i < j {
        lemma_digits_prefix_grows(s, i, j - 1, radix);
        lemma_digits_value_step(s, j - 1, radix);
        assert(all_digits(s.take(j - 1), radix));
        lemma_digits_value_nonneg_mono(s.take(j - 1), radix);
        assert(digit_value(s[j - 1], radix) is Some);
        let a = digits_value(s.take(j - 1), radix);
        assert(a <= a * radix) by (nonlinear_arith)
            requires
                a >= 0,
                radix >= 2,
        ;
    }
}

/// Reads an unsigned number of at most `max` (`max` < 2^64) from `s` in `radix`,
/// as `from_str_radix` does.
pub fn parse_unsigned_exec(s: &Vec<char>, radix: u32, max: u64) -> (r: Result<u64, ParseNumberError>)
    requires
        2 <= radix <= 36,
    ensures
        match parse_unsigned(s@, radix, max as int) {
            Ok(v) => r == Ok::<u64, ParseNumberError>(v as u64),
            Err(e) => r == Err::<u64, ParseNumberError>(e),
        },
{
    if s.len() == 0 {
        return Err(ParseNumberError::Empty);
    }
    let start: usize = if s[0] == '+' {
        1
    } else {
        0
    };
    let ghost d = unsigned_digits(s@);
    assert(d =~= s@.skip(start as int));
    if start == s.len() {
        return Err(ParseNumberError::InvalidDigit);
    }
    // First check every character, as the error for a bad digit takes precedence.
    let mut k: usize = start;
    while k < s.len()
        invariant
            start <= k <= s.len(),
            2 <= radix <= 36,
            s.len() > 0,
            d =~= s@.skip(start as int),
            d == unsigned_digits(s@),
            forall|i: int| 0 <= i < k - start ==> (#[trigger] digit_value(d[i], radix)) is Some,
        decreases s.len() - k,
    {
        if char_digit(s[k], radix).is_none() {
            assert(d[k - start] == s@[k as int]);
            assert(!all_digits(d, radix));
            return Err(ParseNumberError::InvalidDigit);
        }
        assert(d[k - start] == s@[k as int]);
        k += 1;
    }
    assert(all_digits(d, radix));
    let mut acc: u64 = 0;
    let mut i: usize = start;
    while i < s.len()
        invariant
            start <= i <= s.len(),
            d =~= s@.skip(start as int),
            d == unsigned_digits(s@),
            all_digits(d, radix),
            2 <= radix <= 36,
            s.len() > 0,
            start < s.len(),
            acc <= max,
            acc as int == digits_value(d.take(i - start), radix),
        decreases s.len() - i,
    {
        proof {
            lemma_digits_value_step(d, i - start, radix);
            assert(d[i - start] == s@[i as int]);
            assert(digit_value(d[i - start], radix) is Some);
        }
        let dv = char_digit(s[i], radix).unwrap();
        let m = acc.checked_mul(radix as u64);
        let ghost full = digits_value(d, radix);
        let ghost next = digits_value(d.take(i + 1 - start), radix);
        assert(next == acc * radix + dv);
        proof {
            lemma_digits_prefix_grows(d, i + 1 - start, d.len() as int, radix);
            assert(d.take(d.len() as int) =~= d);
            assert(acc * radix >= 0) by (nonlinear_arith)
                requires acc >= 0, radix >= 2;
        }
        match m {
            None => {
                proof {
                    lemma_digits_prefix_grows(d, i + 1 - start, d.len() as int, radix);
                    assert(d.take(d.len() as int) =~= d);
                }
                return Err(ParseNumberError::Overflow);
            },
            Some(m) => {
                match m.checked_add(dv as u64) {
                    None => {
                        proof {
                            lemma_digits_prefix_grows(d, i + 1 - start, d.len() as int, radix);
                            assert(d.take(d.len() as int) =~= d);
                        }
                        return Err(ParseNumberError::Overflow);
                    },
                    Some(v) => {
                        if v > max {
                            proof {
                                lemma_digits_prefix_grows(d, i + 1 - start, d.len() as int, radix);
                                assert(d.take(d.len() as int) =~= d);
                            }
                            return Err(ParseNumberError::Overflow);
                        }
                        acc = v;
                    },
                }
            },
        }
        i += 1;
    }
    assert(d.take(i - start) =~= d);
    Ok(acc)
}

/// The decimal digits of `n`, most significant first, without leading zeros.
pub open spec fn decimal(n: nat) -> Seq<char>
    decreases n,
{
    if n < 10 {
        seq![digit_char(n)]
    } else {
        decimal(n / 10).push(digit_char(n % 10))
    }
}

pub open spec fn digit_char(d: nat) -> char {
    if d == 0 {
        '0'
    } else if d == 1 {
        '1'
    } else if d == 2 {
        '2'
    } else if d == 3 {
        '3'
    } else if d == 4 {
        '4'
    } else if d == 5 {
        '5'
    } else if d == 6 {
        '6'
    } else if d == 7 {
        '7'
    } else if d == 8 {
        '8'
    } else {
        '9'
    }
}

fn digit_char_exec(d: u64) -> (c: char)
    requires
        d < 10,
    ensures
        c == digit_char(d as nat),
{
    if d == 0 {
        '0'
    } else if d == 1 {
        '1'
    } else if d == 2 {
        '2'
    } else if d == 3 {
        '3'
    } else if d == 4 {
        '4'
    } else if d == 5 {
        '5'
    } else if d == 6 {
        '6'
    } else if d == 7 {
        '7'
    } else if d == 8 {
        '8'
    } else {
        '9'
    }
}

/// The decimal representation of `n` (as `format!("{}", n)` writes it).
pub fn decimal_exec(n: u64) -> (v: Vec<char>)
    ensures
        v@ == decimal(n as nat),
    decreases n,
{
    if n < 10 {
        let mut v: Vec<char> = Vec::new();
        v.push(digit_char_exec(n));
        assert(v@ =~= seq![digit_char(n as nat)]);
        v
    } else {
        let mut v = decimal_exec(n / 10);
        v.push(digit_char_exec(n % 10));
        v
    }
}

/// Reading back a written number: the decimal digits of `n` are digits
/// only, none of them whitespace or a sign, and they spell `n`.
pub proof fn lemma_decimal_digits(n: nat)
    ensures
        decimal(n).len() > 0,
        decimal(n)[0] != '+',
        all_digits(decimal(n), 10),
        digits_value(decimal(n), 10) == n,
        forall|i: int| 0 <= i < decimal(n).len() ==> !is_unicode_ws(#[trigger] decimal(n)[i]) && !is_ascii_ws(decimal(n)[i]),
    decreases n,
{
    let d = decimal(n);
    if n < 10 {
        assert(d =~= seq![digit_char(n)]);
        assert(digit_value(digit_char(n), 10) == Some(n as int));
        assert(d.drop_last() =~= Seq::<char>::empty());
        assert(digits_value(d.drop_last(), 10) == 0);
        assert(digits_value(d, 10) == digits_value(d.drop_last(), 10) * 10 + digit_value(d.last(), 10).unwrap());
    } else {
        lemma_decimal_digits(n / 10);
        let p = decimal(n / 10);
        let c = digit_char(n % 10);
        assert(d == p.push(c));
        assert(digit_value(c, 10) == Some((n % 10) as int));
        assert(d.drop_last() =~= p);
        assert(d[0] == p[0]);
        assert(d.last() == c);
        assert(digits_value(d, 10) == digits_value(p, 10) * 10 + (n % 10));
        assert((n / 10) * 10 + n % 10 == n);
        assert forall|i: int| 0 <= i < d.len() implies (#[trigger] digit_value(d[i], 10)) is Some by {
            if i < p.len() {
                assert(d[i] == p[i]);
            }
        }
        assert forall|i: int| 0 <= i < d.len() implies !is_unicode_ws(#[trigger] d[i]) && !is_ascii_ws(d[i]) by {
            if i < p.len() {
                assert(d[i] == p[i]);
            }
        }
    }
}

/// A run of non-whitespace characters `p` followed by the whitespace `c`
/// ends the current word.
pub proof fn lemma_split_word_then_rest(p: Seq<char>, c: char, rest: Seq<char>, cur: Seq<char>, ascii: bool)
    requires
        is_ws(c, ascii),
        forall|i: int| 0 <= i < p.len() ==> !is_ws(#[trigger] p[i], ascii),
    ensures
        split_words_from(p + seq![c] + rest, cur, ascii) == (if (cur + p).len() > 0 {
            seq![cur + p]
        } else {
            Seq::<Seq<char>>::empty()
        }) + split_words_from(rest, seq![], ascii),
    decreases p.len(),
{
    let s = p + seq![c] + rest;
    if p.len() == 0 {
        assert(s.drop_first() =~= rest);
        assert(cur + p =~= cur);
        if cur.len() == 0 {
            assert(Seq::<Seq<char>>::empty() + split_words_from(rest, seq![], ascii) =~= split_words_from(
                rest,
                seq![],
                ascii,
            ));
        }
    } else {
        assert(s[0] == p[0]);
        assert(s.drop_first() =~= p.drop_first() + seq![c] + rest);
        lemma_split_word_then_rest(p.drop_first(), c, rest, cur.push(p[0]), ascii);
        assert(cur.push(p[0]) + p.drop_first() =~= cur + p);
    }
}

/// A run of non-whitespace characters at the end is the last word.
pub proof fn lemma_split_last_word(p: Seq<char>, cur: Seq<char>, ascii: bool)
    requires
        forall|i: int| 0 <= i < p.len() ==> !is_ws(#[trigger] p[i], ascii),
    ensures
        split_words_from(p, cur, ascii) == if (cur + p).len() > 0 {
            seq![cur + p]
        } else {
            Seq::<Seq<char>>::empty()
        },
    decreases p.len(),
{
    if p.len() == 0 {
        assert(cur + p =~= cur);
    } else {
        lemma_split_last_word(p.drop_first(), cur.push(p[0]), ascii);
        assert(cur.push(p[0]) + p.drop_first() =~= cur + p);
    }
}

} // verus!
