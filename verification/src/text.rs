//! Character-level building blocks shared by the HTTP router and the serial
//! line parser: whitespace, trimming, prefixes, unsigned decimal numbers.

use vstd::prelude::*;
use vstd::string::*;
use vstd::utf8::{decode_utf8, encode_utf8_decode_utf8, valid_utf8};

verus! {

/// The characters that carry the Unicode `White_Space` property.
pub open spec fn is_space(c: char) -> bool {
    let u = c as u32;
    ||| 0x09 <= u <= 0x0d
    ||| u == 0x20
    ||| u == 0x85
    ||| u == 0xa0
    ||| u == 0x1680
    ||| 0x2000 <= u <= 0x200a
    ||| u == 0x2028
    ||| u == 0x2029
    ||| u == 0x202f
    ||| u == 0x205f
    ||| u == 0x3000
}

/// Whether `c` is white space.
pub fn is_whitespace(c: char) -> (b: bool)
    ensures
        b == is_space(c),
{
    let u: u32 = c as u32;
    (0x09 <= u && u <= 0x0d) || u == 0x20 || u == 0x85 || u == 0xa0 || u == 0x1680 || (0x2000 <= u
        && u <= 0x200a) || u == 0x2028 || u == 0x2029 || u == 0x202f || u == 0x205f || u == 0x3000
}

/// The characters of `s`, in order.
pub fn to_chars(s: &str) -> (chars: Vec<char>)
    ensures
        chars@ == s@,
{
    let mut chars: Vec<char> = Vec::new();
    for c in it: s.chars()
        invariant
            chars@ == it.seq().take(it.index()),
            it.seq() == s@,
    {
        chars.push(c);
    }
    chars
}

/// The part of `s` from `start` up to `end`.
pub open spec fn span(s: Seq<char>, start: int, end: int) -> Seq<char> {
    s.subrange(start, end)
}

/// `s` without its leading white space.
pub open spec fn trim_start(s: Seq<char>) -> Seq<char>
    decreases s.len(),
{
    if s.len() > 0 && is_space(s[0]) {
        trim_start(s.skip(1))
    } else {
        s
    }
}

/// `s` without its trailing white space.
pub open spec fn trim_end(s: Seq<char>) -> Seq<char>
    decreases s.len(),
{
    if s.len() > 0 && is_space(s.last()) {
        trim_end(s.drop_last())
    } else {
        s
    }
}

/// `s` without leading and trailing white space.
pub open spec fn trim(s: Seq<char>) -> Seq<char> {
    trim_end(trim_start(s))
}

/// Whether `s` begins with `prefix`.
pub open spec fn has_prefix(s: Seq<char>, prefix: Seq<char>) -> bool {
    prefix.len() <= s.len() && s.subrange(0, prefix.len() as int) == prefix
}

/// Index of the first `c` in `s`, or the length of `s` where there is none.
pub open spec fn index_of(s: Seq<char>, c: char) -> int
    decreases s.len(),
{
    if s.len() == 0 || s[0] == c {
        0
    } else {
        1 + index_of(s.skip(1), c)
    }
}

/// Length of the run of characters at the front of `s` that are not white
/// space.
pub open spec fn word_len(s: Seq<char>) -> int
    decreases s.len(),
{
    if s.len() > 0 && !is_space(s[0]) {
        1 + word_len(s.skip(1))
    } else {
        0
    }
}

/// Whether `c` is one of the ten ASCII digits.
pub open spec fn is_digit(c: char) -> bool {
    0x30 <= c as u32 <= 0x39
}

/// Whether `s` holds ASCII digits only.
pub open spec fn all_digits(s: Seq<char>) -> bool {
    forall|i: int| 0 <= i < s.len() ==> is_digit(#[trigger] s[i])
}

/// The number that a digit stands for.
pub open spec fn digit_value(c: char) -> nat {
    (c as u32 - 0x30) as nat
}

/// The number that a run of digits denotes in base ten; 0 for the empty run.
pub open spec fn decimal_value(s: Seq<char>) -> nat
    decreases s.len(),
{
    if s.len() == 0 {
        0
    } else {
        decimal_value(s.drop_last()) * 10 + digit_value(s.last())
    }
}

/// `s` without one leading plus sign.
pub open spec fn unsigned_part(s: Seq<char>) -> Seq<char> {
    if s.len() > 0 && s[0] == '+' {
        s.skip(1)
    } else {
        s
    }
}

/// The number that `s` denotes: an optional plus sign, then one or more
/// ASCII digits, however many. Anything else denotes nothing.
pub open spec fn parse_number(s: Seq<char>) -> Option<nat> {
    let digits = unsigned_part(s);
    if digits.len() > 0 && all_digits(digits) {
        Some(decimal_value(digits))
    } else {
        None
    }
}

/// The byte that `s` denotes: a number of at most 255. Anything else
/// denotes nothing.
pub open spec fn parse_u8(s: Seq<char>) -> Option<u8> {
    match parse_number(s) {
        Some(n) => if n <= 255 {
            Some(n as u8)
        } else {
            None
        },
        None => None,
    }
}

/// `n` where it is at most `limit`, and `limit + 1` for everything above.
pub open spec fn capped(n: nat, limit: nat) -> nat {
    if n <= limit {
        n
    } else {
        limit + 1
    }
}

/// The character that shows a digit.
pub open spec fn digit_char(d: nat) -> char {
    ((0x30 + d) as u8) as char
}

/// `n` in base ten, without sign or leading zeros.
pub open spec fn decimal(n: nat) -> Seq<char>
    decreases n,
{
    if n < 10 {
        seq![digit_char(n)]
    } else {
        decimal(n / 10).push(digit_char(n % 10))
    }
}

/// What `index_of` returns lies within `s`, nothing before it is `c`, and
/// where it lies inside `s` it is the place of a `c`.
pub proof fn lemma_index_of(s: Seq<char>, c: char)
    ensures
        0 <= index_of(s, c) <= s.len(),
        forall|i: int| 0 <= i < index_of(s, c) ==> s[i] != c,
        index_of(s, c) < s.len() ==> s[index_of(s, c)] == c,
    decreases s.len(),
{
    if s.len() == 0 || s[0] == c {
    } else {
        let rest = s.skip(1);
        lemma_index_of(rest, c);
        assert forall|i: int| 0 <= i < index_of(s, c) implies s[i] != c by {
            if i > 0 {
                assert(s[i] == rest[i - 1]);
            }
        }
    }
}

/// What `word_len` returns lies within `s`, nothing before it is white
/// space, and where it lies inside `s` it is the place of white space.
pub proof fn lemma_word_len(s: Seq<char>)
    ensures
        0 <= word_len(s) <= s.len(),
        forall|i: int| 0 <= i < word_len(s) ==> !is_space(s[i]),
        word_len(s) < s.len() ==> is_space(s[word_len(s)]),
    decreases s.len(),
{
    if s.len() > 0 && !is_space(s[0]) {
        let rest = s.skip(1);
        lemma_word_len(rest);
        assert forall|i: int| 0 <= i < word_len(s) implies !is_space(s[i]) by {
            if i > 0 {
                assert(s[i] == rest[i - 1]);
            }
        }
    }
}

/// Trimming at the front leaves a tail of `s` that does not begin with
/// white space.
pub proof fn lemma_trim_start(s: Seq<char>)
    ensures
        trim_start(s).len() <= s.len(),
        trim_start(s) == s.skip(s.len() - trim_start(s).len()),
        trim_start(s).len() > 0 ==> !is_space(trim_start(s)[0]),
        forall|i: int| 0 <= i < s.len() - trim_start(s).len() ==> is_space(s[i]),
    decreases s.len(),
{
    if s.len() > 0 && is_space(s[0]) {
        let rest = s.skip(1);
        lemma_trim_start(rest);
        let k = rest.len() - trim_start(rest).len();
        assert(rest.skip(k) =~= s.skip(k + 1));
        assert forall|i: int| 0 <= i < s.len() - trim_start(s).len() implies is_space(s[i]) by {
            if i > 0 {
                assert(s[i] == rest[i - 1]);
            }
        }
    } else {
        assert(s.skip(0) =~= s);
    }
}

/// `word_len(s)` is `n` where the first `n` characters of `s` are not white
/// space and `s` ends there or goes on with white space.
pub proof fn lemma_word_len_is(s: Seq<char>, n: int)
    requires
        0 <= n <= s.len(),
        forall|i: int| 0 <= i < n ==> !is_space(#[trigger] s[i]),
        n == s.len() || is_space(s[n]),
    ensures
        word_len(s) == n,
{
    lemma_word_len(s);
    let w = word_len(s);
    if w < n {
        assert(!is_space(s[w]));
    } else if w > n {
        assert(!is_space(s[n]));
    }
}

/// `trim_start(s)` is `s` without its first `n` characters where these are
/// white space and `s` ends there or goes on with something else.
pub proof fn lemma_trim_start_is(s: Seq<char>, n: int)
    requires
        0 <= n <= s.len(),
        forall|i: int| 0 <= i < n ==> is_space(#[trigger] s[i]),
        n == s.len() || !is_space(s[n]),
    ensures
        trim_start(s) == s.skip(n),
{
    lemma_trim_start(s);
    let j = s.len() - trim_start(s).len();
    if j < n {
        assert(trim_start(s)[0] == s[j]);
    } else if j > n {
        assert(is_space(s[n]));
    }
}

/// `index_of(s, c)` is `n` where `c` is not among the first `n` characters
/// of `s` and `s` ends there or goes on with `c`.
pub proof fn lemma_index_of_is(s: Seq<char>, c: char, n: int)
    requires
        0 <= n <= s.len(),
        forall|i: int| 0 <= i < n ==> #[trigger] s[i] != c,
        n == s.len() || s[n] == c,
    ensures
        index_of(s, c) == n,
{
    lemma_index_of(s, c);
    let k = index_of(s, c);
    if k < n {
        assert(s[k] == c);
    } else if k > n {
        assert(s[n] != c);
    }
}

/// Trimming at the back leaves a front part of `s` that does not end with
/// white space.
pub proof fn lemma_trim_end(s: Seq<char>)
    ensures
        trim_end(s).len() <= s.len(),
        trim_end(s) == s.take(trim_end(s).len() as int),
        trim_end(s).len() > 0 ==> !is_space(trim_end(s).last()),
        forall|i: int| trim_end(s).len() <= i < s.len() ==> is_space(s[i]),
    decreases s.len(),
{
    if s.len() > 0 && is_space(s.last()) {
        let front = s.drop_last();
        lemma_trim_end(front);
        let k = trim_end(front).len() as int;
        assert(front.take(k) =~= s.take(k));
        assert forall|i: int| trim_end(s).len() <= i < s.len() implies is_space(s[i]) by {
            if i < s.len() - 1 {
                assert(s[i] == front[i]);
            }
        }
    } else {
        assert(s.take(s.len() as int) =~= s);
    }
}

/// Text that neither begins nor ends with white space is its own trimmed
/// form.
pub proof fn lemma_trim_is_identity(s: Seq<char>)
    requires
        s.len() == 0 || (!is_space(s[0]) && !is_space(s.last())),
    ensures
        trim(s) == s,
{
}

/// Text that begins with something other than white space, a digit or a
/// plus sign denotes no number, trimmed or not.
pub proof fn lemma_parse_rejects(s: Seq<char>)
    requires
        s.len() > 0,
        !is_space(s[0]),
        !is_digit(s[0]),
        s[0] != '+',
    ensures
        parse_number(s) is None,
        parse_number(trim(s)) is None,
        parse_u8(s) is None,
        parse_u8(trim(s)) is None,
{
    assert(trim_start(s) == s);
    lemma_trim_end(s);
    let t = trim_end(s);
    if t.len() == 0 {
        assert(is_space(s[0]));
    }
    assert(t[0] == s[0]);
    assert(!is_digit(unsigned_part(t)[0]));
    assert(!is_digit(unsigned_part(s)[0]));
}

/// White space at the front does not change the trimmed form.
pub proof fn lemma_trim_skips_space(s: Seq<char>)
    requires
        s.len() > 0,
        is_space(s[0]),
    ensures
        trim(s) == trim(s.skip(1)),
{
}

/// A digit's character stands for the digit.
pub proof fn lemma_digit_char(d: nat)
    requires
        d < 10,
    ensures
        is_digit(digit_char(d)),
        digit_value(digit_char(d)) == d,
        !is_space(digit_char(d)),
        digit_char(d) as u32 == 0x30 + d,
{
}

/// A number written in base ten is a run of digits, at least one, that
/// denotes the number.
pub proof fn lemma_decimal(n: nat)
    ensures
        decimal(n).len() >= 1,
        all_digits(decimal(n)),
        decimal_value(decimal(n)) == n,
    decreases n,
{
    if n < 10 {
        lemma_digit_char(n);
        assert(decimal(n).drop_last() =~= Seq::<char>::empty());
        assert(decimal_value(decimal(n).drop_last()) == 0);
    } else {
        lemma_decimal(n / 10);
        lemma_digit_char(n % 10);
        let s = decimal(n);
        assert(s.drop_last() =~= decimal(n / 10));
        assert(s.last() == digit_char(n % 10));
        assert forall|i: int| 0 <= i < s.len() implies is_digit(#[trigger] s[i]) by {
            if i < s.len() - 1 {
                assert(s[i] == decimal(n / 10)[i]);
            }
        }
    }
}

/// Reading back what was written: a number written in base ten denotes
/// itself, and as a byte too where it is at most 255.
pub proof fn lemma_parse_decimal(n: nat)
    ensures
        parse_number(decimal(n)) == Some(n),
        n <= 255 ==> parse_u8(decimal(n)) == Some(n as u8),
{
    lemma_decimal(n);
    let s = decimal(n);
    assert(is_digit(s[0]));
    assert(s[0] != '+');
}

/// The range of `chars` that is left of `start..end` once white space is
/// trimmed from both of its ends.
pub fn trim_range(chars: &[char], start: usize, end: usize) -> (r: (usize, usize))
    requires
        start <= end <= chars@.len(),
    ensures
        start <= r.0 <= r.1 <= end,
        r.0 == end - trim_start(span(chars@, start as int, end as int)).len(),
        span(chars@, r.0 as int, r.1 as int) == trim(span(chars@, start as int, end as int)),
{
    let i: usize = skip_spaces(chars, start, end);
    let mut j: usize = end;
    while j > i && is_whitespace(chars[j - 1])
        invariant
            i <= j <= end <= chars@.len(),
            trim_end(span(chars@, i as int, end as int)) == trim_end(
                span(chars@, i as int, j as int),
            ),
        decreases j - i,
    {
        assert(span(chars@, i as int, j as int).drop_last() =~= span(chars@, i as int, j - 1));
        j -= 1;
    }
    (i, j)
}

/// Whether `start..end` of `chars` begins with `prefix`.
pub fn starts_with(chars: &[char], start: usize, end: usize, prefix: &str) -> (b: bool)
    requires
        start <= end <= chars@.len(),
    ensures
        b == has_prefix(span(chars@, start as int, end as int), prefix@),
{
    let n: usize = prefix.unicode_len();
    if n > end - start {
        return false;
    }
    let ghost s = span(chars@, start as int, end as int);
    let mut k: usize = 0;
    while k < n
        invariant
            start <= end <= chars@.len(),
            n == prefix@.len(),
            n <= end - start,
            k <= n,
            s == span(chars@, start as int, end as int),
            s.subrange(0, k as int) == prefix@.subrange(0, k as int),
        decreases n - k,
    {
        if chars[start + k] != prefix.get_char(k) {
            assert(s.subrange(0, n as int)[k as int] != prefix@[k as int]);
            return false;
        }
        assert(s.subrange(0, k + 1) =~= s.subrange(0, k as int).push(s[k as int]));
        assert(prefix@.subrange(0, k + 1) =~= prefix@.subrange(0, k as int).push(
            prefix@[k as int],
        ));
        k += 1;
    }
    assert(prefix@.subrange(0, n as int) =~= prefix@);
    true
}

/// The place of the first `c` in `start..end` of `chars`, or `end` where
/// there is none.
pub fn find_char(chars: &[char], start: usize, end: usize, c: char) -> (at: usize)
    requires
        start <= end <= chars@.len(),
    ensures
        start <= at <= end,
        at == start + index_of(span(chars@, start as int, end as int), c),
{
    let mut i: usize = start;
    while i < end && chars[i] != c
        invariant
            start <= i <= end <= chars@.len(),
            index_of(span(chars@, start as int, end as int), c) == (i - start) + index_of(
                span(chars@, i as int, end as int),
                c,
            ),
        decreases end - i,
    {
        assert(span(chars@, i as int, end as int).skip(1) =~= span(
            chars@,
            i + 1,
            end as int,
        ));
        i += 1;
    }
    i
}

/// The place where the run of non-space characters that begins at `start`
/// ends, within `start..end` of `chars`.
pub fn word_end(chars: &[char], start: usize, end: usize) -> (at: usize)
    requires
        start <= end <= chars@.len(),
    ensures
        start <= at <= end,
        at == start + word_len(span(chars@, start as int, end as int)),
{
    let mut i: usize = start;
    while i < end && !is_whitespace(chars[i])
        invariant
            start <= i <= end <= chars@.len(),
            word_len(span(chars@, start as int, end as int)) == (i - start) + word_len(
                span(chars@, i as int, end as int),
            ),
        decreases end - i,
    {
        assert(span(chars@, i as int, end as int).skip(1) =~= span(
            chars@,
            i + 1,
            end as int,
        ));
        i += 1;
    }
    i
}

/// The place where the white space that begins at `start` ends, within
/// `start..end` of `chars`.
pub fn skip_spaces(chars: &[char], start: usize, end: usize) -> (at: usize)
    requires
        start <= end <= chars@.len(),
    ensures
        start <= at <= end,
        at == end - trim_start(span(chars@, start as int, end as int)).len(),
        span(chars@, at as int, end as int) == trim_start(span(chars@, start as int, end as int)),
{
    let mut i: usize = start;
    while i < end && is_whitespace(chars[i])
        invariant
            start <= i <= end <= chars@.len(),
            trim_start(span(chars@, start as int, end as int)) == trim_start(
                span(chars@, i as int, end as int),
            ),
        decreases end - i,
    {
        assert(span(chars@, i as int, end as int).skip(1) =~= span(
            chars@,
            i + 1,
            end as int,
        ));
        i += 1;
    }
    i
}

/// The number that `start..end` of `chars` denotes, if it denotes one,
/// counted up to `limit`: every number above `limit` comes back as
/// `limit + 1`, however many digits it has.
pub fn parse_number_range(chars: &[char], start: usize, end: usize, limit: u16) -> (r: Option<
    u32,
>)
    requires
        start <= end <= chars@.len(),
    ensures
        r == match parse_number(span(chars@, start as int, end as int)) {
            Some(n) => Some(capped(n, limit as nat) as u32),
            None => None,
        },
{
    let ghost whole = span(chars@, start as int, end as int);
    let mut i: usize = start;
    if i < end && chars[i] == '+' {
        i += 1;
    }
    let first: usize = i;
    let ghost digits = span(chars@, first as int, end as int);
    assert(digits =~= unsigned_part(whole));
    if first == end {
        return None;
    }
    let mut value: u32 = 0;
    while i < end
        invariant
            first <= i <= end <= chars@.len(),
            first < end,
            digits == span(chars@, first as int, end as int),
            digits == unsigned_part(span(chars@, start as int, end as int)),
            value == capped(decimal_value(digits.take(i - first)), limit as nat),
            all_digits(digits.take(i - first)),
        decreases end - i,
    {
        let c: char = chars[i];
        let u: u32 = c as u32;
        if u < 0x30 || u > 0x39 {
            assert(digits[i - first] == c && !is_digit(c));
            return None;
        }
        proof {
            let longer = digits.take(i - first + 1);
            assert(longer.drop_last() =~= digits.take(i - first));
            assert(longer.last() == c);
            assert(all_digits(longer)) by {
                assert forall|k: int| 0 <= k < longer.len() implies is_digit(
                    #[trigger] longer[k],
                ) by {
                    if k < i - first {
                        assert(longer[k] == digits.take(i - first)[k]);
                    }
                }
            }
        }
        let next: u32 = value * 10 + (u - 0x30);
        value = if value > limit as u32 || next > limit as u32 {
            limit as u32 + 1
        } else {
            next
        };
        i += 1;
    }
    assert(digits.take(i - first) =~= digits);
    Some(value)
}

/// The byte that `start..end` of `chars` denotes, if it denotes one.
pub fn parse_u8_range(chars: &[char], start: usize, end: usize) -> (r: Option<u8>)
    requires
        start <= end <= chars@.len(),
    ensures
        r == parse_u8(span(chars@, start as int, end as int)),
{
    match parse_number_range(chars, start, end, 255) {
        Some(value) => if value <= 255 {
            Some(value as u8)
        } else {
            None
        },
        None => None,
    }
}

/// The one-character string that shows the digit `d`.
pub fn digit_str(d: u8) -> (s: &'static str)
    requires
        d < 10,
    ensures
        s@ == seq![digit_char(d as nat)],
{
    proof {
        reveal_strlit("0");
        reveal_strlit("1");
        reveal_strlit("2");
        reveal_strlit("3");
        reveal_strlit("4");
        reveal_strlit("5");
        reveal_strlit("6");
        reveal_strlit("7");
        reveal_strlit("8");
        reveal_strlit("9");
    }
    let s = if d == 0 {
        "0"
    } else if d == 1 {
        "1"
    } else if d == 2 {
        "2"
    } else if d == 3 {
        "3"
    } else if d == 4 {
        "4"
    } else if d == 5 {
        "5"
    } else if d == 6 {
        "6"
    } else if d == 7 {
        "7"
    } else if d == 8 {
        "8"
    } else {
        "9"
    };
    assert(s@ =~= seq![digit_char(d as nat)]);
    s
}

/// Appends `n` in base ten to `out`.
pub fn append_decimal(out: &mut String, n: usize)
    ensures
        final(out)@ == old(out)@ + decimal(n as nat),
    decreases n,
{
    if n >= 10 {
        append_decimal(out, n / 10);
        out.append(digit_str((n % 10) as u8));
        assert(old(out)@ + decimal((n / 10) as nat) + seq![digit_char((n % 10) as nat)] =~= old(
            out,
        )@ + decimal(n as nat));
    } else {
        out.append(digit_str(n as u8));
    }
}

/// `core::str::from_utf8`, which checks that `bytes` are well-formed UTF-8
/// and, where they are, hands them back as text: the text's bytes are
/// `bytes`. Where they are not, there is no text.
#[verifier::external_body]
fn text_of_utf8(bytes: &[u8]) -> (text: Option<&str>)
    ensures
        text is Some <==> valid_utf8(bytes@),
        text matches Some(s) ==> s.spec_bytes() == bytes@,
{
    core::str::from_utf8(bytes).ok()
}

/// The text that `bytes` encode in UTF-8, or nothing where they are not
/// well-formed.
pub fn decode_text(bytes: &[u8]) -> (text: Option<&str>)
    ensures
        text is Some <==> valid_utf8(bytes@),
        text matches Some(s) ==> s@ == decode_utf8(bytes@),
{
    let text = text_of_utf8(bytes);
    proof {
        if let Some(s) = text {
            encode_utf8_decode_utf8(s@);
        }
    }
    text
}

} // verus!
