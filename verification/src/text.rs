//! Character-level text handling: Unicode whitespace, trimming, tokens and
//! decimal `u64` parsing, as the standard library defines them.
use vstd::prelude::*;

verus! {

/// The Unicode `White_Space` characters (what `char::is_whitespace` accepts).
pub open spec fn is_ws(c: char) -> bool {
    let u = c as u32;
    ||| 0x09 <= u <= 0x0d
    ||| u == 0x20
    ||| u == 0x85
    ||| u == 0xa0
    ||| u == 0x1680
    ||| 0x2000 <= u <= 0x200a
    ||| u == 0x2028
    ||| u == 0x2029
    ||| u == 0x202f
    ||| u == 0x205f
    ||| u == 0x3000
}

pub fn is_ws_exec(c: char) -> (b: bool)
    ensures
        b == is_ws(c),
{
    let u = c as u32;
    (0x09 <= u && u <= 0x0d) || u == 0x20 || u == 0x85 || u == 0xa0 || u == 0x1680 || (0x2000 <= u
        && u <= 0x200a) || u == 0x2028 || u == 0x2029 || u == 0x202f || u == 0x205f || u == 0x3000
}

pub open spec fn is_digit(c: char) -> bool {
    0x30 <= (c as u32) <= 0x39
}

pub open spec fn digit_value(c: char) -> int {
    (c as u32) - 0x30
}

/// Decimal value of a string of digits.
pub open spec fn digits_value(s: Seq<char>) -> int
    decreases s.len(),
{
    if s.len() == 0 {
        0
    } else {
        digits_value(s.drop_last()) * 10 + digit_value(s.last())
    }
}

/// `s` without one leading `+`.
pub open spec fn unsigned_part(s: Seq<char>) -> Seq<char> {
    if s.len() > 0 && s[0] == '+' {
        s.drop_first()
    } else {
        s
    }
}

pub open spec fn all_digits(s: Seq<char>) -> bool {
    forall|i: int| 0 <= i < s.len() ==> is_digit(#[trigger] s[i])
}

/// What `str::parse::<u64>` gives: an optional `+` followed by at least one
/// decimal digit and nothing else, whose value fits in a `u64`.
pub open spec fn parse_u64(s: Seq<char>) -> Option<u64> {
    let digits = unsigned_part(s);
    if digits.len() > 0 && all_digits(digits) && digits_value(digits) <= u64::MAX {
        Some(digits_value(digits) as u64)
    } else {
        None
    }
}

/// Number of whitespace characters at the start of `s`.
pub open spec fn leading_ws(s: Seq<char>) -> nat
    decreases s.len(),
{
    if s.len() > 0 && is_ws(s[0]) {
        1 + leading_ws(s.drop_first())
    } else {
        0
    }
}

/// Number of whitespace characters at the end of `s`.
pub open spec fn trailing_ws(s: Seq<char>) -> nat
    decreases s.len(),
{
    if s.len() > 0 && is_ws(s.last()) {
        1 + trailing_ws(s.drop_last())
    } else {
        0
    }
}

/// `s` without leading and trailing whitespace (`str::trim`).
pub open spec fn trim(s: Seq<char>) -> Seq<char> {
    let a = leading_ws(s);
    let t = s.skip(a as int);
    t.take(t.len() - trailing_ws(t))
}

/// Number of non-whitespace characters at the start of `s`.
pub open spec fn token_len(s: Seq<char>) -> nat
    decreases s.len(),
{
    if s.len() > 0 && !is_ws(s[0]) {
        1 + token_len(s.drop_first())
    } else {
        0
    }
}

/// The first whitespace-separated token of `s` (`split_whitespace().next()`).
pub open spec fn first_token(s: Seq<char>) -> Option<Seq<char>>
    decreases s.len(),
{
    if s.len() == 0 {
        None
    } else if is_ws(s[0]) {
        first_token(s.drop_first())
    } else {
        Some(s.take(token_len(s) as int))
    }
}

/// The value of the first whitespace-separated token of `s` that parses as
/// a `u64`.
pub open spec fn first_number(s: Seq<char>) -> Option<u64>
    decreases s.len(),
{
    if s.len() == 0 {
        None
    } else if is_ws(s[0]) {
        first_number(s.drop_first())
    } else {
        let k = token_len(s);
        proof {
            lemma_token_len_bound(s);
        }
        match parse_u64(s.take(k as int)) {
            Some(v) => Some(v),
            None => if k > 0 {
                first_number(s.skip(k as int))
            } else {
                None
            },
        }
    }
}

/// Index of the first `'\n'` in `s`, or its length.
pub open spec fn line_end(s: Seq<char>) -> nat
    decreases s.len(),
{
    if s.len() == 0 || s[0] == '\n' {
        0
    } else {
        1 + line_end(s.drop_first())
    }
}

pub proof fn lemma_token_len_bound(s: Seq<char>)
    ensures
        token_len(s) <= s.len(),
        s.len() > 0 && !is_ws(s[0]) ==> token_len(s) >= 1,
        forall|i: int| 0 <= i < token_len(s) ==> !is_ws(#[trigger] s[i]),
        token_len(s) < s.len() ==> is_ws(s[token_len(s) as int]),
    decreases s.len(),
{
    if s.len() > 0 && !is_ws(s[0]) {
        lemma_token_len_bound(s.drop_first());
        assert forall|i: int| 0 <= i < token_len(s) implies !is_ws(#[trigger] s[i]) by {
            if i > 0 {
                assert(s[i] == s.drop_first()[i - 1]);
            }
        }
    }
}

pub proof fn lemma_line_end_bound(s: Seq<char>)
    ensures
        line_end(s) <= s.len(),
        forall|i: int| 0 <= i < line_end(s) ==> #[trigger] s[i] != '\n',
        line_end(s) < s.len() ==> s[line_end(s) as int] == '\n',
    decreases s.len(),
{
    if s.len() > 0 && s[0] != '\n' {
        lemma_line_end_bound(s.drop_first());
        assert forall|i: int| 0 <= i < line_end(s) implies #[trigger] s[i] != '\n' by {
            if i > 0 {
                assert(s[i] == s.drop_first()[i - 1]);
            }
        }
    }
}

pub proof fn lemma_leading_ws_bound(s: Seq<char>)
    ensures
        leading_ws(s) <= s.len(),
        forall|i: int| 0 <= i < leading_ws(s) ==> is_ws(#[trigger] s[i]),
        leading_ws(s) < s.len() ==> !is_ws(s[leading_ws(s) as int]),
    decreases s.len(),
{
    if s.len() > 0 && is_ws(s[0]) {
        lemma_leading_ws_bound(s.drop_first());
        assert forall|i: int| 0 <= i < leading_ws(s) implies is_ws(#[trigger] s[i]) by {
            if i > 0 {
                assert(s[i] == s.drop_first()[i - 1]);
            }
        }
    }
}

pub proof fn lemma_trailing_ws_bound(s: Seq<char>)
    ensures
        trailing_ws(s) <= s.len(),
        forall|i: int| s.len() - trailing_ws(s) <= i < s.len() ==> is_ws(#[trigger] s[i]),
        trailing_ws(s) < s.len() ==> !is_ws(s[s.len() - trailing_ws(s) - 1]),
    decreases s.len(),
{
    if s.len() > 0 && is_ws(s.last()) {
        lemma_trailing_ws_bound(s.drop_last());
        assert forall|i: int| s.len() - trailing_ws(s) <= i < s.len() implies is_ws(
            #[trigger] s[i],
        ) by {
            if i < s.len() - 1 {
                assert(s[i] == s.drop_last()[i]);
            }
        }
    }
}

/// The characters of `s`.
pub fn chars_of(s: &str) -> (v: Vec<char>)
    ensures
        v@ == s@,
{
    let n = s.unicode_len();
    let mut v: Vec<char> = Vec::new();
    let mut i: usize = 0;
    while i < n
        invariant
            n == s@.len(),
            i <= n,
            v@ == s@.take(i as int),
        decreases n - i,
    {
        v.push(s.get_char(i));
        i = i + 1;
        assert(v@ =~= s@.take(i as int));
    }
    assert(s@.take(n as int) =~= s@);
    v
}

/// `s[a..b]` parsed as a `u64` (`str::parse::<u64>`).
pub fn parse_u64_range(s: &Vec<char>, a: usize, b: usize) -> (r: Option<u64>)
    requires
        a <= b <= s@.len(),
    ensures
        r == parse_u64(s@.subrange(a as int, b as int)),
{
    let ghost t = s@.subrange(a as int, b as int);
    let start = if a < b && s[a] == '+' {
        a + 1
    } else {
        a
    };
    let ghost digits = s@.subrange(start as int, b as int);
    assert(digits =~= unsigned_part(t));
    if start == b {
        return None;
    }
    let mut v: u64 = 0;
    let mut i: usize = start;
    while i < b
        invariant
            a <= start < b <= s@.len(),
            start <= i <= b,
            digits == s@.subrange(start as int, b as int),
            t == s@.subrange(a as int, b as int),
            digits == unsigned_part(t),
            forall|j: int| 0 <= j < i - start ==> is_digit(#[trigger] digits[j]),
            v == digits_value(digits.take(i - start)),
        decreases b - i,
    {
        let c = s[i];
        let u = c as u32;
        if !(0x30 <= u && u <= 0x39) {
            assert(!is_digit(digits[i - start]));
            assert(!all_digits(digits));
            return None;
        }
        let d = (u - 0x30) as u64;
        assert(digits.take(i + 1 - start).drop_last() =~= digits.take(i - start));
        assert(digits.take(i + 1 - start).last() == c);
        let m = v.checked_mul(10);
        match m {
            None => {
                proof {
                    if all_digits(digits) {
                        lemma_digits_prefix_le(digits, i + 1 - start);
                        lemma_digits_prefix_le(digits.take(i - start), 0);
                    }
                }
                return None;
            },
            Some(m) => {
                let n = m.checked_add(d);
                match n {
                    None => {
                        proof {
                            if all_digits(digits) {
                                lemma_digits_prefix_le(digits, i + 1 - start);
                            }
                        }
                        return None;
                    },
                    Some(n) => {
                        v = n;
                    },
                }
            },
        }
        i = i + 1;
    }
    assert(digits.take(b - start) =~= digits);
    Some(v)
}

/// The value of a digit string is at least the value of any of its
/// prefixes.
pub proof fn lemma_digits_prefix_le(s: Seq<char>, k: int)
    requires
        0 <= k <= s.len(),
        forall|j: int| 0 <= j < s.len() ==> is_digit(#[trigger] s[j]),
    ensures
        digits_value(s.take(k)) <= digits_value(s),
        digits_value(s) >= 0,
    decreases s.len(),
{
    if s.len() > 0 {
        let t = s.drop_last();
        assert forall|j: int| 0 <= j < t.len() implies is_digit(#[trigger] t[j]) by {
            assert(t[j] == s[j]);
        }
        if k == s.len() {
            assert(s.take(k) =~= s);
            lemma_digits_prefix_le(t, 0);
        } else {
            assert(s.take(k) =~= t.take(k));
            lemma_digits_prefix_le(t, k);
        }
        assert(is_digit(s[s.len() - 1]));
    } else {
        assert(s.take(k) =~= s);
    }
}

/// Start of `s` after its leading whitespace, from position `a` on.
fn skip_ws(s: &Vec<char>, a: usize) -> (i: usize)
    requires
        a <= s@.len(),
    ensures
        a <= i <= s@.len(),
        i == a + leading_ws(s@.skip(a as int)),
{
    let mut i = a;
    proof {
        lemma_leading_ws_bound(s@.skip(a as int));
    }
    while i < s.len() && is_ws_exec(s[i])
        invariant
            a <= i <= s@.len(),
            leading_ws(s@.skip(a as int)) == (i - a) + leading_ws(s@.skip(i as int)),
        decreases s@.len() - i,
    {
        assert(s@.skip(i as int).drop_first() =~= s@.skip(i + 1));
        i = i + 1;
    }
    i
}

/// End of the token that starts at `a`.
fn token_end(s: &Vec<char>, a: usize) -> (j: usize)
    requires
        a <= s@.len(),
    ensures
        a <= j <= s@.len(),
        j == a + token_len(s@.skip(a as int)),
{
    let mut j = a;
    while j < s.len() && !is_ws_exec(s[j])
        invariant
            a <= j <= s@.len(),
            token_len(s@.skip(a as int)) == (j - a) + token_len(s@.skip(j as int)),
        decreases s@.len() - j,
    {
        assert(s@.skip(j as int).drop_first() =~= s@.skip(j + 1));
        j = j + 1;
    }
    j
}

/// `str::trim` on characters: the bounds `[a, b)` of the trimmed text.
pub fn trim_bounds(s: &Vec<char>) -> (r: (usize, usize))
    ensures
        r.0 <= r.1 <= s@.len(),
        s@.subrange(r.0 as int, r.1 as int) == trim(s@),
{
    let a = skip_ws(s, 0);
    assert(s@.skip(0) =~= s@);
    let mut b = s.len();
    let ghost t = s@.skip(a as int);
    proof {
        lemma_leading_ws_bound(s@);
        lemma_trailing_ws_bound(t);
    }
    while b > a && is_ws_exec(s[b - 1])
        invariant
            a <= b <= s@.len(),
            t == s@.skip(a as int),
            trailing_ws(t) == (s@.len() - b) + trailing_ws(s@.subrange(a as int, b as int)),
        decreases b,
    {
        assert(s@.subrange(a as int, b as int).drop_last() =~= s@.subrange(a as int, b - 1));
        b = b - 1;
    }
    assert(s@.subrange(a as int, b as int) =~= t.take(t.len() - trailing_ws(t)));
    (a, b)
}

/// `text.split_whitespace()` then the first token that parses as a `u64`.
pub fn first_number_exec(s: &Vec<char>) -> (r: Option<u64>)
    ensures
        r == first_number(s@),
{
    let mut i: usize = 0;
    assert(s@.skip(0) =~= s@);
    while i < s.len()
        invariant
            i <= s@.len(),
            first_number(s@) == first_number(s@.skip(i as int)),
        decreases s@.len() - i,
    {
        if is_ws_exec(s[i]) {
            assert(s@.skip(i as int).drop_first() =~= s@.skip(i + 1));
            i = i + 1;
        } else {
            let j = token_end(s, i);
            proof {
                lemma_token_len_bound(s@.skip(i as int));
            }
            assert(s@.skip(i as int).take(j - i) =~= s@.subrange(i as int, j as int));
            assert(s@.skip(i as int).skip(j - i) =~= s@.skip(j as int));
            let v = parse_u64_range(s, i, j);
            if v.is_some() {
                return v;
            }
            i = j;
        }
    }
    None
}

/// Bounds of the first whitespace-separated token of `s[..end]`.
pub fn first_token_bounds(s: &Vec<char>, end: usize) -> (r: Option<(usize, usize)>)
    requires
        end <= s@.len(),
    ensures
        match r {
            Some((a, b)) => a < b <= end && first_token(s@.take(end as int)) == Some(
                s@.subrange(a as int, b as int),
            ),
            None => first_token(s@.take(end as int)) is None,
        },
{
    let ghost u = s@.take(end as int);
    let mut i: usize = 0;
    assert(u.skip(0) =~= u);
    while i < end
        invariant
            end <= s@.len(),
            u == s@.take(end as int),
            i <= end,
            first_token(u) == first_token(u.skip(i as int)),
        decreases end - i,
    {
        if is_ws_exec(s[i]) {
            assert(u.skip(i as int).drop_first() =~= u.skip(i + 1));
            i = i + 1;
        } else {
            let mut j = i;
            while j < end && !is_ws_exec(s[j])
                invariant
                    i <= j <= end,
                    end <= s@.len(),
                    u == s@.take(end as int),
                    token_len(u.skip(i as int)) == (j - i) + token_len(u.skip(j as int)),
                decreases end - j,
            {
                assert(u.skip(j as int).drop_first() =~= u.skip(j + 1));
                j = j + 1;
            }
            assert(u.skip(i as int).take(j - i) =~= s@.subrange(i as int, j as int));
            return Some((i, j));
        }
    }
    assert(u.skip(end as int).len() == 0);
    None
}

/// End of the first line of `s` (index of the first `'\n'`, or the length).
pub fn line_end_exec(s: &Vec<char>) -> (e: usize)
    ensures
        e == line_end(s@),
        e <= s@.len(),
{
    let mut i: usize = 0;
    assert(s@.skip(0) =~= s@);
    proof {
        lemma_line_end_bound(s@);
    }
    while i < s.len() && s[i] != '\n'
        invariant
            i <= s@.len(),
            line_end(s@) == i + line_end(s@.skip(i as int)),
        decreases s@.len() - i,
    {
        assert(s@.skip(i as int).drop_first() =~= s@.skip(i + 1));
        i = i + 1;
    }
    i
}

/// Characters of ASCII bytes.
pub open spec fn ascii_chars(b: Seq<u8>) -> Seq<char> {
    Seq::new(b.len(), |i: int| b[i] as char)
}

pub open spec fn is_ascii_bytes(b: Seq<u8>) -> bool {
    forall|i: int| 0 <= i < b.len() ==> #[trigger] b[i] < 0x80
}

/// The text of ASCII bytes: `String::from_utf8`, which accepts every ASCII
/// byte string and decodes each byte to the character with that code.
#[verifier::external_body]
pub(crate) fn ascii_string(bytes: Vec<u8>) -> (s: String)
    requires
        is_ascii_bytes(bytes@),
    ensures
        s@ == ascii_chars(bytes@),
{
    match String::from_utf8(bytes) {
        Ok(s) => s,
        Err(_) => String::new(),
    }
}

/// Decimal digits (ASCII codes) of `n`, most significant first.
pub open spec fn decimal_bytes(n: nat) -> Seq<u8>
    decreases n,
{
    if n < 10 {
        seq![(n + 0x30) as u8]
    } else {
        decimal_bytes(n / 10).push(((n % 10) + 0x30) as u8)
    }
}

pub proof fn lemma_decimal_bytes(n: nat)
    ensures
        is_ascii_bytes(decimal_bytes(n)),
        decimal_bytes(n).len() >= 1,
        all_digits(ascii_chars(decimal_bytes(n))),
        digits_value(ascii_chars(decimal_bytes(n))) == n,
    decreases n,
{
    let t = ascii_chars(decimal_bytes(n));
    let b = ((n % 10) + 0x30) as u8;
    assert((b as char) as u32 == b as u32);
    assert(n == (n / 10) * 10 + n % 10);
    if n >= 10 {
        lemma_decimal_bytes(n / 10);
        assert(t.drop_last() =~= ascii_chars(decimal_bytes(n / 10)));
        assert(t.last() == b as char);
        assert(digit_value(t.last()) == n % 10);
        let u = ascii_chars(decimal_bytes(n / 10));
        assert forall|i: int| 0 <= i < t.len() implies is_digit(#[trigger] t[i]) by {
            if i < t.len() - 1 {
                assert(t[i] == u[i]);
            }
        }
    } else {
        assert(t[0] == b as char);
        assert(t.drop_last() =~= Seq::<char>::empty());
        assert(digits_value(t.drop_last()) == 0);
        assert(digit_value(t.last()) == n);
    }
}

/// Appends the decimal digits of `n` to `out`.
pub fn push_decimal(out: &mut Vec<u8>, n: u64)
    ensures
        final(out)@ == old(out)@ + decimal_bytes(n as nat),
    decreases n,
{
    if n >= 10 {
        push_decimal(out, n / 10);
    }
    out.push((n % 10) as u8 + 0x30);
    assert(final(out)@ =~= old(out)@ + decimal_bytes(n as nat)) by {
        if n >= 10 {
            assert(decimal_bytes(n as nat) =~= decimal_bytes((n / 10) as nat).push(
                ((n % 10) + 0x30) as u8,
            ));
        }
    }
}

/// Decimal text of `n` (what `format!("{n}")` gives).
pub fn decimal_string(n: u64) -> (s: String)
    ensures
        s@ == ascii_chars(decimal_bytes(n as nat)),
{
    let mut out: Vec<u8> = Vec::new();
    push_decimal(&mut out, n);
    assert(out@ =~= decimal_bytes(n as nat));
    proof {
        lemma_decimal_bytes(n as nat);
    }
    ascii_string(out)
}

/// Printing a number in decimal and parsing the text back gives the
/// number.
pub proof fn lemma_decimal_parses_back(n: u64)
    ensures
        parse_u64(ascii_chars(decimal_bytes(n as nat))) == Some(n),
{
    let t = ascii_chars(decimal_bytes(n as nat));
    lemma_decimal_bytes(n as nat);
    assert(t[0] != '+') by {
        assert(is_digit(t[0]));
    }
    assert(unsigned_part(t) == t);
}

/// `String` holding `s[a..b]`.
pub fn substring(s: &str, a: usize, b: usize) -> (r: String)
    requires
        a <= b <= s@.len(),
    ensures
        r@ == s@.subrange(a as int, b as int),
{
    String::from_str(s.substring_char(a, b))
}

} // verus!
