//! Character and string helpers: white space, trimming, decimal and
//! hexadecimal numbers.

use vstd::prelude::*;

verus! {

/// `String::push` of std, which its documentation describes as appending the
/// given `char` to the end of the string: this contract claims, unproved, that
/// the characters afterwards are those before followed by `ch`.
pub assume_specification[ String::push ](s: &mut String, ch: char)
    ensures
        final(s)@ == old(s)@.push(ch),
;

/// The Unicode `White_Space` characters: the ASCII tab, line feed, vertical
/// tab, form feed, carriage return and space, and U+0085, U+00A0, U+1680,
/// U+2000..=U+200A, U+2028, U+2029, U+202F, U+205F and U+3000.
pub open spec fn is_white_space(c: char) -> bool {
    let u = c as u32;
    ||| u == 0x20
    ||| 0x09 <= u <= 0x0d
    ||| u == 0x85
    ||| u == 0xa0
    ||| u == 0x1680
    ||| 0x2000 <= u <= 0x200a
    ||| u == 0x2028
    ||| u == 0x2029
    ||| u == 0x202f
    ||| u == 0x205f
    ||| u == 0x3000
}

/// Whether `c` is white space in the Unicode sense (as `char::is_whitespace`).
pub fn is_whitespace(c: char) -> (r: bool)
    ensures
        r == is_white_space(c),
{
    let u = c as u32;
    u == 0x20 || (0x09 <= u && u <= 0x0d) || u == 0x85 || u == 0xa0 || u == 0x1680 || (0x2000
        <= u && u <= 0x200a) || u == 0x2028 || u == 0x2029 || u == 0x202f || u == 0x205f || u
        == 0x3000
}

/// Whether `c` ends a line: a carriage return or a line feed.
pub open spec fn is_line_end(c: char) -> bool {
    c == '\r' || c == '\n'
}

/// `s` without the white space at its end.
pub open spec fn trim_end_ws(s: Seq<char>) -> Seq<char>
    decreases s.len(),
{
    if s.len() > 0 && is_white_space(s.last()) {
        trim_end_ws(s.drop_last())
    } else {
        s
    }
}

/// `s` without the white space at its start.
pub open spec fn trim_start_ws(s: Seq<char>) -> Seq<char>
    decreases s.len(),
{
    if s.len() > 0 && is_white_space(s[0]) {
        trim_start_ws(s.drop_first())
    } else {
        s
    }
}

/// `s` without white space at either end.
pub open spec fn trim_ws(s: Seq<char>) -> Seq<char> {
    trim_start_ws(trim_end_ws(s))
}

/// `s` without the carriage returns and line feeds at its end.
pub open spec fn trim_line_end(s: Seq<char>) -> Seq<char>
    decreases s.len(),
{
    if s.len() > 0 && is_line_end(s.last()) {
        trim_line_end(s.drop_last())
    } else {
        s
    }
}

/// The characters of `s`.
pub fn chars_of(s: &str) -> (v: Vec<char>)
    ensures
        v@ == s@,
{
    let n = s.unicode_len();
    let mut v: Vec<char> = Vec::new();
    let mut i: usize = 0;
    while i < n
        invariant
            n == s@.len(),
            i <= n,
            v@ == s@.subrange(0, i as int),
        decreases n - i,
    {
        let c = s.get_char(i);
        v.push(c);
        i += 1;
        assert(v@ =~= s@.subrange(0, i as int));
    }
    assert(v@ =~= s@);
    v
}

/// A `String` holding `v[from..to]`.
pub fn string_from_chars(v: &Vec<char>, from: usize, to: usize) -> (s: String)
    requires
        from <= to <= v@.len(),
    ensures
        s@ == v@.subrange(from as int, to as int),
{
    let mut s = String::new();
    let mut i = from;
    while i < to
        invariant
            from <= i <= to <= v@.len(),
            s@ == v@.subrange(from as int, i as int),
        decreases to - i,
    {
        s.push(v[i]);
        i += 1;
        assert(s@ =~= v@.subrange(from as int, i as int));
    }
    s
}

proof fn lemma_trim_end_ws_prefix(s: Seq<char>)
    ensures
        trim_end_ws(s) =~= s.subrange(0, trim_end_ws(s).len() as int),
        trim_end_ws(s).len() <= s.len(),
    decreases s.len(),
{
    if s.len() > 0 && is_white_space(s.last()) {
        lemma_trim_end_ws_prefix(s.drop_last());
    }
}

/// What cutting white space from the end leaves ends with no white space,
/// and cutting it again changes nothing.
pub proof fn lemma_trim_end_ws_settled(s: Seq<char>)
    ensures
        trim_end_ws(s).len() == 0 || !is_white_space(trim_end_ws(s).last()),
        trim_end_ws(trim_end_ws(s)) == trim_end_ws(s),
    decreases s.len(),
{
    if s.len() > 0 && is_white_space(s.last()) {
        lemma_trim_end_ws_settled(s.drop_last());
    }
}

/// What cutting white space from the start leaves is a suffix of `s` that
/// starts with no white space, and cutting it again changes nothing.
pub proof fn lemma_trim_start_ws_settled(s: Seq<char>)
    ensures
        trim_start_ws(s).len() <= s.len(),
        trim_start_ws(s) =~= s.subrange(s.len() - trim_start_ws(s).len(), s.len() as int),
        trim_start_ws(s).len() == 0 || !is_white_space(trim_start_ws(s)[0]),
        trim_start_ws(trim_start_ws(s)) == trim_start_ws(s),
    decreases s.len(),
{
    if s.len() > 0 && is_white_space(s[0]) {
        lemma_trim_start_ws_settled(s.drop_first());
    }
}

/// Cutting white space from both ends a second time changes nothing.
pub proof fn lemma_trim_ws_settled(s: Seq<char>)
    ensures
        trim_ws(trim_ws(s)) == trim_ws(s),
{
    let e = trim_end_ws(s);
    lemma_trim_end_ws_settled(s);
    lemma_trim_start_ws_settled(e);
    let t = trim_start_ws(e);
    // `t` is a suffix of `e`, so it ends where `e` ends
    if t.len() > 0 {
        assert(t.last() == e.last());
    }
    assert(trim_end_ws(t) == t);
}

/// How many characters of `v[..end]` remain once white space is cut from the
/// end of that prefix.
fn trimmed_end(v: &Vec<char>, end: usize) -> (k: usize)
    requires
        end <= v@.len(),
    ensures
        k <= end,
        trim_end_ws(v@.subrange(0, end as int)) == v@.subrange(0, k as int),
{
    let mut k = end;
    while k > 0 && is_whitespace(v[k - 1])
        invariant
            k <= end <= v@.len(),
            trim_end_ws(v@.subrange(0, end as int)) == trim_end_ws(v@.subrange(0, k as int)),
        decreases k,
    {
        assert(v@.subrange(0, k as int).drop_last() =~= v@.subrange(0, k - 1));
        k -= 1;
    }
    proof {
        let p = v@.subrange(0, k as int);
        if p.len() > 0 {
            assert(p.last() == v@[k - 1]);
        }
    }
    k
}

/// How many characters at the start of `v[from..to]` are white space.
fn trimmed_start(v: &Vec<char>, from: usize, to: usize) -> (k: usize)
    requires
        from <= to <= v@.len(),
    ensures
        from <= k <= to,
        trim_start_ws(v@.subrange(from as int, to as int)) == v@.subrange(k as int, to as int),
{
    let mut k = from;
    while k < to && is_whitespace(v[k])
        invariant
            from <= k <= to <= v@.len(),
            trim_start_ws(v@.subrange(from as int, to as int)) == trim_start_ws(
                v@.subrange(k as int, to as int),
            ),
        decreases to - k,
    {
        assert(v@.subrange(k as int, to as int).drop_first() =~= v@.subrange(k + 1, to as int));
        k += 1;
    }
    proof {
        let p = v@.subrange(k as int, to as int);
        if p.len() > 0 {
            assert(p[0] == v@[k as int]);
        }
    }
    k
}

/// `s` without white space at its end, as `str::trim_end` gives it.
pub fn trim_end(s: &str) -> (r: String)
    ensures
        r@ == trim_end_ws(s@),
{
    let v = chars_of(s);
    let k = trimmed_end(&v, v.len());
    assert(v@.subrange(0, v@.len() as int) =~= v@);
    string_from_chars(&v, 0, k)
}

/// `s` without white space at either end, as `str::trim` gives it.
pub fn trim(s: &str) -> (r: String)
    ensures
        r@ == trim_ws(s@),
{
    let v = chars_of(s);
    let k = trimmed_end(&v, v.len());
    assert(v@.subrange(0, v@.len() as int) =~= v@);
    let j = trimmed_start(&v, 0, k);
    string_from_chars(&v, j, k)
}

/// `s` without the carriage returns and line feeds at its end, as
/// `str::trim_end_matches(['\r', '\n'])` gives it.
pub fn trim_line_end_of(s: &str) -> (r: String)
    ensures
        r@ == trim_line_end(s@),
{
    let v = chars_of(s);
    let mut k = v.len();
    assert(v@.subrange(0, k as int) =~= v@);
    while k > 0 && (v[k - 1] == '\r' || v[k - 1] == '\n')
        invariant
            k <= v@.len(),
            trim_line_end(v@) == trim_line_end(v@.subrange(0, k as int)),
        decreases k,
    {
        assert(v@.subrange(0, k as int).drop_last() =~= v@.subrange(0, k - 1));
        k -= 1;
    }
    proof {
        let p = v@.subrange(0, k as int);
        if p.len() > 0 {
            assert(p.last() == v@[k - 1]);
        }
    }
    string_from_chars(&v, 0, k)
}

// ---------------------------------------------------------------------------
//  Decimal numbers
// ---------------------------------------------------------------------------

/// The decimal digit character for `d` (0..=9).
pub open spec fn digit_char(d: int) -> char {
    (('0' as u32) + d) as char
}

/// Whether `c` is one of `0`..=`9`.
pub open spec fn is_digit(c: char) -> bool {
    '0' as u32 <= c as u32 <= '9' as u32
}

/// The value of the digit character `c`.
pub open spec fn digit_value(c: char) -> int {
    c as u32 - '0' as u32
}

/// The decimal digits of `n`, without sign or leading zeros.
pub open spec fn dec_digits(n: nat) -> Seq<char>
    decreases n,
{
    if n < 10 {
        seq![digit_char(n as int)]
    } else {
        dec_digits(n / 10).push(digit_char((n % 10) as int))
    }
}

/// Whether every character of `s` is a decimal digit.
pub open spec fn all_digits(s: Seq<char>) -> bool {
    forall|i: int| 0 <= i < s.len() ==> is_digit(#[trigger] s[i])
}

/// The number that the digits `s` spell in base ten.
pub open spec fn digits_value(s: Seq<char>) -> nat
    decreases s.len(),
{
    if s.len() == 0 {
        0
    } else {
        (digits_value(s.drop_last()) * 10 + digit_value(s.last())) as nat
    }
}

/// What `str::parse` gives for an unsigned integer type whose largest value is
/// `max`: an optional `+` followed by at least one decimal digit, whose value
/// does not exceed `max`.
pub open spec fn parse_unsigned_spec(s: Seq<char>, max: nat) -> Option<nat> {
    let digits = if s.len() > 0 && s[0] == '+' {
        s.drop_first()
    } else {
        s
    };
    if digits.len() > 0 && all_digits(digits) && digits_value(digits) <= max {
        Some(digits_value(digits))
    } else {
        None
    }
}

/// What `str::parse::<i64>` gives: an optional `+` or `-` followed by at least
/// one decimal digit, whose signed value lies in the range of `i64`.
pub open spec fn parse_i64_spec(s: Seq<char>) -> Option<int> {
    let neg = s.len() > 0 && s[0] == '-';
    let digits = if s.len() > 0 && (s[0] == '+' || s[0] == '-') {
        s.drop_first()
    } else {
        s
    };
    if digits.len() > 0 && all_digits(digits) {
        let v: int = if neg {
            -(digits_value(digits) as int)
        } else {
            digits_value(digits) as int
        };
        if i64::MIN <= v <= i64::MAX {
            Some(v)
        } else {
            None
        }
    } else {
        None
    }
}

pub proof fn lemma_digit_char(d: int)
    requires
        0 <= d < 10,
    ensures
        is_digit(digit_char(d)),
        digit_value(digit_char(d)) == d,
        digit_char(d) != '+' && digit_char(d) != '-',
{
}

pub proof fn lemma_digits_value_step(s: Seq<char>, i: int)
    requires
        0 <= i < s.len(),
        is_digit(s[i]),
    ensures
        digits_value(s.subrange(0, i + 1)) == digits_value(s.subrange(0, i)) * 10 + digit_value(
            s[i],
        ),
{
    assert(s.subrange(0, i + 1).drop_last() =~= s.subrange(0, i));
}

/// The value of the digits `v[from..to]`, if they are all digits, there is
/// at least one, and the value does not exceed `max`.
fn parse_digits(v: &Vec<char>, from: usize, to: usize, max: u64) -> (r: Option<u64>)
    requires
        from <= to <= v@.len(),
    ensures
        ({
            let d = v@.subrange(from as int, to as int);
            r == (if d.len() > 0 && all_digits(d) && digits_value(d) <= max {
                Some(digits_value(d) as u64)
            } else {
                None
            })
        }),
{
    let ghost d = v@.subrange(from as int, to as int);
    if from == to {
        return None;
    }
    let mut acc: u64 = 0;
    let mut i = from;
    while i < to
        invariant
            from <= i <= to <= v@.len(),
            d == v@.subrange(from as int, to as int),
            all_digits(d.subrange(0, i - from)),
            acc == digits_value(d.subrange(0, i - from)),
            acc <= max,
        decreases to - i,
    {
        let c = v[i];
        let cu = c as u32;
        if cu < '0' as u32 || cu > '9' as u32 {
            proof {
                assert(d[i - from] == c);
            }
            return None;
        }
        let dv = (cu - '0' as u32) as u64;
        proof {
            lemma_digits_value_step(d, i - from);
            assert(d[i - from] == c);
            assert(d.subrange(0, i - from + 1) =~= d.subrange(0, i - from).push(c));
        }
        if acc > max / 10 || (acc == max / 10 && dv > max % 10) {
            // the value already exceeds `max`; the rest can only be larger or invalid
            proof {
                assert(acc * 10 + dv > max) by (nonlinear_arith)
                    requires
                        acc > max / 10 || (acc == max / 10 && dv > max % 10),
                        dv <= 9,
                ;
            }
            let ghost k = i - from + 1;
            let mut j = i + 1;
            while j < to
                invariant
                    from <= i < j <= to <= v@.len(),
                    d == v@.subrange(from as int, to as int),
                    all_digits(d.subrange(0, j - from)) ==> digits_value(d.subrange(0, j - from))
                        > max,
                decreases to - j,
            {
                let c2 = v[j];
                proof {
                    assert(d[j - from] == c2);
                    if is_digit(c2) {
                        lemma_digits_value_step(d, j - from);
                    }
                    assert(d.subrange(0, j - from + 1).drop_last() =~= d.subrange(0, j - from));
                    if all_digits(d.subrange(0, j - from + 1)) {
                        assert forall|q: int| 0 <= q < j - from implies is_digit(
                            #[trigger] d.subrange(0, j - from)[q],
                        ) by {
                            assert(d.subrange(0, j - from)[q] == d.subrange(0, j - from + 1)[q]);
                        }
                    }
                }
                j += 1;
            }
            proof {
                assert(d.subrange(0, to - from) =~= d);
            }
            return None;
        }
        proof {
            assert(acc * 10 + dv <= max) by (nonlinear_arith)
                requires
                    !(acc > max / 10 || (acc == max / 10 && dv > max % 10)),
                    dv <= 9,
            ;
        }
        acc = acc * 10 + dv;
        i += 1;
        proof {
            assert forall|q: int| 0 <= q < i - from implies is_digit(
                #[trigger] d.subrange(0, i - from)[q],
            ) by {
                if q < i - from - 1 {
                    assert(d.subrange(0, i - from)[q] == d.subrange(0, i - from - 1)[q]);
                } else {
                    assert(d.subrange(0, i - from)[q] == c);
                }
            }
        }
    }
    proof {
        assert(d.subrange(0, to - from) =~= d);
    }
    Some(acc)
}

/// The value of `v[from..to]` read as an unsigned number no larger than
/// `max`, as `str::parse` reads it.
pub fn parse_unsigned(v: &Vec<char>, from: usize, to: usize, max: u64) -> (r: Option<u64>)
    requires
        from <= to <= v@.len(),
    ensures
        match parse_unsigned_spec(v@.subrange(from as int, to as int), max as nat) {
            Some(n) => r == Some(n as u64),
            None => r is None,
        },
{
    let ghost s = v@.subrange(from as int, to as int);
    if from < to && v[from] == '+' {
        proof {
            assert(s[0] == '+');
            assert(s.drop_first() =~= v@.subrange(from + 1, to as int));
        }
        parse_digits(v, from + 1, to, max)
    } else {
        proof {
            if s.len() > 0 {
                assert(s[0] == v@[from as int]);
            }
        }
        parse_digits(v, from, to, max)
    }
}

/// The value of `v[from..to]` read as an `i64`, as `str::parse` reads it.
pub fn parse_i64(v: &Vec<char>, from: usize, to: usize) -> (r: Option<i64>)
    requires
        from <= to <= v@.len(),
    ensures
        match parse_i64_spec(v@.subrange(from as int, to as int)) {
            Some(n) => r == Some(n as i64),
            None => r is None,
        },
{
    let ghost s = v@.subrange(from as int, to as int);
    if from < to && v[from] == '-' {
        proof {
            assert(s[0] == '-');
            assert(s.drop_first() =~= v@.subrange(from + 1, to as int));
        }
        // the magnitude of the smallest `i64` is one more than the largest
        match parse_digits(v, from + 1, to, 0x8000_0000_0000_0000u64) {
            Some(m) => {
                if m == 0x8000_0000_0000_0000u64 {
                    Some(i64::MIN)
                } else {
                    Some(-(m as i64))
                }
            },
            None => {
                proof {
                    let d = s.drop_first();
                    if d.len() > 0 && all_digits(d) {
                        assert(digits_value(d) > 0x8000_0000_0000_0000u64);
                    }
                }
                None
            },
        }
    } else if from < to && v[from] == '+' {
        proof {
            assert(s[0] == '+');
            assert(s.drop_first() =~= v@.subrange(from + 1, to as int));
        }
        match parse_digits(v, from + 1, to, 0x7fff_ffff_ffff_ffffu64) {
            Some(m) => Some(m as i64),
            None => None,
        }
    } else {
        proof {
            if s.len() > 0 {
                assert(s[0] == v@[from as int]);
            }
        }
        match parse_digits(v, from, to, 0x7fff_ffff_ffff_ffffu64) {
            Some(m) => Some(m as i64),
            None => None,
        }
    }
}

/// The character for the digit `d` (0..=15): `0`..=`9`, then `a`..=`f`.
fn hex_digit_char(d: u32) -> (c: char)
    requires
        d < 16,
    ensures
        c == hex_char(d as int),
        d < 10 ==> c == digit_char(d as int),
{
    match d {
        0 => '0',
        1 => '1',
        2 => '2',
        3 => '3',
        4 => '4',
        5 => '5',
        6 => '6',
        7 => '7',
        8 => '8',
        9 => '9',
        10 => 'a',
        11 => 'b',
        12 => 'c',
        13 => 'd',
        14 => 'e',
        _ => 'f',
    }
}

/// Appends the decimal digits of `n` to `s`.
pub fn push_decimal(s: &mut String, n: u64)
    ensures
        final(s)@ == old(s)@ + dec_digits(n as nat),
    decreases n,
{
    if n >= 10 {
        push_decimal(s, n / 10);
    }
    let d = (n % 10) as u32;
    let c = hex_digit_char(d);
    s.push(c);
    assert(s@ =~= old(s)@ + dec_digits(n as nat));
}

/// The decimal form of `n` with a leading `-` when negative, as `{}` formats
/// an `i64`.
pub open spec fn signed_dec(n: int) -> Seq<char> {
    if n < 0 {
        seq!['-'] + dec_digits((-n) as nat)
    } else {
        dec_digits(n as nat)
    }
}

/// Appends the decimal form of the signed `n` to `s`.
pub fn push_signed_decimal(s: &mut String, n: i64)
    ensures
        final(s)@ == old(s)@ + signed_dec(n as int),
{
    if n < 0 {
        s.push('-');
        let m: u64 = if n == i64::MIN {
            0x8000_0000_0000_0000u64
        } else {
            (-n) as u64
        };
        push_decimal(s, m);
        assert(s@ =~= old(s)@ + signed_dec(n as int));
    } else {
        push_decimal(s, n as u64);
    }
}

pub proof fn lemma_dec_digits_shape(n: nat)
    ensures
        dec_digits(n).len() > 0,
        all_digits(dec_digits(n)),
        digits_value(dec_digits(n)) == n,
        dec_digits(n)[0] != '+' && dec_digits(n)[0] != '-',
    decreases n,
{
    lemma_digit_char((n % 10) as int);
    if n < 10 {
        assert(dec_digits(n).drop_last() =~= Seq::<char>::empty());
        assert(digits_value(Seq::<char>::empty()) == 0);
        assert(dec_digits(n).last() == digit_char(n as int));
        assert(digits_value(dec_digits(n)) == n);
    }
    if n >= 10 {
        lemma_dec_digits_shape(n / 10);
        let p = dec_digits(n / 10);
        let s = dec_digits(n);
        assert(s.drop_last() =~= p);
        assert(s.last() == digit_char((n % 10) as int));
        assert(digits_value(s) == digits_value(p) * 10 + digit_value(s.last()));
        assert((n / 10) * 10 + n % 10 == n);
        assert(digits_value(p) == n / 10);
        assert(digit_value(s.last()) == n % 10);
        assert(s[0] == p[0]);
        assert forall|i: int| 0 <= i < s.len() implies is_digit(#[trigger] s[i]) by {
            if i < p.len() {
                assert(s[i] == p[i]);
            }
        }
    }
}

/// Reading back the decimal digits of an unsigned number gives the number.
pub proof fn lemma_parse_unsigned_of_dec(n: nat, max: nat)
    requires
        n <= max,
    ensures
        parse_unsigned_spec(dec_digits(n), max) == Some(n),
{
    lemma_dec_digits_shape(n);
}

/// Reading back the decimal form of an `i64` gives the number.
pub proof fn lemma_parse_i64_of_dec(n: i64)
    ensures
        parse_i64_spec(signed_dec(n as int)) == Some(n as int),
{
    if n < 0 {
        lemma_dec_digits_shape((-n) as nat);
        let s = signed_dec(n as int);
        assert(s.drop_first() =~= dec_digits((-n) as nat));
    } else {
        lemma_dec_digits_shape(n as nat);
    }
}

// ---------------------------------------------------------------------------
//  Hexadecimal numbers
// ---------------------------------------------------------------------------

/// The lower-case hexadecimal digit for `d` (0..=15).
pub open spec fn hex_char(d: int) -> char {
    if d < 10 {
        (('0' as u32) + d) as char
    } else {
        (('a' as u32) + d - 10) as char
    }
}

/// The last `k` lower-case hexadecimal digits of `x`, zero-padded.
pub open spec fn hex_digits(x: nat, k: nat) -> Seq<char>
    decreases k,
{
    if k == 0 {
        seq![]
    } else {
        hex_digits(x / 16, (k - 1) as nat).push(hex_char((x % 16) as int))
    }
}

fn push_hex_digits(s: &mut String, x: u64, k: u32)
    requires
        k <= 16,
    ensures
        final(s)@ == old(s)@ + hex_digits(x as nat, k as nat),
    decreases k,
{
    if k > 0 {
        push_hex_digits(s, x / 16, k - 1);
        let d = (x % 16) as u32;
        let c = hex_digit_char(d);
        s.push(c);
        assert(s@ =~= old(s)@ + hex_digits(x as nat, k as nat));
    } else {
        assert(s@ =~= old(s)@ + hex_digits(x as nat, k as nat));
    }
}

/// `x` as sixteen lower-case hexadecimal digits, as `{:016x}` formats it.
pub fn hex16(x: u64) -> (s: String)
    ensures
        s@ == hex_digits(x as nat, 16),
{
    let mut s = String::new();
    push_hex_digits(&mut s, x, 16);
    assert(s@ =~= hex_digits(x as nat, 16));
    s
}

} // verus!
