//! Small text utilities: decimal rendering, digit parsing and character classes.

use vstd::prelude::*;
use vstd::utf8::{encode_utf8, encode_scalar, is_ascii_chars, is_ascii_chars_encode_utf8};

verus! {

/// The ASCII digit character for `d` (`0 <= d < 10`).
pub open spec fn digit_char(d: int) -> char {
    if d == 0 { '0' }
    else if d == 1 { '1' }
    else if d == 2 { '2' }
    else if d == 3 { '3' }
    else if d == 4 { '4' }
    else if d == 5 { '5' }
    else if d == 6 { '6' }
    else if d == 7 { '7' }
    else if d == 8 { '8' }
    else { '9' }
}

/// The decimal representation of `n`, without leading zeros.
pub open spec fn decimal(n: nat) -> Seq<char>
    decreases n,
{
    if n < 10 {
        seq![digit_char(n as int)]
    } else {
        decimal(n / 10).push(digit_char((n % 10) as int))
    }
}

/// `n` written with at least two digits (a leading zero below ten).
pub open spec fn two_digits(n: nat) -> Seq<char> {
    if n < 10 { seq!['0'].add(decimal(n)) } else { decimal(n) }
}

/// `String::push`: appends one character.
#[verifier::external_body]
pub(crate) fn push_char(s: &mut String, c: char)
    ensures
        final(s)@ == old(s)@.push(c),
{
    s.push(c);
}

/// `String::pop`: removes and returns the last character, if any.
#[verifier::external_body]
pub(crate) fn pop_char(s: &mut String) -> (r: Option<char>)
    ensures
        old(s)@.len() == 0 ==> r is None && final(s)@ == old(s)@,
        old(s)@.len() > 0 ==> r == Some(old(s)@.last()) && final(s)@ == old(s)@.drop_last(),
{
    s.pop()
}

pub fn digit(d: u32) -> (c: char)
    requires
        d < 10,
    ensures
        c == digit_char(d as int),
{
    match d {
        0 => '0',
        1 => '1',
        2 => '2',
        3 => '3',
        4 => '4',
        5 => '5',
        6 => '6',
        7 => '7',
        8 => '8',
        _ => '9',
    }
}

/// Appends the decimal representation of `n` to `s`.
pub fn push_decimal(s: &mut String, n: u32)
    ensures
        final(s)@ == old(s)@ + decimal(n as nat),
    decreases n,
{
    if n < 10 {
        push_char(s, digit(n));
        assert(decimal(n as nat) =~= seq![digit_char(n as int)]);
    } else {
        push_decimal(s, n / 10);
        push_char(s, digit(n % 10));
        assert(old(s)@ + decimal(n as nat) =~= old(s)@ + decimal((n / 10) as nat) + seq![digit_char((n % 10) as int)]);
    }
}

/// The decimal representation of `n` as a new string (what `n.to_string()` gives).
pub fn decimal_string(n: u32) -> (s: String)
    ensures
        s@ == decimal(n as nat),
{
    let mut s = String::new();
    push_decimal(&mut s, n);
    assert(s@ =~= decimal(n as nat));
    s
}

pub open spec fn is_ascii_digit(c: char) -> bool {
    '0' <= c && c <= '9'
}

/// Unicode general category Cc: U+0000..U+001F and U+007F..U+009F.
pub open spec fn spec_is_control(c: char) -> bool {
    (c as u32) <= 0x1f || (0x7f <= (c as u32) && (c as u32) <= 0x9f)
}

/// Whether `c` is a control character (what `char::is_control` answers).
pub fn is_control(c: char) -> (b: bool)
    ensures
        b == spec_is_control(c),
{
    let v = c as u32;
    v <= 0x1f || (0x7f <= v && v <= 0x9f)
}

pub fn is_digit_char(c: char) -> (b: bool)
    ensures
        b == is_ascii_digit(c),
{
    '0' <= c && c <= '9'
}

pub open spec fn digit_value(c: char) -> int {
    (c as int) - ('0' as int)
}

pub open spec fn all_digits(cs: Seq<char>) -> bool {
    forall|i: int| 0 <= i < cs.len() ==> is_ascii_digit(#[trigger] cs[i])
}

/// The number that a string of decimal digits denotes.
pub open spec fn digits_value(cs: Seq<char>) -> nat
    decreases cs.len(),
{
    if cs.len() == 0 {
        0
    } else {
        (digits_value(cs.drop_last()) * 10 + digit_value(cs.last())) as nat
    }
}

/// What `str::parse::<u32>` accepts: an optional `+`, then one or more
/// ASCII digits whose value fits in a `u32`.
pub open spec fn spec_parse_u32(cs: Seq<char>) -> Option<u32> {
    let body = if cs.len() > 0 && cs[0] == '+' { cs.drop_first() } else { cs };
    if body.len() > 0 && all_digits(body) && digits_value(body) <= u32::MAX {
        Some(digits_value(body) as u32)
    } else {
        None
    }
}

proof fn lemma_digits_value_grows(cs: Seq<char>, i: int)
    requires
        all_digits(cs),
        0 <= i <= cs.len(),
    ensures
        digits_value(cs.take(i)) <= digits_value(cs),
    decreases cs.len() - i,
{
    if i < cs.len() {
        lemma_digits_value_grows(cs, i + 1);
        assert(cs.take(i + 1).drop_last() =~= cs.take(i));
        assert(is_ascii_digit(cs[i]));
    } else {
        assert(cs.take(i) =~= cs);
    }
}

/// Parses a decimal `u32` the way `str::parse::<u32>` does.
pub fn parse_u32(s: &str) -> (r: Option<u32>)
    ensures
        r == spec_parse_u32(s@),
{
    let n = s.unicode_len();
    let ghost cs = s@;
    let mut start: usize = 0;
    if n > 0 && s.get_char(0) == '+' {
        start = 1;
    }
    let ghost body = if cs.len() > 0 && cs[0] == '+' { cs.drop_first() } else { cs };
    assert(body =~= cs.subrange(start as int, cs.len() as int));
    if start >= n {
        return None;
    }
    let mut value: u64 = 0;
    let mut i: usize = start;
    while i < n
        invariant
            n == cs.len(),
            cs == s@,
            start <= i <= n,
            body =~= cs.subrange(start as int, n as int),
            body == (if cs.len() > 0 && cs[0] == '+' { cs.drop_first() } else { cs }),
            all_digits(body.take(i - start)),
            value == digits_value(body.take(i - start)),
            value <= u32::MAX,
        decreases n - i,
    {
        let c = s.get_char(i);
        let ghost k = (i - start) as int;
        assert(body[k] == c);
        if !is_digit_char(c) {
            assert(!is_ascii_digit(body[k]));
            assert(!all_digits(body));
            assert(spec_parse_u32(cs) is None);
            return None;
        }
        assert(body.take(k + 1).drop_last() =~= body.take(k));
        assert(body.take(k + 1).last() == c);
        value = value * 10 + (c as u64 - '0' as u64);
        assert(value == digits_value(body.take(k + 1)));
        assert forall|j: int| 0 <= j < k + 1 implies is_ascii_digit(#[trigger] body.take(k + 1)[j]) by {
            if j < k {
                assert(body.take(k + 1)[j] == body.take(k)[j]);
            }
        }
        i = i + 1;
        if value > 0xffff_ffff {
            proof {
                if all_digits(body) {
                    lemma_digits_value_grows(body, k + 1);
                }
            }
            assert(spec_parse_u32(cs) is None);
            return None;
        }
    }
    assert(body.take(n - start) =~= body);
    Some(value as u32)
}

/// The byte length of a text in UTF-8 (what `str::len` counts).
pub open spec fn byte_len(cs: Seq<char>) -> nat {
    encode_utf8(cs).len()
}

/// Appending a character adds its 1 to 4 UTF-8 bytes.
pub proof fn lemma_byte_len_push(cs: Seq<char>, c: char)
    ensures
        byte_len(cs.push(c)) == byte_len(cs) + encode_scalar(c as u32).len(),
        1 <= encode_scalar(c as u32).len() <= 4,
    decreases cs.len(),
{
    let scalar = encode_scalar(c as u32);
    assert(1 <= scalar.len() <= 4);
    if cs.len() == 0 {
        assert(cs.push(c).drop_first() =~= Seq::<char>::empty());
        assert(cs.push(c)[0] == c);
        assert(encode_utf8(Seq::<char>::empty()).len() == 0);
        assert(encode_utf8(cs.push(c)) == encode_scalar(c as u32) + encode_utf8(cs.push(c).drop_first()));
    } else {
        lemma_byte_len_push(cs.drop_first(), c);
        assert(cs.push(c).drop_first() =~= cs.drop_first().push(c));
        assert(cs.push(c)[0] == cs[0]);
        assert(encode_utf8(cs.push(c)) == encode_scalar(cs[0] as u32) + encode_utf8(cs.push(c).drop_first()));
        assert(encode_utf8(cs) == encode_scalar(cs[0] as u32) + encode_utf8(cs.drop_first()));
    }
}

/// Dropping the last character removes at least one byte.
pub proof fn lemma_byte_len_drop_last(cs: Seq<char>)
    requires
        cs.len() > 0,
    ensures
        byte_len(cs.drop_last()) < byte_len(cs),
{
    lemma_byte_len_push(cs.drop_last(), cs.last());
    assert(cs.drop_last().push(cs.last()) =~= cs);
}

/// Each character takes at least one byte.
pub proof fn lemma_byte_len_at_least_chars(cs: Seq<char>)
    ensures
        byte_len(cs) >= cs.len(),
    decreases cs.len(),
{
    if cs.len() > 0 {
        lemma_byte_len_at_least_chars(cs.drop_last());
        lemma_byte_len_drop_last(cs);
    }
}

/// An ASCII text takes one byte per character.
pub proof fn lemma_byte_len_ascii(cs: Seq<char>)
    requires
        is_ascii_chars(cs),
    ensures
        byte_len(cs) == cs.len(),
{
    is_ascii_chars_encode_utf8(cs);
}

/// 10 to the power `k`.
pub open spec fn pow10(k: nat) -> nat
    decreases k,
{
    if k == 0 { 1 } else { 10 * pow10((k - 1) as nat) }
}

/// The decimal representation of a number below `10^k` has at most `k`
/// digits, all ASCII.
pub proof fn lemma_decimal_shape(n: nat, k: nat)
    requires
        n < pow10(k),
        k >= 1,
    ensures
        decimal(n).len() <= k,
        is_ascii_chars(decimal(n)),
        all_digits(decimal(n)),
        decimal(n).len() >= 1,
    decreases n,
{
    if n >= 10 {
        assert(k >= 2) by {
            if k == 1 {
                assert(pow10(1) == 10 * pow10(0));
            }
        }
        assert(pow10(k) == 10 * pow10((k - 1) as nat));
        assert(n / 10 < pow10((k - 1) as nat)) by (nonlinear_arith)
            requires n < 10 * pow10((k - 1) as nat);
        lemma_decimal_shape(n / 10, (k - 1) as nat);
        let d = decimal(n);
        lemma_digit_char(n as int % 10);
        assert forall|i: int| 0 <= i < d.len() implies is_ascii_digit(#[trigger] d[i]) && '\0' <= d[i] <= '\u{7f}' by {
            if i < d.len() - 1 {
                assert(d[i] == decimal(n / 10)[i]);
            }
        }
    } else {
        lemma_digit_char(n as int);
    }
}

/// A `u32` has at most ten decimal digits.
pub proof fn lemma_u32_decimal_shape(n: u32)
    ensures
        1 <= decimal(n as nat).len() <= 10,
        is_ascii_chars(decimal(n as nat)),
        all_digits(decimal(n as nat)),
        byte_len(decimal(n as nat)) == decimal(n as nat).len(),
{
    reveal_with_fuel(pow10, 11);
    assert(pow10(10) == 10000000000);
    lemma_decimal_shape(n as nat, 10);
    lemma_byte_len_ascii(decimal(n as nat));
}

/// A digit character is an ASCII digit whose value is the digit.
pub proof fn lemma_digit_char(d: int)
    requires
        0 <= d < 10,
    ensures
        is_ascii_digit(digit_char(d)),
        digit_value(digit_char(d)) == d,
        '\0' <= digit_char(d) <= '\u{7f}',
{
}

/// The digits of a number denote that number.
pub proof fn lemma_decimal_value(n: nat)
    ensures
        digits_value(decimal(n)) == n,
    decreases n,
{
    if n >= 10 {
        lemma_decimal_value(n / 10);
        lemma_digit_char(n as int % 10);
        let d = decimal(n);
        assert(d.drop_last() =~= decimal(n / 10));
        assert(d.last() == digit_char(n as int % 10));
        assert(digits_value(d) == digits_value(d.drop_last()) * 10 + digit_value(d.last()));
        assert(n == (n / 10) * 10 + n % 10);
    } else {
        lemma_digit_char(n as int);
        let d = decimal(n);
        assert(d.drop_last() =~= Seq::<char>::empty());
        assert(digits_value(d.drop_last()) == 0);
        assert(d.last() == digit_char(n as int));
        assert(digits_value(d) == digits_value(d.drop_last()) * 10 + digit_value(d.last()));
    }
}

/// A string of at most `k` digits denotes less than `10^k`.
pub proof fn lemma_digits_bound(cs: Seq<char>)
    requires
        all_digits(cs),
    ensures
        digits_value(cs) < pow10(cs.len()),
    decreases cs.len(),
{
    if cs.len() > 0 {
        let rest = cs.drop_last();
        assert forall|i: int| 0 <= i < rest.len() implies is_ascii_digit(#[trigger] rest[i]) by {
            assert(rest[i] == cs[i]);
        }
        lemma_digits_bound(rest);
        assert(is_ascii_digit(cs[cs.len() - 1]));
        let v = digits_value(rest) as int;
        let p = pow10(rest.len()) as int;
        let d = digit_value(cs.last());
        assert(v * 10 + d < p * 10) by (nonlinear_arith)
            requires v < p, 0 <= d <= 9;
    }
}

/// `n` spaces.
pub open spec fn spaces(n: nat) -> Seq<char> {
    Seq::new(n, |i: int| ' ')
}

/// `cs` left-aligned in a field of `w` characters (what `{:w}` gives a string).
pub open spec fn spec_pad_right(cs: Seq<char>, w: nat) -> Seq<char> {
    if cs.len() >= w { cs } else { cs + spaces((w - cs.len()) as nat) }
}

/// `cs` right-aligned in a field of `w` characters (what `{:>w}` gives).
pub open spec fn spec_pad_left(cs: Seq<char>, w: nat) -> Seq<char> {
    if cs.len() >= w { cs } else { spaces((w - cs.len()) as nat) + cs }
}

/// `cs` centred in a field of `w` characters, the odd space on the right
/// (what `{:^w}` gives).
pub open spec fn spec_center(cs: Seq<char>, w: nat) -> Seq<char> {
    if cs.len() >= w {
        cs
    } else {
        let pad = (w - cs.len()) as nat;
        spaces(pad / 2) + cs + spaces((pad - pad / 2) as nat)
    }
}

/// Appends `n` spaces.
pub fn push_spaces(s: &mut String, n: usize)
    ensures
        final(s)@ == old(s)@ + spaces(n as nat),
{
    let mut i: usize = 0;
    while i < n
        invariant
            i <= n,
            s@ == old(s)@ + spaces(i as nat),
        decreases n - i,
    {
        push_char(s, ' ');
        assert(old(s)@ + spaces((i + 1) as nat) =~= (old(s)@ + spaces(i as nat)).push(' '));
        i = i + 1;
    }
}

/// Left-aligns `s` in a field of `w` characters.
pub fn pad_right(s: &str, w: usize) -> (r: String)
    ensures
        r@ == spec_pad_right(s@, w as nat),
{
    let n = s.unicode_len();
    let mut r = String::from_str(s);
    if n < w {
        push_spaces(&mut r, w - n);
    }
    r
}

/// Right-aligns `s` in a field of `w` characters.
pub fn pad_left(s: &str, w: usize) -> (r: String)
    ensures
        r@ == spec_pad_left(s@, w as nat),
{
    let n = s.unicode_len();
    let mut r = String::new();
    if n < w {
        push_spaces(&mut r, w - n);
    }
    r.append(s);
    assert(r@ =~= spec_pad_left(s@, w as nat));
    r
}

/// Centres `s` in a field of `w` characters.
pub fn center(s: &str, w: usize) -> (r: String)
    ensures
        r@ == spec_center(s@, w as nat),
{
    let n = s.unicode_len();
    let mut r = String::new();
    if n < w {
        let pad = w - n;
        push_spaces(&mut r, pad / 2);
        r.append(s);
        push_spaces(&mut r, pad - pad / 2);
    } else {
        r.append(s);
    }
    assert(r@ =~= spec_center(s@, w as nat));
    r
}

/// The first `k` characters of `s` (all of them when it is shorter).
pub fn take_chars(s: &str, k: usize) -> (r: String)
    ensures
        r@ == s@.take(if k < s@.len() { k as int } else { s@.len() as int }),
{
    let n = s.unicode_len();
    let m = if k < n { k } else { n };
    let mut r = String::new();
    let mut i: usize = 0;
    while i < m
        invariant
            i <= m,
            m <= n,
            n == s@.len(),
            r@ == s@.take(i as int),
        decreases m - i,
    {
        let c = s.get_char(i);
        push_char(&mut r, c);
        assert(s@.take(i as int + 1) =~= s@.take(i as int).push(c));
        i = i + 1;
    }
    r
}

/// Padding, to the left, the right or both sides, fills a field of `w`
/// characters exactly, and leaves a longer text as it is.
pub proof fn law_padding_fills_the_field(cs: Seq<char>, w: nat)
    ensures
        spec_pad_right(cs, w).len() == if cs.len() >= w { cs.len() } else { w },
        spec_pad_left(cs, w).len() == if cs.len() >= w { cs.len() } else { w },
        spec_center(cs, w).len() == if cs.len() >= w { cs.len() } else { w },
        cs.len() >= w ==> spec_pad_right(cs, w) == cs && spec_pad_left(cs, w) == cs && spec_center(cs, w) == cs,
{
}

/// The decimal representation of a number is made of digits.
pub proof fn lemma_decimal_digits(n: nat)
    ensures
        all_digits(decimal(n)),
        decimal(n).len() >= 1,
    decreases n,
{
    if n < 10 {
        lemma_digit_char(n as int);
    } else {
        lemma_decimal_digits(n / 10);
        lemma_digit_char((n % 10) as int);
        let d = decimal(n);
        assert forall|i: int| 0 <= i < d.len() implies is_ascii_digit(#[trigger] d[i]) by {
            if i < d.len() - 1 {
                assert(d[i] == decimal(n / 10)[i]);
            }
        }
    }
}

/// Two-digit fields (`0` to `99`) read back as their number.
pub proof fn lemma_two_digits_value(n: nat)
    requires
        n < 100,
    ensures
        two_digits(n).len() == 2,
        all_digits(two_digits(n)),
        digits_value(two_digits(n)) == n,
{
    lemma_decimal_value(n);
    lemma_decimal_digits(n);
    if n < 10 {
        lemma_digit_char(n as int);
        let t = two_digits(n);
        assert(t == seq!['0', digit_char(n as int)]);
        assert(t.drop_last() =~= seq!['0']);
        assert(seq!['0'].drop_last() =~= Seq::<char>::empty());
        assert(digits_value(Seq::<char>::empty()) == 0);
        assert(digits_value(seq!['0']) == 0);
        assert(digits_value(t) == digits_value(seq!['0']) * 10 + digit_value(digit_char(n as int)));
    } else {
        lemma_digit_char((n % 10) as int);
        lemma_digit_char((n / 10) as int);
        assert(decimal(n / 10) == seq![digit_char((n / 10) as int)]);
    }
}

} // verus!
