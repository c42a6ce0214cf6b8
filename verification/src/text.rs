//! Character-level building blocks for the viewer's display text:
//! decimal and hexadecimal renderings of numbers, padding, and UTF-8 byte lengths.
use vstd::prelude::*;
use vstd::utf8::encode_utf8;

verus! {

/// The character that stands for the digit `d` (`0 <= d < 16`), in lower or upper case.
pub open spec fn digit_char(d: nat, upper: bool) -> char {
    if d < 10 {
        (48 + d) as char
    } else if upper {
        (55 + d) as char
    } else {
        (87 + d) as char
    }
}

/// The decimal digits of `n`, most significant first, without leading zeros ("0" for zero).
pub open spec fn decimal(n: nat) -> Seq<char>
    decreases n,
{
    if n < 10 {
        seq![digit_char(n, false)]
    } else {
        decimal(n / 10).push(digit_char(n % 10, false))
    }
}

/// The hexadecimal digits of `n`, most significant first, without leading zeros ("0" for zero).
pub open spec fn hexadecimal(n: nat, upper: bool) -> Seq<char>
    decreases n,
{
    if n < 16 {
        seq![digit_char(n, upper)]
    } else {
        hexadecimal(n / 16, upper).push(digit_char(n % 16, upper))
    }
}

/// The decimal rendering of a signed integer: a minus sign before the digits of its magnitude
/// when it is negative.
pub open spec fn signed_decimal(i: int) -> Seq<char> {
    if i < 0 {
        seq!['-'] + decimal((-i) as nat)
    } else {
        decimal(i as nat)
    }
}

/// `count` copies of the character `c`.
pub open spec fn repeat_char(c: char, count: nat) -> Seq<char> {
    Seq::new(count, |_i: int| c)
}

/// `s` preceded by as many zeros as it takes to reach `width` characters.
pub open spec fn zero_padded(s: Seq<char>, width: nat) -> Seq<char> {
    if s.len() >= width {
        s
    } else {
        repeat_char('0', (width - s.len()) as nat) + s
    }
}

/// `s` followed by as many spaces as it takes to reach `width` characters.
pub open spec fn space_padded(s: Seq<char>, width: nat) -> Seq<char> {
    if s.len() >= width {
        s
    } else {
        s + repeat_char(' ', (width - s.len()) as nat)
    }
}

/// The number of bytes that the UTF-8 encoding of `s` takes, as `str::len` reports it.
pub open spec fn byte_length(s: Seq<char>) -> usize {
    encode_utf8(s).len() as usize
}

/// The first `n` characters of `s`, or all of `s` when it is shorter.
pub open spec fn first_chars(s: Seq<char>, n: nat) -> Seq<char> {
    if s.len() <= n {
        s
    } else {
        s.take(n as int)
    }
}

/// The smaller of two numbers.
pub open spec fn min_nat(a: nat, b: nat) -> nat {
    if a <= b {
        a
    } else {
        b
    }
}

/// The larger of two numbers.
pub open spec fn max_nat(a: nat, b: nat) -> nat {
    if a >= b {
        a
    } else {
        b
    }
}

/// The views of a sequence of strings.
pub open spec fn strings_view(v: Seq<String>) -> Seq<Seq<char>> {
    v.map_values(|s: String| s@)
}

/// `s` with every double quote doubled.
pub open spec fn quotes_doubled(s: Seq<char>) -> Seq<char>
    decreases s.len(),
{
    if s.len() == 0 {
        seq![]
    } else if s.last() == '"' {
        quotes_doubled(s.drop_last()) + seq!['"', '"']
    } else {
        quotes_doubled(s.drop_last()).push(s.last())
    }
}

/// `name` as an SQL identifier: between double quotes, each double quote in it doubled.
pub open spec fn quoted_identifier(name: Seq<char>) -> Seq<char> {
    seq!['"'] + quotes_doubled(name) + seq!['"']
}

/// Appends `c` to `s`.
/// Trusted: `String::push` appends the character at the end of the string and changes nothing else.
#[verifier::external_body]
pub(crate) fn push_char(s: &mut String, c: char)
    ensures
        final(s)@ == old(s)@.push(c),
{
    s.push(c);
}

/// The character of digit `d`.
fn digit(d: u8, upper: bool) -> (c: char)
    requires
        d < 16,
    ensures
        c == digit_char(d as nat, upper),
{
    if d < 10 {
        (48u8 + d) as char
    } else if upper {
        (55u8 + d) as char
    } else {
        (87u8 + d) as char
    }
}

/// Appends the decimal digits of `n` to `s`.
pub fn push_decimal(s: &mut String, n: u128)
    ensures
        final(s)@ == old(s)@ + decimal(n as nat),
    decreases n,
{
    if n >= 10 {
        push_decimal(s, n / 10);
    }
    let d = (n % 10) as u8;
    push_char(s, digit(d, false));
    assert(final(s)@ =~= old(s)@ + decimal(n as nat)) by {
        if n >= 10 {
            assert(decimal(n as nat) == decimal((n / 10) as nat).push(digit_char((n % 10) as nat, false)));
        }
    }
}

/// Appends the hexadecimal digits of `n` to `s`.
pub fn push_hexadecimal(s: &mut String, n: u128, upper: bool)
    ensures
        final(s)@ == old(s)@ + hexadecimal(n as nat, upper),
    decreases n,
{
    if n >= 16 {
        push_hexadecimal(s, n / 16, upper);
    }
    let d = (n % 16) as u8;
    push_char(s, digit(d, upper));
}

/// Appends the decimal rendering of the signed integer `i` to `s`.
pub fn push_signed_decimal(s: &mut String, i: i64)
    ensures
        final(s)@ == old(s)@ + signed_decimal(i as int),
{
    if i < 0 {
        push_char(s, '-');
        let magnitude: u128 = (-(i as i128)) as u128;
        push_decimal(s, magnitude);
    } else {
        push_decimal(s, i as u128);
    }
}

/// Appends `count` copies of `c` to `s`.
pub fn push_repeated(s: &mut String, c: char, count: usize)
    ensures
        final(s)@ == old(s)@ + repeat_char(c, count as nat),
{
    let ghost start = s@;
    let mut k: usize = 0;
    while k < count
        invariant
            k <= count,
            s@ == start + repeat_char(c, k as nat),
        decreases count - k,
    {
        push_char(s, c);
        k = k + 1;
        assert(s@ =~= start + repeat_char(c, k as nat));
    }
}

/// Appends the hexadecimal digits of `n` to `s`, with zeros in front up to `width` digits.
pub fn push_hexadecimal_padded(s: &mut String, n: u128, width: usize, upper: bool)
    ensures
        final(s)@ == old(s)@ + zero_padded(hexadecimal(n as nat, upper), width as nat),
{
    let mut digits = String::new();
    push_hexadecimal(&mut digits, n, upper);
    assert(digits@ =~= hexadecimal(n as nat, upper));
    let len = digits.as_str().unicode_len();
    if len < width {
        push_repeated(s, '0', width - len);
    }
    s.append(digits.as_str());
    assert(s@ =~= old(s)@ + zero_padded(hexadecimal(n as nat, upper), width as nat));
}

/// Appends `text` to `s`, followed by spaces up to `width` characters in all.
pub fn push_space_padded(s: &mut String, text: &str, width: usize)
    ensures
        final(s)@ == old(s)@ + space_padded(text@, width as nat),
{
    s.append(text);
    let len = text.unicode_len();
    if len < width {
        push_repeated(s, ' ', width - len);
    }
    assert(s@ =~= old(s)@ + space_padded(text@, width as nat));
}

/// Appends `name` as an SQL identifier: between double quotes, each double quote doubled.
pub fn push_quoted_identifier(s: &mut String, name: &str)
    ensures
        final(s)@ == old(s)@ + quoted_identifier(name@),
{
    push_char(s, '"');
    let ghost start = s@;
    let n = name.unicode_len();
    let mut i: usize = 0;
    assert(name@.take(0) =~= Seq::<char>::empty());
    while i < n
        invariant
            i <= n,
            n == name@.len(),
            s@ == start + quotes_doubled(name@.take(i as int)),
        decreases n - i,
    {
        let c = name.get_char(i);
        if c == '"' {
            push_char(s, '"');
            push_char(s, '"');
        } else {
            push_char(s, c);
        }
        assert(name@.take(i + 1).drop_last() =~= name@.take(i as int));
        i = i + 1;
        assert(s@ =~= start + quotes_doubled(name@.take(i as int)));
    }
    assert(name@.take(n as int) =~= name@);
    push_char(s, '"');
    assert(s@ =~= old(s)@ + quoted_identifier(name@));
}

/// The number of bytes of the UTF-8 encoding of `s`.
pub fn byte_len(s: &String) -> (n: usize)
    ensures
        n == byte_length(s@),
{
    s.as_str().len()
}

} // verus!
