use vstd::prelude::*;
use vstd::string::StringExecFns;

verus! {

/// The character of a decimal digit.
pub open spec fn digit_char(d: int) -> char {
    (('0' as u32) + d) as char
}

/// Decimal digits of a natural number, most significant first.
pub open spec fn decimal_digits(n: nat) -> Seq<char>
    decreases n,
{
    if n < 10 {
        seq![digit_char(n as int)]
    } else {
        decimal_digits(n / 10).push(digit_char((n % 10) as int))
    }
}

/// Decimal text of an integer, with a leading '-' for negative numbers.
pub open spec fn decimal_string(n: int) -> Seq<char> {
    if n < 0 {
        seq!['-'] + decimal_digits((-n) as nat)
    } else {
        decimal_digits(n as nat)
    }
}

/// Appends one character to a `String` (std's `String::push`).
#[verifier::external_body]
pub(crate) fn string_push(s: &mut String, c: char)
    ensures final(s)@ == old(s)@.push(c),
{
    s.push(c)
}

fn digit_to_char(d: u8) -> (c: char)
    requires d < 10,
    ensures c == digit_char(d as int),
{
    let r = match d {
        0 => '0',
        1 => '1',
        2 => '2',
        3 => '3',
        4 => '4',
        5 => '5',
        6 => '6',
        7 => '7',
        8 => '8',
        _ => '9',
    };
    r
}

/// Appends the decimal digits of `n` to `s`.
pub fn push_decimal_digits(s: &mut String, n: u128)
    ensures final(s)@ == old(s)@ + decimal_digits(n as nat),
    decreases n,
{
    if n >= 10 {
        push_decimal_digits(s, n / 10);
    }
    let d = (n % 10) as u8;
    string_push(s, digit_to_char(d));
    proof {
        assert(n < 10 ==> decimal_digits(n as nat) == seq![digit_char(n as int)]);
    }
}

/// Appends the decimal text of `n` to `s`.
pub fn push_decimal(s: &mut String, n: i128)
    ensures final(s)@ == old(s)@ + decimal_string(n as int),
{
    if n < 0 {
        string_push(s, '-');
        let magnitude: u128 = ((-(n + 1)) as u128) + 1;
        push_decimal_digits(s, magnitude);
        assert(seq!['-'] + decimal_digits(magnitude as nat) == decimal_string(n as int));
    } else {
        push_decimal_digits(s, n as u128);
    }
}

/// The decimal text of `n`.
pub fn decimal(n: i128) -> (r: String)
    ensures r@ == decimal_string(n as int),
{
    let mut s = String::new();
    push_decimal(&mut s, n);
    assert(s@ =~= decimal_string(n as int));
    s
}

/// The decimal text of `n`, a space and the unit's name.
pub fn unit_string(n: u64, unit: &str) -> (r: String)
    ensures r@ == decimal_string(n as int) + seq![' '] + unit@,
{
    let mut s = decimal(n as i128);
    string_push(&mut s, ' ');
    s.append(unit);
    s
}

/// The character of a lowercase hexadecimal digit.
pub open spec fn hex_char(d: int) -> char {
    if d < 10 {
        digit_char(d)
    } else {
        (('a' as u32) + (d - 10)) as char
    }
}

/// Lowercase hexadecimal digits of a natural number, most significant first.
pub open spec fn hex_digits(n: nat) -> Seq<char>
    decreases n,
{
    if n < 16 {
        seq![hex_char(n as int)]
    } else {
        hex_digits(n / 16).push(hex_char((n % 16) as int))
    }
}

/// Hexadecimal text of a natural number with the `0x` prefix.
pub open spec fn hex_string(n: nat) -> Seq<char> {
    seq!['0', 'x'] + hex_digits(n)
}

fn hex_digit_to_char(d: u8) -> (c: char)
    requires d < 16,
    ensures c == hex_char(d as int),
{
    if d < 10 {
        digit_to_char(d)
    } else {
        let r = match d {
            10 => 'a',
            11 => 'b',
            12 => 'c',
            13 => 'd',
            14 => 'e',
            _ => 'f',
        };
        r
    }
}

/// Appends the hexadecimal digits of `n` to `s`.
pub fn push_hex_digits(s: &mut String, n: u64)
    ensures final(s)@ == old(s)@ + hex_digits(n as nat),
    decreases n,
{
    if n >= 16 {
        push_hex_digits(s, n / 16);
    }
    let d = (n % 16) as u8;
    string_push(s, hex_digit_to_char(d));
    proof {
        assert(n < 16 ==> hex_digits(n as nat) == seq![hex_char(n as int)]);
    }
}

/// The text `Address(0x...)` of a raw address.
pub open spec fn address_text(raw: nat) -> Seq<char> {
    seq!['A', 'd', 'd', 'r', 'e', 's', 's', '('] + hex_string(raw) + seq![')']
}

/// The text `Address(0x...)` of a raw address.
pub fn address_string(raw: u64) -> (r: String)
    ensures r@ == address_text(raw as nat),
{
    let mut s = String::new();
    string_push(&mut s, 'A');
    string_push(&mut s, 'd');
    string_push(&mut s, 'd');
    string_push(&mut s, 'r');
    string_push(&mut s, 'e');
    string_push(&mut s, 's');
    string_push(&mut s, 's');
    string_push(&mut s, '(');
    string_push(&mut s, '0');
    string_push(&mut s, 'x');
    push_hex_digits(&mut s, raw);
    string_push(&mut s, ')');
    assert(s@ =~= seq!['A', 'd', 'd', 'r', 'e', 's', 's', '('] + hex_string(raw as nat) + seq![')']);
    s
}

/// The hexadecimal text of `n` with the `0x` prefix (`{:#x}`).
pub fn hex(n: u64) -> (r: String)
    ensures r@ == hex_string(n as nat),
{
    let mut s = String::new();
    string_push(&mut s, '0');
    string_push(&mut s, 'x');
    push_hex_digits(&mut s, n);
    assert(s@ =~= hex_string(n as nat));
    s
}

/// `n` spaces.
pub open spec fn spaces(n: nat) -> Seq<char> {
    Seq::new(n, |i: int| ' ')
}

/// `text`, with spaces in front up to `width` characters (`{:>width}`).
pub open spec fn right_aligned(text: Seq<char>, width: nat) -> Seq<char> {
    if text.len() < width {
        spaces((width - text.len()) as nat) + text
    } else {
        text
    }
}

/// `text`, with spaces behind up to `width` characters (`{:<width}`).
pub open spec fn left_aligned(text: Seq<char>, width: nat) -> Seq<char> {
    if text.len() < width {
        text + spaces((width - text.len()) as nat)
    } else {
        text
    }
}

/// Appends `n` spaces to `s`.
pub fn push_spaces(s: &mut String, n: usize)
    ensures final(s)@ == old(s)@ + spaces(n as nat),
{
    let mut i: usize = 0;
    while i < n
        invariant
            i <= n,
            s@ == old(s)@ + spaces(i as nat),
        decreases n - i,
    {
        string_push(s, ' ');
        i = i + 1;
        assert(s@ =~= old(s)@ + spaces(i as nat));
    }
}

/// Appends `text`, right-aligned in `width` characters, to `s`.
pub fn push_right_aligned(s: &mut String, text: &str, width: usize)
    ensures final(s)@ == old(s)@ + right_aligned(text@, width as nat),
{
    let n = text.unicode_len();
    if n < width {
        push_spaces(s, width - n);
    }
    s.append(text);
    assert(s@ =~= old(s)@ + right_aligned(text@, width as nat));
}

/// Appends `text`, left-aligned in `width` characters, to `s`.
pub fn push_left_aligned(s: &mut String, text: &str, width: usize)
    ensures final(s)@ == old(s)@ + left_aligned(text@, width as nat),
{
    let n = text.unicode_len();
    s.append(text);
    if n < width {
        push_spaces(s, width - n);
    }
    assert(s@ =~= old(s)@ + left_aligned(text@, width as nat));
}

} // verus!
