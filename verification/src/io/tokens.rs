use vstd::prelude::*;
use vstd::string::*;
use crate::evaluate::Error;

verus! {

/// Whether `c` is white space in the sense of Unicode's `White_Space` property.
pub open spec fn is_space(c: char) -> bool {
    ||| '\u{9}' <= c <= '\u{d}'
    ||| c == ' '
    ||| c == '\u{85}'
    ||| c == '\u{a0}'
    ||| c == '\u{1680}'
    ||| '\u{2000}' <= c <= '\u{200a}'
    ||| c == '\u{2028}'
    ||| c == '\u{2029}'
    ||| c == '\u{202f}'
    ||| c == '\u{205f}'
    ||| c == '\u{3000}'
}

/// Whether `c` is white space (Unicode `White_Space`).
pub fn is_whitespace(c: char) -> (r: bool)
    ensures r == is_space(c),
{
    ('\u{9}' <= c && c <= '\u{d}') || c == ' ' || c == '\u{85}' || c == '\u{a0}' || c == '\u{1680}' || ('\u{2000}'
        <= c && c <= '\u{200a}') || c == '\u{2028}' || c == '\u{2029}' || c == '\u{202f}' || c == '\u{205f}' || c
        == '\u{3000}'
}

/// The value of `c` as a digit, when it is one in base `radix` (2, 10 or 16).
pub open spec fn digit_value(c: char, radix: nat) -> Option<nat> {
    let v: int = if '0' <= c <= '9' {
        c as int - '0' as int
    } else if 'a' <= c <= 'z' {
        c as int - 'a' as int + 10
    } else if 'A' <= c <= 'Z' {
        c as int - 'A' as int + 10
    } else {
        -1
    };
    if 0 <= v < radix {
        Some(v as nat)
    } else {
        None
    }
}

/// Whether every character of `s` is a digit in base `radix`.
pub open spec fn all_digits(s: Seq<char>, radix: nat) -> bool {
    forall|i: int| 0 <= i < s.len() ==> #[trigger] digit_value(s[i], radix) is Some
}

/// The number the digits `s` spell in base `radix`, most significant first.
pub open spec fn digits_value(s: Seq<char>, radix: nat) -> int
    decreases s.len(),
{
    if s.len() == 0 {
        0
    } else {
        digits_value(s.drop_last(), radix) * radix + digit_value(s.last(), radix).unwrap()
    }
}

/// The number `s` spells in base `radix` with an optional sign, when it fits in 64 bits.
pub open spec fn parse_signed(s: Seq<char>, radix: nat) -> Option<i64> {
    let (negative, digits) = if s.len() > 0 && s[0] == '-' {
        (true, s.skip(1))
    } else if s.len() > 0 && s[0] == '+' {
        (false, s.skip(1))
    } else {
        (false, s)
    };
    let magnitude = digits_value(digits, radix);
    let value = if negative {
        -magnitude
    } else {
        magnitude
    };
    if digits.len() > 0 && all_digits(digits, radix) && i64::MIN <= value <= i64::MAX {
        Some(value as i64)
    } else {
        None
    }
}

/// The number a word spells: hexadecimal after `0x`, binary after `0b`, else decimal.
pub open spec fn parse_number(s: Seq<char>) -> Option<i64> {
    if s.len() >= 2 && s[0] == '0' && s[1] == 'x' {
        parse_signed(s.skip(2), 16)
    } else if s.len() >= 2 && s[0] == '0' && s[1] == 'b' {
        parse_signed(s.skip(2), 2)
    } else {
        parse_signed(s, 10)
    }
}

/// What `str::to_uppercase` gives for a string (the Unicode upper-case mapping).
pub uninterp spec fn uppercase(s: Seq<char>) -> Seq<char>;

/// Upper-case of one ASCII character.
pub open spec fn ascii_upper(c: char) -> char {
    if 'a' <= c <= 'z' {
        ((c as int) - 32) as char
    } else {
        c
    }
}

/// Whether every character of `s` is ASCII.
pub open spec fn is_ascii_text(s: Seq<char>) -> bool {
    forall|i: int| 0 <= i < s.len() ==> (s[i] as int) < 128
}

/// The upper-case form of `s`, as `str::to_uppercase` gives it: on ASCII text each letter
/// `a`-`z` becomes `A`-`Z` and all else stays; other text is mapped as `uppercase` names.
pub open spec fn upper_text(s: Seq<char>) -> Seq<char> {
    if is_ascii_text(s) {
        s.map_values(|c: char| ascii_upper(c))
    } else {
        uppercase(s)
    }
}

/// Calls `str::to_uppercase`. Its result is named `uppercase`; for ASCII text the
/// standard library documents that each letter `a`-`z` becomes `A`-`Z` and all else stays.
#[verifier::external_body]
pub(crate) fn to_uppercase(s: &str) -> (r: String)
    ensures
        r@ == uppercase(s@),
        is_ascii_text(s@) ==> r@ == s@.map_values(|c: char| ascii_upper(c)),
{
    s.to_uppercase()
}

/// Digits of `s` from position `start` on, read in base `radix`, when they are all
/// digits and their value is at most 2^63.
fn parse_magnitude(s: &Vec<char>, start: usize, radix: u64) -> (r: Option<u64>)
    requires
        start <= s@.len(),
        radix == 2 || radix == 10 || radix == 16,
    ensures
        r matches Some(v) ==> all_digits(s@.skip(start as int), radix as nat) && v == digits_value(
            s@.skip(start as int),
            radix as nat,
        ) && v <= 0x8000_0000_0000_0000u64,
        r is None ==> !all_digits(s@.skip(start as int), radix as nat) || digits_value(
            s@.skip(start as int),
            radix as nat,
        ) > 0x8000_0000_0000_0000u64,
{
    let mut acc: u64 = 0;
    let mut i = start;
    while i < s.len()
        invariant
            start <= i <= s@.len(),
            radix == 2 || radix == 10 || radix == 16,
            all_digits(s@.subrange(start as int, i as int), radix as nat),
            acc == digits_value(s@.subrange(start as int, i as int), radix as nat),
            acc <= 0x8000_0000_0000_0000u64,
        decreases s@.len() - i,
    {
        let c = s[i];
        let d: u64 = if '0' <= c && c <= '9' {
            (c as u64) - ('0' as u64)
        } else if 'a' <= c && c <= 'z' {
            (c as u64) - ('a' as u64) + 10
        } else if 'A' <= c && c <= 'Z' {
            (c as u64) - ('A' as u64) + 10
        } else {
            100
        };
        let ghost prefix = s@.subrange(start as int, i as int);
        let ghost next = s@.subrange(start as int, i + 1);
        assert(next.drop_last() =~= prefix);
        if d >= radix {
            proof {
                assert(s@.skip(start as int)[i - start] == c);
            }
            return None;
        }
        assert(digit_value(c, radix as nat) == Some(d as nat));
        if acc > (0x8000_0000_0000_0000u64 - d) / radix {
            proof {
                assert(acc * radix + d > 0x8000_0000_0000_0000u64) by (nonlinear_arith)
                    requires acc > (0x8000_0000_0000_0000u64 - d) as int / radix as int, radix > 0, d < radix;
                assert(all_digits(next, radix as nat));
                assert(s@.skip(start as int).take(i + 1 - start) =~= next);
                if all_digits(s@.skip(start as int), radix as nat) {
                    lemma_digits_monotone(s@.skip(start as int), (i + 1 - start) as nat, radix as nat);
                }
            }
            return None;
        }
        assert(acc * radix + d <= 0x8000_0000_0000_0000u64) by (nonlinear_arith)
            requires acc <= (0x8000_0000_0000_0000u64 - d) as int / radix as int, radix > 0, d <= 0x8000_0000_0000_0000u64;
        acc = acc * radix + d;
        i = i + 1;
    }
    assert(s@.subrange(start as int, s@.len() as int) =~= s@.skip(start as int));
    Some(acc)
}

/// The value of all-digit text is at least that of any of its prefixes.
proof fn lemma_digits_monotone(s: Seq<char>, n: nat, radix: nat)
    requires
        n <= s.len(),
        radix >= 2,
        all_digits(s, radix),
    ensures
        digits_value(s, radix) >= digits_value(s.take(n as int), radix),
        digits_value(s, radix) >= 0,
    decreases s.len(),
{
    if s.len() == 0 {
        assert(s.take(n as int) =~= s);
    } else if n == s.len() {
        assert(s.take(n as int) =~= s);
        lemma_digits_monotone(s.drop_last(), 0, radix);
        assert(digit_value(s[s.len() - 1], radix) is Some);
        assert(digits_value(s.drop_last(), radix) * radix >= 0) by (nonlinear_arith)
            requires digits_value(s.drop_last(), radix) >= 0, radix >= 2;
    } else {
        assert(all_digits(s.drop_last(), radix)) by {
            assert forall|i: int| 0 <= i < s.drop_last().len() implies #[trigger] digit_value(
                s.drop_last()[i],
                radix,
            ) is Some by {
                assert(s.drop_last()[i] == s[i]);
            }
        }
        lemma_digits_monotone(s.drop_last(), n, radix);
        assert(s.drop_last().take(n as int) =~= s.take(n as int));
        assert(digit_value(s[s.len() - 1], radix) is Some);
        let v = digits_value(s.drop_last(), radix);
        assert(v * radix >= v) by (nonlinear_arith)
            requires v >= 0, radix >= 2;
    }
}

/// Reads `s[start..]` as a number in base `radix` with an optional sign.
fn parse_signed_from(s: &Vec<char>, start: usize, radix: u64) -> (r: Option<i64>)
    requires
        start <= s@.len(),
        radix == 2 || radix == 10 || radix == 16,
    ensures
        r == parse_signed(s@.skip(start as int), radix as nat),
{
    let ghost t = s@.skip(start as int);
    let (negative, digits_start) = if start < s.len() && s[start] == '-' {
        (true, start + 1)
    } else if start < s.len() && s[start] == '+' {
        (false, start + 1)
    } else {
        (false, start)
    };
    proof {
        if digits_start == start + 1 {
            assert(t.skip(1) =~= s@.skip(digits_start as int));
        } else {
            assert(t =~= s@.skip(digits_start as int));
        }
    }
    if digits_start >= s.len() {
        return None;
    }
    match parse_magnitude(s, digits_start, radix) {
        None => None,
        Some(m) => {
            if negative {
                if m == 0x8000_0000_0000_0000u64 {
                    Some(i64::MIN)
                } else {
                    Some(-(m as i64))
                }
            } else if m > i64::MAX as u64 {
                None
            } else {
                Some(m as i64)
            }
        },
    }
}

/// Reads a word as a number, as `parse_number` describes.
pub fn parse_word_number(s: &Vec<char>) -> (r: Option<i64>)
    ensures r == parse_number(s@),
{
    if s.len() >= 2 && s[0] == '0' && s[1] == 'x' {
        parse_signed_from(s, 2, 16)
    } else if s.len() >= 2 && s[0] == '0' && s[1] == 'b' {
        parse_signed_from(s, 2, 2)
    } else {
        let r = parse_signed_from(s, 0, 10);
        assert(s@.skip(0) =~= s@);
        r
    }
}

/// One unit of Forth input: a number, or a word (upper-cased).
#[derive(Debug, PartialEq, Eq)]
pub enum Token {
    Integer(i64),
    Word(String),
}

/// The token a piece of text stands for.
pub open spec fn token_of(s: Seq<char>) -> (i64, Seq<char>, bool) {
    match parse_number(s) {
        Some(i) => (i, Seq::empty(), true),
        None => (0, upper_text(s), false),
    }
}

impl Token {
    /// Whether this token is the one `text` stands for: its number, or else the word
    /// upper-cased.
    pub open spec fn spec_is_token_of(&self, text: Seq<char>) -> bool {
        match parse_number(text) {
            Some(i) => *self == Token::Integer(i),
            None => self matches Token::Word(w) && w@ == upper_text(text),
        }
    }

    /// The token for `s`: a number where `s` spells one, else the word upper-cased.
    pub fn tokenize(s: &str) -> (r: Self)
        ensures r.spec_is_token_of(s@),
    {
        let chars = chars_of(s);
        match parse_word_number(&chars) {
            Some(i) => Token::Integer(i),
            None => Token::Word(to_uppercase(s)),
        }
    }
}

/// The characters of `s`.
pub fn chars_of(s: &str) -> (r: Vec<char>)
    ensures r@ == s@,
{
    let n = s.unicode_len();
    let mut v: Vec<char> = Vec::new();
    let mut i: usize = 0;
    while i < n
        invariant
            n == s@.len(),
            i <= n,
            v@ == s@.take(i as int),
        decreases n - i,
    {
        v.push(s.get_char(i));
        i = i + 1;
        assert(v@ =~= s@.take(i as int));
    }
    assert(s@.take(n as int) =~= s@);
    v
}

/// Builds a string from characters.
pub fn string_of(chars: &Vec<char>) -> (r: String)
    ensures r@ == chars@,
{
    let mut s = String::new();
    let mut i: usize = 0;
    while i < chars.len()
        invariant
            i <= chars@.len(),
            s@ == chars@.take(i as int),
        decreases chars@.len() - i,
    {
        crate::io::format::string_push(&mut s, chars[i]);
        i = i + 1;
        assert(s@ =~= chars@.take(i as int));
    }
    assert(chars@.take(chars@.len() as int) =~= chars@);
    s
}

/// What reading a word (not a number) from `rest` gives: the word upper-cased, or why
/// there is none.
pub open spec fn next_word_text(rest: Seq<char>) -> Result<Seq<char>, Error> {
    match next_token_text(rest) {
        None => Err(Error::NoMoreTokens),
        Some(text) => if parse_number(text) is Some {
            Err(Error::InvalidWord)
        } else {
            Ok(upper_text(text))
        },
    }
}

/// What is left of `rest` after reading its next word and the white space character after
/// it (nothing, where only white space is left).
pub open spec fn after_token(rest: Seq<char>) -> Seq<char> {
    let start = skip_space(rest, 0);
    let end = word_end(rest, start);
    if start >= rest.len() {
        Seq::empty()
    } else if end < rest.len() {
        rest.skip(end + 1int)
    } else {
        rest.skip(end as int)
    }
}

/// The text of the next word of `rest`, if there is one.
pub open spec fn next_token_text(rest: Seq<char>) -> Option<Seq<char>> {
    let start = skip_space(rest, 0);
    let end = word_end(rest, start);
    if start >= rest.len() {
        None
    } else {
        Some(rest.subrange(start as int, end as int))
    }
}

/// The first position at or after `i` that holds no white space (or the end).
pub open spec fn skip_space(s: Seq<char>, i: nat) -> nat
    decreases s.len() - i,
{
    if i >= s.len() {
        s.len()
    } else if is_space(s[i as int]) {
        skip_space(s, i + 1)
    } else {
        i
    }
}

/// The first position at or after `i` that holds white space (or the end).
pub open spec fn word_end(s: Seq<char>, i: nat) -> nat
    decreases s.len() - i,
{
    if i >= s.len() {
        s.len()
    } else if is_space(s[i as int]) {
        i
    } else {
        word_end(s, i + 1)
    }
}

proof fn lemma_skip_space(s: Seq<char>, i: nat)
    requires i <= s.len(),
    ensures
        i <= skip_space(s, i) <= s.len(),
        skip_space(s, i) < s.len() ==> !is_space(s[skip_space(s, i) as int]),
    decreases s.len() - i,
{
    if i < s.len() && is_space(s[i as int]) {
        lemma_skip_space(s, i + 1);
    }
}

proof fn lemma_word_end(s: Seq<char>, i: nat)
    requires i <= s.len(),
    ensures
        i <= word_end(s, i) <= s.len(),
        word_end(s, i) < s.len() ==> is_space(s[word_end(s, i) as int]),
    decreases s.len() - i,
{
    if i < s.len() && !is_space(s[i as int]) {
        lemma_word_end(s, i + 1);
    }
}

/// The stream of characters that Forth reads its input from.
pub struct TokenStream {
    chars: Vec<char>,
    position: usize,
}

impl TokenStream {
    /// The characters not read yet.
    pub closed spec fn spec_rest(&self) -> Seq<char> {
        self.chars@.skip(self.position as int)
    }

    pub closed spec fn wf(&self) -> bool {
        self.position <= self.chars@.len()
    }

    /// A stream over the characters of `input`.
    pub fn new(input: &str) -> (r: Self)
        ensures r.wf(), r.spec_rest() == input@,
    {
        let chars = chars_of(input);
        let r = TokenStream { chars, position: 0 };
        assert(r.chars@.skip(0) =~= input@);
        r
    }

    /// A stream over the given characters.
    pub fn from_chars(chars: Vec<char>) -> (r: Self)
        ensures r.wf(), r.spec_rest() == chars@,
    {
        let r = TokenStream { chars, position: 0 };
        assert(r.chars@.skip(0) =~= r.chars@);
        r
    }

    /// A stream with nothing in it.
    pub fn empty() -> (r: Self)
        ensures r.wf(), r.spec_rest() == Seq::<char>::empty(),
    {
        let r = TokenStream { chars: Vec::new(), position: 0 };
        assert(r.chars@.skip(0) =~= Seq::<char>::empty());
        r
    }

    /// Reads the next white-space separated word (and the white space after it) and
    /// turns it into a token; `NoMoreTokens` where only white space is left.
    pub fn next(&mut self) -> (r: Result<Token, Error>)
        requires old(self).wf(),
        ensures
            final(self).wf(),
            ({
                let rest = old(self).spec_rest();
                let start = skip_space(rest, 0);
                let end = word_end(rest, start);
                if start >= rest.len() {
                    r == Err::<Token, Error>(Error::NoMoreTokens) && final(self).spec_rest() == Seq::<char>::empty()
                } else {
                    (r matches Ok(t) && t.spec_is_token_of(rest.subrange(start as int, end as int)))
                        && final(self).spec_rest() == rest.skip(
                        if end < rest.len() {
                            end + 1int
                        } else {
                            end as int
                        },
                    )
                }
            }),
    {
        proof {
            let rest = old(self).spec_rest();
            lemma_skip_space(rest, 0);
            let start = skip_space(rest, 0);
            lemma_word_end(rest, start);
            if start < rest.len() {
                lemma_word_end(rest, start + 1);
            }
        }
        let (start, end, word) = self.next_chars();
        if start >= end {
            return Err(Error::NoMoreTokens);
        }
        let s = string_of(&word);
        Ok(Token::tokenize(s.as_str()))
    }

    /// Reads the next word's characters; gives the word's bounds relative to the old position.
    fn next_chars(&mut self) -> (r: (usize, usize, Vec<char>))
        requires old(self).wf(),
        ensures
            final(self).wf(),
            ({
                let rest = old(self).spec_rest();
                let start = skip_space(rest, 0);
                let end = word_end(rest, start);
                &&& r.0 == start
                &&& start < rest.len() ==> r.1 == end && r.2@ == rest.subrange(start as int, end as int)
                    && final(self).spec_rest() == rest.skip(
                    if end < rest.len() {
                        end + 1int
                    } else {
                        end as int
                    },
                )
                &&& start >= rest.len() ==> r.1 <= r.0 && final(self).spec_rest() == Seq::<char>::empty()
            }),
    {
        let ghost rest = self.spec_rest();
        let p0 = self.position;
        let n = self.chars.len();
        let mut i = p0;
        while i < n && is_whitespace(self.chars[i])
            invariant
                p0 <= i <= n,
                n == self.chars@.len(),
                rest == self.chars@.skip(p0 as int),
                skip_space(rest, 0) == skip_space(rest, (i - p0) as nat),
            decreases n - i,
        {
            assert(rest[(i - p0) as int] == self.chars@[i as int]);
            i = i + 1;
        }
        if i >= n {
            self.position = n;
            assert(self.chars@.skip(n as int) =~= Seq::<char>::empty());
            return ((i - p0), 0, Vec::new());
        }
        assert(rest[(i - p0) as int] == self.chars@[i as int]);
        let start = i;
        let mut word: Vec<char> = Vec::new();
        while i < n && !is_whitespace(self.chars[i])
            invariant
                p0 <= start <= i <= n,
                n == self.chars@.len(),
                rest == self.chars@.skip(p0 as int),
                start - p0 == skip_space(rest, 0),
                start < n,
                word_end(rest, (start - p0) as nat) == word_end(rest, (i - p0) as nat),
                word@ == self.chars@.subrange(start as int, i as int),
            decreases n - i,
        {
            assert(rest[(i - p0) as int] == self.chars@[i as int]);
            word.push(self.chars[i]);
            i = i + 1;
            assert(word@ =~= self.chars@.subrange(start as int, i as int));
        }
        if i < n {
            assert(rest[(i - p0) as int] == self.chars@[i as int]);
        }
        let end = i;
        self.position = if i < n { i + 1 } else { i };
        proof {
            assert(rest.subrange((start - p0) as int, (end - p0) as int) =~= word@);
            assert(self.chars@.skip(self.position as int) =~= rest.skip((self.position - p0) as int));
        }
        ((start - p0), (end - p0), word)
    }

    /// Reads the next word; `InvalidWord` where the next token is a number.
    pub fn next_word(&mut self) -> (r: Result<String, Error>)
        requires old(self).wf(),
        ensures
            final(self).wf(),
            ({
                let rest = old(self).spec_rest();
                let start = skip_space(rest, 0);
                let end = word_end(rest, start);
                let text = rest.subrange(start as int, end as int);
                if start >= rest.len() {
                    r == Err::<String, Error>(Error::NoMoreTokens)
                } else if parse_number(text) is Some {
                    r == Err::<String, Error>(Error::InvalidWord)
                } else {
                    r matches Ok(w) && w@ == upper_text(text)
                }
            }),
            old(self).spec_rest().len() > 0 ==> final(self).spec_rest().len() < old(self).spec_rest().len(),
            final(self).spec_rest() == after_token(old(self).spec_rest()),
    {
        proof {
            let rest = old(self).spec_rest();
            lemma_skip_space(rest, 0);
            let start = skip_space(rest, 0);
            lemma_word_end(rest, start);
            if start < rest.len() {
                lemma_word_end(rest, start + 1);
            }
        }
        match self.next() {
            Ok(Token::Word(word)) => Ok(word),
            Ok(Token::Integer(_)) => Err(Error::InvalidWord),
            Err(e) => Err(e),
        }
    }

    /// How many characters are left to read.
    pub fn remaining(&self) -> (r: usize)
        requires self.wf(),
        ensures r == self.spec_rest().len(),
    {
        self.chars.len() - self.position
    }

    /// Reads the next character, white space included.
    pub fn next_char(&mut self) -> (r: Result<char, Error>)
        requires old(self).wf(),
        ensures
            final(self).wf(),
            old(self).spec_rest().len() > 0 ==> r == Ok::<char, Error>(old(self).spec_rest()[0])
                && final(self).spec_rest() == old(self).spec_rest().skip(1),
            old(self).spec_rest().len() == 0 ==> r == Err::<char, Error>(Error::NoMoreTokens)
                && final(self).spec_rest() == old(self).spec_rest(),
            r is Err ==> *final(self) == *old(self),
    {
        if self.position < self.chars.len() {
            let c = self.chars[self.position];
            self.position = self.position + 1;
            assert(self.chars@.skip(self.position as int) =~= old(self).spec_rest().skip(1));
            Ok(c)
        } else {
            Err(Error::NoMoreTokens)
        }
    }

    /// Puts `chars` in front of what is left to read.
    pub fn prepend_stream(&mut self, chars: Vec<char>)
        requires old(self).wf(),
        ensures
            final(self).wf(),
            final(self).spec_rest() == chars@ + old(self).spec_rest(),
    {
        let mut v = chars;
        let mut i = self.position;
        let ghost front = v@;
        while i < self.chars.len()
            invariant
                old(self).position <= i <= self.chars@.len(),
                self.chars == old(self).chars,
                self.position == old(self).position,
                v@ == front + self.chars@.subrange(self.position as int, i as int),
            decreases self.chars@.len() - i,
        {
            v.push(self.chars[i]);
            i = i + 1;
            assert(v@ =~= front + self.chars@.subrange(self.position as int, i as int));
        }
        assert(self.chars@.subrange(self.position as int, self.chars@.len() as int) =~= old(self).spec_rest());
        self.chars = v;
        self.position = 0;
        assert(self.chars@.skip(0) =~= self.chars@);
    }
}

} // verus!
