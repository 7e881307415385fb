//! Text as sequences of characters: lengths in UTF-8 bytes, trimming,
//! searching and decimal numerals.

use vstd::prelude::*;
use vstd::string::*;
use vstd::utf8::*;

verus! {

// ---------------------------------------------------------------------------
// Standard library functions that carry no specification of their own
// ---------------------------------------------------------------------------

/// `String::push` appends one character.
pub assume_specification[ String::push ](s: &mut String, c: char)
    ensures
        final(s)@ == old(s)@.push(c),
;

/// `String::push_str` appends a text.
pub assume_specification[ String::push_str ](s: &mut String, other: &str)
    ensures
        final(s)@ == old(s)@ + other@,
;

/// `char::len_utf8` is the number of bytes the character takes in UTF-8.
pub assume_specification[ char::len_utf8 ](c: char) -> (n: usize)
    ensures
        n == utf8_width(c),
;

/// `char::is_whitespace` tests the Unicode property `White_Space`.
pub assume_specification[ char::is_whitespace ](c: char) -> (b: bool)
    ensures
        b == is_white_space(c),
;

// ---------------------------------------------------------------------------
// Characters and copies
// ---------------------------------------------------------------------------

/// The characters with the Unicode property `White_Space`.
pub open spec fn is_white_space(c: char) -> bool {
    let v = c as u32;
    ||| 0x9 <= v <= 0xd
    ||| v == 0x20
    ||| v == 0x85
    ||| v == 0xa0
    ||| v == 0x1680
    ||| 0x2000 <= v <= 0x200a
    ||| v == 0x2028
    ||| v == 0x2029
    ||| v == 0x202f
    ||| v == 0x205f
    ||| v == 0x3000
}

/// The bytes one character takes in UTF-8.
pub open spec fn utf8_width(c: char) -> nat {
    let v = c as u32;
    if v < 0x80 {
        1
    } else if v < 0x800 {
        2
    } else if v < 0x10000 {
        3
    } else {
        4
    }
}

/// The bytes a text takes in UTF-8.
pub open spec fn byte_len(s: Seq<char>) -> nat
    decreases s.len(),
{
    if s.len() == 0 {
        0
    } else {
        byte_len(s.drop_last()) + utf8_width(s.last())
    }
}

pub proof fn lemma_byte_len_concat(a: Seq<char>, b: Seq<char>)
    ensures
        byte_len(a + b) == byte_len(a) + byte_len(b),
    decreases b.len(),
{
    if b.len() == 0 {
        assert(a + b =~= a);
    } else {
        lemma_byte_len_concat(a, b.drop_last());
        assert((a + b).drop_last() =~= a + b.drop_last());
        assert((a + b).last() == b.last());
    }
}

pub proof fn lemma_byte_len_ge(s: Seq<char>)
    ensures
        byte_len(s) >= s.len(),
    decreases s.len(),
{
    if s.len() > 0 {
        lemma_byte_len_ge(s.drop_last());
    }
}

/// The number of bytes of the UTF-8 encoding.
pub proof fn lemma_encoded_len(s: Seq<char>)
    ensures
        encode_utf8(s).len() == byte_len(s),
    decreases s.len(),
{
    if s.len() > 0 {
        let rest = s.drop_first();
        lemma_encoded_len(rest);
        let head = seq![s[0]];
        assert(head + rest =~= s);
        lemma_byte_len_concat(head, rest);
        assert(head.drop_last() =~= Seq::<char>::empty());
        assert(byte_len(head.drop_last()) == 0);
        assert(byte_len(head) == utf8_width(s[0]));
        char_is_scalar(s[0]);
        assert(encode_utf8(s) == encode_scalar(s[0] as u32) + encode_utf8(rest));
        assert(encode_scalar(s[0] as u32).len() == utf8_width(s[0]));
    }
}

/// The text as a vector of characters.
pub fn chars_of(text: &str) -> (r: Vec<char>)
    ensures
        r@ == text@,
{
    let mut out: Vec<char> = Vec::new();
    for c in it: text.chars()
        invariant
            out@ == it.seq().take(it.index()),
            it.seq() == text@,
    {
        out.push(c);
        assert(out@ =~= it.seq().take(it.index() + 1));
    }
    assert(out@ =~= text@);
    out
}

/// The text made of the characters `chars[from..to]`.
pub fn text_of(chars: &Vec<char>, from: usize, to: usize) -> (r: String)
    requires
        from <= to <= chars@.len(),
    ensures
        r@ == chars@.subrange(from as int, to as int),
{
    let mut out = String::new();
    let mut i: usize = from;
    while i < to
        invariant
            from <= i <= to <= chars@.len(),
            out@ == chars@.subrange(from as int, i as int),
        decreases to - i,
    {
        out.push(chars[i]);
        i = i + 1;
        assert(out@ =~= chars@.subrange(from as int, i as int));
    }
    out
}

/// Whether two texts are the same.
pub fn same_text(a: &str, b: &str) -> (r: bool)
    ensures
        r == (a@ == b@),
{
    let a_owned = a.to_owned();
    let b_owned = b.to_owned();
    a_owned == b_owned
}

/// The length of a text in bytes.
pub fn byte_length(text: &str) -> (n: usize)
    ensures
        n == byte_len(text@),
{
    proof {
        lemma_encoded_len(text@);
    }
    text.as_bytes().len()
}

// ---------------------------------------------------------------------------
// Trimming
// ---------------------------------------------------------------------------

/// The text without its leading white space.
pub open spec fn trim_start(s: Seq<char>) -> Seq<char>
    decreases s.len(),
{
    if s.len() > 0 && is_white_space(s[0]) {
        trim_start(s.drop_first())
    } else {
        s
    }
}

/// The text without its trailing white space.
pub open spec fn trim_end(s: Seq<char>) -> Seq<char>
    decreases s.len(),
{
    if s.len() > 0 && is_white_space(s.last()) {
        trim_end(s.drop_last())
    } else {
        s
    }
}

/// The text without leading and trailing white space.
pub open spec fn trimmed(s: Seq<char>) -> Seq<char> {
    trim_end(trim_start(s))
}

/// Whether a text is empty or holds white space alone.
pub open spec fn is_blank(s: Seq<char>) -> bool {
    forall|i: int| 0 <= i < s.len() ==> is_white_space(#[trigger] s[i])
}

proof fn lemma_trim_start(s: Seq<char>)
    ensures
        trim_start(s).len() <= s.len(),
        trim_start(s) == s.subrange(s.len() - trim_start(s).len(), s.len() as int),
        trim_start(s).len() > 0 ==> !is_white_space(trim_start(s)[0]),
        is_blank(s) <==> trim_start(s).len() == 0,
    decreases s.len(),
{
    if s.len() > 0 && is_white_space(s[0]) {
        let rest = s.drop_first();
        lemma_trim_start(rest);
        let n = trim_start(rest).len();
        assert(rest.subrange(rest.len() - n, rest.len() as int) =~= s.subrange(
            s.len() - n,
            s.len() as int,
        ));
        assert(is_blank(s) <==> is_blank(rest)) by {
            if is_blank(s) {
                assert forall|i: int| 0 <= i < rest.len() implies is_white_space(
                    #[trigger] rest[i],
                ) by {
                    assert(rest[i] == s[i + 1]);
                }
            }
            if is_blank(rest) {
                assert forall|i: int| 0 <= i < s.len() implies is_white_space(#[trigger] s[i]) by {
                    if i > 0 {
                        assert(s[i] == rest[i - 1]);
                    }
                }
            }
        }
    } else {
        assert(s.subrange(0, s.len() as int) =~= s);
    }
}

proof fn lemma_trim_end(s: Seq<char>)
    ensures
        trim_end(s).len() <= s.len(),
        trim_end(s) == s.subrange(0, trim_end(s).len() as int),
        trim_end(s).len() > 0 ==> !is_white_space(trim_end(s).last()),
        s.len() > 0 && !is_white_space(s[0]) ==> trim_end(s).len() > 0,
    decreases s.len(),
{
    if s.len() > 0 && is_white_space(s.last()) {
        let rest = s.drop_last();
        lemma_trim_end(rest);
        let n = trim_end(rest).len();
        assert(rest.subrange(0, n as int) =~= s.subrange(0, n as int));
    } else {
        assert(s.subrange(0, s.len() as int) =~= s);
    }
}

/// A text is blank exactly where nothing is left of it by trimming, and a text
/// that begins and ends with other characters is left as it is.
pub proof fn lemma_trimmed(s: Seq<char>)
    ensures
        trimmed(s).len() == 0 <==> is_blank(s),
        trimmed(s).len() <= s.len(),
        trimmed(s).len() > 0 ==> !is_white_space(trimmed(s)[0]) && !is_white_space(
            trimmed(s).last(),
        ),
        trimmed(trimmed(s)) == trimmed(s),
{
    lemma_trim_start(s);
    let t = trim_start(s);
    lemma_trim_end(t);
    let u = trim_end(t);
    if u.len() > 0 {
        assert(u[0] == t[0]);
        assert(trim_start(u) == u);
        assert(trim_end(u) == u);
    } else {
        assert(trim_start(u) == u);
        assert(trim_end(u) == u);
    }
}

/// Trimming never makes a text longer.
pub proof fn lemma_trimmed_bytes(s: Seq<char>)
    ensures
        byte_len(trimmed(s)) <= byte_len(s),
{
    lemma_trim_start(s);
    let t = trim_start(s);
    lemma_trim_end(t);
    let u = trim_end(t);
    let k = s.len() - t.len();
    assert(s.subrange(0, s.len() as int) =~= s);
    assert(t.subrange(0, t.len() as int) =~= t);
    lemma_byte_len_prefix(s, k, s.len() as int);
    lemma_byte_len_prefix(t, u.len() as int, t.len() as int);
}

/// Copies a text without its leading and trailing white space.
pub fn trim(text: &str) -> (r: String)
    ensures
        r@ == trimmed(text@),
{
    let chars = chars_of(text);
    let mut from: usize = 0;
    assert(chars@.subrange(0, chars@.len() as int) =~= chars@);
    while from < chars.len() && chars[from].is_whitespace()
        invariant
            from <= chars@.len(),
            trim_start(chars@.subrange(from as int, chars@.len() as int)) == trim_start(chars@),
        decreases chars@.len() - from,
    {
        let ghost here = chars@.subrange(from as int, chars@.len() as int);
        assert(here.drop_first() =~= chars@.subrange(from + 1, chars@.len() as int));
        from = from + 1;
    }
    let ghost t = chars@.subrange(from as int, chars@.len() as int);
    assert(t == trim_start(chars@)) by {
        if from < chars@.len() {
            assert(t[0] == chars@[from as int]);
        }
    }
    let mut to: usize = chars.len();
    while to > from && chars[to - 1].is_whitespace()
        invariant
            from <= to <= chars@.len(),
            t == chars@.subrange(from as int, chars@.len() as int),
            trim_end(chars@.subrange(from as int, to as int)) == trim_end(t),
        decreases to,
    {
        let ghost here = chars@.subrange(from as int, to as int);
        assert(here.drop_last() =~= chars@.subrange(from as int, to - 1));
        to = to - 1;
    }
    assert(chars@.subrange(from as int, to as int) == trim_end(t)) by {
        if to > from {
            assert(chars@.subrange(from as int, to as int).last() == chars@[to - 1]);
        }
    }
    text_of(&chars, from, to)
}

/// Whether nothing but white space stands in a text.
pub fn blank(text: &str) -> (r: bool)
    ensures
        r == is_blank(text@),
{
    proof {
        lemma_trimmed(text@);
    }
    trim(text).as_str().is_empty()
}

// ---------------------------------------------------------------------------
// Decimal numerals
// ---------------------------------------------------------------------------

/// The character of a decimal digit.
pub open spec fn digit(d: nat) -> char {
    seq!['0', '1', '2', '3', '4', '5', '6', '7', '8', '9'][d as int]
}

/// The value of a decimal digit, if the character is one.
pub open spec fn digit_value(c: char) -> Option<nat> {
    if '0' <= c && c <= '9' {
        Some((c as u32 - '0' as u32) as nat)
    } else {
        None
    }
}

/// A number in decimal, without leading zeros.
pub open spec fn decimal(n: nat) -> Seq<char>
    decreases n,
{
    if n < 10 {
        seq![digit(n)]
    } else {
        decimal(n / 10).push(digit(n % 10))
    }
}

/// The last `width` decimal digits of a number, with leading zeros.
pub open spec fn fixed_decimal(n: nat, width: nat) -> Seq<char>
    decreases width,
{
    if width == 0 {
        Seq::empty()
    } else {
        fixed_decimal(n / 10, (width - 1) as nat).push(digit(n % 10))
    }
}

/// The number that a sequence of digits writes.
pub open spec fn digits_value(s: Seq<char>) -> Option<nat>
    decreases s.len(),
{
    if s.len() == 0 {
        Some(0)
    } else {
        match (digits_value(s.drop_last()), digit_value(s.last())) {
            (Some(high), Some(low)) => Some(high * 10 + low),
            _ => None,
        }
    }
}

/// The number that a numeral writes: digits, at least one of them, behind an
/// optional plus sign.
pub open spec fn numeral_value(s: Seq<char>) -> Option<nat> {
    let digits = if s.len() > 0 && s[0] == '+' {
        s.drop_first()
    } else {
        s
    };
    if digits.len() == 0 {
        None
    } else {
        digits_value(digits)
    }
}

/// A numeral reads back as the number it was written for.
pub proof fn decimal_reads_back(n: nat)
    ensures
        numeral_value(decimal(n)) == Some(n),
        decimal(n).len() > 0,
        digit_value(decimal(n)[0]) is Some,
{
    lemma_decimal_digits(n);
}

proof fn lemma_decimal_digits(n: nat)
    ensures
        digits_value(decimal(n)) == Some(n),
        decimal(n).len() > 0,
        digit_value(decimal(n)[0]) is Some,
    decreases n,
{
    if n < 10 {
        assert(decimal(n).drop_last() =~= Seq::<char>::empty());
        assert(digits_value(Seq::<char>::empty()) == Some(0nat));
        assert(decimal(n).last() == digit(n));
    } else {
        lemma_decimal_digits(n / 10);
        assert(decimal(n).drop_last() =~= decimal(n / 10));
        assert(decimal(n).last() == digit(n % 10));
        assert(decimal(n)[0] == decimal(n / 10)[0]);
    }
}

/// The character of a decimal digit.
pub fn digit_char(d: u8) -> (c: char)
    requires
        d < 10,
    ensures
        c == digit(d as nat),
{
    match d {
        0 => '0',
        1 => '1',
        2 => '2',
        3 => '3',
        4 => '4',
        5 => '5',
        6 => '6',
        7 => '7',
        8 => '8',
        _ => '9',
    }
}

/// Appends a number in decimal.
pub fn push_decimal(out: &mut String, n: u128)
    ensures
        final(out)@ == old(out)@ + decimal(n as nat),
    decreases n,
{
    if n >= 10 {
        push_decimal(out, n / 10);
    }
    let ghost before = out@;
    out.push(digit_char((n % 10) as u8));
    proof {
        if n < 10 {
            assert(out@ =~= before + decimal(n as nat));
        } else {
            assert(out@ =~= old(out)@ + decimal((n / 10) as nat).push(digit((n % 10) as nat)));
        }
    }
}

/// Appends the last `width` digits of a number.
pub fn push_fixed_decimal(out: &mut String, n: u64, width: u8)
    ensures
        final(out)@ == old(out)@ + fixed_decimal(n as nat, width as nat),
    decreases width,
{
    if width == 0 {
        assert(out@ =~= old(out)@ + fixed_decimal(n as nat, 0));
        return ;
    }
    push_fixed_decimal(out, n / 10, width - 1);
    out.push(digit_char((n % 10) as u8));
    assert(out@ =~= old(out)@ + fixed_decimal(n as nat, width as nat));
}

/// A number in decimal.
pub fn decimal_text(n: u64) -> (r: String)
    ensures
        r@ == decimal(n as nat),
{
    let mut out = String::new();
    push_decimal(&mut out, n as u128);
    assert(out@ =~= decimal(n as nat));
    out
}

proof fn lemma_digits_none(s: Seq<char>, k: int)
    requires
        0 <= k <= s.len(),
        digits_value(s.subrange(0, k)) is None,
    ensures
        digits_value(s) is None,
    decreases s.len() - k,
{
    if k == s.len() {
        assert(s.subrange(0, k) =~= s);
    } else {
        assert(s.subrange(0, k + 1).drop_last() =~= s.subrange(0, k));
        lemma_digits_none(s, k + 1);
    }
}

proof fn lemma_digits_grow(s: Seq<char>, k: int)
    requires
        0 <= k <= s.len(),
        digits_value(s) is Some,
    ensures
        digits_value(s.subrange(0, k)) is Some,
        digits_value(s)->0 >= digits_value(s.subrange(0, k))->0,
    decreases s.len() - k,
{
    if k == s.len() {
        assert(s.subrange(0, k) =~= s);
    } else {
        lemma_digits_grow(s, k + 1);
        assert(s.subrange(0, k + 1).drop_last() =~= s.subrange(0, k));
    }
}

/// Reads a numeral: nothing where the text is none, or where its number is
/// above the largest value.
pub fn parse_number(text: &str) -> (r: Option<u64>)
    ensures
        match r {
            Some(n) => numeral_value(text@) == Some(n as nat),
            None => numeral_value(text@) is None || numeral_value(text@)->0 > u64::MAX,
        },
{
    let chars = chars_of(text);
    let start: usize = if chars.len() > 0 && chars[0] == '+' {
        1
    } else {
        0
    };
    let ghost digits = if text@.len() > 0 && text@[0] == '+' {
        text@.drop_first()
    } else {
        text@
    };
    assert(digits =~= chars@.subrange(start as int, chars@.len() as int));
    if start == chars.len() {
        return None;
    }
    let mut value: u64 = 0;
    let mut i: usize = start;
    assert(digits.subrange(0, 0) =~= Seq::<char>::empty());
    while i < chars.len()
        invariant
            start <= i <= chars@.len(),
            start < chars@.len(),
            digits == chars@.subrange(start as int, chars@.len() as int),
            digits.len() > 0,
            numeral_value(text@) == digits_value(digits),
            digits_value(digits.subrange(0, i - start)) == Some(value as nat),
        decreases chars@.len() - i,
    {
        let c = chars[i];
        let ghost k = i - start;
        proof {
            assert(digits.subrange(0, k + 1).drop_last() =~= digits.subrange(0, k));
            assert(digits.subrange(0, k + 1).last() == c);
        }
        if !('0' <= c && c <= '9') {
            proof {
                lemma_digits_none(digits, k + 1);
            }
            return None;
        }
        let low: u64 = (c as u32 - '0' as u32) as u64;
        if value > (u64::MAX - low) / 10 {
            proof {
                if digits_value(digits) is Some {
                    lemma_digits_grow(digits, k + 1);
                }
            }
            return None;
        }
        value = value * 10 + low;
        i = i + 1;
    }
    assert(digits.subrange(0, digits.len() as int) =~= digits);
    Some(value)
}

// ---------------------------------------------------------------------------
// Searching
// ---------------------------------------------------------------------------

/// Whether `part` stands in `whole` from the character `at` on.
pub open spec fn occurs_at(whole: Seq<char>, part: Seq<char>, at: int) -> bool {
    0 <= at && at + part.len() <= whole.len() && whole.subrange(at, at + part.len()) == part
}

/// Whether `part` stands anywhere in `whole`.
pub open spec fn contains_text(whole: Seq<char>, part: Seq<char>) -> bool {
    exists|at: int| occurs_at(whole, part, at)
}

/// Whether `whole` begins with `part`.
pub open spec fn begins_with(whole: Seq<char>, part: Seq<char>) -> bool {
    occurs_at(whole, part, 0)
}

/// Whether `part` stands at `at`, and nowhere in `from..at`.
pub open spec fn first_from(whole: Seq<char>, part: Seq<char>, from: int, at: int) -> bool {
    &&& from <= at
    &&& occurs_at(whole, part, at)
    &&& forall|k: int| from <= k < at ==> !occurs_at(whole, part, k)
}

/// Whether `part` stands in the text at `at`.
pub fn stands_at(whole: &Vec<char>, part: &Vec<char>, at: usize) -> (r: bool)
    ensures
        r == occurs_at(whole@, part@, at as int),
{
    if at > whole.len() || part.len() > whole.len() - at {
        return false;
    }
    let mut i: usize = 0;
    while i < part.len()
        invariant
            at + part@.len() <= whole.len(),
            i <= part@.len(),
            forall|k: int| 0 <= k < i ==> whole@[at + k] == part@[k],
        decreases part@.len() - i,
    {
        if whole[at + i] != part[i] {
            assert(whole@.subrange(at as int, at + part@.len())[i as int] != part@[i as int]);
            return false;
        }
        i = i + 1;
    }
    assert(whole@.subrange(at as int, at + part@.len()) =~= part@);
    true
}

/// The first place from `from` on where `part` stands.
pub fn find_from(whole: &Vec<char>, part: &Vec<char>, from: usize) -> (r: Option<usize>)
    ensures
        match r {
            Some(at) => first_from(whole@, part@, from as int, at as int),
            None => forall|k: int| from <= k ==> !occurs_at(whole@, part@, k),
        },
{
    if part.len() > whole.len() {
        return None;
    }
    let last: usize = whole.len() - part.len();
    let mut at: usize = from;
    while at <= last
        invariant
            from <= at,
            last + part@.len() == whole@.len(),
            forall|k: int| from <= k < at ==> !occurs_at(whole@, part@, k),
        decreases last + 1 - at,
    {
        if stands_at(whole, part, at) {
            return Some(at);
        }
        if at == last {
            return None;
        }
        at = at + 1;
    }
    None
}

/// Whether `part` stands anywhere in `whole`.
pub fn has_text(whole: &str, part: &str) -> (r: bool)
    ensures
        r == contains_text(whole@, part@),
{
    find_from(&chars_of(whole), &chars_of(part), 0).is_some()
}

/// Whether `whole` begins with `part`.
pub fn has_prefix(whole: &str, part: &str) -> (r: bool)
    ensures
        r == begins_with(whole@, part@),
{
    stands_at(&chars_of(whole), &chars_of(part), 0)
}

// ---------------------------------------------------------------------------
// Byte positions
// ---------------------------------------------------------------------------

/// How many characters the first `byte` bytes of a text hold; nothing where
/// that many bytes end inside a character or behind the text.
pub open spec fn char_boundary(s: Seq<char>, byte: int) -> Option<int>
    decreases s.len(),
{
    if byte == 0 {
        Some(0)
    } else if s.len() == 0 || byte < utf8_width(s[0]) {
        None
    } else {
        match char_boundary(s.drop_first(), byte - utf8_width(s[0])) {
            Some(k) => Some(k + 1),
            None => None,
        }
    }
}

/// The part of a text between two byte positions.
pub open spec fn byte_slice(s: Seq<char>, start: int, end: int) -> Option<Seq<char>> {
    match (char_boundary(s, start), char_boundary(s, end)) {
        (Some(i), Some(j)) => if i <= j {
            Some(s.subrange(i, j))
        } else {
            None
        },
        _ => None,
    }
}

/// A byte position is a character boundary exactly where some number of leading
/// characters takes that many bytes.
pub proof fn lemma_char_boundary(s: Seq<char>, byte: int)
    ensures
        match char_boundary(s, byte) {
            Some(k) => 0 <= k <= s.len() && byte_len(s.subrange(0, k)) == byte,
            None => forall|k: int| 0 <= k <= s.len() ==> #[trigger] byte_len(s.subrange(0, k))
                != byte,
        },
    decreases s.len(),
{
    if byte == 0 {
        assert(s.subrange(0, 0) =~= Seq::<char>::empty());
    } else if s.len() == 0 {
        assert(s.subrange(0, 0) =~= Seq::<char>::empty());
    } else {
        let rest = s.drop_first();
        let w = utf8_width(s[0]);
        lemma_char_boundary(rest, byte - w);
        assert forall|k: int| 1 <= k <= s.len() implies #[trigger] byte_len(s.subrange(0, k)) == w
            + byte_len(rest.subrange(0, k - 1)) by {
            let head = seq![s[0]];
            assert(head.drop_last() =~= Seq::<char>::empty());
            assert(byte_len(head.drop_last()) == 0);
            assert(s.subrange(0, k) =~= head + rest.subrange(0, k - 1));
            lemma_byte_len_concat(head, rest.subrange(0, k - 1));
        }
        assert(s.subrange(0, 0) =~= Seq::<char>::empty());
        if char_boundary(s, byte) is None {
            assert forall|k: int| 0 <= k <= s.len() implies #[trigger] byte_len(s.subrange(0, k))
                != byte by {
                if k > 0 {
                    assert(byte_len(s.subrange(0, k)) == w + byte_len(rest.subrange(0, k - 1)));
                }
            }
        }
    }
}

pub proof fn lemma_byte_len_prefix(s: Seq<char>, i: int, j: int)
    requires
        0 <= i <= j <= s.len(),
    ensures
        byte_len(s.subrange(0, j)) == byte_len(s.subrange(0, i)) + byte_len(s.subrange(i, j)),
        byte_len(s.subrange(i, j)) >= j - i,
{
    assert(s.subrange(0, i) + s.subrange(i, j) =~= s.subrange(0, j));
    lemma_byte_len_concat(s.subrange(0, i), s.subrange(i, j));
    lemma_byte_len_ge(s.subrange(i, j));
}

/// The boundary at the byte position where the character `k` begins is `k`.
pub proof fn lemma_boundary_of_char(s: Seq<char>, k: int)
    requires
        0 <= k <= s.len(),
    ensures
        char_boundary(s, byte_len(s.subrange(0, k)) as int) == Some(k),
{
    let b = byte_len(s.subrange(0, k)) as int;
    lemma_char_boundary(s, b);
    let m = char_boundary(s, b)->0;
    if m < k {
        lemma_byte_len_prefix(s, m, k);
    } else if k < m {
        lemma_byte_len_prefix(s, k, m);
    }
}

/// The number of characters in the first `byte` bytes.
pub fn boundary_at(chars: &Vec<char>, byte: u64) -> (r: Option<usize>)
    ensures
        match r {
            Some(k) => char_boundary(chars@, byte as int) == Some(k as int),
            None => char_boundary(chars@, byte as int) is None,
        },
{
    let mut rest: u64 = byte;
    let mut k: usize = 0;
    assert(chars@.subrange(0, chars@.len() as int) =~= chars@);
    while rest > 0
        invariant
            k <= chars@.len(),
            match char_boundary(chars@.subrange(k as int, chars@.len() as int), rest as int) {
                Some(m) => char_boundary(chars@, byte as int) == Some(k + m),
                None => char_boundary(chars@, byte as int) is None,
            },
        decreases rest,
    {
        let ghost here = chars@.subrange(k as int, chars@.len() as int);
        if k == chars.len() {
            return None;
        }
        let w: u64 = chars[k].len_utf8() as u64;
        if rest < w {
            return None;
        }
        assert(here.drop_first() =~= chars@.subrange(k + 1, chars@.len() as int));
        rest = rest - w;
        k = k + 1;
    }
    Some(k)
}

// ---------------------------------------------------------------------------
// Lists of texts
// ---------------------------------------------------------------------------

/// The texts that a list of strings holds.
pub open spec fn texts(list: Seq<String>) -> Seq<Seq<char>> {
    list.map_values(|s: String| s@)
}

/// The texts one behind the other, with `separator` between two of them.
pub open spec fn joined(parts: Seq<Seq<char>>, separator: Seq<char>) -> Seq<char>
    decreases parts.len(),
{
    if parts.len() == 0 {
        Seq::empty()
    } else if parts.len() == 1 {
        parts[0]
    } else {
        joined(parts.drop_last(), separator) + separator + parts.last()
    }
}

/// Whether a list holds a text.
pub fn list_has(list: &Vec<String>, text: &str) -> (r: bool)
    ensures
        r == texts(list@).contains(text@),
{
    let mut i: usize = 0;
    while i < list.len()
        invariant
            i <= list@.len(),
            forall|k: int| 0 <= k < i ==> list@[k]@ != text@,
        decreases list@.len() - i,
    {
        if same_text(list[i].as_str(), text) {
            assert(texts(list@)[i as int] == text@);
            return true;
        }
        i = i + 1;
    }
    assert forall|k: int| 0 <= k < texts(list@).len() implies texts(list@)[k] != text@ by {
        assert(list@[k]@ != text@);
    }
    false
}

/// Copies a list of strings.
pub fn copy_list(list: &Vec<String>) -> (r: Vec<String>)
    ensures
        r@ == list@,
{
    let mut out: Vec<String> = Vec::new();
    let mut i: usize = 0;
    while i < list.len()
        invariant
            i <= list@.len(),
            out@ == list@.subrange(0, i as int),
        decreases list@.len() - i,
    {
        out.push(list[i].clone());
        i = i + 1;
        assert(out@ =~= list@.subrange(0, i as int));
    }
    assert(out@ =~= list@);
    out
}

/// The texts one behind the other, with `separator` between two of them.
pub fn join(parts: &Vec<String>, separator: &str) -> (r: String)
    ensures
        r@ == joined(texts(parts@), separator@),
{
    let mut out = String::new();
    let mut i: usize = 0;
    assert(texts(parts@).subrange(0, 0) =~= Seq::<Seq<char>>::empty());
    while i < parts.len()
        invariant
            i <= parts@.len(),
            out@ == joined(texts(parts@).subrange(0, i as int), separator@),
        decreases parts@.len() - i,
    {
        let ghost before = texts(parts@).subrange(0, i as int);
        let ghost after = texts(parts@).subrange(0, i + 1);
        assert(after.drop_last() =~= before);
        if i > 0 {
            out.push_str(separator);
        }
        out.push_str(parts[i].as_str());
        assert(after.last() == parts@[i as int]@);
        i = i + 1;
        assert(out@ =~= joined(after, separator@));
    }
    assert(texts(parts@).subrange(0, parts@.len() as int) =~= texts(parts@));
    out
}

/// The text that an optional string holds.
pub open spec fn option_text(text: Option<String>) -> Option<Seq<char>> {
    match text {
        Some(s) => Some(s@),
        None => None,
    }
}

/// Whether two optional texts are the same.
pub fn same_option_text(a: &Option<String>, b: &Option<String>) -> (r: bool)
    ensures
        r == (option_text(*a) == option_text(*b)),
{
    match (a, b) {
        (Some(x), Some(y)) => same_text(x.as_str(), y.as_str()),
        (None, None) => true,
        _ => false,
    }
}

/// Copies an optional string.
pub fn copy_option(text: &Option<String>) -> (r: Option<String>)
    ensures
        r == *text,
{
    match text {
        Some(s) => Some(s.clone()),
        None => None,
    }
}

/// The part of a text between two byte positions is the part that the text goes
/// on with behind as many bytes as the first one says, up to as many as the second
/// one says; there is none exactly where the text cannot be parted so.
pub proof fn a_byte_slice_is_the_part_between(s: Seq<char>, start: int, end: int)
    ensures
        forall|i: int, j: int|
            0 <= i <= j <= s.len() && #[trigger] byte_len(s.subrange(0, i)) == start
                && #[trigger] byte_len(s.subrange(0, j)) == end ==> byte_slice(s, start, end)
                == Some(s.subrange(i, j)),
        byte_slice(s, start, end) is Some ==> exists|i: int, j: int|
            0 <= i <= j <= s.len() && #[trigger] byte_len(s.subrange(0, i)) == start
                && #[trigger] byte_len(s.subrange(0, j)) == end,
        byte_slice(s, start, end) is Some ==> byte_len(byte_slice(s, start, end)->0) == end - start,
{
    lemma_char_boundary(s, start);
    lemma_char_boundary(s, end);
    assert forall|i: int, j: int|
        0 <= i <= j <= s.len() && #[trigger] byte_len(s.subrange(0, i)) == start
            && #[trigger] byte_len(s.subrange(0, j)) == end implies byte_slice(s, start, end)
        == Some(s.subrange(i, j)) by {
        lemma_boundary_of_char(s, i);
        lemma_boundary_of_char(s, j);
    }
    if byte_slice(s, start, end) is Some {
        let i = char_boundary(s, start)->0;
        let j = char_boundary(s, end)->0;
        lemma_byte_len_prefix(s, i, j);
        assert(byte_len(s.subrange(0, i)) == start && byte_len(s.subrange(0, j)) == end);
    }
}

/// Trimming takes white space from the two ends of a text, as far as it goes, and
/// nothing else.
pub proof fn trimming_takes_white_space_from_the_ends(s: Seq<char>)
    ensures
        exists|i: int, j: int|
            #![trigger s.subrange(i, j)]
            0 <= i <= j <= s.len() && trimmed(s) == s.subrange(i, j) && (forall|k: int|
                0 <= k < i || j <= k < s.len() ==> is_white_space(#[trigger] s[k])) && (i < j
                ==> !is_white_space(s[i]) && !is_white_space(s[j - 1])),
{
    lemma_trim_start(s);
    lemma_trim_start_takes_white_space(s);
    let t = trim_start(s);
    lemma_trim_end(t);
    lemma_trim_end_takes_white_space(t);
    let u = trim_end(t);
    let i = s.len() - t.len();
    let j = i + u.len();
    assert(s.subrange(i, j) =~= u);
    assert forall|k: int| 0 <= k < i || j <= k < s.len() implies is_white_space(
        #[trigger] s[k],
    ) by {
        if k >= j {
            assert(s[k] == t[k - i]);
        }
    }
}

proof fn lemma_trim_start_takes_white_space(s: Seq<char>)
    ensures
        forall|k: int|
            0 <= k < s.len() - trim_start(s).len() ==> is_white_space(#[trigger] s[k]),
    decreases s.len(),
{
    if s.len() > 0 && is_white_space(s[0]) {
        let rest = s.drop_first();
        lemma_trim_start_takes_white_space(rest);
        assert forall|k: int| 0 <= k < s.len() - trim_start(s).len() implies is_white_space(
            #[trigger] s[k],
        ) by {
            if k > 0 {
                assert(s[k] == rest[k - 1]);
            }
        }
    }
}

proof fn lemma_trim_end_takes_white_space(s: Seq<char>)
    ensures
        forall|k: int| trim_end(s).len() <= k < s.len() ==> is_white_space(#[trigger] s[k]),
    decreases s.len(),
{
    if s.len() > 0 && is_white_space(s.last()) {
        let rest = s.drop_last();
        lemma_trim_end_takes_white_space(rest);
        assert forall|k: int| trim_end(s).len() <= k < s.len() implies is_white_space(
            #[trigger] s[k],
        ) by {
            if k < rest.len() {
                assert(s[k] == rest[k]);
            }
        }
    }
}

/// A text is blank exactly where all of its characters are white space.
pub proof fn a_blank_text_is_all_white_space(s: Seq<char>)
    ensures
        is_blank(s) <==> forall|i: int| 0 <= i < s.len() ==> is_white_space(#[trigger] s[i]),
{
}

/// Joined texts stand one behind the other with the separator between them, and
/// nowhere else.
pub proof fn a_separator_stands_between_joined_texts(
    a: Seq<Seq<char>>,
    b: Seq<Seq<char>>,
    text: Seq<char>,
    separator: Seq<char>,
)
    requires
        a.len() > 0,
        b.len() > 0,
    ensures
        joined(a + b, separator) == joined(a, separator) + separator + joined(b, separator),
        joined(seq![text], separator) == text,
        joined(Seq::empty(), separator) == Seq::<char>::empty(),
    decreases b.len(),
{
    let all = a + b;
    assert(seq![text].drop_last() =~= Seq::<Seq<char>>::empty());
    assert(all.drop_last() =~= a + b.drop_last());
    if b.len() > 1 {
        a_separator_stands_between_joined_texts(a, b.drop_last(), text, separator);
        assert(joined(all, separator) =~= joined(a, separator) + separator + joined(b, separator));
    } else {
        assert(b.drop_last() =~= Seq::<Seq<char>>::empty());
        assert(a + b.drop_last() =~= a);
        assert(b =~= seq![b[0]]);
        assert(joined(all, separator) =~= joined(a, separator) + separator + joined(b, separator));
    }
}

} // verus!
