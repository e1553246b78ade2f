//! Text as bytes and as numbers: UTF-8, decimal numbers, words.

use vstd::prelude::*;
use vstd::string::*;
use vstd::utf8::*;

verus! {

/// What `String::from_utf8_lossy` makes of bytes that are not valid UTF-8:
/// the text in which each ill-formed run is replaced by U+FFFD.
pub uninterp spec fn utf8_lossy(bytes: Seq<u8>) -> Seq<char>;

/// The text that a run of bytes is read as: the text it encodes where it is
/// valid UTF-8, and the lossy reading otherwise.
pub open spec fn lossy_text(bytes: Seq<u8>) -> Seq<char> {
    if valid_utf8(bytes) {
        decode_utf8(bytes)
    } else {
        utf8_lossy(bytes)
    }
}

/// `String::from_utf8_lossy`: valid UTF-8 is returned as the text it
/// encodes; of other input the contract only names the result.
#[verifier::external_body]
pub(crate) fn from_utf8_lossy(bytes: &[u8]) -> (s: String)
    ensures
        valid_utf8(bytes@) ==> s@ == decode_utf8(bytes@),
        !valid_utf8(bytes@) ==> s@ == utf8_lossy(bytes@),
{
    String::from_utf8_lossy(bytes).into_owned()
}

/// `String::from_utf8`: the text that the bytes encode, where they are valid
/// UTF-8, and nothing otherwise.
#[verifier::external_body]
pub(crate) fn from_utf8(bytes: Vec<u8>) -> (s: Option<String>)
    ensures
        valid_utf8(bytes@) ==> s is Some && s->Some_0@ == decode_utf8(bytes@),
        !valid_utf8(bytes@) ==> s is None,
{
    String::from_utf8(bytes).ok()
}

/// The characters of `s`, one by one.
pub fn chars_of(s: &str) -> (v: Vec<char>)
    ensures
        v@ == s@,
{
    let mut v: Vec<char> = Vec::new();
    for c in it: s.chars()
        invariant
            v@ == it.seq().take(it.index() as int),
            it.seq() == s@,
    {
        v.push(c);
    }
    v
}

/// The first position in `[from, s.len())` at which `s` holds `x`, or
/// `s.len()`.
pub fn find_char(s: &[char], x: char, from: usize) -> (k: usize)
    ensures
        k == crate::scan::find_from(s@, x, from as int),
{
    if from >= s.len() {
        return s.len();
    }
    let mut i: usize = from;
    while i < s.len()
        invariant
            from <= i <= s.len(),
            forall|j: int| from <= j < i ==> s@[j] != x,
        decreases s.len() - i,
    {
        if s[i] == x {
            proof {
                crate::scan::lemma_find_from_is(s@, x, from as int, i as int);
            }
            return i;
        }
        i += 1;
    }
    proof {
        crate::scan::lemma_find_from_is(s@, x, from as int, s.len() as int);
    }
    s.len()
}

/// Whether `c` is white space: one of the characters with the Unicode
/// property `White_Space`.
pub open spec fn is_white_space(c: char) -> bool {
    let u = c as u32;
    ||| 0x09 <= u <= 0x0D
    ||| u == 0x20
    ||| u == 0x85
    ||| u == 0xA0
    ||| u == 0x1680
    ||| 0x2000 <= u <= 0x200A
    ||| u == 0x2028
    ||| u == 0x2029
    ||| u == 0x202F
    ||| u == 0x205F
    ||| u == 0x3000
}

/// The first position at or after `from` at which `s` holds white space,
/// where `white`, or anything else, where not; `s.len()` when there is
/// none.
pub open spec fn next_where(s: Seq<char>, white: bool, from: int) -> int
    decreases s.len() - from,
{
    if from < 0 || from >= s.len() {
        s.len() as int
    } else if is_white_space(s[from]) == white {
        from
    } else {
        next_where(s, white, from + 1)
    }
}

/// `next_where` returns a position at or after `from`; where it is within
/// the text, the character there is of the kind asked for.
pub proof fn lemma_next_where(s: Seq<char>, white: bool, from: int)
    requires
        0 <= from <= s.len(),
    ensures
        from <= next_where(s, white, from) <= s.len(),
        next_where(s, white, from) < s.len() ==> is_white_space(s[next_where(s, white, from)])
            == white,
    decreases s.len() - from,
{
    if from < s.len() && is_white_space(s[from]) != white {
        lemma_next_where(s, white, from + 1);
    }
}

/// The words of `s` from `from` on: the runs of characters that are no
/// white space, in order.
pub open spec fn words_from(s: Seq<char>, from: int) -> Seq<Seq<char>>
    decreases s.len() - from,
    via words_from_moves_on
{
    let start = next_where(s, false, from);
    if from < 0 || start >= s.len() {
        Seq::empty()
    } else {
        let end = next_where(s, true, start);
        seq![s.subrange(start, end)] + words_from(s, end)
    }
}

#[via_fn]
proof fn words_from_moves_on(s: Seq<char>, from: int) {
    if 0 <= from <= s.len() {
        lemma_next_where(s, false, from);
        let start = next_where(s, false, from);
        if start < s.len() {
            lemma_next_where(s, true, start);
        }
    }
}

/// The words of a line: what stands between white space.
pub open spec fn words(line: Seq<char>) -> Seq<Seq<char>> {
    words_from(line, 0)
}

/// The texts of a list of strings.
pub open spec fn texts(list: Seq<String>) -> Seq<Seq<char>> {
    Seq::new(list.len(), |i: int| list[i]@)
}

/// Whether `c` is white space.
pub fn white_space(c: char) -> (r: bool)
    ensures
        r == is_white_space(c),
{
    let u = c as u32;
    (0x09 <= u && u <= 0x0D) || u == 0x20 || u == 0x85 || u == 0xA0 || u == 0x1680 || (0x2000 <= u
        && u <= 0x200A) || u == 0x2028 || u == 0x2029 || u == 0x202F || u == 0x205F || u == 0x3000
}

/// The first position at or after `from` at which `s` holds white space,
/// where `white`, or anything else, where not.
fn find_where(s: &[char], white: bool, from: usize) -> (k: usize)
    requires
        from <= s.len(),
    ensures
        k == next_where(s@, white, from as int),
        from <= k <= s.len(),
{
    let mut i: usize = from;
    while i < s.len() && white_space(s[i]) != white
        invariant
            from <= i <= s.len(),
            next_where(s@, white, from as int) == next_where(s@, white, i as int),
        decreases s.len() - i,
    {
        i += 1;
    }
    i
}

/// Splits a line into its words.
pub fn split_whitespace(line: &str) -> (tokens: Vec<String>)
    ensures
        texts(tokens@) == words(line@),
{
    let chars = chars_of(line);
    let mut tokens: Vec<String> = Vec::new();
    let mut at: usize = 0;
    loop
        invariant
            chars@ == line@,
            at <= chars.len(),
            words(line@) == texts(tokens@) + words_from(line@, at as int),
        decreases chars.len() - at,
    {
        let start = find_where(chars.as_slice(), false, at);
        if start >= chars.len() {
            assert(texts(tokens@) + Seq::<Seq<char>>::empty() =~= texts(tokens@));
            return tokens;
        }
        let end = find_where(chars.as_slice(), true, start);
        proof {
            lemma_next_where(line@, true, start as int);
        }
        let ghost before = texts(tokens@);
        tokens.push(line.substring_char(start, end).to_owned());
        proof {
            let word = line@.subrange(start as int, end as int);
            assert(texts(tokens@) =~= before + seq![word]);
            assert(before + (seq![word] + words_from(line@, end as int)) =~= texts(tokens@)
                + words_from(line@, end as int));
        }
        at = end;
    }
}

/// The decimal digit that stands for `d`.
pub open spec fn digit_char(d: nat) -> char
    recommends
        d < 10,
{
    ((48 + d) as u8) as char
}

/// Whether `c` is one of `0` to `9`.
pub open spec fn is_digit(c: char) -> bool {
    '0' <= c <= '9'
}

/// The decimal spelling of `n`, without sign or leading zeros.
pub open spec fn decimal(n: nat) -> Seq<char>
    decreases n,
{
    if n < 10 {
        seq![digit_char(n)]
    } else {
        decimal(n / 10).push(digit_char(n % 10))
    }
}

/// The number that a run of decimal digits spells; leading zeros count for
/// nothing.
pub open spec fn digits_value(s: Seq<char>) -> nat
    decreases s.len(),
{
    if s.len() == 0 {
        0
    } else {
        digits_value(s.drop_last()) * 10 + ((s.last() as u8) - 48) as nat
    }
}

/// Whether every character of `s` is a decimal digit.
pub open spec fn all_digits(s: Seq<char>) -> bool {
    forall|i: int| 0 <= i < s.len() ==> is_digit(#[trigger] s[i])
}

/// The unsigned 64-bit number that `s` spells: an optional `+`, then one or
/// more decimal digits, the value within range. `None` for anything else.
pub open spec fn parse_decimal(s: Seq<char>) -> Option<nat> {
    let body = if s.len() > 0 && s[0] == '+' {
        s.drop_first()
    } else {
        s
    };
    if body.len() > 0 && all_digits(body) && digits_value(body) <= u64::MAX {
        Some(digits_value(body))
    } else {
        None
    }
}

fn digit_str(d: usize) -> (s: &'static str)
    requires
        d < 10,
    ensures
        s@ == seq![digit_char(d as nat)],
{
    proof {
        reveal_strlit("0");
        reveal_strlit("1");
        reveal_strlit("2");
        reveal_strlit("3");
        reveal_strlit("4");
        reveal_strlit("5");
        reveal_strlit("6");
        reveal_strlit("7");
        reveal_strlit("8");
        reveal_strlit("9");
    }
    let s = if d == 0 {
        "0"
    } else if d == 1 {
        "1"
    } else if d == 2 {
        "2"
    } else if d == 3 {
        "3"
    } else if d == 4 {
        "4"
    } else if d == 5 {
        "5"
    } else if d == 6 {
        "6"
    } else if d == 7 {
        "7"
    } else if d == 8 {
        "8"
    } else {
        "9"
    };
    assert(s@ =~= seq![digit_char(d as nat)]);
    s
}

/// Appends the decimal spelling of `n` to `out`.
pub fn push_decimal(out: &mut String, n: usize)
    ensures
        final(out)@ == old(out)@ + decimal(n as nat),
    decreases n,
{
    if n >= 10 {
        push_decimal(out, n / 10);
    }
    out.append(digit_str(n % 10));
    assert(final(out)@ =~= old(out)@ + decimal(n as nat));
}

/// The value of a run of digits does not grow when its last digit is dropped.
proof fn lemma_digits_value_prefix(s: Seq<char>, k: int)
    requires
        0 <= k <= s.len(),
        all_digits(s),
    ensures
        digits_value(s.take(k)) <= digits_value(s),
    decreases s.len() - k,
{
    if k < s.len() {
        lemma_digits_value_prefix(s, k + 1);
        assert(s.take(k + 1).drop_last() =~= s.take(k));
        assert(is_digit(s[k]));
        assert(s.take(k + 1).last() == s[k]);
    } else {
        assert(s.take(k) =~= s);
    }
}

/// Reads `s[from..]` as a run of decimal digits.
fn digits_to_u64(s: &[char], from: usize) -> (r: Option<u64>)
    requires
        from <= s.len(),
    ensures
        r == ({
            let body = s@.skip(from as int);
            if body.len() > 0 && all_digits(body) && digits_value(body) <= u64::MAX {
                Some(digits_value(body) as u64)
            } else {
                None
            }
        }),
{
    let ghost body = s@.skip(from as int);
    if from == s.len() {
        return None;
    }
    let mut acc: u64 = 0;
    let mut i: usize = from;
    while i < s.len()
        invariant
            from <= i <= s.len(),
            body == s@.skip(from as int),
            all_digits(body.take(i - from)),
            acc == digits_value(body.take(i - from)),
        decreases s.len() - i,
    {
        let c = s[i];
        proof {
            assert(body[i - from] == c);
            assert(body.take(i - from + 1).drop_last() =~= body.take(i - from));
            assert(body.take(i - from + 1).last() == c);
        }
        if !('0' <= c && c <= '9') {
            assert(!all_digits(body));
            return None;
        }
        let d: u64 = (c as u8 - 48) as u64;
        assert forall|j: int| 0 <= j < i - from + 1 implies is_digit(
            #[trigger] body.take(i - from + 1)[j],
        ) by {
            if j < i - from {
                assert(body.take(i - from)[j] == body[j]);
            }
        }
        if acc > (u64::MAX - d) / 10 {
            proof {
                // Once a prefix is out of range, so is the whole run.
                if all_digits(body) {
                    lemma_digits_value_prefix(body, i - from + 1);
                }
            }
            return None;
        }
        acc = acc * 10 + d;
        i += 1;
    }
    assert(body.take(i - from) =~= body);
    Some(acc)
}

/// Reads `s` as an unsigned 64-bit decimal number.
pub fn parse_u64(s: &[char]) -> (r: Option<u64>)
    ensures
        match r {
            Some(n) => parse_decimal(s@) == Some(n as nat),
            None => parse_decimal(s@) is None,
        },
{
    if s.len() > 0 && s[0] == '+' {
        assert(s@.skip(1) =~= s@.drop_first());
        digits_to_u64(s, 1)
    } else {
        assert(s@.skip(0) =~= s@);
        digits_to_u64(s, 0)
    }
}

/// In UTF-8 only an ASCII character is written with an ASCII byte.
proof fn lemma_scalar_bytes(c: u32, i: int)
    requires
        is_scalar(c),
        0 <= i < encode_scalar(c).len(),
    ensures
        encode_scalar(c)[i] < 128 ==> c < 128 && encode_scalar(c)[i] == c,
{
    if c < 128 {
        assert((c & 0x7F) as u8 == c) by (bit_vector)
            requires
                c < 128,
        ;
    }
    assert((0xC0 | ((c >> 6) & 0x1F) as u8) >= 128) by (bit_vector);
    assert((0xE0 | ((c >> 12) & 0x0F) as u8) >= 128) by (bit_vector);
    assert((0xF0 | ((c >> 18) & 0x7) as u8) >= 128) by (bit_vector);
    assert((0x80 | (c & 0x3F) as u8) >= 128) by (bit_vector);
    assert((0x80 | ((c >> 6) & 0x3F) as u8) >= 128) by (bit_vector);
    assert((0x80 | ((c >> 12) & 0x3F) as u8) >= 128) by (bit_vector);
}

/// An ASCII byte that stands in the UTF-8 encoding of a text stands for a
/// character of that text: a text without the character encodes to bytes
/// without the byte.
pub proof fn lemma_ascii_byte_absent(text: Seq<char>, b: u8)
    requires
        b < 128,
        forall|j: int| 0 <= j < text.len() ==> text[j] as u32 != b as u32,
    ensures
        forall|i: int| 0 <= i < encode_utf8(text).len() ==> encode_utf8(text)[i] != b,
    decreases text.len(),
{
    if text.len() > 0 {
        let head = encode_scalar(text[0] as u32);
        let tail = encode_utf8(text.drop_first());
        char_is_scalar(text[0]);
        lemma_ascii_byte_absent(text.drop_first(), b);
        assert forall|i: int| 0 <= i < encode_utf8(text).len() implies encode_utf8(text)[i]
            != b by {
            if i < head.len() {
                lemma_scalar_bytes(text[0] as u32, i);
            } else {
                assert(encode_utf8(text)[i] == tail[i - head.len()]);
            }
        }
    }
}

/// The decimal spelling of a number is a run of digits that spells it.
pub proof fn lemma_decimal_digits(n: nat)
    ensures
        decimal(n).len() > 0,
        all_digits(decimal(n)),
        digits_value(decimal(n)) == n,
    decreases n,
{
    if n < 10 {
        assert(decimal(n).drop_last() =~= Seq::<char>::empty());
        assert(digits_value(decimal(n).drop_last()) == 0);
    } else {
        lemma_decimal_digits(n / 10);
        let head = decimal(n / 10);
        let last = digit_char(n % 10);
        assert(head.push(last).drop_last() =~= head);
        assert forall|i: int| 0 <= i < decimal(n).len() implies is_digit(
            #[trigger] decimal(n)[i],
        ) by {
            if i < head.len() {
                assert(decimal(n)[i] == head[i]);
            }
        }
    }
}

/// The decimal spelling of a number that fits in 64 bits reads back as that
/// number.
pub proof fn lemma_decimal_reads_back(n: nat)
    requires
        n <= u64::MAX,
    ensures
        parse_decimal(decimal(n)) == Some(n),
{
    lemma_decimal_digits(n);
    assert(is_digit(decimal(n)[0]));
}

} // verus!
