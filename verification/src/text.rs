//! Text: UTF-8, letter case, comparison and the pieces of a string.
use vstd::prelude::*;
use vstd::slice::slice_to_vec;
use vstd::string::{StrSliceExecFns, StringExecFns};
use vstd::utf8::{
    decode_utf8, encode_utf8, encode_utf8_decode_utf8, encode_utf8_valid_utf8, is_ascii_chars,
    is_ascii_chars_encode_utf8, valid_utf8,
};

verus! {

/// The words for what is wrong with bytes that are no UTF-8.
pub uninterp spec fn utf8_complaint(bytes: Seq<u8>) -> Seq<char>;

/// `std::str::from_utf8`: the text that the bytes encode if they are UTF-8, and
/// else its error, in words. The words have only a name.
#[verifier::external_body]
pub(crate) fn text_from_utf8(bytes: &[u8]) -> (text: Result<String, String>)
    ensures
        match text {
            Ok(t) => valid_utf8(bytes@) && t@ == decode_utf8(bytes@),
            Err(words) => !valid_utf8(bytes@) && words@ == utf8_complaint(bytes@),
        },
{
    match std::str::from_utf8(bytes) {
        Ok(text) => Ok(text.to_string()),
        Err(e) => Err(e.to_string()),
    }
}

/// The characters of a string.
pub(crate) fn chars_of(s: &str) -> (chars: Vec<char>)
    ensures
        chars@ == s@,
{
    let mut chars: Vec<char> = Vec::new();
    for c in it: s.chars()
        invariant
            it.seq() == s@,
            chars@ == s@.take(it.index() as int),
    {
        assert(s@.take(it.index() as int + 1) =~= s@.take(it.index() as int).push(c));
        chars.push(c);
    }
    assert(s@.take(s@.len() as int) =~= s@);
    chars
}

/// Whether two strings are equal.
pub(crate) fn str_eq(a: &str, b: &str) -> (equal: bool)
    ensures
        equal == (a@ == b@),
{
    let x = a.as_bytes();
    let y = b.as_bytes();
    proof {
        encode_utf8_decode_utf8(a@);
        encode_utf8_decode_utf8(b@);
    }
    bytes_eq(x, y)
}

/// Whether two byte strings are equal.
pub(crate) fn bytes_eq(x: &[u8], y: &[u8]) -> (equal: bool)
    ensures
        equal == (x@ == y@),
{
    if x.len() != y.len() {
        return false;
    }
    let mut i: usize = 0;
    while i < x.len()
        invariant
            i <= x@.len(),
            x@.len() == y@.len(),
            forall|j: int| 0 <= j < i ==> x@[j] == y@[j],
        decreases x@.len() - i,
    {
        if x[i] != y[i] {
            return false;
        }
        i += 1;
    }
    assert(x@ =~= y@);
    true
}

/// The lower-case form of an ASCII letter; any other character unchanged.
pub open spec fn ascii_lower_char(c: char) -> char {
    if 'A' <= c && c <= 'Z' {
        (c as u8 + 32) as u8 as char
    } else {
        c
    }
}

/// The string with its ASCII letters in lower case.
pub open spec fn ascii_lowercase(s: Seq<char>) -> Seq<char> {
    s.map_values(|c: char| ascii_lower_char(c))
}

/// The Unicode lower-case form of a string beyond ASCII.
pub uninterp spec fn unicode_lowercase(s: Seq<char>) -> Seq<char>;

/// The lower-case form of a string.
pub open spec fn lowercase(s: Seq<char>) -> Seq<char> {
    if is_ascii_chars(s) {
        ascii_lowercase(s)
    } else {
        unicode_lowercase(s)
    }
}

/// `str::to_lowercase`. Of a string beyond ASCII the result has only a name.
#[verifier::external_body]
pub(crate) fn to_lowercase(s: &str) -> (lower: String)
    ensures
        is_ascii_chars(s@) ==> lower@ == ascii_lowercase(s@),
        !is_ascii_chars(s@) ==> lower@ == unicode_lowercase(s@),
{
    s.to_lowercase()
}

fn ascii_lower(c: char) -> (lower: char)
    ensures
        lower == ascii_lower_char(c),
{
    if 'A' <= c && c <= 'Z' {
        (c as u8 + 32) as char
    } else {
        c
    }
}

/// Whether two strings are equal up to the case of ASCII letters.
pub(crate) fn eq_ignore_ascii_case(a: &str, b: &str) -> (equal: bool)
    ensures
        equal == (ascii_lowercase(a@) == ascii_lowercase(b@)),
{
    let x = chars_of(a);
    let y = chars_of(b);
    if x.len() != y.len() {
        proof {
            if ascii_lowercase(a@) == ascii_lowercase(b@) {
                assert(ascii_lowercase(a@).len() == a@.len());
                assert(ascii_lowercase(b@).len() == b@.len());
            }
        }
        return false;
    }
    let mut i: usize = 0;
    while i < x.len()
        invariant
            i <= x@.len(),
            x@ == a@,
            y@ == b@,
            x@.len() == y@.len(),
            forall|j: int| 0 <= j < i ==> ascii_lower_char(a@[j]) == ascii_lower_char(b@[j]),
        decreases x@.len() - i,
    {
        if ascii_lower(x[i]) != ascii_lower(y[i]) {
            assert(ascii_lowercase(a@)[i as int] != ascii_lowercase(b@)[i as int]);
            return false;
        }
        i += 1;
    }
    assert(ascii_lowercase(a@) =~= ascii_lowercase(b@));
    true
}

/// The ASCII characters that the bytes denote.
pub open spec fn ascii_chars(bytes: Seq<u8>) -> Seq<char> {
    bytes.map_values(|b: u8| b as char)
}

/// The text of ASCII bytes.
pub(crate) fn ascii_text(bytes: &[u8]) -> (text: String)
    requires
        forall|i: int| 0 <= i < bytes@.len() ==> #[trigger] bytes@[i] < 128,
    ensures
        text@ == ascii_chars(bytes@),
{
    proof {
        let chars = ascii_chars(bytes@);
        assert(is_ascii_chars(chars));
        is_ascii_chars_encode_utf8(chars);
        assert(encode_utf8(chars) =~= bytes@);
        encode_utf8_valid_utf8(chars);
        encode_utf8_decode_utf8(chars);
    }
    match text_from_utf8(bytes) {
        Ok(text) => text,
        Err(_) => String::new(),
    }
}

/// The part of a string before the first occurrence of a character, or the
/// whole string where it does not occur.
pub open spec fn before_first(s: Seq<char>, c: char) -> Seq<char> {
    match s.index_of_first(c) {
        Some(i) => s.take(i),
        None => s,
    }
}

/// The index of the first occurrence of a character at or after `from`.
pub(crate) fn find_char(chars: &Vec<char>, from: usize, c: char) -> (found: Option<usize>)
    requires
        from <= chars@.len(),
    ensures
        match found {
            Some(i) => from <= i < chars@.len() && chars@.skip(from as int).index_of_first(c)
                == Some(i - from),
            None => chars@.skip(from as int).index_of_first(c) is None,
        },
{
    let ghost rest = chars@.skip(from as int);
    proof {
        rest.index_of_first_ensures(c);
    }
    let mut i: usize = from;
    while i < chars.len()
        invariant
            from <= i <= chars@.len(),
            rest == chars@.skip(from as int),
            forall|j: int| from <= j < i ==> chars@[j] != c,
            match rest.index_of_first(c) {
                Some(index) => 0 <= index < rest.len() && rest[index] == c && (forall|j: int|
                    0 <= j < index ==> rest[j] != c),
                None => !rest.contains(c),
            },
        decreases chars@.len() - i,
    {
        if chars[i] == c {
            proof {
                assert(rest[i - from] == c);
                assert(rest.contains(c));
                let index = rest.index_of_first(c)->0;
                if index < i - from {
                    assert(chars@[from + index] == rest[index]);
                }
            }
            return Some(i);
        }
        i += 1;
    }
    proof {
        if let Some(index) = rest.index_of_first(c) {
            assert(chars@[from + index] == rest[index]);
        }
    }
    None
}

/// The predicate that holds of one character alone.
pub open spec fn is_char(c: char) -> spec_fn(char) -> bool {
    |x: char| x == c
}

/// The predicate that holds of white space.
pub open spec fn is_white() -> spec_fn(char) -> bool {
    |x: char| is_white_space(x)
}

/// The string without the characters at its end that the predicate holds of.
pub open spec fn strip_end(s: Seq<char>, p: spec_fn(char) -> bool) -> Seq<char>
    decreases s.len(),
{
    if s.len() > 0 && p(s.last()) {
        strip_end(s.drop_last(), p)
    } else {
        s
    }
}

/// The string without the characters at its front that the predicate holds of.
pub open spec fn strip_start(s: Seq<char>, p: spec_fn(char) -> bool) -> Seq<char>
    decreases s.len(),
{
    if s.len() > 0 && p(s[0]) {
        strip_start(s.drop_first(), p)
    } else {
        s
    }
}

/// The characters with the Unicode property White_Space.
pub open spec fn is_white_space(c: char) -> bool {
    let u = c as u32;
    ||| 0x09 <= u <= 0x0d
    ||| u == 0x20
    ||| u == 0x85
    ||| u == 0xa0
    ||| u == 0x1680
    ||| 0x2000 <= u <= 0x200a
    ||| u == 0x2028
    ||| u == 0x2029
    ||| u == 0x202f
    ||| u == 0x205f
    ||| u == 0x3000
}

/// `char::is_whitespace` tells the characters with the property White_Space.
pub assume_specification[ char::is_whitespace ](c: char) -> (white: bool)
    ensures
        white == is_white_space(c),
;

/// The string without white space at its ends.
pub open spec fn trim(s: Seq<char>) -> Seq<char> {
    strip_start(strip_end(s, is_white()), is_white())
}

/// The bounds of a part of a string without the white space at its ends.
pub(crate) fn trim_bounds(chars: &Vec<char>, from: usize, to: usize) -> (bounds: (usize, usize))
    requires
        from <= to <= chars@.len(),
    ensures
        from <= bounds.0 <= bounds.1 <= to,
        chars@.subrange(bounds.0 as int, bounds.1 as int) == trim(
            chars@.subrange(from as int, to as int),
        ),
{
    let mut end: usize = to;
    let ghost whole = chars@.subrange(from as int, to as int);
    while end > from && chars[end - 1].is_whitespace()
        invariant
            from <= end <= to <= chars@.len(),
            strip_end(chars@.subrange(from as int, end as int), is_white()) == strip_end(
                whole,
                is_white(),
            ),
        decreases end,
    {
        proof {
            let part = chars@.subrange(from as int, end as int);
            assert(part.drop_last() =~= chars@.subrange(from as int, end - 1));
            assert(part.last() == chars@[end - 1]);
        }
        end -= 1;
    }
    let ghost tail = chars@.subrange(from as int, end as int);
    assert(end > from ==> tail.last() == chars@[end - 1]);
    assert(strip_end(whole, is_white()) == tail);
    let mut start: usize = from;
    while start < end && chars[start].is_whitespace()
        invariant
            from <= start <= end <= to <= chars@.len(),
            strip_start(chars@.subrange(start as int, end as int), is_white()) == strip_start(
                tail,
                is_white(),
            ),
        decreases end - start,
    {
        proof {
            let part = chars@.subrange(start as int, end as int);
            assert(part.drop_first() =~= chars@.subrange(start + 1, end as int));
        }
        start += 1;
    }
    (start, end)
}

/// The string without the trailing occurrences of a character.
pub(crate) fn trim_end_matches<'a>(s: &'a str, c: char) -> (part: &'a str)
    ensures
        part@ == strip_end(s@, is_char(c)),
{
    let chars = chars_of(s);
    let mut end: usize = chars.len();
    assert(s@.take(end as int) =~= s@);
    while end > 0 && chars[end - 1] == c
        invariant
            chars@ == s@,
            end <= chars@.len(),
            strip_end(s@.take(end as int), is_char(c)) == strip_end(s@, is_char(c)),
        decreases end,
    {
        assert(s@.take(end as int).drop_last() =~= s@.take(end - 1));
        end -= 1;
    }
    s.substring_char(0, end)
}

/// The string without the leading occurrences of a character.
pub(crate) fn trim_start_matches<'a>(s: &'a str, c: char) -> (part: &'a str)
    ensures
        part@ == strip_start(s@, is_char(c)),
{
    let chars = chars_of(s);
    let mut start: usize = 0;
    assert(s@.skip(0) =~= s@);
    while start < chars.len() && chars[start] == c
        invariant
            chars@ == s@,
            start <= chars@.len(),
            strip_start(s@.skip(start as int), is_char(c)) == strip_start(s@, is_char(c)),
        decreases chars@.len() - start,
    {
        assert(s@.skip(start as int).drop_first() =~= s@.skip(start + 1));
        start += 1;
    }
    assert(s@.skip(start as int) =~= s@.subrange(start as int, s@.len() as int));
    s.substring_char(start, chars.len())
}

/// The bytes of a string in UTF-8.
pub(crate) fn text_bytes(s: &str) -> (bytes: Vec<u8>)
    ensures
        bytes@ == encode_utf8(s@),
{
    slice_to_vec(s.as_bytes())
}

/// One string after another.
pub(crate) fn joined(a: &str, b: &str) -> (text: String)
    ensures
        text@ == a@ + b@,
{
    let mut text = a.to_owned();
    text.append(b);
    text
}

/// The byte of a hexadecimal digit, in lower case.
pub open spec fn hex_digit(value: u8) -> u8 {
    if value < 10 {
        (48 + value) as u8
    } else {
        (87 + value) as u8
    }
}

/// A byte as two hexadecimal digits.
pub open spec fn hex_of(byte: u8) -> Seq<char> {
    seq![hex_digit(byte / 16) as char, hex_digit(byte % 16) as char]
}

fn hex_digit_of(value: u8) -> (digit: u8)
    requires
        value < 16,
    ensures
        digit == hex_digit(value),
        digit < 128,
{
    if value < 10 {
        48 + value
    } else {
        87 + value
    }
}

/// Writes a byte as two hexadecimal digits.
pub(crate) fn hex_byte(byte: u8) -> (text: String)
    ensures
        text@ == hex_of(byte),
{
    let digits: [u8; 2] = [hex_digit_of(byte / 16), hex_digit_of(byte % 16)];
    let text = ascii_text(&digits);
    assert(text@ =~= hex_of(byte));
    text
}

} // verus!
