//! Text primitives that the library's logic uses: a few standard library
//! functions with the contract that the standard library documents for them,
//! the numeric-text model that those contracts speak of, and verified
//! comparison, prefix and trimming of texts.
use vstd::prelude::*;
use vstd::string::*;
use vstd::utf8::*;

verus! {

/// The value of `b` as a digit in any radix up to 36: `0-9`, then `a-z` and
/// `A-Z` for 10 through 35 (the digit alphabet of `from_str_radix`).
pub open spec fn digit_value(b: u8) -> Option<nat> {
    if 48 <= b <= 57 {
        Some((b - 48) as nat)
    } else if 97 <= b <= 122 {
        Some((b - 87) as nat)
    } else if 65 <= b <= 90 {
        Some((b - 55) as nat)
    } else {
        None
    }
}

/// The value of a sequence of digits in the given radix, most significant
/// first; `None` when some byte is not a digit of that radix.
pub open spec fn digits_value(digits: Seq<u8>, radix: nat) -> Option<nat>
    decreases digits.len(),
{
    if digits.len() == 0 {
        Some(0)
    } else {
        match (digits_value(digits.drop_last(), radix), digit_value(digits.last())) {
            (Some(high), Some(low)) => if low < radix {
                Some(high * radix + low)
            } else {
                None
            },
            _ => None,
        }
    }
}

/// The number that an unsigned integer text denotes: an optional `+`
/// followed by at least one digit of the radix.
pub open spec fn unsigned_text_value(text: Seq<u8>, radix: nat) -> Option<nat> {
    let digits = if text.len() > 0 && text[0] == 43u8 {
        text.drop_first()
    } else {
        text
    };
    if digits.len() == 0 {
        None
    } else {
        digits_value(digits, radix)
    }
}

/// `text` with every occurrence of `from` replaced by `to`.
pub open spec fn replace_char_spec(text: Seq<char>, from: char, to: Seq<char>) -> Seq<char>
    decreases text.len(),
{
    if text.len() == 0 {
        Seq::empty()
    } else {
        replace_char_spec(text.drop_last(), from, to) + if text.last() == from {
            to
        } else {
            seq![text.last()]
        }
    }
}

/// What `String::from_utf8_lossy` makes of a byte sequence: the decoded text,
/// with each invalid sequence replaced by U+FFFD.
pub uninterp spec fn utf8_lossy(bytes: Seq<u8>) -> Seq<char>;

/// `String::push`: appends one character.
#[verifier::external_body]
pub(crate) fn string_push(text: &mut String, c: char)
    ensures
        final(text)@ == old(text)@.push(c),
{
    text.push(c)
}

/// `str::replace` with a character pattern: every occurrence of `from` is
/// replaced by `to`, as its documentation states.
#[verifier::external_body]
pub(crate) fn replace_char(text: &str, from: char, to: &str) -> (result: String)
    ensures
        result@ == replace_char_spec(text@, from, to@),
{
    text.replace(from, to)
}

/// The rest of `text` after `prefix` when `text` starts with it, and `None`
/// otherwise (as `str::strip_prefix`).
pub(crate) fn strip_prefix<'a>(text: &'a str, prefix: &str) -> (rest: Option<&'a str>)
    ensures
        rest is Some <==> (prefix@.len() <= text@.len() && text@.take(prefix@.len() as int)
            == prefix@),
        rest matches Some(r) ==> r@ == text@.skip(prefix@.len() as int),
{
    let n = prefix.unicode_len();
    let m = text.unicode_len();
    if n > m {
        return None;
    }
    let mut i: usize = 0;
    while i < n
        invariant
            n == prefix@.len(),
            m == text@.len(),
            n <= m,
            i <= n,
            forall|j: int| 0 <= j < i ==> text@[j] == prefix@[j],
        decreases n - i,
    {
        if text.get_char(i) != prefix.get_char(i) {
            assert(text@.take(n as int)[i as int] != prefix@[i as int]);
            return None;
        }
        i = i + 1;
    }
    assert(text@.take(n as int) =~= prefix@);
    let rest = text.substring_char(n, m);
    assert(rest@ =~= text@.skip(n as int));
    Some(rest)
}

/// `u8::from_str_radix`: `Ok` exactly when the text is an optional `+`
/// followed by at least one digit of the radix and the value fits in a `u8`.
/// It panics on a radix outside 2 to 36. The error's kind is not stated.
#[verifier::external_body]
pub(crate) fn u8_from_str_radix(text: &str, radix: u32) -> (result: Result<u8, std::num::ParseIntError>)
    requires
        2 <= radix <= 36,
    ensures
        result is Ok <==> (unsigned_text_value(text.spec_bytes(), radix as nat) matches Some(
            v,
        ) && v <= u8::MAX),
        result matches Ok(v) ==> unsigned_text_value(text.spec_bytes(), radix as nat) == Some(
            v as nat,
        ),
{
    u8::from_str_radix(text, radix)
}

/// `String::from_utf8_lossy`, made an owned `String`. Valid UTF-8 comes back
/// decoded as it is; what it makes of invalid sequences is only named.
#[verifier::external_body]
pub(crate) fn string_from_utf8_lossy(bytes: &[u8]) -> (text: String)
    ensures
        text@ == utf8_lossy(bytes@),
        valid_utf8(bytes@) ==> text@ == decode_utf8(bytes@),
{
    String::from_utf8_lossy(bytes).to_string()
}

/// The characters that `char::is_whitespace` accepts: those with the Unicode
/// `White_Space` property.
pub open spec fn is_white_space(c: char) -> bool {
    ||| '\u{9}' <= c <= '\u{d}'
    ||| c == ' '
    ||| c == '\u{85}'
    ||| c == '\u{a0}'
    ||| c == '\u{1680}'
    ||| '\u{2000}' <= c <= '\u{200a}'
    ||| c == '\u{2028}'
    ||| c == '\u{2029}'
    ||| c == '\u{202f}'
    ||| c == '\u{205f}'
    ||| c == '\u{3000}'
}

/// `text` without its leading white space.
pub open spec fn trim_start_spec(text: Seq<char>) -> Seq<char>
    decreases text.len(),
{
    if text.len() > 0 && is_white_space(text[0]) {
        trim_start_spec(text.drop_first())
    } else {
        text
    }
}

/// `text` without its trailing white space.
pub open spec fn trim_end_spec(text: Seq<char>) -> Seq<char>
    decreases text.len(),
{
    if text.len() > 0 && is_white_space(text.last()) {
        trim_end_spec(text.drop_last())
    } else {
        text
    }
}

/// `text` without leading and trailing white space.
pub open spec fn trim_spec(text: Seq<char>) -> Seq<char> {
    trim_start_spec(trim_end_spec(text))
}

/// `text` without the trailing characters that are `a` or `b`.
pub open spec fn trim_end_pair_spec(text: Seq<char>, a: char, b: char) -> Seq<char>
    decreases text.len(),
{
    if text.len() > 0 && (text.last() == a || text.last() == b) {
        trim_end_pair_spec(text.drop_last(), a, b)
    } else {
        text
    }
}

/// Whether `c` is white space, as `char::is_whitespace` decides.
fn is_white_space_char(c: char) -> (w: bool)
    ensures
        w == is_white_space(c),
{
    ('\u{9}' <= c && c <= '\u{d}') || c == ' ' || c == '\u{85}' || c == '\u{a0}' || c
        == '\u{1680}' || ('\u{2000}' <= c && c <= '\u{200a}') || c == '\u{2028}' || c
        == '\u{2029}' || c == '\u{202f}' || c == '\u{205f}' || c == '\u{3000}'
}

/// `text` without leading and trailing white space (as `str::trim`).
pub(crate) fn trim(text: &str) -> (trimmed: &str)
    ensures
        trimmed@ == trim_spec(text@),
{
    let n = text.unicode_len();
    let mut end: usize = n;
    assert(text@.take(n as int) =~= text@);
    while end > 0 && is_white_space_char(text.get_char(end - 1))
        invariant
            n == text@.len(),
            end <= n,
            trim_end_spec(text@.take(end as int)) == trim_end_spec(text@),
        decreases end,
    {
        assert(text@.take(end as int).drop_last() =~= text@.take(end - 1));
        end = end - 1;
    }
    assert(trim_end_spec(text@.take(end as int)) == text@.take(end as int));
    let mut start: usize = 0;
    assert(text@.subrange(0, end as int) =~= text@.take(end as int));
    while start < end && is_white_space_char(text.get_char(start))
        invariant
            n == text@.len(),
            start <= end <= n,
            trim_start_spec(text@.subrange(start as int, end as int)) == trim_start_spec(
                text@.take(end as int),
            ),
        decreases end - start,
    {
        assert(text@.subrange(start as int, end as int).drop_first() =~= text@.subrange(
            start + 1,
            end as int,
        ));
        start = start + 1;
    }
    if start == end {
        assert(text@.subrange(start as int, end as int) =~= Seq::<char>::empty());
    }
    assert(trim_start_spec(text@.subrange(start as int, end as int)) == text@.subrange(
        start as int,
        end as int,
    ));
    text.substring_char(start, end)
}

/// `text` without the trailing characters that are `a` or `b` (as
/// `str::trim_end_matches` with the pattern `[a, b]`).
pub(crate) fn trim_end_pair(text: &str, a: char, b: char) -> (trimmed: &str)
    ensures
        trimmed@ == trim_end_pair_spec(text@, a, b),
{
    let n = text.unicode_len();
    let mut end: usize = n;
    assert(text@.take(n as int) =~= text@);
    while end > 0 && (text.get_char(end - 1) == a || text.get_char(end - 1) == b)
        invariant
            n == text@.len(),
            end <= n,
            trim_end_pair_spec(text@.take(end as int), a, b) == trim_end_pair_spec(text@, a, b),
        decreases end,
    {
        assert(text@.take(end as int).drop_last() =~= text@.take(end - 1));
        end = end - 1;
    }
    assert(trim_end_pair_spec(text@.take(end as int), a, b) == text@.take(end as int));
    let trimmed = text.substring_char(0, end);
    assert(trimmed@ =~= text@.take(end as int));
    trimmed
}

/// `str::parse::<usize>`: `Ok` exactly when the text is an optional `+`
/// followed by at least one decimal digit and the value fits in a `usize`.
/// The error's kind is not stated.
#[verifier::external_body]
pub(crate) fn parse_usize(text: &str) -> (result: Result<usize, std::num::ParseIntError>)
    ensures
        result is Ok <==> (unsigned_text_value(text.spec_bytes(), 10) matches Some(v) && v
            <= usize::MAX),
        result matches Ok(v) ==> unsigned_text_value(text.spec_bytes(), 10) == Some(v as nat),
{
    text.parse::<usize>()
}

/// Whether two texts are equal, compared byte by byte on their UTF-8
/// encodings.
pub(crate) fn str_equals(a: &str, b: &str) -> (equal: bool)
    ensures
        equal == (a@ == b@),
{
    let x = a.as_bytes();
    let y = b.as_bytes();
    proof {
        encode_utf8_decode_utf8(a@);
        encode_utf8_decode_utf8(b@);
    }
    if x.len() != y.len() {
        assert(x@ != y@);
        return false;
    }
    let mut i: usize = 0;
    while i < x.len()
        invariant
            x@ == a.spec_bytes(),
            y@ == b.spec_bytes(),
            x@.len() == y@.len(),
            i <= x@.len(),
            forall|j: int| 0 <= j < i ==> x@[j] == y@[j],
        decreases x@.len() - i,
    {
        if x[i] != y[i] {
            assert(x@[i as int] != y@[i as int]);
            return false;
        }
        i = i + 1;
    }
    assert(x@ =~= y@);
    true
}

#[verifier::external_type_specification]
#[verifier::external_body]
pub struct ExParseIntError(std::num::ParseIntError);

} // verus!
