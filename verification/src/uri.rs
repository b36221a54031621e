//! Conversion between file paths and `file://` URIs: the path's UTF-8 bytes
//! are percent-encoded outside an unreserved set, and decoded back.
use vstd::prelude::*;
use vstd::string::*;
use vstd::utf8::*;
use crate::text::{
    replace_char, replace_char_spec, string_from_utf8_lossy, string_push, u8_from_str_radix,
    digit_value, digits_value, strip_prefix, unsigned_text_value, utf8_lossy,
};

verus! {

broadcast use vstd::seq_lib::group_seq_properties;

/// The bytes that stand for themselves in an encoded path: ASCII letters and
/// digits and `/ . - _ ~`.
pub open spec fn is_unreserved(b: u8) -> bool {
    ||| 65 <= b <= 90
    ||| 97 <= b <= 122
    ||| 48 <= b <= 57
    ||| b == 47
    ||| b == 46
    ||| b == 45
    ||| b == 95
    ||| b == 126
}

/// The upper-case hexadecimal digit of a value below 16, as a byte.
pub open spec fn hex_digit_byte(n: u8) -> u8 {
    if n < 10 {
        (n + 48) as u8
    } else {
        (n + 55) as u8
    }
}

/// How one byte of a path is written in a URI: itself when unreserved,
/// otherwise `%` and two upper-case hexadecimal digits.
pub open spec fn encode_byte(b: u8) -> Seq<char> {
    if is_unreserved(b) {
        seq![b as char]
    } else {
        seq!['%', hex_digit_byte(b / 16) as char, hex_digit_byte(b % 16) as char]
    }
}

/// The percent-encoding of a byte sequence, byte by byte.
pub open spec fn percent_encode(bytes: Seq<u8>) -> Seq<char>
    decreases bytes.len(),
{
    if bytes.len() == 0 {
        Seq::empty()
    } else {
        encode_byte(bytes[0]) + percent_encode(bytes.drop_first())
    }
}

/// The byte that an escape at the start of `bytes` denotes: `bytes` starts with
/// `%` followed by two more bytes that `u8::from_str_radix` reads in base 16.
pub open spec fn escape_value(bytes: Seq<u8>) -> Option<u8> {
    if bytes.len() > 2 && bytes[0] == 37u8 {
        match unsigned_text_value(bytes.subrange(1, 3), 16) {
            Some(v) => if v <= 255 {
                Some(v as u8)
            } else {
                None
            },
            None => None,
        }
    } else {
        None
    }
}

/// Percent-decoding, scanning from the left: an escape becomes the byte it
/// denotes, and every other byte, a `%` that starts no valid escape among
/// them, is kept.
pub open spec fn percent_decode(bytes: Seq<u8>) -> Seq<u8>
    decreases bytes.len(),
{
    if bytes.len() == 0 {
        Seq::empty()
    } else {
        match escape_value(bytes) {
            Some(v) => seq![v] + percent_decode(bytes.skip(3)),
            None => seq![bytes[0]] + percent_decode(bytes.drop_first()),
        }
    }
}

/// The two bytes after every `%` that has two bytes after it lie between
/// character boundaries: the condition under which reading an escape's digits
/// as a sub-string is defined.
pub open spec fn escapes_on_boundaries(bytes: Seq<u8>) -> bool {
    forall|i: int|
        #![trigger bytes[i]]
        0 <= i && i + 2 < bytes.len() && bytes[i] == 37u8 ==> is_char_boundary(bytes, i + 1)
            && is_char_boundary(bytes, i + 3)
}

/// The URI scheme prefix `file://`.
pub open spec fn file_scheme() -> Seq<char> {
    seq!['f', 'i', 'l', 'e', ':', '/', '/']
}

/// A path with backslashes turned into slashes and a leading slash added when
/// it has none.
pub open spec fn normalize_path(path: Seq<char>) -> Seq<char> {
    let slashed = replace_char_spec(path, '\\', seq!['/']);
    if slashed.len() > 0 && slashed[0] == '/' {
        slashed
    } else {
        seq!['/'] + slashed
    }
}

/// The `file://` URI of a path.
pub open spec fn path_to_uri_spec(path: Seq<char>) -> Seq<char> {
    file_scheme() + percent_encode(encode_utf8(normalize_path(path)))
}

/// Whether a text starts with `file://`.
pub open spec fn has_file_scheme(uri: Seq<char>) -> bool {
    7 <= uri.len() && uri.take(7) == file_scheme()
}

/// The bytes that the path part of a `file://` URI decodes to.
pub open spec fn decoded_path_bytes(uri: Seq<char>) -> Seq<u8> {
    percent_decode(encode_utf8(uri.skip(7)))
}

/// The URIs that `uri_to_path` is defined on: those without the `file://`
/// scheme, and those whose escapes lie on character boundaries.
pub open spec fn uri_decodable(uri: Seq<char>) -> bool {
    has_file_scheme(uri) ==> escapes_on_boundaries(encode_utf8(uri.skip(7)))
}

/// Writes a path as a `file://` URI: backslashes become slashes, a leading
/// slash is added where missing, and the UTF-8 bytes of the result are
/// percent-encoded outside the unreserved set.
pub fn path_to_uri(path: &str) -> (uri: String)
    ensures
        uri@ == path_to_uri_spec(path@),
{
    let slashed = replace_char(path, '\\', "/");
    proof {
        reveal_strlit("/");
        assert("/"@ =~= seq!['/']);
    }
    let starts_with_slash = slashed.as_str().unicode_len() > 0 && slashed.as_str().get_char(0)
        == '/';
    let value = if starts_with_slash {
        slashed
    } else {
        let mut prefixed = String::new();
        string_push(&mut prefixed, '/');
        prefixed.append(slashed.as_str());
        assert(prefixed@ =~= seq!['/'] + slashed@);
        prefixed
    };
    assert(value@ == normalize_path(path@));
    let encoded = encode_path(value.as_str());
    let mut uri = String::new();
    proof {
        reveal_strlit("file://");
        assert("file://"@ =~= file_scheme());
    }
    uri.append("file://");
    uri.append(encoded.as_str());
    assert(uri@ =~= path_to_uri_spec(path@));
    uri
}

/// Reads the path out of a `file://` URI; `None` for any other text.
pub fn uri_to_path(uri: &str) -> (path: Option<String>)
    requires
        uri_decodable(uri@),
    ensures
        path is Some <==> has_file_scheme(uri@),
        path matches Some(p) ==> p@ == utf8_lossy(decoded_path_bytes(uri@)),
        path matches Some(p) ==> (valid_utf8(decoded_path_bytes(uri@)) ==> p@ == decode_utf8(
            decoded_path_bytes(uri@),
        )),
{
    proof {
        reveal_strlit("file://");
        assert("file://"@ =~= file_scheme());
    }
    match strip_prefix(uri, "file://") {
        Some(value) => {
            assert(value@ == uri@.skip(7));
            Some(decode_path(value))
        },
        None => None,
    }
}

/// Whether `uri_to_path` is defined on `uri`: it is not a `file://` URI, or
/// the two bytes after each `%` of its path lie between character
/// boundaries.
pub fn is_uri_decodable(uri: &str) -> (decodable: bool)
    ensures
        decodable == uri_decodable(uri@),
{
    proof {
        reveal_strlit("file://");
        assert("file://"@ =~= file_scheme());
    }
    match strip_prefix(uri, "file://") {
        Some(value) => escapes_lie_on_boundaries(value),
        None => true,
    }
}

/// Whether the two bytes after each `%` of `value` that has two bytes after
/// it lie between character boundaries.
pub fn escapes_lie_on_boundaries(value: &str) -> (aligned: bool)
    ensures
        aligned == escapes_on_boundaries(value.spec_bytes()),
{
    let bytes = value.as_bytes();
    let ghost all = value.spec_bytes();
    proof {
        encode_utf8_valid_utf8(value@);
        is_char_boundary_start_end_of_seq(all);
    }
    let mut i: usize = 0;
    while i < bytes.len()
        invariant
            bytes@ == all,
            all == value.spec_bytes(),
            valid_utf8(all),
            is_char_boundary(all, all.len() as int),
            0 <= i <= all.len(),
            forall|j: int|
                #![trigger all[j]]
                0 <= j < i && j + 2 < all.len() && all[j] == 37u8 ==> is_char_boundary(all, j + 1)
                    && is_char_boundary(all, j + 3),
        decreases all.len() - i,
    {
        if bytes[i] == 37u8 && bytes.len() - i > 2 {
            proof {
                is_char_boundary_iff_not_is_continuation_byte(all, i + 1);
                if i + 3 < all.len() {
                    is_char_boundary_iff_not_is_continuation_byte(all, i + 3);
                }
            }
            let next = bytes[i + 1];
            if 0x80 <= next && next <= 0xbf {
                assert(all[i as int] == 37u8);
                assert(!is_char_boundary(all, i + 1));
                return false;
            }
            if bytes.len() - i > 3 {
                let after = bytes[i + 3];
                if 0x80 <= after && after <= 0xbf {
                    assert(all[i as int] == 37u8);
                    assert(!is_char_boundary(all, i + 3));
                    return false;
                }
            }
        }
        i = i + 1;
    }
    true
}

/// The percent-encoding of the UTF-8 bytes of `value`.
pub fn encode_path(value: &str) -> (encoded: String)
    ensures
        encoded@ == percent_encode(value.spec_bytes()),
{
    let bytes = value.as_bytes();
    let mut output = String::new();
    let mut i: usize = 0;
    while i < bytes.len()
        invariant
            bytes@ == value.spec_bytes(),
            0 <= i <= bytes@.len(),
            output@ == percent_encode(bytes@.take(i as int)),
        decreases bytes@.len() - i,
    {
        let byte = bytes[i];
        let ghost before = output@;
        if is_unreserved_byte(byte) {
            string_push(&mut output, byte as char);
        } else {
            string_push(&mut output, '%');
            string_push(&mut output, hex_digit(byte / 16));
            string_push(&mut output, hex_digit(byte % 16));
        }
        assert(output@ == before + encode_byte(byte));
        proof {
            lemma_percent_encode_concat(bytes@.take(i as int), seq![byte]);
            assert(bytes@.take(i + 1) =~= bytes@.take(i as int) + seq![byte]);
            assert(percent_encode(seq![byte]) =~= encode_byte(byte)) by {
                assert(seq![byte].drop_first() =~= Seq::<u8>::empty());
                assert(percent_encode(Seq::<u8>::empty()) =~= Seq::<char>::empty());
            }
        }
        i = i + 1;
    }
    assert(bytes@.take(bytes@.len() as int) =~= bytes@);
    output
}

/// The bytes that `value` percent-decodes to.
pub fn decode_bytes(value: &str) -> (decoded: Vec<u8>)
    requires
        escapes_on_boundaries(value.spec_bytes()),
    ensures
        decoded@ == percent_decode(value.spec_bytes()),
{
    let mut output: Vec<u8> = Vec::new();
    let bytes = value.as_bytes();
    let ghost all = value.spec_bytes();
    proof {
        encode_utf8_valid_utf8(value@);
        assert(all.skip(0) =~= all);
    }
    let mut index: usize = 0;
    while index < bytes.len()
        invariant
            bytes@ == all,
            all == value.spec_bytes(),
            valid_utf8(all),
            escapes_on_boundaries(all),
            0 <= index <= all.len(),
            output@ + percent_decode(all.skip(index as int)) == percent_decode(all),
        decreases all.len() - index,
    {
        let escaped = read_escape(value, bytes, index);
        proof {
            lemma_percent_decode_step(all, index as int);
        }
        let ghost before = output@;
        match escaped {
            Some(v) => {
                output.push(v);
                index = index + 3;
            },
            None => {
                output.push(bytes[index]);
                index = index + 1;
            },
        }
        assert(output@ =~= before + output@.subrange(before.len() as int, output@.len() as int));
    }
    assert(all.skip(index as int) =~= Seq::<u8>::empty());
    assert(output@ =~= percent_decode(all));
    output
}

/// Percent-decodes `value` and reads the resulting bytes as UTF-8, replacing
/// invalid sequences.
pub fn decode_path(value: &str) -> (decoded: String)
    requires
        escapes_on_boundaries(value.spec_bytes()),
    ensures
        decoded@ == utf8_lossy(percent_decode(value.spec_bytes())),
        valid_utf8(percent_decode(value.spec_bytes())) ==> decoded@ == decode_utf8(
            percent_decode(value.spec_bytes()),
        ),
{
    let output = decode_bytes(value);
    string_from_utf8_lossy(output.as_slice())
}

/// The byte that an escape at `index` denotes, read as `decode_path` reads it:
/// the two bytes after the `%` are taken as a sub-string and given to
/// `u8::from_str_radix` in base 16.
fn read_escape(value: &str, bytes: &[u8], index: usize) -> (escaped: Option<u8>)
    requires
        bytes@ == value.spec_bytes(),
        escapes_on_boundaries(value.spec_bytes()),
        index < bytes@.len(),
    ensures
        escaped == escape_value(value.spec_bytes().skip(index as int)),
{
    let ghost all = value.spec_bytes();
    let ghost rest = all.skip(index as int);
    if bytes[index] == 37u8 && bytes.len() - index > 2 {
        proof {
            encode_utf8_valid_utf8(value@);
            lemma_escape_digits_boundary(all, index as int);
        }
        let (_, tail) = value.split_at(index + 1);
        let (digits, _) = tail.split_at(2);
        assert(digits.spec_bytes() =~= all.subrange(index + 1, index + 3));
        assert(rest.subrange(1, 3) =~= all.subrange(index + 1, index + 3));
        match u8_from_str_radix(digits, 16) {
            Ok(v) => Some(v),
            Err(_) => None,
        }
    } else {
        None
    }
}

/// One step of `percent_decode` at position `index` of `all`.
proof fn lemma_percent_decode_step(all: Seq<u8>, index: int)
    requires
        0 <= index < all.len(),
    ensures
        percent_decode(all.skip(index)) == match escape_value(all.skip(index)) {
            Some(v) => seq![v] + percent_decode(all.skip(index + 3)),
            None => seq![all[index]] + percent_decode(all.skip(index + 1)),
        },
        escape_value(all.skip(index)) is Some ==> index + 3 <= all.len(),
{
    let rest = all.skip(index);
    if escape_value(rest) is Some {
        assert(rest.skip(3) =~= all.skip(index + 3));
    }
    assert(rest.drop_first() =~= all.skip(index + 1));
}

fn is_unreserved_byte(b: u8) -> (r: bool)
    ensures
        r == is_unreserved(b),
{
    (65 <= b && b <= 90) || (97 <= b && b <= 122) || (48 <= b && b <= 57) || b == 47 || b == 46
        || b == 45 || b == 95 || b == 126
}

fn hex_digit(n: u8) -> (c: char)
    requires
        n < 16,
    ensures
        c == hex_digit_byte(n) as char,
{
    if n < 10 {
        (n + 48) as char
    } else {
        (n + 55) as char
    }
}

proof fn lemma_escape_digits_boundary(bytes: Seq<u8>, i: int)
    requires
        valid_utf8(bytes),
        escapes_on_boundaries(bytes),
        0 <= i,
        i + 2 < bytes.len(),
        bytes[i] == 37u8,
    ensures
        is_char_boundary(bytes, i + 1),
        is_char_boundary(bytes.subrange(i + 1, bytes.len() as int), 2),
{
    assert(bytes[i] == 37u8);
    valid_utf8_split(bytes, i + 1);
    let tail = bytes.subrange(i + 1, bytes.len() as int);
    if i + 3 == bytes.len() {
        is_char_boundary_start_end_of_seq(tail);
    } else {
        is_char_boundary_iff_not_is_continuation_byte(bytes, i + 3);
        is_char_boundary_iff_not_is_continuation_byte(tail, 2);
    }
}

/// Percent-encoding a concatenation encodes each part.
pub proof fn lemma_percent_encode_concat(a: Seq<u8>, b: Seq<u8>)
    ensures
        percent_encode(a + b) == percent_encode(a) + percent_encode(b),
    decreases a.len(),
{
    if a.len() == 0 {
        assert(a + b =~= b);
    } else {
        lemma_percent_encode_concat(a.drop_first(), b);
        assert((a + b).drop_first() =~= a.drop_first() + b);
        assert((a + b)[0] == a[0]);
    }
}

/// The ASCII bytes of an ASCII character sequence.
pub open spec fn ascii_bytes(chars: Seq<char>) -> Seq<u8> {
    chars.map_values(|c: char| c as u8)
}

/// Every character of a percent-encoding is ASCII.
pub proof fn lemma_percent_encode_ascii(bytes: Seq<u8>)
    ensures
        is_ascii_chars(percent_encode(bytes)),
    decreases bytes.len(),
{
    if bytes.len() > 0 {
        lemma_percent_encode_ascii(bytes.drop_first());
        let head = encode_byte(bytes[0]);
        let tail = percent_encode(bytes.drop_first());
        assert(is_ascii_chars(head));
        assert forall|i: int| 0 <= i < (head + tail).len() implies '\0' <= #[trigger] (head
            + tail)[i] <= '\u{7f}' by {
            if i < head.len() {
                assert((head + tail)[i] == head[i]);
            } else {
                assert((head + tail)[i] == tail[i - head.len()]);
            }
        }
    }
}

/// The UTF-8 bytes of a percent-encoding are its characters as bytes.
pub proof fn lemma_percent_encode_utf8(bytes: Seq<u8>)
    ensures
        encode_utf8(percent_encode(bytes)) == ascii_bytes(percent_encode(bytes)),
{
    let chars = percent_encode(bytes);
    lemma_percent_encode_ascii(bytes);
    is_ascii_chars_encode_utf8(chars);
    assert(encode_utf8(chars) =~= ascii_bytes(chars));
}

/// The value of a base-16 digit byte.
proof fn lemma_hex_digit_value(n: u8)
    requires
        n < 16,
    ensures
        digit_value(hex_digit_byte(n)) == Some(n as nat),
        hex_digit_byte(n) != 43u8,
        hex_digit_byte(n) != 37u8,
        (hex_digit_byte(n) as char) as u8 == hex_digit_byte(n),
{
}

/// Each byte of a path is written as itself when it is an ASCII letter or
/// digit or one of `/ . - _ ~`, and otherwise as `%` followed by two
/// upper-case hexadecimal digits, high first, whose value is the byte.
pub proof fn lemma_encoded_byte_form(b: u8)
    ensures
        (65 <= b <= 90 || 97 <= b <= 122 || 48 <= b <= 57 || b == 47 || b == 46 || b == 45 || b
            == 95 || b == 126) ==> percent_encode(seq![b]) == seq![b as char],
        !(65 <= b <= 90 || 97 <= b <= 122 || 48 <= b <= 57 || b == 47 || b == 46 || b == 45 || b
            == 95 || b == 126) ==> {
            let e = percent_encode(seq![b]);
            &&& e.len() == 3
            &&& e[0] == '%'
            &&& ('0' <= e[1] <= '9' || 'A' <= e[1] <= 'F')
            &&& ('0' <= e[2] <= '9' || 'A' <= e[2] <= 'F')
            &&& digit_value(e[1] as u8) == Some((b / 16) as nat)
            &&& digit_value(e[2] as u8) == Some((b % 16) as nat)
        },
{
    assert(seq![b].drop_first() =~= Seq::<u8>::empty());
    assert(percent_encode(Seq::<u8>::empty()) =~= Seq::<char>::empty());
    assert(percent_encode(seq![b]) =~= encode_byte(b));
    lemma_hex_digit_value(b / 16);
    lemma_hex_digit_value(b % 16);
}

/// Decoding the escape of one byte, followed by anything, gives back that byte
/// followed by the decoding of the rest.
pub proof fn lemma_decode_encoded_byte(x: u8, rest: Seq<u8>)
    ensures
        percent_decode(ascii_bytes(encode_byte(x)) + rest) == seq![x] + percent_decode(rest),
{
    let s = ascii_bytes(encode_byte(x)) + rest;
    if is_unreserved(x) {
        assert(s[0] == x);
        assert(s.drop_first() =~= rest);
    } else {
        let hi = x / 16;
        let lo = x % 16;
        lemma_hex_digit_value(hi);
        lemma_hex_digit_value(lo);
        let h = hex_digit_byte(hi);
        let l = hex_digit_byte(lo);
        assert(s[0] == 37u8);
        assert(s[1] == h);
        assert(s[2] == l);
        let digits = s.subrange(1, 3);
        assert(digits =~= seq![h, l]);
        assert(digits.drop_last() =~= seq![h]);
        assert(digits.drop_last().drop_last() =~= Seq::<u8>::empty());
        assert(seq![h].drop_last() =~= Seq::<u8>::empty());
        assert(seq![h].last() == h);
        assert(digits_value(Seq::<u8>::empty(), 16) == Some(0nat));
        assert(digits_value(seq![h], 16) == Some(hi as nat));
        assert(x == hi * 16 + lo);
        assert(unsigned_text_value(digits, 16) == Some(x as nat));
        assert(escape_value(s) == Some(x));
        assert(s.skip(3) =~= rest);
    }
}

/// Decoding undoes percent-encoding, for every byte sequence.
pub proof fn lemma_percent_decode_encode(bytes: Seq<u8>)
    ensures
        percent_decode(ascii_bytes(percent_encode(bytes))) == bytes,
    decreases bytes.len(),
{
    if bytes.len() == 0 {
        assert(ascii_bytes(percent_encode(bytes)) =~= Seq::<u8>::empty());
    } else {
        let head = encode_byte(bytes[0]);
        let tail = percent_encode(bytes.drop_first());
        assert(ascii_bytes(head + tail) =~= ascii_bytes(head) + ascii_bytes(tail));
        lemma_decode_encoded_byte(bytes[0], ascii_bytes(tail));
        lemma_percent_decode_encode(bytes.drop_first());
        assert(seq![bytes[0]] + bytes.drop_first() =~= bytes);
    }
}

/// In the UTF-8 bytes of an ASCII text every position is a character
/// boundary, so its escapes lie on boundaries.
pub proof fn lemma_ascii_escapes_on_boundaries(chars: Seq<char>)
    requires
        is_ascii_chars(chars),
    ensures
        escapes_on_boundaries(encode_utf8(chars)),
{
    let bytes = encode_utf8(chars);
    encode_utf8_valid_utf8(chars);
    is_ascii_chars_encode_utf8(chars);
    is_char_boundary_start_end_of_seq(bytes);
    assert forall|j: int| 0 <= j <= bytes.len() implies is_char_boundary(bytes, j) by {
        if j < bytes.len() {
            assert(chars[j] as u8 == bytes[j]);
            is_char_boundary_iff_not_is_continuation_byte(bytes, j);
        }
    }
}

/// Round trip: the URI that `path_to_uri` writes for any path is accepted by
/// `uri_to_path`, and reads back as the path with backslashes turned into
/// slashes and a leading slash.
pub proof fn lemma_uri_round_trip(path: Seq<char>)
    ensures
        has_file_scheme(path_to_uri_spec(path)),
        uri_decodable(path_to_uri_spec(path)),
        valid_utf8(decoded_path_bytes(path_to_uri_spec(path))),
        decode_utf8(decoded_path_bytes(path_to_uri_spec(path))) == normalize_path(path),
{
    let bytes = encode_utf8(normalize_path(path));
    let encoded = percent_encode(bytes);
    let uri = path_to_uri_spec(path);
    assert(uri.take(7) =~= file_scheme());
    assert(uri.skip(7) =~= encoded);
    lemma_percent_encode_ascii(bytes);
    lemma_ascii_escapes_on_boundaries(encoded);
    lemma_percent_encode_utf8(bytes);
    lemma_percent_decode_encode(bytes);
    encode_utf8_valid_utf8(normalize_path(path));
    encode_utf8_decode_utf8(normalize_path(path));
}

/// After replacing backslashes by slashes no backslash is left.
proof fn lemma_slashed_has_no_backslash(path: Seq<char>)
    ensures
        forall|i: int|
            0 <= i < replace_char_spec(path, '\\', seq!['/']).len() ==> #[trigger] replace_char_spec(
                path,
                '\\',
                seq!['/'],
            )[i] != '\\',
    decreases path.len(),
{
    if path.len() > 0 {
        lemma_slashed_has_no_backslash(path.drop_last());
        let init = replace_char_spec(path.drop_last(), '\\', seq!['/']);
        let tail = if path.last() == '\\' { seq!['/'] } else { seq![path.last()] };
        assert forall|i: int| 0 <= i < (init + tail).len() implies #[trigger] (init + tail)[i] != '\\' by {
            if i < init.len() {
                assert((init + tail)[i] == init[i]);
            } else {
                assert((init + tail)[i] == tail[i - init.len()]);
            }
        }
    }
}

/// Replacing backslashes leaves a text without backslashes as it is.
proof fn lemma_slashed_without_backslash(path: Seq<char>)
    requires
        forall|i: int| 0 <= i < path.len() ==> #[trigger] path[i] != '\\',
    ensures
        replace_char_spec(path, '\\', seq!['/']) == path,
    decreases path.len(),
{
    if path.len() > 0 {
        assert forall|i: int| 0 <= i < path.drop_last().len() implies #[trigger] path.drop_last()[i] != '\\' by {
            assert(path.drop_last()[i] == path[i]);
        }
        lemma_slashed_without_backslash(path.drop_last());
        assert(path.last() != '\\');
        assert(path.drop_last() + seq![path.last()] =~= path);
    }
}

/// Normalizing a normalized path changes nothing, so a path and its
/// normalized form have the same URI.
pub proof fn lemma_normalize_idempotent(path: Seq<char>)
    ensures
        normalize_path(normalize_path(path)) == normalize_path(path),
        path_to_uri_spec(normalize_path(path)) == path_to_uri_spec(path),
{
    let slashed = replace_char_spec(path, '\\', seq!['/']);
    let normal = normalize_path(path);
    lemma_slashed_has_no_backslash(path);
    assert forall|i: int| 0 <= i < normal.len() implies #[trigger] normal[i] != '\\' by {
        if !(slashed.len() > 0 && slashed[0] == '/') {
            if i > 0 {
                assert(normal[i] == slashed[i - 1]);
            }
        }
    }
    lemma_slashed_without_backslash(normal);
    assert(normal.len() > 0 && normal[0] == '/');
}

} // verus!
