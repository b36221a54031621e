//! JSON-RPC messages of the Language Server Protocol: the header lines that
//! frame a message, the message read out of a body, and the messages the
//! server writes with their frames.
use vstd::prelude::*;
use vstd::string::*;
use vstd::utf8::*;
use vstd::slice::slice_to_vec;
use crate::json::{
    json_clone, json_data, json_from_slice, json_get, json_as_str, json_i64, json_map_data,
    insert_member, json_map_new, json_null, json_object, json_parse, json_string, json_text,
    json_to_vec, no_members, object_get, object_get2, opt_value_data, JsonData, JsonMap,
};
use crate::text::{
    digit_value, digits_value, is_white_space, parse_usize, strip_prefix, trim, trim_end_pair,
    trim_end_pair_spec, trim_end_spec, trim_spec, trim_start_spec, unsigned_text_value,
};

verus! {

/// A message read from the client: its id (requests have one), its method,
/// and its parameters (`null` when it has none).
pub struct Message {
    pub id: Option<serde_json::Value>,
    pub method: Option<String>,
    pub params: serde_json::Value,
}

/// What one header line tells the reader.
#[derive(Clone, Copy, Debug, PartialEq, Eq)]
pub enum HeaderLine {
    /// The blank line that ends a header that gave the length of the body:
    /// a body of that many bytes follows.
    Body(usize),
    /// The blank line that ends a header that gave no length: there is no
    /// message to read.
    NoMessage,
    /// A header field; the content length known so far.
    Continue(Option<usize>),
}

/// The name of the header field that gives the length of the body, with its
/// colon.
pub open spec fn content_length_field() -> Seq<char> {
    seq!['C', 'o', 'n', 't', 'e', 'n', 't', '-', 'L', 'e', 'n', 'g', 't', 'h', ':']
}

/// What a header line read after `known` tells: `None` when it is a
/// `Content-Length` field whose value is not a `usize`.
pub open spec fn header_step(known: Option<usize>, line: Seq<char>) -> Option<HeaderLine> {
    let trimmed = trim_end_pair_spec(line, '\r', '\n');
    if trimmed.len() == 0 {
        match known {
            Some(n) => Some(HeaderLine::Body(n)),
            None => Some(HeaderLine::NoMessage),
        }
    } else if 15 <= trimmed.len() && trimmed.take(15) == content_length_field() {
        match unsigned_text_value(encode_utf8(trim_spec(trimmed.skip(15))), 10) {
            Some(n) => if n <= usize::MAX {
                Some(HeaderLine::Continue(Some(n as usize)))
            } else {
                None
            },
            None => None,
        }
    } else {
        Some(HeaderLine::Continue(known))
    }
}

/// Reads one header line, given the content length known so far. A blank
/// line (line breaks aside) ends the header, with a body of the known length
/// to read, or no message when no length is known; a `Content-Length:` field sets
/// the length, and its value must parse as a `usize`; other fields are
/// skipped.
pub fn header_line(known: Option<usize>, line: &str) -> (step: Result<
    HeaderLine,
    std::num::ParseIntError,
>)
    ensures
        match step {
            Ok(h) => header_step(known, line@) == Some(h),
            Err(_) => header_step(known, line@) is None,
        },
{
    let trimmed = trim_end_pair(line, '\r', '\n');
    if trimmed.is_empty() {
        return Ok(
            match known {
                Some(n) => HeaderLine::Body(n),
                None => HeaderLine::NoMessage,
            },
        );
    }
    proof {
        reveal_strlit("Content-Length:");
        assert("Content-Length:"@ =~= content_length_field());
    }
    match strip_prefix(trimmed, "Content-Length:") {
        Some(value) => match parse_usize(trim(value)) {
            Ok(length) => Ok(HeaderLine::Continue(Some(length))),
            Err(error) => Err(error),
        },
        None => Ok(HeaderLine::Continue(known)),
    }
}

/// The method of a message: the text of its `method` member.
pub open spec fn method_of(data: JsonData) -> Option<Seq<char>> {
    match object_get(data, "method"@) {
        Some(JsonData::Str(s)) => Some(s),
        _ => None,
    }
}

/// The parameters of a message: its `params` member, `null` when missing.
pub open spec fn params_of(data: JsonData) -> JsonData {
    match object_get(data, "params"@) {
        Some(p) => p,
        None => JsonData::Null,
    }
}

/// Reads a message out of a JSON value: the id and the parameters are its
/// `id` and `params` members and the method the text of its `method` member.
pub fn message_from_value(value: &serde_json::Value) -> (message: Message)
    ensures
        opt_value_data(message.id) == object_get(json_data(*value), "id"@),
        match message.method {
            Some(s) => method_of(json_data(*value)) == Some(s@),
            None => method_of(json_data(*value)) is None,
        },
        json_data(message.params) == params_of(json_data(*value)),
{
    let id = match json_get(value, "id") {
        Some(v) => Some(json_clone(v)),
        None => None,
    };
    let method = match json_get(value, "method") {
        Some(v) => match json_as_str(v) {
            Some(s) => Some(String::from_str(s)),
            None => None,
        },
        None => None,
    };
    let params = match json_get(value, "params") {
        Some(v) => json_clone(v),
        None => json_null(),
    };
    Message { id, method, params }
}

/// Reads a message out of a body: the body must be JSON, and the message is
/// read out of the value it holds.
pub fn message_from_body(body: &[u8]) -> (message: Result<Message, serde_json::Error>)
    ensures
        message is Ok <==> json_parse(body@) is Some,
        message matches Ok(m) ==> {
            let data = json_parse(body@).unwrap();
            &&& opt_value_data(m.id) == object_get(data, "id"@)
            &&& (match m.method {
                Some(s) => method_of(data) == Some(s@),
                None => method_of(data) is None,
            })
            &&& json_data(m.params) == params_of(data)
        },
{
    match json_from_slice(body) {
        Ok(value) => Ok(message_from_value(&value)),
        Err(error) => Err(error),
    }
}

/// The JSON-RPC version member of every message the server writes.
pub open spec fn jsonrpc_members() -> Map<Seq<char>, JsonData> {
    no_members().insert("jsonrpc"@, JsonData::Str("2.0"@))
}

/// A response: `{jsonrpc, id, result}`.
pub open spec fn response_data(id: JsonData, result: JsonData) -> JsonData {
    JsonData::Object(jsonrpc_members().insert("id"@, id).insert("result"@, result))
}

/// The JSON number of an `i64`.
pub open spec fn i64_data(n: i64) -> JsonData {
    if n < 0 {
        JsonData::NegInt(n)
    } else {
        JsonData::PosInt(n as u64)
    }
}

/// An error response: `{jsonrpc, id, error: {code, message}}`.
pub open spec fn error_data(id: JsonData, code: i64, message: Seq<char>) -> JsonData {
    JsonData::Object(
        jsonrpc_members().insert("id"@, id).insert(
            "error"@,
            JsonData::Object(
                no_members().insert("code"@, i64_data(code)).insert(
                    "message"@,
                    JsonData::Str(message),
                ),
            ),
        ),
    )
}

/// A notification: `{jsonrpc, method, params}`.
pub open spec fn notification_data(method: Seq<char>, params: JsonData) -> JsonData {
    JsonData::Object(
        jsonrpc_members().insert("method"@, JsonData::Str(method)).insert("params"@, params),
    )
}

/// A response carries the id of its request.
pub proof fn lemma_response_id(id: JsonData, result: JsonData)
    ensures
        object_get(response_data(id, result), "id"@) == Some(id),
{
    reveal_strlit("id");
    reveal_strlit("result");
    assert("id"@.len() != "result"@.len());
}

/// An error response carries the id of its request.
pub proof fn lemma_error_id(id: JsonData, code: i64, message: Seq<char>)
    ensures
        object_get(error_data(id, code, message), "id"@) == Some(id),
{
    reveal_strlit("id");
    reveal_strlit("error");
    assert("id"@.len() != "error"@.len());
}

/// A notification carries no id, and its method.
pub proof fn lemma_notification_members(method: Seq<char>, params: JsonData)
    ensures
        object_get(notification_data(method, params), "id"@) is None,
        object_get(notification_data(method, params), "method"@) == Some(JsonData::Str(method)),
{
    reveal_strlit("id");
    reveal_strlit("jsonrpc");
    reveal_strlit("method");
    reveal_strlit("params");
    assert("id"@.len() != "jsonrpc"@.len());
    assert("id"@.len() != "method"@.len());
    assert("id"@.len() != "params"@.len());
    assert("method"@[0] != "params"@[0]);
}

/// A response carries the JSON-RPC version, the request's id and the result.
pub proof fn lemma_response_members(id: JsonData, result: JsonData)
    ensures
        object_get(response_data(id, result), "jsonrpc"@) == Some(JsonData::Str("2.0"@)),
        object_get(response_data(id, result), "id"@) == Some(id),
        object_get(response_data(id, result), "result"@) == Some(result),
{
    reveal_strlit("id");
    reveal_strlit("result");
    reveal_strlit("jsonrpc");
    assert("id"@.len() != "result"@.len());
    assert("id"@.len() != "jsonrpc"@.len());
    assert("result"@.len() != "jsonrpc"@.len());
}

/// An error response carries the JSON-RPC version, the request's id, and an
/// error with the code, as a JSON integer, and the message.
pub proof fn lemma_error_members(id: JsonData, code: i64, message: Seq<char>)
    ensures
        object_get(error_data(id, code, message), "jsonrpc"@) == Some(JsonData::Str("2.0"@)),
        object_get(error_data(id, code, message), "id"@) == Some(id),
        object_get2(error_data(id, code, message), "error"@, "code"@) == Some(
            if code < 0 {
                JsonData::NegInt(code)
            } else {
                JsonData::PosInt(code as u64)
            },
        ),
        object_get2(error_data(id, code, message), "error"@, "message"@) == Some(
            JsonData::Str(message),
        ),
{
    reveal_strlit("id");
    reveal_strlit("error");
    reveal_strlit("jsonrpc");
    reveal_strlit("code");
    reveal_strlit("message");
    assert("id"@.len() != "error"@.len());
    assert("id"@.len() != "jsonrpc"@.len());
    assert("error"@.len() != "jsonrpc"@.len());
    assert("code"@.len() != "message"@.len());
}

/// A notification carries the JSON-RPC version, no id, its method and its
/// parameters.
pub proof fn lemma_notification_data_members(method: Seq<char>, params: JsonData)
    ensures
        object_get(notification_data(method, params), "jsonrpc"@) == Some(JsonData::Str("2.0"@)),
        object_get(notification_data(method, params), "params"@) == Some(params),
{
    reveal_strlit("jsonrpc");
    reveal_strlit("method");
    reveal_strlit("params");
    assert("params"@.len() != "jsonrpc"@.len());
    assert("method"@[0] != "params"@[0]);
    assert("method"@.len() != "jsonrpc"@.len());
}

fn jsonrpc_object() -> (members: JsonMap)
    ensures
        json_map_data(members) == jsonrpc_members(),
{
    let mut members = json_map_new();
    insert_member(&mut members, "jsonrpc", json_string(String::from_str("2.0")));
    members
}

/// The response to a request.
pub fn response_message(id: serde_json::Value, result: serde_json::Value) -> (message:
    serde_json::Value)
    ensures
        json_data(message) == response_data(json_data(id), json_data(result)),
{
    let mut members = jsonrpc_object();
    insert_member(&mut members, "id", id);
    insert_member(&mut members, "result", result);
    json_object(members)
}

/// The error response to a request.
pub fn error_message(id: serde_json::Value, code: i64, message: &str) -> (response:
    serde_json::Value)
    ensures
        json_data(response) == error_data(json_data(id), code, message@),
{
    let mut error = json_map_new();
    insert_member(&mut error, "code", json_i64(code));
    insert_member(&mut error, "message", json_string(String::from_str(message)));
    let mut members = jsonrpc_object();
    insert_member(&mut members, "id", id);
    insert_member(&mut members, "error", json_object(error));
    json_object(members)
}

/// A notification to the client.
pub fn notification_message(method: &str, params: serde_json::Value) -> (message:
    serde_json::Value)
    ensures
        json_data(message) == notification_data(method@, json_data(params)),
{
    let mut members = jsonrpc_object();
    insert_member(&mut members, "method", json_string(String::from_str(method)));
    insert_member(&mut members, "params", params);
    json_object(members)
}

/// The decimal digit of a value below 10.
pub open spec fn digit_char(d: nat) -> char {
    (d + 48) as char
}

/// The decimal text of a number, without sign or leading zeros.
pub open spec fn decimal_chars(n: nat) -> Seq<char>
    decreases n,
{
    if n < 10 {
        seq![digit_char(n)]
    } else {
        decimal_chars(n / 10) + seq![digit_char(n % 10)]
    }
}

/// The header that frames a body of `length` bytes, blank line included.
pub open spec fn frame_header(length: nat) -> Seq<char> {
    content_length_field() + seq![' '] + decimal_chars(length) + seq!['\r', '\n', '\r', '\n']
}

/// A framed message: its header, then its body.
pub open spec fn frame_bytes(body: Seq<u8>) -> Seq<u8> {
    encode_utf8(frame_header(body.len())) + body
}

fn push_decimal(text: &mut String, n: usize)
    ensures
        final(text)@ == old(text)@ + decimal_chars(n as nat),
    decreases n,
{
    if n >= 10 {
        push_decimal(text, n / 10);
    }
    let digit = ((n % 10) as u8 + 48) as char;
    crate::text::string_push(text, digit);
    proof {
        if n >= 10 {
            assert(old(text)@ + decimal_chars((n / 10) as nat) + seq![digit] =~= old(text)@
                + decimal_chars(n as nat));
        } else {
            assert(old(text)@.push(digit) =~= old(text)@ + decimal_chars(n as nat));
        }
    }
}

/// A body framed by its `Content-Length` header.
pub fn frame_body(body: Vec<u8>) -> (framed: Vec<u8>)
    ensures
        framed@ == frame_bytes(body@),
{
    let mut body = body;
    let mut header = String::from_str("Content-Length: ");
    push_decimal(&mut header, body.len());
    header.append("\r\n\r\n");
    proof {
        reveal_strlit("Content-Length: ");
        reveal_strlit("\r\n\r\n");
        assert(header@ =~= frame_header(body@.len()));
    }
    let ghost text = body@;
    let mut framed = slice_to_vec(header.as_str().as_bytes());
    framed.append(&mut body);
    assert(framed@ =~= frame_bytes(text));
    framed
}

/// The bytes that carry a message: its JSON text framed by a
/// `Content-Length` header.
pub fn frame_message(message: &serde_json::Value) -> (framed: Vec<u8>)
    ensures
        framed@ == frame_bytes(json_text(json_data(*message))),
{
    match json_to_vec(message) {
        Ok(body) => frame_body(body),
        Err(_) => vstd::pervasive::unreached(),
    }
}

/// The decimal text of a number is made of ASCII digits, the first of which
/// is a digit.
proof fn lemma_decimal_digits(n: nat)
    ensures
        decimal_chars(n).len() > 0,
        forall|i: int| 0 <= i < decimal_chars(n).len() ==> '0' <= #[trigger] decimal_chars(n)[i] <= '9',
    decreases n,
{
    if n >= 10 {
        lemma_decimal_digits(n / 10);
        let d = decimal_chars(n / 10) + seq![digit_char(n % 10)];
        assert forall|i: int| 0 <= i < d.len() implies '0' <= #[trigger] d[i] <= '9' by {
            if i < decimal_chars(n / 10).len() {
                assert(d[i] == decimal_chars(n / 10)[i]);
            }
        }
    }
}

/// Reading the UTF-8 bytes of a number's decimal text in base 10 gives the
/// number back.
proof fn lemma_decimal_value(n: nat)
    ensures
        digits_value(encode_utf8(decimal_chars(n)), 10) == Some(n),
    decreases n,
{
    let d = decimal_chars(n);
    lemma_decimal_digits(n);
    assert(is_ascii_chars(d));
    is_ascii_chars_encode_utf8(d);
    let bytes = encode_utf8(d);
    assert(bytes.len() == d.len());
    assert(d.last() == digit_char(n % 10));
    assert(bytes[bytes.len() - 1] == d[d.len() - 1] as u8);
    assert(bytes.last() == ((n % 10) + 48) as u8);
    assert(digit_value(bytes.last()) == Some(n % 10));
    if n < 10 {
        assert(bytes.drop_last() =~= Seq::<u8>::empty());
        assert(digits_value(Seq::<u8>::empty(), 10) == Some(0nat));
    } else {
        let high = decimal_chars(n / 10);
        lemma_decimal_value(n / 10);
        lemma_decimal_digits(n / 10);
        assert(is_ascii_chars(high));
        is_ascii_chars_encode_utf8(high);
        assert(bytes.drop_last() =~= encode_utf8(high)) by {
            assert forall|i: int| 0 <= i < high.len() implies bytes.drop_last()[i] == encode_utf8(high)[i] by {
                assert(d[i] == high[i]);
            }
        }
        assert(n == (n / 10) * 10 + n % 10);
    }
}

/// The first line of a frame's header.
pub open spec fn content_length_line(length: nat) -> Seq<char> {
    content_length_field() + seq![' '] + decimal_chars(length) + seq!['\r', '\n']
}

/// A frame's header is its `Content-Length` line followed by a blank line.
pub proof fn lemma_frame_header_lines(length: nat)
    ensures
        frame_header(length) == content_length_line(length) + seq!['\r', '\n'],
{
    assert(frame_header(length) =~= content_length_line(length) + seq!['\r', '\n']);
}

/// Reading the header that frames a body gives back the body's length: its
/// `Content-Length` line sets the length, and the blank line after it ends
/// the header with a body of that length to read.
pub proof fn lemma_frame_header_reads_back(known: Option<usize>, length: usize)
    ensures
        header_step(known, content_length_line(length as nat)) == Some(
            HeaderLine::Continue(Some(length)),
        ),
        header_step(Some(length), seq!['\r', '\n']) == Some(HeaderLine::Body(length)),
{
    let digits = decimal_chars(length as nat);
    lemma_decimal_digits(length as nat);
    lemma_decimal_value(length as nat);
    let line = content_length_line(length as nat);
    let core = content_length_field() + seq![' '] + digits;
    assert(line.drop_last() =~= core + seq!['\r']);
    assert((core + seq!['\r']).drop_last() =~= core);
    assert(core.last() == digits.last());
    assert(trim_end_pair_spec(core, '\r', '\n') == core);
    assert((core + seq!['\r']).last() == '\r');
    assert(trim_end_pair_spec(core + seq!['\r'], '\r', '\n') == core);
    assert(line.last() == '\n');
    assert(trim_end_pair_spec(line, '\r', '\n') == core);
    assert(core.take(15) =~= content_length_field());
    let value = core.skip(15);
    assert(value =~= seq![' '] + digits);
    assert(value.last() == digits.last());
    assert(!is_white_space(digits.last()));
    assert(trim_end_spec(value) == value);
    assert(value.drop_first() =~= digits);
    assert(!is_white_space(digits[0]));
    assert(trim_start_spec(digits) == digits);
    assert(trim_start_spec(value) == digits);
    assert(trim_spec(value) == digits);
    let bytes = encode_utf8(digits);
    is_ascii_chars_encode_utf8(digits);
    assert(bytes[0] == digits[0] as u8);
    assert(unsigned_text_value(bytes, 10) == Some(length as nat));
    let blank = seq!['\r', '\n'];
    assert(blank.drop_last() =~= seq!['\r']);
    assert(seq!['\r'].drop_last() =~= Seq::<char>::empty());
    assert(trim_end_pair_spec(Seq::<char>::empty(), '\r', '\n') =~= Seq::<char>::empty());
    assert(seq!['\r'].last() == '\r');
    assert(trim_end_pair_spec(seq!['\r'], '\r', '\n') =~= Seq::<char>::empty());
    assert(blank.last() == '\n');
    assert(trim_end_pair_spec(blank, '\r', '\n') =~= Seq::<char>::empty());
}

} // verus!
