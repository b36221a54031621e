//! Conversion of the compiler's language data into Language Server Protocol
//! JSON: 1-based compiler positions become 0-based protocol positions, and
//! severities and kinds become the protocol's numeric codes.
use vstd::prelude::*;
use vstd::string::*;
use vstd::utf8::*;
use crate::json::{
    insert_member, json_array, json_data, json_map_new, json_object, json_string, json_u64,
    no_members, object_get, object_get2, JsonData,
};
use crate::uri::{path_to_uri, path_to_uri_spec};

verus! {

/// A 1-based line and column in a document.
#[derive(Clone, Copy, Debug, PartialEq, Eq)]
pub struct LanguagePosition {
    pub line: usize,
    pub column: usize,
}

/// A span between two positions of a document.
#[derive(Clone, Copy, Debug, PartialEq, Eq)]
pub struct LanguageRange {
    pub start: LanguagePosition,
    pub end: LanguagePosition,
}

#[derive(Clone, Copy, Debug, PartialEq, Eq)]
pub enum LanguageDiagnosticSeverity {
    Error,
    Warning,
    Info,
    Hint,
}

/// A problem that the compiler reports in a document.
#[derive(Debug)]
pub struct LanguageDiagnostic {
    pub range: LanguageRange,
    pub severity: LanguageDiagnosticSeverity,
    pub code: String,
    pub message: String,
}

#[derive(Clone, Copy, Debug, PartialEq, Eq)]
pub enum LanguageCompletionKind {
    Keyword,
    Component,
    Property,
    Value,
    Function,
    Variable,
    File,
}

/// A completion that the compiler offers at a position.
#[derive(Debug)]
pub struct LanguageCompletion {
    pub label: String,
    pub kind: LanguageCompletionKind,
    pub detail: String,
}

/// A place in a file: the file's path and a range in it.
#[derive(Debug)]
pub struct LanguageLocation {
    pub path: String,
    pub range: LanguageRange,
}

#[derive(Clone, Copy, Debug, PartialEq, Eq)]
pub enum LanguageSymbolKind {
    File,
    Module,
    Class,
    Function,
    Method,
    Property,
    Variable,
}

/// A symbol of a document's outline, with the symbols nested in it.
#[derive(Debug)]
pub struct LanguageDocumentSymbol {
    pub name: String,
    pub kind: LanguageSymbolKind,
    pub range: LanguageRange,
    pub selection_range: LanguageRange,
    pub children: Vec<LanguageDocumentSymbol>,
}

/// The protocol code of a diagnostic severity.
pub open spec fn severity_code(value: LanguageDiagnosticSeverity) -> u8 {
    match value {
        LanguageDiagnosticSeverity::Error => 1,
        LanguageDiagnosticSeverity::Warning => 2,
        LanguageDiagnosticSeverity::Info => 3,
        LanguageDiagnosticSeverity::Hint => 4,
    }
}

/// The protocol code of a completion kind.
pub open spec fn completion_kind_code(value: LanguageCompletionKind) -> u8 {
    match value {
        LanguageCompletionKind::Keyword => 14,
        LanguageCompletionKind::Component => 7,
        LanguageCompletionKind::Property => 10,
        LanguageCompletionKind::Value => 12,
        LanguageCompletionKind::Function => 3,
        LanguageCompletionKind::Variable => 6,
        LanguageCompletionKind::File => 17,
    }
}

/// The protocol code of a symbol kind.
pub open spec fn symbol_kind_code(value: LanguageSymbolKind) -> u8 {
    match value {
        LanguageSymbolKind::File => 1,
        LanguageSymbolKind::Module => 2,
        LanguageSymbolKind::Class => 5,
        LanguageSymbolKind::Function => 12,
        LanguageSymbolKind::Method => 6,
        LanguageSymbolKind::Property => 7,
        LanguageSymbolKind::Variable => 13,
    }
}

/// One less than `n`, and 0 for 0: a 1-based index made 0-based.
pub open spec fn zero_based(n: usize) -> u64 {
    if n == 0 {
        0
    } else {
        (n - 1) as u64
    }
}

/// A protocol position `{line, character}`.
pub open spec fn position_object(line: u64, character: u64) -> JsonData {
    JsonData::Object(
        no_members().insert("line"@, JsonData::PosInt(line)).insert(
            "character"@,
            JsonData::PosInt(character),
        ),
    )
}

/// The protocol form of a compiler position.
pub open spec fn position_data(value: LanguagePosition) -> JsonData {
    position_object(zero_based(value.line), zero_based(value.column))
}

/// A protocol range `{start, end}`.
pub open spec fn range_object(start: JsonData, end: JsonData) -> JsonData {
    JsonData::Object(no_members().insert("start"@, start).insert("end"@, end))
}

/// The protocol form of a compiler range.
pub open spec fn range_data(value: LanguageRange) -> JsonData {
    range_object(position_data(value.start), position_data(value.end))
}

/// The protocol form of a diagnostic, with source `dowe`.
pub open spec fn diagnostic_data(value: LanguageDiagnostic) -> JsonData {
    JsonData::Object(
        no_members().insert("range"@, range_data(value.range)).insert(
            "severity"@,
            JsonData::PosInt(severity_code(value.severity) as u64),
        ).insert("code"@, JsonData::Str(value.code@)).insert("source"@, JsonData::Str("dowe"@)).insert(
            "message"@,
            JsonData::Str(value.message@),
        ),
    )
}

/// The protocol form of a completion item.
pub open spec fn completion_data(value: LanguageCompletion) -> JsonData {
    JsonData::Object(
        no_members().insert("label"@, JsonData::Str(value.label@)).insert(
            "kind"@,
            JsonData::PosInt(completion_kind_code(value.kind) as u64),
        ).insert("detail"@, JsonData::Str(value.detail@)),
    )
}

/// The protocol form of a location: the `file://` URI of its path and its
/// range.
pub open spec fn location_data(value: LanguageLocation) -> JsonData {
    JsonData::Object(
        no_members().insert("uri"@, JsonData::Str(path_to_uri_spec(value.path@))).insert(
            "range"@,
            range_data(value.range),
        ),
    )
}

/// The protocol form of a document symbol, its children converted alike.
pub open spec fn symbol_data(value: LanguageDocumentSymbol) -> JsonData
    decreases value, 1int,
{
    JsonData::Object(
        no_members().insert("name"@, JsonData::Str(value.name@)).insert(
            "kind"@,
            JsonData::PosInt(symbol_kind_code(value.kind) as u64),
        ).insert("range"@, range_data(value.range)).insert(
            "selectionRange"@,
            range_data(value.selection_range),
        ).insert("children"@, JsonData::Array(symbols_data(value.children@))),
    )
}

/// The protocol forms of a sequence of document symbols.
pub open spec fn symbols_data(values: Seq<LanguageDocumentSymbol>) -> Seq<JsonData>
    decreases values, 0int,
{
    if values.len() == 0 {
        Seq::empty()
    } else {
        seq![symbol_data(values[0])] + symbols_data(values.drop_first())
    }
}

/// How many times `c` occurs in `text`.
pub open spec fn count_char(text: Seq<char>, c: char) -> nat
    decreases text.len(),
{
    if text.len() == 0 {
        0
    } else {
        count_char(text.drop_last(), c) + if text.last() == c {
            1nat
        } else {
            0nat
        }
    }
}

/// How many times `b` occurs in `bytes`.
pub open spec fn count_byte(bytes: Seq<u8>, b: u8) -> nat
    decreases bytes.len(),
{
    if bytes.len() == 0 {
        0
    } else {
        count_byte(bytes.drop_last(), b) + if bytes.last() == b {
            1nat
        } else {
            0nat
        }
    }
}

/// The number of lines of a text as `str::lines` splits it: one per line
/// feed, plus one for a last line without a line feed; none for the empty
/// text.
pub open spec fn line_count(text: Seq<char>) -> nat {
    count_char(text, '\n') + if text.len() > 0 && text.last() != '\n' {
        1nat
    } else {
        0nat
    }
}

/// The range of a whole document: from its start to the start of the line
/// after its last.
pub open spec fn full_document_range_data(source: Seq<char>) -> JsonData {
    range_object(position_object(0, 0), position_object(line_count(source) as u64, 0))
}

/// A diagnostic as the protocol writes it.
pub fn diagnostic(value: &LanguageDiagnostic) -> (json: serde_json::Value)
    ensures
        json_data(json) == diagnostic_data(*value),
{
    let mut members = json_map_new();
    insert_member(&mut members, "range", range(&value.range));
    insert_member(&mut members, "severity", json_u64(diagnostic_severity(value.severity) as u64));
    insert_member(&mut members, "code", json_string(value.code.clone()));
    insert_member(&mut members, "source", json_string(String::from_str("dowe")));
    insert_member(&mut members, "message", json_string(value.message.clone()));
    json_object(members)
}

/// A completion item as the protocol writes it.
pub fn completion(value: &LanguageCompletion) -> (json: serde_json::Value)
    ensures
        json_data(json) == completion_data(*value),
{
    let mut members = json_map_new();
    insert_member(&mut members, "label", json_string(value.label.clone()));
    insert_member(&mut members, "kind", json_u64(completion_kind(value.kind) as u64));
    insert_member(&mut members, "detail", json_string(value.detail.clone()));
    json_object(members)
}

/// A location as the protocol writes it: the `file://` URI of its path.
pub fn location(value: &LanguageLocation) -> (json: serde_json::Value)
    ensures
        json_data(json) == location_data(*value),
{
    let mut members = json_map_new();
    insert_member(&mut members, "uri", json_string(path_to_uri(value.path.as_str())));
    insert_member(&mut members, "range", range(&value.range));
    json_object(members)
}

/// A document symbol as the protocol writes it, children included.
pub fn symbol(value: &LanguageDocumentSymbol) -> (json: serde_json::Value)
    ensures
        json_data(json) == symbol_data(*value),
    decreases value,
{
    let mut children: Vec<serde_json::Value> = Vec::new();
    let mut i: usize = 0;
    while i < value.children.len()
        invariant
            0 <= i <= value.children@.len(),
            children@.map_values(|v: serde_json::Value| json_data(v)) == symbols_data(
                value.children@.take(i as int),
            ),
        decreases value.children@.len() - i,
    {
        assert(decreases_to!(value => value.children@[i as int]));
        let child = symbol(&value.children[i]);
        proof {
            lemma_symbols_data_push(value.children@.take(i as int), value.children@[i as int]);
            assert(value.children@.take(i + 1) =~= value.children@.take(i as int).push(
                value.children@[i as int],
            ));
        }
        children.push(child);
        assert(children@.map_values(|v: serde_json::Value| json_data(v)) =~= symbols_data(
            value.children@.take(i as int),
        ).push(json_data(child)));
        i = i + 1;
    }
    assert(value.children@.take(value.children@.len() as int) =~= value.children@);
    let mut members = json_map_new();
    insert_member(&mut members, "name", json_string(value.name.clone()));
    insert_member(&mut members, "kind", json_u64(symbol_kind(&value.kind) as u64));
    insert_member(&mut members, "range", range(&value.range));
    insert_member(&mut members, "selectionRange", range(&value.selection_range));
    insert_member(&mut members, "children", json_array(children));
    json_object(members)
}

/// A range as the protocol writes it.
pub fn range(value: &LanguageRange) -> (json: serde_json::Value)
    ensures
        json_data(json) == range_data(*value),
{
    let mut members = json_map_new();
    insert_member(&mut members, "start", position(value.start));
    insert_member(&mut members, "end", position(value.end));
    json_object(members)
}

/// The range of a whole document: from line 0 to the line after its last.
pub fn full_document_range(source: &str) -> (json: serde_json::Value)
    ensures
        json_data(json) == full_document_range_data(source@),
{
    let lines = count_lines(source);
    let mut members = json_map_new();
    insert_member(&mut members, "start", position_value(0, 0));
    insert_member(&mut members, "end", position_value(lines as u64, 0));
    json_object(members)
}

fn position_value(line: u64, character: u64) -> (json: serde_json::Value)
    ensures
        json_data(json) == position_object(line, character),
{
    let mut members = json_map_new();
    insert_member(&mut members, "line", json_u64(line));
    insert_member(&mut members, "character", json_u64(character));
    json_object(members)
}

fn position(value: LanguagePosition) -> (json: serde_json::Value)
    ensures
        json_data(json) == position_data(value),
{
    position_value(value.line.saturating_sub(1) as u64, value.column.saturating_sub(1) as u64)
}

fn diagnostic_severity(value: LanguageDiagnosticSeverity) -> (code: u8)
    ensures
        code == severity_code(value),
{
    match value {
        LanguageDiagnosticSeverity::Error => 1,
        LanguageDiagnosticSeverity::Warning => 2,
        LanguageDiagnosticSeverity::Info => 3,
        LanguageDiagnosticSeverity::Hint => 4,
    }
}

fn completion_kind(value: LanguageCompletionKind) -> (code: u8)
    ensures
        code == completion_kind_code(value),
{
    match value {
        LanguageCompletionKind::Keyword => 14,
        LanguageCompletionKind::Component => 7,
        LanguageCompletionKind::Property => 10,
        LanguageCompletionKind::Value => 12,
        LanguageCompletionKind::Function => 3,
        LanguageCompletionKind::Variable => 6,
        LanguageCompletionKind::File => 17,
    }
}

fn symbol_kind(value: &LanguageSymbolKind) -> (code: u8)
    ensures
        code == symbol_kind_code(*value),
{
    match value {
        LanguageSymbolKind::File => 1,
        LanguageSymbolKind::Module => 2,
        LanguageSymbolKind::Class => 5,
        LanguageSymbolKind::Function => 12,
        LanguageSymbolKind::Method => 6,
        LanguageSymbolKind::Property => 7,
        LanguageSymbolKind::Variable => 13,
    }
}

/// The number of lines of `source`, counted on its UTF-8 bytes.
pub fn count_lines(source: &str) -> (count: usize)
    ensures
        count == line_count(source@),
{
    let bytes = source.as_bytes();
    let mut newlines: usize = 0;
    let mut i: usize = 0;
    while i < bytes.len()
        invariant
            bytes@ == source.spec_bytes(),
            0 <= i <= bytes@.len(),
            newlines == count_byte(bytes@.take(i as int), 10),
            newlines <= i,
        decreases bytes@.len() - i,
    {
        assert(bytes@.take(i + 1).drop_last() =~= bytes@.take(i as int));
        if bytes[i] == 10 {
            newlines = newlines + 1;
        }
        i = i + 1;
    }
    assert(bytes@.take(bytes@.len() as int) =~= bytes@);
    proof {
        lemma_line_count_utf8(source@);
    }
    if bytes.len() > 0 && bytes[bytes.len() - 1] != 10 {
        proof {
            lemma_count_byte_le_len(bytes@.drop_last(), 10);
        }
        newlines + 1
    } else {
        newlines
    }
}

/// The positions of a converted range are the compiler's 1-based lines and
/// columns made 0-based (0 stays 0): `start` holds the start's line and
/// column less one, `end` the end's.
pub proof fn lemma_range_members(value: LanguageRange)
    ensures
        object_get2(range_data(value), "start"@, "line"@) == Some(
            JsonData::PosInt(if value.start.line == 0 { 0 } else { (value.start.line - 1) as u64 }),
        ),
        object_get2(range_data(value), "start"@, "character"@) == Some(
            JsonData::PosInt(
                if value.start.column == 0 { 0 } else { (value.start.column - 1) as u64 },
            ),
        ),
        object_get2(range_data(value), "end"@, "line"@) == Some(
            JsonData::PosInt(if value.end.line == 0 { 0 } else { (value.end.line - 1) as u64 }),
        ),
        object_get2(range_data(value), "end"@, "character"@) == Some(
            JsonData::PosInt(if value.end.column == 0 { 0 } else { (value.end.column - 1) as u64 }),
        ),
{
    reveal_strlit("start");
    reveal_strlit("end");
    reveal_strlit("line");
    reveal_strlit("character");
    assert("start"@.len() != "end"@.len());
    assert("line"@.len() != "character"@.len());
}

/// A converted diagnostic holds the diagnostic's own range, converted, the
/// protocol code of its severity (error 1, warning 2, information 3, hint
/// 4), its code and message, and the source `dowe`.
pub proof fn lemma_diagnostic_members(value: LanguageDiagnostic)
    ensures
        object_get(diagnostic_data(value), "range"@) == Some(range_data(value.range)),
        object_get(diagnostic_data(value), "severity"@) == Some(
            JsonData::PosInt(
                match value.severity {
                    LanguageDiagnosticSeverity::Error => 1,
                    LanguageDiagnosticSeverity::Warning => 2,
                    LanguageDiagnosticSeverity::Info => 3,
                    LanguageDiagnosticSeverity::Hint => 4,
                },
            ),
        ),
        object_get(diagnostic_data(value), "code"@) == Some(JsonData::Str(value.code@)),
        object_get(diagnostic_data(value), "source"@) == Some(JsonData::Str("dowe"@)),
        object_get(diagnostic_data(value), "message"@) == Some(JsonData::Str(value.message@)),
{
    reveal_strlit("range");
    reveal_strlit("severity");
    reveal_strlit("code");
    reveal_strlit("source");
    reveal_strlit("message");
    assert("range"@.len() != "severity"@.len());
    assert("range"@.len() != "code"@.len());
    assert("range"@.len() != "source"@.len());
    assert("range"@.len() != "message"@.len());
    assert("severity"@.len() != "code"@.len());
    assert("severity"@.len() != "source"@.len());
    assert("severity"@.len() != "message"@.len());
    assert("code"@.len() != "source"@.len());
    assert("code"@.len() != "message"@.len());
    assert("source"@.len() != "message"@.len());
}

/// A converted completion holds its label and detail and the protocol code
/// of its kind (keyword 14, component 7, property 10, value 12, function 3,
/// variable 6, file 17).
pub proof fn lemma_completion_members(value: LanguageCompletion)
    ensures
        object_get(completion_data(value), "label"@) == Some(JsonData::Str(value.label@)),
        object_get(completion_data(value), "detail"@) == Some(JsonData::Str(value.detail@)),
        object_get(completion_data(value), "kind"@) == Some(
            JsonData::PosInt(
                match value.kind {
                    LanguageCompletionKind::Keyword => 14,
                    LanguageCompletionKind::Component => 7,
                    LanguageCompletionKind::Property => 10,
                    LanguageCompletionKind::Value => 12,
                    LanguageCompletionKind::Function => 3,
                    LanguageCompletionKind::Variable => 6,
                    LanguageCompletionKind::File => 17,
                },
            ),
        ),
{
    reveal_strlit("label");
    reveal_strlit("kind");
    reveal_strlit("detail");
    assert("label"@.len() != "kind"@.len());
    assert("label"@.len() != "detail"@.len());
    assert("kind"@.len() != "detail"@.len());
}

/// A converted location holds the `file://` URI of its path and its range,
/// converted.
pub proof fn lemma_location_members(value: LanguageLocation)
    ensures
        object_get(location_data(value), "uri"@) == Some(JsonData::Str(path_to_uri_spec(value.path@))),
        object_get(location_data(value), "range"@) == Some(range_data(value.range)),
{
    reveal_strlit("uri");
    reveal_strlit("range");
    assert("uri"@.len() != "range"@.len());
}

/// A converted document symbol holds its name, the protocol code of its
/// kind (file 1, module 2, class 5, function 12, method 6, property 7,
/// variable 13), its range and selection range, converted, and every child,
/// converted alike, in order.
pub proof fn lemma_symbol_members(value: LanguageDocumentSymbol)
    ensures
        object_get(symbol_data(value), "name"@) == Some(JsonData::Str(value.name@)),
        object_get(symbol_data(value), "kind"@) == Some(
            JsonData::PosInt(
                match value.kind {
                    LanguageSymbolKind::File => 1,
                    LanguageSymbolKind::Module => 2,
                    LanguageSymbolKind::Class => 5,
                    LanguageSymbolKind::Function => 12,
                    LanguageSymbolKind::Method => 6,
                    LanguageSymbolKind::Property => 7,
                    LanguageSymbolKind::Variable => 13,
                },
            ),
        ),
        object_get(symbol_data(value), "range"@) == Some(range_data(value.range)),
        object_get(symbol_data(value), "selectionRange"@) == Some(
            range_data(value.selection_range),
        ),
        object_get(symbol_data(value), "children"@) matches Some(JsonData::Array(items))
            && items.len() == value.children@.len() && forall|i: int|
            0 <= i < value.children@.len() ==> #[trigger] items[i] == symbol_data(
                value.children@[i],
            ),
{
    reveal_strlit("name");
    reveal_strlit("kind");
    reveal_strlit("range");
    reveal_strlit("selectionRange");
    reveal_strlit("children");
    assert("name"@[0] != "kind"@[0]);
    assert("name"@.len() != "range"@.len());
    assert("name"@.len() != "selectionRange"@.len());
    assert("name"@.len() != "children"@.len());
    assert("kind"@.len() != "range"@.len());
    assert("kind"@.len() != "selectionRange"@.len());
    assert("kind"@.len() != "children"@.len());
    assert("range"@.len() != "selectionRange"@.len());
    assert("range"@.len() != "children"@.len());
    assert("selectionRange"@.len() != "children"@.len());
    lemma_symbols_data_index(value.children@);
}

/// The conversions of a sequence of symbols are the conversions of each, in
/// order.
proof fn lemma_symbols_data_index(values: Seq<LanguageDocumentSymbol>)
    ensures
        symbols_data(values).len() == values.len(),
        forall|i: int| 0 <= i < values.len() ==> #[trigger] symbols_data(values)[i] == symbol_data(values[i]),
    decreases values.len(),
{
    if values.len() > 0 {
        lemma_symbols_data_index(values.drop_first());
        assert forall|i: int| 0 <= i < values.len() implies #[trigger] symbols_data(values)[i]
            == symbol_data(values[i]) by {
            if i > 0 {
                assert(symbols_data(values)[i] == symbols_data(values.drop_first())[i - 1]);
                assert(values.drop_first()[i - 1] == values[i]);
            }
        }
    }
}

/// The range of a whole document runs from line 0, character 0 to the line
/// after its last, character 0.
pub proof fn lemma_full_document_range_members(source: Seq<char>)
    ensures
        object_get2(full_document_range_data(source), "start"@, "line"@) == Some(JsonData::PosInt(0)),
        object_get2(full_document_range_data(source), "start"@, "character"@) == Some(
            JsonData::PosInt(0),
        ),
        object_get2(full_document_range_data(source), "end"@, "line"@) == Some(
            JsonData::PosInt(line_count(source) as u64),
        ),
        object_get2(full_document_range_data(source), "end"@, "character"@) == Some(
            JsonData::PosInt(0),
        ),
{
    reveal_strlit("start");
    reveal_strlit("end");
    reveal_strlit("line");
    reveal_strlit("character");
    assert("start"@.len() != "end"@.len());
    assert("line"@.len() != "character"@.len());
}

proof fn lemma_count_char_concat(a: Seq<char>, b: Seq<char>, c: char)
    ensures
        count_char(a + b, c) == count_char(a, c) + count_char(b, c),
    decreases b.len(),
{
    if b.len() == 0 {
        assert(a + b =~= a);
    } else {
        lemma_count_char_concat(a, b.drop_last(), c);
        assert((a + b).drop_last() =~= a + b.drop_last());
    }
}

proof fn lemma_count_char_absent(a: Seq<char>, c: char)
    requires
        forall|i: int| 0 <= i < a.len() ==> a[i] != c,
    ensures
        count_char(a, c) == 0,
    decreases a.len(),
{
    if a.len() > 0 {
        lemma_count_char_absent(a.drop_last(), c);
    }
}

/// How `str::lines` counts: a text without a line feed is one line, or none
/// when empty; a line feed ends a line, adding one unless it ends a last
/// line that had no line feed; and the lines after a line feed add up.
pub proof fn lemma_line_count_laws(a: Seq<char>, b: Seq<char>)
    ensures
        (forall|i: int| 0 <= i < a.len() ==> a[i] != '\n') ==> line_count(a) == if a.len() > 0 {
            1nat
        } else {
            0nat
        },
        line_count(a + seq!['\n']) == line_count(a) + if a.len() > 0 && a.last() != '\n' {
            0nat
        } else {
            1nat
        },
        line_count(a + seq!['\n'] + b) == line_count(a + seq!['\n']) + line_count(b),
{
    if forall|i: int| 0 <= i < a.len() ==> a[i] != '\n' {
        lemma_count_char_absent(a, '\n');
    }
    let an = a + seq!['\n'];
    assert(an.drop_last() =~= a);
    assert(an.last() == '\n');
    lemma_count_char_concat(an, b, '\n');
    if b.len() > 0 {
        assert((an + b).last() == b.last());
    } else {
        assert(an + b =~= an);
    }
}

proof fn lemma_symbols_data_push(values: Seq<LanguageDocumentSymbol>, last: LanguageDocumentSymbol)
    ensures
        symbols_data(values.push(last)) == symbols_data(values).push(symbol_data(last)),
    decreases values.len(),
{
    if values.len() == 0 {
        assert(values.push(last).drop_first() =~= Seq::<LanguageDocumentSymbol>::empty());
        assert(symbols_data(Seq::<LanguageDocumentSymbol>::empty()) =~= Seq::<JsonData>::empty());
        assert(values.push(last)[0] == last);
        assert(symbols_data(values.push(last)) =~= seq![symbol_data(last)]);
    } else {
        lemma_symbols_data_push(values.drop_first(), last);
        assert(values.push(last).drop_first() =~= values.drop_first().push(last));
        assert(symbols_data(values.push(last)) =~= symbols_data(values).push(symbol_data(last)));
    }
}

proof fn lemma_count_byte_concat(a: Seq<u8>, b: Seq<u8>, x: u8)
    ensures
        count_byte(a + b, x) == count_byte(a, x) + count_byte(b, x),
    decreases b.len(),
{
    if b.len() == 0 {
        assert(a + b =~= a);
    } else {
        lemma_count_byte_concat(a, b.drop_last(), x);
        assert((a + b).drop_last() =~= a + b.drop_last());
    }
}

proof fn lemma_encode_utf8_concat(a: Seq<char>, b: Seq<char>)
    ensures
        encode_utf8(a + b) == encode_utf8(a) + encode_utf8(b),
    decreases a.len(),
{
    if a.len() == 0 {
        assert(a + b =~= b);
        assert(encode_utf8(a) =~= Seq::<u8>::empty());
        assert(encode_utf8(a) + encode_utf8(b) =~= encode_utf8(b));
    } else {
        lemma_encode_utf8_concat(a.drop_first(), b);
        assert((a + b).drop_first() =~= a.drop_first() + b);
        assert(encode_utf8(a + b) =~= encode_utf8(a) + encode_utf8(b));
    }
}

proof fn lemma_high_bit(x: u8)
    ensures
        (0x80u8 | x) >= 0x80,
        (0xC0u8 | x) >= 0x80,
        (0xE0u8 | x) >= 0x80,
        (0xF0u8 | x) >= 0x80,
{
    assert((0x80u8 | x) >= 0x80) by (bit_vector);
    assert((0xC0u8 | x) >= 0x80) by (bit_vector);
    assert((0xE0u8 | x) >= 0x80) by (bit_vector);
    assert((0xF0u8 | x) >= 0x80) by (bit_vector);
}

/// The UTF-8 encoding of one character holds a line feed byte only when the
/// character is a line feed, and then it is that one byte.
proof fn lemma_scalar_newline(c: char)
    ensures
        encode_scalar(c as u32).len() >= 1,
        count_byte(encode_scalar(c as u32), 10) == (if c == '\n' {
            1nat
        } else {
            0nat
        }),
        (encode_scalar(c as u32).last() == 10u8) == (c == '\n'),
{
    let v = c as u32;
    char_is_scalar(c);
    let e = encode_scalar(v);
    if has_width_1_encoding(v) {
        assert(v <= 0x7F ==> (v & 0x7F) == v) by (bit_vector);
        assert(e =~= seq![v as u8]);
        assert(e.drop_last() =~= Seq::<u8>::empty());
        assert(count_byte(Seq::<u8>::empty(), 10) == 0);
        assert((v == 10) == (c == '\n'));
    } else {
        let a = ((v >> 6) & 0x1F) as u8;
        let b = ((v >> 12) & 0x0F) as u8;
        let d = ((v >> 18) & 0x7) as u8;
        let l = (v & 0x3F) as u8;
        let m = ((v >> 6) & 0x3F) as u8;
        let t = ((v >> 12) & 0x3F) as u8;
        lemma_high_bit(a);
        lemma_high_bit(b);
        lemma_high_bit(d);
        lemma_high_bit(l);
        lemma_high_bit(m);
        lemma_high_bit(t);
        assert(forall|i: int| 0 <= i < e.len() ==> e[i] >= 0x80);
        assert(c != '\n');
        lemma_count_byte_none(e, 10);
    }
}

proof fn lemma_count_byte_le_len(bytes: Seq<u8>, x: u8)
    ensures
        count_byte(bytes, x) <= bytes.len(),
    decreases bytes.len(),
{
    if bytes.len() > 0 {
        lemma_count_byte_le_len(bytes.drop_last(), x);
    }
}

proof fn lemma_count_byte_none(bytes: Seq<u8>, x: u8)
    requires
        forall|i: int| 0 <= i < bytes.len() ==> bytes[i] != x,
    ensures
        count_byte(bytes, x) == 0,
    decreases bytes.len(),
{
    if bytes.len() > 0 {
        lemma_count_byte_none(bytes.drop_last(), x);
    }
}

/// Counting line feeds on the UTF-8 bytes of a text counts its line feed
/// characters, and its last byte is a line feed exactly when its last
/// character is.
proof fn lemma_line_count_utf8(text: Seq<char>)
    ensures
        count_byte(encode_utf8(text), 10) == count_char(text, '\n'),
        (encode_utf8(text).len() > 0) == (text.len() > 0),
        text.len() > 0 ==> ((encode_utf8(text).last() == 10u8) == (text.last() == '\n')),
    decreases text.len(),
{
    if text.len() == 0 {
        assert(encode_utf8(text) =~= Seq::<u8>::empty());
    } else {
        let init = text.drop_last();
        let c = text.last();
        lemma_line_count_utf8(init);
        assert(init + seq![c] =~= text);
        lemma_encode_utf8_concat(init, seq![c]);
        assert(seq![c].drop_first() =~= Seq::<char>::empty());
        assert(encode_utf8(Seq::<char>::empty()) =~= Seq::<u8>::empty());
        assert(seq![c][0] == c);
        assert(encode_utf8(seq![c]) =~= encode_scalar(c as u32));
        lemma_scalar_newline(c);
        lemma_count_byte_concat(encode_utf8(init), encode_scalar(c as u32), 10);
    }
}

} // verus!
