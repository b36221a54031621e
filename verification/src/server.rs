//! The language server's state and decisions: which handler a method goes
//! to, the open documents and how the document notifications change them,
//! where a request's document and position come from, and what each request
//! is answered. The compiler's analyses, file reads and the writing of
//! messages are done by the caller, which hands their results back.
use vstd::prelude::*;
use vstd::string::*;
use crate::conversion::{
    full_document_range, full_document_range_data, line_count, location, location_data, position_data,
    position_object, LanguageLocation, LanguagePosition,
};
use crate::json::{
    json_array, json_as_array, json_as_str, json_as_u64, json_bool, json_data, json_get,
    insert_member, json_map_new, json_null, json_object, json_pointer,
    json_string, json_u64, no_members, object_get, object_get2, opt_value_data, plain_key, JsonData,
};
use crate::protocol::{
    error_data, error_message, notification_data, notification_message, response_data,
    response_message, Message, lemma_error_id, lemma_error_members, lemma_response_members, lemma_notification_members, lemma_response_id,
};
use crate::text::{str_equals, utf8_lossy};
use crate::uri::{decoded_path_bytes, has_file_scheme, is_uri_decodable, uri_decodable, uri_to_path};

verus! {

/// A document as the server holds it: its path and its current text.
pub struct LanguageDocument {
    pub path: String,
    pub source: String,
}

/// The contents of a document.
pub struct DocumentData {
    pub path: Seq<char>,
    pub source: Seq<char>,
}

impl View for LanguageDocument {
    type V = DocumentData;

    open spec fn view(&self) -> DocumentData {
        DocumentData { path: self.path@, source: self.source@ }
    }
}

impl LanguageDocument {
    /// A copy of the document.
    pub fn duplicate(&self) -> (copy: LanguageDocument)
        ensures
            copy@ == self@,
    {
        LanguageDocument { path: self.path.clone(), source: self.source.clone() }
    }
}

/// The handler that a message's method goes to.
#[derive(Clone, Copy, Debug, PartialEq, Eq)]
pub enum Route {
    /// Nothing to do (no method, or `initialized`).
    Ignore,
    Initialize,
    Shutdown,
    Exit,
    DidOpen,
    DidChange,
    DidSave,
    DidClose,
    Completion,
    Hover,
    Definition,
    DocumentSymbol,
    Formatting,
    /// A method the server does not know: requests get a "method not found"
    /// error.
    MethodNotFound,
}

/// The route of a method.
pub open spec fn route_of(method: Option<Seq<char>>) -> Route {
    match method {
        None => Route::Ignore,
        Some(m) => if m == "initialize"@ {
            Route::Initialize
        } else if m == "initialized"@ {
            Route::Ignore
        } else if m == "shutdown"@ {
            Route::Shutdown
        } else if m == "exit"@ {
            Route::Exit
        } else if m == "textDocument/didOpen"@ {
            Route::DidOpen
        } else if m == "textDocument/didChange"@ {
            Route::DidChange
        } else if m == "textDocument/didSave"@ {
            Route::DidSave
        } else if m == "textDocument/didClose"@ {
            Route::DidClose
        } else if m == "textDocument/completion"@ {
            Route::Completion
        } else if m == "textDocument/hover"@ {
            Route::Hover
        } else if m == "textDocument/definition"@ {
            Route::Definition
        } else if m == "textDocument/documentSymbol"@ {
            Route::DocumentSymbol
        } else if m == "textDocument/formatting"@ {
            Route::Formatting
        } else {
            Route::MethodNotFound
        },
    }
}

/// Sends a message's method to its handler.
pub fn route(method: Option<&str>) -> (r: Route)
    ensures
        r == route_of(
            match method {
                Some(m) => Some(m@),
                None => None,
            },
        ),
{
    let m = match method {
        Some(m) => m,
        None => return Route::Ignore,
    };
    if str_equals(m, "initialize") {
        Route::Initialize
    } else if str_equals(m, "initialized") {
        Route::Ignore
    } else if str_equals(m, "shutdown") {
        Route::Shutdown
    } else if str_equals(m, "exit") {
        Route::Exit
    } else if str_equals(m, "textDocument/didOpen") {
        Route::DidOpen
    } else if str_equals(m, "textDocument/didChange") {
        Route::DidChange
    } else if str_equals(m, "textDocument/didSave") {
        Route::DidSave
    } else if str_equals(m, "textDocument/didClose") {
        Route::DidClose
    } else if str_equals(m, "textDocument/completion") {
        Route::Completion
    } else if str_equals(m, "textDocument/hover") {
        Route::Hover
    } else if str_equals(m, "textDocument/definition") {
        Route::Definition
    } else if str_equals(m, "textDocument/documentSymbol") {
        Route::DocumentSymbol
    } else if str_equals(m, "textDocument/formatting") {
        Route::Formatting
    } else {
        Route::MethodNotFound
    }
}

/// The text of a JSON string, if it is one.
pub open spec fn as_text(data: Option<JsonData>) -> Option<Seq<char>> {
    match data {
        Some(JsonData::Str(s)) => Some(s),
        _ => None,
    }
}

/// The URI of the document that a request or notification is about.
pub open spec fn document_uri(params: JsonData) -> Option<Seq<char>> {
    as_text(object_get2(params, "textDocument"@, "uri"@))
}

/// The text that `didOpen` brings, empty when it brings none.
pub open spec fn opened_text(params: JsonData) -> Seq<char> {
    match as_text(object_get2(params, "textDocument"@, "text"@)) {
        Some(s) => s,
        None => Seq::empty(),
    }
}

/// The text of the last content change of `didChange`.
pub open spec fn changed_text(params: JsonData) -> Option<Seq<char>> {
    match object_get(params, "contentChanges"@) {
        Some(JsonData::Array(changes)) => if changes.len() > 0 {
            as_text(object_get(changes.last(), "text"@))
        } else {
            None
        },
        _ => None,
    }
}

/// A non-negative integer member of the `position` of a request.
pub open spec fn position_member(params: JsonData, key: Seq<char>) -> Option<u64> {
    match object_get2(params, "position"@, key) {
        Some(JsonData::PosInt(n)) => Some(n),
        _ => None,
    }
}

/// The 1-based line and column of a request's 0-based position.
pub open spec fn position_spec(params: JsonData) -> Option<(usize, usize)> {
    match (position_member(params, "line"@), position_member(params, "character"@)) {
        (Some(line), Some(character)) => Some(
            (((line as usize) + 1) as usize, ((character as usize) + 1) as usize),
        ),
        _ => None,
    }
}

/// The positions that `position` is defined on: a line and a character that
/// leave room for one more in a `usize`.
pub open spec fn position_in_range(params: JsonData) -> bool {
    &&& (position_member(params, "line"@) matches Some(n) ==> (n as usize) < usize::MAX)
    &&& (position_member(params, "line"@) is Some ==> (position_member(params, "character"@) matches Some(m)
        ==> (m as usize) < usize::MAX))
}

/// The path that the server reads a document from: the path of its URI.
pub open spec fn uri_path(uri: Seq<char>) -> Seq<char> {
    utf8_lossy(decoded_path_bytes(uri))
}

/// The documents of a list of entries, a later entry under a key replacing
/// an earlier one.
pub open spec fn entries_view(entries: Seq<(String, LanguageDocument)>) -> Map<
    Seq<char>,
    DocumentData,
>
    decreases entries.len(),
{
    if entries.len() == 0 {
        Map::empty()
    } else {
        entries_view(entries.drop_last()).insert(entries.last().0@, entries.last().1@)
    }
}

/// No key occurs twice among the entries.
pub open spec fn keys_unique(entries: Seq<(String, LanguageDocument)>) -> bool {
    forall|i: int, j: int|
        0 <= i < j < entries.len() ==> #[trigger] entries[i].0@ != #[trigger] entries[j].0@
}

/// Where a request's document comes from.
pub enum DocumentLookup {
    /// The request names no document, or one that can be neither found open
    /// nor read.
    Missing,
    /// The document is open: a copy of it.
    Open(LanguageDocument),
    /// The document is not open: it is read from this path.
    Read(String),
}

/// What `didSave` asks of the caller.
pub enum SaveStep {
    /// The notification names no document.
    Skip,
    /// Publish the diagnostics of this URI.
    Publish(String),
    /// The document is not open: read it from `path`, open it under `uri` if
    /// the read succeeds, then publish the diagnostics of `uri`.
    Read { uri: String, path: String },
}

/// The documents after `didOpen`: the document under its URI holds the path
/// of the URI and the text that the notification brings; nothing changes
/// without a URI or with one that is not a `file://` URI.
pub open spec fn opened_documents(docs: Map<Seq<char>, DocumentData>, params: JsonData) -> Map<
    Seq<char>,
    DocumentData,
> {
    match document_uri(params) {
        Some(u) => if has_file_scheme(u) {
            docs.insert(u, DocumentData { path: uri_path(u), source: opened_text(params) })
        } else {
            docs
        },
        None => docs,
    }
}

/// The documents after `didChange`: an open document takes the text of the
/// last change and keeps its path; nothing else changes.
pub open spec fn changed_documents(docs: Map<Seq<char>, DocumentData>, params: JsonData) -> Map<
    Seq<char>,
    DocumentData,
> {
    match (document_uri(params), changed_text(params)) {
        (Some(u), Some(t)) => if docs.dom().contains(u) {
            docs.insert(u, DocumentData { path: docs[u].path, source: t })
        } else {
            docs
        },
        _ => docs,
    }
}

/// The documents after `didClose`: the document under its URI is closed.
pub open spec fn closed_documents(docs: Map<Seq<char>, DocumentData>, params: JsonData) -> Map<
    Seq<char>,
    DocumentData,
> {
    match document_uri(params) {
        Some(u) => docs.remove(u),
        None => docs,
    }
}

/// Where a request's document comes from, as data.
pub enum DocumentSource {
    Missing,
    Open(DocumentData),
    Read(Seq<char>),
}

/// The source of a request's document given the open documents: the open
/// document under its URI, else the path of its `file://` URI, else none.
pub open spec fn lookup_spec(docs: Map<Seq<char>, DocumentData>, params: JsonData) -> DocumentSource {
    match document_uri(params) {
        None => DocumentSource::Missing,
        Some(u) => if docs.dom().contains(u) {
            DocumentSource::Open(docs[u])
        } else if has_file_scheme(u) {
            DocumentSource::Read(uri_path(u))
        } else {
            DocumentSource::Missing
        },
    }
}

/// A lookup as data.
pub open spec fn lookup_view(lookup: DocumentLookup) -> DocumentSource {
    match lookup {
        DocumentLookup::Missing => DocumentSource::Missing,
        DocumentLookup::Open(d) => DocumentSource::Open(d@),
        DocumentLookup::Read(p) => DocumentSource::Read(p@),
    }
}

/// The state of the server: the workspace root and the open documents,
/// keyed by URI.
pub struct LanguageServer {
    root: String,
    entries: Vec<(String, LanguageDocument)>,
}

impl LanguageServer {
    /// The workspace root.
    pub closed spec fn root_path(&self) -> Seq<char> {
        self.root@
    }

    /// The workspace root.
    pub fn root(&self) -> (root: &str)
        ensures
            root@ == self.root_path(),
    {
        self.root.as_str()
    }

    /// The open documents, by URI.
    pub closed spec fn documents(&self) -> Map<Seq<char>, DocumentData> {
        entries_view(self.entries@)
    }

    /// The server's internal invariant: each URI is held once.
    #[verifier::type_invariant]
    spec fn wf(self) -> bool {
        keys_unique(self.entries@)
    }

    /// A server with an empty root and no open documents.
    pub fn new() -> (server: LanguageServer)
        ensures
            server.root_path() == Seq::<char>::empty(),
            server.documents() == Map::<Seq<char>, DocumentData>::empty(),
    {
        LanguageServer { root: String::new(), entries: Vec::new() }
    }

    /// Sets the workspace root.
    pub fn initialize(&mut self, root: String)
        ensures
            final(self).root_path() == root@,
            final(self).documents() == old(self).documents(),
    {
        proof {
            use_type_invariant(&*self);
        }
        self.root = root;
    }

    fn find(&self, uri: &str) -> (index: Option<usize>)
        ensures
            match index {
                Some(i) => i < self.entries@.len() && self.entries@[i as int].0@ == uri@,
                None => forall|i: int|
                    0 <= i < self.entries@.len() ==> #[trigger] self.entries@[i].0@ != uri@,
            },
    {
        let mut i: usize = 0;
        while i < self.entries.len()
            invariant
                0 <= i <= self.entries@.len(),
                forall|j: int| 0 <= j < i ==> #[trigger] self.entries@[j].0@ != uri@,
            decreases self.entries@.len() - i,
        {
            if str_equals(self.entries[i].0.as_str(), uri) {
                return Some(i);
            }
            i = i + 1;
        }
        None
    }

    /// The open document under `uri`.
    pub fn open_document(&self, uri: &str) -> (document: Option<&LanguageDocument>)
        ensures
            match document {
                Some(d) => self.documents().dom().contains(uri@) && self.documents()[uri@]
                    == d@,
                None => !self.documents().dom().contains(uri@),
            },
    {
        proof {
            use_type_invariant(self);
        }
        match self.find(uri) {
            Some(i) => {
                proof {
                    lemma_entries_view_at(self.entries@, i as int);
                }
                Some(&self.entries[i].1)
            },
            None => {
                proof {
                    lemma_entries_view_absent(self.entries@, uri@);
                }
                None
            },
        }
    }

    /// Opens `document` under `uri`, replacing a document open under it.
    pub fn insert_document(&mut self, uri: &str, document: LanguageDocument)
        ensures
            final(self).root_path() == old(self).root_path(),
            final(self).documents() == old(self).documents().insert(uri@, document@),
    {
        proof {
            use_type_invariant(&*self);
        }
        let found = self.find(uri);
        let mut entries: Vec<(String, LanguageDocument)> = Vec::new();
        std::mem::swap(&mut entries, &mut self.entries);
        match found {
            Some(i) => {
                let entry = (String::from_str(uri), document);
                proof {
                    lemma_entries_view_update(entries@, i as int, entry);
                }
                let ghost before = entries@;
                entries.set(i, entry);
                assert(forall|j: int| 0 <= j < entries@.len() ==> #[trigger] entries@[j].0@ == before[j].0@);
            },
            None => {
                let ghost before = entries@;
                let key = String::from_str(uri);
                assert(key@ == uri@);
                entries.push((key, document));
                assert(entries@.drop_last() =~= before);
                assert forall|a: int, b: int|
                    0 <= a < b < entries@.len() implies #[trigger] entries@[a].0@
                    != #[trigger] entries@[b].0@ by {
                    if b == entries@.len() - 1 {
                        assert(entries@[a] == before[a]);
                        assert(before[a].0@ != uri@);
                        assert(entries@[b].0@ == uri@);
                    } else {
                        assert(entries@[a] == before[a]);
                        assert(entries@[b] == before[b]);
                        assert(keys_unique(before));
                        assert(before[a].0@ != before[b].0@);
                    }
                }
            },
        }
        self.entries = entries;
    }

    /// Closes the document under `uri`, if one is open.
    pub fn remove_document(&mut self, uri: &str)
        ensures
            final(self).root_path() == old(self).root_path(),
            final(self).documents() == old(self).documents().remove(uri@),
    {
        proof {
            use_type_invariant(&*self);
        }
        let found = self.find(uri);
        let mut entries: Vec<(String, LanguageDocument)> = Vec::new();
        std::mem::swap(&mut entries, &mut self.entries);
        match found {
            Some(i) => {
                proof {
                    lemma_entries_view_remove(entries@, i as int);
                }
                let ghost before = entries@;
                entries.remove(i);
                assert forall|a: int, b: int|
                    0 <= a < b < entries@.len() implies #[trigger] entries@[a].0@
                    != #[trigger] entries@[b].0@ by {
                    let a0 = if a < i { a } else { a + 1 };
                    let b0 = if b < i { b } else { b + 1 };
                    assert(entries@[a] == before[a0]);
                    assert(entries@[b] == before[b0]);
                }
            },
            None => {
                proof {
                    lemma_entries_view_absent(entries@, uri@);
                    assert(self.documents().remove(uri@) =~= self.documents());
                }
            },
        }
        self.entries = entries;
    }
}

/// Dropping the last entry keeps the others, and their keys unique.
proof fn lemma_entries_drop_last(entries: Seq<(String, LanguageDocument)>)
    requires
        entries.len() > 0,
    ensures
        forall|i: int| 0 <= i < entries.len() - 1 ==> #[trigger] entries.drop_last()[i] == entries[i],
        keys_unique(entries) ==> keys_unique(entries.drop_last()),
{
    let init = entries.drop_last();
    if keys_unique(entries) {
        assert forall|a: int, b: int| 0 <= a < b < init.len() implies #[trigger] init[a].0@
            != #[trigger] init[b].0@ by {
            assert(init[a] == entries[a]);
            assert(init[b] == entries[b]);
        }
    }
}

/// The view of entries with one entry replaced by another under the same key.
proof fn lemma_entries_view_update(entries: Seq<(String, LanguageDocument)>, i: int, e: (String, LanguageDocument))
    requires
        keys_unique(entries),
        0 <= i < entries.len(),
        entries[i].0@ == e.0@,
    ensures
        entries_view(entries.update(i, e)) == entries_view(entries).insert(e.0@, e.1@),
    decreases entries.len(),
{
    let updated = entries.update(i, e);
    lemma_entries_drop_last(entries);
    if i == entries.len() - 1 {
        assert(updated.drop_last() =~= entries.drop_last());
        assert forall|j: int| 0 <= j < entries.drop_last().len() implies #[trigger] entries.drop_last()[j].0@ != e.0@ by {
            assert(entries.drop_last()[j] == entries[j]);
        }
        lemma_entries_view_absent(entries.drop_last(), e.0@);
        assert(entries_view(entries).insert(e.0@, e.1@) =~= entries_view(entries.drop_last()).insert(e.0@, e.1@));
    } else {
        lemma_entries_view_update(entries.drop_last(), i, e);
        assert(updated.drop_last() =~= entries.drop_last().update(i, e));
        assert(entries.last().0@ != e.0@);
        assert(entries_view(updated) =~= entries_view(entries).insert(e.0@, e.1@));
    }
}

/// The view of entries with one entry removed.
proof fn lemma_entries_view_remove(entries: Seq<(String, LanguageDocument)>, i: int)
    requires
        keys_unique(entries),
        0 <= i < entries.len(),
    ensures
        entries_view(entries.remove(i)) == entries_view(entries).remove(entries[i].0@),
    decreases entries.len(),
{
    let key = entries[i].0@;
    let removed = entries.remove(i);
    lemma_entries_drop_last(entries);
    if i == entries.len() - 1 {
        assert(removed =~= entries.drop_last());
        assert forall|j: int| 0 <= j < entries.drop_last().len() implies #[trigger] entries.drop_last()[j].0@ != key by {
            assert(entries.drop_last()[j] == entries[j]);
        }
        lemma_entries_view_absent(entries.drop_last(), key);
        assert(entries_view(entries).remove(key) =~= entries_view(entries.drop_last()));
    } else {
        lemma_entries_view_remove(entries.drop_last(), i);
        assert(removed.drop_last() =~= entries.drop_last().remove(i));
        assert(removed.last() == entries.last());
        assert(entries.last().0@ != key);
        assert(entries_view(removed) =~= entries_view(entries).remove(key));
    }
}

/// A key that no entry has is not in the view.
proof fn lemma_entries_view_absent(entries: Seq<(String, LanguageDocument)>, key: Seq<char>)
    requires
        forall|i: int| 0 <= i < entries.len() ==> #[trigger] entries[i].0@ != key,
    ensures
        !entries_view(entries).dom().contains(key),
    decreases entries.len(),
{
    if entries.len() > 0 {
        lemma_entries_drop_last(entries);
        assert(entries.last().0@ != key);
        assert forall|i: int| 0 <= i < entries.drop_last().len() implies #[trigger] entries.drop_last()[i].0@ != key by {
            assert(entries.drop_last()[i] == entries[i]);
        }
        lemma_entries_view_absent(entries.drop_last(), key);
    }
}

/// The entry at `i` is what the view holds under its key.
proof fn lemma_entries_view_at(entries: Seq<(String, LanguageDocument)>, i: int)
    requires
        keys_unique(entries),
        0 <= i < entries.len(),
    ensures
        entries_view(entries).dom().contains(entries[i].0@),
        entries_view(entries)[entries[i].0@] == entries[i].1@,
    decreases entries.len(),
{
    lemma_entries_drop_last(entries);
    if i < entries.len() - 1 {
        lemma_entries_view_at(entries.drop_last(), i);
        assert(entries.last().0@ != entries[i].0@);
    }
}

/// A key made of ASCII letters, `/`-free and `~`-free, is a plain object key.
proof fn lemma_letters_plain_key(key: Seq<char>)
    requires
        key.len() > 0,
        forall|i: int| 0 <= i < key.len() ==> ('a' <= #[trigger] key[i] <= 'z' || 'A' <= key[i] <= 'Z'),
    ensures
        plain_key(key),
{
    assert(!('0' <= key[0] <= '9'));
    assert(!key.contains('/')) by {
        if key.contains('/') {
            let i = choose|i: int| 0 <= i < key.len() && key[i] == '/';
            assert('a' <= key[i] <= 'z' || 'A' <= key[i] <= 'Z');
        }
    }
    assert(!key.contains('~')) by {
        if key.contains('~') {
            let i = choose|i: int| 0 <= i < key.len() && key[i] == '~';
            assert('a' <= key[i] <= 'z' || 'A' <= key[i] <= 'Z');
        }
    }
}

/// The text of the member `inner` of the member `outer` of `params`, read
/// through the pointer `/outer/inner`.
fn pointer_text<'a>(params: &'a serde_json::Value, pointer: &str, outer: &str, inner: &str) -> (text: Option<&'a str>)
    requires
        pointer@ == seq!['/'] + outer@ + seq!['/'] + inner@,
        plain_key(outer@),
        plain_key(inner@),
    ensures
        match text {
            Some(t) => as_text(object_get2(json_data(*params), outer@, inner@)) == Some(t@),
            None => as_text(object_get2(json_data(*params), outer@, inner@)) is None,
        },
{
    match json_pointer(params, pointer) {
        Some(v) => json_as_str(v),
        None => None,
    }
}

/// The URI of the document that `params` names.
pub fn params_uri(params: &serde_json::Value) -> (uri: Option<&str>)
    ensures
        match uri {
            Some(u) => document_uri(json_data(*params)) == Some(u@),
            None => document_uri(json_data(*params)) is None,
        },
{
    proof {
        reveal_strlit("/textDocument/uri");
        reveal_strlit("textDocument");
        reveal_strlit("uri");
        assert("/textDocument/uri"@ =~= seq!['/'] + "textDocument"@ + seq!['/'] + "uri"@);
        lemma_letters_plain_key("textDocument"@);
        lemma_letters_plain_key("uri"@);
    }
    pointer_text(params, "/textDocument/uri", "textDocument", "uri")
}

fn params_text(params: &serde_json::Value) -> (text: Option<&str>)
    ensures
        match text {
            Some(t) => as_text(object_get2(json_data(*params), "textDocument"@, "text"@)) == Some(t@),
            None => as_text(object_get2(json_data(*params), "textDocument"@, "text"@)) is None,
        },
{
    proof {
        reveal_strlit("/textDocument/text");
        reveal_strlit("textDocument");
        reveal_strlit("text");
        assert("/textDocument/text"@ =~= seq!['/'] + "textDocument"@ + seq!['/'] + "text"@);
        lemma_letters_plain_key("textDocument"@);
        lemma_letters_plain_key("text"@);
    }
    pointer_text(params, "/textDocument/text", "textDocument", "text")
}

fn params_changed_text(params: &serde_json::Value) -> (text: Option<&str>)
    ensures
        match text {
            Some(t) => changed_text(json_data(*params)) == Some(t@),
            None => changed_text(json_data(*params)) is None,
        },
{
    let changes = match json_get(params, "contentChanges") {
        Some(v) => match json_as_array(v) {
            Some(a) => a,
            None => return None,
        },
        None => return None,
    };
    if changes.len() == 0 {
        return None;
    }
    let last = &changes[changes.len() - 1];
    proof {
        let data = changes@.map_values(|x: serde_json::Value| json_data(x));
        assert(data.last() == json_data(*last));
    }
    match json_get(last, "text") {
        Some(t) => json_as_str(t),
        None => None,
    }
}

fn position_number(params: &serde_json::Value, pointer: &str, key: &str) -> (n: Option<u64>)
    requires
        pointer@ == seq!['/'] + "position"@ + seq!['/'] + key@,
        plain_key("position"@),
        plain_key(key@),
    ensures
        n == position_member(json_data(*params), key@),
{
    match json_pointer(params, pointer) {
        Some(v) => json_as_u64(v),
        None => None,
    }
}

/// Whether `position` is defined on a request's parameters.
fn is_position_in_range(params: &serde_json::Value) -> (in_range: bool)
    ensures
        in_range == position_in_range(json_data(*params)),
{
    proof {
        reveal_strlit("/position/line");
        reveal_strlit("/position/character");
        reveal_strlit("position");
        reveal_strlit("line");
        reveal_strlit("character");
        assert("/position/line"@ =~= seq!['/'] + "position"@ + seq!['/'] + "line"@);
        assert("/position/character"@ =~= seq!['/'] + "position"@ + seq!['/'] + "character"@);
        lemma_letters_plain_key("position"@);
        lemma_letters_plain_key("line"@);
        lemma_letters_plain_key("character"@);
    }
    match position_number(params, "/position/line", "line") {
        Some(n) => {
            if n as usize == usize::MAX {
                return false;
            }
            match position_number(params, "/position/character", "character") {
                Some(m) => (m as usize) < usize::MAX,
                None => true,
            }
        },
        None => true,
    }
}

/// The 1-based line and column of the 0-based position of a request.
pub fn position(params: &serde_json::Value) -> (at: Option<(usize, usize)>)
    requires
        position_in_range(json_data(*params)),
    ensures
        at == position_spec(json_data(*params)),
{
    proof {
        reveal_strlit("/position/line");
        reveal_strlit("/position/character");
        reveal_strlit("position");
        reveal_strlit("line");
        reveal_strlit("character");
        assert("/position/line"@ =~= seq!['/'] + "position"@ + seq!['/'] + "line"@);
        assert("/position/character"@ =~= seq!['/'] + "position"@ + seq!['/'] + "character"@);
        lemma_letters_plain_key("position"@);
        lemma_letters_plain_key("line"@);
        lemma_letters_plain_key("character"@);
    }
    let line = match position_number(params, "/position/line", "line") {
        Some(n) => n as usize + 1,
        None => return None,
    };
    let column = match position_number(params, "/position/character", "character") {
        Some(n) => n as usize + 1,
        None => return None,
    };
    Some((line, column))
}

/// The diagnostics notification for a document: `{uri, diagnostics}` under
/// the method `textDocument/publishDiagnostics`.
pub open spec fn publish_data(uri: Seq<char>, diagnostics: Seq<JsonData>) -> JsonData {
    notification_data(
        "textDocument/publishDiagnostics"@,
        JsonData::Object(
            no_members().insert("uri"@, JsonData::Str(uri)).insert(
                "diagnostics"@,
                JsonData::Array(diagnostics),
            ),
        ),
    )
}

/// The notification that publishes `diagnostics` for the document at `uri`.
pub fn publish_diagnostics(uri: &str, diagnostics: Vec<serde_json::Value>) -> (message:
    serde_json::Value)
    ensures
        json_data(message) == publish_data(
            uri@,
            diagnostics@.map_values(|v: serde_json::Value| json_data(v)),
        ),
{
    let mut members = json_map_new();
    insert_member(&mut members, "uri", json_string(String::from_str(uri)));
    insert_member(&mut members, "diagnostics", json_array(diagnostics));
    notification_message("textDocument/publishDiagnostics", json_object(members))
}

/// The document of a notification that the server reads: those whose URI
/// `uri_to_path` is defined on.
pub open spec fn notification_uri_decodable(params: JsonData) -> bool {
    document_uri(params) matches Some(u) ==> uri_decodable(u)
}

impl LanguageServer {
    /// `textDocument/didOpen`: opens the document under its URI, with the
    /// path of its URI and the text it brings (empty when it brings none),
    /// and asks for its diagnostics to be published. A notification without
    /// a URI, or with one that is not a `file://` URI, changes nothing.
    pub fn did_open(&mut self, params: &serde_json::Value) -> (publish: Option<String>)
        requires
            notification_uri_decodable(json_data(*params)),
        ensures
            final(self).root_path() == old(self).root_path(),
            final(self).documents() == opened_documents(old(self).documents(), json_data(*params)),
            match publish {
                Some(p) => document_uri(json_data(*params)) == Some(p@) && has_file_scheme(p@),
                None => !(document_uri(json_data(*params)) matches Some(u) && has_file_scheme(u)),
            },
    {
        let uri = match params_uri(params) {
            Some(u) => u,
            None => return None,
        };
        let path = match uri_to_path(uri) {
            Some(p) => p,
            None => return None,
        };
        let source = match params_text(params) {
            Some(t) => String::from_str(t),
            None => String::new(),
        };
        self.insert_document(uri, LanguageDocument { path, source });
        Some(String::from_str(uri))
    }

    /// `textDocument/didChange`: the text of the last content change becomes
    /// the text of the open document, and its diagnostics are to be
    /// published. Without a URI or a change text nothing happens; a change to
    /// a document that is not open changes nothing but is still published.
    pub fn did_change(&mut self, params: &serde_json::Value) -> (publish: Option<String>)
        ensures
            final(self).root_path() == old(self).root_path(),
            final(self).documents() == changed_documents(old(self).documents(), json_data(*params)),
            match publish {
                Some(p) => document_uri(json_data(*params)) == Some(p@) && changed_text(
                    json_data(*params),
                ) is Some,
                None => document_uri(json_data(*params)) is None || changed_text(json_data(*params)) is None,
            },
    {
        let uri = match params_uri(params) {
            Some(u) => u,
            None => return None,
        };
        let change = match params_changed_text(params) {
            Some(t) => t,
            None => return None,
        };
        let path = match self.open_document(uri) {
            Some(document) => Some(document.path.clone()),
            None => None,
        };
        match path {
            Some(path) => {
                self.insert_document(uri, LanguageDocument { path, source: String::from_str(change) });
            },
            None => {},
        }
        Some(String::from_str(uri))
    }

    /// `textDocument/didSave`: a document that is open is published; one
    /// that is not is to be read from the path of its `file://` URI, opened
    /// if the read succeeds, and published.
    pub fn did_save(&self, params: &serde_json::Value) -> (step: SaveStep)
        requires
            document_uri(json_data(*params)) matches Some(u) ==> (!self.documents().dom().contains(
                u,
            ) ==> uri_decodable(u)),
        ensures
            match document_uri(json_data(*params)) {
                None => step is Skip,
                Some(u) => if self.documents().dom().contains(u) || !has_file_scheme(u) {
                    step matches SaveStep::Publish(x) && x@ == u
                } else {
                    step matches SaveStep::Read { uri, path } && uri@ == u && path@ == uri_path(u)
                },
            },
    {
        let uri = match params_uri(params) {
            Some(u) => u,
            None => return SaveStep::Skip,
        };
        if self.open_document(uri).is_some() {
            return SaveStep::Publish(String::from_str(uri));
        }
        match uri_to_path(uri) {
            Some(path) => SaveStep::Read { uri: String::from_str(uri), path },
            None => SaveStep::Publish(String::from_str(uri)),
        }
    }

    /// `textDocument/didClose`: closes the document and clears its
    /// diagnostics: the notification with an empty list is returned.
    pub fn did_close(&mut self, params: &serde_json::Value) -> (notification: Option<
        serde_json::Value,
    >)
        ensures
            final(self).root_path() == old(self).root_path(),
            final(self).documents() == closed_documents(old(self).documents(), json_data(*params)),
            match document_uri(json_data(*params)) {
                Some(u) => notification matches Some(n) && json_data(n) == publish_data(u, Seq::empty()),
                None => notification is None,
            },
    {
        let uri = match params_uri(params) {
            Some(u) => u,
            None => return None,
        };
        self.remove_document(uri);
        let message = publish_diagnostics(uri, Vec::new());
        assert(Seq::<serde_json::Value>::empty().map_values(|v: serde_json::Value| json_data(v))
            =~= Seq::<JsonData>::empty());
        Some(message)
    }

    /// Where the document of a request comes from: the open document under
    /// its URI, else the path of its `file://` URI, else nowhere.
    pub fn document(&self, params: &serde_json::Value) -> (lookup: DocumentLookup)
        requires
            document_uri(json_data(*params)) matches Some(u) ==> (!self.documents().dom().contains(
                u,
            ) ==> uri_decodable(u)),
        ensures
            lookup_view(lookup) == lookup_spec(self.documents(), json_data(*params)),
    {
        let uri = match params_uri(params) {
            Some(u) => u,
            None => return DocumentLookup::Missing,
        };
        match self.open_document(uri) {
            Some(document) => DocumentLookup::Open(document.duplicate()),
            None => match uri_to_path(uri) {
                Some(path) => DocumentLookup::Read(path),
                None => DocumentLookup::Missing,
            },
        }
    }
}

/// Whether `did_open` is defined on a notification: its document URI, if it
/// has one, is one that `uri_to_path` is defined on.
fn is_notification_uri_decodable(params: &serde_json::Value) -> (decodable: bool)
    ensures
        decodable == notification_uri_decodable(json_data(*params)),
{
    match params_uri(params) {
        Some(uri) => is_uri_decodable(uri),
        None => true,
    }
}

/// Whether `requested_root` is defined on an `initialize` request: its
/// `rootUri`, if it is a text, is one that `uri_to_path` is defined on.
fn is_root_uri_decodable(params: &serde_json::Value) -> (decodable: bool)
    ensures
        decodable == (as_text(object_get(json_data(*params), "rootUri"@)) matches Some(u)
            ==> uri_decodable(u)),
{
    match json_get(params, "rootUri") {
        Some(v) => match json_as_str(v) {
            Some(uri) => is_uri_decodable(uri),
            None => true,
        },
        None => true,
    }
}

impl LanguageServer {
    /// Whether `document` and `did_save` are defined on a request: its
    /// document, if it names one that is not open, has a URI that
    /// `uri_to_path` is defined on.
    fn is_document_uri_decodable(&self, params: &serde_json::Value) -> (decodable: bool)
        ensures
            decodable == (document_uri(json_data(*params)) matches Some(u) ==> (
            !self.documents().dom().contains(u) ==> uri_decodable(u))),
    {
        match params_uri(params) {
            Some(uri) => self.open_document(uri).is_some() || is_uri_decodable(uri),
            None => true,
        }
    }
}

/// The root that an `initialize` request asks for: the path of its `rootUri`
/// when that is a `file://` URI, else its `rootPath`.
pub open spec fn requested_root_spec(params: JsonData) -> Option<Seq<char>> {
    match as_text(object_get(params, "rootUri"@)) {
        Some(u) => if has_file_scheme(u) {
            Some(uri_path(u))
        } else {
            as_text(object_get(params, "rootPath"@))
        },
        None => as_text(object_get(params, "rootPath"@)),
    }
}

/// The root that an `initialize` request asks for; the caller resolves it
/// to its enclosing workspace.
pub fn requested_root(params: &serde_json::Value) -> (root: Option<String>)
    requires
        as_text(object_get(json_data(*params), "rootUri"@)) matches Some(u) ==> uri_decodable(u),
    ensures
        match root {
            Some(r) => requested_root_spec(json_data(*params)) == Some(r@),
            None => requested_root_spec(json_data(*params)) is None,
        },
{
    let from_uri = match json_get(params, "rootUri") {
        Some(v) => match json_as_str(v) {
            Some(u) => uri_to_path(u),
            None => None,
        },
        None => None,
    };
    match from_uri {
        Some(path) => Some(path),
        None => match json_get(params, "rootPath") {
            Some(v) => match json_as_str(v) {
                Some(p) => Some(String::from_str(p)),
                None => None,
            },
            None => None,
        },
    }
}

/// The answer to a request with `id`: a response with the handler's result,
/// or an internal error (-32603) with the handler's error text. Without an
/// id (a notification) there is no answer.
pub fn respond(id: Option<serde_json::Value>, outcome: Result<serde_json::Value, String>) -> (answer:
    Option<serde_json::Value>)
    ensures
        match id {
            None => answer is None,
            Some(i) => answer matches Some(a) && json_data(a) == match outcome {
                Ok(v) => response_data(json_data(i), json_data(v)),
                Err(e) => error_data(json_data(i), -32603i64, e@),
            },
        },
{
    let id = match id {
        Some(id) => id,
        None => return None,
    };
    match outcome {
        Ok(value) => Some(response_message(id, value)),
        Err(error) => Some(error_message(id, -32603, error.as_str())),
    }
}

/// The answer to a request for a method the server does not know: a
/// "method not found" error (-32601). Notifications get none.
pub fn method_not_found(id: Option<serde_json::Value>) -> (answer: Option<serde_json::Value>)
    ensures
        match id {
            None => answer is None,
            Some(i) => answer matches Some(a) && json_data(a) == error_data(
                json_data(i),
                -32601i64,
                "method not found"@,
            ),
        },
{
    match id {
        Some(id) => Some(error_message(id, -32601, "method not found")),
        None => None,
    }
}

/// The result of a completion request: the items, or `null` when the
/// request has no document or position.
pub fn completion_result(items: Option<Vec<serde_json::Value>>) -> (result: serde_json::Value)
    ensures
        json_data(result) == match items {
            Some(v) => JsonData::Array(v@.map_values(|x: serde_json::Value| json_data(x))),
            None => JsonData::Null,
        },
{
    match items {
        Some(v) => json_array(v),
        None => json_null(),
    }
}

/// A hover with plain text.
pub open spec fn hover_data(text: Seq<char>) -> JsonData {
    JsonData::Object(
        no_members().insert(
            "contents"@,
            JsonData::Object(
                no_members().insert("kind"@, JsonData::Str("plaintext"@)).insert(
                    "value"@,
                    JsonData::Str(text),
                ),
            ),
        ),
    )
}

/// The result of a hover request: the hover text as plain text, or `null`
/// when there is none.
pub fn hover_result(text: Option<String>) -> (result: serde_json::Value)
    ensures
        json_data(result) == match text {
            Some(t) => hover_data(t@),
            None => JsonData::Null,
        },
{
    match text {
        Some(t) => {
            let mut contents = json_map_new();
            insert_member(&mut contents, "kind", json_string(String::from_str("plaintext")));
            insert_member(&mut contents, "value", json_string(t));
            let mut members = json_map_new();
            insert_member(&mut members, "contents", json_object(contents));
            json_object(members)
        },
        None => json_null(),
    }
}

/// The result of a definition request: the location, or `null` when there
/// is none.
pub fn definition_result(found: Option<&LanguageLocation>) -> (result: serde_json::Value)
    ensures
        json_data(result) == match found {
            Some(l) => location_data(*l),
            None => JsonData::Null,
        },
{
    match found {
        Some(l) => location(l),
        None => json_null(),
    }
}

/// The result of a document symbol request: the symbols, or an empty list
/// when the request has no document.
pub fn symbols_result(symbols: Option<Vec<serde_json::Value>>) -> (result: serde_json::Value)
    ensures
        json_data(result) == match symbols {
            Some(v) => JsonData::Array(v@.map_values(|x: serde_json::Value| json_data(x))),
            None => JsonData::Array(Seq::empty()),
        },
{
    match symbols {
        Some(v) => json_array(v),
        None => {
            let empty: Vec<serde_json::Value> = Vec::new();
            let result = json_array(empty);
            assert(empty@.map_values(|x: serde_json::Value| json_data(x)) =~= Seq::<JsonData>::empty());
            result
        },
    }
}

/// The one edit that replaces a whole document by its formatted text.
pub open spec fn formatting_edit(source: Seq<char>, formatted: Seq<char>) -> JsonData {
    JsonData::Object(
        no_members().insert("range"@, full_document_range_data(source)).insert(
            "newText"@,
            JsonData::Str(formatted),
        ),
    )
}

/// The result of a formatting request: `null` without a document; no edits
/// when the formatter fails (`formatted` is `None`) or leaves the text as it
/// is; otherwise one edit that replaces the whole document.
pub fn formatting_result(source: Option<&str>, formatted: Option<String>) -> (result:
    serde_json::Value)
    ensures
        json_data(result) == match source {
            None => JsonData::Null,
            Some(s) => match formatted {
                None => JsonData::Array(Seq::empty()),
                Some(f) => if f@ == s@ {
                    JsonData::Array(Seq::empty())
                } else {
                    JsonData::Array(seq![formatting_edit(s@, f@)])
                },
            },
        },
{
    let source = match source {
        Some(s) => s,
        None => return json_null(),
    };
    let no_edits: Vec<serde_json::Value> = Vec::new();
    assert(no_edits@.map_values(|x: serde_json::Value| json_data(x)) =~= Seq::<JsonData>::empty());
    let formatted = match formatted {
        Some(f) => f,
        None => return json_array(no_edits),
    };
    if str_equals(formatted.as_str(), source) {
        return json_array(no_edits);
    }
    let mut edit = json_map_new();
    insert_member(&mut edit, "range", full_document_range(source));
    insert_member(&mut edit, "newText", json_string(formatted));
    let mut edits: Vec<serde_json::Value> = Vec::new();
    edits.push(json_object(edit));
    assert(edits@.map_values(|x: serde_json::Value| json_data(x)) =~= seq![formatting_edit(source@, formatted@)]);
    json_array(edits)
}

/// The server's capabilities and identity, answered to `initialize`: full
/// text synchronisation with open, close and save; completion triggered by
/// `.`, `:`, `/` and `"`; hover, definition, document symbols and
/// formatting.
pub open spec fn capabilities_data(version: Seq<char>) -> JsonData {
    let sync = no_members().insert("openClose"@, JsonData::Bool(true)).insert(
        "change"@,
        JsonData::PosInt(1),
    ).insert("save"@, JsonData::Bool(true));
    let triggers = seq![
        JsonData::Str("."@),
        JsonData::Str(":"@),
        JsonData::Str("/"@),
        JsonData::Str("\""@),
    ];
    let provided = no_members().insert("textDocumentSync"@, JsonData::Object(sync)).insert(
        "completionProvider"@,
        JsonData::Object(no_members().insert("triggerCharacters"@, JsonData::Array(triggers))),
    ).insert("hoverProvider"@, JsonData::Bool(true)).insert(
        "definitionProvider"@,
        JsonData::Bool(true),
    ).insert("documentSymbolProvider"@, JsonData::Bool(true)).insert(
        "documentFormattingProvider"@,
        JsonData::Bool(true),
    );
    let info = no_members().insert("name"@, JsonData::Str("dowe-language-server"@)).insert(
        "version"@,
        JsonData::Str(version),
    );
    JsonData::Object(
        no_members().insert("capabilities"@, JsonData::Object(provided)).insert(
            "serverInfo"@,
            JsonData::Object(info),
        ),
    )
}

/// The answer to `initialize`, naming the server's version.
pub fn capabilities(version: &str) -> (result: serde_json::Value)
    ensures
        json_data(result) == capabilities_data(version@),
{
    let mut sync = json_map_new();
    insert_member(&mut sync, "openClose", json_bool(true));
    insert_member(&mut sync, "change", json_u64(1));
    insert_member(&mut sync, "save", json_bool(true));
    let mut triggers: Vec<serde_json::Value> = Vec::new();
    triggers.push(json_string(String::from_str(".")));
    triggers.push(json_string(String::from_str(":")));
    triggers.push(json_string(String::from_str("/")));
    triggers.push(json_string(String::from_str("\"")));
    let mut completion = json_map_new();
    let ghost trigger_data = triggers@.map_values(|x: serde_json::Value| json_data(x));
    assert(trigger_data =~= seq![
        JsonData::Str("."@),
        JsonData::Str(":"@),
        JsonData::Str("/"@),
        JsonData::Str("\""@),
    ]);
    insert_member(&mut completion, "triggerCharacters", json_array(triggers));
    let mut provided = json_map_new();
    insert_member(&mut provided, "textDocumentSync", json_object(sync));
    insert_member(&mut provided, "completionProvider", json_object(completion));
    insert_member(&mut provided, "hoverProvider", json_bool(true));
    insert_member(&mut provided, "definitionProvider", json_bool(true));
    insert_member(&mut provided, "documentSymbolProvider", json_bool(true));
    insert_member(&mut provided, "documentFormattingProvider", json_bool(true));
    let mut info = json_map_new();
    insert_member(&mut info, "name", json_string(String::from_str("dowe-language-server")));
    insert_member(&mut info, "version", json_string(String::from_str(version)));
    let mut members = json_map_new();
    insert_member(&mut members, "capabilities", json_object(provided));
    insert_member(&mut members, "serverInfo", json_object(info));
    json_object(members)
}

/// `position` where it is defined; `None` for a position whose line or
/// character leaves no room for one more in a `usize`.
pub fn try_position(params: &serde_json::Value) -> (at: Option<Option<(usize, usize)>>)
    ensures
        at is None <==> !position_in_range(json_data(*params)),
        at matches Some(p) ==> p == position_spec(json_data(*params)),
{
    if is_position_in_range(params) {
        Some(position(params))
    } else {
        None
    }
}

/// The requests that are answered from a document.
#[derive(Clone, Copy, Debug, PartialEq, Eq)]
pub enum Query {
    Completion,
    Hover,
    Definition,
    DocumentSymbol,
    Formatting,
}

/// What the caller does once the server has handled a message.
pub enum Action {
    /// Nothing more.
    Continue,
    /// Stop serving.
    Stop,
    /// Write this message.
    Send(serde_json::Value),
    /// Resolve `requested` (the current directory when `None`) to its
    /// workspace, make that the root with `initialize`, then write `answer`,
    /// if there is one.
    Initialize { requested: Option<String>, answer: Option<serde_json::Value> },
    /// Publish the diagnostics of the open document at this URI.
    Publish(String),
    /// Read the document at `path`; if the read succeeds, open it under
    /// `uri`; then publish the diagnostics of `uri`.
    ReadThenPublish { uri: String, path: String },
    /// Answer the request `id`: run `query` on the document that `lookup`
    /// gives, at the 1-based position `at` where the query needs one (`at` is
    /// `None` for a position without room for one more in a `usize`).
    Answer {
        id: serde_json::Value,
        query: Query,
        lookup: DocumentLookup,
        at: Option<Option<(usize, usize)>>,
    },
}

/// The query that a route asks for, if it is a query.
pub open spec fn query_of(r: Route) -> Option<Query> {
    match r {
        Route::Completion => Some(Query::Completion),
        Route::Hover => Some(Query::Hover),
        Route::Definition => Some(Query::Definition),
        Route::DocumentSymbol => Some(Query::DocumentSymbol),
        Route::Formatting => Some(Query::Formatting),
        _ => None,
    }
}

/// The text of an optional method.
pub open spec fn method_view(method: Option<String>) -> Option<Seq<char>> {
    match method {
        Some(m) => Some(m@),
        None => None,
    }
}

/// The documents after a message: the document notifications change them,
/// nothing else does.
pub open spec fn documents_after(
    docs: Map<Seq<char>, DocumentData>,
    method: Option<Seq<char>>,
    params: JsonData,
) -> Map<Seq<char>, DocumentData> {
    match route_of(method) {
        Route::DidOpen => opened_documents(docs, params),
        Route::DidChange => changed_documents(docs, params),
        Route::DidClose => closed_documents(docs, params),
        _ => docs,
    }
}

/// The messages that `handle` is defined on: those whose URI, where the
/// server reads a path out of it, is one that `uri_to_path` is defined on.
pub open spec fn handle_defined(
    docs: Map<Seq<char>, DocumentData>,
    id: Option<JsonData>,
    method: Option<Seq<char>>,
    params: JsonData,
) -> bool {
    let lookup_decodable = document_uri(params) matches Some(u) ==> (!docs.dom().contains(u)
        ==> uri_decodable(u));
    match route_of(method) {
        Route::Initialize => as_text(object_get(params, "rootUri"@)) matches Some(u)
            ==> uri_decodable(u),
        Route::DidOpen => notification_uri_decodable(params),
        Route::DidSave => lookup_decodable,
        _ => (query_of(route_of(method)) is Some && id is Some) ==> lookup_decodable,
    }
}

/// What the server does with a message, given the documents open before
/// it: `exit` stops; `shutdown` and unknown methods are answered at once;
/// `initialize` asks for the root to be resolved and answers with the
/// capabilities; the document notifications ask for diagnostics to be
/// published (`didClose` publishes none); the queries ask for an answer from
/// the request's document. A message without an id gets no answer.
pub open spec fn expected_action(
    docs: Map<Seq<char>, DocumentData>,
    id: Option<JsonData>,
    method: Option<Seq<char>>,
    params: JsonData,
    version: Seq<char>,
    action: Action,
) -> bool {
    match route_of(method) {
        Route::Ignore => action is Continue,
        Route::Exit => action is Stop,
        Route::Initialize => action matches Action::Initialize { requested, answer } && (
        match requested {
            Some(r) => requested_root_spec(params) == Some(r@),
            None => requested_root_spec(params) is None,
        }) && opt_value_data(answer) == match id {
            Some(i) => Some(response_data(i, capabilities_data(version))),
            None => None,
        },
        Route::Shutdown => match id {
            Some(i) => action matches Action::Send(m) && json_data(m) == response_data(
                i,
                JsonData::Null,
            ),
            None => action is Continue,
        },
        Route::DidOpen => match document_uri(params) {
            Some(u) => if has_file_scheme(u) {
                action matches Action::Publish(p) && p@ == u
            } else {
                action is Continue
            },
            None => action is Continue,
        },
        Route::DidChange => match (document_uri(params), changed_text(params)) {
            (Some(u), Some(_)) => action matches Action::Publish(p) && p@ == u,
            _ => action is Continue,
        },
        Route::DidSave => match document_uri(params) {
            None => action is Continue,
            Some(u) => if docs.dom().contains(u) || !has_file_scheme(u) {
                action matches Action::Publish(p) && p@ == u
            } else {
                action matches Action::ReadThenPublish { uri, path } && uri@ == u && path@
                    == uri_path(u)
            },
        },
        Route::DidClose => match document_uri(params) {
            Some(u) => action matches Action::Send(m) && json_data(m) == publish_data(
                u,
                Seq::empty(),
            ),
            None => action is Continue,
        },
        Route::MethodNotFound => match id {
            Some(i) => action matches Action::Send(m) && json_data(m) == error_data(
                i,
                -32601i64,
                "method not found"@,
            ),
            None => action is Continue,
        },
        _ => match id {
            None => action is Continue,
            Some(i) => action matches Action::Answer { id: a, query, lookup, at } && json_data(a)
                == i && query_of(route_of(method)) == Some(query) && lookup_view(lookup)
                == lookup_spec(docs, params) && at == (if position_in_range(params) {
                Some(position_spec(params))
            } else {
                None
            }),
        },
    }
}

fn query_for(r: Route) -> (query: Option<Query>)
    ensures
        query == query_of(r),
{
    match r {
        Route::Completion => Some(Query::Completion),
        Route::Hover => Some(Query::Hover),
        Route::Definition => Some(Query::Definition),
        Route::DocumentSymbol => Some(Query::DocumentSymbol),
        Route::Formatting => Some(Query::Formatting),
        _ => None,
    }
}

impl LanguageServer {
    /// Handles one message: updates the open documents as its method asks
    /// and says what the caller is to do next. The compiler's analyses, file
    /// reads, the workspace root and the writing of messages are the
    /// caller's.
    pub fn handle(&mut self, message: Message, version: &str) -> (action: Action)
        requires
            handle_defined(
                old(self).documents(),
                opt_value_data(message.id),
                method_view(message.method),
                json_data(message.params),
            ),
        ensures
            final(self).root_path() == old(self).root_path(),
            final(self).documents() == documents_after(
                old(self).documents(),
                method_view(message.method),
                json_data(message.params),
            ),
            expected_action(
                old(self).documents(),
                opt_value_data(message.id),
                method_view(message.method),
                json_data(message.params),
                version@,
                action,
            ),
    {
        let Message { id, method, params } = message;
        let r = match &method {
            Some(m) => route(Some(m.as_str())),
            None => route(None),
        };
        match r {
            Route::Ignore => Action::Continue,
            Route::Exit => Action::Stop,
            Route::Initialize => {
                let requested = requested_root(&params);
                let answer = respond(id, Ok(capabilities(version)));
                Action::Initialize { requested, answer }
            },
            Route::Shutdown => match respond(id, Ok(json_null())) {
                Some(m) => Action::Send(m),
                None => Action::Continue,
            },
            Route::DidOpen => match self.did_open(&params) {
                Some(uri) => Action::Publish(uri),
                None => Action::Continue,
            },
            Route::DidChange => match self.did_change(&params) {
                Some(uri) => Action::Publish(uri),
                None => Action::Continue,
            },
            Route::DidSave => match self.did_save(&params) {
                SaveStep::Skip => Action::Continue,
                SaveStep::Publish(uri) => Action::Publish(uri),
                SaveStep::Read { uri, path } => Action::ReadThenPublish { uri, path },
            },
            Route::DidClose => match self.did_close(&params) {
                Some(n) => Action::Send(n),
                None => Action::Continue,
            },
            Route::MethodNotFound => match method_not_found(id) {
                Some(m) => Action::Send(m),
                None => Action::Continue,
            },
            _ => {
                let query = match query_for(r) {
                    Some(q) => q,
                    None => return Action::Continue,
                };
                match id {
                    None => Action::Continue,
                    Some(id) => {
                        let lookup = self.document(&params);
                        let at = try_position(&params);
                        Action::Answer { id, query, lookup, at }
                    },
                }
            },
        }
    }

    /// Whether `handle` is defined on a message.
    fn is_handle_defined(&self, message: &Message) -> (defined: bool)
        ensures
            defined == handle_defined(
                self.documents(),
                opt_value_data(message.id),
                method_view(message.method),
                json_data(message.params),
            ),
    {
        let r = match &message.method {
            Some(m) => route(Some(m.as_str())),
            None => route(None),
        };
        match r {
            Route::Initialize => is_root_uri_decodable(&message.params),
            Route::DidOpen => is_notification_uri_decodable(&message.params),
            Route::DidSave => self.is_document_uri_decodable(&message.params),
            _ => {
                if query_for(r).is_some() && message.id.is_some() {
                    self.is_document_uri_decodable(&message.params)
                } else {
                    true
                }
            },
        }
    }

    /// `handle` where it is defined; `None`, with nothing changed, for a
    /// message whose URI `uri_to_path` is not defined on where the server
    /// reads a path out of it.
    pub fn try_handle(&mut self, message: Message, version: &str) -> (action: Option<Action>)
        ensures
            final(self).root_path() == old(self).root_path(),
            action is None <==> !handle_defined(
                old(self).documents(),
                opt_value_data(message.id),
                method_view(message.method),
                json_data(message.params),
            ),
            action is None ==> final(self).documents() == old(self).documents(),
            action matches Some(a) ==> {
                &&& final(self).documents() == documents_after(
                    old(self).documents(),
                    method_view(message.method),
                    json_data(message.params),
                )
                &&& expected_action(
                    old(self).documents(),
                    opt_value_data(message.id),
                    method_view(message.method),
                    json_data(message.params),
                    version@,
                    a,
                )
            },
    {
        if self.is_handle_defined(&message) {
            Some(self.handle(message, version))
        } else {
            None
        }
    }
}

/// The messages written once an action's outside work is done, given the
/// documents then open, the query's result and the compiler's diagnostics:
/// the message an action sends or answers with; for a publication, the
/// diagnostics of the document if it is open, and nothing otherwise.
pub open spec fn outgoing_data(
    docs: Map<Seq<char>, DocumentData>,
    action: Action,
    result: JsonData,
    diagnostics: Seq<JsonData>,
) -> Seq<JsonData> {
    match action {
        Action::Continue => Seq::empty(),
        Action::Stop => Seq::empty(),
        Action::Send(m) => seq![json_data(m)],
        Action::Initialize { answer, .. } => match answer {
            Some(a) => seq![json_data(a)],
            None => Seq::empty(),
        },
        Action::Publish(uri) => if docs.dom().contains(uri@) {
            seq![publish_data(uri@, diagnostics)]
        } else {
            Seq::empty()
        },
        Action::ReadThenPublish { uri, .. } => if docs.dom().contains(uri@) {
            seq![publish_data(uri@, diagnostics)]
        } else {
            Seq::empty()
        },
        Action::Answer { id, .. } => seq![response_data(json_data(id), result)],
    }
}

impl LanguageServer {
    /// The messages to write once the caller has done an action's outside
    /// work: the message it sends, the answer to `initialize`, the response
    /// to a query with its `result`, or the `diagnostics` of a document to
    /// publish, which is published only while it is open.
    pub fn outgoing(&self, action: Action, result: serde_json::Value, diagnostics: Vec<
        serde_json::Value,
    >) -> (messages: Vec<serde_json::Value>)
        ensures
            messages@.map_values(|v: serde_json::Value| json_data(v)) == outgoing_data(
                self.documents(),
                action,
                json_data(result),
                diagnostics@.map_values(|v: serde_json::Value| json_data(v)),
            ),
    {
        let ghost spec_action = action;
        let mut messages: Vec<serde_json::Value> = Vec::new();
        match action {
            Action::Continue => {},
            Action::Stop => {},
            Action::Send(m) => messages.push(m),
            Action::Initialize { requested: _, answer } => match answer {
                Some(a) => messages.push(a),
                None => {},
            },
            Action::Publish(uri) => {
                if self.open_document(uri.as_str()).is_some() {
                    messages.push(publish_diagnostics(uri.as_str(), diagnostics));
                }
            },
            Action::ReadThenPublish { uri, path: _ } => {
                if self.open_document(uri.as_str()).is_some() {
                    messages.push(publish_diagnostics(uri.as_str(), diagnostics));
                }
            },
            Action::Answer { id, query: _, lookup: _, at: _ } => {
                messages.push(response_message(id, result));
            },
        }
        assert(messages@.map_values(|v: serde_json::Value| json_data(v)) =~= outgoing_data(
            self.documents(),
            spec_action,
            json_data(result),
            diagnostics@.map_values(|v: serde_json::Value| json_data(v)),
        ));
        messages
    }
}

/// Whether a written message carries an `id` member.
pub open spec fn carries_id(message: JsonData) -> bool {
    object_get(message, "id"@) is Some
}

/// How many of the messages carry an `id` member.
pub open spec fn count_with_id(messages: Seq<JsonData>) -> nat
    decreases messages.len(),
{
    if messages.len() == 0 {
        0
    } else {
        count_with_id(messages.drop_last()) + if carries_id(messages.last()) {
            1nat
        } else {
            0nat
        }
    }
}

/// A diagnostics notification.
pub open spec fn is_publication(message: JsonData) -> bool {
    &&& !carries_id(message)
    &&& object_get(message, "method"@) == Some(JsonData::Str("textDocument/publishDiagnostics"@))
}

/// Whether a message is answered: it has an id, and its method is
/// `initialize`, `shutdown`, a query, or one the server does not know.
pub open spec fn answered(id: Option<JsonData>, method: Option<Seq<char>>) -> bool {
    &&& id is Some
    &&& (route_of(method) == Route::Initialize || route_of(method) == Route::Shutdown
        || route_of(method) == Route::MethodNotFound || query_of(route_of(method)) is Some)
}

/// Every message is answered at most once: of the messages written for it,
/// exactly one carries an id when it is a request that the server answers
/// (`initialize`, `shutdown`, a query, or an unknown method), and none
/// otherwise; that one carries the request's id, and every other message
/// written is a diagnostics notification.
pub proof fn lemma_one_answer_per_request(
    docs: Map<Seq<char>, DocumentData>,
    id: Option<JsonData>,
    method: Option<Seq<char>>,
    params: JsonData,
    version: Seq<char>,
    action: Action,
    later: Map<Seq<char>, DocumentData>,
    result: JsonData,
    diagnostics: Seq<JsonData>,
)
    requires
        expected_action(docs, id, method, params, version, action),
    ensures
        count_with_id(outgoing_data(later, action, result, diagnostics)) == if answered(id, method) {
            1nat
        } else {
            0nat
        },
        forall|i: int|
            0 <= i < outgoing_data(later, action, result, diagnostics).len() && carries_id(
                #[trigger] outgoing_data(later, action, result, diagnostics)[i],
            ) ==> object_get(outgoing_data(later, action, result, diagnostics)[i], "id"@) == id,
        forall|i: int|
            0 <= i < outgoing_data(later, action, result, diagnostics).len() && !carries_id(
                #[trigger] outgoing_data(later, action, result, diagnostics)[i],
            ) ==> is_publication(outgoing_data(later, action, result, diagnostics)[i]),
{
    let out = outgoing_data(later, action, result, diagnostics);
    assert(out.len() <= 1);
    assert(count_with_id(Seq::<JsonData>::empty()) == 0);
    if out.len() == 1 {
        assert(out.drop_last() =~= Seq::<JsonData>::empty());
        assert(out.last() == out[0]);
        assert(count_with_id(out) == if carries_id(out[0]) { 1nat } else { 0nat });
        match action {
            Action::Send(m) => {
                match route_of(method) {
                    Route::Shutdown => lemma_response_id(id.unwrap(), JsonData::Null),
                    Route::MethodNotFound => lemma_error_id(
                        id.unwrap(),
                        -32601i64,
                        "method not found"@,
                    ),
                    _ => {
                        let u = document_uri(params).unwrap();
                        lemma_notification_members(
                            "textDocument/publishDiagnostics"@,
                            JsonData::Object(
                                no_members().insert("uri"@, JsonData::Str(u)).insert(
                                    "diagnostics"@,
                                    JsonData::Array(Seq::empty()),
                                ),
                            ),
                        );
                    },
                }
            },
            Action::Initialize { answer, .. } => {
                lemma_response_id(id.unwrap(), capabilities_data(version));
            },
            Action::Publish(uri) => {
                lemma_notification_members(
                    "textDocument/publishDiagnostics"@,
                    JsonData::Object(
                        no_members().insert("uri"@, JsonData::Str(uri@)).insert(
                            "diagnostics"@,
                            JsonData::Array(diagnostics),
                        ),
                    ),
                );
            },
            Action::ReadThenPublish { uri, .. } => {
                lemma_notification_members(
                    "textDocument/publishDiagnostics"@,
                    JsonData::Object(
                        no_members().insert("uri"@, JsonData::Str(uri@)).insert(
                            "diagnostics"@,
                            JsonData::Array(diagnostics),
                        ),
                    ),
                );
            },
            Action::Answer { id: a, .. } => {
                lemma_response_id(json_data(a), result);
            },
            _ => {},
        }
    }
}

/// Each method goes to its handler: `initialize`, `shutdown` and `exit` to
/// theirs, `initialized` is ignored, and each `textDocument/...` method to
/// the handler of that name.
pub proof fn lemma_method_routes()
    ensures
        route_of(Some("initialize"@)) == Route::Initialize,
        route_of(Some("initialized"@)) == Route::Ignore,
        route_of(Some("shutdown"@)) == Route::Shutdown,
        route_of(Some("exit"@)) == Route::Exit,
        route_of(Some("textDocument/didOpen"@)) == Route::DidOpen,
        route_of(Some("textDocument/didChange"@)) == Route::DidChange,
        route_of(Some("textDocument/didSave"@)) == Route::DidSave,
        route_of(Some("textDocument/didClose"@)) == Route::DidClose,
        route_of(Some("textDocument/completion"@)) == Route::Completion,
        route_of(Some("textDocument/hover"@)) == Route::Hover,
        route_of(Some("textDocument/definition"@)) == Route::Definition,
        route_of(Some("textDocument/documentSymbol"@)) == Route::DocumentSymbol,
        route_of(Some("textDocument/formatting"@)) == Route::Formatting,
{
    reveal_strlit("initialize");
    reveal_strlit("initialized");
    reveal_strlit("shutdown");
    reveal_strlit("exit");
    reveal_strlit("textDocument/didOpen");
    reveal_strlit("textDocument/didChange");
    reveal_strlit("textDocument/didSave");
    reveal_strlit("textDocument/didClose");
    reveal_strlit("textDocument/completion");
    reveal_strlit("textDocument/hover");
    reveal_strlit("textDocument/definition");
    reveal_strlit("textDocument/documentSymbol");
    reveal_strlit("textDocument/formatting");
    assert("initialized"@.len() != "initialize"@.len());
    assert("shutdown"@.len() != "initialize"@.len());
    assert("shutdown"@.len() != "initialized"@.len());
    assert("exit"@.len() != "initialize"@.len());
    assert("exit"@.len() != "initialized"@.len());
    assert("exit"@.len() != "shutdown"@.len());
    assert("textDocument/didOpen"@.len() != "initialize"@.len());
    assert("textDocument/didOpen"@.len() != "initialized"@.len());
    assert("textDocument/didOpen"@.len() != "shutdown"@.len());
    assert("textDocument/didOpen"@.len() != "exit"@.len());
    assert("textDocument/didChange"@.len() != "initialize"@.len());
    assert("textDocument/didChange"@.len() != "initialized"@.len());
    assert("textDocument/didChange"@.len() != "shutdown"@.len());
    assert("textDocument/didChange"@.len() != "exit"@.len());
    assert("textDocument/didChange"@.len() != "textDocument/didOpen"@.len());
    assert("textDocument/didSave"@.len() != "initialize"@.len());
    assert("textDocument/didSave"@.len() != "initialized"@.len());
    assert("textDocument/didSave"@.len() != "shutdown"@.len());
    assert("textDocument/didSave"@.len() != "exit"@.len());
    assert("textDocument/didSave"@[16] != "textDocument/didOpen"@[16]);
    assert("textDocument/didSave"@.len() != "textDocument/didChange"@.len());
    assert("textDocument/didClose"@.len() != "initialize"@.len());
    assert("textDocument/didClose"@.len() != "initialized"@.len());
    assert("textDocument/didClose"@.len() != "shutdown"@.len());
    assert("textDocument/didClose"@.len() != "exit"@.len());
    assert("textDocument/didClose"@.len() != "textDocument/didOpen"@.len());
    assert("textDocument/didClose"@.len() != "textDocument/didChange"@.len());
    assert("textDocument/didClose"@.len() != "textDocument/didSave"@.len());
    assert("textDocument/completion"@.len() != "initialize"@.len());
    assert("textDocument/completion"@.len() != "initialized"@.len());
    assert("textDocument/completion"@.len() != "shutdown"@.len());
    assert("textDocument/completion"@.len() != "exit"@.len());
    assert("textDocument/completion"@.len() != "textDocument/didOpen"@.len());
    assert("textDocument/completion"@.len() != "textDocument/didChange"@.len());
    assert("textDocument/completion"@.len() != "textDocument/didSave"@.len());
    assert("textDocument/completion"@.len() != "textDocument/didClose"@.len());
    assert("textDocument/hover"@.len() != "initialize"@.len());
    assert("textDocument/hover"@.len() != "initialized"@.len());
    assert("textDocument/hover"@.len() != "shutdown"@.len());
    assert("textDocument/hover"@.len() != "exit"@.len());
    assert("textDocument/hover"@.len() != "textDocument/didOpen"@.len());
    assert("textDocument/hover"@.len() != "textDocument/didChange"@.len());
    assert("textDocument/hover"@.len() != "textDocument/didSave"@.len());
    assert("textDocument/hover"@.len() != "textDocument/didClose"@.len());
    assert("textDocument/hover"@.len() != "textDocument/completion"@.len());
    assert("textDocument/definition"@.len() != "initialize"@.len());
    assert("textDocument/definition"@.len() != "initialized"@.len());
    assert("textDocument/definition"@.len() != "shutdown"@.len());
    assert("textDocument/definition"@.len() != "exit"@.len());
    assert("textDocument/definition"@.len() != "textDocument/didOpen"@.len());
    assert("textDocument/definition"@.len() != "textDocument/didChange"@.len());
    assert("textDocument/definition"@.len() != "textDocument/didSave"@.len());
    assert("textDocument/definition"@.len() != "textDocument/didClose"@.len());
    assert("textDocument/definition"@[13] != "textDocument/completion"@[13]);
    assert("textDocument/definition"@.len() != "textDocument/hover"@.len());
    assert("textDocument/documentSymbol"@.len() != "initialize"@.len());
    assert("textDocument/documentSymbol"@.len() != "initialized"@.len());
    assert("textDocument/documentSymbol"@.len() != "shutdown"@.len());
    assert("textDocument/documentSymbol"@.len() != "exit"@.len());
    assert("textDocument/documentSymbol"@.len() != "textDocument/didOpen"@.len());
    assert("textDocument/documentSymbol"@.len() != "textDocument/didChange"@.len());
    assert("textDocument/documentSymbol"@.len() != "textDocument/didSave"@.len());
    assert("textDocument/documentSymbol"@.len() != "textDocument/didClose"@.len());
    assert("textDocument/documentSymbol"@.len() != "textDocument/completion"@.len());
    assert("textDocument/documentSymbol"@.len() != "textDocument/hover"@.len());
    assert("textDocument/documentSymbol"@.len() != "textDocument/definition"@.len());
    assert("textDocument/formatting"@.len() != "initialize"@.len());
    assert("textDocument/formatting"@.len() != "initialized"@.len());
    assert("textDocument/formatting"@.len() != "shutdown"@.len());
    assert("textDocument/formatting"@.len() != "exit"@.len());
    assert("textDocument/formatting"@.len() != "textDocument/didOpen"@.len());
    assert("textDocument/formatting"@.len() != "textDocument/didChange"@.len());
    assert("textDocument/formatting"@.len() != "textDocument/didSave"@.len());
    assert("textDocument/formatting"@.len() != "textDocument/didClose"@.len());
    assert("textDocument/formatting"@[13] != "textDocument/completion"@[13]);
    assert("textDocument/formatting"@.len() != "textDocument/hover"@.len());
    assert("textDocument/formatting"@[13] != "textDocument/definition"@[13]);
    assert("textDocument/formatting"@.len() != "textDocument/documentSymbol"@.len());
}

/// A request is answered by the query that its method names: `completion`
/// by the completion query, `hover` by hover, `definition` by definition,
/// `documentSymbol` by the document symbols and `formatting` by formatting,
/// whatever its id, parameters and the open documents.
pub proof fn lemma_query_follows_method(
    docs: Map<Seq<char>, DocumentData>,
    id: JsonData,
    method: Seq<char>,
    params: JsonData,
    version: Seq<char>,
    action: Action,
)
    requires
        expected_action(docs, Some(id), Some(method), params, version, action),
    ensures
        method == "textDocument/completion"@ ==> action matches Action::Answer {
            query: Query::Completion,
            ..
        },
        method == "textDocument/hover"@ ==> action matches Action::Answer {
            query: Query::Hover,
            ..
        },
        method == "textDocument/definition"@ ==> action matches Action::Answer {
            query: Query::Definition,
            ..
        },
        method == "textDocument/documentSymbol"@ ==> action matches Action::Answer {
            query: Query::DocumentSymbol,
            ..
        },
        method == "textDocument/formatting"@ ==> action matches Action::Answer {
            query: Query::Formatting,
            ..
        },
{
    lemma_method_routes();
}

/// The 1-based position handed to a query is the request's 0-based line
/// and character plus one, for every line and character below
/// `usize::MAX`; such a position is always in range.
pub proof fn lemma_position_is_one_based(params: JsonData, line: u64, character: u64)
    requires
        object_get2(params, "position"@, "line"@) == Some(JsonData::PosInt(line)),
        object_get2(params, "position"@, "character"@) == Some(JsonData::PosInt(character)),
        line < usize::MAX,
        character < usize::MAX,
    ensures
        position_in_range(params),
        position_spec(params) == Some(((line + 1) as usize, (character + 1) as usize)),
{
}

/// A request without a line or a character in its position has no
/// position; without a line it is in range.
pub proof fn lemma_position_missing(params: JsonData)
    requires
        !(object_get2(params, "position"@, "line"@) matches Some(JsonData::PosInt(_)))
            || !(object_get2(params, "position"@, "character"@) matches Some(
            JsonData::PosInt(_),
        )),
    ensures
        position_spec(params) is None,
        !(object_get2(params, "position"@, "line"@) matches Some(JsonData::PosInt(_)))
            ==> position_in_range(params),
{
}

/// A query request is answered at its 1-based position: for every line and
/// character below `usize::MAX` the answer carries the line and character
/// plus one.
pub proof fn lemma_query_position(
    docs: Map<Seq<char>, DocumentData>,
    id: JsonData,
    method: Option<Seq<char>>,
    params: JsonData,
    version: Seq<char>,
    action: Action,
    line: u64,
    character: u64,
)
    requires
        expected_action(docs, Some(id), method, params, version, action),
        query_of(route_of(method)) is Some,
        object_get2(params, "position"@, "line"@) == Some(JsonData::PosInt(line)),
        object_get2(params, "position"@, "character"@) == Some(JsonData::PosInt(character)),
        line < usize::MAX,
        character < usize::MAX,
    ensures
        action matches Action::Answer { at, .. } && at == Some(
            Some(((line + 1) as usize, (character + 1) as usize)),
        ),
{
    lemma_position_is_one_based(params, line, character);
}

/// The members of a diagnostics notification: the method
/// `textDocument/publishDiagnostics`, the document's URI, and every
/// diagnostic given, in order.
pub proof fn lemma_publication_members(uri: Seq<char>, diagnostics: Seq<JsonData>)
    ensures
        object_get(publish_data(uri, diagnostics), "method"@) == Some(
            JsonData::Str("textDocument/publishDiagnostics"@),
        ),
        object_get(publish_data(uri, diagnostics), "id"@) is None,
        object_get2(publish_data(uri, diagnostics), "params"@, "uri"@) == Some(JsonData::Str(uri)),
        object_get2(publish_data(uri, diagnostics), "params"@, "diagnostics"@) matches Some(
            JsonData::Array(items),
        ) && items.len() == diagnostics.len() && forall|i: int|
            0 <= i < diagnostics.len() ==> #[trigger] items[i] == diagnostics[i],
{
    reveal_strlit("params");
    reveal_strlit("jsonrpc");
    reveal_strlit("method");
    reveal_strlit("uri");
    reveal_strlit("diagnostics");
    assert("params"@.len() != "jsonrpc"@.len());
    assert("params"@[0] != "method"@[0]);
    assert("uri"@.len() != "diagnostics"@.len());
    lemma_notification_members(
        "textDocument/publishDiagnostics"@,
        JsonData::Object(
            no_members().insert("uri"@, JsonData::Str(uri)).insert(
                "diagnostics"@,
                JsonData::Array(diagnostics),
            ),
        ),
    );
}

/// Publishing an open document writes one diagnostics notification for its
/// URI holding every diagnostic given, in order; nothing is written for a
/// document that is not open.
pub proof fn lemma_publish_writes_all_diagnostics(
    docs: Map<Seq<char>, DocumentData>,
    uri: String,
    result: JsonData,
    diagnostics: Seq<JsonData>,
)
    ensures
        docs.dom().contains(uri@) ==> outgoing_data(docs, Action::Publish(uri), result, diagnostics)
            == seq![publish_data(uri@, diagnostics)],
        !docs.dom().contains(uri@) ==> outgoing_data(docs, Action::Publish(uri), result, diagnostics).len()
            == 0,
{
    lemma_publication_members(uri@, diagnostics);
}

/// The formatting edit replaces the whole document as it was before
/// formatting: its range runs from line 0, character 0 to line
/// `line_count(source)`, character 0, whatever the formatted text; its new
/// text is the formatted text.
pub proof fn lemma_formatting_edit_covers_source(source: Seq<char>, formatted: Seq<char>)
    ensures
        object_get(formatting_edit(source, formatted), "newText"@) == Some(JsonData::Str(formatted)),
        object_get2(formatting_edit(source, formatted), "range"@, "start"@) == Some(
            position_object(0, 0),
        ),
        object_get2(formatting_edit(source, formatted), "range"@, "end"@) == Some(
            position_object(line_count(source) as u64, 0),
        ),
        object_get(position_object(line_count(source) as u64, 0), "line"@) == Some(
            JsonData::PosInt(line_count(source) as u64),
        ),
        object_get(position_object(line_count(source) as u64, 0), "character"@) == Some(
            JsonData::PosInt(0),
        ),
{
    reveal_strlit("range");
    reveal_strlit("newText");
    reveal_strlit("start");
    reveal_strlit("end");
    reveal_strlit("line");
    reveal_strlit("character");
    assert("range"@.len() != "newText"@.len());
    assert("start"@.len() != "end"@.len());
    assert("line"@.len() != "character"@.len());
}

/// A method the server does not know goes to "method not found", and a
/// message without a method is ignored.
pub proof fn lemma_other_methods_not_found(method: Seq<char>)
    requires
        method != "initialize"@,
        method != "initialized"@,
        method != "shutdown"@,
        method != "exit"@,
        method != "textDocument/didOpen"@,
        method != "textDocument/didChange"@,
        method != "textDocument/didSave"@,
        method != "textDocument/didClose"@,
        method != "textDocument/completion"@,
        method != "textDocument/hover"@,
        method != "textDocument/definition"@,
        method != "textDocument/documentSymbol"@,
        method != "textDocument/formatting"@,
    ensures
        route_of(Some(method)) == Route::MethodNotFound,
        route_of(None) == Route::Ignore,
{
}

/// A request with an unknown method is answered with the error -32601,
/// "method not found", under its id; `shutdown` is answered with the result
/// `null`; a notification with either gets nothing.
pub proof fn lemma_immediate_answers(
    docs: Map<Seq<char>, DocumentData>,
    id: Option<JsonData>,
    method: Option<Seq<char>>,
    params: JsonData,
    version: Seq<char>,
    action: Action,
)
    requires
        expected_action(docs, id, method, params, version, action),
    ensures
        route_of(method) == Route::MethodNotFound && id is Some ==> (action matches Action::Send(m)
            && object_get(json_data(m), "id"@) == id && object_get2(json_data(m), "error"@, "code"@)
            == Some(JsonData::NegInt(-32601i64)) && object_get2(json_data(m), "error"@, "message"@)
            == Some(JsonData::Str("method not found"@))),
        route_of(method) == Route::Shutdown && id is Some ==> (action matches Action::Send(m)
            && object_get(json_data(m), "id"@) == id && object_get(json_data(m), "result"@) == Some(
            JsonData::Null,
        )),
        (route_of(method) == Route::MethodNotFound || route_of(method) == Route::Shutdown)
            && id is None ==> action is Continue,
{
    if id is Some {
        lemma_error_members(id.unwrap(), -32601i64, "method not found"@);
        lemma_response_members(id.unwrap(), JsonData::Null);
    }
}

/// A hover answers its text as plain text.
pub proof fn lemma_hover_members(text: Seq<char>)
    ensures
        object_get2(hover_data(text), "contents"@, "kind"@) == Some(JsonData::Str("plaintext"@)),
        object_get2(hover_data(text), "contents"@, "value"@) == Some(JsonData::Str(text)),
{
    reveal_strlit("kind");
    reveal_strlit("value");
    assert("kind"@.len() != "value"@.len());
}

/// `didOpen` with a `file://` URI opens the document under that URI with
/// the path of the URI and the text the notification brings, or an empty
/// text when it brings none; a URI of another scheme opens nothing.
pub proof fn lemma_did_open_members(docs: Map<Seq<char>, DocumentData>, params: JsonData, uri: Seq<char>)
    requires
        object_get2(params, "textDocument"@, "uri"@) == Some(JsonData::Str(uri)),
    ensures
        has_file_scheme(uri) ==> (object_get2(params, "textDocument"@, "text"@) matches Some(
            JsonData::Str(t),
        ) ==> opened_documents(docs, params) == docs.insert(
            uri,
            DocumentData { path: uri_path(uri), source: t },
        )),
        has_file_scheme(uri) ==> (!(object_get2(params, "textDocument"@, "text"@) matches Some(
            JsonData::Str(_),
        )) ==> opened_documents(docs, params) == docs.insert(
            uri,
            DocumentData { path: uri_path(uri), source: Seq::empty() },
        )),
        !has_file_scheme(uri) ==> opened_documents(docs, params) == docs,
{
}

/// `didChange` gives an open document the text of the last of its content
/// changes and keeps its path; a document that is not open is not opened.
pub proof fn lemma_did_change_members(
    docs: Map<Seq<char>, DocumentData>,
    params: JsonData,
    uri: Seq<char>,
    changes: Seq<JsonData>,
    text: Seq<char>,
)
    requires
        object_get2(params, "textDocument"@, "uri"@) == Some(JsonData::Str(uri)),
        object_get(params, "contentChanges"@) == Some(JsonData::Array(changes)),
        changes.len() > 0,
        object_get(changes[changes.len() - 1], "text"@) == Some(JsonData::Str(text)),
    ensures
        docs.dom().contains(uri) ==> changed_documents(docs, params) == docs.insert(
            uri,
            DocumentData { path: docs[uri].path, source: text },
        ),
        !docs.dom().contains(uri) ==> changed_documents(docs, params) == docs,
{
}

/// `didClose` closes the document under its URI.
pub proof fn lemma_did_close_members(docs: Map<Seq<char>, DocumentData>, params: JsonData, uri: Seq<char>)
    requires
        object_get2(params, "textDocument"@, "uri"@) == Some(JsonData::Str(uri)),
    ensures
        closed_documents(docs, params) == docs.remove(uri),
{
}

/// A notification without a document URI changes no document.
pub proof fn lemma_notification_without_uri(docs: Map<Seq<char>, DocumentData>, params: JsonData)
    requires
        !(object_get2(params, "textDocument"@, "uri"@) matches Some(JsonData::Str(_))),
    ensures
        opened_documents(docs, params) == docs,
        changed_documents(docs, params) == docs,
        closed_documents(docs, params) == docs,
{
}

/// The root an `initialize` request asks for is the path of its `rootUri`
/// when that is a `file://` URI; otherwise its `rootPath`; otherwise none.
pub proof fn lemma_requested_root_members(params: JsonData)
    ensures
        (object_get(params, "rootUri"@) matches Some(JsonData::Str(u)) && has_file_scheme(u))
            ==> requested_root_spec(params) == Some(
            uri_path(as_text(object_get(params, "rootUri"@)).unwrap()),
        ),
        !(object_get(params, "rootUri"@) matches Some(JsonData::Str(u)) && has_file_scheme(u))
            ==> requested_root_spec(params) == match object_get(params, "rootPath"@) {
            Some(JsonData::Str(p)) => Some(p),
            _ => None,
        },
{
}

/// Only `exit` stops the server.
pub proof fn lemma_only_exit_stops(
    docs: Map<Seq<char>, DocumentData>,
    id: Option<JsonData>,
    method: Option<Seq<char>>,
    params: JsonData,
    version: Seq<char>,
    action: Action,
)
    requires
        expected_action(docs, id, method, params, version, action),
    ensures
        action is Stop <==> route_of(method) == Route::Exit,
{
}

/// A message without an id (a notification) is never answered: no answer to
/// write, no query to run, and the only message sent is the empty
/// diagnostics of a closed document.
pub proof fn lemma_notifications_get_no_answer(
    docs: Map<Seq<char>, DocumentData>,
    method: Option<Seq<char>>,
    params: JsonData,
    version: Seq<char>,
    action: Action,
)
    requires
        expected_action(docs, None, method, params, version, action),
    ensures
        !(action is Answer),
        action matches Action::Initialize { answer, .. } ==> answer is None,
        action is Send ==> route_of(method) == Route::DidClose,
{
}

/// A request (a message with an id) whose method is not a notification the
/// server knows is always answered: at once, through `initialize`, or by its
/// query.
pub proof fn lemma_requests_are_answered(
    docs: Map<Seq<char>, DocumentData>,
    id: JsonData,
    method: Option<Seq<char>>,
    params: JsonData,
    version: Seq<char>,
    action: Action,
)
    requires
        expected_action(docs, Some(id), method, params, version, action),
        method is Some,
        route_of(method) != Route::Ignore,
        route_of(method) != Route::Exit,
        route_of(method) != Route::DidOpen,
        route_of(method) != Route::DidChange,
        route_of(method) != Route::DidSave,
        route_of(method) != Route::DidClose,
    ensures
        action is Send || action is Answer || action matches Action::Initialize {
            answer: Some(_),
            ..
        },
{
}

/// The route of `textDocument/didOpen` and of `textDocument/didChange`.
proof fn lemma_document_notification_routes()
    ensures
        route_of(Some("textDocument/didOpen"@)) == Route::DidOpen,
        route_of(Some("textDocument/didChange"@)) == Route::DidChange,
{
    reveal_strlit("initialize");
    reveal_strlit("initialized");
    reveal_strlit("shutdown");
    reveal_strlit("exit");
    reveal_strlit("textDocument/didOpen");
    reveal_strlit("textDocument/didChange");
    assert("textDocument/didOpen"@.len() != "initialize"@.len());
    assert("textDocument/didOpen"@.len() != "initialized"@.len());
    assert("textDocument/didOpen"@.len() != "shutdown"@.len());
    assert("textDocument/didOpen"@.len() != "exit"@.len());
    assert("textDocument/didChange"@.len() != "initialize"@.len());
    assert("textDocument/didChange"@.len() != "initialized"@.len());
    assert("textDocument/didChange"@.len() != "shutdown"@.len());
    assert("textDocument/didChange"@.len() != "exit"@.len());
    assert("textDocument/didChange"@.len() != "textDocument/didOpen"@.len());
}

/// Once `didOpen` is handled, a query about the same document is answered
/// from the text that the opening brought, under the path of its URI.
pub proof fn lemma_open_then_query(
    docs: Map<Seq<char>, DocumentData>,
    opened: JsonData,
    id: JsonData,
    method: Option<Seq<char>>,
    params: JsonData,
    version: Seq<char>,
    action: Action,
)
    requires
        document_uri(opened) matches Some(u) && has_file_scheme(u),
        query_of(route_of(method)) is Some,
        document_uri(params) == document_uri(opened),
        expected_action(
            documents_after(docs, Some("textDocument/didOpen"@), opened),
            Some(id),
            method,
            params,
            version,
            action,
        ),
    ensures
        action matches Action::Answer { lookup, .. } && lookup_view(lookup) == DocumentSource::Open(
            DocumentData { path: uri_path(document_uri(opened).unwrap()), source: opened_text(opened) },
        ),
{
    lemma_document_notification_routes();
    lemma_open_then_lookup(docs, opened, params);
}

/// Once `didChange` is handled for an open document, a query about it is
/// answered from the text of the change, under the document's path.
pub proof fn lemma_change_then_query(
    docs: Map<Seq<char>, DocumentData>,
    change: JsonData,
    id: JsonData,
    method: Option<Seq<char>>,
    params: JsonData,
    version: Seq<char>,
    action: Action,
)
    requires
        document_uri(change) matches Some(u) && docs.dom().contains(u),
        changed_text(change) is Some,
        query_of(route_of(method)) is Some,
        document_uri(params) == document_uri(change),
        expected_action(
            documents_after(docs, Some("textDocument/didChange"@), change),
            Some(id),
            method,
            params,
            version,
            action,
        ),
    ensures
        action matches Action::Answer { lookup, .. } && lookup_view(lookup) == DocumentSource::Open(
            DocumentData {
                path: docs[document_uri(change).unwrap()].path,
                source: changed_text(change).unwrap(),
            },
        ),
{
    lemma_document_notification_routes();
    lemma_change_then_lookup(docs, change, params);
}

/// A request about a document that was just opened reads the text that the
/// opening brought, under the path of its URI.
pub proof fn lemma_open_then_lookup(docs: Map<Seq<char>, DocumentData>, opened: JsonData, request: JsonData)
    requires
        document_uri(opened) matches Some(u) && has_file_scheme(u),
        document_uri(request) == document_uri(opened),
    ensures
        lookup_spec(opened_documents(docs, opened), request) == DocumentSource::Open(
            DocumentData {
                path: uri_path(document_uri(opened).unwrap()),
                source: opened_text(opened),
            },
        ),
{
}

/// A request about an open document that was just changed reads the text of
/// the change, under the document's path.
pub proof fn lemma_change_then_lookup(docs: Map<Seq<char>, DocumentData>, change: JsonData, request: JsonData)
    requires
        document_uri(change) matches Some(u) && docs.dom().contains(u),
        changed_text(change) is Some,
        document_uri(request) == document_uri(change),
    ensures
        lookup_spec(changed_documents(docs, change), request) == DocumentSource::Open(
            DocumentData {
                path: docs[document_uri(change).unwrap()].path,
                source: changed_text(change).unwrap(),
            },
        ),
{
}

/// A change to a document that is not open leaves the documents as they were.
pub proof fn lemma_change_unopened(docs: Map<Seq<char>, DocumentData>, change: JsonData)
    requires
        document_uri(change) matches Some(u) && !docs.dom().contains(u),
    ensures
        changed_documents(docs, change) == docs,
{
}

/// A request about a document that was just closed reads it from the path of
/// its `file://` URI again (and finds none for other URIs).
pub proof fn lemma_close_then_lookup(docs: Map<Seq<char>, DocumentData>, closed: JsonData, request: JsonData)
    requires
        document_uri(closed) is Some,
        document_uri(request) == document_uri(closed),
    ensures
        lookup_spec(closed_documents(docs, closed), request) == if has_file_scheme(
            document_uri(closed).unwrap(),
        ) {
            DocumentSource::Read(uri_path(document_uri(closed).unwrap()))
        } else {
            DocumentSource::Missing
        },
{
}

/// Closing a document does not touch the other open documents, and opening
/// one does not either.
pub proof fn lemma_other_documents_unchanged(docs: Map<Seq<char>, DocumentData>, params: JsonData, other: Seq<char>)
    requires
        document_uri(params) != Some(other),
    ensures
        closed_documents(docs, params).dom().contains(other) == docs.dom().contains(other),
        opened_documents(docs, params).dom().contains(other) == docs.dom().contains(other),
        changed_documents(docs, params).dom().contains(other) == docs.dom().contains(other),
        docs.dom().contains(other) ==> closed_documents(docs, params)[other] == docs[other]
            && opened_documents(docs, params)[other] == docs[other]
            && changed_documents(docs, params)[other] == docs[other],
{
}

/// A request's 0-based position, made 1-based for the compiler by
/// `position`, is written back as the same protocol position by the
/// conversion of compiler positions.
pub proof fn lemma_position_round_trip(line: u64, character: u64)
    requires
        line < usize::MAX,
        character < usize::MAX,
    ensures
        position_data(
            LanguagePosition {
                line: ((line as usize) + 1) as usize,
                column: ((character as usize) + 1) as usize,
            },
        ) == position_object(line, character),
{
}

} // verus!
