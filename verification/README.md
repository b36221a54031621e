# dowe_language_server

The protocol logic of `dowe-language-server`, the stdio Language Server
Protocol server for Dowe source files, written in Verus and proved against
its contracts.

## Layout

| Path | Contents |
| --- | --- |
| `src/uri.rs` | `file://` URIs of paths: percent-encoding of a path's UTF-8 bytes and decoding back, with the round-trip proof |
| `src/conversion.rs` | the compiler's positions, ranges, diagnostics, completions, locations and symbols as protocol JSON |
| `src/protocol.rs` | header lines, messages read out of a body, responses, errors and notifications, and their `Content-Length` frames |
| `src/server.rs` | the server's state (root and open documents), `LanguageServer::handle` (from a message to the next state and the action the binary performs), `LanguageServer::outgoing` (the messages to write once that action's outside work is done), the document notifications and the answers to requests |
| `src/json.rs` | the `serde_json` values the library reads and builds, and the model of their contents |
| `src/text.rs` | the standard library's text functions that the logic calls, with their documented contracts, and verified text comparison, prefix and trimming |
| `app/` | the binary: stdin/stdout, file reads, and the Dowe compiler's analyses |
| `tests/` | tests of the library |

The compiler's analyses (`analyze_document`, `complete_document`, `hover_at`,
`definition_at`, `document_symbols`, `format_document`,
`find_workspace_root`) are called by the binary, which hands their results to
the library.
