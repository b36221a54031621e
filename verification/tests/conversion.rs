use dowe_language_server::conversion::{
    completion, count_lines, diagnostic, full_document_range, location, range, symbol,
    LanguageCompletion, LanguageCompletionKind, LanguageDiagnostic, LanguageDiagnosticSeverity,
    LanguageDocumentSymbol, LanguageLocation, LanguagePosition, LanguageRange, LanguageSymbolKind,
};

fn span(line: usize, column: usize, end_line: usize, end_column: usize) -> LanguageRange {
    LanguageRange {
        start: LanguagePosition { line, column },
        end: LanguagePosition { line: end_line, column: end_column },
    }
}

#[test]
fn ranges_become_zero_based() {
    assert_eq!(
        range(&span(3, 5, 4, 1)).to_string(),
        r#"{"end":{"character":0,"line":3},"start":{"character":4,"line":2}}"#
    );
}

#[test]
fn zero_positions_saturate_at_zero() {
    assert_eq!(
        range(&span(0, 0, 1, 1)).to_string(),
        r#"{"end":{"character":0,"line":0},"start":{"character":0,"line":0}}"#
    );
}

#[test]
fn diagnostics_carry_severity_code_and_source() {
    let severities = [
        (LanguageDiagnosticSeverity::Error, 1),
        (LanguageDiagnosticSeverity::Warning, 2),
        (LanguageDiagnosticSeverity::Info, 3),
        (LanguageDiagnosticSeverity::Hint, 4),
    ];
    for (severity, code) in severities {
        let value = diagnostic(&LanguageDiagnostic {
            range: span(1, 1, 1, 2),
            severity,
            code: "E1".to_string(),
            message: "bad".to_string(),
        });
        assert_eq!(
            value.to_string(),
            format!(
                r#"{{"code":"E1","message":"bad","range":{{"end":{{"character":1,"line":0}},"start":{{"character":0,"line":0}}}},"severity":{},"source":"dowe"}}"#,
                code
            )
        );
    }
}

#[test]
fn completion_kinds_map_to_protocol_codes() {
    let kinds = [
        (LanguageCompletionKind::Keyword, 14),
        (LanguageCompletionKind::Component, 7),
        (LanguageCompletionKind::Property, 10),
        (LanguageCompletionKind::Value, 12),
        (LanguageCompletionKind::Function, 3),
        (LanguageCompletionKind::Variable, 6),
        (LanguageCompletionKind::File, 17),
    ];
    for (kind, code) in kinds {
        let value = completion(&LanguageCompletion {
            label: "view".to_string(),
            kind,
            detail: "component".to_string(),
        });
        assert_eq!(
            value.to_string(),
            format!(r#"{{"detail":"component","kind":{},"label":"view"}}"#, code)
        );
    }
}

#[test]
fn locations_carry_file_uris() {
    let value = location(&LanguageLocation { path: "/tmp/my app/a.dowe".to_string(), range: span(2, 2, 2, 3) });
    assert_eq!(
        value.to_string(),
        r#"{"range":{"end":{"character":2,"line":1},"start":{"character":1,"line":1}},"uri":"file:///tmp/my%20app/a.dowe"}"#
    );
}

#[test]
fn symbols_nest_their_children() {
    let kinds = [
        (LanguageSymbolKind::File, 1),
        (LanguageSymbolKind::Module, 2),
        (LanguageSymbolKind::Class, 5),
        (LanguageSymbolKind::Function, 12),
        (LanguageSymbolKind::Method, 6),
        (LanguageSymbolKind::Property, 7),
        (LanguageSymbolKind::Variable, 13),
    ];
    for (kind, code) in kinds {
        let child = LanguageDocumentSymbol {
            name: "child".to_string(),
            kind: LanguageSymbolKind::Variable,
            range: span(2, 1, 2, 4),
            selection_range: span(2, 1, 2, 2),
            children: Vec::new(),
        };
        let parent = LanguageDocumentSymbol {
            name: "parent".to_string(),
            kind,
            range: span(1, 1, 3, 1),
            selection_range: span(1, 1, 1, 2),
            children: vec![child],
        };
        assert_eq!(
            symbol(&parent).to_string(),
            format!(
                r#"{{"children":[{{"children":[],"kind":13,"name":"child","range":{{"end":{{"character":3,"line":1}},"start":{{"character":0,"line":1}}}},"selectionRange":{{"end":{{"character":1,"line":1}},"start":{{"character":0,"line":1}}}}}}],"kind":{},"name":"parent","range":{{"end":{{"character":0,"line":2}},"start":{{"character":0,"line":0}}}},"selectionRange":{{"end":{{"character":1,"line":0}},"start":{{"character":0,"line":0}}}}}}"#,
                code
            )
        );
    }
}

#[test]
fn line_counts_follow_str_lines() {
    for text in ["", "a", "a\n", "a\nb", "a\r\nb\r\n", "\n\n", "é\nü", "x\n\ny"] {
        assert_eq!(count_lines(text), text.lines().count(), "{:?}", text);
    }
}

#[test]
fn full_document_range_ends_after_the_last_line() {
    assert_eq!(
        full_document_range("a\nb\n").to_string(),
        r#"{"end":{"character":0,"line":2},"start":{"character":0,"line":0}}"#
    );
    assert_eq!(
        full_document_range("").to_string(),
        r#"{"end":{"character":0,"line":0},"start":{"character":0,"line":0}}"#
    );
    assert_eq!(
        full_document_range("a\nb").to_string(),
        r#"{"end":{"character":0,"line":2},"start":{"character":0,"line":0}}"#
    );
}
