use tremor_lsp_core::{
    candidate, decimal, diagnostics_from, extract, message, offset, render_doc, snippet,
    to_position, Backend, CompletionCandidate, DocumentStore, FunctionDoc, FunctionSignature,
    Language, Location, Position, RawError, RequestError, Severity,
};

struct Fixture;

fn doc(name: &str, args: &[&str], description: &str) -> FunctionDoc {
    FunctionDoc {
        signature: FunctionSignature {
            name: name.to_string(),
            args: args.iter().map(|a| a.to_string()).collect(),
        },
        description: description.to_string(),
    }
}

impl Language for Fixture {
    fn parse_errors(&self, text: &str) -> Option<Vec<RawError>> {
        if text.contains("bad") {
            Some(vec![RawError {
                start: Location { line: 1, column: 1 },
                end: Location { line: 1, column: 4 },
                callout: "unexpected token".to_string(),
                level: Severity::Error,
                hint: Some("did you mean `let`".to_string()),
            }])
        } else {
            Some(vec![])
        }
    }

    fn functions(&self, namespace: &str) -> Vec<String> {
        match namespace {
            "math" => vec!["max".to_string(), "min".to_string()],
            "string" => vec!["len".to_string(), "trim".to_string()],
            _ => vec![],
        }
    }

    fn function_doc(&self, name: &str) -> Option<FunctionDoc> {
        match name {
            "math::max" => Some(doc("math::max", &["a", "b"], "Larger of two.")),
            "math::min" => Some(doc("math::min", &["a", "b"], "Smaller of two.")),
            "string::len" => Some(doc("string::len", &["s"], "Length.")),
            "max" => Some(doc("max", &["a", "b"], "Unqualified.")),
            _ => None,
        }
    }
}

fn at(line: u32, character: u32) -> Position {
    Position { line, character }
}

#[test]
fn extract_splits_namespace_and_member() {
    let t = extract("foo::bar", at(0, 8)).unwrap();
    assert_eq!(t.text, "foo::bar");
    assert_eq!(t.namespace.as_deref(), Some("foo"));
    assert_eq!(t.member, "bar");
}

#[test]
fn extract_without_namespace() {
    let t = extract("bar", at(0, 3)).unwrap();
    assert_eq!(t.namespace, None);
    assert_eq!(t.member, "bar");
}

#[test]
fn extract_on_whitespace_gives_nothing() {
    assert!(extract("foo   bar", at(0, 4)).is_none());
    assert!(extract("foo bar", at(0, 0)).is_none());
    assert!(extract("a \n b", at(1, 1)).is_none());
}

#[test]
fn extract_never_reads_past_cursor() {
    let t = extract("foo::barbaz", at(0, 8)).unwrap();
    assert_eq!(t.text, "foo::bar");
    assert_eq!(t.member, "bar");
}

#[test]
fn extract_on_later_line_and_last_separator() {
    let t = extract("let x = 1;\n  a::b::c + 2", at(1, 9)).unwrap();
    assert_eq!(t.text, "a::b::c");
    assert_eq!(t.namespace.as_deref(), Some("a::b"));
    assert_eq!(t.member, "c");
}

#[test]
fn extract_on_missing_line_gives_nothing() {
    assert!(extract("one line", at(3, 0)).is_none());
}

#[test]
fn extract_clamps_column_to_line_end() {
    let t = extract("abc\ndef", at(0, 40)).unwrap();
    assert_eq!(t.text, "abc");
}

#[test]
fn offset_of_positions() {
    let t: Vec<char> = "ab\ncd\n".chars().collect();
    assert_eq!(offset(&t, at(0, 1)), Some(1));
    assert_eq!(offset(&t, at(1, 0)), Some(3));
    assert_eq!(offset(&t, at(1, 9)), Some(5));
    assert_eq!(offset(&t, at(2, 0)), Some(6));
    assert_eq!(offset(&t, at(3, 0)), None);
}

#[test]
fn decimal_digits() {
    assert_eq!(decimal(0), "0");
    assert_eq!(decimal(7), "7");
    assert_eq!(decimal(1234), "1234");
    assert_eq!(decimal(usize::MAX), usize::MAX.to_string());
}

#[test]
fn message_appends_hint_as_note() {
    assert_eq!(message(&"oops".to_string(), &Some("try this".to_string())), "oops, Note: try this");
    assert_eq!(message(&"oops".to_string(), &None), "oops");
}

#[test]
fn positions_become_zero_based() {
    let p = to_position(Location { line: 3, column: 5 });
    assert_eq!(p, at(2, 4));
    assert_eq!(to_position(Location { line: 0, column: 0 }), at(0, 0));
    assert_eq!(to_position(Location { line: usize::MAX, column: 1 }), at(u32::MAX, 0));
}

#[test]
fn diagnostics_keep_callout_and_hint() {
    let errors = Some(vec![
        RawError {
            start: Location { line: 2, column: 3 },
            end: Location { line: 2, column: 7 },
            callout: "bad thing".to_string(),
            level: Severity::Warning,
            hint: Some("fix it".to_string()),
        },
        RawError {
            start: Location { line: 1, column: 1 },
            end: Location { line: 1, column: 2 },
            callout: "other".to_string(),
            level: Severity::Hint,
            hint: None,
        },
    ]);
    let ds = diagnostics_from(&errors);
    assert_eq!(ds.len(), 2);
    assert_eq!(ds[0].message, "bad thing, Note: fix it");
    assert!(ds[0].message.contains("bad thing"));
    assert!(ds[0].message.contains("fix it"));
    assert_eq!(ds[0].start, at(1, 2));
    assert_eq!(ds[0].end, at(1, 6));
    assert_eq!(ds[0].severity, Severity::Warning);
    assert_eq!(ds[1].message, "other");
    assert_eq!(ds[1].severity, Severity::Hint);
    assert!(diagnostics_from(&None).is_empty());
    assert!(diagnostics_from(&Some(vec![])).is_empty());
}

#[test]
fn valid_text_has_no_diagnostics() {
    let mut b = Backend::new(Fixture);
    assert!(b.did_open("file:///a".to_string(), "let x = 1;").is_empty());
    let ds = b.did_change("file:///a".to_string(), "bad");
    assert_eq!(ds.len(), 1);
    assert_eq!(ds[0].message, "unexpected token, Note: did you mean `let`");
}

#[test]
fn snippet_numbers_placeholders() {
    let args = vec!["a".to_string(), "b".to_string(), "c".to_string()];
    assert_eq!(snippet(&"f".to_string(), &args), "f(${1:a}, ${2:b}, ${3:c})");
    assert_eq!(snippet(&"g".to_string(), &vec![]), "g()");
}

#[test]
fn candidate_without_doc_has_label_only() {
    let c: CompletionCandidate = candidate(&"x".to_string(), &None);
    assert_eq!(c.label, "x");
    assert!(c.detail.is_none() && c.documentation.is_none() && c.insert_text.is_none());
}

#[test]
fn completions_in_namespace() {
    let mut b = Backend::new(Fixture);
    b.update("u".to_string(), "math::");
    let cs = b.completion(&"u".to_string(), at(0, 6)).unwrap();
    assert_eq!(cs.len(), 2);
    assert_eq!(cs[0].label, "max");
    assert_eq!(cs[0].detail.as_deref(), Some("math::max(a, b)"));
    assert_eq!(cs[0].documentation.as_deref(), Some("Larger of two."));
    assert_eq!(cs[0].insert_text.as_deref(), Some("max(${1:a}, ${2:b})"));
    assert_eq!(cs[1].label, "min");
    assert_eq!(cs[1].insert_text.as_deref(), Some("min(${1:a}, ${2:b})"));
}

#[test]
fn completions_with_partial_docs() {
    let mut b = Backend::new(Fixture);
    b.update("u".to_string(), "string::le");
    let cs = b.completion(&"u".to_string(), at(0, 10)).unwrap();
    assert_eq!(cs.len(), 2);
    assert_eq!(cs[0].insert_text.as_deref(), Some("len(${1:s})"));
    assert_eq!(cs[1].label, "trim");
    assert!(cs[1].detail.is_none());
}

#[test]
fn completions_need_a_namespace() {
    let mut b = Backend::new(Fixture);
    b.update("u".to_string(), "math");
    assert!(b.completion(&"u".to_string(), at(0, 4)).unwrap().is_empty());
    b.update("u".to_string(), "::max");
    assert!(b.completion(&"u".to_string(), at(0, 5)).unwrap().is_empty());
    b.update("u".to_string(), "math ");
    assert!(b.completion(&"u".to_string(), at(0, 5)).unwrap().is_empty());
}

#[test]
fn unknown_document_is_not_found() {
    let b = Backend::new(Fixture);
    assert_eq!(b.completion(&"nope".to_string(), at(0, 0)).err(), Some(RequestError::NotFound));
    assert_eq!(b.hover(&"nope".to_string(), at(0, 0)).err(), Some(RequestError::NotFound));
    assert_eq!(b.get(&"nope".to_string()).err(), Some(RequestError::NotFound));
}

#[test]
fn hover_renders_qualified_doc() {
    let mut b = Backend::new(Fixture);
    b.update("u".to_string(), "x = math::max");
    let h = b.hover(&"u".to_string(), at(0, 13)).unwrap().unwrap();
    assert_eq!(h, "```\nmath::max(a, b)\n```\nLarger of two.");
    assert_eq!(render_doc(&doc("f", &[], "d")), "```\nf()\n```\nd");
}

#[test]
fn hover_ignores_unqualified_token() {
    let mut b = Backend::new(Fixture);
    b.update("u".to_string(), "max");
    assert_eq!(b.hover(&"u".to_string(), at(0, 3)).unwrap(), None);
    b.update("u".to_string(), "math::nothing");
    assert_eq!(b.hover(&"u".to_string(), at(0, 13)).unwrap(), None);
}

#[test]
fn store_round_trip() {
    let mut b = Backend::new(Fixture);
    b.did_open("id".to_string(), "a");
    b.update("id".to_string(), "b");
    assert_eq!(b.get(&"id".to_string()).unwrap(), "b");
}

#[test]
fn document_store_operations() {
    let mut s = DocumentStore::new();
    assert_eq!(s.get(&"k".to_string()), None);
    s.open("k".to_string(), "one".to_string());
    s.open("j".to_string(), "two".to_string());
    s.update("k".to_string(), "three".to_string());
    assert_eq!(s.get(&"k".to_string()).as_deref(), Some("three"));
    assert_eq!(s.get(&"j".to_string()).as_deref(), Some("two"));
    s.remove(&"k".to_string());
    assert_eq!(s.get(&"k".to_string()), None);
    for i in 0..100 {
        s.open(format!("d{}", i), format!("t{}", i));
    }
    assert_eq!(s.get(&"d77".to_string()).as_deref(), Some("t77"));
}

#[test]
fn close_keeps_or_removes_entry() {
    let mut b = Backend::new(Fixture);
    b.did_open("id".to_string(), "a");
    assert!(b.did_close(&"id".to_string()).is_empty());
    assert_eq!(b.get(&"id".to_string()).unwrap(), "a");
    b.set_remove_on_close(true);
    assert!(b.did_close(&"id".to_string()).is_empty());
    assert_eq!(b.get(&"id".to_string()).err(), Some(RequestError::NotFound));
}
