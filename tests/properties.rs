use xcode_pbx_parser::{
    clean_comment, comment_body, extract_inline_comment, is_comment_text, parse_document, unquote,
    Expected, PbxEntry, PbxParseError, PbxValue, SyntaxError,
};

fn entries(input: &str) -> Vec<PbxEntry> {
    match parse_document(input).expect("document parses").root {
        PbxValue::Dictionary(es) => es,
        other => panic!("root is not a dictionary: {:?}", other),
    }
}

fn syntax_error(input: &str) -> SyntaxError {
    match parse_document(input) {
        Err(PbxParseError::Syntax(e)) => e,
        other => panic!("expected a syntax error, got {:?}", other),
    }
}

#[test]
fn root_is_a_dictionary() {
    let document = parse_document("// header\n{ a = (1, 2); } // trailer").unwrap();
    assert!(matches!(document.root, PbxValue::Dictionary(_)));
    let err = syntax_error("(a, b)");
    assert_eq!(err.offset, 0);
    assert_eq!(err.expected, Expected::Dictionary);
}

#[test]
fn entries_and_elements_keep_source_order() {
    let es = entries("{a=1;b=2;c=(z, y, x);}");
    let keys: Vec<&str> = es.iter().map(|e| e.key.as_str()).collect();
    assert_eq!(keys, vec!["a", "b", "c"]);
    assert_eq!(
        es[2].value,
        PbxValue::Array(vec![
            PbxValue::Identifier("z".into()),
            PbxValue::Identifier("y".into()),
            PbxValue::Identifier("x".into()),
        ])
    );
}

#[test]
fn duplicate_keys_are_kept() {
    let es = entries("{a=1;a=2;}");
    assert_eq!(es.len(), 2);
    assert_eq!(es[0].key, "a");
    assert_eq!(es[0].value, PbxValue::Number("1".into()));
    assert_eq!(es[1].key, "a");
    assert_eq!(es[1].value, PbxValue::Number("2".into()));
}

#[test]
fn scalars_are_verbatim() {
    let es = entries("{ n = 007; b = YES; m = -3; d = -; x = 12ab; }");
    assert_eq!(es[0].value, PbxValue::Number("007".into()));
    assert_eq!(es[1].value, PbxValue::Identifier("YES".into()));
    assert_eq!(es[2].value, PbxValue::Number("-3".into()));
    assert_eq!(es[3].value, PbxValue::Identifier("-".into()));
    assert_eq!(es[4].value, PbxValue::Identifier("12ab".into()));
}

#[test]
fn comment_stays_with_its_entry() {
    let es = entries("{ a = 1 /* c1 */; b = 2; }");
    assert_eq!(es[0].comment, Some("c1".to_string()));
    assert_eq!(es[1].comment, None);
    let es = entries("{ a = 1; /* before b */ b = 2; }");
    assert_eq!(es[0].comment, None);
    assert_eq!(es[1].comment, None);
}

#[test]
fn line_comment_trails_an_entry() {
    let es = entries("{ a = 1 // one\n; b = 2; }");
    assert_eq!(es[0].comment, Some("one".to_string()));
    assert_eq!(es[1].comment, None);
}

#[test]
fn projection_is_idempotent() {
    let document = parse_document("{ a = (1, \"x\"); b = { c = d /* e */; }; }").unwrap();
    assert_eq!(document.to_json(), document.to_json());
}

#[test]
fn scenario_single_identifier() {
    let document = parse_document("{productName=Sample}").unwrap();
    assert_eq!(
        document.root,
        PbxValue::Dictionary(vec![PbxEntry {
            key: "productName".into(),
            value: PbxValue::Identifier("Sample".into()),
            comment: None,
        }])
    );
}

#[test]
fn scenario_nested_with_comment() {
    let es = entries("{ outer = { inner = (First, Second, 7); }; flag = YES /* note */; quoted = \"Value\"; }");
    assert_eq!(es.len(), 3);
    assert_eq!(
        es[0].value,
        PbxValue::Dictionary(vec![PbxEntry {
            key: "inner".into(),
            value: PbxValue::Array(vec![
                PbxValue::Identifier("First".into()),
                PbxValue::Identifier("Second".into()),
                PbxValue::Number("7".into()),
            ]),
            comment: None,
        }])
    );
    assert_eq!(es[1].comment, Some("note".to_string()));
    assert_eq!(es[2].value, PbxValue::String("Value".into()));
}

#[test]
fn scenario_missing_closing_brace() {
    let input = "{productName=\"SomeApp\"";
    let err = syntax_error(input);
    assert_eq!(err.offset, input.chars().count());
    assert_eq!(err.line, 1);
    assert_eq!(err.column, input.chars().count() + 1);
    assert_eq!(err.expected, Expected::EntrySeparator);
}

#[test]
fn scenario_empty_dictionary() {
    assert_eq!(parse_document("{}").unwrap().root, PbxValue::Dictionary(vec![]));
    assert_eq!(parse_document("{ /* nothing */ }").unwrap().root, PbxValue::Dictionary(vec![]));
}

#[test]
fn scenario_quoted_key() {
    let es = entries("{ \"My Key\" = 1; }");
    assert_eq!(es.len(), 1);
    assert_eq!(es[0].key, "My Key");
    assert_eq!(es[0].value, PbxValue::Number("1".into()));
}

#[test]
fn empty_and_trailing_separators() {
    let es = entries("{ a = (); b = (x,); c = {}; }");
    assert_eq!(es[0].value, PbxValue::Array(vec![]));
    assert_eq!(es[1].value, PbxValue::Array(vec![PbxValue::Identifier("x".into())]));
    assert_eq!(es[2].value, PbxValue::Dictionary(vec![]));
}

#[test]
fn quoted_strings_keep_escapes() {
    let es = entries("{ s = \"say \\\"hi\\\"\"; }");
    assert_eq!(es[0].value, PbxValue::String("say \\\"hi\\\"".into()));
}

#[test]
fn errors_name_what_was_expected() {
    assert_eq!(syntax_error("{ a 1; }").expected, Expected::Equals);
    assert_eq!(syntax_error("{ a = ; }").expected, Expected::Value);
    assert_eq!(syntax_error("{ 12 = a; }").expected, Expected::Key);
    assert_eq!(syntax_error("{ a = (x y); }").expected, Expected::ElementSeparator);
    assert_eq!(syntax_error("{ a = \"open; }").expected, Expected::ClosingQuote);
    assert_eq!(syntax_error("{ a = 1 } extra").expected, Expected::EndOfInput);
    assert_eq!(syntax_error("{ a = 1;; }").expected, Expected::Key);
    assert_eq!(syntax_error("").expected, Expected::Dictionary);
}

#[test]
fn error_position_counts_lines_and_columns() {
    let err = syntax_error("{\n  a = 1;\n  b 2;\n}");
    assert_eq!(err.line, 3);
    assert_eq!(err.column, 5);
    assert_eq!(err.offset, 15);
}

#[test]
fn comment_cleaning() {
    assert_eq!(clean_comment("  /* Begin section */  "), "Begin section");
    assert_eq!(clean_comment("// !$*UTF8*$!\n"), "!$*UTF8*$!");
    assert_eq!(clean_comment("  plain  "), "plain");
    assert_eq!(clean_comment("/*/"), "/*/");
    assert_eq!(comment_body("/* x */"), Some(" x ".to_string()));
    assert_eq!(comment_body("//y"), Some("y".to_string()));
    assert_eq!(comment_body("x"), None);
    assert!(is_comment_text("/* a */"));
    assert!(is_comment_text("// a"));
    assert!(!is_comment_text("; b = 2"));
}

#[test]
fn inline_comment_extraction() {
    assert_eq!(
        extract_inline_comment("  flag = YES /* note */ ", "flag = YES"),
        Some("note".to_string())
    );
    assert_eq!(extract_inline_comment("a = 1 // c", "a = 1"), Some("c".to_string()));
    assert_eq!(extract_inline_comment("a = 1   ", "a = 1"), None);
    assert_eq!(extract_inline_comment("a = 1; b = 2", "a = 1"), None);
    assert_eq!(extract_inline_comment("b = 2 /* x */", "a = 1"), None);
}

#[test]
fn unquoting() {
    assert_eq!(unquote("\"Products.storekit\""), "Products.storekit");
    assert_eq!(unquote("\"\""), "");
    assert_eq!(unquote("x"), "");
}

#[test]
fn real_project_fragment() {
    let input = "// !$*UTF8*$!\n{\n\tarchiveVersion = 1;\n\tobjects = {\n\n/* Begin PBXBuildFile section */\n\t\t7E3D661B2EA2D7C900F28288 /* App.swift in Sources */ = {isa = PBXBuildFile; fileRef = 7E3D661A2EA2D7C900F28288 /* App.swift */; };\n/* End PBXBuildFile section */\n\t};\n\trootObject = 7E3D66002EA2D7C900F28288 /* Project object */;\n}\n";
    let es = entries(input);
    assert_eq!(es.len(), 3);
    assert_eq!(es[0].key, "archiveVersion");
    assert_eq!(es[2].comment, Some("Project object".to_string()));
    match &es[1].value {
        PbxValue::Dictionary(objects) => {
            assert_eq!(objects.len(), 1);
            assert_eq!(objects[0].key, "7E3D661B2EA2D7C900F28288");
            match &objects[0].value {
                PbxValue::Dictionary(fields) => {
                    assert_eq!(fields[1].key, "fileRef");
                    assert_eq!(fields[1].comment, Some("App.swift".to_string()));
                }
                other => panic!("unexpected {:?}", other),
            }
        }
        other => panic!("unexpected {:?}", other),
    }
}
