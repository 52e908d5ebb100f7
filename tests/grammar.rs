use xcode_pbx_parser::{recognize, Rule};

#[test]
fn single_entry_file_parsing() {
    let input = "{isa = PBXBuildFile; fileRef = 8E320BAFFB7B48F19CAA325CB834998A}";
    let result = recognize(Rule::File, input).expect("file should parse");
    assert_eq!(result, input);
}

#[test]
fn dictionary_rule_parsing() {
    let input = "{isa = PBXBuildFile; fileRef = 8E320BAFFB7B48F19CAA325CB834998A /* AboutFeature.swift */}";
    let result = recognize(Rule::Dictionary, input).expect("dictionary should parse");
    assert_eq!(result, input);
}

#[test]
fn array_rule_parsing() {
    let input = "(words, numbers, 27, \"quoted\")";
    let result = recognize(Rule::Array, input).expect("array should parse");
    assert_eq!(result, input);
}

#[test]
fn identifier_rule_parsing() {
    let input = "19FAF625E510475C8F2D3C08B89BE3DD";
    let result = recognize(Rule::Identifier, input).expect("identifier should parse");
    assert_eq!(result, input);
}

#[test]
fn number_rule_parsing() {
    let input = "77";
    let result = recognize(Rule::Number, input).expect("number should parse");
    assert_eq!(result, input);
}

#[test]
fn string_rule_parsing() {
    let input = "\"Products.storekit\"";
    let result = recognize(Rule::String, input).expect("string should parse");
    assert_eq!(result, input);
}

#[test]
fn pair_rule_parsing() {
    let input = "isa = PBXBuildFile";
    let result = recognize(Rule::Pair, input).expect("pair should parse");
    assert_eq!(result, input);
}

#[test]
fn key_rule_parsing() {
    let input = "fileRef";
    let result = recognize(Rule::Key, input).expect("key should parse");
    assert_eq!(result, input);
}

#[test]
fn key_as_string_parsing() {
    let input = "\"My Key\"";
    let result = recognize(Rule::Key, input).expect("key as string should parse");
    assert_eq!(result, input);
}

#[test]
fn pair_sequence_parsing() {
    let input = "isa = PBXBuildFile; fileRef = 8E320BAFFB7B48F19CAA325CB834998A";
    let result = recognize(Rule::PairSequence, input).expect("pair_sequence should parse");
    assert_eq!(result, input);
}

#[test]
fn pair_entry_parsing() {
    let input = "  archiveVersion = 1  ";
    let result = recognize(Rule::PairEntry, input).expect("pair_entry should parse");
    assert_eq!(result, input);
}

#[test]
fn value_list_parsing() {
    let input = "item1, item2, item3";
    let result = recognize(Rule::ValueList, input).expect("value_list should parse");
    assert_eq!(result, input);
}

#[test]
fn value_entry_parsing() {
    let input = "  7E3D661B2EA2D7C900F28288  ";
    let result = recognize(Rule::ValueEntry, input).expect("value_entry should parse");
    assert_eq!(result, input);
}

#[test]
fn block_comment_parsing() {
    let input = "/* Begin PBXBuildFile section */";
    let result = recognize(Rule::BlockComment, input).expect("block comment should parse");
    assert_eq!(result, input);
}

#[test]
fn line_comment_parsing() {
    let input = "// !$*UTF8*$!\n";
    let result = recognize(Rule::LineComment, input).expect("line comment should parse");
    assert_eq!(result, input);
}

#[test]
fn identifier_rule_refuses_a_number() {
    let err = recognize(Rule::Identifier, "42").unwrap_err();
    assert_eq!(err.offset, 0);
}

#[test]
fn number_rule_refuses_digits_followed_by_letters() {
    assert!(recognize(Rule::Number, "12ab").is_err());
    assert_eq!(recognize(Rule::Number, "-12").unwrap(), "-12");
}

#[test]
fn rules_match_a_prefix() {
    assert_eq!(recognize(Rule::Key, "name = value").unwrap(), "name");
    assert_eq!(recognize(Rule::PairComment, "  /* c */ rest").unwrap(), "  /* c */");
    assert_eq!(recognize(Rule::Value, "(a, b) tail").unwrap(), "(a, b)");
}

#[test]
fn unterminated_block_comment_is_refused() {
    let err = recognize(Rule::BlockComment, "/* open").unwrap_err();
    assert_eq!(err.offset, 7);
}
