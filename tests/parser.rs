use xcode_pbx_parser::{parse_document, JsonMember, JsonValue, PbxEntry, PbxValue};

fn text(s: &str) -> JsonValue {
    JsonValue::String(s.to_string())
}

fn object(members: Vec<(&str, JsonValue)>) -> JsonValue {
    JsonValue::Object(
        members
            .into_iter()
            .map(|(name, value)| JsonMember { name: name.to_string(), value })
            .collect(),
    )
}

fn tagged(tag: &str, value: JsonValue) -> JsonValue {
    object(vec![("type", text(tag)), ("value", value)])
}

#[test]
fn parses_dictionary_with_array() {
    let input = "{ outer = { inner = (First, Second, 7); }; flag = YES /* Begin PBXBuildFile section */; quoted = \"Value\"; }";
    let document = parse_document(input).expect("document parses");
    let expected = PbxValue::Dictionary(vec![
        PbxEntry {
            key: "outer".into(),
            value: PbxValue::Dictionary(vec![PbxEntry {
                key: "inner".into(),
                value: PbxValue::Array(vec![
                    PbxValue::Identifier("First".into()),
                    PbxValue::Identifier("Second".into()),
                    PbxValue::Number("7".into()),
                ]),
                comment: None,
            }]),
            comment: None,
        },
        PbxEntry {
            key: "flag".into(),
            value: PbxValue::Identifier("YES".into()),
            comment: Some("Begin PBXBuildFile section".into()),
        },
        PbxEntry {
            key: "quoted".into(),
            value: PbxValue::String("Value".into()),
            comment: None,
        },
    ]);

    assert_eq!(document.root, expected);

    let serialized = document.to_json();
    let expected_json = tagged(
        "dictionary",
        JsonValue::Array(vec![
            object(vec![
                ("key", text("outer")),
                (
                    "value",
                    tagged(
                        "dictionary",
                        JsonValue::Array(vec![object(vec![
                            ("key", text("inner")),
                            (
                                "value",
                                tagged(
                                    "array",
                                    JsonValue::Array(vec![
                                        tagged("identifier", text("First")),
                                        tagged("identifier", text("Second")),
                                        tagged("number", text("7")),
                                    ]),
                                ),
                            ),
                        ])]),
                    ),
                ),
            ]),
            object(vec![
                ("key", text("flag")),
                ("value", tagged("identifier", text("YES"))),
                ("comment", text("Begin PBXBuildFile section")),
            ]),
            object(vec![
                ("key", text("quoted")),
                ("value", tagged("string", text("Value"))),
            ]),
        ]),
    );
    assert_eq!(serialized, expected_json);
}
