use grub_bootimage::document::{parse_document, DocumentError, Entry, TomlValue};

fn text(s: &str) -> TomlValue {
    TomlValue::String(s.to_owned())
}

fn entry(key: &str, value: TomlValue) -> Entry {
    Entry { key: key.to_owned(), value }
}

#[test]
fn parsed_document_holds_every_kind_of_value() {
    let document = parse_document(
        "\
s = \"text\"
i = -3
f = 1.5
b = true
d = 1979-05-27T07:32:00Z
a = [1, [2, 3]]
[t]
x = \"y\"
",
    )
    .unwrap();
    assert_eq!(
        document,
        TomlValue::Table(vec![
            entry(
                "a",
                TomlValue::Array(vec![
                    TomlValue::Integer(1),
                    TomlValue::Array(vec![TomlValue::Integer(2), TomlValue::Integer(3)]),
                ])
            ),
            entry("b", TomlValue::Boolean(true)),
            entry("d", TomlValue::Datetime("1979-05-27T07:32:00Z".to_owned())),
            entry("f", TomlValue::Float(1.5f64.to_bits())),
            entry("i", TomlValue::Integer(-3)),
            entry("s", text("text")),
            entry("t", TomlValue::Table(vec![entry("x", text("y"))])),
        ])
    );
}

#[test]
fn parsed_tables_list_their_entries_by_key() {
    let document = parse_document("b = 1\nc = 2\na = 3\n").unwrap();
    assert_eq!(
        document,
        TomlValue::Table(vec![
            entry("a", TomlValue::Integer(3)),
            entry("b", TomlValue::Integer(1)),
            entry("c", TomlValue::Integer(2)),
        ])
    );
}

#[test]
fn empty_text_is_the_empty_table() {
    assert_eq!(parse_document("").unwrap(), TomlValue::Table(Vec::new()));
}

#[test]
fn text_that_is_not_toml_has_no_document() {
    assert!(matches!(parse_document("= 1"), Err(DocumentError::Syntax(_))));
    assert!(matches!(parse_document("[a"), Err(DocumentError::Syntax(_))));
    assert!(matches!(parse_document("a = [1, \"x\""), Err(DocumentError::Syntax(_))));
}

#[test]
fn member_of_a_table_is_found_by_key() {
    let table = || {
        TomlValue::Table(vec![
            entry("a", TomlValue::Integer(1)),
            entry("b", TomlValue::Integer(2)),
            entry("c", TomlValue::Integer(3)),
        ])
    };
    assert_eq!(table().into_member("a"), Some(TomlValue::Integer(1)));
    assert_eq!(table().into_member("b"), Some(TomlValue::Integer(2)));
    assert_eq!(table().into_member("c"), Some(TomlValue::Integer(3)));
    assert_eq!(table().into_member("d"), None);
    assert_eq!(table().into_member(""), None);
    assert_eq!(table().into_member("A"), None);
}

#[test]
fn first_of_several_entries_with_a_key_counts() {
    let table = TomlValue::Table(vec![
        entry("k", TomlValue::Integer(1)),
        entry("k", TomlValue::Integer(2)),
    ]);
    assert_eq!(table.into_member("k"), Some(TomlValue::Integer(1)));
}

#[test]
fn only_a_table_has_members() {
    assert_eq!(text("a").into_member("a"), None);
    assert_eq!(TomlValue::Integer(0).into_member("0"), None);
    assert_eq!(TomlValue::Array(vec![text("a")]).into_member("a"), None);
    assert_eq!(TomlValue::Table(Vec::new()).into_member("a"), None);
}

#[test]
fn into_table_hands_out_the_entries_or_the_value() {
    let entries = vec![entry("a", TomlValue::Integer(1))];
    assert_eq!(
        TomlValue::Table(vec![entry("a", TomlValue::Integer(1))]).into_table(),
        Ok(entries)
    );
    assert_eq!(TomlValue::Table(Vec::new()).into_table(), Ok(Vec::new()));
    assert_eq!(TomlValue::Integer(1).into_table(), Err(TomlValue::Integer(1)));
    assert_eq!(text("t").into_table(), Err(text("t")));
}
