use xml_builder::encoding::write_text;
use xml_builder::order::key_precedes;
use xml_builder::sorting::ordered_attributes;
use xml_builder::XMLElement;

fn attributes(pairs: &[(&str, &str)]) -> Vec<(String, String)> {
    pairs
        .iter()
        .map(|(key, value)| (key.to_string(), value.to_string()))
        .collect()
}

fn owned(ordered: Vec<&(String, String)>) -> Vec<(String, String)> {
    ordered.into_iter().cloned().collect()
}

#[test]
fn keys_are_ordered_as_strings_are() {
    assert!(key_precedes("a", "b"));
    assert!(!key_precedes("b", "a"));
    assert!(!key_precedes("a", "a"));
    assert!(key_precedes("", "a"));
    assert!(!key_precedes("a", ""));
    assert!(!key_precedes("", ""));
    assert!(key_precedes("ab", "abc"));
    assert!(!key_precedes("abc", "ab"));
    assert!(key_precedes("abc", "abd"));
    assert!(key_precedes("B", "a"));
    assert!(key_precedes("10", "9"));
    assert!(key_precedes("z", "é"));
    assert!(key_precedes("é", "日"));
}

#[test]
fn key_order_agrees_with_string_order() {
    let keys = [
        "", "a", "A", "ab", "b", "é", "z", "日本", "10", "9", "a b", "a-b", "\u{7f}", "\u{80}",
        "\u{7ff}", "\u{800}", "\u{d7ff}", "\u{e000}", "\u{ffff}", "\u{10000}", "😀", "a😀",
        "\u{10ffff}",
    ];
    for x in keys {
        for y in keys {
            assert_eq!(key_precedes(x, y), x < y, "{:?} against {:?}", x, y);
        }
    }
}

#[test]
fn key_order_goes_by_code_points() {
    let marks = [
        '\u{0}', 'A', 'a', '\u{7f}', '\u{80}', 'é', '\u{7ff}', '\u{800}', '日', '\u{d7ff}',
        '\u{e000}', '\u{ffff}', '\u{10000}', '😀', '\u{10ffff}',
    ];
    for x in marks {
        for y in marks {
            assert_eq!(
                key_precedes(&x.to_string(), &y.to_string()),
                (x as u32) < (y as u32),
                "{:?} against {:?}",
                x,
                y
            );
        }
    }
}

#[test]
fn unsorted_attributes_keep_their_order() {
    let stored = attributes(&[("size", "27"), ("city", "Paris"), ("number", "1")]);
    assert_eq!(owned(ordered_attributes(&stored, false)), stored);
    let none: Vec<(String, String)> = Vec::new();
    assert!(ordered_attributes(&none, false).is_empty());
    assert!(ordered_attributes(&none, true).is_empty());
}

#[test]
fn sorted_attributes_are_ordered_by_key() {
    let stored = attributes(&[("size", "27"), ("city", "Paris"), ("number", "1")]);
    assert_eq!(
        owned(ordered_attributes(&stored, true)),
        attributes(&[("city", "Paris"), ("number", "1"), ("size", "27")])
    );
    // The stored list is left as it was.
    assert_eq!(
        stored,
        attributes(&[("size", "27"), ("city", "Paris"), ("number", "1")])
    );
}

#[test]
fn equal_keys_keep_their_order_when_sorted() {
    let stored = attributes(&[
        ("k", "2"),
        ("b", "x"),
        ("k", "1"),
        ("a", "y"),
        ("k", "3"),
        ("b", "w"),
    ]);
    assert_eq!(
        owned(ordered_attributes(&stored, true)),
        attributes(&[
            ("a", "y"),
            ("b", "x"),
            ("b", "w"),
            ("k", "2"),
            ("k", "1"),
            ("k", "3"),
        ])
    );
}

#[test]
fn sorting_a_sorted_list_changes_nothing() {
    let stored = attributes(&[("a", "3"), ("a", "1"), ("b", "2"), ("c", "0")]);
    assert_eq!(owned(ordered_attributes(&stored, true)), stored);
}

#[test]
fn sorted_attributes_in_a_tag() {
    let mut element = XMLElement::new("e");
    for (key, value) in [("k", "2"), ("B", "x"), ("k", "1"), ("a", "y")] {
        element.add_attribute(key, value);
    }
    assert_eq!(
        element.attributes_as_string(false),
        " k=\"2\" B=\"x\" k=\"1\" a=\"y\""
    );
    assert_eq!(
        element.attributes_as_string(true),
        " B=\"x\" a=\"y\" k=\"2\" k=\"1\""
    );
}

#[test]
fn text_is_written_as_utf8() {
    let mut writer: Vec<u8> = vec![1, 2];
    write_text(&mut writer, "aé日");
    assert_eq!(writer, vec![1, 2, 0x61, 0xC3, 0xA9, 0xE6, 0x97, 0xA5]);
    write_text(&mut writer, "");
    assert_eq!(writer.len(), 8);
}
