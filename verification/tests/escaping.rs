use xml_builder::escape_str;

#[test]
fn each_special_character_is_replaced() {
    assert_eq!(escape_str("&"), "&amp;");
    assert_eq!(escape_str("\""), "&quot;");
    assert_eq!(escape_str("'"), "&apos;");
    assert_eq!(escape_str("<"), "&lt;");
    assert_eq!(escape_str(">"), "&gt;");
}

#[test]
fn less_than_ampersand_and_quote() {
    assert_eq!(escape_str("<&\""), "&lt;&amp;&quot;");
}

#[test]
fn other_characters_stay() {
    assert_eq!(escape_str(""), "");
    assert_eq!(escape_str("plain text 123"), "plain text 123");
    assert_eq!(escape_str("tab\tline\nfeed"), "tab\tline\nfeed");
    assert_eq!(escape_str("日本語 ✓ é"), "日本語 ✓ é");
}

#[test]
fn replacements_are_not_escaped_again() {
    // The ampersand of each replacement stays as it was written.
    assert_eq!(
        escape_str("a<b>c&d\"e'f"),
        "a&lt;b&gt;c&amp;d&quot;e&apos;f"
    );
    assert_eq!(escape_str("<<>>"), "&lt;&lt;&gt;&gt;");
}

#[test]
fn escaping_twice_is_not_escaping_once() {
    let once = escape_str("<");
    let twice = escape_str(&once);
    assert_eq!(once, "&lt;");
    assert_eq!(twice, "&amp;lt;");
    assert_eq!(escape_str("&amp;"), "&amp;amp;");
}
