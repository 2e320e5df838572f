use xml_builder::{ToXMLElement, XMLElement, XMLError};

fn element_text(element: &XMLElement) -> String {
    let mut writer: Vec<u8> = Vec::new();
    element.render(&mut writer, false, true, true, false).unwrap();
    String::from_utf8(writer).unwrap()
}

#[test]
fn new_element_is_empty() {
    let element = XMLElement::new("leaf");
    assert_eq!(element_text(&element), "<leaf />\n");
    assert_eq!(element.attributes_as_string(false), "");
    assert_eq!(element.attributes_as_string(true), "");
}

#[test]
fn name_is_taken_as_it_is() {
    let element = XMLElement::new("not a <name>");
    assert_eq!(element_text(&element), "<not a <name> />\n");
    let nameless = XMLElement::new("");
    assert_eq!(element_text(&nameless), "< />\n");
}

#[test]
fn child_after_text_is_refused_and_changes_nothing() {
    let mut element = XMLElement::new("note");
    element.add_attribute("lang", "en");
    element.add_text("hello".to_string()).unwrap();
    let before = element_text(&element);

    let result = element.add_child(XMLElement::new("late"));

    match result {
        Err(XMLError::InsertError(cause)) => {
            assert_eq!(cause, "Cannot insert child inside an element with text");
        }
        _ => panic!("a child was accepted by an element with text"),
    }
    assert_eq!(element_text(&element), before);
    assert_eq!(before, "<note lang=\"en\">hello</note>\n");
}

#[test]
fn text_after_text_is_refused_and_changes_nothing() {
    let mut element = XMLElement::new("note");
    element.add_text("first".to_string()).unwrap();

    let result = element.add_text("second".to_string());

    match result {
        Err(XMLError::InsertError(cause)) => {
            assert_eq!(cause, "Cannot insert text in a non-empty element");
        }
        _ => panic!("a second text was accepted"),
    }
    assert_eq!(element_text(&element), "<note>first</note>\n");
}

#[test]
fn text_after_child_is_refused_and_changes_nothing() {
    let mut element = XMLElement::new("list");
    element.add_child(XMLElement::new("item")).unwrap();

    let result = element.add_text("words".to_string());

    match result {
        Err(XMLError::InsertError(cause)) => {
            assert_eq!(cause, "Cannot insert text in a non-empty element");
        }
        _ => panic!("text was accepted by an element with children"),
    }
    assert_eq!(element_text(&element), "<list>\n\t<item />\n</list>\n");
}

#[test]
fn children_keep_their_order() {
    let mut list = XMLElement::new("list");
    for name in ["one", "two", "three"] {
        list.add_child(XMLElement::new(name)).unwrap();
    }
    assert_eq!(
        element_text(&list),
        "<list>\n\t<one />\n\t<two />\n\t<three />\n</list>\n"
    );
}

#[test]
fn empty_text_is_text() {
    let mut element = XMLElement::new("blank");
    element.add_text(String::new()).unwrap();
    assert_eq!(element_text(&element), "<blank></blank>\n");
    assert!(element.add_child(XMLElement::new("late")).is_err());
    assert!(element.add_text("more".to_string()).is_err());
}

#[test]
fn duplicate_attribute_keys_are_kept() {
    let mut element = XMLElement::new("e");
    element.add_attribute("k", "1");
    element.add_attribute("k", "2");
    element.add_attribute("k", "1");
    assert_eq!(
        element.attributes_as_string(false),
        " k=\"1\" k=\"2\" k=\"1\""
    );
    assert_eq!(
        element.attributes_as_string(true),
        " k=\"1\" k=\"2\" k=\"1\""
    );
}

#[test]
fn attribute_value_is_escaped_once_at_insertion() {
    let mut element = XMLElement::new("e");
    element.add_attribute("v", "<&\"");
    assert_eq!(
        element.attributes_as_string(false),
        " v=\"&lt;&amp;&quot;\""
    );
    // Writing the element again escapes nothing again.
    assert_eq!(element_text(&element), "<e v=\"&lt;&amp;&quot;\" />\n");
    assert_eq!(element_text(&element), "<e v=\"&lt;&amp;&quot;\" />\n");
}

#[test]
fn attribute_key_and_text_are_not_escaped() {
    let mut element = XMLElement::new("e");
    element.add_attribute("a&b", "x");
    element.add_text("1 < 2 & \"so on\"".to_string()).unwrap();
    assert_eq!(
        element_text(&element),
        "<e a&b=\"x\">1 < 2 & \"so on\"</e>\n"
    );
}

#[test]
fn sorting_choice_can_be_set_either_way() {
    let mut element = XMLElement::new("e");
    element.add_attribute("b", "1");
    element.add_attribute("a", "2");

    element.enable_attributes_sorting();
    assert_eq!(element.attributes_as_string(false), " a=\"2\" b=\"1\"");

    element.disable_attributes_sorting();
    assert_eq!(element.attributes_as_string(true), " b=\"1\" a=\"2\"");

    element.set_attribute_sorting(true);
    assert_eq!(element.attributes_as_string(false), " a=\"2\" b=\"1\"");

    element.set_attribute_sorting(false);
    assert_eq!(element.attributes_as_string(true), " b=\"1\" a=\"2\"");
}

#[test]
fn insert_error_in_words() {
    let mut element = XMLElement::new("note");
    element.add_text("t".to_string()).unwrap();
    let error = element.add_child(XMLElement::new("c")).unwrap_err();
    assert_eq!(
        error.to_string(),
        "Error encountered during insertion: Cannot insert child inside an element with text"
    );
    let error = element.add_text("u".to_string()).unwrap_err();
    assert_eq!(
        error.to_string(),
        "Error encountered during insertion: Cannot insert text in a non-empty element"
    );
}

#[test]
fn io_error_in_words() {
    let error = XMLError::IOError("disk full".to_string());
    assert_eq!(
        error.to_string(),
        "Error encountered during write: disk full"
    );
}

struct Point {
    x: i32,
    y: i32,
}

impl ToXMLElement for Point {
    fn to_xmlelement(self) -> Result<XMLElement, XMLError> {
        let mut element = XMLElement::new("point");
        element.add_attribute("x", &self.x.to_string());
        element.add_attribute("y", &self.y.to_string());
        Ok(element)
    }
}

struct Unwritable;

impl ToXMLElement for Unwritable {
    fn to_xmlelement(self) -> Result<XMLElement, XMLError> {
        let mut element = XMLElement::new("unwritable");
        element.add_text("text".to_string())?;
        element.add_child(XMLElement::new("child"))?;
        Ok(element)
    }
}

#[test]
fn values_convert_to_elements() {
    let element = Point { x: 3, y: -4 }.to_xmlelement().unwrap();
    assert_eq!(element_text(&element), "<point x=\"3\" y=\"-4\" />\n");
    assert!(matches!(
        Unwritable.to_xmlelement(),
        Err(XMLError::InsertError(_))
    ));
}
