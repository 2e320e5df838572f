use xml_builder::{XMLBuilder, XMLElement, XMLVersion};

fn rendered_at(
    element: &XMLElement,
    level: usize,
    sort: bool,
    indent: bool,
    break_lines: bool,
    expand_empty_tags: bool,
) -> String {
    let mut writer: Vec<u8> = Vec::new();
    element
        .render_level(&mut writer, level, sort, indent, break_lines, expand_empty_tags)
        .unwrap();
    String::from_utf8(writer).unwrap()
}

fn document_text(xml: xml_builder::XML) -> String {
    let mut writer: Vec<u8> = Vec::new();
    xml.generate(&mut writer).unwrap();
    String::from_utf8(writer).unwrap()
}

fn room(number: usize) -> XMLElement {
    let mut room = XMLElement::new("room");
    room.add_attribute("size", &(number * 27).to_string());
    room.add_attribute("city", ["Paris", "LA"][number - 1]);
    room.add_attribute("number", &number.to_string());
    room.add_text(format!("This is room number {}", number)).unwrap();
    room
}

#[test]
fn text_element_at_depth_one() {
    let mut room = XMLElement::new("room");
    room.add_attribute("number", "1");
    room.add_text("This is room number 1".to_string()).unwrap();
    assert_eq!(
        rendered_at(&room, 1, false, true, true, false),
        "\t<room number=\"1\">This is room number 1</room>\n"
    );
}

#[test]
fn empty_element_at_depth_one_without_indentation() {
    let element = XMLElement::new("indentation");
    assert_eq!(
        rendered_at(&element, 1, false, false, true, false),
        "<indentation />\n"
    );
}

#[test]
fn empty_element_self_closed_and_expanded() {
    let mut element = XMLElement::new("e");
    element.add_attribute("a", "1");
    assert_eq!(
        rendered_at(&element, 0, false, true, true, false),
        "<e a=\"1\" />\n"
    );
    assert_eq!(
        rendered_at(&element, 0, false, true, true, true),
        "<e a=\"1\"></e>\n"
    );
    assert_eq!(
        rendered_at(&element, 2, false, true, false, true),
        "\t\t<e a=\"1\"></e>"
    );
}

#[test]
fn indentation_follows_depth() {
    let mut leaf = XMLElement::new("leaf");
    leaf.add_text("x".to_string()).unwrap();
    let mut branch = XMLElement::new("branch");
    branch.add_child(leaf).unwrap();
    branch.add_child(XMLElement::new("bud")).unwrap();
    let mut tree = XMLElement::new("tree");
    tree.add_child(branch).unwrap();

    assert_eq!(
        rendered_at(&tree, 0, false, true, true, false),
        "<tree>\n\t<branch>\n\t\t<leaf>x</leaf>\n\t\t<bud />\n\t</branch>\n</tree>\n"
    );
    assert_eq!(
        rendered_at(&tree, 3, false, true, true, false),
        "\t\t\t<tree>\n\t\t\t\t<branch>\n\t\t\t\t\t<leaf>x</leaf>\n\t\t\t\t\t<bud />\n\t\t\t\t</branch>\n\t\t\t</tree>\n"
    );
    assert_eq!(
        rendered_at(&tree, 3, false, false, true, false),
        "<tree>\n<branch>\n<leaf>x</leaf>\n<bud />\n</branch>\n</tree>\n"
    );
}

#[test]
fn tags_run_together_without_line_breaks() {
    let mut leaf = XMLElement::new("leaf");
    leaf.add_text("x".to_string()).unwrap();
    let mut tree = XMLElement::new("tree");
    tree.add_child(leaf).unwrap();
    tree.add_child(XMLElement::new("bud")).unwrap();

    assert_eq!(
        rendered_at(&tree, 0, false, false, false, false),
        "<tree><leaf>x</leaf><bud /></tree>"
    );
    assert_eq!(
        rendered_at(&tree, 0, false, true, false, true),
        "<tree>\t<leaf>x</leaf>\t<bud></bud></tree>"
    );
}

#[test]
fn render_appends_to_what_the_writer_holds() {
    let element = XMLElement::new("e");
    let mut writer: Vec<u8> = b"kept".to_vec();
    element.render(&mut writer, false, true, true, false).unwrap();
    element.render(&mut writer, false, true, false, true).unwrap();
    assert_eq!(String::from_utf8(writer).unwrap(), "kept<e />\n<e></e>");
}

#[test]
fn text_outside_ascii_is_written_as_utf8() {
    let mut element = XMLElement::new("grüße");
    element.add_attribute("née", "Ångström");
    element.add_text("日本語 ✓".to_string()).unwrap();
    let mut writer: Vec<u8> = Vec::new();
    element.render(&mut writer, false, false, false, false).unwrap();
    assert_eq!(
        writer,
        "<grüße née=\"Ångström\">日本語 ✓</grüße>".as_bytes().to_vec()
    );
}

#[test]
fn own_choice_wins_over_the_document() {
    let mut house = XMLElement::new("house");
    house.add_attribute("rooms", "2");
    let first = room(1);
    let mut second = room(2);
    second.disable_attributes_sorting();
    house.add_child(first).unwrap();
    house.add_child(second).unwrap();

    let mut xml = XMLBuilder::new().sort_attributes(true).build();
    xml.set_root_element(house);

    assert_eq!(
        document_text(xml),
        "<?xml version=\"1.0\" encoding=\"UTF-8\"?>
<house rooms=\"2\">
\t<room city=\"Paris\" number=\"1\" size=\"27\">This is room number 1</room>
\t<room size=\"54\" city=\"LA\" number=\"2\">This is room number 2</room>
</house>\n"
    );
}

#[test]
fn choice_of_a_parent_does_not_reach_its_children() {
    let mut house = XMLElement::new("house");
    house.add_attribute("rooms", "2");
    house.add_attribute("floors", "1");
    house.enable_attributes_sorting();
    house.add_child(room(1)).unwrap();
    house.add_child(room(2)).unwrap();

    // The parent sorts; the document does not, and so the children do not.
    assert_eq!(
        rendered_at(&house, 0, false, true, true, false),
        "<house floors=\"1\" rooms=\"2\">
\t<room size=\"27\" city=\"Paris\" number=\"1\">This is room number 1</room>
\t<room size=\"54\" city=\"LA\" number=\"2\">This is room number 2</room>
</house>\n"
    );

    let mut plain = XMLElement::new("house");
    plain.add_attribute("rooms", "2");
    plain.add_attribute("floors", "1");
    plain.disable_attributes_sorting();
    plain.add_child(room(1)).unwrap();
    plain.add_child(room(2)).unwrap();

    // The parent does not sort; the document does, and so the children do.
    assert_eq!(
        rendered_at(&plain, 0, true, true, true, false),
        "<house rooms=\"2\" floors=\"1\">
\t<room city=\"Paris\" number=\"1\" size=\"27\">This is room number 1</room>
\t<room city=\"LA\" number=\"2\" size=\"54\">This is room number 2</room>
</house>\n"
    );
}

#[test]
fn header_with_standalone_declaration() {
    let yes = XMLBuilder::new().standalone(Some(true)).build();
    assert_eq!(
        document_text(yes),
        "<?xml version=\"1.0\" encoding=\"UTF-8\" standalone=\"yes\"?>\n"
    );
    let no = XMLBuilder::new().standalone(Some(false)).build();
    assert_eq!(
        document_text(no),
        "<?xml version=\"1.0\" encoding=\"UTF-8\" standalone=\"no\"?>\n"
    );
    let unset = XMLBuilder::new()
        .standalone(Some(true))
        .standalone(None)
        .build();
    assert_eq!(
        document_text(unset),
        "<?xml version=\"1.0\" encoding=\"UTF-8\"?>\n"
    );
}

#[test]
fn header_line_always_ends_with_a_line_feed() {
    let mut xml = XMLBuilder::new().break_lines(false).build();
    let mut root = XMLElement::new("root");
    root.add_child(XMLElement::new("leaf")).unwrap();
    xml.set_root_element(root);
    assert_eq!(
        document_text(xml),
        "<?xml version=\"1.0\" encoding=\"UTF-8\"?>\n<root>\t<leaf /></root>"
    );
}

#[test]
fn builder_settings_reach_the_document() {
    let mut xml = XMLBuilder::new()
        .version(XMLVersion::XML1_1)
        .encoding("ISO-8859-1".into())
        .standalone(Some(false))
        .indent(false)
        .sort_attributes(true)
        .break_lines(true)
        .expand_empty_tags(true)
        .build();
    let mut root = XMLElement::new("root");
    root.add_attribute("b", "2");
    root.add_attribute("a", "1");
    root.add_child(XMLElement::new("leaf")).unwrap();
    xml.set_root_element(root);
    assert_eq!(
        document_text(xml),
        "<?xml version=\"1.1\" encoding=\"ISO-8859-1\" standalone=\"no\"?>
<root a=\"1\" b=\"2\">
<leaf></leaf>
</root>\n"
    );
}

#[test]
fn later_root_takes_the_place_of_the_earlier() {
    let mut xml = XMLBuilder::new().build();
    xml.set_root_element(XMLElement::new("first"));
    xml.set_root_element(XMLElement::new("second"));
    assert_eq!(
        document_text(xml),
        "<?xml version=\"1.0\" encoding=\"UTF-8\"?>\n<second />\n"
    );
}

#[test]
fn generate_appends_to_what_the_writer_holds() {
    let xml = XMLBuilder::new().build();
    let mut writer: Vec<u8> = b"kept\n".to_vec();
    xml.generate(&mut writer).unwrap();
    assert_eq!(
        String::from_utf8(writer).unwrap(),
        "kept\n<?xml version=\"1.0\" encoding=\"UTF-8\"?>\n"
    );
}

#[test]
fn version_numbers() {
    assert_eq!(XMLVersion::XML1_0.to_string(), "1.0");
    assert_eq!(XMLVersion::XML1_1.to_string(), "1.1");
}
