//! The mathematical model of an element tree and of the text it is written
//! as.
//!
//! An element is modelled by [`ElementModel`]; [`ElementModel::rendered`] is
//! the text of the element and of everything below it under a given set of
//! formatting options.

use crate::sorting::stable_sort;
use crate::xmlversion::XMLVersion;
use vstd::prelude::*;

verus! {

/// An attribute as a mathematical value: its key and its value.
pub type Attribute = (Seq<char>, Seq<char>);

/// What an element holds between its tags.
pub enum ContentModel {
    /// Nothing: no child and no text.
    Empty,
    /// Child elements, in document order.
    Children(Seq<ElementModel>),
    /// Text, written out as it is.
    Text(Seq<char>),
}

/// An element as a mathematical value.
pub struct ElementModel {
    /// The tag name.
    pub name: Seq<char>,
    /// The attributes in the order of their insertion, values already escaped.
    pub attributes: Seq<Attribute>,
    /// The element's own choice on attribute sorting, if it has made one.
    pub sort_override: Option<bool>,
    /// The content.
    pub content: ContentModel,
}

/// The text before a tag at the given depth: one tab per level if `indent`
/// is set, nothing otherwise.
pub open spec fn indentation(indent: bool, depth: nat) -> Seq<char>
    decreases depth,
{
    if !indent || depth == 0 {
        Seq::empty()
    } else {
        indentation(indent, (depth - 1) as nat) + "\t"@
    }
}

/// The text after a tag: a line feed if `break_lines` is set, nothing
/// otherwise.
pub open spec fn line_end(break_lines: bool) -> Seq<char> {
    if break_lines {
        "\n"@
    } else {
        Seq::empty()
    }
}

/// One attribute as it stands in a tag: a space, the key, and the value in
/// double quotes.
pub open spec fn attribute_text(a: Attribute) -> Seq<char> {
    " "@ + a.0 + "=\""@ + a.1 + "\""@
}

/// The attributes of a tag, each written by [`attribute_text`], in the given
/// order.
pub open spec fn attribute_list_text(attributes: Seq<Attribute>) -> Seq<char>
    decreases attributes.len(),
{
    if attributes.len() == 0 {
        Seq::empty()
    } else {
        attribute_list_text(attributes.drop_last()) + attribute_text(attributes.last())
    }
}

/// The texts of the given elements, one after the other.
pub open spec fn rendered_sequence(
    elements: Seq<ElementModel>,
    depth: nat,
    sort: bool,
    indent: bool,
    break_lines: bool,
    expand_empty: bool,
) -> Seq<char>
    decreases elements,
{
    if elements.len() == 0 {
        Seq::empty()
    } else {
        rendered_sequence(elements.drop_last(), depth, sort, indent, break_lines, expand_empty)
            + elements.last().rendered(depth, sort, indent, break_lines, expand_empty)
    }
}

impl ContentModel {
    /// The children held, none for empty and text content.
    pub open spec fn children(self) -> Seq<ElementModel> {
        match self {
            ContentModel::Children(children) => children,
            _ => Seq::empty(),
        }
    }
}

impl ElementModel {
    /// A new element: the given name, no attribute, no sorting choice, no
    /// content.
    pub open spec fn new(name: Seq<char>) -> ElementModel {
        ElementModel {
            name,
            attributes: Seq::empty(),
            sort_override: None,
            content: ContentModel::Empty,
        }
    }

    /// Whether this element's attributes are written sorted: by its own
    /// choice if it has made one, by the document's setting otherwise.
    pub open spec fn sorts_attributes(self, sort: bool) -> bool {
        match self.sort_override {
            Some(choice) => choice,
            None => sort,
        }
    }

    /// The attributes in the order in which they are written.
    pub open spec fn ordered_attributes(self, sort: bool) -> Seq<Attribute> {
        if self.sorts_attributes(sort) {
            stable_sort(self.attributes)
        } else {
            self.attributes
        }
    }

    /// The attributes as they stand in the element's opening tag.
    pub open spec fn attributes_text(self, sort: bool) -> Seq<char> {
        attribute_list_text(self.ordered_attributes(sort))
    }

    /// The opening tag up to, but without, its closing bracket.
    pub open spec fn tag_start(self, depth: nat, sort: bool, indent: bool) -> Seq<char> {
        indentation(indent, depth) + "<"@ + self.name + self.attributes_text(sort)
    }

    /// The closing tag, without indentation.
    pub open spec fn tag_end(self) -> Seq<char> {
        "</"@ + self.name + ">"@
    }

    /// The text of this element at the given depth of the tree.
    ///
    /// `sort` is the document's setting: each element below resolves it
    /// against its own choice, whatever this element chose.
    pub open spec fn rendered(
        self,
        depth: nat,
        sort: bool,
        indent: bool,
        break_lines: bool,
        expand_empty: bool,
    ) -> Seq<char>
        decreases self,
    {
        let start = self.tag_start(depth, sort, indent);
        let end = line_end(break_lines);
        match self.content {
            ContentModel::Empty => if expand_empty {
                start + ">"@ + self.tag_end() + end
            } else {
                start + " />"@ + end
            },
            ContentModel::Children(children) => start + ">"@ + end + rendered_sequence(
                children,
                depth + 1,
                sort,
                indent,
                break_lines,
                expand_empty,
            ) + indentation(indent, depth) + self.tag_end() + end,
            ContentModel::Text(text) => start + ">"@ + text + self.tag_end() + end,
        }
    }

    /// Whether a child can be added: unless the element holds text.
    pub open spec fn accepts_child(self) -> bool {
        !(self.content is Text)
    }

    /// Whether text can be set: only while the element is empty.
    pub open spec fn accepts_text(self) -> bool {
        self.content is Empty
    }

    /// The element after a child was added behind those it has.
    pub open spec fn with_child(self, child: ElementModel) -> ElementModel {
        ElementModel {
            content: ContentModel::Children(self.content.children().push(child)),
            ..self
        }
    }

    /// The element after its text was set.
    pub open spec fn with_text(self, text: Seq<char>) -> ElementModel {
        ElementModel { content: ContentModel::Text(text), ..self }
    }

    /// The element after an attribute was appended.
    pub open spec fn with_attribute(self, key: Seq<char>, value: Seq<char>) -> ElementModel {
        ElementModel { attributes: self.attributes.push((key, value)), ..self }
    }

    /// The element after it made a choice on attribute sorting.
    pub open spec fn with_sorting(self, sort: bool) -> ElementModel {
        ElementModel { sort_override: Some(sort), ..self }
    }
}

/// The settings of a document as a mathematical value.
pub struct SettingsModel {
    /// The XML version that the header declares.
    pub version: XMLVersion,
    /// The encoding that the header declares.
    pub encoding: Seq<char>,
    /// The standalone declaration of the header, if it has one.
    pub standalone: Option<bool>,
    /// Whether each tag is indented by its depth.
    pub indent: bool,
    /// Whether attributes are sorted where an element made no choice.
    pub sort_attributes: bool,
    /// Whether each tag is followed by a line feed.
    pub break_lines: bool,
    /// Whether an empty element is written as a pair of tags.
    pub expand_empty_tags: bool,
}

/// A document as a mathematical value.
pub struct DocumentModel {
    /// The settings.
    pub settings: SettingsModel,
    /// The root element, if one was set.
    pub root: Option<ElementModel>,
}

impl SettingsModel {
    /// The settings a builder starts with: version 1.0, UTF-8, no standalone
    /// declaration, indented, attributes as inserted, one tag per line,
    /// empty elements self-closed.
    pub open spec fn initial() -> SettingsModel {
        SettingsModel {
            version: XMLVersion::XML1_0,
            encoding: "UTF-8"@,
            standalone: None,
            indent: true,
            sort_attributes: false,
            break_lines: true,
            expand_empty_tags: false,
        }
    }

    /// The standalone declaration as the header holds it.
    pub open spec fn standalone_text(self) -> Seq<char> {
        match self.standalone {
            Some(true) => " standalone=\"yes\""@,
            Some(false) => " standalone=\"no\""@,
            None => Seq::empty(),
        }
    }

    /// The header line of the document, with the line feed that ends it.
    pub open spec fn header(self) -> Seq<char> {
        "<?xml version=\""@ + self.version.text() + "\" encoding=\""@ + self.encoding + "\""@
            + self.standalone_text() + "?>"@ + "\n"@
    }
}

impl DocumentModel {
    /// The text of the document: the header line, then the tree under the
    /// root element, if there is one.
    pub open spec fn text(self) -> Seq<char> {
        match self.root {
            Some(root) => self.settings.header() + root.rendered(
                0,
                self.settings.sort_attributes,
                self.settings.indent,
                self.settings.break_lines,
                self.settings.expand_empty_tags,
            ),
            None => self.settings.header(),
        }
    }
}

} // verus!
