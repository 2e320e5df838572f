//! Elements: building a tree and writing it out.

use crate::encoding::write_text;
use crate::escape::escape_str;
use crate::escape::escaped;
use crate::model::attribute_list_text;
use crate::model::indentation;
use crate::model::line_end;
use crate::model::rendered_sequence;
use crate::model::Attribute;
use crate::model::ContentModel;
use crate::model::ElementModel;
use crate::sorting::attribute_models;
use crate::sorting::borrowed_attribute_models;
use crate::sorting::ordered_attributes;
use crate::xmlcontent::XMLElementContent;
use crate::xmlerror::child_in_text_cause;
use crate::xmlerror::text_in_nonempty_cause;
use crate::xmlerror::XMLError;
use vstd::prelude::*;
use vstd::seq_lib::lemma_concat_associative;
use vstd::utf8::encode_utf8;

verus! {

/// An XML element: a name, attributes, and nothing, children or text inside.
pub struct XMLElement {
    /// The tag name.
    name: String,
    /// The attributes as (key, escaped value), in the order of insertion.
    attributes: Vec<(String, String)>,
    /// Whether this element wants its attributes sorted; the document's
    /// setting decides while this is unset.
    sort_attributes: Option<bool>,
    /// The content.
    content: XMLElementContent,
}

impl View for XMLElement {
    type V = ElementModel;

    closed spec fn view(&self) -> ElementModel
        decreases self,
    {
        ElementModel {
            name: self.name@,
            attributes: attribute_models(self.attributes@),
            sort_override: self.sort_attributes,
            content: match self.content {
                XMLElementContent::Empty => ContentModel::Empty,
                XMLElementContent::Elements(elements) => ContentModel::Children(
                    element_models(elements@),
                ),
                XMLElementContent::Text(text) => ContentModel::Text(text@),
            },
        }
    }
}

/// The mathematical values of the given elements, in their order.
spec fn element_models(elements: Seq<XMLElement>) -> Seq<ElementModel>
    decreases elements,
{
    Seq::new(
        elements.len(),
        |i: int|
            if 0 <= i < elements.len() {
                elements[i].view()
            } else {
                arbitrary()
            },
    )
}

/// The list of models is as long as the list of elements and holds, at each
/// index, the model of the element at that index.
proof fn lemma_element_models(elements: Seq<XMLElement>)
    ensures
        element_models(elements).len() == elements.len(),
        forall|i: int|
            0 <= i < elements.len() ==> (#[trigger] element_models(elements)[i]) == elements[i]@,
{
}

impl XMLElement {
    /// Creates an element of the given name, without attributes and without
    /// content. The name is taken as it is.
    pub fn new(name: &str) -> (element: Self)
        ensures
            element@ == ElementModel::new(name@),
    {
        let element = XMLElement {
            name: String::from_str(name),
            attributes: Vec::new(),
            sort_attributes: None,
            content: XMLElementContent::Empty,
        };
        assert(attribute_models(element.attributes@) =~= Seq::<Attribute>::empty());
        element
    }

    /// Sets this element's own choice on attribute sorting. It decides for
    /// this element's attributes, whatever the document's setting, and for no
    /// other element.
    pub fn set_attribute_sorting(&mut self, sort: bool)
        ensures
            final(self)@ == old(self)@.with_sorting(sort),
    {
        self.sort_attributes = Some(sort);
    }

    /// Has this element's attributes written sorted by key.
    pub fn enable_attributes_sorting(&mut self)
        ensures
            final(self)@ == old(self)@.with_sorting(true),
    {
        self.set_attribute_sorting(true);
    }

    /// Has this element's attributes written in the order of insertion.
    pub fn disable_attributes_sorting(&mut self)
        ensures
            final(self)@ == old(self)@.with_sorting(false),
    {
        self.set_attribute_sorting(false);
    }

    /// Appends an attribute. The value is escaped here, once; an attribute
    /// with the same name may already be there and stays.
    pub fn add_attribute(&mut self, name: &str, value: &str)
        ensures
            final(self)@ == old(self)@.with_attribute(name@, escaped(value@)),
    {
        let ghost before = attribute_models(self.attributes@);
        self.attributes.push((String::from_str(name), escape_str(value)));
        assert(attribute_models(self.attributes@) =~= before.push((name@, escaped(value@))));
    }

    /// Adds a child behind the children already there.
    ///
    /// Fails, leaving the element as it is, if the element holds text.
    pub fn add_child(&mut self, element: XMLElement) -> (r: Result<(), XMLError>)
        ensures
            old(self)@.accepts_child() ==> r is Ok && final(self)@ == old(self)@.with_child(
                element@,
            ),
            !old(self)@.accepts_child() ==> *final(self) == *old(self) && (r matches Err(
                XMLError::InsertError(cause),
            ) && cause@ == child_in_text_cause()),
    {
        match self.content {
            XMLElementContent::Empty => {
                let mut elements = Vec::new();
                elements.push(element);
                proof {
                    lemma_element_models(elements@);
                    assert(element_models(elements@) =~= Seq::<ElementModel>::empty().push(
                        element@,
                    ));
                }
                self.content = XMLElementContent::Elements(elements);
            },
            XMLElementContent::Elements(ref mut elements) => {
                let ghost before = elements@;
                elements.push(element);
                proof {
                    lemma_element_models(before);
                    lemma_element_models(before.push(element));
                    assert(element_models(before.push(element)) =~= element_models(before).push(
                        element@,
                    ));
                }
            },
            XMLElementContent::Text(_) => {
                return Err(
                    XMLError::InsertError(
                        String::from_str("Cannot insert child inside an element with text"),
                    ),
                );
            },
        };
        Ok(())
    }

    /// Sets the text of an empty element.
    ///
    /// Fails, leaving the element as it is, if the element already holds
    /// children or text.
    pub fn add_text(&mut self, text: String) -> (r: Result<(), XMLError>)
        ensures
            old(self)@.accepts_text() ==> r is Ok && final(self)@ == old(self)@.with_text(text@),
            !old(self)@.accepts_text() ==> *final(self) == *old(self) && (r matches Err(
                XMLError::InsertError(cause),
            ) && cause@ == text_in_nonempty_cause()),
    {
        match self.content {
            XMLElementContent::Empty => {
                self.content = XMLElementContent::Text(text);
            },
            _ => {
                return Err(
                    XMLError::InsertError(
                        String::from_str("Cannot insert text in a non-empty element"),
                    ),
                );
            },
        };
        Ok(())
    }

    /// Returns the attributes as they stand in the opening tag: each with a
    /// space before it, sorted by key if this element chose so, or if it made
    /// no choice and `should_sort` is set.
    pub fn attributes_as_string(&self, should_sort: bool) -> (text: String)
        ensures
            text@ == self@.attributes_text(should_sort),
    {
        let sort = match self.sort_attributes {
            Some(choice) => choice,
            None => should_sort,
        };
        let ordered = ordered_attributes(&self.attributes, sort);
        let ghost models = borrowed_attribute_models(ordered@);
        let mut text = String::new();
        let mut i: usize = 0;
        while i < ordered.len()
            invariant
                models == borrowed_attribute_models(ordered@),
                i <= ordered.len(),
                text@ == attribute_list_text(models.take(i as int)),
            decreases ordered.len() - i,
        {
            let attribute = ordered[i];
            text.append(" ");
            text.append(attribute.0.as_str());
            text.append("=\"");
            text.append(attribute.1.as_str());
            text.append("\"");
            assert(models.take(i + 1).drop_last() =~= models.take(i as int));
            i += 1;
        }
        assert(models.take(i as int) =~= models);
        text
    }

    /// Writes this element, as the root of its tree, to `writer`.
    ///
    /// `should_sort` decides on attribute order for each element that made no
    /// choice of its own; `should_indent` puts one tab per level before each
    /// tag; `should_break_lines` puts a line feed behind each tag;
    /// `should_expand_empty_tags` writes an empty element as a pair of tags.
    /// Text content and names are written as they are.
    pub fn render(
        &self,
        writer: &mut Vec<u8>,
        should_sort: bool,
        should_indent: bool,
        should_break_lines: bool,
        should_expand_empty_tags: bool,
    ) -> (r: Result<(), XMLError>)
        ensures
            r is Ok,
            final(writer)@ == old(writer)@ + encode_utf8(
                self@.rendered(
                    0,
                    should_sort,
                    should_indent,
                    should_break_lines,
                    should_expand_empty_tags,
                ),
            ),
    {
        self.render_level(
            writer,
            0,
            should_sort,
            should_indent,
            should_break_lines,
            should_expand_empty_tags,
        )
    }

    /// Writes this element to `writer` as it stands at depth `level` of a
    /// tree: with `level` tabs before its tags if `should_indent` is set.
    pub fn render_level(
        &self,
        writer: &mut Vec<u8>,
        level: usize,
        should_sort: bool,
        should_indent: bool,
        should_break_lines: bool,
        should_expand_empty_tags: bool,
    ) -> (r: Result<(), XMLError>)
        ensures
            r is Ok,
            final(writer)@ == old(writer)@ + encode_utf8(
                self@.rendered(
                    level as nat,
                    should_sort,
                    should_indent,
                    should_break_lines,
                    should_expand_empty_tags,
                ),
            ),
    {
        let mut pad = String::new();
        if should_indent {
            let mut i: usize = 0;
            while i < level
                invariant
                    should_indent,
                    i <= level,
                    pad@ == indentation(should_indent, i as nat),
                decreases level - i,
            {
                pad.append("\t");
                i += 1;
            }
        }
        let mut text = String::new();
        self.render_into(
            &mut text,
            pad.as_str(),
            Ghost(level as nat),
            should_sort,
            should_indent,
            should_break_lines,
            should_expand_empty_tags,
        );
        write_text(writer, text.as_str());
        Ok(())
    }

    /// Appends the text of this element, standing at `depth`, to `out`.
    /// `pad` is the indentation of that depth.
    fn render_into(
        &self,
        out: &mut String,
        pad: &str,
        Ghost(depth): Ghost<nat>,
        should_sort: bool,
        should_indent: bool,
        should_break_lines: bool,
        should_expand_empty_tags: bool,
    )
        requires
            pad@ == indentation(should_indent, depth),
        ensures
            final(out)@ == old(out)@ + self@.rendered(
                depth,
                should_sort,
                should_indent,
                should_break_lines,
                should_expand_empty_tags,
            ),
        decreases self,
    {
        let ghost before = out@;
        let ghost start = self@.tag_start(depth, should_sort, should_indent);
        let end = line_end_text(should_break_lines);
        self.tag_start_into(out, pad, Ghost(depth), should_sort, should_indent);
        match &self.content {
            XMLElementContent::Empty => {
                if should_expand_empty_tags {
                    out.append(">");
                    self.tag_end_into(out);
                    out.append(end);
                    proof {
                        lemma_concat_associative(before, start, ">"@);
                        lemma_concat_associative(before, start + ">"@, self@.tag_end());
                        lemma_concat_associative(before, start + ">"@ + self@.tag_end(), end@);
                    }
                } else {
                    out.append(" />");
                    out.append(end);
                    proof {
                        lemma_concat_associative(before, start, " />"@);
                        lemma_concat_associative(before, start + " />"@, end@);
                    }
                }
            },
            XMLElementContent::Elements(elements) => {
                out.append(">");
                out.append(end);
                let mut child_pad = String::from_str(pad);
                if should_indent {
                    child_pad.append("\t");
                }
                render_all_into(
                    elements,
                    out,
                    child_pad.as_str(),
                    Ghost(depth + 1),
                    should_sort,
                    should_indent,
                    should_break_lines,
                    should_expand_empty_tags,
                );
                out.append(pad);
                self.tag_end_into(out);
                out.append(end);
                proof {
                    let inner = rendered_sequence(
                        element_models(elements@),
                        depth + 1,
                        should_sort,
                        should_indent,
                        should_break_lines,
                        should_expand_empty_tags,
                    );
                    let a = start + ">"@;
                    let b = a + end@;
                    let c = b + inner;
                    let d = c + pad@;
                    let e = d + self@.tag_end();
                    lemma_concat_associative(before, start, ">"@);
                    lemma_concat_associative(before, a, end@);
                    lemma_concat_associative(before, b, inner);
                    lemma_concat_associative(before, c, pad@);
                    lemma_concat_associative(before, d, self@.tag_end());
                    lemma_concat_associative(before, e, end@);
                }
            },
            XMLElementContent::Text(text) => {
                out.append(">");
                out.append(text.as_str());
                self.tag_end_into(out);
                out.append(end);
                proof {
                    lemma_concat_associative(before, start, ">"@);
                    lemma_concat_associative(before, start + ">"@, text@);
                    lemma_concat_associative(before, start + ">"@ + text@, self@.tag_end());
                    lemma_concat_associative(before, start + ">"@ + text@ + self@.tag_end(), end@);
                }
            },
        }
    }

    /// Appends indentation and the opening tag up to, but without, its
    /// closing bracket.
    fn tag_start_into(
        &self,
        out: &mut String,
        pad: &str,
        Ghost(depth): Ghost<nat>,
        should_sort: bool,
        should_indent: bool,
    )
        requires
            pad@ == indentation(should_indent, depth),
        ensures
            final(out)@ == old(out)@ + self@.tag_start(depth, should_sort, should_indent),
    {
        let attributes = self.attributes_as_string(should_sort);
        out.append(pad);
        out.append("<");
        out.append(self.name.as_str());
        out.append(attributes.as_str());
    }

    /// Appends the closing tag.
    fn tag_end_into(&self, out: &mut String)
        ensures
            final(out)@ == old(out)@ + self@.tag_end(),
    {
        out.append("</");
        out.append(self.name.as_str());
        out.append(">");
    }
}

/// The text that follows a tag.
fn line_end_text(should_break_lines: bool) -> (end: &'static str)
    ensures
        end@ == line_end(should_break_lines),
{
    if should_break_lines {
        "\n"
    } else {
        proof {
            reveal_strlit("");
        }
        ""
    }
}

/// Appends the texts of the given elements, each standing at `depth`, to
/// `out`. `pad` is the indentation of that depth.
fn render_all_into(
    elements: &Vec<XMLElement>,
    out: &mut String,
    pad: &str,
    Ghost(depth): Ghost<nat>,
    should_sort: bool,
    should_indent: bool,
    should_break_lines: bool,
    should_expand_empty_tags: bool,
)
    requires
        pad@ == indentation(should_indent, depth),
    ensures
        final(out)@ == old(out)@ + rendered_sequence(
            element_models(elements@),
            depth,
            should_sort,
            should_indent,
            should_break_lines,
            should_expand_empty_tags,
        ),
    decreases elements,
{
    let ghost before = out@;
    let ghost models = element_models(elements@);
    let mut i: usize = 0;
    while i < elements.len()
        invariant
            i <= elements.len(),
            models == element_models(elements@),
            pad@ == indentation(should_indent, depth),
            out@ == before + rendered_sequence(
                models.take(i as int),
                depth,
                should_sort,
                should_indent,
                should_break_lines,
                should_expand_empty_tags,
            ),
        decreases elements.len() - i,
    {
        elements[i].render_into(
            out,
            pad,
            Ghost(depth),
            should_sort,
            should_indent,
            should_break_lines,
            should_expand_empty_tags,
        );
        proof {
            lemma_element_models(elements@);
            assert(models.take(i + 1).drop_last() =~= models.take(i as int));
        }
        i += 1;
    }
    assert(models.take(i as int) =~= models);
}

} // verus!
