//! What holds of every element: of the content it can come to hold, and of
//! the text it is written as.

use crate::model::attribute_list_text;
use crate::model::attribute_text;
use crate::model::indentation;
use crate::model::line_end;
use crate::model::rendered_sequence;
use crate::model::ContentModel;
use crate::model::ElementModel;
use crate::sorting::lemma_stable_sort_is_sorted;
use crate::sorting::lemma_stable_sort_keeps_each_key;
use crate::sorting::sorted_by_key;
use crate::sorting::stable_sort;
use crate::sorting::with_key;
use vstd::prelude::*;

verus! {

/// What an element holds decides what it can take. An empty element takes a
/// child or a text, and holds just that afterwards. An element with children
/// takes more children, never text. An element with text takes neither: text
/// is final.
pub proof fn lemma_content_life_cycle(element: ElementModel, child: ElementModel, text: Seq<char>)
    ensures
        element.content is Empty ==> element.accepts_child() && element.accepts_text(),
        element.content is Children ==> element.accepts_child() && !element.accepts_text(),
        element.content is Text ==> !element.accepts_child() && !element.accepts_text(),
        element.accepts_child() ==> element.with_child(child).content == ContentModel::Children(
            element.content.children().push(child),
        ),
        element.accepts_text() ==> element.with_text(text).content == ContentModel::Text(text),
        element.content is Empty ==> element.with_child(child).content.children() == seq![child],
{
}

/// A new element takes a child as well as a text.
pub proof fn lemma_new_element_takes_either(name: Seq<char>)
    ensures
        ElementModel::new(name).accepts_child(),
        ElementModel::new(name).accepts_text(),
{
}

/// Once text has been set, neither a child nor another text is taken.
pub proof fn lemma_text_is_final(element: ElementModel, text: Seq<char>)
    ensures
        !element.with_text(text).accepts_child(),
        !element.with_text(text).accepts_text(),
{
}

/// Once a child has been added, more children are taken, and text is not.
pub proof fn lemma_children_stay_children(element: ElementModel, child: ElementModel)
    ensures
        element.with_child(child).accepts_child(),
        !element.with_child(child).accepts_text(),
{
}

/// An element without content is written as one tag. Self-closed, it is the
/// opening tag ended by ` />`; expanded, it is the opening tag with the
/// closing tag right behind it, nothing in between.
pub proof fn lemma_empty_element_text(
    element: ElementModel,
    depth: nat,
    sort: bool,
    indent: bool,
    break_lines: bool,
)
    requires
        element.content is Empty,
    ensures
        element.rendered(depth, sort, indent, break_lines, false) == indentation(indent, depth)
            + "<"@ + element.name + element.attributes_text(sort) + " />"@ + line_end(
            break_lines,
        ),
        element.rendered(depth, sort, indent, break_lines, true) == indentation(indent, depth)
            + "<"@ + element.name + element.attributes_text(sort) + ">"@ + ("</"@ + element.name
            + ">"@) + line_end(break_lines),
{
}

/// An element that made no choice of its own has its attributes written in
/// the order of their insertion if the document does not sort, duplicate
/// keys included. If the document sorts, they are written sorted by key,
/// and for every key the attributes of that key are those inserted, as often
/// and in the order of their insertion.
pub proof fn lemma_attribute_order(element: ElementModel, sort: bool)
    requires
        element.sort_override is None,
    ensures
        element.attributes_text(sort) == attribute_list_text(element.ordered_attributes(sort)),
        !sort ==> element.ordered_attributes(sort) == element.attributes,
        sort ==> sorted_by_key(element.ordered_attributes(sort)),
        forall|key: Seq<char>| #[trigger]
            with_key(element.ordered_attributes(sort), key) == with_key(element.attributes, key),
{
    if sort {
        lemma_stable_sort_is_sorted(element.attributes);
        assert forall|key: Seq<char>| #[trigger]
            with_key(element.ordered_attributes(sort), key) == with_key(
                element.attributes,
                key,
            ) by {
            lemma_stable_sort_keeps_each_key(element.attributes, key);
        }
    }
}

/// Where attributes are not sorted, an attribute inserted later is written
/// later: it is written behind all that were there, whatever its key.
pub proof fn lemma_inserted_attribute_comes_last(
    element: ElementModel,
    key: Seq<char>,
    value: Seq<char>,
    sort: bool,
)
    requires
        !element.sorts_attributes(sort),
    ensures
        element.with_attribute(key, value).ordered_attributes(sort) == element.ordered_attributes(
            sort,
        ).push((key, value)),
        element.with_attribute(key, value).attributes_text(sort) == element.attributes_text(sort)
            + attribute_text((key, value)),
{
    let after = element.with_attribute(key, value).ordered_attributes(sort);
    assert(after.drop_last() =~= element.ordered_attributes(sort));
}

/// The choice that an element made on sorting decides the order of its own
/// attributes, whatever the document's setting is.
pub proof fn lemma_own_choice_wins(element: ElementModel, choice: bool, sort: bool)
    requires
        element.sort_override == Some(choice),
    ensures
        element.ordered_attributes(sort) == if choice {
            stable_sort(element.attributes)
        } else {
            element.attributes
        },
        element.attributes_text(sort) == element.attributes_text(!sort),
{
}

/// The choice that an element made on sorting reaches no element below it:
/// under any other choice, or none, its children are written the same, each
/// going by the document's setting and its own choice, and the element's
/// text differs in the order of its own attributes at most.
pub proof fn lemma_choice_stays_local(
    element: ElementModel,
    other: Option<bool>,
    depth: nat,
    sort: bool,
    indent: bool,
    break_lines: bool,
    expand_empty: bool,
)
    ensures
        ({
            let changed = ElementModel { sort_override: other, ..element };
            &&& changed.content == element.content
            &&& rendered_sequence(
                changed.content.children(),
                depth + 1,
                sort,
                indent,
                break_lines,
                expand_empty,
            ) == rendered_sequence(
                element.content.children(),
                depth + 1,
                sort,
                indent,
                break_lines,
                expand_empty,
            )
            &&& changed.ordered_attributes(sort) == element.ordered_attributes(sort)
                ==> changed.rendered(depth, sort, indent, break_lines, expand_empty)
                == element.rendered(depth, sort, indent, break_lines, expand_empty)
        }),
{
}

/// The text of an element with children is its opening tag, the texts of the
/// children in their order, each one level deeper and under the document's
/// setting on sorting, and its closing tag.
pub proof fn lemma_parent_text(
    element: ElementModel,
    depth: nat,
    sort: bool,
    indent: bool,
    break_lines: bool,
    expand_empty: bool,
)
    requires
        element.content is Children,
    ensures
        element.rendered(depth, sort, indent, break_lines, expand_empty) == element.tag_start(
            depth,
            sort,
            indent,
        ) + ">"@ + line_end(break_lines) + rendered_sequence(
            element.content.children(),
            depth + 1,
            sort,
            indent,
            break_lines,
            expand_empty,
        ) + indentation(indent, depth) + element.tag_end() + line_end(break_lines),
{
}

} // verus!
