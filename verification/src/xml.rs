//! The document: a header line and the tree under a root element.

use crate::encoding::lemma_encode_utf8_concat;
use crate::encoding::write_text;
use crate::model::DocumentModel;
use crate::model::SettingsModel;
use crate::xmlelement::XMLElement;
use crate::xmlerror::XMLError;
use crate::xmlversion::XMLVersion;
use vstd::prelude::*;
use vstd::seq_lib::lemma_concat_associative;
use vstd::utf8::encode_utf8;

verus! {

/// An XML document: its settings and, once set, its root element.
pub struct XML {
    /// The XML version that the header declares.
    version: XMLVersion,
    /// The encoding that the header declares.
    encoding: String,
    /// The standalone declaration of the header; none while unset.
    standalone: Option<bool>,
    /// Whether attributes are sorted where an element made no choice.
    sort_attributes: bool,
    /// Whether each tag is indented by its depth.
    indent: bool,
    /// Whether each tag is followed by a line feed.
    break_lines: bool,
    /// Whether an empty element is written as a pair of tags.
    expand_empty_tags: bool,
    /// The root element.
    root: Option<XMLElement>,
}

impl View for XML {
    type V = DocumentModel;

    closed spec fn view(&self) -> DocumentModel {
        DocumentModel {
            settings: SettingsModel {
                version: self.version,
                encoding: self.encoding@,
                standalone: self.standalone,
                indent: self.indent,
                sort_attributes: self.sort_attributes,
                break_lines: self.break_lines,
                expand_empty_tags: self.expand_empty_tags,
            },
            root: match self.root {
                Some(root) => Some(root@),
                None => None,
            },
        }
    }
}

impl XML {
    /// Creates a document with the given settings and no root element.
    pub(crate) fn new(
        version: XMLVersion,
        encoding: String,
        standalone: Option<bool>,
        indent: bool,
        sort_attributes: bool,
        break_lines: bool,
        expand_empty_tags: bool,
    ) -> (xml: Self)
        ensures
            xml@.settings == (SettingsModel {
                version,
                encoding: encoding@,
                standalone,
                indent,
                sort_attributes,
                break_lines,
                expand_empty_tags,
            }),
            xml@.root is None,
    {
        XML {
            version,
            encoding,
            standalone,
            indent,
            sort_attributes,
            break_lines,
            expand_empty_tags,
            root: None,
        }
    }

    /// Sets the root element, in place of the one set before, if any.
    pub fn set_root_element(&mut self, element: XMLElement)
        ensures
            final(self)@ == (DocumentModel { root: Some(element@), ..old(self)@ }),
    {
        self.root = Some(element);
    }

    /// Returns the header line of the document, with the line feed that
    /// ends it.
    fn header(&self) -> (text: String)
        ensures
            text@ == self@.settings.header(),
    {
        let mut text = String::from_str("<?xml version=\"");
        let version = self.version.to_string();
        text.append(version.as_str());
        text.append("\" encoding=\"");
        text.append(self.encoding.as_str());
        text.append("\"");
        match self.standalone {
            Some(true) => {
                text.append(" standalone=\"yes\"");
            },
            Some(false) => {
                text.append(" standalone=\"no\"");
            },
            None => {},
        }
        text.append("?>");
        text.append("\n");
        text
    }

    /// Writes the document to `writer`: the header line, then the tree under
    /// the root element, if one was set.
    pub fn generate(self, writer: &mut Vec<u8>) -> (r: Result<(), XMLError>)
        ensures
            r is Ok,
            final(writer)@ == old(writer)@ + encode_utf8(self@.text()),
    {
        let header = self.header();
        write_text(writer, header.as_str());
        match &self.root {
            Some(root) => {
                let ghost tree = root@.rendered(
                    0,
                    self.sort_attributes,
                    self.indent,
                    self.break_lines,
                    self.expand_empty_tags,
                );
                proof {
                    lemma_encode_utf8_concat(header@, tree);
                    lemma_concat_associative(
                        old(writer)@,
                        encode_utf8(header@),
                        encode_utf8(tree),
                    );
                }
                root.render(
                    writer,
                    self.sort_attributes,
                    self.indent,
                    self.break_lines,
                    self.expand_empty_tags,
                )
            },
            None => Ok(()),
        }
    }
}

} // verus!
