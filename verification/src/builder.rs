//! The builder by which a document gets its settings.

use crate::model::SettingsModel;
use crate::xml::XML;
use crate::xmlversion::XMLVersion;
use vstd::prelude::*;

verus! {

/// Collects the settings of a document, then builds it.
pub struct XMLBuilder {
    /// The XML version that the header declares. Defaults to 1.0.
    version: XMLVersion,
    /// The encoding that the header declares. Defaults to `UTF-8`.
    encoding: String,
    /// The standalone declaration of the header; none while unset, which is
    /// the default.
    standalone: Option<bool>,
    /// Whether each tag is indented by its depth. Defaults to `true`.
    indent: bool,
    /// Whether attributes are sorted where an element made no choice.
    /// Defaults to `false`.
    sort_attributes: bool,
    /// Whether each tag is followed by a line feed. Defaults to `true`.
    break_lines: bool,
    /// Whether an empty element is written as a pair of tags. Defaults to
    /// `false`.
    expand_empty_tags: bool,
}

impl View for XMLBuilder {
    type V = SettingsModel;

    closed spec fn view(&self) -> SettingsModel {
        SettingsModel {
            version: self.version,
            encoding: self.encoding@,
            standalone: self.standalone,
            indent: self.indent,
            sort_attributes: self.sort_attributes,
            break_lines: self.break_lines,
            expand_empty_tags: self.expand_empty_tags,
        }
    }
}

impl Default for XMLBuilder {
    fn default() -> (builder: Self)
        ensures
            builder@ == SettingsModel::initial(),
    {
        XMLBuilder {
            version: XMLVersion::XML1_0,
            encoding: String::from_str("UTF-8"),
            standalone: None,
            indent: true,
            sort_attributes: false,
            break_lines: true,
            expand_empty_tags: false,
        }
    }
}

impl XMLBuilder {
    /// Creates a builder with the default settings.
    pub fn new() -> (builder: Self)
        ensures
            builder@ == SettingsModel::initial(),
    {
        Self::default()
    }

    /// Sets the XML version that the header declares.
    pub fn version(self, version: XMLVersion) -> (builder: Self)
        ensures
            builder@ == (SettingsModel { version, ..self@ }),
    {
        let mut builder = self;
        builder.version = version;
        builder
    }

    /// Sets the encoding that the header declares.
    pub fn encoding(self, encoding: String) -> (builder: Self)
        ensures
            builder@ == (SettingsModel { encoding: encoding@, ..self@ }),
    {
        let mut builder = self;
        builder.encoding = encoding;
        builder
    }

    /// Sets the standalone declaration of the header, or takes it out.
    pub fn standalone(self, standalone: Option<bool>) -> (builder: Self)
        ensures
            builder@ == (SettingsModel { standalone, ..self@ }),
    {
        let mut builder = self;
        builder.standalone = standalone;
        builder
    }

    /// Sets whether each tag is indented by its depth.
    pub fn indent(self, indent: bool) -> (builder: Self)
        ensures
            builder@ == (SettingsModel { indent, ..self@ }),
    {
        let mut builder = self;
        builder.indent = indent;
        builder
    }

    /// Sets whether attributes are sorted where an element made no choice.
    pub fn sort_attributes(self, sort: bool) -> (builder: Self)
        ensures
            builder@ == (SettingsModel { sort_attributes: sort, ..self@ }),
    {
        let mut builder = self;
        builder.sort_attributes = sort;
        builder
    }

    /// Sets whether each tag is followed by a line feed.
    pub fn break_lines(self, break_lines: bool) -> (builder: Self)
        ensures
            builder@ == (SettingsModel { break_lines, ..self@ }),
    {
        let mut builder = self;
        builder.break_lines = break_lines;
        builder
    }

    /// Sets whether an empty element is written as a pair of tags.
    pub fn expand_empty_tags(self, expand_empty_tags: bool) -> (builder: Self)
        ensures
            builder@ == (SettingsModel { expand_empty_tags, ..self@ }),
    {
        let mut builder = self;
        builder.expand_empty_tags = expand_empty_tags;
        builder
    }

    /// Builds a document that has these settings and no root element yet.
    pub fn build(self) -> (xml: XML)
        ensures
            xml@.settings == self@,
            xml@.root is None,
    {
        XML::new(
            self.version,
            self.encoding,
            self.standalone,
            self.indent,
            self.sort_attributes,
            self.break_lines,
            self.expand_empty_tags,
        )
    }
}

} // verus!
