//! Building an XML document in memory and writing it out as text.
//!
//! A tree of [`XMLElement`]s is built bottom-up and handed, as its root, to
//! an [`XML`] document that an [`XMLBuilder`] has given its settings:
//!
//! ```
//! use xml_builder::{XMLBuilder, XMLElement};
//!
//! let mut house = XMLElement::new("house");
//! house.add_attribute("rooms", "1");
//! let mut room = XMLElement::new("room");
//! room.add_text("A room".to_string()).unwrap();
//! house.add_child(room).unwrap();
//!
//! let mut xml = XMLBuilder::new().build();
//! xml.set_root_element(house);
//! let mut bytes: Vec<u8> = Vec::new();
//! xml.generate(&mut bytes).unwrap();
//! ```
//!
//! What is written is stated by the model in [`model`]: for every tree and
//! every setting, the bytes that [`XML::generate`] appends are the UTF-8
//! encoding of [`model::DocumentModel::text`]. The module [`laws`] holds what
//! follows for every element. Everything is verified but what `String::push`
//! of the standard library does, which [`escape`] takes on trust.

pub mod builder;
pub mod encoding;
pub mod escape;
pub mod laws;
pub mod model;
pub mod order;
pub mod sorting;
pub mod traits;
pub mod xml;
mod xmlcontent;
pub mod xmlelement;
pub mod xmlerror;
pub mod xmlversion;

pub use builder::XMLBuilder;
pub use escape::escape_str;
pub use traits::ToXMLElement;
pub use xml::XML;
pub use xmlelement::XMLElement;
pub use xmlerror::XMLError;
pub use xmlversion::XMLVersion;
