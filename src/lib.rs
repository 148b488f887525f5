//! Conversion between XML Schema documents and the compact Schemata
//! interface-definition language.
//!
//! Two pipelines: [`XsdParser`] reads an XSD document and [`XsdToSchemataGenerator`]
//! renders it as Schemata text; [`SchemataParser`] reads Schemata text and
//! [`SchemataToXsdGenerator`] renders it as an XSD document. Each reader and writer is
//! specified by spec functions over a mathematical view of its document model.

mod text;
pub mod xml;
pub mod xsd_types;
pub mod xsd_parser;
pub mod schemata_types;
pub mod schemata_parser;
pub mod to_xsd;
pub mod to_schemata;
pub mod laws;

pub use schemata_parser::SchemataParser;
pub use schemata_types::{
    AnnotationValue, GenerationError, ParseError, SchemataAnnotation, SchemataEnum, SchemataField,
    SchemataFile, SchemataNamespace, SchemataSchema,
};
pub use to_schemata::XsdToSchemataGenerator;
pub use to_xsd::SchemataToXsdGenerator;
pub use xml::{tokenize, XmlError, XmlTag, XmlToken};
pub use xsd_parser::{XsdConstruct, XsdParseError, XsdParser};
pub use xsd_types::{XsdAttribute, XsdComplexType, XsdElement, XsdRestriction, XsdSchema, XsdSimpleType};
