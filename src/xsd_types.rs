//! The XSD document model and its mathematical view.
use vstd::prelude::*;

verus! {

broadcast use {vstd::seq::axiom_seq_index_decreases, vstd::seq::axiom_seq_subrange_decreases, vstd::std_specs::vec::axiom_vec_decreases_to_view};

/// A parsed XML Schema document.
#[derive(Debug)]
pub struct XsdSchema {
    pub target_namespace: Option<String>,
    pub elements: Vec<XsdElement>,
    pub complex_types: Vec<XsdComplexType>,
    pub simple_types: Vec<XsdSimpleType>,
    /// Namespace prefix to URI, each prefix at most once, in order of first declaration.
    pub namespaces: Vec<(String, String)>,
    pub imported_schemas: Vec<String>,
    /// The local names of the top-level start tags that were skipped, in order.
    pub unhandled: Vec<String>,
}

/// An `element` declaration.
#[derive(Debug)]
pub struct XsdElement {
    pub name: String,
    pub type_ref: Option<String>,
    pub min_occurs: Option<String>,
    pub max_occurs: Option<String>,
    pub complex_type: Option<XsdComplexType>,
    pub simple_type: Option<XsdSimpleType>,
    pub comment: Option<String>,
}

/// An `attribute` declaration of a complex type.
#[derive(Debug)]
pub struct XsdAttribute {
    pub name: String,
    pub type_ref: String,
    pub use_type: String,
    pub default: Option<String>,
    pub fixed: Option<String>,
}

/// A `complexType`, named at the top level or anonymous inside an element.
#[derive(Debug)]
pub struct XsdComplexType {
    pub name: Option<String>,
    pub sequence: Vec<XsdElement>,
    pub attributes: Vec<XsdAttribute>,
    pub mixed: bool,
}

/// A `simpleType`.
#[derive(Debug)]
pub struct XsdSimpleType {
    pub name: Option<String>,
    pub restriction: Option<XsdRestriction>,
    pub list: Option<String>,
    pub union: Option<Vec<String>>,
}

/// The facets of a `restriction`.
#[derive(Debug)]
pub struct XsdRestriction {
    pub base: String,
    pub enumeration: Vec<String>,
    pub pattern: Option<String>,
    pub min_inclusive: Option<String>,
    pub max_inclusive: Option<String>,
    pub min_exclusive: Option<String>,
    pub max_exclusive: Option<String>,
    pub length: Option<usize>,
    pub min_length: Option<usize>,
    pub max_length: Option<usize>,
    pub total_digits: Option<usize>,
    pub fraction_digits: Option<usize>,
}

pub type Text = Seq<char>;

pub ghost struct ElementModel {
    pub name: Text,
    pub type_ref: Option<Text>,
    pub min_occurs: Option<Text>,
    pub max_occurs: Option<Text>,
    pub complex_type: Option<ComplexTypeModel>,
    pub simple_type: Option<SimpleTypeModel>,
    pub comment: Option<Text>,
}

pub ghost struct AttributeModel {
    pub name: Text,
    pub type_ref: Text,
    pub use_type: Text,
    pub default: Option<Text>,
    pub fixed: Option<Text>,
}

pub ghost struct ComplexTypeModel {
    pub name: Option<Text>,
    pub sequence: Seq<ElementModel>,
    pub attributes: Seq<AttributeModel>,
    pub mixed: bool,
}

pub ghost struct RestrictionModel {
    pub base: Text,
    pub enumeration: Seq<Text>,
    pub pattern: Option<Text>,
    pub min_inclusive: Option<Text>,
    pub max_inclusive: Option<Text>,
    pub min_exclusive: Option<Text>,
    pub max_exclusive: Option<Text>,
    pub length: Option<usize>,
    pub min_length: Option<usize>,
    pub max_length: Option<usize>,
    pub total_digits: Option<usize>,
    pub fraction_digits: Option<usize>,
}

pub ghost struct SimpleTypeModel {
    pub name: Option<Text>,
    pub restriction: Option<RestrictionModel>,
    pub list: Option<Text>,
    pub union: Option<Seq<Text>>,
}

pub ghost struct SchemaModel {
    pub target_namespace: Option<Text>,
    pub elements: Seq<ElementModel>,
    pub complex_types: Seq<ComplexTypeModel>,
    pub simple_types: Seq<SimpleTypeModel>,
    pub namespaces: Seq<(Text, Text)>,
    pub imported_schemas: Seq<Text>,
    pub unhandled: Seq<Text>,
}

pub open spec fn element_view(e: XsdElement) -> ElementModel
    decreases e,
{
    ElementModel {
        name: e.name@,
        type_ref: e.type_ref.deep_view(),
        min_occurs: e.min_occurs.deep_view(),
        max_occurs: e.max_occurs.deep_view(),
        complex_type: match e.complex_type {
            Some(ct) => Some(complex_type_view(ct)),
            None => None,
        },
        simple_type: match e.simple_type {
            Some(st) => Some(st@),
            None => None,
        },
        comment: e.comment.deep_view(),
    }
}

pub open spec fn complex_type_view(ct: XsdComplexType) -> ComplexTypeModel
    decreases ct,
{
    ComplexTypeModel {
        name: ct.name.deep_view(),
        sequence: elements_view(ct.sequence@),
        attributes: ct.attributes@.map_values(|a: XsdAttribute| a@),
        mixed: ct.mixed,
    }
}

pub open spec fn elements_view(es: Seq<XsdElement>) -> Seq<ElementModel>
    decreases es,
{
    if es.len() == 0 {
        Seq::empty()
    } else {
        elements_view(es.drop_last()).push(element_view(es.last()))
    }
}

impl View for XsdAttribute {
    type V = AttributeModel;

    open spec fn view(&self) -> AttributeModel {
        AttributeModel {
            name: self.name@,
            type_ref: self.type_ref@,
            use_type: self.use_type@,
            default: self.default.deep_view(),
            fixed: self.fixed.deep_view(),
        }
    }
}

impl View for XsdElement {
    type V = ElementModel;

    open spec fn view(&self) -> ElementModel {
        element_view(*self)
    }
}

impl View for XsdComplexType {
    type V = ComplexTypeModel;

    open spec fn view(&self) -> ComplexTypeModel {
        complex_type_view(*self)
    }
}

impl View for XsdRestriction {
    type V = RestrictionModel;

    open spec fn view(&self) -> RestrictionModel {
        RestrictionModel {
            base: self.base@,
            enumeration: self.enumeration.deep_view(),
            pattern: self.pattern.deep_view(),
            min_inclusive: self.min_inclusive.deep_view(),
            max_inclusive: self.max_inclusive.deep_view(),
            min_exclusive: self.min_exclusive.deep_view(),
            max_exclusive: self.max_exclusive.deep_view(),
            length: self.length,
            min_length: self.min_length,
            max_length: self.max_length,
            total_digits: self.total_digits,
            fraction_digits: self.fraction_digits,
        }
    }
}

impl View for XsdSimpleType {
    type V = SimpleTypeModel;

    open spec fn view(&self) -> SimpleTypeModel {
        SimpleTypeModel {
            name: self.name.deep_view(),
            restriction: match self.restriction {
                Some(r) => Some(r@),
                None => None,
            },
            list: self.list.deep_view(),
            union: self.union.deep_view(),
        }
    }
}

impl View for XsdSchema {
    type V = SchemaModel;

    open spec fn view(&self) -> SchemaModel {
        SchemaModel {
            target_namespace: self.target_namespace.deep_view(),
            elements: elements_view(self.elements@),
            complex_types: self.complex_types@.map_values(|c: XsdComplexType| c@),
            simple_types: self.simple_types@.map_values(|s: XsdSimpleType| s@),
            namespaces: self.namespaces@.map_values(|p: (String, String)| (p.0@, p.1@)),
            imported_schemas: self.imported_schemas.deep_view(),
            unhandled: self.unhandled.deep_view(),
        }
    }
}

pub proof fn lemma_elements_view(s: Seq<XsdElement>)
    ensures
        elements_view(s).len() == s.len(),
        forall|i: int| 0 <= i < s.len() ==> #[trigger] elements_view(s)[i] == element_view(s[i]),
    decreases s.len(),
{
    if s.len() > 0 {
        lemma_elements_view(s.drop_last());
    }
}

pub proof fn lemma_elements_view_push(s: Seq<XsdElement>, e: XsdElement)
    ensures
        elements_view(s.push(e)) == elements_view(s).push(element_view(e)),
{
    assert(s.push(e).drop_last() =~= s);
}

} // verus!
