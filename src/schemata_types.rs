//! The Schemata document model and its mathematical view.
use vstd::prelude::*;

verus! {

broadcast use {vstd::seq::axiom_seq_index_decreases, vstd::seq::axiom_seq_subrange_decreases, vstd::std_specs::vec::axiom_vec_decreases_to_view};

/// A Schemata source file.
#[derive(Debug)]
pub struct SchemataFile {
    pub namespaces: Vec<SchemataNamespace>,
}

/// A namespace and the record types and enumerations declared in it, each in source order.
#[derive(Debug)]
pub struct SchemataNamespace {
    pub name: String,
    pub schemas: Vec<SchemataSchema>,
    pub enums: Vec<SchemataEnum>,
}

/// A record type.
#[derive(Debug)]
pub struct SchemataSchema {
    pub name: String,
    pub comment: Option<String>,
    pub annotations: Vec<SchemataAnnotation>,
    pub fields: Vec<SchemataField>,
}

/// A field of a record type; an inline record type, when present, is its type.
#[derive(Debug)]
pub struct SchemataField {
    pub name: String,
    pub type_ref: String,
    pub nullable: bool,
    pub annotations: Vec<SchemataAnnotation>,
    pub comment: Option<String>,
    pub inline_schema: Option<SchemataSchema>,
}

/// An annotation such as `@maxOccurs(10)`: its name and its parameters, each key at most
/// once, in order of first appearance.
#[derive(Debug)]
pub struct SchemataAnnotation {
    pub name: String,
    pub params: Vec<(String, AnnotationValue)>,
}

/// An enumeration and its values in source order.
#[derive(Debug)]
pub struct SchemataEnum {
    pub name: String,
    pub comment: Option<String>,
    pub annotations: Vec<SchemataAnnotation>,
    pub values: Vec<String>,
}

/// The value of an annotation parameter, of the kind its literal was written in.
#[derive(Debug)]
pub enum AnnotationValue {
    String(String),
    Integer(i32),
    Boolean(bool),
}

/// Why Schemata source could not be read.
#[derive(Debug)]
pub enum ParseError {
    /// The text stops following the grammar at this character position.
    SyntaxError(usize),
    /// The text follows the grammar but a part of it cannot be represented (an integer
    /// literal out of range).
    InvalidStructure,
    /// Any other failure, described.
    Custom(String),
}

/// Why a document could not be generated.
#[derive(Debug)]
pub enum GenerationError {
    /// Writing the output failed.
    GenerationFailed,
    /// The model cannot be written.
    InvalidSchema,
    /// The Schemata source could not be read.
    Parse(ParseError),
}

pub type Text = Seq<char>;

pub ghost enum ValueModel {
    Str(Text),
    Int(i32),
    Bool(bool),
}

pub ghost struct AnnotationModel {
    pub name: Text,
    pub params: Seq<(Text, ValueModel)>,
}

pub ghost struct FieldModel {
    pub name: Text,
    pub type_ref: Text,
    pub nullable: bool,
    pub annotations: Seq<AnnotationModel>,
    pub comment: Option<Text>,
    pub inline_schema: Option<RecordModel>,
}

pub ghost struct RecordModel {
    pub name: Text,
    pub comment: Option<Text>,
    pub annotations: Seq<AnnotationModel>,
    pub fields: Seq<FieldModel>,
}

pub ghost struct EnumModel {
    pub name: Text,
    pub comment: Option<Text>,
    pub annotations: Seq<AnnotationModel>,
    pub values: Seq<Text>,
}

pub ghost struct NamespaceModel {
    pub name: Text,
    pub schemas: Seq<RecordModel>,
    pub enums: Seq<EnumModel>,
}

impl View for AnnotationValue {
    type V = ValueModel;

    open spec fn view(&self) -> ValueModel {
        match self {
            AnnotationValue::String(s) => ValueModel::Str(s@),
            AnnotationValue::Integer(i) => ValueModel::Int(*i),
            AnnotationValue::Boolean(b) => ValueModel::Bool(*b),
        }
    }
}

pub open spec fn params_view(ps: Seq<(String, AnnotationValue)>) -> Seq<(Text, ValueModel)> {
    ps.map_values(|p: (String, AnnotationValue)| (p.0@, p.1@))
}

impl View for SchemataAnnotation {
    type V = AnnotationModel;

    open spec fn view(&self) -> AnnotationModel {
        AnnotationModel { name: self.name@, params: params_view(self.params@) }
    }
}

pub open spec fn annotations_view(a: Seq<SchemataAnnotation>) -> Seq<AnnotationModel> {
    a.map_values(|x: SchemataAnnotation| x@)
}

pub open spec fn field_view(f: SchemataField) -> FieldModel
    decreases f,
{
    FieldModel {
        name: f.name@,
        type_ref: f.type_ref@,
        nullable: f.nullable,
        annotations: annotations_view(f.annotations@),
        comment: f.comment.deep_view(),
        inline_schema: match f.inline_schema {
            Some(s) => Some(record_view(s)),
            None => None,
        },
    }
}

pub open spec fn record_view(s: SchemataSchema) -> RecordModel
    decreases s,
{
    RecordModel {
        name: s.name@,
        comment: s.comment.deep_view(),
        annotations: annotations_view(s.annotations@),
        fields: fields_view(s.fields@),
    }
}

pub open spec fn fields_view(fs: Seq<SchemataField>) -> Seq<FieldModel>
    decreases fs,
{
    if fs.len() == 0 {
        Seq::empty()
    } else {
        fields_view(fs.drop_last()).push(field_view(fs.last()))
    }
}

impl View for SchemataField {
    type V = FieldModel;

    open spec fn view(&self) -> FieldModel {
        field_view(*self)
    }
}

impl View for SchemataSchema {
    type V = RecordModel;

    open spec fn view(&self) -> RecordModel {
        record_view(*self)
    }
}

impl View for SchemataEnum {
    type V = EnumModel;

    open spec fn view(&self) -> EnumModel {
        EnumModel {
            name: self.name@,
            comment: self.comment.deep_view(),
            annotations: annotations_view(self.annotations@),
            values: self.values.deep_view(),
        }
    }
}

impl View for SchemataNamespace {
    type V = NamespaceModel;

    open spec fn view(&self) -> NamespaceModel {
        NamespaceModel {
            name: self.name@,
            schemas: self.schemas@.map_values(|s: SchemataSchema| s@),
            enums: self.enums@.map_values(|e: SchemataEnum| e@),
        }
    }
}

impl View for SchemataFile {
    type V = Seq<NamespaceModel>;

    open spec fn view(&self) -> Seq<NamespaceModel> {
        self.namespaces@.map_values(|n: SchemataNamespace| n@)
    }
}

pub proof fn lemma_fields_view(s: Seq<SchemataField>)
    ensures
        fields_view(s).len() == s.len(),
        forall|i: int| 0 <= i < s.len() ==> #[trigger] fields_view(s)[i] == field_view(s[i]),
    decreases s.len(),
{
    if s.len() > 0 {
        lemma_fields_view(s.drop_last());
    }
}

pub proof fn lemma_fields_view_push(s: Seq<SchemataField>, f: SchemataField)
    ensures
        fields_view(s.push(f)) == fields_view(s).push(field_view(f)),
{
    assert(s.push(f).drop_last() =~= s);
}

} // verus!
