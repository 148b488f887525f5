//! The XSD writer: renders a Schemata document as an XML Schema document.
use vstd::prelude::*;
use crate::schemata_parser::{value_key, SchemataParser};
use crate::schemata_types::{
    annotations_view, field_view, fields_view, lemma_fields_view, params_view, AnnotationModel, AnnotationValue, EnumModel, FieldModel, GenerationError, NamespaceModel,
    RecordModel, SchemataAnnotation, SchemataEnum, SchemataField, SchemataFile, SchemataSchema,
    ValueModel,
};
use crate::text::{assoc_get, int_text, integer_text, key_position, lemma_key_position, text, text_is};
use crate::xml::{tag_text, write_tag, TagKind};

verus! {

broadcast use {vstd::seq::axiom_seq_index_decreases, vstd::seq::axiom_seq_subrange_decreases, vstd::std_specs::vec::axiom_vec_decreases_to_view};

/// Renders Schemata documents as XSD, bound to one target namespace.
pub struct SchemataToXsdGenerator {
    pub target_namespace: String,
}

// ---------------------------------------------------------------- the mapping

/// The XSD type for a Schemata type name: the five primitives by their XSD names, any
/// other name under the `xs:` prefix.
pub open spec fn xsd_type(t: Seq<char>) -> Seq<char> {
    if t == "int"@ {
        "xs:integer"@
    } else if t == "string"@ {
        "xs:string"@
    } else if t == "float"@ {
        "xs:float"@
    } else if t == "datetime"@ {
        "xs:dateTime"@
    } else if t == "bool"@ {
        "xs:boolean"@
    } else {
        "xs:"@ + t
    }
}

pub open spec fn is_max_occurs(name: Seq<char>) -> bool {
    name == "@maxOccurs"@ || name == "maxOccurs"@
}

/// What one annotation says of `maxOccurs`: the integer or string under its `value` key,
/// when it is a `maxOccurs` annotation.
pub open spec fn occurs_value(a: AnnotationModel) -> Option<Seq<char>> {
    if is_max_occurs(a.name) {
        match assoc_get(a.params, value_key()) {
            Some(ValueModel::Int(i)) => Some(int_text(i as int)),
            Some(ValueModel::Str(s)) => Some(s),
            _ => None,
        }
    } else {
        None
    }
}

/// The `maxOccurs` of the first annotation among `anns` that gives one.
pub open spec fn max_occurs_of(anns: Seq<AnnotationModel>) -> Option<Seq<char>>
    decreases anns.len(),
{
    if anns.len() == 0 {
        None
    } else {
        match occurs_value(anns[0]) {
            Some(v) => Some(v),
            None => max_occurs_of(anns.drop_first()),
        }
    }
}

// ---------------------------------------------------------------- the document

pub type Attrs = Seq<(Seq<char>, Seq<char>)>;

pub open spec fn open_tag(name: Seq<char>, attrs: Attrs) -> Seq<char> {
    tag_text(TagKind::Open, name, attrs)
}

pub open spec fn close_tag(name: Seq<char>) -> Seq<char> {
    tag_text(TagKind::Close, name, Seq::empty())
}

/// The attributes of the element of field `f`, in this order: `name`; `type` unless the
/// field has an inline record type; `minOccurs="0"` when nullable; `maxOccurs` when an
/// annotation gives one.
pub open spec fn field_attrs(f: FieldModel) -> Attrs {
    let base = seq![("name"@, f.name)];
    let typed = if f.inline_schema is Some {
        base
    } else {
        base.push(("type"@, xsd_type(f.type_ref)))
    };
    let nulled = if f.nullable {
        typed.push(("minOccurs"@, "0"@))
    } else {
        typed
    };
    match max_occurs_of(f.annotations) {
        Some(m) => nulled.push(("maxOccurs"@, m)),
        None => nulled,
    }
}

/// The element of a field: self-closing, or wrapping an anonymous complex type and
/// sequence of the inline fields.
pub open spec fn field_xml(f: FieldModel) -> Seq<char>
    decreases f,
{
    match f.inline_schema {
        Some(r) => open_tag("xs:element"@, field_attrs(f)) + open_tag("xs:complexType"@, Seq::empty())
            + open_tag("xs:sequence"@, Seq::empty()) + fields_xml(r.fields) + close_tag("xs:sequence"@)
            + close_tag("xs:complexType"@) + close_tag("xs:element"@),
        None => tag_text(TagKind::SelfClosing, "xs:element"@, field_attrs(f)),
    }
}

pub open spec fn fields_xml(fs: Seq<FieldModel>) -> Seq<char>
    decreases fs,
{
    if fs.len() == 0 {
        Seq::empty()
    } else {
        fields_xml(fs.drop_last()) + field_xml(fs.last())
    }
}

/// A record type as a named complex type holding a sequence of its fields.
pub open spec fn complex_type_xml(r: RecordModel) -> Seq<char> {
    open_tag("xs:complexType"@, seq![("name"@, r.name)]) + open_tag("xs:sequence"@, Seq::empty())
        + fields_xml(r.fields) + close_tag("xs:sequence"@) + close_tag("xs:complexType"@)
}

pub open spec fn enumerations_xml(vs: Seq<Seq<char>>) -> Seq<char>
    decreases vs.len(),
{
    if vs.len() == 0 {
        Seq::empty()
    } else {
        enumerations_xml(vs.drop_last()) + tag_text(TagKind::SelfClosing, "xs:enumeration"@, seq![("value"@, vs.last())])
    }
}

/// An enumeration as a named simple type restricting `xs:string` to its values, in order.
pub open spec fn simple_type_xml(e: EnumModel) -> Seq<char> {
    open_tag("xs:simpleType"@, seq![("name"@, e.name)]) + open_tag("xs:restriction"@, seq![("base"@, "xs:string"@)])
        + enumerations_xml(e.values) + close_tag("xs:restriction"@) + close_tag("xs:simpleType"@)
}

pub open spec fn records_xml(rs: Seq<RecordModel>) -> Seq<char>
    decreases rs.len(),
{
    if rs.len() == 0 {
        Seq::empty()
    } else {
        records_xml(rs.drop_last()) + complex_type_xml(rs.last())
    }
}

pub open spec fn enums_xml(es: Seq<EnumModel>) -> Seq<char>
    decreases es.len(),
{
    if es.len() == 0 {
        Seq::empty()
    } else {
        enums_xml(es.drop_last()) + simple_type_xml(es.last())
    }
}

/// A namespace section: a complex type per record type, then a simple type per enumeration.
pub open spec fn namespace_xml(n: NamespaceModel) -> Seq<char> {
    records_xml(n.schemas) + enums_xml(n.enums)
}

pub open spec fn namespaces_xml(ns: Seq<NamespaceModel>) -> Seq<char>
    decreases ns.len(),
{
    if ns.len() == 0 {
        Seq::empty()
    } else {
        namespaces_xml(ns.drop_last()) + namespace_xml(ns.last())
    }
}

pub open spec fn schema_attrs(target: Seq<char>) -> Attrs {
    seq![
        ("xmlns:xs"@, "http://www.w3.org/2001/XMLSchema"@),
        ("xmlns:tns"@, target),
        ("targetNamespace"@, target),
        ("elementFormDefault"@, "qualified"@),
    ]
}

/// The XSD document for the Schemata document `file`, bound to `target`.
pub open spec fn document_xml(file: Seq<NamespaceModel>, target: Seq<char>) -> Seq<char> {
    open_tag("xs:schema"@, schema_attrs(target)) + namespaces_xml(file) + close_tag("xs:schema"@)
}

// ---------------------------------------------------------------- writing

fn put_tag(out: &mut String, kind: TagKind, name: &str, attrs: &Vec<(String, String)>)
    ensures
        final(out)@ == old(out)@ + tag_text(kind, name@, crate::xml::pairs_view(attrs@)),
{
    write_tag(out, kind, name, attrs);
}

fn no_attrs() -> (r: Vec<(String, String)>)
    ensures
        crate::xml::pairs_view(r@) == Seq::<(Seq<char>, Seq<char>)>::empty(),
{
    let r: Vec<(String, String)> = Vec::new();
    assert(crate::xml::pairs_view(r@) =~= Seq::<(Seq<char>, Seq<char>)>::empty());
    r
}

fn one_attr(k: &str, v: &str) -> (r: Vec<(String, String)>)
    ensures
        crate::xml::pairs_view(r@) == seq![(k@, v@)],
{
    let mut r: Vec<(String, String)> = Vec::new();
    r.push((text(k), text(v)));
    assert(crate::xml::pairs_view(r@) =~= seq![(k@, v@)]);
    r
}

fn xsd_type_name(type_ref: &str) -> (r: String)
    ensures
        r@ == xsd_type(type_ref@),
{
    if text_is(type_ref, "int") {
        text("xs:integer")
    } else if text_is(type_ref, "string") {
        text("xs:string")
    } else if text_is(type_ref, "float") {
        text("xs:float")
    } else if text_is(type_ref, "datetime") {
        text("xs:dateTime")
    } else if text_is(type_ref, "bool") {
        text("xs:boolean")
    } else {
        let mut r = text("xs:");
        r.append(type_ref);
        r
    }
}

impl SchemataToXsdGenerator {
    /// A generator bound to the target namespace `namespace`.
    pub fn new(namespace: String) -> (r: Self)
        ensures
            r.target_namespace == namespace,
    {
        SchemataToXsdGenerator { target_namespace: namespace }
    }

    /// The XSD type for the Schemata type `type_ref`.
    pub fn map_type(&mut self, type_ref: &str) -> (r: String)
        ensures
            r@ == xsd_type(type_ref@),
            *final(self) == *old(self),
    {
        xsd_type_name(type_ref)
    }

    fn param_index(params: &Vec<(String, AnnotationValue)>, key: &str) -> (r: Option<usize>)
        ensures
            match r {
                Some(i) => key_position(params_view(params@), key@) == Some(i as int) && i < params.len(),
                None => key_position(params_view(params@), key@) is None,
            },
    {
        let ghost pv = params_view(params@);
        let mut i: usize = 0;
        while i < params.len()
            invariant
                i <= params.len(),
                pv == params_view(params@),
                forall|j: int| 0 <= j < i ==> pv[j].0 != key@,
            decreases params.len() - i,
        {
            if text_is(params[i].0.as_str(), key) {
                proof {
                    lemma_key_position(pv, key@);
                    assert(pv[i as int].0 == key@);
                    match key_position(pv, key@) {
                        Some(q) => {
                            if q > i {
                                assert(pv[i as int].0 == key@);
                            }
                        },
                        None => {},
                    }
                }
                return Some(i);
            }
            i = i + 1;
        }
        proof {
            lemma_key_position(pv, key@);
            match key_position(pv, key@) {
                Some(q) => {
                    assert(pv[q].0 == key@);
                },
                None => {},
            }
        }
        None
    }

    fn occurs_value(a: &SchemataAnnotation) -> (r: Option<String>)
        ensures
            r.deep_view() == occurs_value(a@),
    {
        if !(text_is(a.name.as_str(), "@maxOccurs") || text_is(a.name.as_str(), "maxOccurs")) {
            return None;
        }
        let key = vec!['v', 'a', 'l', 'u', 'e'];
        let k = crate::text::string_of(&key, 0, 5);
        assert(key@.subrange(0, 5) =~= value_key());
        match Self::param_index(&a.params, k.as_str()) {
            Some(i) => match &a.params[i].1 {
                AnnotationValue::Integer(n) => Some(integer_text(*n)),
                AnnotationValue::String(s) => Some(s.clone()),
                AnnotationValue::Boolean(_) => None,
            },
            None => None,
        }
    }

    /// The `maxOccurs` that the annotations give: that of the first `maxOccurs`
    /// annotation with an integer or string `value`.
    pub fn extract_max_occurs(&self, annotations: &[SchemataAnnotation]) -> (r: Option<String>)
        ensures
            r.deep_view() == max_occurs_of(annotations_view(annotations@)),
    {
        let ghost av = annotations_view(annotations@);
        let mut i: usize = 0;
        assert(av.subrange(0, av.len() as int) =~= av);
        while i < annotations.len()
            invariant
                i <= annotations.len(),
                av == annotations_view(annotations@),
                max_occurs_of(av) == max_occurs_of(av.subrange(i as int, av.len() as int)),
            decreases annotations.len() - i,
        {
            assert(av.subrange(i as int, av.len() as int).drop_first() =~= av.subrange(i + 1, av.len() as int));
            let v = Self::occurs_value(&annotations[i]);
            if v.is_some() {
                return v;
            }
            i = i + 1;
        }
        None
    }

    /// Writes the opening `xs:schema` tag with the namespace declarations.
    pub fn write_xsd_header(&self, out: &mut String)
        ensures
            final(out)@ == old(out)@ + open_tag("xs:schema"@, schema_attrs(self.target_namespace@)),
    {
        let mut attrs: Vec<(String, String)> = Vec::new();
        attrs.push((text("xmlns:xs"), text("http://www.w3.org/2001/XMLSchema")));
        attrs.push((text("xmlns:tns"), self.target_namespace.clone()));
        attrs.push((text("targetNamespace"), self.target_namespace.clone()));
        attrs.push((text("elementFormDefault"), text("qualified")));
        assert(crate::xml::pairs_view(attrs@) =~= schema_attrs(self.target_namespace@));
        put_tag(out, TagKind::Open, "xs:schema", &attrs)
    }

    /// Writes the closing `xs:schema` tag.
    pub fn write_xsd_footer(&self, out: &mut String)
        ensures
            final(out)@ == old(out)@ + close_tag("xs:schema"@),
    {
        put_tag(out, TagKind::Close, "xs:schema", &no_attrs())
    }

    fn field_attrs(&self, f: &SchemataField) -> (r: Vec<(String, String)>)
        ensures
            crate::xml::pairs_view(r@) == field_attrs(f@),
    {
        let mut attrs = one_attr("name", f.name.as_str());
        if f.inline_schema.is_none() {
            attrs.push((text("type"), xsd_type_name(f.type_ref.as_str())));
        }
        if f.nullable {
            attrs.push((text("minOccurs"), text("0")));
        }
        if let Some(m) = self.extract_max_occurs(f.annotations.as_slice()) {
            attrs.push((text("maxOccurs"), m));
        }
        assert(crate::xml::pairs_view(attrs@) =~= field_attrs(f@));
        attrs
    }

    /// Writes the element of field `f`.
    pub fn generate_field(&self, out: &mut String, f: &SchemataField)
        ensures
            final(out)@ == old(out)@ + field_xml(f@),
        decreases f,
    {
        let attrs = self.field_attrs(f);
        match &f.inline_schema {
            Some(inline) => {
                put_tag(out, TagKind::Open, "xs:element", &attrs);
                put_tag(out, TagKind::Open, "xs:complexType", &no_attrs());
                put_tag(out, TagKind::Open, "xs:sequence", &no_attrs());
                self.generate_fields(out, &inline.fields);
                put_tag(out, TagKind::Close, "xs:sequence", &no_attrs());
                put_tag(out, TagKind::Close, "xs:complexType", &no_attrs());
                put_tag(out, TagKind::Close, "xs:element", &no_attrs());
                assert(final(out)@ =~= old(out)@ + field_xml(f@));
            },
            None => put_tag(out, TagKind::SelfClosing, "xs:element", &attrs),
        }
    }

    /// Writes the elements of the fields `fs`, in order.
    fn generate_fields(&self, out: &mut String, fs: &Vec<SchemataField>)
        ensures
            final(out)@ == old(out)@ + fields_xml(fields_view(fs@)),
        decreases fs,
    {
        let ghost start = out@;
        let mut i: usize = 0;
        proof {
            lemma_fields_view(fs@);
            assert(fields_view(fs@).subrange(0, 0) =~= Seq::<FieldModel>::empty());
        }
        while i < fs.len()
            invariant
                i <= fs.len(),
                fields_view(fs@).len() == fs.len(),
                forall|j: int| 0 <= j < fs.len() ==> #[trigger] fields_view(fs@)[j] == field_view(fs@[j]),
                out@ == start + fields_xml(fields_view(fs@).subrange(0, i as int)),
            decreases fs.len() - i,
        {
            self.generate_field(out, &fs[i]);
            proof {
                let v = fields_view(fs@);
                assert(v.subrange(0, i + 1).drop_last() =~= v.subrange(0, i as int));
                assert(out@ =~= start + fields_xml(v.subrange(0, i + 1)));
            }
            i = i + 1;
        }
        assert(fields_view(fs@).subrange(0, fs.len() as int) =~= fields_view(fs@));
    }

    /// Writes a record type as a named complex type.
    pub fn generate_complex_type(&self, out: &mut String, schema: &SchemataSchema)
        ensures
            final(out)@ == old(out)@ + complex_type_xml(schema@),
    {
        put_tag(out, TagKind::Open, "xs:complexType", &one_attr("name", schema.name.as_str()));
        put_tag(out, TagKind::Open, "xs:sequence", &no_attrs());
        self.generate_fields(out, &schema.fields);
        put_tag(out, TagKind::Close, "xs:sequence", &no_attrs());
        put_tag(out, TagKind::Close, "xs:complexType", &no_attrs());
        assert(final(out)@ =~= old(out)@ + complex_type_xml(schema@));
    }

    /// Writes an enumeration as a simple type restricting `xs:string`.
    pub fn generate_simple_type(&self, out: &mut String, enum_type: &SchemataEnum)
        ensures
            final(out)@ == old(out)@ + simple_type_xml(enum_type@),
    {
        let ghost start = out@;
        put_tag(out, TagKind::Open, "xs:simpleType", &one_attr("name", enum_type.name.as_str()));
        put_tag(out, TagKind::Open, "xs:restriction", &one_attr("base", "xs:string"));
        let ghost mid = out@;
        let ghost vs = enum_type.values.deep_view();
        let mut i: usize = 0;
        assert(vs.subrange(0, 0) =~= Seq::<Seq<char>>::empty());
        while i < enum_type.values.len()
            invariant
                i <= enum_type.values.len(),
                vs == enum_type.values.deep_view(),
                out@ == mid + enumerations_xml(vs.subrange(0, i as int)),
            decreases enum_type.values.len() - i,
        {
            put_tag(out, TagKind::SelfClosing, "xs:enumeration", &one_attr("value", enum_type.values[i].as_str()));
            proof {
                assert(vs.subrange(0, i + 1).drop_last() =~= vs.subrange(0, i as int));
                assert(out@ =~= mid + enumerations_xml(vs.subrange(0, i + 1)));
            }
            i = i + 1;
        }
        assert(vs.subrange(0, vs.len() as int) =~= vs);
        put_tag(out, TagKind::Close, "xs:restriction", &no_attrs());
        put_tag(out, TagKind::Close, "xs:simpleType", &no_attrs());
        assert(out@ =~= start + simple_type_xml(enum_type@));
    }

    fn generate_namespace(&self, out: &mut String, n: &crate::schemata_types::SchemataNamespace)
        ensures
            final(out)@ == old(out)@ + namespace_xml(n@),
    {
        let ghost start = out@;
        let ghost rs = n@.schemas;
        let mut i: usize = 0;
        assert(rs.subrange(0, 0) =~= Seq::<RecordModel>::empty());
        while i < n.schemas.len()
            invariant
                i <= n.schemas.len(),
                rs == n@.schemas,
                out@ == start + records_xml(rs.subrange(0, i as int)),
            decreases n.schemas.len() - i,
        {
            self.generate_complex_type(out, &n.schemas[i]);
            proof {
                assert(rs.subrange(0, i + 1).drop_last() =~= rs.subrange(0, i as int));
                assert(out@ =~= start + records_xml(rs.subrange(0, i + 1)));
            }
            i = i + 1;
        }
        assert(rs.subrange(0, rs.len() as int) =~= rs);
        let ghost mid = out@;
        let ghost es = n@.enums;
        let mut j: usize = 0;
        assert(es.subrange(0, 0) =~= Seq::<EnumModel>::empty());
        while j < n.enums.len()
            invariant
                j <= n.enums.len(),
                es == n@.enums,
                out@ == mid + enums_xml(es.subrange(0, j as int)),
            decreases n.enums.len() - j,
        {
            self.generate_simple_type(out, &n.enums[j]);
            proof {
                assert(es.subrange(0, j + 1).drop_last() =~= es.subrange(0, j as int));
                assert(out@ =~= mid + enums_xml(es.subrange(0, j + 1)));
            }
            j = j + 1;
        }
        assert(es.subrange(0, es.len() as int) =~= es);
        assert(out@ =~= start + namespace_xml(n@));
    }

    /// Renders the Schemata document `file` as an XSD document.
    pub fn generate_xsd(&self, file: &SchemataFile) -> (r: Result<String, GenerationError>)
        ensures
            r matches Ok(x) && x@ == document_xml(file@, self.target_namespace@),
    {
        let mut out = String::new();
        self.write_xsd_header(&mut out);
        let ghost mid = out@;
        let ghost ns = file@;
        let mut i: usize = 0;
        assert(ns.subrange(0, 0) =~= Seq::<NamespaceModel>::empty());
        while i < file.namespaces.len()
            invariant
                i <= file.namespaces.len(),
                ns == file@,
                out@ == mid + namespaces_xml(ns.subrange(0, i as int)),
            decreases file.namespaces.len() - i,
        {
            self.generate_namespace(&mut out, &file.namespaces[i]);
            proof {
                assert(ns.subrange(0, i + 1).drop_last() =~= ns.subrange(0, i as int));
                assert(out@ =~= mid + namespaces_xml(ns.subrange(0, i + 1)));
            }
            i = i + 1;
        }
        assert(ns.subrange(0, ns.len() as int) =~= ns);
        self.write_xsd_footer(&mut out);
        assert(out@ =~= document_xml(file@, self.target_namespace@));
        Ok(out)
    }

    /// Reads Schemata source text and renders it as an XSD document: it succeeds exactly
    /// when the text parses, and fails with the parse error otherwise.
    pub fn generate(&mut self, schemata_content: &str) -> (r: Result<String, GenerationError>)
        ensures
            *final(self) == *old(self),
            match crate::schemata_parser::file_spec(schemata_content@) {
                Ok(f) => r matches Ok(x) && x@ == document_xml(f, old(self).target_namespace@),
                Err(e) => r matches Err(GenerationError::Parse(x)) && x == e,
            },
    {
        match SchemataParser::parse_schemata(schemata_content) {
            Ok(file) => self.generate_xsd(&file),
            Err(e) => Err(GenerationError::Parse(e)),
        }
    }
}

} // verus!
