//! The Schemata writer: maps an XSD document onto the Schemata model and renders it as
//! Schemata source text.
use vstd::prelude::*;
use crate::schemata_parser::{inline_record, value_key};
use crate::schemata_types::{
    annotations_view, field_view, fields_view, lemma_fields_view, lemma_fields_view_push,
    params_view, AnnotationModel, AnnotationValue, EnumModel, FieldModel,
    GenerationError, NamespaceModel, RecordModel, SchemataAnnotation, SchemataEnum, SchemataField,
    SchemataNamespace, SchemataSchema, ValueModel,
};
use crate::text::{all_digits, is_digit, int_text, integer_text, string_of, text, text_is};
use crate::xsd_types::{
    element_view, elements_view, lemma_elements_view, AttributeModel,
    ComplexTypeModel, ElementModel, SchemaModel, SimpleTypeModel, XsdComplexType,
    XsdElement, XsdSchema, XsdSimpleType,
};

verus! {

broadcast use {vstd::seq::axiom_seq_index_decreases, vstd::seq::axiom_seq_subrange_decreases, vstd::std_specs::vec::axiom_vec_decreases_to_view};

/// Renders XSD documents as Schemata source text.
pub struct XsdToSchemataGenerator;

// ---------------------------------------------------------------- the mapping

pub open spec fn or_text(o: Option<Seq<char>>, d: Seq<char>) -> Seq<char> {
    match o {
        Some(t) => t,
        None => d,
    }
}

pub open spec fn value_annotation(name: Seq<char>, v: Seq<char>) -> AnnotationModel {
    AnnotationModel { name, params: seq![(value_key(), ValueModel::Str(v))] }
}

/// The occurrence annotations of an element: `minOccurs` and `maxOccurs`, each when the
/// element states it, with the text it states.
pub open spec fn occurrence_annotations(e: ElementModel) -> Seq<AnnotationModel> {
    let a = match e.min_occurs {
        Some(m) => seq![value_annotation("minOccurs"@, m)],
        None => Seq::empty(),
    };
    match e.max_occurs {
        Some(m) => a.push(value_annotation("maxOccurs"@, m)),
        None => a,
    }
}

/// The field for an element: nullable exactly when `minOccurs` is `0`; of type `string`
/// when the element names none; an anonymous complex type becomes an inline record type.
pub open spec fn field_of(e: ElementModel) -> FieldModel
    decreases e,
{
    FieldModel {
        name: e.name,
        type_ref: or_text(e.type_ref, "string"@),
        nullable: e.min_occurs == Some("0"@),
        annotations: occurrence_annotations(e),
        comment: e.comment,
        inline_schema: match e.complex_type {
            Some(ct) => Some(inline_record(fields_of(ct.sequence))),
            None => None,
        },
    }
}

pub open spec fn fields_of(es: Seq<ElementModel>) -> Seq<FieldModel>
    decreases es,
{
    if es.len() == 0 {
        Seq::empty()
    } else {
        fields_of(es.drop_last()).push(field_of(es.last()))
    }
}

pub open spec fn attribute_annotation(a: AttributeModel) -> AnnotationModel {
    AnnotationModel {
        name: "attribute"@,
        params: seq![("name"@, ValueModel::Str(a.name)), ("use"@, ValueModel::Str(a.use_type))],
    }
}

/// The annotations of a complex type: `@mixed` when mixed, then one `@attribute` per
/// attribute, in order.
pub open spec fn complex_type_annotations(ct: ComplexTypeModel) -> Seq<AnnotationModel> {
    let m = if ct.mixed {
        seq![AnnotationModel { name: "mixed"@, params: seq![(value_key(), ValueModel::Bool(true))] }]
    } else {
        Seq::empty()
    };
    m + ct.attributes.map_values(|a: AttributeModel| attribute_annotation(a))
}

pub open spec fn schema_of(ct: ComplexTypeModel) -> RecordModel {
    RecordModel {
        name: or_text(ct.name, "UnnamedSchema"@),
        comment: None,
        annotations: complex_type_annotations(ct),
        fields: fields_of(ct.sequence),
    }
}

/// The enumerations for the simple types that have a restriction, in order.
pub open spec fn enums_of(sts: Seq<SimpleTypeModel>) -> Seq<EnumModel>
    decreases sts.len(),
{
    if sts.len() == 0 {
        Seq::empty()
    } else {
        let rest = enums_of(sts.drop_last());
        let st = sts.last();
        match st.restriction {
            Some(r) => rest.push(EnumModel {
                name: or_text(st.name, "UnnamedEnum"@),
                comment: None,
                annotations: Seq::empty(),
                values: r.enumeration,
            }),
            None => rest,
        }
    }
}

/// The one namespace that holds the whole document.
pub open spec fn namespace_of(x: SchemaModel) -> NamespaceModel {
    NamespaceModel {
        name: or_text(x.target_namespace, "default"@),
        schemas: x.complex_types.map_values(|c: ComplexTypeModel| schema_of(c)),
        enums: enums_of(x.simple_types),
    }
}

fn text_or(o: &Option<String>, d: &str) -> (r: String)
    ensures
        r@ == or_text(o.deep_view(), d@),
{
    match o {
        Some(t) => t.clone(),
        None => text(d),
    }
}

fn occurs_annotation(name: &str, v: &String) -> (r: SchemataAnnotation)
    ensures
        r@ == value_annotation(name@, v@),
{
    let key = vec!['v', 'a', 'l', 'u', 'e'];
    let mut params: Vec<(String, AnnotationValue)> = Vec::new();
    params.push((string_of(&key, 0, 5), AnnotationValue::String(v.clone())));
    assert(key@.subrange(0, 5) =~= value_key());
    assert(params_view(params@) =~= seq![(value_key(), ValueModel::Str(v@))]);
    SchemataAnnotation { name: text(name), params }
}

impl XsdToSchemataGenerator {
    /// A generator.
    pub fn new() -> (r: Self) {
        XsdToSchemataGenerator
    }

    /// A generator.
    pub fn default() -> (r: Self) {
        Self::new()
    }

    /// The occurrence annotations of `element`.
    pub fn get_annotations(&self, element: &XsdElement) -> (r: Vec<SchemataAnnotation>)
        ensures
            annotations_view(r@) == occurrence_annotations(element@),
    {
        let mut annotations: Vec<SchemataAnnotation> = Vec::new();
        if let Some(m) = &element.min_occurs {
            annotations.push(occurs_annotation("minOccurs", m));
        }
        if let Some(m) = &element.max_occurs {
            annotations.push(occurs_annotation("maxOccurs", m));
        }
        assert(annotations_view(annotations@) =~= occurrence_annotations(element@));
        annotations
    }

    /// The field for `element`.
    fn get_field(&self, e: &XsdElement) -> (r: SchemataField)
        ensures
            r@ == field_of(e@),
        decreases e,
    {
        let nullable = match &e.min_occurs {
            Some(m) => text_is(m.as_str(), "0"),
            None => false,
        };
        let inline_schema = match &e.complex_type {
            Some(ct) => Some(crate::schemata_parser::SchemataParser::inline_schema(self.get_fields(&ct.sequence))),
            None => None,
        };
        SchemataField {
            name: e.name.clone(),
            type_ref: text_or(&e.type_ref, "string"),
            nullable,
            annotations: self.get_annotations(e),
            comment: match &e.comment {
                Some(c) => Some(c.clone()),
                None => None,
            },
            inline_schema,
        }
    }

    /// The fields for `elements`, in order.
    pub fn get_fields(&self, elements: &Vec<XsdElement>) -> (r: Vec<SchemataField>)
        ensures
            fields_view(r@) == fields_of(elements_view(elements@)),
        decreases elements,
    {
        let ghost ev = elements_view(elements@);
        proof {
            lemma_elements_view(elements@);
        }
        let mut out: Vec<SchemataField> = Vec::new();
        let mut i: usize = 0;
        assert(ev.subrange(0, 0) =~= Seq::<ElementModel>::empty());
        assert(fields_view(out@) =~= Seq::<FieldModel>::empty());
        while i < elements.len()
            invariant
                i <= elements.len(),
                ev == elements_view(elements@),
                ev.len() == elements.len(),
                forall|j: int| 0 <= j < elements.len() ==> #[trigger] ev[j] == element_view(elements@[j]),
                fields_view(out@) == fields_of(ev.subrange(0, i as int)),
            decreases elements.len() - i,
        {
            let f = self.get_field(&elements[i]);
            proof {
                lemma_fields_view_push(out@, f);
                assert(ev.subrange(0, i + 1).drop_last() =~= ev.subrange(0, i as int));
            }
            out.push(f);
            i = i + 1;
        }
        assert(ev.subrange(0, ev.len() as int) =~= ev);
        out
    }

    /// The annotations of `complex_type`.
    pub fn get_complex_type_annotations(&self, complex_type: &XsdComplexType) -> (r: Vec<SchemataAnnotation>)
        ensures
            annotations_view(r@) == complex_type_annotations(complex_type@),
    {
        let mut annotations: Vec<SchemataAnnotation> = Vec::new();
        if complex_type.mixed {
            let key = vec!['v', 'a', 'l', 'u', 'e'];
            let mut params: Vec<(String, AnnotationValue)> = Vec::new();
            params.push((string_of(&key, 0, 5), AnnotationValue::Boolean(true)));
            assert(key@.subrange(0, 5) =~= value_key());
            assert(params_view(params@) =~= seq![(value_key(), ValueModel::Bool(true))]);
            annotations.push(SchemataAnnotation { name: text("mixed"), params });
        }
        let ghost m = annotations_view(annotations@);
        let ghost attrs = complex_type@.attributes;
        let mut i: usize = 0;
        assert(m =~= (if complex_type.mixed {
            seq![AnnotationModel { name: "mixed"@, params: seq![(value_key(), ValueModel::Bool(true))] }]
        } else {
            Seq::empty()
        }));
        assert(attrs.subrange(0, 0).map_values(|a: AttributeModel| attribute_annotation(a)) =~= Seq::<AnnotationModel>::empty());
        while i < complex_type.attributes.len()
            invariant
                i <= complex_type.attributes.len(),
                attrs == complex_type@.attributes,
                attrs.len() == complex_type.attributes.len(),
                annotations_view(annotations@) == m + attrs.subrange(0, i as int).map_values(|a: AttributeModel| attribute_annotation(a)),
            decreases complex_type.attributes.len() - i,
        {
            let a = &complex_type.attributes[i];
            let mut params: Vec<(String, AnnotationValue)> = Vec::new();
            params.push((text("name"), AnnotationValue::String(a.name.clone())));
            params.push((text("use"), AnnotationValue::String(a.use_type.clone())));
            assert(params_view(params@) =~= attribute_annotation(a@).params);
            let ann = SchemataAnnotation { name: text("attribute"), params };
            let ghost before = annotations@;
            annotations.push(ann);
            proof {
                assert(attrs[i as int] == a@);
                assert(annotations_view(annotations@) =~= annotations_view(before).push(ann@));
                assert(attrs.subrange(0, i + 1).map_values(|a: AttributeModel| attribute_annotation(a))
                    =~= attrs.subrange(0, i as int).map_values(|a: AttributeModel| attribute_annotation(a)).push(attribute_annotation(attrs[i as int])));
                assert(annotations_view(annotations@) =~= m + attrs.subrange(0, i + 1).map_values(|a: AttributeModel| attribute_annotation(a)));
            }
            i = i + 1;
        }
        assert(attrs.subrange(0, attrs.len() as int) =~= attrs);
        annotations
    }

    /// The record types for `complex_types`, in order.
    pub fn get_schemas(&self, complex_types: &Vec<XsdComplexType>) -> (r: Vec<SchemataSchema>)
        ensures
            r@.map_values(|s: SchemataSchema| s@) == complex_types@.map_values(|c: XsdComplexType| schema_of(c@)),
    {
        let mut out: Vec<SchemataSchema> = Vec::new();
        let mut i: usize = 0;
        assert(complex_types@.subrange(0, 0).map_values(|c: XsdComplexType| schema_of(c@)) =~= Seq::<RecordModel>::empty());
        assert(out@.map_values(|s: SchemataSchema| s@) =~= Seq::<RecordModel>::empty());
        while i < complex_types.len()
            invariant
                i <= complex_types.len(),
                out@.map_values(|s: SchemataSchema| s@) == complex_types@.subrange(0, i as int).map_values(|c: XsdComplexType| schema_of(c@)),
            decreases complex_types.len() - i,
        {
            let ct = &complex_types[i];
            let s = SchemataSchema {
                name: text_or(&ct.name, "UnnamedSchema"),
                comment: None,
                annotations: self.get_complex_type_annotations(ct),
                fields: self.get_fields(&ct.sequence),
            };
            let ghost before = out@;
            assert(s@ == schema_of(ct@));
            out.push(s);
            assert(out@.map_values(|s: SchemataSchema| s@) =~= before.map_values(|s: SchemataSchema| s@).push(s@));
            assert(complex_types@.subrange(0, i + 1).map_values(|c: XsdComplexType| schema_of(c@))
                =~= complex_types@.subrange(0, i as int).map_values(|c: XsdComplexType| schema_of(c@)).push(schema_of(ct@)));
            i = i + 1;
        }
        assert(complex_types@.subrange(0, complex_types.len() as int) =~= complex_types@);
        out
    }

    /// The enumerations for the simple types that have a restriction.
    pub fn get_enums(&self, simple_types: &Vec<XsdSimpleType>) -> (r: Vec<SchemataEnum>)
        ensures
            r@.map_values(|e: SchemataEnum| e@) == enums_of(simple_types@.map_values(|s: XsdSimpleType| s@)),
    {
        let ghost sv = simple_types@.map_values(|s: XsdSimpleType| s@);
        let mut out: Vec<SchemataEnum> = Vec::new();
        let mut i: usize = 0;
        assert(sv.subrange(0, 0) =~= Seq::<SimpleTypeModel>::empty());
        assert(out@.map_values(|e: SchemataEnum| e@) =~= Seq::<EnumModel>::empty());
        while i < simple_types.len()
            invariant
                i <= simple_types.len(),
                sv == simple_types@.map_values(|s: XsdSimpleType| s@),
                out@.map_values(|e: SchemataEnum| e@) == enums_of(sv.subrange(0, i as int)),
            decreases simple_types.len() - i,
        {
            let st = &simple_types[i];
            assert(sv.subrange(0, i + 1).drop_last() =~= sv.subrange(0, i as int));
            assert(sv.subrange(0, i + 1).last() == st@);
            if let Some(r) = &st.restriction {
                let mut values: Vec<String> = Vec::new();
                let mut j: usize = 0;
                assert(values.deep_view() =~= r.enumeration.deep_view().subrange(0, 0));
                while j < r.enumeration.len()
                    invariant
                        j <= r.enumeration.len(),
                        values.deep_view() == r.enumeration.deep_view().subrange(0, j as int),
                    decreases r.enumeration.len() - j,
                {
                    let ghost before = values.deep_view();
                    let v = r.enumeration[j].clone();
                    values.push(v);
                    assert(values.deep_view() =~= before.push(v@));
                    assert(r.enumeration.deep_view()[j as int] == v@);
                    assert(values.deep_view() =~= r.enumeration.deep_view().subrange(0, j + 1));
                    j = j + 1;
                }
                assert(r.enumeration.deep_view().subrange(0, r.enumeration.len() as int) =~= r.enumeration.deep_view());
                let annotations: Vec<SchemataAnnotation> = Vec::new();
                assert(annotations_view(annotations@) =~= Seq::<AnnotationModel>::empty());
                let en = SchemataEnum { name: text_or(&st.name, "UnnamedEnum"), comment: None, annotations, values };
                let ghost before = out@;
                out.push(en);
                assert(out@.map_values(|e: SchemataEnum| e@) =~= before.map_values(|e: SchemataEnum| e@).push(en@));
            }
            i = i + 1;
        }
        assert(sv.subrange(0, sv.len() as int) =~= sv);
        out
    }

    /// The namespaces for `xsd_schema`: one, named after its target namespace.
    pub fn get_namespaces(&self, xsd_schema: &XsdSchema) -> (r: Vec<SchemataNamespace>)
        ensures
            r@.map_values(|n: SchemataNamespace| n@) == seq![namespace_of(xsd_schema@)],
    {
        let schemas = self.get_schemas(&xsd_schema.complex_types);
        let enums = self.get_enums(&xsd_schema.simple_types);
        let n = SchemataNamespace { name: text_or(&xsd_schema.target_namespace, "default"), schemas, enums };
        assert(n@.schemas =~= namespace_of(xsd_schema@).schemas);
        let mut r: Vec<SchemataNamespace> = Vec::new();
        r.push(n);
        assert(r@.map_values(|n: SchemataNamespace| n@) =~= seq![namespace_of(xsd_schema@)]);
        r
    }
}


// ---------------------------------------------------------------- the text

pub open spec fn value_text(key: Seq<char>, v: ValueModel) -> Seq<char> {
    match v {
        ValueModel::Str(s) => if key == value_key() && s.len() > 0 && all_digits(s) {
            s
        } else {
            "\""@ + s + "\""@
        },
        ValueModel::Int(i) => int_text(i as int),
        ValueModel::Bool(b) => if b {
            "true"@
        } else {
            "false"@
        },
    }
}

/// A parameter as `key=value`, or its value alone when its key is `value`; a string is
/// quoted, unless it stands alone and is all digits.
pub open spec fn param_text(p: (Seq<char>, ValueModel)) -> Seq<char> {
    if p.0 == value_key() {
        value_text(p.0, p.1)
    } else {
        p.0 + "="@ + value_text(p.0, p.1)
    }
}

pub open spec fn params_text(ps: Seq<(Seq<char>, ValueModel)>) -> Seq<char>
    decreases ps.len(),
{
    if ps.len() == 0 {
        Seq::empty()
    } else if ps.len() == 1 {
        param_text(ps[0])
    } else {
        params_text(ps.drop_last()) + ", "@ + param_text(ps.last())
    }
}

/// The name of an annotation without its `@`.
pub open spec fn bare_name(n: Seq<char>) -> Seq<char> {
    if n.len() > 0 && n[0] == '@' {
        n.drop_first()
    } else {
        n
    }
}

/// An annotation as `@name`, followed by its parameters in parentheses when it has some.
pub open spec fn annotation_text(a: AnnotationModel) -> Seq<char> {
    "@"@ + bare_name(a.name) + if a.params.len() == 0 {
        Seq::empty()
    } else {
        "("@ + params_text(a.params) + ")"@
    }
}

/// The annotations, each after a space.
pub open spec fn trailing_annotations(anns: Seq<AnnotationModel>) -> Seq<char>
    decreases anns.len(),
{
    if anns.len() == 0 {
        Seq::empty()
    } else {
        trailing_annotations(anns.drop_last()) + " "@ + annotation_text(anns.last())
    }
}

pub open spec fn step() -> Seq<char> {
    "    "@
}

/// A field on its line: name, type, annotations, and the inline record type's fields in
/// braces, one level deeper.
pub open spec fn field_text(f: FieldModel, indent: Seq<char>) -> Seq<char>
    decreases f,
{
    indent + f.name + " "@ + f.type_ref + trailing_annotations(f.annotations) + match f.inline_schema {
        Some(r) => " {\n"@ + fields_text(r.fields, indent + step()) + indent + "}"@,
        None => Seq::empty(),
    } + "\n"@
}

pub open spec fn fields_text(fs: Seq<FieldModel>, indent: Seq<char>) -> Seq<char>
    decreases fs,
{
    if fs.len() == 0 {
        Seq::empty()
    } else {
        fields_text(fs.drop_last(), indent) + field_text(fs.last(), indent)
    }
}

/// A record type: a line of its annotations when it has some, then `schema Name {`, its
/// fields, and `}`.
pub open spec fn record_text(r: RecordModel, indent: Seq<char>) -> Seq<char> {
    (if r.annotations.len() == 0 {
        Seq::empty()
    } else {
        indent + trailing_annotations(r.annotations).drop_first() + "\n"@
    }) + indent + "schema "@ + r.name + " {\n"@ + fields_text(r.fields, indent + step()) + indent + "}\n"@
}

pub open spec fn values_text(vs: Seq<Seq<char>>, indent: Seq<char>) -> Seq<char>
    decreases vs.len(),
{
    if vs.len() == 0 {
        Seq::empty()
    } else {
        values_text(vs.drop_last(), indent) + indent + vs.last() + "\n"@
    }
}

/// An enumeration: `enum Name {`, its values one per line, and `}`.
pub open spec fn enum_text(e: EnumModel, indent: Seq<char>) -> Seq<char> {
    indent + "enum "@ + e.name + " {\n"@ + values_text(e.values, indent + step()) + indent + "}\n"@
}

pub open spec fn records_text(rs: Seq<RecordModel>, indent: Seq<char>) -> Seq<char>
    decreases rs.len(),
{
    if rs.len() == 0 {
        Seq::empty()
    } else {
        records_text(rs.drop_last(), indent) + record_text(rs.last(), indent)
    }
}

pub open spec fn enums_text(es: Seq<EnumModel>, indent: Seq<char>) -> Seq<char>
    decreases es.len(),
{
    if es.len() == 0 {
        Seq::empty()
    } else {
        enums_text(es.drop_last(), indent) + enum_text(es.last(), indent)
    }
}

/// A namespace block: its record types, then its enumerations.
pub open spec fn namespace_text(n: NamespaceModel) -> Seq<char> {
    "namespace "@ + n.name + " {\n"@ + records_text(n.schemas, step()) + enums_text(n.enums, step()) + "}\n"@
}

pub open spec fn namespaces_text(ns: Seq<NamespaceModel>) -> Seq<char>
    decreases ns.len(),
{
    if ns.len() == 0 {
        Seq::empty()
    } else {
        namespaces_text(ns.drop_last()) + namespace_text(ns.last())
    }
}

/// The Schemata text for an XSD document.
pub open spec fn schemata_text(x: SchemaModel) -> Seq<char> {
    namespace_text(namespace_of(x))
}

// ---------------------------------------------------------------- writing

fn put(out: &mut String, s: &str)
    ensures
        final(out)@ == old(out)@ + s@,
{
    out.append(s);
}

fn is_numeral(s: &String) -> (r: bool)
    ensures
        r == (s@.len() > 0 && all_digits(s@)),
{
    let cs = crate::text::chars_of(s.as_str());
    if cs.len() == 0 {
        return false;
    }
    let mut i: usize = 0;
    while i < cs.len()
        invariant
            i <= cs.len(),
            cs@ == s@,
            forall|j: int| 0 <= j < i ==> is_digit(#[trigger] cs@[j]),
        decreases cs.len() - i,
    {
        if !('0' <= cs[i] && cs[i] <= '9') {
            return false;
        }
        i = i + 1;
    }
    true
}

fn write_value(out: &mut String, key: &String, v: &AnnotationValue)
    ensures
        final(out)@ == old(out)@ + value_text(key@, v@),
{
    let vk = vec!['v', 'a', 'l', 'u', 'e'];
    let k = string_of(&vk, 0, 5);
    assert(vk@.subrange(0, 5) =~= value_key());
    match v {
        AnnotationValue::String(s) => {
            if *key == k && is_numeral(s) {
                put(out, s.as_str());
            } else {
                put(out, "\"");
                put(out, s.as_str());
                put(out, "\"");
                assert(final(out)@ =~= old(out)@ + value_text(key@, v@));
            }
        },
        AnnotationValue::Integer(i) => {
            put(out, integer_text(*i).as_str());
        },
        AnnotationValue::Boolean(b) => {
            if *b {
                put(out, "true");
            } else {
                put(out, "false");
            }
        },
    }
}

fn write_annotation(out: &mut String, a: &SchemataAnnotation)
    ensures
        final(out)@ == old(out)@ + annotation_text(a@),
{
    let ghost start = out@;
    put(out, "@");
    let name = crate::text::chars_of(a.name.as_str());
    if name.len() > 0 && name[0] == '@' {
        put(out, string_of(&name, 1, name.len()).as_str());
        assert(name@.subrange(1, name.len() as int) =~= name@.drop_first());
    } else {
        put(out, a.name.as_str());
    }
    assert(out@ =~= start + "@"@ + bare_name(a@.name));
    if a.params.len() > 0 {
        put(out, "(");
        let vk = vec!['v', 'a', 'l', 'u', 'e'];
        let vkey = string_of(&vk, 0, 5);
        assert(vk@.subrange(0, 5) =~= value_key());
        let ghost mid = out@;
        let ghost pv = params_view(a.params@);
        let mut i: usize = 0;
        while i < a.params.len()
            invariant
                0 < a.params.len(),
                i <= a.params.len(),
                pv == params_view(a.params@),
                vkey@ == value_key(),
                out@ == mid + params_text(pv.subrange(0, i as int)),
            decreases a.params.len() - i,
        {
            let ghost before = out@;
            if i > 0 {
                put(out, ", ");
            }
            let p = &a.params[i];
            if p.0 != vkey {
                put(out, p.0.as_str());
                put(out, "=");
            }
            write_value(out, &p.0, &p.1);
            proof {
                let q = pv.subrange(0, i + 1);
                assert(q.drop_last() =~= pv.subrange(0, i as int));
                assert(q.last() == (p.0@, p.1@));
                if i == 0 {
                    assert(pv.subrange(0, 0) =~= Seq::<(Seq<char>, ValueModel)>::empty());
                }
                assert(out@ =~= mid + params_text(q));
            }
            i = i + 1;
        }
        assert(pv.subrange(0, pv.len() as int) =~= pv);
        put(out, ")");
    }
    assert(out@ =~= start + annotation_text(a@));
}


fn write_trailing_annotations(out: &mut String, anns: &Vec<SchemataAnnotation>)
    ensures
        final(out)@ == old(out)@ + trailing_annotations(annotations_view(anns@)),
{
    let ghost start = out@;
    let ghost av = annotations_view(anns@);
    let mut i: usize = 0;
    assert(av.subrange(0, 0) =~= Seq::<AnnotationModel>::empty());
    while i < anns.len()
        invariant
            i <= anns.len(),
            av == annotations_view(anns@),
            out@ == start + trailing_annotations(av.subrange(0, i as int)),
        decreases anns.len() - i,
    {
        put(out, " ");
        write_annotation(out, &anns[i]);
        proof {
            assert(av.subrange(0, i + 1).drop_last() =~= av.subrange(0, i as int));
            assert(out@ =~= start + trailing_annotations(av.subrange(0, i + 1)));
        }
        i = i + 1;
    }
    assert(av.subrange(0, av.len() as int) =~= av);
}

fn deeper(indent: &String) -> (r: String)
    ensures
        r@ == indent@ + step(),
{
    let mut r = indent.clone();
    put(&mut r, "    ");
    r
}

fn write_field(out: &mut String, f: &SchemataField, indent: &String)
    ensures
        final(out)@ == old(out)@ + field_text(f@, indent@),
    decreases f,
{
    let ghost start = out@;
    put(out, indent.as_str());
    put(out, f.name.as_str());
    put(out, " ");
    put(out, f.type_ref.as_str());
    write_trailing_annotations(out, &f.annotations);
    let ghost mid = out@;
    match &f.inline_schema {
        Some(r) => {
            put(out, " {\n");
            write_fields(out, &r.fields, &deeper(indent));
            put(out, indent.as_str());
            put(out, "}");
        },
        None => {},
    }
    put(out, "\n");
    assert(out@ =~= start + field_text(f@, indent@));
}

fn write_fields(out: &mut String, fs: &Vec<SchemataField>, indent: &String)
    ensures
        final(out)@ == old(out)@ + fields_text(fields_view(fs@), indent@),
    decreases fs,
{
    let ghost start = out@;
    let ghost fv = fields_view(fs@);
    proof {
        lemma_fields_view(fs@);
    }
    let mut i: usize = 0;
    assert(fv.subrange(0, 0) =~= Seq::<FieldModel>::empty());
    while i < fs.len()
        invariant
            i <= fs.len(),
            fv == fields_view(fs@),
            fv.len() == fs.len(),
            forall|j: int| 0 <= j < fs.len() ==> #[trigger] fv[j] == field_view(fs@[j]),
            out@ == start + fields_text(fv.subrange(0, i as int), indent@),
        decreases fs.len() - i,
    {
        write_field(out, &fs[i], indent);
        proof {
            assert(fv.subrange(0, i + 1).drop_last() =~= fv.subrange(0, i as int));
            assert(out@ =~= start + fields_text(fv.subrange(0, i + 1), indent@));
        }
        i = i + 1;
    }
    assert(fv.subrange(0, fv.len() as int) =~= fv);
}

fn write_record(out: &mut String, r: &SchemataSchema, indent: &String)
    ensures
        final(out)@ == old(out)@ + record_text(r@, indent@),
{
    let ghost start = out@;
    if r.annotations.len() > 0 {
        let mut line = String::new();
        write_trailing_annotations(&mut line, &r.annotations);
        let cs = crate::text::chars_of(line.as_str());
        put(out, indent.as_str());
        proof {
            let av = annotations_view(r.annotations@);
            assert(av.len() > 0);
            assert(trailing_annotations(av) == trailing_annotations(av.drop_last()) + " "@ + annotation_text(av.last()));
            assert(trailing_annotations(av).len() > 0) by {
                reveal_strlit(" ");
            }
        }
        put(out, string_of(&cs, 1, cs.len()).as_str());
        assert(cs@.subrange(1, cs.len() as int) =~= cs@.drop_first());
        put(out, "\n");
    }
    put(out, indent.as_str());
    put(out, "schema ");
    put(out, r.name.as_str());
    put(out, " {\n");
    write_fields(out, &r.fields, &deeper(indent));
    put(out, indent.as_str());
    put(out, "}\n");
    assert(out@ =~= start + record_text(r@, indent@));
}

fn write_enum(out: &mut String, e: &SchemataEnum, indent: &String)
    ensures
        final(out)@ == old(out)@ + enum_text(e@, indent@),
{
    let ghost start = out@;
    put(out, indent.as_str());
    put(out, "enum ");
    put(out, e.name.as_str());
    put(out, " {\n");
    let inner = deeper(indent);
    let ghost mid = out@;
    let ghost vs = e.values.deep_view();
    let mut i: usize = 0;
    assert(vs.subrange(0, 0) =~= Seq::<Seq<char>>::empty());
    while i < e.values.len()
        invariant
            i <= e.values.len(),
            vs == e.values.deep_view(),
            out@ == mid + values_text(vs.subrange(0, i as int), inner@),
        decreases e.values.len() - i,
    {
        put(out, inner.as_str());
        put(out, e.values[i].as_str());
        put(out, "\n");
        proof {
            assert(vs.subrange(0, i + 1).drop_last() =~= vs.subrange(0, i as int));
            assert(out@ =~= mid + values_text(vs.subrange(0, i + 1), inner@));
        }
        i = i + 1;
    }
    assert(vs.subrange(0, vs.len() as int) =~= vs);
    put(out, indent.as_str());
    put(out, "}\n");
    assert(out@ =~= start + enum_text(e@, indent@));
}

fn write_namespace(out: &mut String, n: &SchemataNamespace)
    ensures
        final(out)@ == old(out)@ + namespace_text(n@),
{
    let ghost start = out@;
    put(out, "namespace ");
    put(out, n.name.as_str());
    put(out, " {\n");
    let indent = text("    ");
    let ghost m1 = out@;
    let ghost rs = n@.schemas;
    let mut i: usize = 0;
    assert(rs.subrange(0, 0) =~= Seq::<RecordModel>::empty());
    while i < n.schemas.len()
        invariant
            i <= n.schemas.len(),
            rs == n@.schemas,
            indent@ == step(),
            out@ == m1 + records_text(rs.subrange(0, i as int), step()),
        decreases n.schemas.len() - i,
    {
        write_record(out, &n.schemas[i], &indent);
        proof {
            assert(rs.subrange(0, i + 1).drop_last() =~= rs.subrange(0, i as int));
            assert(out@ =~= m1 + records_text(rs.subrange(0, i + 1), step()));
        }
        i = i + 1;
    }
    assert(rs.subrange(0, rs.len() as int) =~= rs);
    let ghost m2 = out@;
    let ghost es = n@.enums;
    let mut j: usize = 0;
    assert(es.subrange(0, 0) =~= Seq::<EnumModel>::empty());
    while j < n.enums.len()
        invariant
            j <= n.enums.len(),
            es == n@.enums,
            indent@ == step(),
            out@ == m2 + enums_text(es.subrange(0, j as int), step()),
        decreases n.enums.len() - j,
    {
        write_enum(out, &n.enums[j], &indent);
        proof {
            assert(es.subrange(0, j + 1).drop_last() =~= es.subrange(0, j as int));
            assert(out@ =~= m2 + enums_text(es.subrange(0, j + 1), step()));
        }
        j = j + 1;
    }
    assert(es.subrange(0, es.len() as int) =~= es);
    put(out, "}\n");
    assert(out@ =~= start + namespace_text(n@));
}

impl XsdToSchemataGenerator {
    /// Renders the XSD document `xsd_schema` as Schemata source text: one namespace, named
    /// after the target namespace (`default` when there is none), holding a record type per
    /// complex type and an enumeration per restricted simple type.
    pub fn generate(&self, xsd_schema: XsdSchema) -> (r: Result<String, GenerationError>)
        ensures
            r matches Ok(x) && x@ == schemata_text(xsd_schema@),
    {
        let namespaces = self.get_namespaces(&xsd_schema);
        let mut out = String::new();
        let ghost nv = namespaces@.map_values(|n: SchemataNamespace| n@);
        assert(nv.len() == 1);
        assert(namespaces.len() == 1);
        assert(nv[0] == namespace_of(xsd_schema@));
        write_namespace(&mut out, &namespaces[0]);
        Ok(out)
    }
}

} // verus!
