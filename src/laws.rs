//! Properties that relate the readers and writers, proved over their specifications.
use vstd::prelude::*;
use crate::schemata_types::{EnumModel, FieldModel, NamespaceModel, RecordModel};
use crate::to_xsd::{
    close_tag, complex_type_xml, document_xml, enumerations_xml, enums_xml, field_attrs, field_xml,
    fields_xml, namespaces_xml, open_tag, records_xml, schema_attrs, simple_type_xml,
};
use crate::xml::{tag_text, TagKind};
use crate::schemata_parser::{annotation_at, char_at, param_at, params_scan, scan_while, skip_ws, CharClass};
use crate::text::{keys_unique, lemma_assoc_insert_unique, assoc_insert};

verus! {

/// A top-level block of a Schemata document.
pub ghost enum Block {
    Record(RecordModel),
    Enumeration(EnumModel),
}

/// The blocks of a namespace: its record types, then its enumerations.
pub open spec fn namespace_blocks(n: NamespaceModel) -> Seq<Block> {
    n.schemas.map_values(|r: RecordModel| Block::Record(r)) + n.enums.map_values(|e: EnumModel| Block::Enumeration(e))
}

/// The blocks of a document, namespace by namespace.
pub open spec fn file_blocks(ns: Seq<NamespaceModel>) -> Seq<Block>
    decreases ns.len(),
{
    if ns.len() == 0 {
        Seq::empty()
    } else {
        file_blocks(ns.drop_last()) + namespace_blocks(ns.last())
    }
}

/// The XSD type definition of one block.
pub open spec fn block_xml(b: Block) -> Seq<char> {
    match b {
        Block::Record(r) => complex_type_xml(r),
        Block::Enumeration(e) => simple_type_xml(e),
    }
}

pub open spec fn blocks_xml(bs: Seq<Block>) -> Seq<char>
    decreases bs.len(),
{
    if bs.len() == 0 {
        Seq::empty()
    } else {
        blocks_xml(bs.drop_last()) + block_xml(bs.last())
    }
}

proof fn lemma_blocks_xml_append(a: Seq<Block>, b: Seq<Block>)
    ensures
        blocks_xml(a + b) == blocks_xml(a) + blocks_xml(b),
    decreases b.len(),
{
    if b.len() == 0 {
        assert(a + b =~= a);
    } else {
        lemma_blocks_xml_append(a, b.drop_last());
        assert((a + b).drop_last() =~= a + b.drop_last());
        assert(blocks_xml(a) + blocks_xml(b.drop_last()) + block_xml(b.last()) =~= blocks_xml(a) + blocks_xml(b));
    }
}

proof fn lemma_records_are_blocks(rs: Seq<RecordModel>)
    ensures
        records_xml(rs) == blocks_xml(rs.map_values(|r: RecordModel| Block::Record(r))),
    decreases rs.len(),
{
    if rs.len() > 0 {
        lemma_records_are_blocks(rs.drop_last());
        assert(rs.map_values(|r: RecordModel| Block::Record(r)).drop_last() =~= rs.drop_last().map_values(|r: RecordModel| Block::Record(r)));
    } else {
        assert(rs.map_values(|r: RecordModel| Block::Record(r)) =~= Seq::<Block>::empty());
    }
}

proof fn lemma_enums_are_blocks(es: Seq<EnumModel>)
    ensures
        enums_xml(es) == blocks_xml(es.map_values(|e: EnumModel| Block::Enumeration(e))),
    decreases es.len(),
{
    if es.len() > 0 {
        lemma_enums_are_blocks(es.drop_last());
        assert(es.map_values(|e: EnumModel| Block::Enumeration(e)).drop_last() =~= es.drop_last().map_values(|e: EnumModel| Block::Enumeration(e)));
    } else {
        assert(es.map_values(|e: EnumModel| Block::Enumeration(e)) =~= Seq::<Block>::empty());
    }
}

proof fn lemma_namespaces_are_blocks(ns: Seq<NamespaceModel>)
    ensures
        namespaces_xml(ns) == blocks_xml(file_blocks(ns)),
    decreases ns.len(),
{
    if ns.len() > 0 {
        let n = ns.last();
        lemma_namespaces_are_blocks(ns.drop_last());
        lemma_records_are_blocks(n.schemas);
        lemma_enums_are_blocks(n.enums);
        let rb = n.schemas.map_values(|r: RecordModel| Block::Record(r));
        let eb = n.enums.map_values(|e: EnumModel| Block::Enumeration(e));
        lemma_blocks_xml_append(rb, eb);
        lemma_blocks_xml_append(file_blocks(ns.drop_last()), rb + eb);
        assert(blocks_xml(file_blocks(ns.drop_last())) + (blocks_xml(rb) + blocks_xml(eb))
            =~= blocks_xml(file_blocks(ns.drop_last())) + blocks_xml(rb) + blocks_xml(eb));
    }
}

/// The XSD generated for a Schemata document is its `xs:schema` start tag, then one
/// definition per top-level block in source order (a complex type for each record type and
/// a simple type for each enumeration, namespace by namespace), then the end tag; each
/// complex type holds the elements of its record's fields in source order.
pub proof fn law_one_definition_per_block(file: Seq<NamespaceModel>, target: Seq<char>)
    ensures
        document_xml(file, target) == open_tag("xs:schema"@, schema_attrs(target)) + blocks_xml(file_blocks(file))
            + close_tag("xs:schema"@),
        forall|r: RecordModel| #[trigger] complex_type_xml(r) == open_tag("xs:complexType"@, seq![("name"@, r.name)])
            + open_tag("xs:sequence"@, Seq::empty()) + fields_xml(r.fields) + close_tag("xs:sequence"@)
            + close_tag("xs:complexType"@),
        forall|a: Seq<FieldModel>, b: Seq<FieldModel>| #[trigger] fields_xml(a + b) == fields_xml(a) + fields_xml(b),
{
    lemma_namespaces_are_blocks(file);
    assert forall|a: Seq<FieldModel>, b: Seq<FieldModel>| #[trigger] fields_xml(a + b) == fields_xml(a) + fields_xml(b) by {
        lemma_fields_xml_append(a, b);
    }
}

proof fn lemma_fields_xml_append(a: Seq<FieldModel>, b: Seq<FieldModel>)
    ensures
        fields_xml(a + b) == fields_xml(a) + fields_xml(b),
    decreases b.len(),
{
    if b.len() == 0 {
        assert(a + b =~= a);
    } else {
        lemma_fields_xml_append(a, b.drop_last());
        assert((a + b).drop_last() =~= a + b.drop_last());
        assert(fields_xml(a) + fields_xml(b.drop_last()) + field_xml(b.last()) =~= fields_xml(a) + fields_xml(b));
    }
}

/// The element of a nullable field carries `minOccurs="0"`; that of a field that is not
/// nullable carries no `minOccurs` attribute.
pub proof fn law_nullable_min_occurs(f: FieldModel)
    ensures
        f.nullable ==> field_attrs(f).contains(("minOccurs"@, "0"@)),
        !f.nullable ==> forall|i: int| 0 <= i < field_attrs(f).len() ==> (#[trigger] field_attrs(f)[i]).0 != "minOccurs"@,
{
    reveal_strlit("minOccurs");
    reveal_strlit("maxOccurs");
    reveal_strlit("name");
    reveal_strlit("type");
    assert("minOccurs"@ != "maxOccurs"@ && "minOccurs"@ != "name"@ && "minOccurs"@ != "type"@) by {
        assert("minOccurs"@[1] != "maxOccurs"@[1]);
    }
    let a = field_attrs(f);
    if f.nullable {
        let base = seq![("name"@, f.name)];
        let typed = if f.inline_schema is Some { base } else { base.push(("type"@, crate::to_xsd::xsd_type(f.type_ref))) };
        let nulled = typed.push(("minOccurs"@, "0"@));
        assert(a[typed.len() as int] == ("minOccurs"@, "0"@));
    }
}

/// The enumeration facets of values `a` followed by values `b` are those of `a` followed by
/// those of `b`: the facets keep the order of the values.
pub proof fn law_enumeration_order(a: Seq<Seq<char>>, b: Seq<Seq<char>>)
    ensures
        enumerations_xml(a + b) == enumerations_xml(a) + enumerations_xml(b),
    decreases b.len(),
{
    if b.len() == 0 {
        assert(a + b =~= a);
    } else {
        law_enumeration_order(a, b.drop_last());
        assert((a + b).drop_last() =~= a + b.drop_last());
        let t = tag_text(TagKind::SelfClosing, "xs:enumeration"@, seq![("value"@, b.last())]);
        assert(enumerations_xml(a) + enumerations_xml(b.drop_last()) + t =~= enumerations_xml(a) + enumerations_xml(b));
    }
}

/// A field with an inline record type becomes an element without a `type` attribute that
/// wraps an anonymous complex type and sequence holding the elements of the inline fields,
/// each of them written by the same rule, to any depth.
pub proof fn law_inline_nesting(f: FieldModel)
    requires
        f.inline_schema is Some,
    ensures
        field_xml(f) == open_tag("xs:element"@, field_attrs(f)) + open_tag("xs:complexType"@, Seq::empty())
            + open_tag("xs:sequence"@, Seq::empty()) + fields_xml(f.inline_schema->Some_0.fields)
            + close_tag("xs:sequence"@) + close_tag("xs:complexType"@) + close_tag("xs:element"@),
        forall|i: int| 0 <= i < field_attrs(f).len() ==> (#[trigger] field_attrs(f)[i]).0 != "type"@,
{
    reveal_strlit("minOccurs");
    reveal_strlit("maxOccurs");
    reveal_strlit("name");
    reveal_strlit("type");
    assert("type"@ != "maxOccurs"@ && "type"@ != "name"@ && "type"@ != "minOccurs"@) by {
        assert("type"@.len() != "maxOccurs"@.len());
        assert("type"@[0] != "name"@[0]);
        assert("type"@.len() != "minOccurs"@.len());
    }
}

proof fn lemma_params_scan_unique(s: Seq<char>, i: int, acc: Seq<(Seq<char>, crate::schemata_types::ValueModel)>)
    requires
        keys_unique(acc),
    ensures
        params_scan(s, i, acc) matches Ok((ps, _)) ==> keys_unique(ps),
    decreases s.len() - i,
{
    match param_at(s, skip_ws(s, i)) {
        Ok((p, k)) => {
            lemma_assoc_insert_unique(acc, p.0, p.1);
            let m = skip_ws(s, k);
            if char_at(s, m, ',') && i <= m {
                lemma_params_scan_unique(s, m + 1, assoc_insert(acc, p.0, p.1));
            }
        },
        Err(_) => {},
    }
}

/// The parameters of an annotation read from source text have distinct keys: a key written
/// twice keeps one entry.
pub proof fn law_annotation_keys_unique(s: Seq<char>, i: int)
    ensures
        annotation_at(s, i) matches Ok((a, _)) ==> keys_unique(a.params),
{
    let e = scan_while(s, i + 1, CharClass::Word);
    lemma_params_scan_unique(s, e + 1, Seq::empty());
}

} // verus!
