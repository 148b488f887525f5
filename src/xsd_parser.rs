//! The XSD reader: from XML events to the XSD document model, in one forward pass.
use vstd::prelude::*;
use crate::text::{keys_unique, assoc_insert, assoc_put, chars_at, chars_of, entries_view, parse_count, string_of, parse_usize, split_on_whitespace, text_is, whitespace_words};
use crate::xml::{document_events, tokenize, unescape, unescaped, ReadFailure, XmlError, XmlTag, XmlToken};
use crate::xsd_types::{
    element_view, elements_view, lemma_elements_view, lemma_elements_view_push, AttributeModel, ComplexTypeModel, ElementModel,
    RestrictionModel, SchemaModel, SimpleTypeModel, XsdAttribute, XsdComplexType, XsdElement,
    XsdRestriction, XsdSchema, XsdSimpleType,
};

verus! {

broadcast use {vstd::seq::axiom_seq_index_decreases, vstd::seq::axiom_seq_subrange_decreases, vstd::std_specs::vec::axiom_vec_decreases_to_view};

/// The construct that was being read when the document ended.
#[derive(Clone, Copy, Debug, PartialEq, Eq, Structural)]
pub enum XsdConstruct {
    Element,
    ComplexType,
    Sequence,
    SimpleType,
    Restriction,
    /// The document as a whole: a top-level tag is still open.
    Document,
}

/// Why an XSD document could not be read.
#[derive(Debug)]
pub enum XsdParseError {
    /// The XML is not well-formed: quick-xml's description of the problem.
    Malformed(String),
    /// The XML reader produced more events than the document has bytes.
    Runaway,
    /// The document ended inside a construct.
    UnexpectedEnd(XsdConstruct),
}

/// Reads XSD documents.
pub struct XsdParser;

// ---------------------------------------------------------------- attributes

/// Whether an attribute written `key` is the attribute `name`, unqualified or with a prefix.
pub open spec fn key_matches(key: Seq<char>, name: Seq<char>) -> bool {
    key == name || (key.len() > name.len() && key[key.len() - name.len() - 1] == ':'
        && key.subrange(key.len() - name.len(), key.len() as int) == name)
}

/// The unescaped value of the first attribute among `attrs` that is `name` and whose value
/// unescapes.
pub open spec fn find_attribute(attrs: Seq<(String, String)>, name: Seq<char>) -> Option<Seq<char>>
    decreases attrs.len(),
{
    if attrs.len() == 0 {
        None
    } else if key_matches(attrs[0].0@, name) && unescaped(attrs[0].1@) is Some {
        unescaped(attrs[0].1@)
    } else {
        find_attribute(attrs.drop_first(), name)
    }
}

pub open spec fn attribute_of(tag: XmlTag, name: Seq<char>) -> Option<Seq<char>> {
    find_attribute(tag.attributes@, name)
}

pub open spec fn or_empty(v: Option<Seq<char>>) -> Seq<char> {
    match v {
        Some(s) => s,
        None => Seq::empty(),
    }
}

// ---------------------------------------------------------------- headers

/// An element as its tag declares it, before any content is read.
pub open spec fn element_header(tag: XmlTag) -> ElementModel {
    ElementModel {
        name: or_empty(attribute_of(tag, "name"@)),
        type_ref: attribute_of(tag, "type"@),
        min_occurs: attribute_of(tag, "minOccurs"@),
        max_occurs: attribute_of(tag, "maxOccurs"@),
        complex_type: None,
        simple_type: None,
        comment: None,
    }
}

pub open spec fn attribute_model(tag: XmlTag) -> AttributeModel {
    AttributeModel {
        name: or_empty(attribute_of(tag, "name"@)),
        type_ref: or_empty(attribute_of(tag, "type"@)),
        use_type: or_empty(attribute_of(tag, "use"@)),
        default: attribute_of(tag, "default"@),
        fixed: attribute_of(tag, "fixed"@),
    }
}

pub open spec fn complex_type_header(tag: XmlTag) -> ComplexTypeModel {
    ComplexTypeModel {
        name: attribute_of(tag, "name"@),
        sequence: Seq::empty(),
        attributes: Seq::empty(),
        mixed: attribute_of(tag, "mixed"@) == Some("true"@),
    }
}

pub open spec fn simple_type_header(tag: XmlTag) -> SimpleTypeModel {
    SimpleTypeModel { name: attribute_of(tag, "name"@), restriction: None, list: None, union: None }
}

pub open spec fn restriction_header(tag: XmlTag) -> RestrictionModel {
    RestrictionModel {
        base: or_empty(attribute_of(tag, "base"@)),
        enumeration: Seq::empty(),
        pattern: None,
        min_inclusive: None,
        max_inclusive: None,
        min_exclusive: None,
        max_exclusive: None,
        length: None,
        min_length: None,
        max_length: None,
        total_digits: None,
        fraction_digits: None,
    }
}

pub open spec fn count_of(v: Option<Seq<char>>) -> Option<usize> {
    match v {
        Some(s) => parse_usize(s),
        None => None,
    }
}

/// A restriction after one self-closing facet tag.
pub open spec fn apply_facet(r: RestrictionModel, t: XmlTag) -> RestrictionModel {
    let v = attribute_of(t, "value"@);
    let n = t.name@;
    if n == "enumeration"@ {
        match v {
            Some(x) => RestrictionModel { enumeration: r.enumeration.push(x), ..r },
            None => r,
        }
    } else if n == "pattern"@ {
        RestrictionModel { pattern: v, ..r }
    } else if n == "minInclusive"@ {
        RestrictionModel { min_inclusive: v, ..r }
    } else if n == "maxInclusive"@ {
        RestrictionModel { max_inclusive: v, ..r }
    } else if n == "minExclusive"@ {
        RestrictionModel { min_exclusive: v, ..r }
    } else if n == "maxExclusive"@ {
        RestrictionModel { max_exclusive: v, ..r }
    } else if n == "length"@ {
        RestrictionModel { length: count_of(v), ..r }
    } else if n == "minLength"@ {
        RestrictionModel { min_length: count_of(v), ..r }
    } else if n == "maxLength"@ {
        RestrictionModel { max_length: count_of(v), ..r }
    } else if n == "totalDigits"@ {
        RestrictionModel { total_digits: count_of(v), ..r }
    } else if n == "fractionDigits"@ {
        RestrictionModel { fraction_digits: count_of(v), ..r }
    } else {
        r
    }
}

/// A simple type after a `list` or `union` tag; others leave it as it is.
pub open spec fn apply_variety(st: SimpleTypeModel, t: XmlTag) -> SimpleTypeModel {
    if t.name@ == "list"@ {
        SimpleTypeModel { list: attribute_of(t, "itemType"@), ..st }
    } else if t.name@ == "union"@ {
        SimpleTypeModel {
            union: match attribute_of(t, "memberTypes"@) {
                Some(m) => Some(whitespace_words(m)),
                None => None,
            },
            ..st
        }
    } else {
        st
    }
}

// ---------------------------------------------------------------- nested constructs

/// Reads an element whose start tag `tag` stands just before `pos`. An element with a
/// `type` reads nothing more; otherwise the events are read up to its anonymous complex
/// type, or up to its end tag. The result holds the position after what was read.
pub open spec fn element_spec(ts: Seq<XmlToken>, tag: XmlTag, pos: int) -> Result<(ElementModel, int), XsdParseError>
    decreases ts.len() - pos, 1int,
{
    let e = element_header(tag);
    if e.type_ref is Some {
        Ok((e, pos))
    } else {
        element_scan(ts, e, pos, 0)
    }
}

/// The rest of an element from `pos`, inside `depth` other tags still open: an anonymous
/// complex type ends the reading, and so does the element's own end tag.
pub open spec fn element_scan(ts: Seq<XmlToken>, e: ElementModel, pos: int, depth: nat) -> Result<(ElementModel, int), XsdParseError>
    decreases ts.len() - pos, 0int,
{
    if pos < 0 || pos >= ts.len() {
        Err(XsdParseError::UnexpectedEnd(XsdConstruct::Element))
    } else {
        match ts[pos] {
            XmlToken::Start(t) => if depth == 0 && t.name@ == "complexType"@ {
                match complex_type_spec(ts, t, pos + 1) {
                    Ok((ct, p)) => Ok((ElementModel { complex_type: Some(ct), ..e }, p)),
                    Err(x) => Err(x),
                }
            } else {
                element_scan(ts, e, pos + 1, depth + 1)
            },
            XmlToken::Empty(t) => if depth == 0 && t.name@ == "complexType"@ {
                Ok((ElementModel { complex_type: Some(complex_type_header(t)), ..e }, pos + 1))
            } else {
                element_scan(ts, e, pos + 1, depth)
            },
            XmlToken::End(n) => if depth > 0 {
                element_scan(ts, e, pos + 1, (depth - 1) as nat)
            } else if n@ == "element"@ {
                Ok((e, pos + 1))
            } else {
                element_scan(ts, e, pos + 1, depth)
            },
            XmlToken::Eof => Err(XsdParseError::UnexpectedEnd(XsdConstruct::Element)),
            XmlToken::Other => element_scan(ts, e, pos + 1, depth),
        }
    }
}

/// Reads a complex type whose start tag `tag` stands just before `pos`, up to its end tag.
pub open spec fn complex_type_spec(ts: Seq<XmlToken>, tag: XmlTag, pos: int) -> Result<(ComplexTypeModel, int), XsdParseError>
    decreases ts.len() - pos, 1int,
{
    complex_scan(ts, complex_type_header(tag), pos, 0)
}

/// The rest of a complex type from `pos`, inside `depth` other tags still open, up to its
/// own end tag.
pub open spec fn complex_scan(ts: Seq<XmlToken>, ct: ComplexTypeModel, pos: int, depth: nat) -> Result<(ComplexTypeModel, int), XsdParseError>
    decreases ts.len() - pos, 0int,
{
    if pos < 0 || pos >= ts.len() {
        Err(XsdParseError::UnexpectedEnd(XsdConstruct::ComplexType))
    } else {
        match ts[pos] {
            XmlToken::Start(t) => if depth == 0 && t.name@ == "sequence"@ {
                match sequence_scan(ts, Seq::empty(), pos + 1, 0, 0) {
                    Ok((els, p)) => if pos < p && p <= ts.len() {
                        complex_scan(ts, ComplexTypeModel { sequence: els, ..ct }, p, depth)
                    } else {
                        Err(XsdParseError::UnexpectedEnd(XsdConstruct::ComplexType))
                    },
                    Err(x) => Err(x),
                }
            } else if depth == 0 && t.name@ == "attribute"@ {
                complex_scan(ts, ComplexTypeModel { attributes: ct.attributes.push(attribute_model(t)), ..ct }, pos + 1, depth + 1)
            } else {
                complex_scan(ts, ct, pos + 1, depth + 1)
            },
            XmlToken::Empty(t) => if depth == 0 && t.name@ == "attribute"@ {
                complex_scan(ts, ComplexTypeModel { attributes: ct.attributes.push(attribute_model(t)), ..ct }, pos + 1, depth)
            } else {
                complex_scan(ts, ct, pos + 1, depth)
            },
            XmlToken::End(n) => if depth > 0 {
                complex_scan(ts, ct, pos + 1, (depth - 1) as nat)
            } else if n@ == "complexType"@ {
                Ok((ct, pos + 1))
            } else {
                complex_scan(ts, ct, pos + 1, depth)
            },
            XmlToken::Eof => Err(XsdParseError::UnexpectedEnd(XsdConstruct::ComplexType)),
            XmlToken::Other => complex_scan(ts, ct, pos + 1, depth),
        }
    }
}

/// Whether reading an element also read its end tag: it has neither a `type` nor an
/// anonymous complex type.
pub open spec fn end_read(e: ElementModel) -> bool {
    e.type_ref is None && e.complex_type is None
}

/// Reads the elements of a sequence from `pos` up to the `sequence` end tag met when as
/// many other end tags as start tags whose end tag is still ahead (`opens`, `closes`) have
/// been seen.
pub open spec fn sequence_scan(ts: Seq<XmlToken>, acc: Seq<ElementModel>, pos: int, opens: nat, closes: nat) -> Result<(Seq<ElementModel>, int), XsdParseError>
    decreases ts.len() - pos, 0int,
{
    if pos < 0 || pos >= ts.len() {
        Err(XsdParseError::UnexpectedEnd(XsdConstruct::Sequence))
    } else {
        match ts[pos] {
            XmlToken::Start(t) => if t.name@ == "element"@ {
                match element_spec(ts, t, pos + 1) {
                    Ok((e, p)) => if pos < p && p <= ts.len() {
                        sequence_scan(ts, acc.push(e), p, if end_read(e) { opens } else { opens + 1 }, closes)
                    } else {
                        Err(XsdParseError::UnexpectedEnd(XsdConstruct::Sequence))
                    },
                    Err(x) => Err(x),
                }
            } else {
                sequence_scan(ts, acc, pos + 1, opens + 1, closes)
            },
            XmlToken::Empty(t) => if t.name@ == "element"@ {
                sequence_scan(ts, acc.push(element_header(t)), pos + 1, opens, closes)
            } else {
                sequence_scan(ts, acc, pos + 1, opens, closes)
            },
            XmlToken::End(n) => if opens == closes && n@ == "sequence"@ {
                Ok((acc, pos + 1))
            } else {
                sequence_scan(ts, acc, pos + 1, opens, closes + 1)
            },
            XmlToken::Eof => Err(XsdParseError::UnexpectedEnd(XsdConstruct::Sequence)),
            XmlToken::Other => sequence_scan(ts, acc, pos + 1, opens, closes),
        }
    }
}

/// Reads a simple type whose start tag `tag` stands just before `pos`, up to its end tag.
pub open spec fn simple_type_spec(ts: Seq<XmlToken>, tag: XmlTag, pos: int) -> Result<(SimpleTypeModel, int), XsdParseError>
    decreases ts.len() - pos, 1int,
{
    simple_scan(ts, simple_type_header(tag), pos, 0)
}

/// The rest of a simple type from `pos`, inside `depth` other tags still open, up to its
/// own end tag.
pub open spec fn simple_scan(ts: Seq<XmlToken>, st: SimpleTypeModel, pos: int, depth: nat) -> Result<(SimpleTypeModel, int), XsdParseError>
    decreases ts.len() - pos, 0int,
{
    if pos < 0 || pos >= ts.len() {
        Err(XsdParseError::UnexpectedEnd(XsdConstruct::SimpleType))
    } else {
        match ts[pos] {
            XmlToken::Start(t) => if depth == 0 && t.name@ == "restriction"@ {
                match restriction_spec(ts, t, pos + 1) {
                    Ok((r, p)) => if pos < p && p <= ts.len() {
                        simple_scan(ts, SimpleTypeModel { restriction: Some(r), ..st }, p, depth)
                    } else {
                        Err(XsdParseError::UnexpectedEnd(XsdConstruct::SimpleType))
                    },
                    Err(x) => Err(x),
                }
            } else if depth == 0 {
                simple_scan(ts, apply_variety(st, t), pos + 1, depth + 1)
            } else {
                simple_scan(ts, st, pos + 1, depth + 1)
            },
            XmlToken::Empty(t) => if depth == 0 && t.name@ == "restriction"@ {
                simple_scan(ts, SimpleTypeModel { restriction: Some(restriction_header(t)), ..st }, pos + 1, depth)
            } else if depth == 0 {
                simple_scan(ts, apply_variety(st, t), pos + 1, depth)
            } else {
                simple_scan(ts, st, pos + 1, depth)
            },
            XmlToken::End(n) => if depth > 0 {
                simple_scan(ts, st, pos + 1, (depth - 1) as nat)
            } else if n@ == "simpleType"@ {
                Ok((st, pos + 1))
            } else {
                simple_scan(ts, st, pos + 1, depth)
            },
            XmlToken::Eof => Err(XsdParseError::UnexpectedEnd(XsdConstruct::SimpleType)),
            XmlToken::Other => simple_scan(ts, st, pos + 1, depth),
        }
    }
}

/// Reads the facets of a restriction whose start tag `tag` stands just before `pos`.
pub open spec fn restriction_spec(ts: Seq<XmlToken>, tag: XmlTag, pos: int) -> Result<(RestrictionModel, int), XsdParseError>
    decreases ts.len() - pos, 1int,
{
    restriction_scan(ts, restriction_header(tag), pos, 0)
}

/// The rest of a restriction from `pos`, inside `depth` other tags still open, up to its
/// own end tag; the facets are its self-closing children.
pub open spec fn restriction_scan(ts: Seq<XmlToken>, r: RestrictionModel, pos: int, depth: nat) -> Result<(RestrictionModel, int), XsdParseError>
    decreases ts.len() - pos, 0int,
{
    if pos < 0 || pos >= ts.len() {
        Err(XsdParseError::UnexpectedEnd(XsdConstruct::Restriction))
    } else {
        match ts[pos] {
            XmlToken::Start(_) => restriction_scan(ts, r, pos + 1, depth + 1),
            XmlToken::Empty(t) => if depth == 0 {
                restriction_scan(ts, apply_facet(r, t), pos + 1, depth)
            } else {
                restriction_scan(ts, r, pos + 1, depth)
            },
            XmlToken::End(n) => if depth > 0 {
                restriction_scan(ts, r, pos + 1, (depth - 1) as nat)
            } else if n@ == "restriction"@ {
                Ok((r, pos + 1))
            } else {
                restriction_scan(ts, r, pos + 1, depth)
            },
            XmlToken::Eof => Err(XsdParseError::UnexpectedEnd(XsdConstruct::Restriction)),
            XmlToken::Other => restriction_scan(ts, r, pos + 1, depth),
        }
    }
}


// ---------------------------------------------------------------- the document

/// The prefix that an attribute key `xmlns:p` declares: what stands after `xmlns:`, up to
/// the next colon.
pub open spec fn xmlns_prefix(key: Seq<char>) -> Option<Seq<char>> {
    if key.len() >= 6 && key.subrange(0, 6) == seq!['x', 'm', 'l', 'n', 's', ':'] {
        let rest = key.subrange(6, key.len() as int);
        Some(rest.subrange(0, first_colon(rest) as int))
    } else {
        None
    }
}

pub open spec fn first_colon(s: Seq<char>) -> nat
    decreases s.len(),
{
    if s.len() == 0 || s[0] == ':' {
        0
    } else {
        1 + first_colon(s.drop_first())
    }
}

/// The namespace map after the `xmlns:` declarations among `attrs` whose value unescapes,
/// in order.
pub open spec fn declare_prefixes(m: Seq<(Seq<char>, Seq<char>)>, attrs: Seq<(String, String)>) -> Seq<(Seq<char>, Seq<char>)>
    decreases attrs.len(),
{
    if attrs.len() == 0 {
        m
    } else {
        let m1 = match (xmlns_prefix(attrs[0].0@), unescaped(attrs[0].1@)) {
            (Some(p), Some(v)) => assoc_insert(m, p, v),
            _ => m,
        };
        declare_prefixes(m1, attrs.drop_first())
    }
}

/// What the reader holds between events: the document so far, and the top-level elements
/// whose end tag has not come yet.
pub ghost struct ReaderState {
    pub schema: SchemaModel,
    pub stack: Seq<ElementModel>,
    /// The other top-level start tags whose end tag has not come yet.
    pub depth: nat,
}

/// The result when the events run out in state `st`: the document, unless a tag is
/// still open.
pub open spec fn finish(st: ReaderState) -> Result<SchemaModel, XsdParseError> {
    if st.depth > 0 || st.stack.len() > 0 {
        Err(XsdParseError::UnexpectedEnd(XsdConstruct::Document))
    } else {
        Ok(st.schema)
    }
}

pub open spec fn empty_schema() -> SchemaModel {
    SchemaModel {
        target_namespace: None,
        elements: Seq::empty(),
        complex_types: Seq::empty(),
        simple_types: Seq::empty(),
        namespaces: Seq::empty(),
        imported_schemas: Seq::empty(),
        unhandled: Seq::empty(),
    }
}

/// A complex type met at the top level: kept when named, else given to the innermost
/// open element, else dropped.
pub open spec fn place_complex_type(st: ReaderState, ct: ComplexTypeModel) -> ReaderState {
    if ct.name is Some {
        ReaderState { schema: SchemaModel { complex_types: st.schema.complex_types.push(ct), ..st.schema }, ..st }
    } else if st.stack.len() > 0 {
        ReaderState {
            stack: st.stack.update(st.stack.len() - 1, ElementModel { complex_type: Some(ct), ..st.stack.last() }),
            ..st
        }
    } else {
        st
    }
}

pub open spec fn note_import(st: ReaderState, t: XmlTag) -> ReaderState {
    match attribute_of(t, "schemaLocation"@) {
        Some(l) => ReaderState {
            schema: SchemaModel { imported_schemas: st.schema.imported_schemas.push(l), ..st.schema },
            ..st
        },
        None => st,
    }
}

pub open spec fn is_import(n: Seq<char>) -> bool {
    n == "include"@ || n == "import"@
}

/// The document read from the events `ts[pos..]` in state `st`.
pub open spec fn document_scan(ts: Seq<XmlToken>, st: ReaderState, pos: int) -> Result<SchemaModel, XsdParseError>
    decreases ts.len() - pos,
{
    if pos < 0 || pos >= ts.len() {
        finish(st)
    } else {
        match ts[pos] {
            XmlToken::Start(t) => if t.name@ == "schema"@ {
                let schema = SchemaModel {
                    target_namespace: attribute_of(t, "targetNamespace"@),
                    namespaces: declare_prefixes(st.schema.namespaces, t.attributes@),
                    ..st.schema
                };
                document_scan(ts, ReaderState { schema, depth: st.depth + 1, ..st }, pos + 1)
            } else if t.name@ == "element"@ {
                match element_spec(ts, t, pos + 1) {
                    Ok((e, p)) => if pos < p && p <= ts.len() {
                        if end_read(e) {
                            document_scan(
                                ts,
                                ReaderState { schema: SchemaModel { elements: st.schema.elements.push(e), ..st.schema }, ..st },
                                p,
                            )
                        } else {
                            document_scan(ts, ReaderState { stack: st.stack.push(e), ..st }, p)
                        }
                    } else {
                        Err(XsdParseError::UnexpectedEnd(XsdConstruct::Document))
                    },
                    Err(x) => Err(x),
                }
            } else if t.name@ == "complexType"@ {
                match complex_type_spec(ts, t, pos + 1) {
                    Ok((ct, p)) => if pos < p && p <= ts.len() {
                        document_scan(ts, place_complex_type(st, ct), p)
                    } else {
                        Err(XsdParseError::UnexpectedEnd(XsdConstruct::Document))
                    },
                    Err(x) => Err(x),
                }
            } else if t.name@ == "simpleType"@ {
                match simple_type_spec(ts, t, pos + 1) {
                    Ok((s, p)) => if pos < p && p <= ts.len() {
                        document_scan(
                            ts,
                            ReaderState { schema: SchemaModel { simple_types: st.schema.simple_types.push(s), ..st.schema }, ..st },
                            p,
                        )
                    } else {
                        Err(XsdParseError::UnexpectedEnd(XsdConstruct::Document))
                    },
                    Err(x) => Err(x),
                }
            } else if is_import(t.name@) {
                document_scan(ts, ReaderState { depth: st.depth + 1, ..note_import(st, t) }, pos + 1)
            } else {
                document_scan(
                    ts,
                    ReaderState {
                        schema: SchemaModel { unhandled: st.schema.unhandled.push(t.name@), ..st.schema },
                        depth: st.depth + 1,
                        ..st
                    },
                    pos + 1,
                )
            },
            XmlToken::Empty(t) => if t.name@ == "element"@ {
                document_scan(
                    ts,
                    ReaderState { schema: SchemaModel { elements: st.schema.elements.push(element_header(t)), ..st.schema }, ..st },
                    pos + 1,
                )
            } else if t.name@ == "complexType"@ {
                document_scan(ts, place_complex_type(st, complex_type_header(t)), pos + 1)
            } else if t.name@ == "simpleType"@ {
                document_scan(
                    ts,
                    ReaderState {
                        schema: SchemaModel { simple_types: st.schema.simple_types.push(simple_type_header(t)), ..st.schema },
                        ..st
                    },
                    pos + 1,
                )
            } else if is_import(t.name@) {
                document_scan(ts, note_import(st, t), pos + 1)
            } else {
                document_scan(ts, st, pos + 1)
            },
            XmlToken::End(n) => if n@ == "element"@ && st.stack.len() > 0 {
                document_scan(
                    ts,
                    ReaderState {
                        schema: SchemaModel { elements: st.schema.elements.push(st.stack.last()), ..st.schema },
                        stack: st.stack.drop_last(),
                        ..st
                    },
                    pos + 1,
                )
            } else if st.depth > 0 {
                document_scan(ts, ReaderState { depth: (st.depth - 1) as nat, ..st }, pos + 1)
            } else {
                document_scan(ts, st, pos + 1)
            },
            XmlToken::Eof => finish(st),
            XmlToken::Other => document_scan(ts, st, pos + 1),
        }
    }
}

/// The document that the events `ts` describe.
pub open spec fn document_spec(ts: Seq<XmlToken>) -> Result<SchemaModel, XsdParseError> {
    document_scan(ts, ReaderState { schema: empty_schema(), stack: Seq::empty(), depth: 0 }, 0)
}

// ---------------------------------------------------------------- lemmas

proof fn lemma_find_attribute_step(attrs: Seq<(String, String)>, i: int, name: Seq<char>)
    requires
        0 <= i < attrs.len(),
    ensures
        find_attribute(attrs.subrange(i, attrs.len() as int), name) == (if key_matches(attrs[i].0@, name)
            && unescaped(attrs[i].1@) is Some {
            unescaped(attrs[i].1@)
        } else {
            find_attribute(attrs.subrange(i + 1, attrs.len() as int), name)
        }),
{
    assert(attrs.subrange(i, attrs.len() as int).drop_first() =~= attrs.subrange(i + 1, attrs.len() as int));
}

proof fn lemma_first_colon(s: Seq<char>)
    ensures
        first_colon(s) <= s.len(),
        forall|j: int| 0 <= j < first_colon(s) ==> s[j] != ':',
        first_colon(s) < s.len() ==> s[first_colon(s) as int] == ':',
    decreases s.len(),
{
    if s.len() > 0 && s[0] != ':' {
        lemma_first_colon(s.drop_first());
        assert forall|j: int| 0 < j < first_colon(s) implies s[j] != ':' by {
            assert(s[j] == s.drop_first()[j - 1]);
        }
    }
}


/// Whether the attribute key `key` is the attribute `name` (its characters).
fn key_is(key: &String, name: &Vec<char>) -> (r: bool)
    ensures
        r == key_matches(key@, name@),
{
    let k = chars_of(key.as_str());
    if k.len() == name.len() && chars_at(&k, 0, name) {
        assert(k@.subrange(0, k.len() as int) =~= k@);
        return true;
    }
    let r = k.len() > name.len() && k[k.len() - name.len() - 1] == ':' && chars_at(&k, k.len() - name.len(), name);
    proof {
        if k@ == name@ {
            assert(k@.subrange(0, k.len() as int) =~= k@);
        }
    }
    r
}

fn or_empty_string(v: Option<String>) -> (r: String)
    ensures
        r@ == or_empty(v.deep_view()),
{
    match v {
        Some(s) => s,
        None => String::new(),
    }
}

impl XsdParser {
    /// Reads an XSD document. A document that is not well-formed XML fails as a whole.
    pub fn parse(input: &str) -> (r: Result<XsdSchema, XsdParseError>)
        ensures
            r matches Ok(s) ==> keys_unique(s@.namespaces),
            match document_events(input@) {
                Ok(ts) => match r {
                    Ok(s) => document_spec(ts) == Ok::<SchemaModel, XsdParseError>(s@),
                    Err(x) => document_spec(ts) == Err::<SchemaModel, XsdParseError>(x),
                },
                Err(ReadFailure::Malformed) => r matches Err(XsdParseError::Malformed(_)),
                Err(ReadFailure::Runaway) => r matches Err(XsdParseError::Runaway),
            },
    {
        match tokenize(input) {
            Ok(ts) => Self::parse_tokens(&ts),
            Err(XmlError::Syntax(m)) => Err(XsdParseError::Malformed(m)),
            Err(XmlError::Runaway) => Err(XsdParseError::Runaway),
        }
    }

    /// The value of the attribute `attr_name` of `tag`, written with or without a prefix;
    /// the first such attribute wins.
    pub fn get_attribute(tag: &XmlTag, attr_name: &str) -> (r: Option<String>)
        ensures
            r.deep_view() == attribute_of(*tag, attr_name@),
    {
        let name = chars_of(attr_name);
        let n = tag.attributes.len();
        let mut i: usize = 0;
        assert(tag.attributes@.subrange(0, n as int) =~= tag.attributes@);
        while i < n
            invariant
                i <= n,
                n == tag.attributes.len(),
                name@ == attr_name@,
                find_attribute(tag.attributes@, attr_name@) == find_attribute(tag.attributes@.subrange(i as int, n as int), attr_name@),
            decreases n - i,
        {
            let a = &tag.attributes[i];
            proof {
                lemma_find_attribute_step(tag.attributes@, i as int, attr_name@);
            }
            if key_is(&a.0, &name) {
                if let Some(v) = unescape(a.1.as_str()) {
                    return Some(v);
                }
            }
            i = i + 1;
        }
        None
    }

    fn element_header(tag: &XmlTag) -> (e: XsdElement)
        ensures
            e@ == element_header(*tag),
    {
        XsdElement {
            name: or_empty_string(Self::get_attribute(tag, "name")),
            type_ref: Self::get_attribute(tag, "type"),
            min_occurs: Self::get_attribute(tag, "minOccurs"),
            max_occurs: Self::get_attribute(tag, "maxOccurs"),
            complex_type: None,
            simple_type: None,
            comment: None,
        }
    }

    /// An attribute declaration as its tag writes it.
    pub fn parse_attribute(tag: &XmlTag) -> (a: XsdAttribute)
        ensures
            a@ == attribute_model(*tag),
    {
        XsdAttribute {
            name: or_empty_string(Self::get_attribute(tag, "name")),
            type_ref: or_empty_string(Self::get_attribute(tag, "type")),
            use_type: or_empty_string(Self::get_attribute(tag, "use")),
            default: Self::get_attribute(tag, "default"),
            fixed: Self::get_attribute(tag, "fixed"),
        }
    }

    /// Reads an element whose start tag `tag` stands just before `pos` in `ts`.
    pub fn parse_element(tag: &XmlTag, ts: &Vec<XmlToken>, pos: usize) -> (r: Result<(XsdElement, usize), XsdParseError>)
        requires
            pos <= ts.len(),
        ensures
            match r {
                Ok((e, p)) => element_spec(ts@, *tag, pos as int) == Ok::<(ElementModel, int), XsdParseError>((e@, p as int))
                    && pos <= p <= ts.len(),
                Err(x) => element_spec(ts@, *tag, pos as int) == Err::<(ElementModel, int), XsdParseError>(x),
            },
        decreases ts.len() - pos, 1int,
    {
        let mut e = Self::element_header(tag);
        if e.type_ref.is_some() {
            return Ok((e, pos));
        }
        let mut i = pos;
        let mut depth: usize = 0;
        while i < ts.len()
            invariant
                pos <= i <= ts.len(),
                depth <= i,
                e.type_ref is None,
                element_spec(ts@, *tag, pos as int) == element_scan(ts@, e@, i as int, depth as nat),
            decreases ts.len() - i,
        {
            match &ts[i] {
                XmlToken::Start(t) => {
                    if depth == 0 && text_is(t.name.as_str(), "complexType") {
                        match Self::parse_complex_type(t, ts, i + 1) {
                            Ok((ct, p)) => {
                                e.complex_type = Some(ct);
                                return Ok((e, p));
                            },
                            Err(x) => {
                                return Err(x);
                            },
                        }
                    }
                    depth = depth + 1;
                },
                XmlToken::Empty(t) => {
                    if depth == 0 && text_is(t.name.as_str(), "complexType") {
                        e.complex_type = Some(Self::complex_type_header(t));
                        return Ok((e, i + 1));
                    }
                },
                XmlToken::End(n) => {
                    if depth > 0 {
                        depth = depth - 1;
                    } else if text_is(n.as_str(), "element") {
                        return Ok((e, i + 1));
                    }
                },
                XmlToken::Eof => {
                    return Err(XsdParseError::UnexpectedEnd(XsdConstruct::Element));
                },
                XmlToken::Other => {},
            }
            i = i + 1;
        }
        Err(XsdParseError::UnexpectedEnd(XsdConstruct::Element))
    }

    fn complex_type_header(tag: &XmlTag) -> (r: XsdComplexType)
        ensures
            r@ == complex_type_header(*tag),
    {
        let mixed = match Self::get_attribute(tag, "mixed") {
            Some(v) => text_is(v.as_str(), "true"),
            None => false,
        };
        let ct = XsdComplexType {
            name: Self::get_attribute(tag, "name"),
            sequence: Vec::new(),
            attributes: Vec::new(),
            mixed,
        };
        proof {
            assert(elements_view(ct.sequence@) =~= Seq::<ElementModel>::empty());
            assert(ct.attributes@.map_values(|a: XsdAttribute| a@) =~= Seq::<AttributeModel>::empty());
        }
        ct
    }

    fn simple_type_header(tag: &XmlTag) -> (r: XsdSimpleType)
        ensures
            r@ == simple_type_header(*tag),
    {
        XsdSimpleType { name: Self::get_attribute(tag, "name"), restriction: None, list: None, union: None }
    }

    /// Reads a complex type whose start tag `tag` stands just before `pos` in `ts`.
    pub fn parse_complex_type(tag: &XmlTag, ts: &Vec<XmlToken>, pos: usize) -> (r: Result<(XsdComplexType, usize), XsdParseError>)
        requires
            pos <= ts.len(),
        ensures
            match r {
                Ok((c, p)) => complex_type_spec(ts@, *tag, pos as int) == Ok::<(ComplexTypeModel, int), XsdParseError>((c@, p as int))
                    && pos <= p <= ts.len(),
                Err(x) => complex_type_spec(ts@, *tag, pos as int) == Err::<(ComplexTypeModel, int), XsdParseError>(x),
            },
        decreases ts.len() - pos, 1int,
    {
        let mut ct = Self::complex_type_header(tag);
        let mut i = pos;
        let mut depth: usize = 0;
        while i < ts.len()
            invariant
                pos <= i <= ts.len(),
                depth <= i,
                complex_type_spec(ts@, *tag, pos as int) == complex_scan(ts@, ct@, i as int, depth as nat),
            decreases ts.len() - i,
        {
            match &ts[i] {
                XmlToken::Start(t) => {
                    if depth == 0 && text_is(t.name.as_str(), "sequence") {
                        match Self::parse_sequence(ts, i + 1) {
                            Ok((els, p)) => {
                                ct.sequence = els;
                                i = p;
                                continue;
                            },
                            Err(x) => {
                                return Err(x);
                            },
                        }
                    }
                    if depth == 0 && text_is(t.name.as_str(), "attribute") {
                        let a = Self::parse_attribute(t);
                        let ghost before = ct.attributes@;
                        ct.attributes.push(a);
                        assert(ct.attributes@.map_values(|a: XsdAttribute| a@) =~= before.map_values(|a: XsdAttribute| a@).push(a@));
                    }
                    depth = depth + 1;
                },
                XmlToken::Empty(t) => {
                    if depth == 0 && text_is(t.name.as_str(), "attribute") {
                        let a = Self::parse_attribute(t);
                        let ghost before = ct.attributes@;
                        ct.attributes.push(a);
                        assert(ct.attributes@.map_values(|a: XsdAttribute| a@) =~= before.map_values(|a: XsdAttribute| a@).push(a@));
                    }
                },
                XmlToken::End(n) => {
                    if depth > 0 {
                        depth = depth - 1;
                    } else if text_is(n.as_str(), "complexType") {
                        return Ok((ct, i + 1));
                    }
                },
                XmlToken::Eof => {
                    return Err(XsdParseError::UnexpectedEnd(XsdConstruct::ComplexType));
                },
                XmlToken::Other => {},
            }
            i = i + 1;
        }
        Err(XsdParseError::UnexpectedEnd(XsdConstruct::ComplexType))
    }

    /// Reads the elements of a sequence that starts just before `pos` in `ts`, up to its
    /// end tag.
    pub fn parse_sequence(ts: &Vec<XmlToken>, pos: usize) -> (r: Result<(Vec<XsdElement>, usize), XsdParseError>)
        requires
            pos <= ts.len(),
        ensures
            match r {
                Ok((els, p)) => sequence_scan(ts@, Seq::empty(), pos as int, 0, 0)
                    == Ok::<(Seq<ElementModel>, int), XsdParseError>((elements_view(els@), p as int)) && pos <= p <= ts.len(),
                Err(x) => sequence_scan(ts@, Seq::empty(), pos as int, 0, 0) == Err::<(Seq<ElementModel>, int), XsdParseError>(x),
            },
        decreases ts.len() - pos, 1int,
    {
        let mut els: Vec<XsdElement> = Vec::new();
        let mut opens: usize = 0;
        let mut closes: usize = 0;
        let mut i = pos;
        assert(elements_view(els@) =~= Seq::<ElementModel>::empty());
        while i < ts.len()
            invariant
                pos <= i <= ts.len(),
                opens <= i,
                closes <= i,
                sequence_scan(ts@, Seq::empty(), pos as int, 0, 0)
                    == sequence_scan(ts@, elements_view(els@), i as int, opens as nat, closes as nat),
            decreases ts.len() - i,
        {
            match &ts[i] {
                XmlToken::Start(t) => {
                    if text_is(t.name.as_str(), "element") {
                        match Self::parse_element(t, ts, i + 1) {
                            Ok((e, p)) => {
                                if e.type_ref.is_some() || e.complex_type.is_some() {
                                    opens = opens + 1;
                                }
                                proof {
                                    lemma_elements_view_push(els@, e);
                                }
                                els.push(e);
                                i = p;
                                continue;
                            },
                            Err(x) => {
                                return Err(x);
                            },
                        }
                    }
                    opens = opens + 1;
                },
                XmlToken::Empty(t) => {
                    if text_is(t.name.as_str(), "element") {
                        let e = Self::element_header(t);
                        proof {
                            lemma_elements_view_push(els@, e);
                        }
                        els.push(e);
                    }
                },
                XmlToken::End(n) => {
                    if opens == closes && text_is(n.as_str(), "sequence") {
                        return Ok((els, i + 1));
                    }
                    closes = closes + 1;
                },
                XmlToken::Eof => {
                    return Err(XsdParseError::UnexpectedEnd(XsdConstruct::Sequence));
                },
                XmlToken::Other => {},
            }
            i = i + 1;
        }
        Err(XsdParseError::UnexpectedEnd(XsdConstruct::Sequence))
    }

    fn count_of(v: Option<String>) -> (r: Option<usize>)
        ensures
            r == count_of(v.deep_view()),
    {
        match v {
            Some(s) => parse_count(s.as_str()),
            None => None,
        }
    }

    fn apply_facet(r: &mut XsdRestriction, t: &XmlTag)
        ensures
            final(r)@ == apply_facet(old(r)@, *t),
    {
        let v = Self::get_attribute(t, "value");
        let n = t.name.as_str();
        if text_is(n, "enumeration") {
            if let Some(x) = v {
                r.enumeration.push(x);
            }
        } else if text_is(n, "pattern") {
            r.pattern = v;
        } else if text_is(n, "minInclusive") {
            r.min_inclusive = v;
        } else if text_is(n, "maxInclusive") {
            r.max_inclusive = v;
        } else if text_is(n, "minExclusive") {
            r.min_exclusive = v;
        } else if text_is(n, "maxExclusive") {
            r.max_exclusive = v;
        } else if text_is(n, "length") {
            r.length = Self::count_of(v);
        } else if text_is(n, "minLength") {
            r.min_length = Self::count_of(v);
        } else if text_is(n, "maxLength") {
            r.max_length = Self::count_of(v);
        } else if text_is(n, "totalDigits") {
            r.total_digits = Self::count_of(v);
        } else if text_is(n, "fractionDigits") {
            r.fraction_digits = Self::count_of(v);
        }
        proof {
            assert(final(r)@.enumeration =~= apply_facet(old(r)@, *t).enumeration);
        }
    }

    fn restriction_header(tag: &XmlTag) -> (r: XsdRestriction)
        ensures
            r@ == restriction_header(*tag),
    {
        let r = XsdRestriction {
            base: or_empty_string(Self::get_attribute(tag, "base")),
            enumeration: Vec::new(),
            pattern: None,
            min_inclusive: None,
            max_inclusive: None,
            min_exclusive: None,
            max_exclusive: None,
            length: None,
            min_length: None,
            max_length: None,
            total_digits: None,
            fraction_digits: None,
        };
        assert(r.enumeration.deep_view() =~= Seq::<Seq<char>>::empty());
        r
    }

    /// Reads the facets of a restriction whose start tag `tag` stands just before `pos` in `ts`.
    pub fn parse_restriction(tag: &XmlTag, ts: &Vec<XmlToken>, pos: usize) -> (r: Result<(XsdRestriction, usize), XsdParseError>)
        requires
            pos <= ts.len(),
        ensures
            match r {
                Ok((x, p)) => restriction_spec(ts@, *tag, pos as int) == Ok::<(RestrictionModel, int), XsdParseError>((x@, p as int))
                    && pos <= p <= ts.len(),
                Err(x) => restriction_spec(ts@, *tag, pos as int) == Err::<(RestrictionModel, int), XsdParseError>(x),
            },
    {
        let mut res = Self::restriction_header(tag);
        let mut i = pos;
        let mut depth: usize = 0;
        while i < ts.len()
            invariant
                pos <= i <= ts.len(),
                depth <= i,
                restriction_spec(ts@, *tag, pos as int) == restriction_scan(ts@, res@, i as int, depth as nat),
            decreases ts.len() - i,
        {
            match &ts[i] {
                XmlToken::Start(_) => {
                    depth = depth + 1;
                },
                XmlToken::Empty(t) => {
                    if depth == 0 {
                        Self::apply_facet(&mut res, t);
                    }
                },
                XmlToken::End(n) => {
                    if depth > 0 {
                        depth = depth - 1;
                    } else if text_is(n.as_str(), "restriction") {
                        return Ok((res, i + 1));
                    }
                },
                XmlToken::Eof => {
                    return Err(XsdParseError::UnexpectedEnd(XsdConstruct::Restriction));
                },
                XmlToken::Other => {},
            }
            i = i + 1;
        }
        Err(XsdParseError::UnexpectedEnd(XsdConstruct::Restriction))
    }

    fn apply_variety(st: &mut XsdSimpleType, t: &XmlTag)
        ensures
            final(st)@ == apply_variety(old(st)@, *t),
    {
        if text_is(t.name.as_str(), "list") {
            st.list = Self::get_attribute(t, "itemType");
        } else if text_is(t.name.as_str(), "union") {
            st.union = match Self::get_attribute(t, "memberTypes") {
                Some(m) => Some(split_on_whitespace(m.as_str())),
                None => None,
            };
        }
    }

    /// Reads a simple type whose start tag `tag` stands just before `pos` in `ts`.
    pub fn parse_simple_type(tag: &XmlTag, ts: &Vec<XmlToken>, pos: usize) -> (r: Result<(XsdSimpleType, usize), XsdParseError>)
        requires
            pos <= ts.len(),
        ensures
            match r {
                Ok((x, p)) => simple_type_spec(ts@, *tag, pos as int) == Ok::<(SimpleTypeModel, int), XsdParseError>((x@, p as int))
                    && pos <= p <= ts.len(),
                Err(x) => simple_type_spec(ts@, *tag, pos as int) == Err::<(SimpleTypeModel, int), XsdParseError>(x),
            },
    {
        let mut st = Self::simple_type_header(tag);
        let mut i = pos;
        let mut depth: usize = 0;
        while i < ts.len()
            invariant
                pos <= i <= ts.len(),
                depth <= i,
                simple_type_spec(ts@, *tag, pos as int) == simple_scan(ts@, st@, i as int, depth as nat),
            decreases ts.len() - i,
        {
            match &ts[i] {
                XmlToken::Start(t) => {
                    if depth == 0 && text_is(t.name.as_str(), "restriction") {
                        match Self::parse_restriction(t, ts, i + 1) {
                            Ok((x, p)) => {
                                st.restriction = Some(x);
                                i = p;
                                continue;
                            },
                            Err(x) => {
                                return Err(x);
                            },
                        }
                    }
                    if depth == 0 {
                        Self::apply_variety(&mut st, t);
                    }
                    depth = depth + 1;
                },
                XmlToken::Empty(t) => {
                    if depth == 0 {
                        if text_is(t.name.as_str(), "restriction") {
                            st.restriction = Some(Self::restriction_header(t));
                        } else {
                            Self::apply_variety(&mut st, t);
                        }
                    }
                },
                XmlToken::End(n) => {
                    if depth > 0 {
                        depth = depth - 1;
                    } else if text_is(n.as_str(), "simpleType") {
                        return Ok((st, i + 1));
                    }
                },
                XmlToken::Eof => {
                    return Err(XsdParseError::UnexpectedEnd(XsdConstruct::SimpleType));
                },
                XmlToken::Other => {},
            }
            i = i + 1;
        }
        Err(XsdParseError::UnexpectedEnd(XsdConstruct::SimpleType))
    }

    /// The prefix that the attribute key `key` declares, if it is an `xmlns:` declaration.
    fn xmlns_prefix(key: &String) -> (r: Option<String>)
        ensures
            r.deep_view() == xmlns_prefix(key@),
    {
        let k = chars_of(key.as_str());
        let x = chars_of("xmlns:");
        proof {
            reveal_strlit("xmlns:");
        }
        assert(x@ =~= seq!['x', 'm', 'l', 'n', 's', ':']);
        if !chars_at(&k, 0, &x) {
            return None;
        }
        let ghost rest = k@.subrange(6, k.len() as int);
        let mut j: usize = 6;
        proof {
            lemma_first_colon(rest);
        }
        while j < k.len() && k[j] != ':'
            invariant
                6 <= j <= k.len(),
                rest == k@.subrange(6, k.len() as int),
                forall|m: int| 6 <= m < j ==> k@[m] != ':',
                j - 6 <= first_colon(rest),
            decreases k.len() - j,
        {
            proof {
                lemma_first_colon(rest);
                if first_colon(rest) == j - 6 {
                    assert(rest[j - 6] == k@[j as int]);
                }
            }
            j = j + 1;
        }
        proof {
            lemma_first_colon(rest);
            if j < k.len() {
                assert(rest[j - 6] == ':');
            }
            if (j - 6) < first_colon(rest) {
                assert(rest[j - 6] != ':');
                assert(rest[j - 6] == k@[j as int]);
            }
        }
        let p = string_of(&k, 6, j);
        assert(p@ =~= rest.subrange(0, first_colon(rest) as int));
        Some(p)
    }

    fn note_import(schema: &mut XsdSchema, t: &XmlTag)
        ensures
            final(schema)@ == note_import((ReaderState { schema: old(schema)@, stack: Seq::empty(), depth: 0 }), *t).schema,
    {
        if let Some(l) = Self::get_attribute(t, "schemaLocation") {
            let ghost before = schema.imported_schemas@;
            schema.imported_schemas.push(l);
            assert(schema.imported_schemas.deep_view() =~= before.map_values(|s: String| s@).push(l@));
            assert(schema@.imported_schemas =~= old(schema)@.imported_schemas.push(l@));
        }
    }

    fn declare_prefixes(m: &mut Vec<(String, String)>, t: &XmlTag)
        ensures
            entries_view(final(m)@) == declare_prefixes(
                entries_view(old(m)@),
                t.attributes@,
            ),
            keys_unique(entries_view(old(m)@)) ==> keys_unique(entries_view(final(m)@)),
    {
        let n = t.attributes.len();
        let mut j: usize = 0;
        assert(t.attributes@.subrange(0, n as int) =~= t.attributes@);
        while j < n
            invariant
                j <= n,
                n == t.attributes.len(),
                declare_prefixes(entries_view(old(m)@), t.attributes@)
                    == declare_prefixes(entries_view(m@), t.attributes@.subrange(j as int, n as int)),
                keys_unique(entries_view(old(m)@)) ==> keys_unique(entries_view(m@)),
            decreases n - j,
        {
            let a = &t.attributes[j];
            assert(t.attributes@.subrange(j as int, n as int).drop_first() =~= t.attributes@.subrange(j + 1, n as int));
            if let Some(p) = Self::xmlns_prefix(&a.0) {
                if let Some(v) = unescape(a.1.as_str()) {
                    assoc_put(m, p, v);
                }
            }
            j = j + 1;
        }
        assert(t.attributes@.subrange(n as int, n as int) =~= Seq::<(String, String)>::empty());
    }

    fn place_complex_type(schema: &mut XsdSchema, stack: &mut Vec<XsdElement>, ct: XsdComplexType)
        ensures
            ({
                let st = place_complex_type(ReaderState { schema: old(schema)@, stack: elements_view(old(stack)@), depth: 0 }, ct@);
                final(schema)@ == st.schema && elements_view(final(stack)@) == st.stack
            }),
    {
        if ct.name.is_some() {
            let ghost before = schema.complex_types@;
            schema.complex_types.push(ct);
            assert(schema.complex_types@.map_values(|c: XsdComplexType| c@)
                =~= before.map_values(|c: XsdComplexType| c@).push(ct@));
            assert(schema@.complex_types =~= old(schema)@.complex_types.push(ct@));
        } else if stack.len() > 0 {
            let ghost before = stack@;
            let mut el = stack.pop().unwrap();
            proof {
                assert(before.drop_last() =~= stack@);
                lemma_elements_view(before);
            }
            el.complex_type = Some(ct);
            proof {
                lemma_elements_view_push(stack@, el);
                lemma_elements_view(before);
                lemma_elements_view(stack@.push(el));
            }
            stack.push(el);
            proof {
                let st = place_complex_type(ReaderState { schema: old(schema)@, stack: elements_view(old(stack)@), depth: 0 }, ct@);
                lemma_elements_view(stack@);
                assert(elements_view(stack@) =~= st.stack);
            }
        }
    }

    /// One start tag of the document, at `i`: the state after it and where reading goes on.
    fn on_start(t: &XmlTag, ts: &Vec<XmlToken>, i: usize, schema: &mut XsdSchema, stack: &mut Vec<XsdElement>, depth: &mut usize) -> (r: Result<usize, XsdParseError>)
        requires
            i < ts.len(),
            ts@[i as int] == XmlToken::Start(*t),
            *old(depth) <= i,
        ensures
            *final(depth) <= *old(depth) + 1,
            ({
                let before = document_scan(
                    ts@,
                    (ReaderState { schema: old(schema)@, stack: elements_view(old(stack)@), depth: *old(depth) as nat }),
                    i as int,
                );
                let after = ReaderState { schema: final(schema)@, stack: elements_view(final(stack)@), depth: *final(depth) as nat };
                match r {
                    Ok(p) => i < p <= ts.len() && before == document_scan(ts@, after, p as int),
                    Err(x) => before == Err::<SchemaModel, XsdParseError>(x),
                }
            }),
            keys_unique(old(schema)@.namespaces) ==> keys_unique(final(schema)@.namespaces),
    {
        if text_is(t.name.as_str(), "schema") {
            schema.target_namespace = Self::get_attribute(t, "targetNamespace");
            Self::declare_prefixes(&mut schema.namespaces, t);
            *depth = *depth + 1;
            Ok(i + 1)
        } else if text_is(t.name.as_str(), "element") {
            match Self::parse_element(t, ts, i + 1) {
                Ok((e, p)) => {
                    if e.type_ref.is_none() && e.complex_type.is_none() {
                        proof {
                            lemma_elements_view_push(schema.elements@, e);
                        }
                        schema.elements.push(e);
                        assert(schema@.elements =~= old(schema)@.elements.push(element_view(e)));
                    } else {
                        proof {
                            lemma_elements_view_push(stack@, e);
                        }
                        stack.push(e);
                    }
                    Ok(p)
                },
                Err(x) => Err(x),
            }
        } else if text_is(t.name.as_str(), "complexType") {
            match Self::parse_complex_type(t, ts, i + 1) {
                Ok((ct, p)) => {
                    Self::place_complex_type(schema, stack, ct);
                    Ok(p)
                },
                Err(x) => Err(x),
            }
        } else if text_is(t.name.as_str(), "simpleType") {
            match Self::parse_simple_type(t, ts, i + 1) {
                Ok((x, p)) => {
                    let ghost before = schema.simple_types@;
                    schema.simple_types.push(x);
                    assert(schema.simple_types@.map_values(|c: XsdSimpleType| c@)
                        =~= before.map_values(|c: XsdSimpleType| c@).push(x@));
                    Ok(p)
                },
                Err(x) => Err(x),
            }
        } else if text_is(t.name.as_str(), "include") || text_is(t.name.as_str(), "import") {
            Self::note_import(schema, t);
            *depth = *depth + 1;
            Ok(i + 1)
        } else {
            let ghost before = schema.unhandled@;
            schema.unhandled.push(t.name.clone());
            assert(schema.unhandled.deep_view() =~= before.map_values(|s: String| s@).push(t.name@));
            assert(schema@.unhandled =~= old(schema)@.unhandled.push(t.name@));
            *depth = *depth + 1;
            Ok(i + 1)
        }
    }

    /// One event at `i` other than a start tag or the end of the document.
    fn on_other(ts: &Vec<XmlToken>, i: usize, schema: &mut XsdSchema, stack: &mut Vec<XsdElement>, depth: &mut usize)
        requires
            i < ts.len(),
            !(ts@[i as int] is Start),
            !(ts@[i as int] is Eof),
        ensures
            *final(depth) <= *old(depth),
            document_scan(
                ts@,
                (ReaderState { schema: old(schema)@, stack: elements_view(old(stack)@), depth: *old(depth) as nat }),
                i as int,
            ) == document_scan(
                ts@,
                (ReaderState { schema: final(schema)@, stack: elements_view(final(stack)@), depth: *final(depth) as nat }),
                i + 1,
            ),
            final(schema)@.namespaces == old(schema)@.namespaces,
    {
        match &ts[i] {
            XmlToken::Empty(t) => {
                if text_is(t.name.as_str(), "element") {
                    let e = Self::element_header(t);
                    proof {
                        lemma_elements_view_push(schema.elements@, e);
                    }
                    schema.elements.push(e);
                    assert(schema@.elements =~= old(schema)@.elements.push(element_view(e)));
                } else if text_is(t.name.as_str(), "complexType") {
                    Self::place_complex_type(schema, stack, Self::complex_type_header(t));
                } else if text_is(t.name.as_str(), "simpleType") {
                    let x = Self::simple_type_header(t);
                    let ghost before = schema.simple_types@;
                    schema.simple_types.push(x);
                    assert(schema.simple_types@.map_values(|c: XsdSimpleType| c@)
                        =~= before.map_values(|c: XsdSimpleType| c@).push(x@));
                } else if text_is(t.name.as_str(), "include") || text_is(t.name.as_str(), "import") {
                    Self::note_import(schema, t);
                }
            },
            XmlToken::End(n) => {
                if text_is(n.as_str(), "element") && stack.len() > 0 {
                    let ghost before = stack@;
                    let el = stack.pop().unwrap();
                    proof {
                        assert(before.drop_last() =~= stack@);
                        lemma_elements_view(before);
                        lemma_elements_view_push(schema.elements@, el);
                        assert(elements_view(before).drop_last() =~= elements_view(stack@));
                        assert(elements_view(before).last() == element_view(el));
                    }
                    schema.elements.push(el);
                    assert(schema@.elements =~= old(schema)@.elements.push(element_view(el)));
                } else if *depth > 0 {
                    *depth = *depth - 1;
                }
            },
            _ => {},
        }
    }

    /// Reads the document that the events `ts` describe.
    pub fn parse_tokens(ts: &Vec<XmlToken>) -> (r: Result<XsdSchema, XsdParseError>)
        ensures
            r matches Ok(s) ==> keys_unique(s@.namespaces),
            match r {
                Ok(s) => document_spec(ts@) == Ok::<SchemaModel, XsdParseError>(s@),
                Err(x) => document_spec(ts@) == Err::<SchemaModel, XsdParseError>(x),
            },
    {
        let mut schema = XsdSchema {
            target_namespace: None,
            elements: Vec::new(),
            complex_types: Vec::new(),
            simple_types: Vec::new(),
            namespaces: Vec::new(),
            imported_schemas: Vec::new(),
            unhandled: Vec::new(),
        };
        let mut stack: Vec<XsdElement> = Vec::new();
        proof {
            assert(schema@.elements =~= Seq::<ElementModel>::empty());
            assert(schema@.complex_types =~= Seq::<ComplexTypeModel>::empty());
            assert(schema@.simple_types =~= Seq::<SimpleTypeModel>::empty());
            assert(schema@.namespaces =~= Seq::<(Seq<char>, Seq<char>)>::empty());
            assert(schema@.imported_schemas =~= Seq::<Seq<char>>::empty());
            assert(elements_view(stack@) =~= Seq::<ElementModel>::empty());
        }
        let mut i: usize = 0;
        let mut depth: usize = 0;
        while i < ts.len()
            invariant
                i <= ts.len(),
                depth <= i,
                document_spec(ts@) == document_scan(
                    ts@,
                    (ReaderState { schema: schema@, stack: elements_view(stack@), depth: depth as nat }),
                    i as int,
                ),
                keys_unique(schema@.namespaces),
            decreases ts.len() - i,
        {
            match &ts[i] {
                XmlToken::Start(t) => {
                    match Self::on_start(t, ts, i, &mut schema, &mut stack, &mut depth) {
                        Ok(p) => {
                            i = p;
                        },
                        Err(x) => {
                            return Err(x);
                        },
                    }
                },
                XmlToken::Eof => {
                    return Self::finish(schema, &stack, depth);
                },
                _ => {
                    Self::on_other(ts, i, &mut schema, &mut stack, &mut depth);
                    i = i + 1;
                },
            }
        }
        Self::finish(schema, &stack, depth)
    }

    /// The result when the events run out: the document, unless a tag is still open.
    fn finish(schema: XsdSchema, stack: &Vec<XsdElement>, depth: usize) -> (r: Result<XsdSchema, XsdParseError>)
        ensures
            ({
                let st = ReaderState { schema: schema@, stack: elements_view(stack@), depth: depth as nat };
                match r {
                    Ok(s) => s@ == schema@ && finish(st) == Ok::<SchemaModel, XsdParseError>(s@),
                    Err(x) => finish(st) == Err::<SchemaModel, XsdParseError>(x),
                }
            }),
    {
        proof {
            lemma_elements_view(stack@);
        }
        if depth > 0 || stack.len() > 0 {
            Err(XsdParseError::UnexpectedEnd(XsdConstruct::Document))
        } else {
            Ok(schema)
        }
    }
}

} // verus!
