use schemata_xsd::{tokenize, XmlToken, XsdConstruct, XsdParseError, XsdParser};

#[test]
fn test_get_attribute() {
    let xml = r#"<xs:element xmlns:xs="http://www.w3.org/2001/XMLSchema" name="test" type="string" />"#;
    let tokens = tokenize(xml).unwrap_or_else(|_| panic!("Failed to read event"));

    match &tokens[0] {
        XmlToken::Start(e) | XmlToken::Empty(e) => {
            assert_eq!(XsdParser::get_attribute(e, "name"), Some("test".to_string()));
            assert_eq!(XsdParser::get_attribute(e, "type"), Some("string".to_string()));
            assert_eq!(XsdParser::get_attribute(e, "nonexistent"), None);
        }
        _ => panic!("Unexpected event type"),
    }
}

#[test]
fn test_parse_element() {
    let xml = r#"<xs:element xmlns:xs="http://www.w3.org/2001/XMLSchema" name="test" type="xs:string" minOccurs="0" maxOccurs="unbounded" />"#;
    let tokens = tokenize(xml).unwrap_or_else(|_| panic!("Failed to read event"));

    match &tokens[0] {
        XmlToken::Start(e) | XmlToken::Empty(e) => {
            let (element, _) = XsdParser::parse_element(e, &tokens, 1).unwrap_or_else(|_| panic!("Failed to parse element"));
            assert_eq!(element.name, "test");
            assert_eq!(element.type_ref, Some("xs:string".to_string()));
            assert_eq!(element.min_occurs, Some("0".to_string()));
            assert_eq!(element.max_occurs, Some("unbounded".to_string()));
        }
        _ => panic!("Unexpected event type"),
    }
}

#[test]
fn test_parse_complex_type_with_nested_elements() {
    let xml = r#"
        <xs:complexType xmlns:xs="http://www.w3.org/2001/XMLSchema" name="TestType">
            <xs:sequence>
                <xs:element name="child1" type="xs:string" />
                <xs:element name="child2" type="xs:int" minOccurs="0" />
            </xs:sequence>
            <xs:attribute name="testAttr" type="xs:boolean" use="optional" />
        </xs:complexType>
        "#
    .trim();

    let tokens = tokenize(xml).unwrap_or_else(|_| panic!("Failed to read event"));

    match &tokens[0] {
        XmlToken::Start(e) => {
            let (complex_type, _) =
                XsdParser::parse_complex_type(e, &tokens, 1).unwrap_or_else(|_| panic!("Failed to parse complex type"));

            println!("Sequence length: {}", complex_type.sequence.len());
            println!("Attributes length: {}", complex_type.attributes.len());

            assert_eq!(complex_type.name, Some("TestType".to_string()));

            assert_eq!(complex_type.sequence.len(), 2, "Sequence should contain 2 elements");
            assert_eq!(complex_type.sequence[0].name, "child1");
            assert_eq!(complex_type.sequence[0].type_ref, Some("xs:string".to_string()));
            assert_eq!(complex_type.sequence[1].name, "child2");
            assert_eq!(complex_type.sequence[1].type_ref, Some("xs:int".to_string()));

            assert_eq!(complex_type.attributes.len(), 1, "Should have 1 attribute");
            assert_eq!(complex_type.attributes[0].name, "testAttr");
            assert_eq!(complex_type.attributes[0].type_ref, "xs:boolean");
            assert_eq!(complex_type.attributes[0].use_type, "optional");
        }
        _ => panic!("Unexpected event type"),
    }
}

#[test]
fn test_parse_simple_type_with_complex_restriction() {
    let xml = r#"
        <xs:simpleType xmlns:xs="http://www.w3.org/2001/XMLSchema" name="TestEnum">
            <xs:restriction base="xs:string">
                <xs:enumeration value="One" />
                <xs:enumeration value="Two" />
                <xs:enumeration value="Three" />
                <xs:length value="3" />
                <xs:pattern value="[A-Z][a-z][a-z]" />
            </xs:restriction>
        </xs:simpleType>
        "#
    .trim();
    let tokens = tokenize(xml).unwrap_or_else(|_| panic!("Failed to parse XML"));
    if let XmlToken::Start(e) = &tokens[0] {
        let (simple_type, _) = XsdParser::parse_simple_type(e, &tokens, 1).unwrap_or_else(|_| panic!("Failed to parse XML"));
        assert_eq!(simple_type.name, Some("TestEnum".to_string()));
        assert!(simple_type.restriction.is_some());

        let restriction = simple_type.restriction.unwrap();
        assert_eq!(restriction.base, "xs:string");
        assert_eq!(restriction.enumeration, vec!["One", "Two", "Three"]);

        assert_eq!(restriction.length, Some(3));
        assert_eq!(restriction.pattern, Some("[A-Z][a-z][a-z]".to_string()));
    } else {
        panic!("Failed to parse XML");
    }
}

#[test]
fn test_parse_schema_with_namespaces() {
    let xml = r#"
        <xs:schema
            xmlns:xs="http://www.w3.org/2001/XMLSchema"
            xmlns:my="http://example.com/namespace"
            targetNamespace="http://example.com/test">
            <xs:element name="testElement" type="my:TestType" />
        </xs:schema>
        "#
    .trim();

    let schema = XsdParser::parse(xml).unwrap_or_else(|_| panic!("Failed to parse XML"));

    assert_eq!(schema.target_namespace, Some("http://example.com/test".to_string()));

    assert!(schema.namespaces.iter().any(|(k, _)| k == "xs"));
    assert!(schema.namespaces.iter().any(|(k, _)| k == "my"));
    assert_eq!(
        schema.namespaces.iter().find(|(k, _)| k == "xs").map(|(_, v)| v),
        Some(&"http://www.w3.org/2001/XMLSchema".to_string())
    );
}

#[test]
fn malformed_xml_fails_whole_parse() {
    let xml = r#"<xs:schema xmlns:xs="http://www.w3.org/2001/XMLSchema"><xs:complexType name="A"></xs:element></xs:schema>"#;
    assert!(matches!(XsdParser::parse(xml), Err(XsdParseError::Malformed(_))));
}

#[test]
fn truncated_document_reports_construct() {
    let xml = r#"<xs:schema xmlns:xs="http://www.w3.org/2001/XMLSchema"><xs:complexType name="A"><xs:sequence>"#;
    match XsdParser::parse(xml) {
        Err(XsdParseError::UnexpectedEnd(c)) => assert!(c == XsdConstruct::Sequence),
        Err(XsdParseError::Malformed(_)) => {}
        _ => panic!("a truncated document must fail"),
    }
}

#[test]
fn document_collects_types_elements_and_imports() {
    let xml = r#"<xs:schema xmlns:xs="http://www.w3.org/2001/XMLSchema" xmlns:a:b="urn:ab">
        <xs:import namespace="urn:o" schemaLocation="other.xsd"/>
        <xs:element name="root">
            <xs:complexType>
                <xs:sequence><xs:element name="inner" type="xs:int"/></xs:sequence>
            </xs:complexType>
        </xs:element>
        <xs:element name="flat" type="xs:string"/>
        <xs:complexType name="Named" mixed="true">
            <xs:sequence><xs:element name="x" type="xs:string" maxOccurs="5"/></xs:sequence>
        </xs:complexType>
        <xs:simpleType name="Ints"><xs:list itemType="xs:int"/></xs:simpleType>
        <xs:simpleType name="U"><xs:union memberTypes="xs:int  xs:string"/></xs:simpleType>
    </xs:schema>"#;
    let schema = XsdParser::parse(xml).unwrap_or_else(|_| panic!("Failed to parse XML"));
    assert_eq!(schema.imported_schemas, vec!["other.xsd".to_string()]);
    assert_eq!(schema.elements.len(), 2);
    assert_eq!(schema.elements[0].name, "root");
    let inner = &schema.elements[0].complex_type.as_ref().unwrap().sequence[0];
    assert_eq!(inner.name, "inner");
    assert_eq!(schema.elements[1].name, "flat");
    assert_eq!(schema.complex_types.len(), 1);
    assert!(schema.complex_types[0].mixed);
    assert_eq!(schema.simple_types.len(), 2);
    assert_eq!(schema.simple_types[0].list, Some("xs:int".to_string()));
    assert_eq!(schema.simple_types[1].union, Some(vec!["xs:int".to_string(), "xs:string".to_string()]));
    assert_eq!(schema.namespaces[1], ("a".to_string(), "urn:ab".to_string()));
}

#[test]
fn facets_that_do_not_parse_as_counts_are_absent() {
    let xml = r#"<xs:simpleType name="T"><xs:restriction base="xs:string"><xs:maxLength value="+12"/><xs:minLength value="x"/></xs:restriction></xs:simpleType>"#;
    let tokens = tokenize(xml).unwrap_or_else(|_| panic!("Failed to parse XML"));
    if let XmlToken::Start(e) = &tokens[0] {
        let (st, _) = XsdParser::parse_simple_type(e, &tokens, 1).unwrap_or_else(|_| panic!("Failed to parse XML"));
        let r = st.restriction.unwrap();
        assert_eq!(r.max_length, Some(12));
        assert_eq!(r.min_length, None);
    } else {
        panic!("Failed to parse XML");
    }
}

#[test]
fn element_without_type_inside_sequence_keeps_sequence() {
    let xml = r#"<xs:schema xmlns:xs="http://www.w3.org/2001/XMLSchema">
        <xs:complexType name="A">
            <xs:sequence>
                <xs:element name="a"><xs:simpleType><xs:restriction base="xs:string"/></xs:simpleType></xs:element>
                <xs:element name="b" type="xs:int"/>
            </xs:sequence>
        </xs:complexType>
        <xs:complexType name="B"><xs:sequence/></xs:complexType>
    </xs:schema>"#;
    let schema = XsdParser::parse(xml).unwrap_or_else(|_| panic!("Failed to parse XML"));
    assert_eq!(schema.complex_types.len(), 2);
    let seq = &schema.complex_types[0].sequence;
    assert_eq!(seq.len(), 2);
    assert_eq!(seq[0].name, "a");
    assert_eq!(seq[0].type_ref, None);
    assert_eq!(seq[1].name, "b");
}

#[test]
fn top_level_element_without_type_is_kept() {
    let xml = r#"<xs:schema xmlns:xs="http://www.w3.org/2001/XMLSchema"><xs:element name="loose"></xs:element><xs:element name="typed" type="t"></xs:element></xs:schema>"#;
    let schema = XsdParser::parse(xml).unwrap_or_else(|_| panic!("Failed to parse XML"));
    assert_eq!(schema.elements.len(), 2);
    assert_eq!(schema.elements[0].name, "loose");
    assert_eq!(schema.elements[1].name, "typed");
}

#[test]
fn unhandled_top_level_markup_is_reported() {
    let xml = r#"<xs:schema xmlns:xs="http://www.w3.org/2001/XMLSchema"><xs:annotation><xs:documentation>d</xs:documentation></xs:annotation></xs:schema>"#;
    let schema = XsdParser::parse(xml).unwrap_or_else(|_| panic!("Failed to parse XML"));
    assert_eq!(schema.unhandled, vec!["annotation".to_string(), "documentation".to_string()]);
}

#[test]
fn unclosed_schema_fails_whole_parse() {
    let xml = r#"<xs:schema xmlns:xs="http://www.w3.org/2001/XMLSchema"><xs:element name="e" type="t">"#;
    assert!(matches!(XsdParser::parse(xml), Err(XsdParseError::UnexpectedEnd(XsdConstruct::Document))));
    let bare = r#"<xs:schema xmlns:xs="http://www.w3.org/2001/XMLSchema">"#;
    assert!(matches!(XsdParser::parse(bare), Err(XsdParseError::UnexpectedEnd(XsdConstruct::Document))));
}

#[test]
fn complex_type_ends_at_its_own_end_tag() {
    let truncated = r#"<xs:schema xmlns:xs="http://www.w3.org/2001/XMLSchema"><xs:complexType name="A"><xs:choice><xs:complexType></xs:complexType>"#;
    assert!(matches!(XsdParser::parse(truncated), Err(XsdParseError::UnexpectedEnd(XsdConstruct::ComplexType))));
    let whole = r#"<xs:schema xmlns:xs="http://www.w3.org/2001/XMLSchema">
        <xs:complexType name="A">
            <xs:choice><xs:complexType><xs:attribute name="inner" type="t"/></xs:complexType></xs:choice>
            <xs:attribute name="outer" type="t"/>
        </xs:complexType>
    </xs:schema>"#;
    let schema = XsdParser::parse(whole).unwrap_or_else(|_| panic!("Failed to parse XML"));
    assert_eq!(schema.complex_types.len(), 1);
    let attrs = &schema.complex_types[0].attributes;
    assert_eq!(attrs.len(), 1);
    assert_eq!(attrs[0].name, "outer");
}

#[test]
fn self_closing_top_level_types_are_listed() {
    let xml = r#"<xs:schema xmlns:xs="http://www.w3.org/2001/XMLSchema"><xs:complexType name="X"/><xs:simpleType name="S"/></xs:schema>"#;
    let schema = XsdParser::parse(xml).unwrap_or_else(|_| panic!("Failed to parse XML"));
    assert_eq!(schema.complex_types.len(), 1);
    assert_eq!(schema.complex_types[0].name, Some("X".to_string()));
    assert_eq!(schema.simple_types.len(), 1);
    assert_eq!(schema.simple_types[0].name, Some("S".to_string()));
}

#[test]
fn nested_simple_type_inside_restriction_keeps_outer_facets() {
    let xml = r#"<xs:schema xmlns:xs="http://www.w3.org/2001/XMLSchema">
        <xs:simpleType name="T">
            <xs:restriction>
                <xs:simpleType><xs:restriction base="xs:string"><xs:enumeration value="inner"/></xs:restriction></xs:simpleType>
                <xs:enumeration value="outer"/>
            </xs:restriction>
        </xs:simpleType>
    </xs:schema>"#;
    let schema = XsdParser::parse(xml).unwrap_or_else(|_| panic!("Failed to parse XML"));
    let r = schema.simple_types[0].restriction.as_ref().unwrap();
    assert_eq!(r.enumeration, vec!["outer".to_string()]);
}
