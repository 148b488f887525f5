use schemata_xsd::{AnnotationValue, GenerationError, ParseError, SchemataAnnotation, SchemataToXsdGenerator};

#[test]
fn test_new_generator() {
    let namespace = "http://example.com".to_string();
    let generator = SchemataToXsdGenerator::new(namespace);
    assert_eq!(generator.target_namespace, "http://example.com");
}

#[test]
fn test_map_type() {
    let mut generator = SchemataToXsdGenerator::new("http://example.com".to_string());

    assert_eq!(generator.map_type("int"), "xs:integer");
    assert_eq!(generator.map_type("string"), "xs:string");
    assert_eq!(generator.map_type("float"), "xs:float");
    assert_eq!(generator.map_type("datetime"), "xs:dateTime");
    assert_eq!(generator.map_type("bool"), "xs:boolean");
    assert_eq!(generator.map_type("custom"), "xs:custom");
}

#[test]
fn test_extract_max_occurs() {
    let generator = SchemataToXsdGenerator::new("http://example.com".to_string());

    let annotations = vec![
        SchemataAnnotation {
            name: "maxOccurs".to_string(),
            params: vec![("value".to_string(), AnnotationValue::Integer(10))],
        },
        SchemataAnnotation {
            name: "maxOccurs".to_string(),
            params: vec![("value".to_string(), AnnotationValue::String("unbounded".to_string()))],
        },
    ];

    let max_occurs_number = generator.extract_max_occurs(&annotations[0..1]);
    assert_eq!(max_occurs_number, Some("10".to_string()));

    let max_occurs_string = generator.extract_max_occurs(&annotations[1..]);
    assert_eq!(max_occurs_string, Some("unbounded".to_string()));

    let no_max_occurs = generator.extract_max_occurs(&[]);
    assert_eq!(no_max_occurs, None);
}

#[test]
fn test_generate() {
    let schemata_content = r#"
        namespace http://example.com

        schema Person {
            name string
            age int @maxOccurs(10)
        }

        enum Gender {
            Male
            Female
        }
        "#;

    let mut generator = SchemataToXsdGenerator::new("http://example.com".to_string());
    let result = generator.generate(schemata_content);
    assert!(result.is_ok());
    let xsd = result.unwrap();

    assert!(xsd.contains("targetNamespace=\"http://example.com\""));
    assert!(xsd.contains("<xs:complexType name=\"Person\">"));
    assert!(xsd.contains("<xs:element name=\"name\" type=\"xs:string\"/>"));
    assert!(xsd.contains("<xs:element name=\"age\" type=\"xs:integer\" maxOccurs=\"10\"/>"));
    assert!(xsd.contains("<xs:simpleType name=\"Gender\">"));
    assert!(xsd.contains("<xs:enumeration value=\"Male\"/>"));
    assert!(xsd.contains("<xs:enumeration value=\"Female\"/>"));
}

#[test]
fn end_to_end_person_document() {
    let input = "namespace http://example.com\nschema Person { name string  age int @maxOccurs(10) }\nenum Gender { Male Female }\n";
    let mut generator = SchemataToXsdGenerator::new("http://example.com".to_string());
    let xsd = generator.generate(input).unwrap();
    assert_eq!(
        xsd,
        [
            "<xs:schema xmlns:xs=\"http://www.w3.org/2001/XMLSchema\" xmlns:tns=\"http://example.com\" ",
            "targetNamespace=\"http://example.com\" elementFormDefault=\"qualified\">",
            "<xs:complexType name=\"Person\"><xs:sequence>",
            "<xs:element name=\"name\" type=\"xs:string\"/>",
            "<xs:element name=\"age\" type=\"xs:integer\" maxOccurs=\"10\"/>",
            "</xs:sequence></xs:complexType>",
            "<xs:simpleType name=\"Gender\"><xs:restriction base=\"xs:string\">",
            "<xs:enumeration value=\"Male\"/><xs:enumeration value=\"Female\"/>",
            "</xs:restriction></xs:simpleType></xs:schema>"
        ].concat()
    );
}

#[test]
fn one_type_per_block_in_order() {
    let input = "namespace a { schema A { x int } enum E { P } schema B { y bool z datetime } }";
    let mut generator = SchemataToXsdGenerator::new("urn:t".to_string());
    let xsd = generator.generate(input).unwrap();
    assert_eq!(xsd.matches("<xs:complexType name=").count(), 2);
    assert_eq!(xsd.matches("<xs:simpleType name=").count(), 1);
    let a = xsd.find("name=\"A\"").unwrap();
    let b = xsd.find("name=\"B\"").unwrap();
    let e = xsd.find("name=\"E\"").unwrap();
    assert!(a < b && b < e);
    let y = xsd.find("<xs:element name=\"y\" type=\"xs:boolean\"/>").unwrap();
    let z = xsd.find("<xs:element name=\"z\" type=\"xs:dateTime\"/>").unwrap();
    assert!(y < z);
}

#[test]
fn nullable_field_gets_min_occurs_zero() {
    let input = "namespace n { schema S { a string? b string } }";
    let mut generator = SchemataToXsdGenerator::new("urn:n".to_string());
    let xsd = generator.generate(input).unwrap();
    assert!(xsd.contains("<xs:element name=\"a\" type=\"xs:string\" minOccurs=\"0\"/>"));
    assert!(xsd.contains("<xs:element name=\"b\" type=\"xs:string\"/>"));
    assert_eq!(xsd.matches("minOccurs").count(), 1);
}

#[test]
fn enumeration_order_is_kept() {
    let input = "namespace n { enum Gender { Male, Female } }";
    let mut generator = SchemataToXsdGenerator::new("urn:n".to_string());
    let xsd = generator.generate(input).unwrap();
    let male = xsd.find("<xs:enumeration value=\"Male\"/>").unwrap();
    let female = xsd.find("<xs:enumeration value=\"Female\"/>").unwrap();
    assert!(male < female);
}

#[test]
fn inline_fields_nest_to_any_depth() {
    let input = "namespace n { schema S { outer { mid { leaf int } } } }";
    let mut generator = SchemataToXsdGenerator::new("urn:n".to_string());
    let xsd = generator.generate(input).unwrap();
    assert!(xsd.contains(&[
        "<xs:element name=\"outer\"><xs:complexType><xs:sequence>",
        "<xs:element name=\"mid\"><xs:complexType><xs:sequence>",
        "<xs:element name=\"leaf\" type=\"xs:integer\"/>",
        "</xs:sequence></xs:complexType></xs:element>",
        "</xs:sequence></xs:complexType></xs:element>"
    ].concat()));
}

#[test]
fn first_max_occurs_annotation_wins() {
    let input = "namespace n { schema S { a int @maxOccurs(\"unbounded\") @maxOccurs(3) } }";
    let mut generator = SchemataToXsdGenerator::new("urn:n".to_string());
    let xsd = generator.generate(input).unwrap();
    assert!(xsd.contains("<xs:element name=\"a\" type=\"xs:integer\" maxOccurs=\"unbounded\"/>"));
}

#[test]
fn max_occurs_skips_boolean_values() {
    let generator = SchemataToXsdGenerator::new("urn:n".to_string());
    let annotations = vec![
        SchemataAnnotation {
            name: "@maxOccurs".to_string(),
            params: vec![("value".to_string(), AnnotationValue::Boolean(true))],
        },
        SchemataAnnotation {
            name: "@maxOccurs".to_string(),
            params: vec![("value".to_string(), AnnotationValue::Integer(-7))],
        },
    ];
    assert_eq!(generator.extract_max_occurs(&annotations), Some("-7".to_string()));
}

#[test]
fn attribute_values_are_escaped() {
    let input = "namespace n { schema S { a int } }";
    let mut generator = SchemataToXsdGenerator::new("urn:a&b\"c<d>".to_string());
    let xsd = generator.generate(input).unwrap();
    assert!(xsd.contains("targetNamespace=\"urn:a&amp;b&quot;c&lt;d&gt;\""));
}

#[test]
fn unparsable_source_is_a_parse_error() {
    let mut generator = SchemataToXsdGenerator::new("urn:n".to_string());
    match generator.generate("schema Lonely { a int }") {
        Err(GenerationError::Parse(ParseError::SyntaxError(_))) => {}
        _ => panic!("expected a syntax error"),
    }
}
