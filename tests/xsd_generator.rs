use schemata_xsd::{XsdParser, XsdToSchemataGenerator};

#[test]
fn reverse_scenario_min_occurs_annotation() {
    let xml = r#"<xs:schema xmlns:xs="http://www.w3.org/2001/XMLSchema">
        <xs:complexType name="TestType">
            <xs:sequence><xs:element name="testField" type="string" minOccurs="0"/></xs:sequence>
        </xs:complexType>
    </xs:schema>"#;
    let schema = XsdParser::parse(xml).unwrap_or_else(|_| panic!("Failed to parse XML"));
    let text = XsdToSchemataGenerator::new().generate(schema).unwrap_or_else(|_| panic!("generation failed"));
    assert!(text.contains("schema TestType {"));
    assert!(text.contains("testField string @minOccurs(0)"));
}

#[test]
fn renders_whole_document() {
    let xml = r#"<xs:schema xmlns:xs="http://www.w3.org/2001/XMLSchema" targetNamespace="urn:t">
        <xs:complexType name="P" mixed="true">
            <xs:sequence>
                <xs:element name="a" type="xs:int" maxOccurs="unbounded"/>
                <xs:element name="b"><xs:complexType><xs:sequence><xs:element name="c" type="xs:string"/></xs:sequence></xs:complexType></xs:element>
            </xs:sequence>
            <xs:attribute name="id" type="xs:string" use="required"/>
        </xs:complexType>
        <xs:simpleType name="Color"><xs:restriction base="xs:string"><xs:enumeration value="Red"/><xs:enumeration value="Blue"/></xs:restriction></xs:simpleType>
        <xs:simpleType name="NoEnum"><xs:list itemType="xs:int"/></xs:simpleType>
    </xs:schema>"#;
    let schema = XsdParser::parse(xml).unwrap_or_else(|_| panic!("Failed to parse XML"));
    let text = XsdToSchemataGenerator::default().generate(schema).unwrap_or_else(|_| panic!("generation failed"));
    assert_eq!(
        text,
        [
            "namespace urn:t {\n",
            "    @mixed(true) @attribute(name=\"id\", use=\"required\")\n",
            "    schema P {\n",
            "        a xs:int @maxOccurs(\"unbounded\")\n",
            "        b string {\n",
            "            c xs:string\n",
            "        }\n",
            "    }\n",
            "    enum Color {\n",
            "        Red\n",
            "        Blue\n",
            "    }\n",
            "}\n"
        ].concat()
    );
}

#[test]
fn unnamed_document_uses_default_names() {
    let xml = r#"<xs:schema xmlns:xs="http://www.w3.org/2001/XMLSchema">
        <xs:simpleType><xs:restriction base="xs:string"><xs:enumeration value="A"/></xs:restriction></xs:simpleType>
    </xs:schema>"#;
    let schema = XsdParser::parse(xml).unwrap_or_else(|_| panic!("Failed to parse XML"));
    let text = XsdToSchemataGenerator::new().generate(schema).unwrap_or_else(|_| panic!("generation failed"));
    assert_eq!(text, "namespace default {\n    enum UnnamedEnum {\n        A\n    }\n}\n");
}

#[test]
fn generated_schemata_reads_back() {
    let xml = r#"<xs:schema xmlns:xs="http://www.w3.org/2001/XMLSchema" targetNamespace="urn:t">
        <xs:complexType name="P">
            <xs:sequence>
                <xs:element name="a" type="xs:int" minOccurs="0" maxOccurs="unbounded"/>
                <xs:element name="b"><xs:complexType><xs:sequence><xs:element name="c" type="xs:string"/></xs:sequence></xs:complexType></xs:element>
            </xs:sequence>
            <xs:attribute name="id" type="xs:string" use="required"/>
        </xs:complexType>
    </xs:schema>"#;
    let schema = schemata_xsd::XsdParser::parse(xml).unwrap_or_else(|_| panic!("Failed to parse XML"));
    let text = XsdToSchemataGenerator::new().generate(schema).unwrap_or_else(|_| panic!("generation failed"));
    let file = schemata_xsd::SchemataParser::parse_schemata(&text).unwrap_or_else(|_| panic!("cannot read back"));
    let record = &file.namespaces[0].schemas[0];
    assert_eq!(record.name, "P");
    assert_eq!(record.annotations[0].name, "@attribute");
    assert_eq!(record.fields[0].type_ref, "xs:int");
    assert_eq!(record.fields[0].annotations.len(), 2);
    assert_eq!(record.fields[1].inline_schema.as_ref().unwrap().fields[0].name, "c");
}

#[test]
fn attribute_values_are_unescaped() {
    let xml = r#"<xs:schema xmlns:xs="http://www.w3.org/2001/XMLSchema" targetNamespace="urn:a&amp;b&#65;"></xs:schema>"#;
    let schema = schemata_xsd::XsdParser::parse(xml).unwrap_or_else(|_| panic!("Failed to parse XML"));
    assert_eq!(schema.target_namespace, Some("urn:a&bA".to_string()));
}

#[test]
fn attribute_with_bad_entity_is_skipped() {
    let xml = r#"<xs:schema xmlns:xs="http://www.w3.org/2001/XMLSchema" targetNamespace="urn:&bogus;"></xs:schema>"#;
    let schema = schemata_xsd::XsdParser::parse(xml).unwrap_or_else(|_| panic!("Failed to parse XML"));
    assert_eq!(schema.target_namespace, None);
}
