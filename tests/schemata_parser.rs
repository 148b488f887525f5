use schemata_xsd::{AnnotationValue, ParseError, SchemataParser};

#[test]
fn test_parse_simple_schema() {
    let input = r#"
        namespace example.com {
            schema Person {
                name string
                age int @optional
            }
        }
        "#;

    let result = SchemataParser::parse_schemata(input).expect("Should parse successfully");

    assert_eq!(result.namespaces.len(), 1);
    let namespace = &result.namespaces[0];
    assert_eq!(namespace.name, "example.com");
    assert_eq!(namespace.schemas.len(), 1);

    let schema = &namespace.schemas[0];
    assert_eq!(schema.name, "Person");
    assert_eq!(schema.fields.len(), 2);
}

#[test]
fn test_parse_schema_with_nullable_field() {
    let input = r#"
        schema TestNullable {
            required_field: String
            nullable_field: Int?
        }
        "#;

    let schema = SchemataParser::parse_schema(input).unwrap();

    assert_eq!(schema.name, "TestNullable");
    assert_eq!(schema.fields.len(), 2);

    let required_field = &schema.fields[0];
    assert_eq!(required_field.name, "required_field");
    assert_eq!(required_field.type_ref, "String");
    assert!(!required_field.nullable);

    let nullable_field = &schema.fields[1];
    assert_eq!(nullable_field.name, "nullable_field");
    assert_eq!(nullable_field.type_ref, "Int");
    assert!(nullable_field.nullable);
}

#[test]
fn test_parse_annotated_schema() {
    let input = r#"
        namespace example.com {
            @version("1.0")
            @description("User profile schema")
            schema User {
                @required
                id string

                @validate("email")
                email string
            }
        }
        "#;

    let result = SchemataParser::parse_schemata(input).expect("Should parse successfully");

    let schema = &result.namespaces[0].schemas[0];
    assert_eq!(schema.name, "User");
    assert_eq!(schema.annotations.len(), 2);
    assert_eq!(schema.fields.len(), 2);
}

#[test]
fn test_parse_complex_schema() {
    let input = r#"
        namespace example.com {
            schema Product {
                id string
                name string
                price float
                tags list<string>

                @nested
                details {
                    manufacturer string
                    year int
                }
            }

            enum Category {
                ELECTRONICS,
                BOOKS,
                CLOTHING
            }
        }
        "#;

    let result = SchemataParser::parse_schemata(input).expect("Should parse successfully");

    assert_eq!(result.namespaces.len(), 1);
    let namespace = &result.namespaces[0];

    assert_eq!(namespace.schemas.len(), 1);
    assert_eq!(namespace.enums.len(), 1);

    let schema = &namespace.schemas[0];
    assert_eq!(schema.name, "Product");
    assert_eq!(schema.fields.len(), 5);

    let enum_def = &namespace.enums[0];
    assert_eq!(enum_def.name, "Category");
    assert_eq!(enum_def.values.len(), 3);
}

#[test]
fn parses_annotation_parameters_by_kind() {
    let input = "namespace n { @meta(name=\"x\", count=-12, on=true, \"note\") schema S { a int @maxOccurs(10) } }";
    let file = SchemataParser::parse_schemata(input).unwrap();
    let schema = &file.namespaces[0].schemas[0];
    let ann = &schema.annotations[0];
    assert_eq!(ann.name, "@meta");
    assert_eq!(ann.params.len(), 4);
    assert_eq!(ann.params[0].0, "name");
    assert!(matches!(&ann.params[0].1, AnnotationValue::String(s) if s == "x"));
    assert!(matches!(ann.params[1].1, AnnotationValue::Integer(-12)));
    assert!(matches!(ann.params[2].1, AnnotationValue::Boolean(true)));
    assert_eq!(ann.params[3].0, "value");
    assert!(matches!(&ann.params[3].1, AnnotationValue::String(s) if s == "note"));
    let field = &schema.fields[0];
    assert_eq!(field.annotations[0].name, "@maxOccurs");
    assert!(matches!(field.annotations[0].params[0].1, AnnotationValue::Integer(10)));
}

#[test]
fn repeated_parameter_key_keeps_later_value() {
    let input = "namespace n { @a(k=1, j=2, k=3) schema S { } }";
    let file = SchemataParser::parse_schemata(input).unwrap();
    let params = &file.namespaces[0].schemas[0].annotations[0].params;
    assert_eq!(params.len(), 2);
    assert_eq!(params[0].0, "k");
    assert!(matches!(params[0].1, AnnotationValue::Integer(3)));
}

#[test]
fn braceless_namespaces_split_at_keyword() {
    let input = "namespace http://a.example/x\nschema A { f int }\nnamespace b\nenum E { X Y }\n";
    let file = SchemataParser::parse_schemata(input).unwrap();
    assert_eq!(file.namespaces.len(), 2);
    assert_eq!(file.namespaces[0].name, "http://a.example/x");
    assert_eq!(file.namespaces[0].schemas[0].name, "A");
    assert_eq!(file.namespaces[1].name, "b");
    assert_eq!(file.namespaces[1].enums[0].values, vec!["X".to_string(), "Y".to_string()]);
}

#[test]
fn inline_record_types_nest() {
    let input = "namespace n { schema S { a { b { c int } } } }";
    let file = SchemataParser::parse_schemata(input).unwrap();
    let a = &file.namespaces[0].schemas[0].fields[0];
    let inner = a.inline_schema.as_ref().unwrap();
    assert_eq!(inner.name, "InlineSchema");
    let b = &inner.fields[0];
    let c = &b.inline_schema.as_ref().unwrap().fields[0];
    assert_eq!(c.name, "c");
    assert_eq!(c.type_ref, "int");
}

#[test]
fn field_comment_and_empty_file() {
    let input = "// header\nnamespace n {\n schema S {\n  a int // the count\n  b bool\n }\n}\n";
    let file = SchemataParser::parse_schemata(input).unwrap();
    let fields = &file.namespaces[0].schemas[0].fields;
    assert_eq!(fields[0].comment, Some("// the count".to_string()));
    assert_eq!(fields[1].comment, None);
    assert_eq!(SchemataParser::parse_schemata("  \n").unwrap().namespaces.len(), 0);
}

#[test]
fn grammar_mismatch_is_a_syntax_error() {
    assert!(matches!(SchemataParser::parse_schemata("namespace n { schema { } }"), Err(ParseError::SyntaxError(_))));
    assert!(matches!(SchemataParser::parse_schemata("namespace n { schema S { a int "), Err(ParseError::SyntaxError(_))));
}

#[test]
fn integer_out_of_range_is_invalid_structure() {
    let input = "namespace n { schema S { a int @maxOccurs(99999999999) } }";
    assert!(matches!(SchemataParser::parse_schemata(input), Err(ParseError::InvalidStructure)));
    let low = "namespace n { @x(-2147483648) schema S { } }";
    let file = SchemataParser::parse_schemata(low).unwrap();
    assert!(matches!(file.namespaces[0].schemas[0].annotations[0].params[0].1, AnnotationValue::Integer(i32::MIN)));
}

#[test]
fn syntax_error_reports_position() {
    assert!(matches!(SchemataParser::parse_schemata("namespace n { schema { } }"), Err(ParseError::SyntaxError(21))));
}

#[test]
fn bare_word_value_is_a_syntax_error() {
    let input = "namespace n { schema S { a int @maxOccurs(unbounded) } }";
    assert!(matches!(SchemataParser::parse_schemata(input), Err(ParseError::SyntaxError(42))));
    let keyed = "namespace n { @a(k=word) schema S { } }";
    assert!(matches!(SchemataParser::parse_schemata(keyed), Err(ParseError::SyntaxError(19))));
}
