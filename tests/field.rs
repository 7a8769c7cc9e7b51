use loco_mcp::field::{
    validate_field_list, BindingError, FieldConstraint, FieldDefinition, FieldType,
};

#[test]
fn test_field_parsing() {
    let field = FieldDefinition::from_str("name:string").unwrap();
    assert_eq!(field.name, "name");
    assert_eq!(field.field_type, FieldType::String);
    assert!(field.constraints.is_empty());
    assert!(!field.optional);

    let field = FieldDefinition::from_str("email:string:unique").unwrap();
    assert_eq!(field.name, "email");
    assert_eq!(field.field_type, FieldType::String);
    assert_eq!(field.constraints.len(), 1);
    assert!(field.is_unique());

    let field = FieldDefinition::from_str("price:i32:nullable").unwrap();
    assert_eq!(field.name, "price");
    assert_eq!(field.field_type, FieldType::I32);
    assert!(field.optional);
}

#[test]
fn test_invalid_field_names() {
    let invalid_names = ["123name", "name-with-dash", "name with space", "Name", "id"];

    for name in invalid_names {
        let result = FieldDefinition::from_str(&format!("{}:string", name));
        assert!(result.is_err(), "Field name '{}' should be invalid", name);
    }
}

#[test]
fn test_duplicate_field_validation() {
    let fields = vec!["name:string".to_string(), "name:string".to_string()];

    let result = validate_field_list(&fields);
    assert!(result.is_err());
    assert!(result.unwrap_err().to_text().contains("Duplicate field name"));
}

fn text(e: BindingError) -> String {
    match e {
        BindingError::Validation(m) => m,
    }
}

#[test]
fn field_types_in_any_case() {
    assert_eq!(FieldType::from_str("STRING").unwrap(), FieldType::String);
    assert_eq!(FieldType::from_str("DateTime").unwrap(), FieldType::DateTime);
    assert_eq!(FieldType::from_str("uuid").unwrap(), FieldType::Uuid);
    assert_eq!(FieldType::Boolean.to_string(), "boolean");
    assert_eq!(FieldType::F64.to_string(), "f64");
    assert!(text(FieldType::from_str("decimal").unwrap_err()).starts_with("Unsupported field type: 'decimal'"));
}

#[test]
fn constraints_parse_and_print() {
    assert_eq!(FieldConstraint::from_str("unique").unwrap(), FieldConstraint::Unique);
    assert_eq!(FieldConstraint::from_str("primary_key").unwrap(), FieldConstraint::PrimaryKey);
    assert_eq!(FieldConstraint::from_str("optional").unwrap(), FieldConstraint::Nullable);
    assert_eq!(
        FieldConstraint::from_str("default:42").unwrap(),
        FieldConstraint::Default("42".to_string())
    );
    assert_eq!(
        FieldConstraint::from_str("foreign_key:users").unwrap(),
        FieldConstraint::ForeignKey("users".to_string())
    );
    assert!(FieldConstraint::from_str("Unique").is_err());
    assert_eq!(FieldConstraint::Default("x".to_string()).to_string(), "default:x");
    assert_eq!(FieldConstraint::Optional.to_string(), "optional");
}

#[test]
fn definitions_trim_parts_and_print_back() {
    let f = FieldDefinition::from_str(" title : Text : unique : optional ").unwrap();
    assert_eq!(f.name, "title");
    assert_eq!(f.field_type, FieldType::Text);
    assert_eq!(f.constraints, vec![FieldConstraint::Unique, FieldConstraint::Nullable]);
    assert_eq!(f.to_string(), "title:text:unique:nullable");
    assert!(f.optional);
    // Every colon separates parts, so a default value cannot be written inline.
    assert!(FieldDefinition::from_str("title:text:default:none").is_err());
    let g = FieldDefinition {
        name: "views".to_string(),
        field_type: FieldType::I64,
        constraints: vec![FieldConstraint::Default("0".to_string())],
        optional: false,
    };
    assert_eq!(g.to_string(), "views:i64:default:0");
    assert!(f.has_constraint(&FieldConstraint::Unique));
    assert!(!f.is_primary_key());
    assert!(f.is_nullable());
    assert!(!g.is_nullable());
}

#[test]
fn definition_errors() {
    assert!(text(FieldDefinition::from_str("name").unwrap_err()).starts_with("Invalid field format"));
    assert_eq!(text(FieldDefinition::from_str(":string").unwrap_err()), "Field name cannot be empty");
    assert!(text(FieldDefinition::from_str("fn:string").unwrap_err()).contains("reserved keyword"));
    assert!(FieldDefinition::from_str("name:string:bogus").is_err());
    let f = FieldDefinition::from_str("id_ref:uuid:primary_key").unwrap();
    assert!(f.is_primary_key());
}

#[test]
fn field_lists() {
    assert_eq!(
        text(validate_field_list(&Vec::new()).unwrap_err()),
        "At least one field must be specified"
    );
    let ok = validate_field_list(&vec!["title:string".to_string(), "views:i64:nullable".to_string()]).unwrap();
    assert_eq!(ok.len(), 2);
    assert!(ok[1].is_nullable());
    let two_keys = vec!["a:uuid:primary_key".to_string(), "b:uuid:primary_key".to_string()];
    assert_eq!(
        text(validate_field_list(&two_keys).unwrap_err()),
        "Only one field can be marked as primary key"
    );
    assert_eq!(
        text(validate_field_list(&vec!["title:string".to_string(), " title :text".to_string()]).unwrap_err()),
        "Duplicate field name: 'title'. Each field name must be unique"
    );
}

#[test]
fn error_texts_name_the_input() {
    assert_eq!(
        text(FieldType::from_str("Decimal").unwrap_err()),
        "Unsupported field type: 'Decimal'. Supported types: string, i32, i64, f32, f64, boolean, datetime, uuid, json, text"
    );
    assert_eq!(
        text(FieldConstraint::from_str("indexed").unwrap_err()),
        "Unsupported constraint: 'indexed'. Supported constraints: unique, primary_key, nullable, optional, default:<value>, foreign_key:<table>"
    );
}
