use language_interop::analyzers::rescript_analyzer::{
    analyze_rescript_type, compatibility_score, map_to_target, resolve, type_text,
};
use language_interop::analyzers::TypeModelError;
use language_interop::{
    ExtractionError, MappingError, ReScriptField, ReScriptFieldType, ReScriptType, Score,
};

#[test]
fn rescript_analyzer_test_analyze_user_type() {
    let source = r#"
type user = {
  id: int,
  name: string,
  email: string,
  active: bool,
}
"#;
    let result = analyze_rescript_type(source);
    assert!(result.is_ok());
    let user_type = result.unwrap();
    assert_eq!(user_type.name, "user");
    assert_eq!(user_type.fields.len(), 4);
}

#[test]
fn test_compatibility_rust() {
    let source = "type user = { id: int }";
    let user_type = analyze_rescript_type(source).unwrap();
    let score = compatibility_score(&user_type, "rust");
    assert_eq!(score.num, score.den); // Concorde class
}

#[test]
fn test_type_mapping_rust() {
    assert_eq!(map_to_target(&ReScriptFieldType::Int, "rust").unwrap(), "i64");
    assert_eq!(map_to_target(&ReScriptFieldType::String, "rust").unwrap(), "String");
    assert_eq!(map_to_target(&ReScriptFieldType::Bool, "rust").unwrap(), "bool");
}

#[test]
fn rescript_analyzer_test_type_mapping_julia() {
    assert_eq!(map_to_target(&ReScriptFieldType::Int, "julia").unwrap(), "Int64");
    assert_eq!(map_to_target(&ReScriptFieldType::String, "julia").unwrap(), "String");
    assert_eq!(map_to_target(&ReScriptFieldType::Bool, "julia").unwrap(), "Bool");
}

#[test]
fn rescript_fields_in_order_with_types() {
    let t = analyze_rescript_type(
        "// users\ntype profile = {\n  tags: array<string>,\n  manager?: option<user>,\n  score: float\n}",
    )
    .unwrap();
    assert_eq!(t.name, "profile");
    assert_eq!(t.location, "");
    assert_eq!(t.fields.len(), 3);
    assert_eq!(t.fields[0].name, "tags");
    assert!(!t.fields[0].optional);
    assert_eq!(type_text(&t.fields[0].field_type), "array<string>");
    assert_eq!(t.fields[1].name, "manager");
    assert!(t.fields[1].optional);
    assert_eq!(type_text(&t.fields[1].field_type), "option<user>");
    assert!(matches!(t.fields[2].field_type, ReScriptFieldType::Float));
}

#[test]
fn rescript_empty_record() {
    let t = analyze_rescript_type("type empty = {}").unwrap();
    assert_eq!(t.fields.len(), 0);
    assert_eq!(compatibility_score(&t, "gleam"), Score { num: 1, den: 1 });
    assert_eq!(compatibility_score(&t, "cobol"), Score { num: 1, den: 1 });
}

#[test]
fn rescript_skips_non_record_declaration() {
    let t = analyze_rescript_type("type id = int\ntype user = { id: id }").unwrap();
    assert_eq!(t.name, "user");
    assert!(matches!(&t.fields[0].field_type, ReScriptFieldType::Record(n) if n == "id"));
}

#[test]
fn rescript_not_found() {
    assert_eq!(analyze_rescript_type("let x = 1").unwrap_err(), ExtractionError::NotFound);
    assert_eq!(analyze_rescript_type("").unwrap_err(), ExtractionError::NotFound);
    assert_eq!(analyze_rescript_type("mytype user = { id: int }").unwrap_err(), ExtractionError::NotFound);
}

#[test]
fn rescript_malformed() {
    assert_eq!(analyze_rescript_type("type user = { id int }").unwrap_err(), ExtractionError::Malformed);
    assert_eq!(analyze_rescript_type("type user = { id: int").unwrap_err(), ExtractionError::Malformed);
    assert_eq!(analyze_rescript_type("type user = { id: int, id: string }").unwrap_err(), ExtractionError::Malformed);
    assert_eq!(analyze_rescript_type("type user = { xs: array }").unwrap_err(), ExtractionError::Malformed);
    assert_eq!(analyze_rescript_type("type user = { a: int b: int }").unwrap_err(), ExtractionError::Malformed);
}

#[test]
fn rescript_unsupported() {
    assert_eq!(analyze_rescript_type("type user = { r: result<int, string> }").unwrap_err(), ExtractionError::UnsupportedConstruct);
    assert_eq!(analyze_rescript_type("type user = { d: dict<int> }").unwrap_err(), ExtractionError::UnsupportedConstruct);
    assert_eq!(analyze_rescript_type("type user = { u: unit }").unwrap_err(), ExtractionError::UnsupportedConstruct);
    assert_eq!(analyze_rescript_type("type t = { f: int => int }").unwrap_err(), ExtractionError::UnsupportedConstruct);
}

#[test]
fn rescript_composite_rendering() {
    let t = ReScriptFieldType::Option(Box::new(ReScriptFieldType::Array(Box::new(ReScriptFieldType::Int))));
    assert_eq!(map_to_target(&t, "rust").unwrap(), "Option<Vec<i64>>");
    assert_eq!(map_to_target(&t, "gleam").unwrap(), "Option(List(Int))");
    assert_eq!(map_to_target(&t, "julia").unwrap(), "Union{Nothing, Vector{Int64}}");
    let v = ReScriptFieldType::Array(Box::new(ReScriptFieldType::Float));
    assert_eq!(map_to_target(&v, "julia").unwrap(), "Vector{Float64}");
    assert_eq!(map_to_target(&ReScriptFieldType::Int, "rescript"), Err(MappingError::UnknownEcosystem));
    assert_eq!(map_to_target(&ReScriptFieldType::Int, "cobol"), Err(MappingError::UnknownEcosystem));
}

#[test]
fn rescript_mapping_is_repeatable() {
    let t = ReScriptFieldType::Array(Box::new(ReScriptFieldType::Record("user".to_string())));
    assert_eq!(map_to_target(&t, "gleam"), map_to_target(&t, "gleam"));
    assert_eq!(map_to_target(&t, "gleam").unwrap(), "List(user)");
}

#[test]
fn rescript_partial_score() {
    let t = analyze_rescript_type("type p = { a: int, b: option<int> }").unwrap();
    assert_eq!(compatibility_score(&t, "julia"), Score { num: 20, den: 20 });
    assert_eq!(compatibility_score(&t, "rust"), Score { num: 20, den: 20 });
    assert_eq!(compatibility_score(&t, "cobol"), Score { num: 0, den: 20 });
}

#[test]
fn rescript_validate_duplicate_field() {
    let field = |n: &str| ReScriptField {
        name: n.to_string(),
        field_type: ReScriptFieldType::Int,
        optional: false,
    };
    let ok = ReScriptType { name: "t".to_string(), fields: vec![field("a"), field("b")], location: String::new() };
    assert_eq!(ok.validate(), Ok(()));
    let dup = ReScriptType { name: "t".to_string(), fields: vec![field("a"), field("b"), field("a")], location: String::new() };
    assert_eq!(dup.validate(), Err(TypeModelError::DuplicateField));
}

#[test]
fn rescript_resolve_by_name() {
    let registry = vec![
        analyze_rescript_type("type user = { id: int }").unwrap(),
        analyze_rescript_type("type team = { members: array<user> }").unwrap(),
    ];
    assert_eq!(resolve("team", &registry).unwrap().fields[0].name, "members");
    assert_eq!(resolve("user", &registry).unwrap().name, "user");
    assert!(resolve("org", &registry).is_none());
}

#[test]
fn rescript_numeric_type_name_is_malformed() {
    assert_eq!(analyze_rescript_type("type t = { x: 123 }").unwrap_err(), ExtractionError::Malformed);
    assert_eq!(analyze_rescript_type("type t = { x: 42 }").unwrap_err(), ExtractionError::Malformed);
}

#[test]
fn rescript_first_declaration_taken() {
    let t = analyze_rescript_type("type a = { x: int }\ntype b = { y: string, z: bool }").unwrap();
    assert_eq!(t.name, "a");
    assert_eq!(t.fields.len(), 1);
    assert_eq!(t.fields[0].name, "x");
}
