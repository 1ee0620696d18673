use language_interop::analyzers::rust_analyzer::{
    analyze_rust_type, compatibility_score, generate_ffi_wrapper, is_ffi_safe, map_to_target, resolve,
};
use language_interop::analyzers::TypeModelError;
use language_interop::{
    ExtractionError, MappingError, RustField, RustFieldType, RustType, Score, Visibility,
};

#[test]
fn rust_analyzer_test_analyze_user_type() {
    let source = r#"
#[derive(Debug, Clone, PartialEq)]
#[repr(C)]
pub struct User {
    pub id: i64,
    pub name: String,
    pub email: String,
    pub active: bool,
}
"#;
    let result = analyze_rust_type(source);
    assert!(result.is_ok());
    let user_type = result.unwrap();
    assert_eq!(user_type.name, "User");
    assert_eq!(user_type.fields.len(), 4);
}

#[test]
fn test_compatibility_rescript() {
    let source = "pub struct User { pub id: i64 }";
    let user_type = analyze_rust_type(source).unwrap();
    let score = compatibility_score(&user_type, "rescript");
    assert_eq!(score.num, score.den); // Concorde class
}

#[test]
fn test_type_mapping_rescript() {
    assert_eq!(map_to_target(&RustFieldType::I64, "rescript").unwrap(), "int");
    assert_eq!(map_to_target(&RustFieldType::String, "rescript").unwrap(), "string");
    assert_eq!(map_to_target(&RustFieldType::Bool, "rescript").unwrap(), "bool");
}

#[test]
fn rust_analyzer_test_type_mapping_julia() {
    assert_eq!(map_to_target(&RustFieldType::I64, "julia").unwrap(), "Int64");
    assert_eq!(map_to_target(&RustFieldType::String, "julia").unwrap(), "String");
    assert_eq!(map_to_target(&RustFieldType::Bool, "julia").unwrap(), "Bool");
}

#[test]
fn test_ffi_safe_detection() {
    let user_type = RustType {
        name: "User".to_string(),
        fields: vec![],
        attributes: vec!["#[repr(C)]".to_string()],
        location: "test.rs".to_string(),
    };
    assert!(is_ffi_safe(&user_type));
}

#[test]
fn rust_attributes_and_visibility() {
    let t = analyze_rust_type(
        "#[derive(Debug, Clone, PartialEq)]\n#[repr(C)]\npub struct Account {\n    pub id: u64,\n    pub(crate) owner: String,\n    balance: f64,\n    pub history: Vec<Result<i32, String>>,\n}",
    )
    .unwrap();
    assert_eq!(t.attributes, vec!["#[derive(Debug, Clone, PartialEq)]".to_string(), "#[repr(C)]".to_string()]);
    assert!(is_ffi_safe(&t));
    assert_eq!(t.fields[0].visibility, Visibility::Public);
    assert_eq!(t.fields[1].visibility, Visibility::Crate);
    assert_eq!(t.fields[2].visibility, Visibility::Private);
    assert_eq!(t.fields[3].visibility, Visibility::Public);
    assert_eq!(map_to_target(&t.fields[3].field_type, "rescript").unwrap(), "array<result<int, string>>");
    assert_eq!(map_to_target(&t.fields[3].field_type, "gleam").unwrap(), "List(Result(Int, String))");
    assert_eq!(map_to_target(&t.fields[3].field_type, "julia"), Err(MappingError::NoEquivalentConstruct));
}

#[test]
fn rust_not_ffi_safe_without_repr_c() {
    let t = analyze_rust_type("#[derive(Debug)]\nstruct P { x: i32 }").unwrap();
    assert!(!is_ffi_safe(&t));
}

#[test]
fn rust_score_counts_public_fields_only() {
    let t = analyze_rust_type("pub struct M { pub a: u64, pub b: i64, c: Option<i32> }").unwrap();
    assert_eq!(compatibility_score(&t, "rescript"), Score { num: 19, den: 20 });
    assert_eq!(compatibility_score(&t, "julia"), Score { num: 20, den: 20 });
    let hidden = analyze_rust_type("struct H { a: u8x, b: i64 }").unwrap();
    assert_eq!(compatibility_score(&hidden, "rescript"), Score { num: 1, den: 1 });
}

#[test]
fn rust_struct_names_lowercased_for_rescript() {
    let t = RustFieldType::Struct("UserId".to_string());
    assert_eq!(map_to_target(&t, "rescript").unwrap(), "userid");
    assert_eq!(map_to_target(&t, "gleam").unwrap(), "UserId");
    assert_eq!(map_to_target(&t, "rust"), Err(MappingError::UnknownEcosystem));
}

#[test]
fn rust_not_found_and_errors() {
    assert_eq!(analyze_rust_type("fn main() {}").unwrap_err(), ExtractionError::NotFound);
    assert_eq!(analyze_rust_type("pub struct Unit;").unwrap_err(), ExtractionError::NotFound);
    assert_eq!(analyze_rust_type("struct A { pub x: HashMap<String, i64> }").unwrap_err(), ExtractionError::UnsupportedConstruct);
    assert_eq!(analyze_rust_type("struct A { pub x: usize }").unwrap_err(), ExtractionError::UnsupportedConstruct);
    assert_eq!(analyze_rust_type("struct A { pub x: Vec<i64, i64> }").unwrap_err(), ExtractionError::Malformed);
    assert_eq!(analyze_rust_type("struct A { pub x: &str }").unwrap_err(), ExtractionError::Malformed);
}

#[test]
fn rust_ffi_wrapper_layout() {
    let t = analyze_rust_type("pub struct User { pub id: i64, pub name: String, pub tags: Vec<u32> }").unwrap();
    assert_eq!(
        generate_ffi_wrapper(&t),
        "/// FFI-safe User representation\n#[repr(C)]\npub struct UserFFI {\n    id: i64,\n    name_ptr: *const u8,\n    name_len: usize,\n    tags: vec(u32),\n}\n"
    );
}

#[test]
fn rust_validate_and_resolve() {
    let t = RustType {
        name: "Pair".to_string(),
        fields: vec![
            RustField { name: "x".to_string(), field_type: RustFieldType::I32, visibility: Visibility::Public },
            RustField { name: "x".to_string(), field_type: RustFieldType::I64, visibility: Visibility::Private },
        ],
        attributes: vec![],
        location: String::new(),
    };
    assert_eq!(t.validate(), Err(TypeModelError::DuplicateField));
    let parsed = analyze_rust_type("struct Pair { pub x: i32, pub y: i32 }").unwrap();
    assert_eq!(parsed.validate(), Ok(()));
    let registry = vec![t, parsed];
    assert_eq!(resolve("Pair", &registry).unwrap().fields.len(), 2);
    assert_eq!(resolve("Pair", &registry).unwrap().fields[1].visibility, Visibility::Private);
    assert!(resolve("pair", &registry).is_none());
}

#[test]
fn rust_ffi_wrapper_debug_spelling() {
    let t = analyze_rust_type("struct Node { pub parent: Option<NodeId>, pub r: Result<i64, String> }").unwrap();
    assert_eq!(
        generate_ffi_wrapper(&t),
        "/// FFI-safe Node representation\n#[repr(C)]\npub struct NodeFFI {\n    parent: option(struct(\"nodeid\")),\n    r: result(i64, string),\n}\n"
    );
}

#[test]
fn rust_identifiers_cannot_start_with_digit() {
    assert_eq!(analyze_rust_type("struct A { pub x: 1abc }").unwrap_err(), ExtractionError::Malformed);
    assert_eq!(analyze_rust_type("struct A { 1x: i64 }").unwrap_err(), ExtractionError::Malformed);
}

#[test]
fn rust_option_renders_as_julia_union() {
    let t = RustFieldType::Option(Box::new(RustFieldType::Vec(Box::new(RustFieldType::I64))));
    assert_eq!(map_to_target(&t, "julia").unwrap(), "Union{Nothing, Vector{Int64}}");
}
