use language_interop::analyzers::rescript_analyzer::analyze_rescript_type;
use language_interop::analyzers::rust_analyzer;
use language_interop::analyzers::rust_analyzer::analyze_rust_type;
use language_interop::{
    calculate_transport_class, classify, compare_sources, compatibility_report, Ecosystem,
    ExtractionError, MappingError, Score,
    TransportClass,
};

#[test]
fn test_transport_class_rescript_rust() {
    let class = calculate_transport_class("rescript", "rust");
    assert_eq!(class, TransportClass::Concorde);
}

#[test]
fn test_transport_class_symmetric() {
    let class1 = calculate_transport_class("rescript", "rust");
    let class2 = calculate_transport_class("rust", "rescript");
    assert_eq!(class1, class2);
}

#[test]
fn transport_class_with_unknown_ecosystem_is_wheelbarrow() {
    assert_eq!(calculate_transport_class("rescript", "cobol"), TransportClass::Wheelbarrow);
    assert_eq!(calculate_transport_class("cobol", "rust"), TransportClass::Wheelbarrow);
}

#[test]
fn transport_class_symmetric_for_target_only_ecosystem() {
    assert_eq!(
        calculate_transport_class("rust", "julia"),
        calculate_transport_class("julia", "rust")
    );
}

#[test]
fn classify_boundaries() {
    assert_eq!(classify(&Score { num: 99, den: 100 }), TransportClass::Concorde);
    assert_eq!(classify(&Score { num: 9899, den: 10000 }), TransportClass::BusinessClass);
    assert_eq!(classify(&Score { num: 95, den: 100 }), TransportClass::BusinessClass);
    assert_eq!(classify(&Score { num: 9499, den: 10000 }), TransportClass::Economy);
    assert_eq!(classify(&Score { num: 80, den: 100 }), TransportClass::Economy);
    assert_eq!(classify(&Score { num: 7999, den: 10000 }), TransportClass::Wheelbarrow);
}

#[test]
fn classify_extremes() {
    assert_eq!(classify(&Score { num: 1, den: 1 }), TransportClass::Concorde);
    assert_eq!(classify(&Score { num: 0, den: 1 }), TransportClass::Wheelbarrow);
}

#[test]
fn ecosystem_tags() {
    assert_eq!(Ecosystem::from_tag("rescript"), Some(Ecosystem::ReScript));
    assert_eq!(Ecosystem::from_tag("rust"), Some(Ecosystem::Rust));
    assert_eq!(Ecosystem::from_tag("julia"), Some(Ecosystem::Julia));
    assert_eq!(Ecosystem::from_tag("gleam"), Some(Ecosystem::Gleam));
    assert_eq!(Ecosystem::from_tag("Rust"), None);
}

#[test]
fn report_for_matching_user_records() {
    let a = analyze_rescript_type(
        "type user = {\n  id: int,\n  name: string,\n  email: string,\n  active: bool,\n}\n",
    )
    .unwrap();
    let b = analyze_rust_type(
        "pub struct User {\n    pub id: i64,\n    pub name: String,\n    pub email: String,\n    pub active: bool,\n}\n",
    )
    .unwrap();
    let report = compatibility_report(&a, &b);
    assert_eq!(report.forward, Score { num: 40, den: 40 });
    assert_eq!(report.backward, Score { num: 40, den: 40 });
    assert_eq!(report.transport_class, TransportClass::Concorde);
    assert_eq!(report.mappings.len(), 4);
    let expected = [("id", "int", "i64"), ("name", "string", "String"), ("email", "string", "String"), ("active", "bool", "bool")];
    for (m, (name, src, dst)) in report.mappings.iter().zip(expected.iter()) {
        assert_eq!(m.source_name, *name);
        assert_eq!(m.source_type, *src);
        assert_eq!(m.target_type, Ok(dst.to_string()));
        assert!(!m.unmatched);
    }
}

#[test]
fn report_flags_unmatched_and_lossy_fields() {
    let a = analyze_rescript_type("type order = { id: int, items: array<item>, note?: string }").unwrap();
    let b = analyze_rust_type("struct Order { pub id: u64, secret: String }").unwrap();
    let report = compatibility_report(&a, &b);
    assert_eq!(report.forward, Score { num: 30, den: 30 });
    // u64 loses precision in ReScript's int; the private field does not count
    assert_eq!(report.backward, Score { num: 9, den: 10 });
    assert_eq!(report.transport_class, TransportClass::Economy);
    assert!(!report.mappings[0].unmatched);
    assert!(report.mappings[1].unmatched);
    assert_eq!(report.mappings[1].target_type, Ok("Vec<item>".to_string()));
    assert_eq!(report.mappings[2].source_type, "string");
    assert!(report.mappings[2].unmatched);
}

#[test]
fn result_has_no_julia_equivalent_while_siblings_map() {
    let t = analyze_rust_type(
        "pub struct Stats { pub id: i64, pub samples: Option<Vec<i64>>, pub outcome: Result<i64, String>, pub label: String }",
    )
    .unwrap();
    let rendered: Vec<_> = t.fields.iter().map(|f| rust_analyzer::map_to_target(&f.field_type, "julia")).collect();
    assert_eq!(rendered[0], Ok("Int64".to_string()));
    assert_eq!(rendered[1], Ok("Union{Nothing, Vector{Int64}}".to_string()));
    assert_eq!(rendered[2], Err(MappingError::NoEquivalentConstruct));
    assert_eq!(rendered[3], Ok("String".to_string()));
}

#[test]
fn compare_sources_short_circuits_on_extraction_error() {
    assert_eq!(
        compare_sources("let x = 1", "pub struct User { pub id: i64 }").unwrap_err(),
        ExtractionError::NotFound
    );
    assert_eq!(
        compare_sources("type user = { id: int }", "fn f() {}").unwrap_err(),
        ExtractionError::NotFound
    );
    assert_eq!(
        compare_sources("type user = { id int }", "fn f() {}").unwrap_err(),
        ExtractionError::Malformed
    );
    let report = compare_sources("type user = { id: int }", "pub struct User { pub id: i64 }").unwrap();
    assert_eq!(report.transport_class, TransportClass::Concorde);
    assert_eq!(report.mappings.len(), 1);
}
