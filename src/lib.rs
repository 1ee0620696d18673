//! Cross-ecosystem type compatibility analysis: reads record declarations
//! written in ReScript and Rust, scores how faithfully each one travels into
//! another ecosystem, classifies the pair, and renders field types.
pub mod analyzers;

pub use analyzers::{
    calculate_transport_class, classify, compare_sources, compatibility_report, CompatibilityReport, Ecosystem,
    ExtractionError, FieldMapping, MappingError, ReScriptField, ReScriptFieldType, ReScriptType,
    RustField, RustFieldType, RustType, Score, TransportClass, TypeModelError, Visibility,
};
