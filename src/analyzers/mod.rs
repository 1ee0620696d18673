//! Type compatibility analysis across language ecosystems: the shared
//! vocabulary (ecosystems, errors, scores, transport classes) and the report
//! that combines the per-ecosystem analyzers.
pub mod rescript_analyzer;
pub mod rust_analyzer;
pub mod syntax;

pub use rescript_analyzer::{ReScriptField, ReScriptFieldType, ReScriptType};
pub use rust_analyzer::{RustField, RustFieldType, RustType, Visibility};

use vstd::prelude::*;
use self::syntax::{same_text, text_result};
use self::rescript_analyzer::{
    rescript_decl_at, rescript_names_distinct, rescript_points, rescript_points_sum,
    rescript_fields_are, rescript_parse, rescript_render_tag, rescript_score_is, rescript_text,
};
use self::rust_analyzer::{
    public_count, rust_decl_at, rust_fields_are, rust_names_distinct, rust_parse, rust_points,
    rust_points_sum, rust_score_is,
};

verus! {

/// Transport class: how faithfully values survive a round trip between two ecosystems.
#[derive(Debug, Clone, Copy, PartialEq, Eq, Structural)]
pub enum TransportClass {
    /// Score of at least 99%: every field has a direct equivalent.
    Concorde,
    /// Score in [95%, 99%): minor precision differences.
    BusinessClass,
    /// Score in [80%, 95%): some coercion needed.
    Economy,
    /// Score below 80%: significant impedance mismatch.
    Wheelbarrow,
}

/// Why a declaration could not be read into the type model.
#[derive(Debug, Clone, Copy, PartialEq, Eq, Structural)]
pub enum ExtractionError {
    /// The text holds no aggregate type declaration.
    NotFound,
    /// A declaration is there, but it or one of its field types cannot be read.
    Malformed,
    /// A field type exists in the ecosystem but has no place in the shared type algebra.
    UnsupportedConstruct,
}

/// Why a field type could not be rendered in a target ecosystem.
#[derive(Debug, Clone, Copy, PartialEq, Eq, Structural)]
pub enum MappingError {
    /// The target ecosystem has no constructor for this shape.
    NoEquivalentConstruct,
    /// The target tag names no ecosystem that this source can be rendered into.
    UnknownEcosystem,
}

/// Why a type definition breaks the model's invariant.
#[derive(Debug, Clone, Copy, PartialEq, Eq, Structural)]
pub enum TypeModelError {
    /// Two fields share a name.
    DuplicateField,
}

/// The ecosystems that have capability tables.
#[derive(Debug, Clone, Copy, PartialEq, Eq, Structural)]
pub enum Ecosystem {
    ReScript,
    Rust,
    Julia,
    Gleam,
}

/// The ecosystem that a tag names, if any.
pub open spec fn ecosystem_of(tag: Seq<char>) -> Option<Ecosystem> {
    if tag == "rescript"@ {
        Some(Ecosystem::ReScript)
    } else if tag == "rust"@ {
        Some(Ecosystem::Rust)
    } else if tag == "julia"@ {
        Some(Ecosystem::Julia)
    } else if tag == "gleam"@ {
        Some(Ecosystem::Gleam)
    } else {
        None
    }
}

impl Ecosystem {
    /// Reads an ecosystem tag ("rescript", "rust", "julia", "gleam").
    pub fn from_tag(tag: &str) -> (r: Option<Ecosystem>)
        ensures
            r == ecosystem_of(tag@),
    {
        if same_text(tag, "rescript") {
            Some(Ecosystem::ReScript)
        } else if same_text(tag, "rust") {
            Some(Ecosystem::Rust)
        } else if same_text(tag, "julia") {
            Some(Ecosystem::Julia)
        } else if same_text(tag, "gleam") {
            Some(Ecosystem::Gleam)
        } else {
            None
        }
    }
}

/// The largest denominator a score may have: ten points for each of at most
/// 2^64 fields fits below it.
pub const MAX_DEN: u128 = 0x10_0000_0000_0000_0000;

/// A fidelity score, the fraction `num / den` in [0, 1].
#[derive(Debug, Clone, Copy, PartialEq, Eq, Structural)]
pub struct Score {
    pub num: u128,
    pub den: u128,
}

impl Score {
    pub open spec fn wf(&self) -> bool {
        0 < self.den && self.num <= self.den && self.den <= MAX_DEN
    }

    /// The score is exactly 1.
    pub open spec fn is_full(&self) -> bool {
        self.num == self.den
    }
}

/// The transport class of the fraction `num / den`; each class is a
/// closed-open interval, boundaries going to the higher class.
pub open spec fn class_of(num: int, den: int) -> TransportClass {
    if 100 * num >= 99 * den {
        TransportClass::Concorde
    } else if 100 * num >= 95 * den {
        TransportClass::BusinessClass
    } else if 100 * num >= 80 * den {
        TransportClass::Economy
    } else {
        TransportClass::Wheelbarrow
    }
}

/// Classes ordered by fidelity, the best highest.
pub open spec fn rank(c: TransportClass) -> int {
    match c {
        TransportClass::Concorde => 3,
        TransportClass::BusinessClass => 2,
        TransportClass::Economy => 1,
        TransportClass::Wheelbarrow => 0,
    }
}

/// The lower of two scores.
pub open spec fn weaker(a: Score, b: Score) -> Score {
    if a.num * b.den <= b.num * a.den {
        a
    } else {
        b
    }
}

/// Maps a score to its transport class.
pub fn classify(score: &Score) -> (r: TransportClass)
    requires
        score.wf(),
    ensures
        r == class_of(score.num as int, score.den as int),
{
    let n = score.num * 100;
    if n >= score.den * 99 {
        TransportClass::Concorde
    } else if n >= score.den * 95 {
        TransportClass::BusinessClass
    } else if n >= score.den * 80 {
        TransportClass::Economy
    } else {
        TransportClass::Wheelbarrow
    }
}

/// The classes partition [0, 1]: every score lies in exactly one class's
/// interval, and `class_of` names that class.
pub proof fn law_classes_partition(num: int, den: int)
    requires
        0 < den,
        0 <= num <= den,
    ensures
        (100 * num >= 99 * den) == (class_of(num, den) == TransportClass::Concorde),
        (95 * den <= 100 * num < 99 * den) == (class_of(num, den) == TransportClass::BusinessClass),
        (80 * den <= 100 * num < 95 * den) == (class_of(num, den) == TransportClass::Economy),
        (100 * num < 80 * den) == (class_of(num, den) == TransportClass::Wheelbarrow),
{
}

/// A higher score never falls in a lower class.
pub proof fn lemma_class_monotone(a: Score, b: Score)
    requires
        a.wf(),
        b.wf(),
        a.num * b.den <= b.num * a.den,
    ensures
        rank(class_of(a.num as int, a.den as int)) <= rank(class_of(b.num as int, b.den as int)),
{
    let (an, ad, bn, bd) = (a.num as int, a.den as int, b.num as int, b.den as int);
    lemma_threshold_carries(an, ad, bn, bd, 99);
    lemma_threshold_carries(an, ad, bn, bd, 95);
    lemma_threshold_carries(an, ad, bn, bd, 80);
    assert(100 * an >= 99 * ad ==> 100 * bn >= 99 * bd);
    assert(100 * an >= 95 * ad ==> 100 * bn >= 95 * bd);
    assert(100 * an >= 80 * ad ==> 100 * bn >= 80 * bd);
}

proof fn lemma_threshold_carries(an: int, ad: int, bn: int, bd: int, k: int)
    requires
        ad > 0,
        bd > 0,
        an * bd <= bn * ad,
    ensures
        100 * an >= k * ad ==> 100 * bn >= k * bd,
{
    if 100 * an >= k * ad {
        assert(100 * an * bd >= k * ad * bd) by (nonlinear_arith)
            requires
                100 * an >= k * ad,
                bd > 0,
        ;
        assert(100 * bn * ad >= 100 * an * bd) by (nonlinear_arith)
            requires
                an * bd <= bn * ad,
        ;
        assert(100 * bn >= k * bd) by (nonlinear_arith)
            requires
                100 * bn * ad >= k * ad * bd,
                ad > 0,
        ;
    }
}

/// The class of the weaker of two scores.
pub fn lower_class(a: &Score, b: &Score) -> (r: TransportClass)
    requires
        a.wf(),
        b.wf(),
    ensures
        r == class_of(weaker(*a, *b).num as int, weaker(*a, *b).den as int),
{
    let ca = classify(a);
    let cb = classify(b);
    proof {
        let (an, ad, bn, bd) = (a.num as int, a.den as int, b.num as int, b.den as int);
        if an * bd <= bn * ad {
            lemma_class_monotone(*a, *b);
        } else {
            lemma_class_monotone(*b, *a);
        }
    }
    if class_rank(ca) <= class_rank(cb) {
        ca
    } else {
        cb
    }
}

fn class_rank(c: TransportClass) -> (r: u8)
    ensures
        r == rank(c),
{
    match c {
        TransportClass::Concorde => 3,
        TransportClass::BusinessClass => 2,
        TransportClass::Economy => 1,
        TransportClass::Wheelbarrow => 0,
    }
}

/// Fidelity, in tenths, of an ecosystem's four core scalars (integer, text,
/// boolean, float) rendered in `target`; an ecosystem without an analyzer
/// has no capability table and scores nothing.
pub open spec fn core_points(source: Seq<char>, target: Seq<char>) -> int {
    match ecosystem_of(source) {
        Some(Ecosystem::ReScript) => rescript_points(ReScriptFieldType::Int, target)
            + rescript_points(ReScriptFieldType::String, target) + rescript_points(
            ReScriptFieldType::Bool,
            target,
        ) + rescript_points(ReScriptFieldType::Float, target),
        Some(Ecosystem::Rust) => rust_points(RustFieldType::I64, target) + rust_points(
            RustFieldType::String,
            target,
        ) + rust_points(RustFieldType::Bool, target) + rust_points(RustFieldType::F64, target),
        _ => 0,
    }
}

/// The score of the core scalars of `source` in `target`.
pub open spec fn core_score(source: Seq<char>, target: Seq<char>) -> Score {
    Score { num: core_points(source, target) as u128, den: 40 }
}

fn core_points_of(source: &str, target: &str) -> (r: u128)
    ensures
        r == core_points(source@, target@),
        r <= 40,
{
    match Ecosystem::from_tag(source) {
        Some(Ecosystem::ReScript) => rescript_analyzer::field_points(&ReScriptFieldType::Int, target)
            + rescript_analyzer::field_points(&ReScriptFieldType::String, target)
            + rescript_analyzer::field_points(&ReScriptFieldType::Bool, target)
            + rescript_analyzer::field_points(&ReScriptFieldType::Float, target),
        Some(Ecosystem::Rust) => rust_analyzer::field_points(&RustFieldType::I64, target)
            + rust_analyzer::field_points(&RustFieldType::String, target)
            + rust_analyzer::field_points(&RustFieldType::Bool, target)
            + rust_analyzer::field_points(&RustFieldType::F64, target),
        _ => 0,
    }
}

/// Transport class between two ecosystems: the class of the weaker of the two
/// directions in which their core scalars travel.
pub fn calculate_transport_class(source: &str, target: &str) -> (r: TransportClass)
    ensures
        r == class_of(
            weaker(core_score(source@, target@), core_score(target@, source@)).num as int,
            weaker(core_score(source@, target@), core_score(target@, source@)).den as int,
        ),
{
    let forward = Score { num: core_points_of(source, target), den: 40 };
    let backward = Score { num: core_points_of(target, source), den: 40 };
    lower_class(&forward, &backward)
}

/// The transport class of two ecosystems does not depend on their order.
pub proof fn law_transport_class_symmetric(a: Seq<char>, b: Seq<char>)
    ensures
        class_of(
            weaker(core_score(a, b), core_score(b, a)).num as int,
            weaker(core_score(a, b), core_score(b, a)).den as int,
        ) == class_of(
            weaker(core_score(b, a), core_score(a, b)).num as int,
            weaker(core_score(b, a), core_score(a, b)).den as int,
        ),
{
}

/// One field of the source record and its rendering in the target ecosystem.
#[derive(Debug)]
pub struct FieldMapping {
    pub source_name: String,
    /// The field's type as the source ecosystem writes it.
    pub source_type: String,
    /// The nearest target type, or why there is none.
    pub target_type: Result<String, MappingError>,
    /// No public field of the target type has this name.
    pub unmatched: bool,
}

/// The result of comparing a ReScript record with a Rust struct.
#[derive(Debug)]
pub struct CompatibilityReport {
    /// ReScript to Rust.
    pub forward: Score,
    /// Rust to ReScript.
    pub backward: Score,
    /// The class of the weaker direction.
    pub transport_class: TransportClass,
    /// One entry per field of the ReScript record, in order.
    pub mappings: Vec<FieldMapping>,
}

/// The Rust struct has a public field named `n`.
pub open spec fn has_public_field(t: RustType, n: Seq<char>) -> bool {
    exists|j: int|
        0 <= j < t.fields@.len() && t.fields@[j].visibility == Visibility::Public && #[trigger] t.fields@[j].name@
            == n
}

fn public_field_named(t: &RustType, n: &String) -> (r: bool)
    ensures
        r == has_public_field(*t, n@),
{
    let mut j: usize = 0;
    while j < t.fields.len()
        invariant
            j <= t.fields.len(),
            forall|i: int|
                0 <= i < j ==> !(t.fields@[i].visibility == Visibility::Public
                    && #[trigger] t.fields@[i].name@ == n@),
        decreases t.fields.len() - j,
    {
        if t.fields[j].visibility == Visibility::Public && t.fields[j].name == *n {
            return true;
        }
        j = j + 1;
    }
    false
}

/// The mapping entry for field `f`, rendered for Rust.
pub open spec fn mapping_is(m: FieldMapping, f: ReScriptField, rust: RustType) -> bool {
    m.source_name@ == f.name@ && m.source_type@ == rescript_text(f.field_type) && text_result(
        m.target_type,
    ) == rescript_render_tag(f.field_type, "rust"@) && m.unmatched == !has_public_field(
        rust,
        f.name@,
    )
}

/// The Rust rendering of each ReScript field, in order, each flagged when the
/// Rust struct has no public field of that name.
fn generate_mapping_table(rescript: &ReScriptType, rust: &RustType) -> (r: Vec<FieldMapping>)
    ensures
        r.len() == rescript.fields.len(),
        forall|i: int|
            0 <= i < r.len() ==> mapping_is(#[trigger] r@[i], rescript.fields@[i], *rust),
{
    let mut mappings: Vec<FieldMapping> = Vec::new();
    let mut i: usize = 0;
    while i < rescript.fields.len()
        invariant
            i <= rescript.fields.len(),
            mappings.len() == i,
            forall|m: int|
                0 <= m < i ==> mapping_is(#[trigger] mappings@[m], rescript.fields@[m], *rust),
        decreases rescript.fields.len() - i,
    {
        let f = &rescript.fields[i];
        let entry = FieldMapping {
            source_name: f.name.clone(),
            source_type: rescript_analyzer::type_text(&f.field_type),
            target_type: rescript_analyzer::map_to_target(&f.field_type, "rust"),
            unmatched: !public_field_named(rust, &f.name),
        };
        let ghost prev = mappings@;
        mappings.push(entry);
        assert forall|m: int| 0 <= m < i + 1 implies mapping_is(
            #[trigger] mappings@[m],
            rescript.fields@[m],
            *rust,
        ) by {
            if m < i {
                assert(mappings@[m] == prev[m]);
            }
        }
        i = i + 1;
    }
    mappings
}

/// `r` is the comparison of `a` with `b`: a score in each direction, the
/// class of the weaker one, and the Rust rendering of each field of `a`.
pub open spec fn report_is(r: CompatibilityReport, a: ReScriptType, b: RustType) -> bool {
    &&& r.forward.wf()
    &&& r.backward.wf()
    &&& rescript_score_is(a, "rust"@, r.forward)
    &&& rust_score_is(b, "rescript"@, r.backward)
    &&& r.transport_class == class_of(
        weaker(r.forward, r.backward).num as int,
        weaker(r.forward, r.backward).den as int,
    )
    &&& r.mappings.len() == a.fields.len()
    &&& forall|i: int|
        0 <= i < r.mappings.len() ==> mapping_is(#[trigger] r.mappings@[i], a.fields@[i], b)
}

/// Compares a ReScript record with a Rust struct: a score in each direction,
/// the class of the weaker one, and the Rust rendering of each ReScript field.
pub fn compatibility_report(rescript: &ReScriptType, rust: &RustType) -> (r: CompatibilityReport)
    ensures
        report_is(r, *rescript, *rust),
{
    let forward = rescript_analyzer::compatibility_score(rescript, "rust");
    let backward = rust_analyzer::compatibility_score(rust, "rescript");
    let transport_class = lower_class(&forward, &backward);
    let mappings = generate_mapping_table(rescript, rust);
    CompatibilityReport { forward, backward, transport_class, mappings }
}

/// A ReScript scalar: each has a lossless Rust equivalent.
pub open spec fn rescript_scalar(t: ReScriptFieldType) -> bool {
    t is Int || t is String || t is Bool || t is Float
}

/// A Rust scalar that ReScript holds without loss (all but `u64`).
pub open spec fn rust_lossless_scalar(t: RustFieldType) -> bool {
    t is I64 || t is I32 || t is U32 || t is String || t is Bool || t is F64 || t is F32
}

proof fn lemma_rescript_scalars_full(fs: Seq<ReScriptField>)
    requires
        forall|i: int| 0 <= i < fs.len() ==> rescript_scalar(#[trigger] fs[i].field_type),
    ensures
        rescript_points_sum(fs, "rust"@) == 10 * fs.len(),
    decreases fs.len(),
{
    if fs.len() > 0 {
        reveal_strlit("rust");
        reveal_strlit("rescript");
        assert("rust"@.len() == 4 && "rescript"@.len() == 8);
        assert("rust"@ != "rescript"@);
        assert(rescript_scalar(fs[fs.len() - 1].field_type));
        lemma_rescript_scalars_full(fs.drop_last());
    }
}

proof fn lemma_rust_scalars_full(fs: Seq<RustField>)
    requires
        forall|i: int|
            0 <= i < fs.len() && fs[i].visibility == Visibility::Public ==> rust_lossless_scalar(
                #[trigger] fs[i].field_type,
            ),
    ensures
        rust_points_sum(fs, "rescript"@) == 10 * public_count(fs),
    decreases fs.len(),
{
    if fs.len() > 0 {
        assert(fs.last() == fs[fs.len() - 1]);
        lemma_rust_scalars_full(fs.drop_last());
    }
}

/// A ReScript record and a Rust struct whose (public) fields are all scalars
/// that are lossless in both directions round-trip at full fidelity: both
/// directional scores are 1 and the class is `Concorde`.
pub proof fn law_lossless_round_trip(a: ReScriptType, b: RustType, f: Score, g: Score)
    requires
        forall|i: int|
            0 <= i < a.fields@.len() ==> rescript_scalar(#[trigger] a.fields@[i].field_type),
        forall|i: int|
            0 <= i < b.fields@.len() && b.fields@[i].visibility == Visibility::Public
                ==> rust_lossless_scalar(#[trigger] b.fields@[i].field_type),
        rescript_score_is(a, "rust"@, f),
        rust_score_is(b, "rescript"@, g),
    ensures
        f.is_full(),
        g.is_full(),
        class_of(weaker(f, g).num as int, weaker(f, g).den as int) == TransportClass::Concorde,
{
    lemma_rescript_scalars_full(a.fields@);
    lemma_rust_scalars_full(b.fields@);
}

/// Reads both declarations and compares them; the first extraction error
/// ends the comparison, so no partial report is ever produced.
pub fn compare_sources(rescript_source: &str, rust_source: &str) -> (r: Result<
    CompatibilityReport,
    ExtractionError,
>)
    ensures
        (forall|k: int| !#[trigger] rescript_decl_at(rescript_source@, k)) ==> r == Err::<
            CompatibilityReport,
            ExtractionError,
        >(ExtractionError::NotFound),
        (forall|k: int| !#[trigger] rust_decl_at(rust_source@, k)) ==> r is Err,
        rescript_parse(rescript_source@) is Err ==> r == Err::<CompatibilityReport, ExtractionError>(
            rescript_parse(rescript_source@)->Err_0,
        ),
        rescript_parse(rescript_source@) is Ok && rust_parse(rust_source@) is Err ==> r == Err::<
            CompatibilityReport,
            ExtractionError,
        >(rust_parse(rust_source@)->Err_0),
        r is Ok <==> rescript_parse(rescript_source@) is Ok && rust_parse(rust_source@) is Ok,
        r matches Ok(rep) ==> exists|a: ReScriptType, b: RustType|
            #![trigger report_is(rep, a, b)]
            (rescript_parse(rescript_source@) matches Ok((n, fs)) && a.name@ == n
                && rescript_fields_are(a.fields@, fs)) && (rust_parse(rust_source@) matches Ok((
                m,
                gs,
            )) && b.name@ == m && rust_fields_are(b.fields@, gs)) && report_is(rep, a, b),
{
    let a = rescript_analyzer::analyze_rescript_type(rescript_source)?;
    let b = rust_analyzer::analyze_rust_type(rust_source)?;
    let rep = compatibility_report(&a, &b);
    assert(report_is(rep, a, b));
    Ok(rep)
}

} // verus!
