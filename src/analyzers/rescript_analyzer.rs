//! ReScript record declarations: extraction, rendering into other
//! ecosystems, and compatibility scoring.
use vstd::prelude::*;
use super::syntax::{
    angle, chars_of, ident_at, ident_end, is_name_start, keyword_at, keyword_here, next_non_ws,
    parse_term, read_ident, same_text, skip_ws, term_model, term_spec, text_result, wrap, TermModel,
    TypeTerm,
};
use super::{ecosystem_of, Ecosystem, ExtractionError, MappingError, Score, TypeModelError};

verus! {

/// A record type read from a ReScript declaration.
#[derive(Debug)]
pub struct ReScriptType {
    pub name: String,
    pub fields: Vec<ReScriptField>,
    /// Where the declaration came from; empty when the text alone was given.
    pub location: String,
}

/// One field of a ReScript record.
#[derive(Debug)]
pub struct ReScriptField {
    pub name: String,
    pub field_type: ReScriptFieldType,
    /// Declared with `?`: the field may be absent.
    pub optional: bool,
}

/// The ReScript field types that the shared type algebra covers.
#[derive(Debug)]
pub enum ReScriptFieldType {
    Int,
    String,
    Bool,
    Float,
    Record(String),
    Array(Box<ReScriptFieldType>),
    Option(Box<ReScriptFieldType>),
}

/// How the type is written in ReScript, without whitespace.
pub open spec fn rescript_text(t: ReScriptFieldType) -> Seq<char>
    decreases t,
{
    match t {
        ReScriptFieldType::Int => "int"@,
        ReScriptFieldType::String => "string"@,
        ReScriptFieldType::Bool => "bool"@,
        ReScriptFieldType::Float => "float"@,
        ReScriptFieldType::Record(n) => n@,
        ReScriptFieldType::Array(i) => "array"@ + seq!['<'] + rescript_text(*i) + seq!['>'],
        ReScriptFieldType::Option(i) => "option"@ + seq!['<'] + rescript_text(*i) + seq!['>'],
    }
}

pub open spec fn type_keyword() -> Seq<char> {
    seq!['t', 'y', 'p', 'e']
}

/// A record declaration starts at `k`: `type`, a name, `=` and `{`.
pub open spec fn rescript_decl_at(s: Seq<char>, k: int) -> bool {
    keyword_at(s, k, type_keyword()) && {
        let a = next_non_ws(s, k + 4);
        let e = ident_end(s, a);
        let b = next_non_ws(s, e);
        let c = next_non_ws(s, b + 1);
        ident_at(s, a) && e > a && b < s.len() && s[b] == '=' && c < s.len() && s[c] == '{'
    }
}

/// No two fields share a name.
pub open spec fn rescript_names_distinct(fs: Seq<ReScriptField>) -> bool {
    forall|i: int, j: int| #![trigger fs[i], fs[j]] 0 <= i < j < fs.len() ==> fs[i].name@ != fs[j].name@
}

/// Names that ReScript reserves for types, never record names.
pub open spec fn rescript_reserved(n: Seq<char>) -> bool {
    n == "int"@ || n == "string"@ || n == "bool"@ || n == "float"@ || n == "array"@ || n
        == "option"@ || n == "unit"@ || n == "char"@ || n == "bigint"@
}

/// Why a type expression has no ReScript field type, if it has one.
pub open spec fn rescript_classify_err(m: TermModel) -> Option<ExtractionError>
    decreases m,
{
    match m {
        TermModel::Leaf(n) => if n == "int"@ || n == "string"@ || n == "bool"@ || n == "float"@ {
            None
        } else if n == "array"@ || n == "option"@ {
            Some(ExtractionError::Malformed)
        } else if n == "unit"@ || n == "char"@ || n == "bigint"@ {
            Some(ExtractionError::UnsupportedConstruct)
        } else {
            None
        },
        TermModel::Apply1(n, a) => if n == "array"@ || n == "option"@ {
            rescript_classify_err(*a)
        } else {
            Some(ExtractionError::UnsupportedConstruct)
        },
        TermModel::Apply2(_, _, _) => Some(ExtractionError::UnsupportedConstruct),
    }
}

/// `t` is the ReScript field type that the expression `m` writes.
pub open spec fn rescript_type_is(t: ReScriptFieldType, m: TermModel) -> bool
    decreases t,
{
    match t {
        ReScriptFieldType::Int => m == TermModel::Leaf("int"@),
        ReScriptFieldType::String => m == TermModel::Leaf("string"@),
        ReScriptFieldType::Bool => m == TermModel::Leaf("bool"@),
        ReScriptFieldType::Float => m == TermModel::Leaf("float"@),
        ReScriptFieldType::Record(n) => m == TermModel::Leaf(n@) && !rescript_reserved(n@),
        ReScriptFieldType::Array(i) => match m {
            TermModel::Apply1(n, a) => n == "array"@ && rescript_type_is(*i, *a),
            _ => false,
        },
        ReScriptFieldType::Option(i) => match m {
            TermModel::Apply1(n, a) => n == "option"@ && rescript_type_is(*i, *a),
            _ => false,
        },
    }
}

/// Reads a type expression as a ReScript field type.
fn rescript_field_type(term: TypeTerm) -> (r: Result<ReScriptFieldType, ExtractionError>)
    ensures
        match r {
            Ok(t) => rescript_classify_err(term_model(term)) is None && rescript_type_is(
                t,
                term_model(term),
            ),
            Err(e) => rescript_classify_err(term_model(term)) == Some(e) && e
                != ExtractionError::NotFound,
        },
    decreases term,
{
    match term {
        TypeTerm::Leaf(n) => {
            let s = n.as_str();
            if same_text(s, "int") {
                Ok(ReScriptFieldType::Int)
            } else if same_text(s, "string") {
                Ok(ReScriptFieldType::String)
            } else if same_text(s, "bool") {
                Ok(ReScriptFieldType::Bool)
            } else if same_text(s, "float") {
                Ok(ReScriptFieldType::Float)
            } else if same_text(s, "array") || same_text(s, "option") {
                Err(ExtractionError::Malformed)
            } else if same_text(s, "unit") || same_text(s, "char") || same_text(s, "bigint") {
                Err(ExtractionError::UnsupportedConstruct)
            } else {
                Ok(ReScriptFieldType::Record(n))
            }
        },
        TypeTerm::Apply1(n, a) => {
            let s = n.as_str();
            let is_array = same_text(s, "array");
            if is_array || same_text(s, "option") {
                let ghost am = term_model(*a);
                let inner = match rescript_field_type(*a) {
                    Ok(i) => i,
                    Err(e) => {
                        return Err(e);
                    },
                };
                assert(rescript_type_is(inner, am));
                if is_array {
                    let t = ReScriptFieldType::Array(Box::new(inner));
                    assert(rescript_type_is(t, TermModel::Apply1(n@, Box::new(am))));
                    Ok(t)
                } else {
                    let t = ReScriptFieldType::Option(Box::new(inner));
                    assert(rescript_type_is(t, TermModel::Apply1(n@, Box::new(am))));
                    Ok(t)
                }
            } else {
                Err(ExtractionError::UnsupportedConstruct)
            }
        },
        TypeTerm::Apply2(_, _, _) => Err(ExtractionError::UnsupportedConstruct),
    }
}

/// One field as the text writes it.
pub struct RsFieldSyn {
    pub name: Seq<char>,
    pub optional: bool,
    pub term: TermModel,
}

pub open spec fn rescript_field_is(f: ReScriptField, syn: RsFieldSyn) -> bool {
    f.name@ == syn.name && f.optional == syn.optional && rescript_type_is(f.field_type, syn.term)
}

pub open spec fn rescript_fields_are(fs: Seq<ReScriptField>, syns: Seq<RsFieldSyn>) -> bool {
    fs.len() == syns.len() && forall|i: int|
        0 <= i < fs.len() ==> rescript_field_is(#[trigger] fs[i], syns[i])
}

/// The field (`name: type` or `name?: type`) that starts at `q`, and the
/// position after its type. A function type (`a => b`) has no place in the
/// shared algebra.
pub open spec fn rescript_field_spec(s: Seq<char>, q: int) -> Result<(RsFieldSyn, int), ExtractionError> {
    let e1 = ident_end(s, q);
    let c0 = next_non_ws(s, e1);
    let optional = 0 <= c0 < s.len() && s[c0] == '?';
    let c = if optional {
        next_non_ws(s, c0 + 1)
    } else {
        c0
    };
    if !ident_at(s, q) || e1 <= q || c < 0 || c >= s.len() || s[c] != ':' {
        Err(ExtractionError::Malformed)
    } else {
        match term_spec(s, c + 1) {
            None => Err(ExtractionError::Malformed),
            Some((m, tq)) => {
                let z = next_non_ws(s, tq);
                if 0 <= z && z + 1 < s.len() && s[z] == '=' && s[z + 1] == '>' {
                    Err(ExtractionError::UnsupportedConstruct)
                } else {
                    match rescript_classify_err(m) {
                        Some(e) => Err(e),
                        None => Ok((RsFieldSyn { name: s.subrange(q, e1), optional, term: m }, tq)),
                    }
                }
            },
        }
    }
}

/// The fields from `pos` up to the closing `}`, after the fields `seen`;
/// `after_comma` says that a comma was just read. Duplicate names and missing
/// separators are malformed.
pub open spec fn rescript_body(s: Seq<char>, pos: int, after_comma: bool, seen: Seq<RsFieldSyn>) -> Result<Seq<RsFieldSyn>, ExtractionError>
    decreases s.len() - pos,
{
    let q = next_non_ws(s, pos);
    if !(0 <= pos <= q) || q >= s.len() {
        Err(ExtractionError::Malformed)
    } else if s[q] == '}' {
        Ok(seen)
    } else if seen.len() > 0 && !after_comma {
        Err(ExtractionError::Malformed)
    } else {
        match rescript_field_spec(s, q) {
            Err(e) => Err(e),
            Ok((f, tq)) => {
                let t2 = next_non_ws(s, tq);
                if tq <= q || tq > s.len() || t2 < tq || exists|i: int|
                    0 <= i < seen.len() && #[trigger] seen[i].name == f.name {
                    Err(ExtractionError::Malformed)
                } else if t2 < s.len() && s[t2] == ',' {
                    rescript_body(s, t2 + 1, true, seen.push(f))
                } else {
                    rescript_body(s, tq, false, seen.push(f))
                }
            },
        }
    }
}

/// The first record declaration at or after `k`.
pub open spec fn rescript_first_decl(s: Seq<char>, k: int) -> Option<int>
    decreases s.len() - k,
{
    if k < 0 || k >= s.len() {
        None
    } else if rescript_decl_at(s, k) {
        Some(k)
    } else {
        rescript_first_decl(s, k + 1)
    }
}

/// What the first record declaration of `s` says: its name and fields, or
/// why it cannot be read.
pub open spec fn rescript_parse(s: Seq<char>) -> Result<(Seq<char>, Seq<RsFieldSyn>), ExtractionError> {
    match rescript_first_decl(s, 0) {
        None => Err(ExtractionError::NotFound),
        Some(k) => {
            let a = next_non_ws(s, k + 4);
            let e = ident_end(s, a);
            let b = next_non_ws(s, e);
            let c = next_non_ws(s, b + 1);
            match rescript_body(s, c + 1, false, Seq::empty()) {
                Ok(fs) => Ok((s.subrange(a, e), fs)),
                Err(x) => Err(x),
            }
        },
    }
}

/// The header of a record declaration at `k`: where its name starts and
/// ends, and the position after its `{`.
fn rescript_header(cs: &Vec<char>, k: usize, kw: &Vec<char>) -> (r: Option<(usize, usize, usize)>)
    requires
        k <= cs.len(),
        kw@ == type_keyword(),
    ensures
        r.is_some() == rescript_decl_at(cs@, k as int),
        r matches Some((a, e, p)) ==> a == next_non_ws(cs@, k + 4) && e == ident_end(cs@, a as int)
            && p == next_non_ws(cs@, next_non_ws(cs@, e as int) + 1) + 1 && k < a < e < p <= cs.len(),
{
    if !keyword_here(cs, k, kw) {
        return None;
    }
    let a = skip_ws(cs, k + 4);
    let e = read_ident(cs, a);
    let b = skip_ws(cs, e);
    if e == a || !is_name_start(cs[a]) || b >= cs.len() || cs[b] != '=' {
        return None;
    }
    let c = skip_ws(cs, b + 1);
    if c >= cs.len() || cs[c] != '{' {
        return None;
    }
    Some((a, e, c + 1))
}

fn has_field_named(fields: &Vec<ReScriptField>, name: &String) -> (r: bool)
    ensures
        r == exists|i: int| 0 <= i < fields.len() && #[trigger] fields@[i].name@ == name@,
{
    let mut i: usize = 0;
    while i < fields.len()
        invariant
            i <= fields.len(),
            forall|j: int| 0 <= j < i ==> #[trigger] fields@[j].name@ != name@,
        decreases fields.len() - i,
    {
        if fields[i].name == *name {
            return true;
        }
        i = i + 1;
    }
    false
}

/// Reads the field that starts at `q` (see `rescript_field_spec`).
fn rescript_field_at(source: &str, cs: &Vec<char>, q: usize) -> (r: Result<
    (ReScriptField, usize),
    ExtractionError,
>)
    requires
        cs@ == source@,
        q <= cs.len(),
    ensures
        match r {
            Ok((f, tq)) => rescript_field_spec(cs@, q as int) is Ok && rescript_field_spec(
                cs@,
                q as int,
            )->Ok_0.1 == tq && rescript_field_is(f, rescript_field_spec(cs@, q as int)->Ok_0.0)
                && q < tq <= cs.len(),
            Err(e) => rescript_field_spec(cs@, q as int) == Err::<(RsFieldSyn, int), ExtractionError>(e)
                && e != ExtractionError::NotFound,
        },
{
    let e1 = read_ident(cs, q);
    if e1 == q || !is_name_start(cs[q]) {
        return Err(ExtractionError::Malformed);
    }
    let fname = String::from_str(source.substring_char(q, e1));
    let mut c = skip_ws(cs, e1);
    let optional = c < cs.len() && cs[c] == '?';
    if optional {
        c = skip_ws(cs, c + 1);
    }
    if c >= cs.len() || cs[c] != ':' {
        return Err(ExtractionError::Malformed);
    }
    let (term, tq) = match parse_term(source, cs, c + 1) {
        Some(x) => x,
        None => {
            return Err(ExtractionError::Malformed);
        },
    };
    let z = skip_ws(cs, tq);
    if z < cs.len() && z + 1 < cs.len() && cs[z] == '=' && cs[z + 1] == '>' {
        return Err(ExtractionError::UnsupportedConstruct);
    }
    let ghost m = term_model(term);
    let field_type = match rescript_field_type(term) {
        Ok(ft) => ft,
        Err(err) => {
            return Err(err);
        },
    };
    let f = ReScriptField { name: fname, field_type, optional };
    assert(rescript_field_spec(cs@, q as int) == Ok::<(RsFieldSyn, int), ExtractionError>(
        (RsFieldSyn { name: cs@.subrange(q as int, e1 as int), optional, term: m }, tq as int),
    ));
    Ok((f, tq))
}

proof fn lemma_no_decl(s: Seq<char>, k: int)
    requires
        0 <= k,
        rescript_first_decl(s, k) is None,
    ensures
        forall|i: int| k <= i ==> !#[trigger] rescript_decl_at(s, i),
    decreases s.len() - k,
{
    if k < s.len() {
        lemma_no_decl(s, k + 1);
    }
    assert forall|i: int| k <= i implies !#[trigger] rescript_decl_at(s, i) by {
        if i >= s.len() {
            assert(!keyword_at(s, i, type_keyword()));
        }
    }
}

/// Reads the first ReScript record declaration (`type name = { field: type, ... }`)
/// of `source`: `Ok` exactly when that declaration follows the grammar of
/// `rescript_parse`, with its name and its fields in order.
pub fn analyze_rescript_type(source: &str) -> (r: Result<ReScriptType, ExtractionError>)
    ensures
        (r == Err::<ReScriptType, ExtractionError>(ExtractionError::NotFound)) <==> (forall|k: int|
            !#[trigger] rescript_decl_at(source@, k)),
        match r {
            Ok(t) => rescript_parse(source@) matches Ok((n, fs)) && t.name@ == n && rescript_fields_are(
                t.fields@,
                fs,
            ) && rescript_names_distinct(t.fields@) && t.location@.len() == 0,
            Err(e) => rescript_parse(source@) == Err::<(Seq<char>, Seq<RsFieldSyn>), ExtractionError>(e),
        },
{
    let cs = chars_of(source);
    let kw = vec!['t', 'y', 'p', 'e'];
    assert(kw@ =~= type_keyword());
    let mut k: usize = 0;
    let mut header: Option<(usize, usize, usize)> = None;
    while k < cs.len() && header.is_none()
        invariant
            k <= cs.len(),
            kw@ == type_keyword(),
            header matches Some((a, e, p)) ==> k < cs.len() && rescript_decl_at(cs@, k as int) && a
                == next_non_ws(cs@, k + 4) && e == ident_end(cs@, a as int) && p == next_non_ws(
                cs@,
                next_non_ws(cs@, e as int) + 1,
            ) + 1 && k < a < e < p <= cs.len(),
            header is None ==> rescript_first_decl(cs@, 0) == rescript_first_decl(cs@, k as int),
            header is Some ==> rescript_first_decl(cs@, 0) == Some(k as int),
        decreases cs.len() - k + (if header.is_none() {
            1int
        } else {
            0int
        }),
    {
        header = rescript_header(&cs, k, &kw);
        if header.is_none() {
            k = k + 1;
        }
    }
    let (a, e, p) = match header {
        Some(h) => h,
        None => {
            proof {
                lemma_no_decl(cs@, 0);
            }
            return Err(ExtractionError::NotFound);
        },
    };
    let name = String::from_str(source.substring_char(a, e));
    let mut fields: Vec<ReScriptField> = Vec::new();
    let ghost mut syns: Seq<RsFieldSyn> = Seq::empty();
    let mut pos: usize = p;
    let mut after_comma = false;
    loop
        invariant
            cs@ == source@,
            k < pos <= cs.len(),
            rescript_decl_at(cs@, k as int),
            rescript_first_decl(cs@, 0) == Some(k as int),
            rescript_body(cs@, p as int, false, Seq::empty()) == rescript_body(
                cs@,
                pos as int,
                after_comma,
                syns,
            ),
            rescript_parse(cs@) == match rescript_body(cs@, p as int, false, Seq::empty()) {
                Ok(fs) => Ok((name@, fs)),
                Err(x) => Err(x),
            },
            rescript_fields_are(fields@, syns),
            after_comma ==> fields.len() > 0,
            rescript_names_distinct(fields@),
        decreases cs.len() - pos,
    {
        let q = skip_ws(&cs, pos);
        if q >= cs.len() {
            return Err(ExtractionError::Malformed);
        }
        if cs[q] == '}' {
            return Ok(ReScriptType { name, fields, location: String::new() });
        }
        if fields.len() > 0 && !after_comma {
            return Err(ExtractionError::Malformed);
        }
        let (f, tq) = match rescript_field_at(source, &cs, q) {
            Ok(x) => x,
            Err(err) => {
                return Err(err);
            },
        };
        let ghost syn = rescript_field_spec(cs@, q as int)->Ok_0.0;
        if has_field_named(&fields, &f.name) {
            proof {
                let i = choose|i: int| 0 <= i < fields.len() && #[trigger] fields@[i].name@ == f.name@;
                assert(syns[i].name == syn.name);
            }
            return Err(ExtractionError::Malformed);
        }
        proof {
            assert forall|i: int| 0 <= i < syns.len() implies #[trigger] syns[i].name != syn.name by {
                assert(rescript_field_is(fields@[i], syns[i]));
            }
        }
        let ghost old_fields = fields@;
        fields.push(f);
        proof {
            syns = syns.push(syn);
            assert forall|i: int| 0 <= i < fields.len() implies rescript_field_is(
                #[trigger] fields@[i],
                syns[i],
            ) by {
                if i < old_fields.len() {
                    assert(fields@[i] == old_fields[i]);
                }
            }
        }
        let t2 = skip_ws(&cs, tq);
        if t2 < cs.len() && cs[t2] == ',' {
            pos = t2 + 1;
            after_comma = true;
        } else {
            pos = tq;
            after_comma = false;
        }
    }
}

/// A ReScript field type rendered in ecosystem `e`.
pub open spec fn rescript_render(t: ReScriptFieldType, e: Ecosystem) -> Result<
    Seq<char>,
    MappingError,
>
    decreases t,
{
    if e == Ecosystem::ReScript {
        Err(MappingError::UnknownEcosystem)
    } else {
        match t {
            ReScriptFieldType::Int => Ok(
                match e {
                    Ecosystem::Rust => "i64"@,
                    Ecosystem::Julia => "Int64"@,
                    _ => "Int"@,
                },
            ),
            ReScriptFieldType::String => Ok("String"@),
            ReScriptFieldType::Bool => Ok(
                match e {
                    Ecosystem::Rust => "bool"@,
                    _ => "Bool"@,
                },
            ),
            ReScriptFieldType::Float => Ok(
                match e {
                    Ecosystem::Rust => "f64"@,
                    Ecosystem::Julia => "Float64"@,
                    _ => "Float"@,
                },
            ),
            ReScriptFieldType::Record(n) => Ok(n@),
            ReScriptFieldType::Array(i) => match rescript_render(*i, e) {
                Ok(x) => Ok(
                    match e {
                        Ecosystem::Rust => "Vec<"@ + x + ">"@,
                        Ecosystem::Julia => "Vector{"@ + x + "}"@,
                        _ => "List("@ + x + ")"@,
                    },
                ),
                Err(m) => Err(m),
            },
            ReScriptFieldType::Option(i) => match rescript_render(*i, e) {
                Ok(x) => Ok(
                    match e {
                        Ecosystem::Rust => "Option<"@ + x + ">"@,
                        Ecosystem::Julia => "Union{Nothing, "@ + x + "}"@,
                        _ => "Option("@ + x + ")"@,
                    },
                ),
                Err(m) => Err(m),
            },
        }
    }
}

/// Rendering for a target tag; a tag that names no ecosystem renders nothing.
pub open spec fn rescript_render_tag(t: ReScriptFieldType, tag: Seq<char>) -> Result<
    Seq<char>,
    MappingError,
> {
    match ecosystem_of(tag) {
        Some(e) => rescript_render(t, e),
        None => Err(MappingError::UnknownEcosystem),
    }
}

fn render(t: &ReScriptFieldType, e: Ecosystem) -> (r: Result<String, MappingError>)
    ensures
        text_result(r) == rescript_render(*t, e),
    decreases t,
{
    if e == Ecosystem::ReScript {
        return Err(MappingError::UnknownEcosystem);
    }
    match t {
        ReScriptFieldType::Int => Ok(
            match e {
                Ecosystem::Rust => String::from_str("i64"),
                Ecosystem::Julia => String::from_str("Int64"),
                _ => String::from_str("Int"),
            },
        ),
        ReScriptFieldType::String => Ok(String::from_str("String")),
        ReScriptFieldType::Bool => Ok(
            match e {
                Ecosystem::Rust => String::from_str("bool"),
                _ => String::from_str("Bool"),
            },
        ),
        ReScriptFieldType::Float => Ok(
            match e {
                Ecosystem::Rust => String::from_str("f64"),
                Ecosystem::Julia => String::from_str("Float64"),
                _ => String::from_str("Float"),
            },
        ),
        ReScriptFieldType::Record(n) => Ok(n.clone()),
        ReScriptFieldType::Array(i) => {
            let x = render(i, e)?;
            Ok(
                match e {
                    Ecosystem::Rust => wrap("Vec<", x, ">"),
                    Ecosystem::Julia => wrap("Vector{", x, "}"),
                    _ => wrap("List(", x, ")"),
                },
            )
        },
        ReScriptFieldType::Option(i) => {
            let x = render(i, e)?;
            Ok(
                match e {
                    Ecosystem::Rust => wrap("Option<", x, ">"),
                    Ecosystem::Julia => wrap("Union{Nothing, ", x, "}"),
                    _ => wrap("Option(", x, ")"),
                },
            )
        },
    }
}

/// Renders a ReScript field type as the nearest type of the target
/// ecosystem ("rust", "julia" or "gleam").
pub fn map_to_target(field_type: &ReScriptFieldType, target: &str) -> (r: Result<String, MappingError>)
    ensures
        text_result(r) == rescript_render_tag(*field_type, target@),
{
    match Ecosystem::from_tag(target) {
        Some(e) => render(field_type, e),
        None => Err(MappingError::UnknownEcosystem),
    }
}

/// Fidelity of one field in tenths: 10 when the target has a lossless
/// equivalent, 0 when it has none (every ReScript type that renders is lossless).
pub open spec fn rescript_points(t: ReScriptFieldType, tag: Seq<char>) -> int {
    if rescript_render_tag(t, tag) is Ok {
        10
    } else {
        0
    }
}

pub open spec fn rescript_points_sum(fs: Seq<ReScriptField>, tag: Seq<char>) -> int
    decreases fs.len(),
{
    if fs.len() == 0 {
        0
    } else {
        rescript_points_sum(fs.drop_last(), tag) + rescript_points(fs.last().field_type, tag)
    }
}

/// The score of a record in a target: the mean fidelity of its fields, and
/// 1 for a record without fields.
pub open spec fn rescript_score_is(t: ReScriptType, tag: Seq<char>, r: Score) -> bool {
    if t.fields@.len() == 0 {
        r.num == 1 && r.den == 1
    } else {
        r.num == rescript_points_sum(t.fields@, tag) && r.den == 10 * t.fields@.len()
    }
}

/// Fidelity of one field type in a target, in tenths.
pub fn field_points(t: &ReScriptFieldType, target: &str) -> (r: u128)
    ensures
        r == rescript_points(*t, target@),
        r <= 10,
{
    if map_to_target(t, target).is_ok() {
        10
    } else {
        0
    }
}

/// Compatibility score of a ReScript record with a target ecosystem.
pub fn compatibility_score(rescript_type: &ReScriptType, target: &str) -> (r: Score)
    ensures
        r.wf(),
        rescript_score_is(*rescript_type, target@, r),
{
    let fs = &rescript_type.fields;
    if fs.len() == 0 {
        return Score { num: 1, den: 1 };
    }
    let mut sum: u128 = 0;
    let mut i: usize = 0;
    while i < fs.len()
        invariant
            i <= fs.len(),
            sum == rescript_points_sum(fs@.subrange(0, i as int), target@),
            sum <= 10 * i,
        decreases fs.len() - i,
    {
        let pts = field_points(&fs[i].field_type, target);
        proof {
            assert(fs@.subrange(0, i + 1).drop_last() =~= fs@.subrange(0, i as int));
        }
        sum = sum + pts;
        i = i + 1;
    }
    assert(fs@.subrange(0, fs.len() as int) =~= fs@);
    Score { num: sum, den: 10 * (fs.len() as u128) }
}

/// How the type is written in ReScript.
pub fn type_text(t: &ReScriptFieldType) -> (r: String)
    ensures
        r@ == rescript_text(*t),
    decreases t,
{
    match t {
        ReScriptFieldType::Int => String::from_str("int"),
        ReScriptFieldType::String => String::from_str("string"),
        ReScriptFieldType::Bool => String::from_str("bool"),
        ReScriptFieldType::Float => String::from_str("float"),
        ReScriptFieldType::Record(n) => n.clone(),
        ReScriptFieldType::Array(i) => angle("array", type_text(i)),
        ReScriptFieldType::Option(i) => angle("option", type_text(i)),
    }
}

impl ReScriptType {
    /// Checks the model's invariant: no two fields share a name.
    pub fn validate(&self) -> (r: Result<(), TypeModelError>)
        ensures
            r is Ok <==> rescript_names_distinct(self.fields@),
            r is Err ==> r == Err::<(), TypeModelError>(TypeModelError::DuplicateField),
    {
        let mut j: usize = 0;
        while j < self.fields.len()
            invariant
                j <= self.fields.len(),
                forall|a: int, b: int| 0 <= a < b < j ==> self.fields@[a].name@ != self.fields@[b].name@,
            decreases self.fields.len() - j,
        {
            let mut i: usize = 0;
            while i < j
                invariant
                    i <= j < self.fields.len(),
                    forall|a: int| 0 <= a < i ==> self.fields@[a].name@ != self.fields@[j as int].name@,
                decreases j - i,
            {
                if self.fields[i].name == self.fields[j].name {
                    assert(self.fields@[i as int].name@ == self.fields@[j as int].name@);
                    assert(!rescript_names_distinct(self.fields@));
                    return Err(TypeModelError::DuplicateField);
                }
                i = i + 1;
            }
            j = j + 1;
        }
        Ok(())
    }
}

/// The first type of `registry` named `name`: named references are resolved
/// through such a registry, never by owning the referenced type.
pub fn resolve<'a>(name: &str, registry: &'a Vec<ReScriptType>) -> (r: Option<&'a ReScriptType>)
    ensures
        r is None <==> forall|i: int| 0 <= i < registry.len() ==> #[trigger] registry@[i].name@ != name@,
        r matches Some(t) ==> exists|i: int|
            0 <= i < registry.len() && t == registry@[i] && #[trigger] registry@[i].name@ == name@
                && forall|j: int| 0 <= j < i ==> registry@[j].name@ != name@,
{
    let mut i: usize = 0;
    while i < registry.len()
        invariant
            i <= registry.len(),
            forall|j: int| 0 <= j < i ==> #[trigger] registry@[j].name@ != name@,
        decreases registry.len() - i,
    {
        if same_text(registry[i].name.as_str(), name) {
            return Some(&registry[i]);
        }
        i = i + 1;
    }
    None
}

} // verus!
