//! Rust struct declarations: extraction, rendering into other ecosystems,
//! compatibility scoring and the layout of an FFI-safe mirror struct.
use vstd::prelude::*;
use super::syntax::{
    chars_of, ident_at, ident_end, is_name_start, keyword_at, keyword_here, next_non_ws,
    parse_term, read_ident, same_text, skip_ws, term_model, term_spec, text_result, word_at, wrap,
    TermModel, TypeTerm,
};
use super::{ecosystem_of, Ecosystem, ExtractionError, MappingError, Score, TypeModelError};

verus! {

/// A struct type read from a Rust declaration.
#[derive(Debug)]
pub struct RustType {
    pub name: String,
    pub fields: Vec<RustField>,
    /// The attributes (`#[...]`) written before the declaration, in order.
    pub attributes: Vec<String>,
    /// Where the declaration came from; empty when the text alone was given.
    pub location: String,
}

/// One field of a Rust struct.
#[derive(Debug)]
pub struct RustField {
    pub name: String,
    pub field_type: RustFieldType,
    pub visibility: Visibility,
}

/// Who can see a field; only public fields take part in scoring.
#[derive(Debug, Clone, Copy, PartialEq, Eq, Structural)]
pub enum Visibility {
    Public,
    Private,
    Crate,
}

/// The Rust field types that the shared type algebra covers.
#[derive(Debug)]
pub enum RustFieldType {
    I64,
    I32,
    U64,
    U32,
    String,
    Bool,
    F64,
    F32,
    Struct(String),
    Vec(Box<RustFieldType>),
    Option(Box<RustFieldType>),
    Result(Box<RustFieldType>, Box<RustFieldType>),
}


pub open spec fn struct_keyword() -> Seq<char> {
    seq!['s', 't', 'r', 'u', 'c', 't']
}

/// A struct declaration with named fields starts at `k`: `struct`, a name and `{`.
pub open spec fn rust_decl_at(s: Seq<char>, k: int) -> bool {
    keyword_at(s, k, struct_keyword()) && {
        let a = next_non_ws(s, k + 6);
        let e = ident_end(s, a);
        let c = next_non_ws(s, e);
        ident_at(s, a) && e > a && c < s.len() && s[c] == '{'
    }
}

/// No two fields share a name.
pub open spec fn rust_names_distinct(fs: Seq<RustField>) -> bool {
    forall|i: int, j: int| #![trigger fs[i], fs[j]] 0 <= i < j < fs.len() ==> fs[i].name@ != fs[j].name@
}

fn is_one_of(s: &str, a: &str, b: &str, c: &str) -> (r: bool)
    ensures
        r == (s@ == a@ || s@ == b@ || s@ == c@),
{
    same_text(s, a) || same_text(s, b) || same_text(s, c)
}

/// Names that Rust reserves for types outside the algebra or for its
/// constructors, never struct names.
pub open spec fn rust_reserved(n: Seq<char>) -> bool {
    n == "i64"@ || n == "i32"@ || n == "u64"@ || n == "u32"@ || n == "String"@ || n == "bool"@ || n
        == "f64"@ || n == "f32"@ || n == "Vec"@ || n == "Option"@ || n == "Result"@ || n == "i8"@
        || n == "i16"@ || n == "i128"@ || n == "u8"@ || n == "u16"@ || n == "u128"@ || n == "isize"@
        || n == "usize"@ || n == "char"@ || n == "str"@
}

/// Why a type expression has no Rust field type, if it has one.
pub open spec fn rust_classify_err(m: TermModel) -> Option<ExtractionError>
    decreases m,
{
    match m {
        TermModel::Leaf(n) => if n == "i64"@ || n == "i32"@ || n == "u64"@ || n == "u32"@ || n
            == "String"@ || n == "bool"@ || n == "f64"@ || n == "f32"@ {
            None
        } else if n == "Vec"@ || n == "Option"@ || n == "Result"@ {
            Some(ExtractionError::Malformed)
        } else if rust_reserved(n) {
            Some(ExtractionError::UnsupportedConstruct)
        } else {
            None
        },
        TermModel::Apply1(n, a) => if n == "Vec"@ || n == "Option"@ {
            rust_classify_err(*a)
        } else if n == "Result"@ {
            Some(ExtractionError::Malformed)
        } else {
            Some(ExtractionError::UnsupportedConstruct)
        },
        TermModel::Apply2(n, a, b) => if n == "Result"@ {
            match rust_classify_err(*a) {
                Some(e) => Some(e),
                None => rust_classify_err(*b),
            }
        } else if n == "Vec"@ || n == "Option"@ {
            Some(ExtractionError::Malformed)
        } else {
            Some(ExtractionError::UnsupportedConstruct)
        },
    }
}

/// `t` is the Rust field type that the expression `m` writes.
pub open spec fn rust_type_is(t: RustFieldType, m: TermModel) -> bool
    decreases t,
{
    match t {
        RustFieldType::I64 => m == TermModel::Leaf("i64"@),
        RustFieldType::I32 => m == TermModel::Leaf("i32"@),
        RustFieldType::U64 => m == TermModel::Leaf("u64"@),
        RustFieldType::U32 => m == TermModel::Leaf("u32"@),
        RustFieldType::String => m == TermModel::Leaf("String"@),
        RustFieldType::Bool => m == TermModel::Leaf("bool"@),
        RustFieldType::F64 => m == TermModel::Leaf("f64"@),
        RustFieldType::F32 => m == TermModel::Leaf("f32"@),
        RustFieldType::Struct(n) => m == TermModel::Leaf(n@) && !rust_reserved(n@),
        RustFieldType::Vec(i) => match m {
            TermModel::Apply1(n, a) => n == "Vec"@ && rust_type_is(*i, *a),
            _ => false,
        },
        RustFieldType::Option(i) => match m {
            TermModel::Apply1(n, a) => n == "Option"@ && rust_type_is(*i, *a),
            _ => false,
        },
        RustFieldType::Result(x, y) => match m {
            TermModel::Apply2(n, a, b) => n == "Result"@ && rust_type_is(*x, *a) && rust_type_is(
                *y,
                *b,
            ),
            _ => false,
        },
    }
}

/// Reads a type expression as a Rust field type.
fn rust_field_type(term: TypeTerm) -> (r: Result<RustFieldType, ExtractionError>)
    ensures
        match r {
            Ok(t) => rust_classify_err(term_model(term)) is None && rust_type_is(t, term_model(term)),
            Err(e) => rust_classify_err(term_model(term)) == Some(e) && e != ExtractionError::NotFound,
        },
    decreases term,
{
    match term {
        TypeTerm::Leaf(n) => {
            let s = n.as_str();
            if same_text(s, "i64") {
                Ok(RustFieldType::I64)
            } else if same_text(s, "i32") {
                Ok(RustFieldType::I32)
            } else if same_text(s, "u64") {
                Ok(RustFieldType::U64)
            } else if same_text(s, "u32") {
                Ok(RustFieldType::U32)
            } else if same_text(s, "String") {
                Ok(RustFieldType::String)
            } else if same_text(s, "bool") {
                Ok(RustFieldType::Bool)
            } else if same_text(s, "f64") {
                Ok(RustFieldType::F64)
            } else if same_text(s, "f32") {
                Ok(RustFieldType::F32)
            } else if is_one_of(s, "Vec", "Option", "Result") {
                Err(ExtractionError::Malformed)
            } else if is_one_of(s, "i8", "i16", "i128") || is_one_of(s, "u8", "u16", "u128")
                || is_one_of(s, "isize", "usize", "char") || same_text(s, "str") {
                Err(ExtractionError::UnsupportedConstruct)
            } else {
                Ok(RustFieldType::Struct(n))
            }
        },
        TypeTerm::Apply1(n, a) => {
            let s = n.as_str();
            let is_vec = same_text(s, "Vec");
            if is_vec || same_text(s, "Option") {
                let ghost am = term_model(*a);
                let inner = match rust_field_type(*a) {
                    Ok(i) => i,
                    Err(e) => {
                        return Err(e);
                    },
                };
                if is_vec {
                    let t = RustFieldType::Vec(Box::new(inner));
                    assert(rust_type_is(t, TermModel::Apply1(n@, Box::new(am))));
                    Ok(t)
                } else {
                    let t = RustFieldType::Option(Box::new(inner));
                    assert(rust_type_is(t, TermModel::Apply1(n@, Box::new(am))));
                    Ok(t)
                }
            } else if same_text(s, "Result") {
                Err(ExtractionError::Malformed)
            } else {
                Err(ExtractionError::UnsupportedConstruct)
            }
        },
        TypeTerm::Apply2(n, a, b) => {
            let s = n.as_str();
            if same_text(s, "Result") {
                let ghost am = term_model(*a);
                let ghost bm = term_model(*b);
                let ok = match rust_field_type(*a) {
                    Ok(i) => i,
                    Err(e) => {
                        return Err(e);
                    },
                };
                let err = match rust_field_type(*b) {
                    Ok(i) => i,
                    Err(e) => {
                        return Err(e);
                    },
                };
                let t = RustFieldType::Result(Box::new(ok), Box::new(err));
                assert(rust_type_is(t, TermModel::Apply2(n@, Box::new(am), Box::new(bm))));
                Ok(t)
            } else if same_text(s, "Vec") || same_text(s, "Option") {
                Err(ExtractionError::Malformed)
            } else {
                Err(ExtractionError::UnsupportedConstruct)
            }
        },
    }
}

/// One field as the text writes it.
pub struct RustFieldSyn {
    pub visibility: Visibility,
    pub name: Seq<char>,
    pub term: TermModel,
}

pub open spec fn rust_field_is(f: RustField, syn: RustFieldSyn) -> bool {
    f.visibility == syn.visibility && f.name@ == syn.name && rust_type_is(f.field_type, syn.term)
}

pub open spec fn rust_fields_are(fs: Seq<RustField>, syns: Seq<RustFieldSyn>) -> bool {
    fs.len() == syns.len() && forall|i: int|
        0 <= i < fs.len() ==> rust_field_is(#[trigger] fs[i], syns[i])
}

/// The visibility (none, `pub` or `pub(crate)`) and the name range of the
/// field that starts at `q`.
pub open spec fn rust_field_head_spec(s: Seq<char>, q: int) -> Option<(Visibility, int, int)> {
    let e1 = ident_end(s, q);
    let c = next_non_ws(s, e1);
    let d = next_non_ws(s, c + 1);
    let de = ident_end(s, d);
    let f = next_non_ws(s, de);
    let g = next_non_ws(s, f + 1);
    let ge = ident_end(s, g);
    let pe = ident_end(s, c);
    if !ident_at(s, q) || e1 <= q {
        None
    } else if s.subrange(q, e1) != "pub"@ {
        Some((Visibility::Private, q, e1))
    } else if 0 <= c < s.len() && s[c] == '(' {
        if s.subrange(d, de) != "crate"@ || f < 0 || f >= s.len() || s[f] != ')' || !ident_at(s, g)
            || ge <= g {
            None
        } else {
            Some((Visibility::Crate, g, ge))
        }
    } else if !ident_at(s, c) || pe <= c {
        None
    } else {
        Some((Visibility::Public, c, pe))
    }
}

/// The field (`[pub | pub(crate)] name: type`) that starts at `q`, and the
/// position after its type.
pub open spec fn rust_field_spec(s: Seq<char>, q: int) -> Result<(RustFieldSyn, int), ExtractionError> {
    match rust_field_head_spec(s, q) {
        None => Err(ExtractionError::Malformed),
        Some((v, a, e)) => {
            let c = next_non_ws(s, e);
            if c < 0 || c >= s.len() || s[c] != ':' {
                Err(ExtractionError::Malformed)
            } else {
                match term_spec(s, c + 1) {
                    None => Err(ExtractionError::Malformed),
                    Some((m, tq)) => match rust_classify_err(m) {
                        Some(x) => Err(x),
                        None => Ok(
                            (RustFieldSyn { visibility: v, name: s.subrange(a, e), term: m }, tq),
                        ),
                    },
                }
            }
        },
    }
}

/// The fields from `pos` up to the closing `}`, after the fields `seen`;
/// `after_comma` says that a comma was just read. Duplicate names and missing
/// separators are malformed.
pub open spec fn rust_body(s: Seq<char>, pos: int, after_comma: bool, seen: Seq<RustFieldSyn>) -> Result<Seq<RustFieldSyn>, ExtractionError>
    decreases s.len() - pos,
{
    let q = next_non_ws(s, pos);
    if !(0 <= pos <= q) || q >= s.len() {
        Err(ExtractionError::Malformed)
    } else if s[q] == '}' {
        Ok(seen)
    } else if seen.len() > 0 && !after_comma {
        Err(ExtractionError::Malformed)
    } else {
        match rust_field_spec(s, q) {
            Err(e) => Err(e),
            Ok((f, tq)) => {
                let t2 = next_non_ws(s, tq);
                if tq <= q || tq > s.len() || t2 < tq || exists|i: int|
                    0 <= i < seen.len() && #[trigger] seen[i].name == f.name {
                    Err(ExtractionError::Malformed)
                } else if t2 < s.len() && s[t2] == ',' {
                    rust_body(s, t2 + 1, true, seen.push(f))
                } else {
                    rust_body(s, tq, false, seen.push(f))
                }
            },
        }
    }
}

/// The first struct declaration at or after `k`.
pub open spec fn rust_first_decl(s: Seq<char>, k: int) -> Option<int>
    decreases s.len() - k,
{
    if k < 0 || k >= s.len() {
        None
    } else if rust_decl_at(s, k) {
        Some(k)
    } else {
        rust_first_decl(s, k + 1)
    }
}

/// What the first struct declaration of `s` says: its name and fields, or
/// why it cannot be read.
pub open spec fn rust_parse(s: Seq<char>) -> Result<(Seq<char>, Seq<RustFieldSyn>), ExtractionError> {
    match rust_first_decl(s, 0) {
        None => Err(ExtractionError::NotFound),
        Some(k) => {
            let a = next_non_ws(s, k + 6);
            let e = ident_end(s, a);
            let c = next_non_ws(s, e);
            match rust_body(s, c + 1, false, Seq::empty()) {
                Ok(fs) => Ok((s.subrange(a, e), fs)),
                Err(x) => Err(x),
            }
        },
    }
}

/// The first `]` at or after `j`, before `k` (or `k`).
pub open spec fn attr_close(s: Seq<char>, j: int, k: int) -> int
    decreases k - j,
{
    if j < 0 || j >= k || s[j] == ']' {
        j
    } else {
        attr_close(s, j + 1, k)
    }
}

/// The attributes `#[...]` (up to the first `]`) in `s` from `i` up to `k`, in order.
pub open spec fn attributes_spec(s: Seq<char>, i: int, k: int) -> Seq<Seq<char>>
    decreases k - i,
{
    if i < 0 || i >= k || k > s.len() {
        Seq::empty()
    } else if s[i] == '#' && i + 1 < k && s[i + 1] == '[' {
        let j = attr_close(s, i + 2, k);
        if j < i + 2 || j >= k {
            Seq::empty()
        } else {
            seq![s.subrange(i, j + 1)] + attributes_spec(s, j + 1, k)
        }
    } else {
        attributes_spec(s, i + 1, k)
    }
}

pub open spec fn texts(v: Seq<String>) -> Seq<Seq<char>> {
    v.map_values(|a: String| a@)
}

/// The header of a struct declaration at `k`: where its name starts and
/// ends, and the position after its `{`.
fn rust_header(cs: &Vec<char>, k: usize, kw: &Vec<char>) -> (r: Option<(usize, usize, usize)>)
    requires
        k <= cs.len(),
        kw@ == struct_keyword(),
    ensures
        r.is_some() == rust_decl_at(cs@, k as int),
        r matches Some((a, e, p)) ==> a == next_non_ws(cs@, k + 6) && e == ident_end(cs@, a as int)
            && p == next_non_ws(cs@, e as int) + 1 && k < a < e < p <= cs.len(),
{
    if !keyword_here(cs, k, kw) {
        return None;
    }
    let a = skip_ws(cs, k + 6);
    let e = read_ident(cs, a);
    let c = skip_ws(cs, e);
    if e == a || !is_name_start(cs[a]) || c >= cs.len() || cs[c] != '{' {
        return None;
    }
    Some((a, e, c + 1))
}

/// Reads the visibility and name of the field that starts at `q`.
fn rust_field_head(source: &str, cs: &Vec<char>, q: usize) -> (r: Option<(Visibility, usize, usize)>)
    requires
        cs@ == source@,
        q <= cs.len(),
    ensures
        match r {
            Some((v, a, e)) => rust_field_head_spec(cs@, q as int) == Some((v, a as int, e as int))
                && q <= a < e <= cs.len(),
            None => rust_field_head_spec(cs@, q as int) is None,
        },
{
    let e1 = read_ident(cs, q);
    if e1 == q || !is_name_start(cs[q]) {
        return None;
    }
    if !same_text(source.substring_char(q, e1), "pub") {
        return Some((Visibility::Private, q, e1));
    }
    let c = skip_ws(cs, e1);
    if c < cs.len() && cs[c] == '(' {
        let d = skip_ws(cs, c + 1);
        let de = read_ident(cs, d);
        if !same_text(source.substring_char(d, de), "crate") {
            return None;
        }
        let f = skip_ws(cs, de);
        if f >= cs.len() || cs[f] != ')' {
            return None;
        }
        let g = skip_ws(cs, f + 1);
        let ge = read_ident(cs, g);
        if ge == g || !is_name_start(cs[g]) {
            return None;
        }
        return Some((Visibility::Crate, g, ge));
    }
    let ge = read_ident(cs, c);
    if ge == c || !is_name_start(cs[c]) {
        return None;
    }
    Some((Visibility::Public, c, ge))
}

/// Reads the field that starts at `q` (see `rust_field_spec`).
fn rust_field_at(source: &str, cs: &Vec<char>, q: usize) -> (r: Result<
    (RustField, usize),
    ExtractionError,
>)
    requires
        cs@ == source@,
        q <= cs.len(),
    ensures
        match r {
            Ok((f, tq)) => rust_field_spec(cs@, q as int) is Ok && rust_field_spec(cs@, q as int)->Ok_0.1
                == tq && rust_field_is(f, rust_field_spec(cs@, q as int)->Ok_0.0) && q < tq <= cs.len(),
            Err(e) => rust_field_spec(cs@, q as int) == Err::<(RustFieldSyn, int), ExtractionError>(e)
                && e != ExtractionError::NotFound,
        },
{
    let (visibility, a, e) = match rust_field_head(source, cs, q) {
        Some(h) => h,
        None => {
            return Err(ExtractionError::Malformed);
        },
    };
    let fname = String::from_str(source.substring_char(a, e));
    let c = skip_ws(cs, e);
    if c >= cs.len() || cs[c] != ':' {
        return Err(ExtractionError::Malformed);
    }
    let (term, tq) = match parse_term(source, cs, c + 1) {
        Some(x) => x,
        None => {
            return Err(ExtractionError::Malformed);
        },
    };
    let ghost m = term_model(term);
    let field_type = match rust_field_type(term) {
        Ok(ft) => ft,
        Err(err) => {
            return Err(err);
        },
    };
    let f = RustField { name: fname, field_type, visibility };
    assert(rust_field_spec(cs@, q as int) == Ok::<(RustFieldSyn, int), ExtractionError>(
        (RustFieldSyn { visibility, name: cs@.subrange(a as int, e as int), term: m }, tq as int),
    ));
    Ok((f, tq))
}

fn has_field_named(fields: &Vec<RustField>, name: &String) -> (r: bool)
    ensures
        r == exists|i: int| 0 <= i < fields.len() && #[trigger] fields@[i].name@ == name@,
{
    let mut i: usize = 0;
    while i < fields.len()
        invariant
            i <= fields.len(),
            forall|j: int| 0 <= j < i ==> #[trigger] fields@[j].name@ != name@,
        decreases fields.len() - i,
    {
        if fields[i].name == *name {
            return true;
        }
        i = i + 1;
    }
    false
}

/// The attributes `#[...]` that stand before position `k`, in order.
fn attributes_before(source: &str, cs: &Vec<char>, k: usize) -> (r: Vec<String>)
    requires
        cs@ == source@,
        k <= cs.len(),
    ensures
        texts(r@) == attributes_spec(cs@, 0, k as int),
{
    let mut out: Vec<String> = Vec::new();
    let mut i: usize = 0;
    while i < k
        invariant
            cs@ == source@,
            k <= cs.len(),
            i <= k,
            texts(out@) + attributes_spec(cs@, i as int, k as int) == attributes_spec(cs@, 0, k as int),
        decreases k - i,
    {
        if cs[i] == '#' && i + 1 < k && cs[i + 1] == '[' {
            let mut j: usize = i + 2;
            while j < k && cs[j] != ']'
                invariant
                    i + 2 <= j <= k,
                    k <= cs.len(),
                    attr_close(cs@, j as int, k as int) == attr_close(cs@, i + 2, k as int),
                decreases k - j,
            {
                j = j + 1;
            }
            if j < k {
                let a = String::from_str(source.substring_char(i, j + 1));
                let ghost prev = out@;
                let ghost rest = attributes_spec(cs@, j + 1, k as int);
                out.push(a);
                assert(texts(out@) =~= texts(prev).push(a@));
                assert(texts(out@) + rest =~= texts(prev) + (seq![a@] + rest));
                i = j + 1;
            } else {
                assert(texts(out@) + Seq::<Seq<char>>::empty() =~= texts(out@));
                i = k;
            }
        } else {
            i = i + 1;
        }
    }
    assert(texts(out@) + Seq::<Seq<char>>::empty() =~= texts(out@));
    out
}

proof fn lemma_no_decl(s: Seq<char>, k: int)
    requires
        0 <= k,
        rust_first_decl(s, k) is None,
    ensures
        forall|i: int| k <= i ==> !#[trigger] rust_decl_at(s, i),
    decreases s.len() - k,
{
    if k < s.len() {
        lemma_no_decl(s, k + 1);
    }
    assert forall|i: int| k <= i implies !#[trigger] rust_decl_at(s, i) by {
        if i >= s.len() {
            assert(!keyword_at(s, i, struct_keyword()));
        }
    }
}

/// Reads the first Rust struct declaration with named fields
/// (`struct Name { pub field: Type, ... }`) of `source`, with the attributes
/// written before it: `Ok` exactly when that declaration follows the grammar
/// of `rust_parse`, with its name and its fields in order.
pub fn analyze_rust_type(source: &str) -> (r: Result<RustType, ExtractionError>)
    ensures
        (r == Err::<RustType, ExtractionError>(ExtractionError::NotFound)) <==> (forall|k: int|
            !#[trigger] rust_decl_at(source@, k)),
        match r {
            Ok(t) => rust_parse(source@) matches Ok((n, fs)) && t.name@ == n && rust_fields_are(
                t.fields@,
                fs,
            ) && rust_names_distinct(t.fields@) && t.location@.len() == 0 && texts(t.attributes@)
                == attributes_spec(source@, 0, rust_first_decl(source@, 0)->Some_0),
            Err(e) => rust_parse(source@) == Err::<(Seq<char>, Seq<RustFieldSyn>), ExtractionError>(e),
        },
{
    let cs = chars_of(source);
    let kw = vec!['s', 't', 'r', 'u', 'c', 't'];
    assert(kw@ =~= struct_keyword());
    let mut k: usize = 0;
    let mut header: Option<(usize, usize, usize)> = None;
    while k < cs.len() && header.is_none()
        invariant
            k <= cs.len(),
            kw@ == struct_keyword(),
            header matches Some((a, e, p)) ==> k < cs.len() && rust_decl_at(cs@, k as int) && a
                == next_non_ws(cs@, k + 6) && e == ident_end(cs@, a as int) && p == next_non_ws(
                cs@,
                e as int,
            ) + 1 && k < a < e < p <= cs.len(),
            header is None ==> rust_first_decl(cs@, 0) == rust_first_decl(cs@, k as int),
            header is Some ==> rust_first_decl(cs@, 0) == Some(k as int),
        decreases cs.len() - k + (if header.is_none() {
            1int
        } else {
            0int
        }),
    {
        header = rust_header(&cs, k, &kw);
        if header.is_none() {
            k = k + 1;
        }
    }
    let (a, e, p) = match header {
        Some(h) => h,
        None => {
            proof {
                lemma_no_decl(cs@, 0);
            }
            return Err(ExtractionError::NotFound);
        },
    };
    let attributes = attributes_before(source, &cs, k);
    let name = String::from_str(source.substring_char(a, e));
    let mut fields: Vec<RustField> = Vec::new();
    let ghost mut syns: Seq<RustFieldSyn> = Seq::empty();
    let mut pos: usize = p;
    let mut after_comma = false;
    loop
        invariant
            cs@ == source@,
            k < pos <= cs.len(),
            rust_decl_at(cs@, k as int),
            rust_first_decl(cs@, 0) == Some(k as int),
            texts(attributes@) == attributes_spec(cs@, 0, k as int),
            rust_body(cs@, p as int, false, Seq::empty()) == rust_body(
                cs@,
                pos as int,
                after_comma,
                syns,
            ),
            rust_parse(cs@) == match rust_body(cs@, p as int, false, Seq::empty()) {
                Ok(fs) => Ok((name@, fs)),
                Err(x) => Err(x),
            },
            rust_fields_are(fields@, syns),
            after_comma ==> fields.len() > 0,
            rust_names_distinct(fields@),
        decreases cs.len() - pos,
    {
        let q = skip_ws(&cs, pos);
        if q >= cs.len() {
            return Err(ExtractionError::Malformed);
        }
        if cs[q] == '}' {
            return Ok(RustType { name, fields, attributes, location: String::new() });
        }
        if fields.len() > 0 && !after_comma {
            return Err(ExtractionError::Malformed);
        }
        let (f, tq) = match rust_field_at(source, &cs, q) {
            Ok(x) => x,
            Err(err) => {
                return Err(err);
            },
        };
        let ghost syn = rust_field_spec(cs@, q as int)->Ok_0.0;
        if has_field_named(&fields, &f.name) {
            proof {
                let i = choose|i: int| 0 <= i < fields.len() && #[trigger] fields@[i].name@ == f.name@;
                assert(syns[i].name == syn.name);
            }
            return Err(ExtractionError::Malformed);
        }
        proof {
            assert forall|i: int| 0 <= i < syns.len() implies #[trigger] syns[i].name != syn.name by {
                assert(rust_field_is(fields@[i], syns[i]));
            }
        }
        let ghost old_fields = fields@;
        fields.push(f);
        proof {
            syns = syns.push(syn);
            assert forall|i: int| 0 <= i < fields.len() implies rust_field_is(
                #[trigger] fields@[i],
                syns[i],
            ) by {
                if i < old_fields.len() {
                    assert(fields@[i] == old_fields[i]);
                }
            }
        }
        let t2 = skip_ws(&cs, tq);
        if t2 < cs.len() && cs[t2] == ',' {
            pos = t2 + 1;
            after_comma = true;
        } else {
            pos = tq;
            after_comma = false;
        }
    }
}

/// The lower-case form of a name, character by character as Unicode defines it.
pub uninterp spec fn lower_of(s: Seq<char>) -> Seq<char>;

/// Relies on `str::to_lowercase`: the result depends on the characters alone.
#[verifier::external_body]
fn lowercase(s: &str) -> (r: String)
    ensures
        r@ == lower_of(s@),
{
    s.to_lowercase()
}

/// A Rust field type rendered in ecosystem `e`.
pub open spec fn rust_render(t: RustFieldType, e: Ecosystem) -> Result<Seq<char>, MappingError>
    decreases t,
{
    if e == Ecosystem::Rust {
        Err(MappingError::UnknownEcosystem)
    } else {
        match t {
            RustFieldType::I64 => Ok(
                match e {
                    Ecosystem::ReScript => "int"@,
                    Ecosystem::Julia => "Int64"@,
                    _ => "Int"@,
                },
            ),
            RustFieldType::I32 => Ok(
                match e {
                    Ecosystem::ReScript => "int"@,
                    Ecosystem::Julia => "Int32"@,
                    _ => "Int"@,
                },
            ),
            RustFieldType::U64 => Ok(
                match e {
                    Ecosystem::ReScript => "int"@,
                    Ecosystem::Julia => "UInt64"@,
                    _ => "Int"@,
                },
            ),
            RustFieldType::U32 => Ok(
                match e {
                    Ecosystem::ReScript => "int"@,
                    Ecosystem::Julia => "UInt32"@,
                    _ => "Int"@,
                },
            ),
            RustFieldType::String => Ok(
                match e {
                    Ecosystem::ReScript => "string"@,
                    _ => "String"@,
                },
            ),
            RustFieldType::Bool => Ok(
                match e {
                    Ecosystem::ReScript => "bool"@,
                    _ => "Bool"@,
                },
            ),
            RustFieldType::F64 => Ok(
                match e {
                    Ecosystem::ReScript => "float"@,
                    Ecosystem::Julia => "Float64"@,
                    _ => "Float"@,
                },
            ),
            RustFieldType::F32 => Ok(
                match e {
                    Ecosystem::ReScript => "float"@,
                    Ecosystem::Julia => "Float32"@,
                    _ => "Float"@,
                },
            ),
            RustFieldType::Struct(n) => Ok(
                if e == Ecosystem::ReScript {
                    lower_of(n@)
                } else {
                    n@
                },
            ),
            RustFieldType::Vec(i) => match rust_render(*i, e) {
                Ok(x) => Ok(
                    match e {
                        Ecosystem::ReScript => "array<"@ + x + ">"@,
                        Ecosystem::Julia => "Vector{"@ + x + "}"@,
                        _ => "List("@ + x + ")"@,
                    },
                ),
                Err(m) => Err(m),
            },
            RustFieldType::Option(i) => match rust_render(*i, e) {
                Ok(x) => Ok(
                    match e {
                        Ecosystem::ReScript => "option<"@ + x + ">"@,
                        Ecosystem::Julia => "Union{Nothing, "@ + x + "}"@,
                        _ => "Option("@ + x + ")"@,
                    },
                ),
                Err(m) => Err(m),
            },
            RustFieldType::Result(a, b) => if e == Ecosystem::Julia {
                Err(MappingError::NoEquivalentConstruct)
            } else {
                match (rust_render(*a, e), rust_render(*b, e)) {
                    (Ok(x), Ok(y)) => Ok(
                        match e {
                            Ecosystem::ReScript => "result<"@ + x + ", "@ + y + ">"@,
                            _ => "Result("@ + x + ", "@ + y + ")"@,
                        },
                    ),
                    (Err(m), _) => Err(m),
                    (_, Err(m)) => Err(m),
                }
            },
        }
    }
}

/// Rendering for a target tag; a tag that names no ecosystem renders nothing.
pub open spec fn rust_render_tag(t: RustFieldType, tag: Seq<char>) -> Result<
    Seq<char>,
    MappingError,
> {
    match ecosystem_of(tag) {
        Some(e) => rust_render(t, e),
        None => Err(MappingError::UnknownEcosystem),
    }
}

fn pick(e: Ecosystem, rescript: &str, julia: &str, gleam: &str) -> (r: String)
    ensures
        r@ == match e {
            Ecosystem::ReScript => rescript@,
            Ecosystem::Julia => julia@,
            _ => gleam@,
        },
{
    match e {
        Ecosystem::ReScript => String::from_str(rescript),
        Ecosystem::Julia => String::from_str(julia),
        _ => String::from_str(gleam),
    }
}

fn render(t: &RustFieldType, e: Ecosystem) -> (r: Result<String, MappingError>)
    ensures
        text_result(r) == rust_render(*t, e),
    decreases t,
{
    if e == Ecosystem::Rust {
        return Err(MappingError::UnknownEcosystem);
    }
    match t {
        RustFieldType::I64 => Ok(pick(e, "int", "Int64", "Int")),
        RustFieldType::I32 => Ok(pick(e, "int", "Int32", "Int")),
        RustFieldType::U64 => Ok(pick(e, "int", "UInt64", "Int")),
        RustFieldType::U32 => Ok(pick(e, "int", "UInt32", "Int")),
        RustFieldType::String => Ok(pick(e, "string", "String", "String")),
        RustFieldType::Bool => Ok(pick(e, "bool", "Bool", "Bool")),
        RustFieldType::F64 => Ok(pick(e, "float", "Float64", "Float")),
        RustFieldType::F32 => Ok(pick(e, "float", "Float32", "Float")),
        RustFieldType::Struct(n) => Ok(
            if e == Ecosystem::ReScript {
                lowercase(n.as_str())
            } else {
                n.clone()
            },
        ),
        RustFieldType::Vec(i) => {
            let x = render(i, e)?;
            Ok(
                match e {
                    Ecosystem::ReScript => wrap("array<", x, ">"),
                    Ecosystem::Julia => wrap("Vector{", x, "}"),
                    _ => wrap("List(", x, ")"),
                },
            )
        },
        RustFieldType::Option(i) => {
            let x = render(i, e)?;
            Ok(
                match e {
                    Ecosystem::ReScript => wrap("option<", x, ">"),
                    Ecosystem::Julia => wrap("Union{Nothing, ", x, "}"),
                    _ => wrap("Option(", x, ")"),
                },
            )
        },
        RustFieldType::Result(a, b) => {
            if e == Ecosystem::Julia {
                return Err(MappingError::NoEquivalentConstruct);
            }
            let x = render(a, e)?;
            let y = render(b, e)?;
            let mut s = match e {
                Ecosystem::ReScript => String::from_str("result<"),
                _ => String::from_str("Result("),
            };
            s.append(x.as_str());
            s.append(", ");
            s.append(y.as_str());
            match e {
                Ecosystem::ReScript => s.append(">"),
                _ => s.append(")"),
            }
            Ok(s)
        },
    }
}

/// Renders a Rust field type as the nearest type of the target ecosystem
/// ("rescript", "julia" or "gleam").
pub fn map_to_target(field_type: &RustFieldType, target: &str) -> (r: Result<String, MappingError>)
    ensures
        text_result(r) == rust_render_tag(*field_type, target@),
{
    match Ecosystem::from_tag(target) {
        Some(e) => render(field_type, e),
        None => Err(MappingError::UnknownEcosystem),
    }
}

/// The type loses precision in `e`: an unsigned 64-bit integer does not fit
/// in ReScript's signed `int`.
pub open spec fn rust_lossy(t: RustFieldType, e: Ecosystem) -> bool
    decreases t,
{
    match t {
        RustFieldType::U64 => e == Ecosystem::ReScript,
        RustFieldType::Vec(i) => rust_lossy(*i, e),
        RustFieldType::Option(i) => rust_lossy(*i, e),
        RustFieldType::Result(a, b) => rust_lossy(*a, e) || rust_lossy(*b, e),
        _ => false,
    }
}

fn lossy(t: &RustFieldType, e: Ecosystem) -> (r: bool)
    ensures
        r == rust_lossy(*t, e),
    decreases t,
{
    match t {
        RustFieldType::U64 => e == Ecosystem::ReScript,
        RustFieldType::Vec(i) => lossy(i, e),
        RustFieldType::Option(i) => lossy(i, e),
        RustFieldType::Result(a, b) => lossy(a, e) || lossy(b, e),
        _ => false,
    }
}

/// Fidelity of one field in tenths: 10 lossless, 9 with precision loss,
/// 0 without an equivalent.
pub open spec fn rust_points(t: RustFieldType, tag: Seq<char>) -> int {
    match ecosystem_of(tag) {
        Some(e) => if rust_render(t, e) is Ok {
            if rust_lossy(t, e) {
                9
            } else {
                10
            }
        } else {
            0
        },
        None => 0,
    }
}

/// Summed fidelity of the public fields.
pub open spec fn rust_points_sum(fs: Seq<RustField>, tag: Seq<char>) -> int
    decreases fs.len(),
{
    if fs.len() == 0 {
        0
    } else {
        rust_points_sum(fs.drop_last(), tag) + if fs.last().visibility == Visibility::Public {
            rust_points(fs.last().field_type, tag)
        } else {
            0
        }
    }
}

pub open spec fn public_count(fs: Seq<RustField>) -> int
    decreases fs.len(),
{
    if fs.len() == 0 {
        0
    } else {
        public_count(fs.drop_last()) + if fs.last().visibility == Visibility::Public {
            1int
        } else {
            0
        }
    }
}

/// The score of a struct in a target: the mean fidelity of its public
/// fields, and 1 for a struct without public fields.
pub open spec fn rust_score_is(t: RustType, tag: Seq<char>, r: Score) -> bool {
    if public_count(t.fields@) == 0 {
        r.num == 1 && r.den == 1
    } else {
        r.num == rust_points_sum(t.fields@, tag) && r.den == 10 * public_count(t.fields@)
    }
}

/// Fidelity of one field type in a target, in tenths.
pub fn field_points(t: &RustFieldType, target: &str) -> (r: u128)
    ensures
        r == rust_points(*t, target@),
        r <= 10,
{
    match Ecosystem::from_tag(target) {
        Some(e) => if render(t, e).is_ok() {
            if lossy(t, e) {
                9
            } else {
                10
            }
        } else {
            0
        },
        None => 0,
    }
}

/// Compatibility score of a Rust struct with a target ecosystem; private
/// fields take no part.
pub fn compatibility_score(rust_type: &RustType, target: &str) -> (r: Score)
    ensures
        r.wf(),
        rust_score_is(*rust_type, target@, r),
{
    let fs = &rust_type.fields;
    let mut sum: u128 = 0;
    let mut count: u128 = 0;
    let mut i: usize = 0;
    while i < fs.len()
        invariant
            i <= fs.len(),
            sum == rust_points_sum(fs@.subrange(0, i as int), target@),
            count == public_count(fs@.subrange(0, i as int)),
            sum <= 10 * count,
            count <= i,
        decreases fs.len() - i,
    {
        proof {
            assert(fs@.subrange(0, i + 1).drop_last() =~= fs@.subrange(0, i as int));
        }
        if fs[i].visibility == Visibility::Public {
            let pts = field_points(&fs[i].field_type, target);
            sum = sum + pts;
            count = count + 1;
        }
        i = i + 1;
    }
    assert(fs@.subrange(0, fs.len() as int) =~= fs@);
    if count == 0 {
        return Score { num: 1, den: 1 };
    }
    Score { num: sum, den: 10 * count }
}

pub open spec fn repr_c() -> Seq<char> {
    seq!['#', '[', 'r', 'e', 'p', 'r', '(', 'C', ')', ']']
}

/// `n` occurs in `h`.
pub open spec fn occurs_in(n: Seq<char>, h: Seq<char>) -> bool {
    exists|p: int| 0 <= p && p + n.len() <= h.len() && #[trigger] h.subrange(p, p + n.len()) == n
}

fn contains_chars(h: &Vec<char>, n: &Vec<char>) -> (r: bool)
    ensures
        r == occurs_in(n@, h@),
{
    if n.len() == 0 {
        assert(h@.subrange(0, 0 + n@.len() as int) =~= n@);
        return true;
    }
    if n.len() > h.len() {
        return false;
    }
    let last = h.len() - n.len();
    let mut p: usize = 0;
    while p <= last
        invariant
            last + n.len() == h.len(),
            n.len() > 0,
            p <= last + 1,
            forall|i: int|
                0 <= i < p && i + n.len() <= h.len() ==> #[trigger] h@.subrange(i, i + n.len()) != n@,
        decreases h.len() - p,
    {
        if word_at(h, p, n) {
            return true;
        }
        p = p + 1;
    }
    assert forall|i: int| 0 <= i && i + n.len() <= h.len() implies #[trigger] h@.subrange(
        i,
        i + n.len(),
    ) != n@ by {
        assert(i < p);
    }
    false
}

/// The struct carries `#[repr(C)]` among its attributes.
pub fn is_ffi_safe(rust_type: &RustType) -> (r: bool)
    ensures
        r == exists|i: int|
            0 <= i < rust_type.attributes.len() && occurs_in(
                repr_c(),
                #[trigger] rust_type.attributes@[i]@,
            ),
{
    let pat = vec!['#', '[', 'r', 'e', 'p', 'r', '(', 'C', ')', ']'];
    assert(pat@ =~= repr_c());
    let mut i: usize = 0;
    while i < rust_type.attributes.len()
        invariant
            pat@ == repr_c(),
            i <= rust_type.attributes.len(),
            forall|j: int| 0 <= j < i ==> !occurs_in(repr_c(), #[trigger] rust_type.attributes@[j]@),
        decreases rust_type.attributes.len() - i,
    {
        let cs = chars_of(rust_type.attributes[i].as_str());
        if contains_chars(&cs, &pat) {
            return true;
        }
        i = i + 1;
    }
    false
}

/// The type's `Debug` form in lower case: `i64`, `string`,
/// `struct("name")`, `vec(i64)`, `result(i64, string)`.
pub open spec fn ffi_type_text(t: RustFieldType) -> Seq<char>
    decreases t,
{
    match t {
        RustFieldType::I64 => "i64"@,
        RustFieldType::I32 => "i32"@,
        RustFieldType::U64 => "u64"@,
        RustFieldType::U32 => "u32"@,
        RustFieldType::String => "string"@,
        RustFieldType::Bool => "bool"@,
        RustFieldType::F64 => "f64"@,
        RustFieldType::F32 => "f32"@,
        RustFieldType::Struct(n) => "struct(\""@ + lower_of(n@) + "\")"@,
        RustFieldType::Vec(i) => "vec("@ + ffi_type_text(*i) + ")"@,
        RustFieldType::Option(i) => "option("@ + ffi_type_text(*i) + ")"@,
        RustFieldType::Result(a, b) => "result("@ + ffi_type_text(*a) + ", "@ + ffi_type_text(*b)
            + ")"@,
    }
}

fn type_text(t: &RustFieldType) -> (r: String)
    ensures
        r@ == ffi_type_text(*t),
    decreases t,
{
    match t {
        RustFieldType::I64 => String::from_str("i64"),
        RustFieldType::I32 => String::from_str("i32"),
        RustFieldType::U64 => String::from_str("u64"),
        RustFieldType::U32 => String::from_str("u32"),
        RustFieldType::String => String::from_str("string"),
        RustFieldType::Bool => String::from_str("bool"),
        RustFieldType::F64 => String::from_str("f64"),
        RustFieldType::F32 => String::from_str("f32"),
        RustFieldType::Struct(n) => wrap("struct(\"", lowercase(n.as_str()), "\")"),
        RustFieldType::Vec(i) => wrap("vec(", type_text(i), ")"),
        RustFieldType::Option(i) => wrap("option(", type_text(i), ")"),
        RustFieldType::Result(a, b) => {
            let mut s = String::from_str("result(");
            s.append(type_text(a).as_str());
            s.append(", ");
            s.append(type_text(b).as_str());
            s.append(")");
            s
        },
    }
}

/// The lines of the FFI-safe mirror for one field: a string becomes a
/// pointer and a length, any other type is written in its `Debug` form.
pub open spec fn ffi_field_text(f: RustField) -> Seq<char> {
    match f.field_type {
        RustFieldType::String => "    "@ + f.name@ + "_ptr: *const u8,\n"@ + "    "@ + f.name@
            + "_len: usize,\n"@,
        _ => "    "@ + f.name@ + ": "@ + ffi_type_text(f.field_type) + ",\n"@,
    }
}

pub open spec fn ffi_fields_text(fs: Seq<RustField>) -> Seq<char>
    decreases fs.len(),
{
    if fs.len() == 0 {
        Seq::empty()
    } else {
        ffi_fields_text(fs.drop_last()) + ffi_field_text(fs.last())
    }
}

/// The declaration of the `#[repr(C)]` mirror struct `<name>FFI`.
pub open spec fn ffi_text(t: RustType) -> Seq<char> {
    "/// FFI-safe "@ + t.name@ + " representation\n"@ + "#[repr(C)]\n"@ + "pub struct "@ + t.name@
        + "FFI {\n"@ + ffi_fields_text(t.fields@) + "}\n"@
}

/// Lays out an FFI-safe mirror of the struct, one line per field (two for
/// a string: pointer and length).
pub fn generate_ffi_wrapper(rust_type: &RustType) -> (r: String)
    ensures
        r@ == ffi_text(*rust_type),
{
    let mut w = String::from_str("/// FFI-safe ");
    w.append(rust_type.name.as_str());
    w.append(" representation\n");
    w.append("#[repr(C)]\n");
    w.append("pub struct ");
    w.append(rust_type.name.as_str());
    w.append("FFI {\n");
    let ghost head = w@;
    let fs = &rust_type.fields;
    let mut i: usize = 0;
    while i < fs.len()
        invariant
            i <= fs.len(),
            w@ == head + ffi_fields_text(fs@.subrange(0, i as int)),
        decreases fs.len() - i,
    {
        let f = &fs[i];
        match &f.field_type {
            RustFieldType::String => {
                w.append("    ");
                w.append(f.name.as_str());
                w.append("_ptr: *const u8,\n");
                w.append("    ");
                w.append(f.name.as_str());
                w.append("_len: usize,\n");
            },
            _ => {
                w.append("    ");
                w.append(f.name.as_str());
                w.append(": ");
                w.append(type_text(&f.field_type).as_str());
                w.append(",\n");
            },
        }
        proof {
            assert(fs@.subrange(0, i + 1).drop_last() =~= fs@.subrange(0, i as int));
            assert(w@ =~= head + ffi_fields_text(fs@.subrange(0, i + 1)));
        }
        i = i + 1;
    }
    assert(fs@.subrange(0, fs.len() as int) =~= fs@);
    w.append("}\n");
    assert(w@ =~= ffi_text(*rust_type));
    w
}

impl RustType {
    /// Checks the model's invariant: no two fields share a name.
    pub fn validate(&self) -> (r: Result<(), TypeModelError>)
        ensures
            r is Ok <==> rust_names_distinct(self.fields@),
            r is Err ==> r == Err::<(), TypeModelError>(TypeModelError::DuplicateField),
    {
        let mut j: usize = 0;
        while j < self.fields.len()
            invariant
                j <= self.fields.len(),
                forall|a: int, b: int| 0 <= a < b < j ==> self.fields@[a].name@ != self.fields@[b].name@,
            decreases self.fields.len() - j,
        {
            let mut i: usize = 0;
            while i < j
                invariant
                    i <= j < self.fields.len(),
                    forall|a: int| 0 <= a < i ==> self.fields@[a].name@ != self.fields@[j as int].name@,
                decreases j - i,
            {
                if self.fields[i].name == self.fields[j].name {
                    assert(self.fields@[i as int].name@ == self.fields@[j as int].name@);
                    assert(!rust_names_distinct(self.fields@));
                    return Err(TypeModelError::DuplicateField);
                }
                i = i + 1;
            }
            j = j + 1;
        }
        Ok(())
    }
}

/// The first type of `registry` named `name`: named references are resolved
/// through such a registry, never by owning the referenced type.
pub fn resolve<'a>(name: &str, registry: &'a Vec<RustType>) -> (r: Option<&'a RustType>)
    ensures
        r is None <==> forall|i: int| 0 <= i < registry.len() ==> #[trigger] registry@[i].name@ != name@,
        r matches Some(t) ==> exists|i: int|
            0 <= i < registry.len() && t == registry@[i] && #[trigger] registry@[i].name@ == name@
                && forall|j: int| 0 <= j < i ==> registry@[j].name@ != name@,
{
    let mut i: usize = 0;
    while i < registry.len()
        invariant
            i <= registry.len(),
            forall|j: int| 0 <= j < i ==> #[trigger] registry@[j].name@ != name@,
        decreases registry.len() - i,
    {
        if same_text(registry[i].name.as_str(), name) {
            return Some(&registry[i]);
        }
        i = i + 1;
    }
    None
}

} // verus!
