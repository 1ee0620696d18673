//! Character-level helpers shared by the declaration extractors, and the
//! spec-level reading of a type expression that their contracts use.
use vstd::prelude::*;

verus! {

pub open spec fn is_ws(c: char) -> bool {
    c == ' ' || c == '\n' || c == '\t' || c == '\r'
}

pub open spec fn is_ident_char(c: char) -> bool {
    ('a' <= c && c <= 'z') || ('A' <= c && c <= 'Z') || ('0' <= c && c <= '9') || c == '_'
}

/// The first index at or after `p` that holds no whitespace (or the end).
pub open spec fn next_non_ws(s: Seq<char>, p: int) -> int
    decreases s.len() - p,
{
    if p < 0 || p >= s.len() {
        p
    } else if is_ws(s[p]) {
        next_non_ws(s, p + 1)
    } else {
        p
    }
}

/// The end of the run of identifier characters that starts at `p`.
pub open spec fn ident_end(s: Seq<char>, p: int) -> int
    decreases s.len() - p,
{
    if p < 0 || p >= s.len() {
        p
    } else if is_ident_char(s[p]) {
        ident_end(s, p + 1)
    } else {
        p
    }
}

/// `s` holds the word `w` at `k`, standing alone on its left and followed by whitespace.
pub open spec fn keyword_at(s: Seq<char>, k: int, w: Seq<char>) -> bool {
    0 <= k && k + w.len() < s.len() && s.subrange(k, k + w.len()) == w && (k == 0
        || !is_ident_char(s[k - 1])) && is_ws(s[k + w.len()])
}

pub fn is_space(c: char) -> (r: bool)
    ensures
        r == is_ws(c),
{
    c == ' ' || c == '\n' || c == '\t' || c == '\r'
}

pub fn is_word_char(c: char) -> (r: bool)
    ensures
        r == is_ident_char(c),
{
    ('a' <= c && c <= 'z') || ('A' <= c && c <= 'Z') || ('0' <= c && c <= '9') || c == '_'
}

pub fn is_name_start(c: char) -> (r: bool)
    ensures
        r == is_ident_start(c),
{
    ('a' <= c && c <= 'z') || ('A' <= c && c <= 'Z') || c == '_'
}

/// The characters of `s`, one element each.
pub fn chars_of(s: &str) -> (r: Vec<char>)
    ensures
        r@ == s@,
{
    let n = s.unicode_len();
    let mut r: Vec<char> = Vec::new();
    let mut i: usize = 0;
    while i < n
        invariant
            n == s@.len(),
            i <= n,
            r@ == s@.subrange(0, i as int),
        decreases n - i,
    {
        r.push(s.get_char(i));
        i = i + 1;
        assert(r@ =~= s@.subrange(0, i as int));
    }
    assert(r@ =~= s@);
    r
}

/// Text equality, character by character.
pub fn same_text(a: &str, b: &str) -> (r: bool)
    ensures
        r == (a@ == b@),
{
    let n = a.unicode_len();
    let m = b.unicode_len();
    if n != m {
        return false;
    }
    let mut i: usize = 0;
    while i < n
        invariant
            n == a@.len(),
            n == b@.len(),
            i <= n,
            forall|j: int| 0 <= j < i ==> a@[j] == b@[j],
        decreases n - i,
    {
        if a.get_char(i) != b.get_char(i) {
            return false;
        }
        i = i + 1;
    }
    assert(a@ =~= b@);
    true
}

pub fn skip_ws(cs: &Vec<char>, pos: usize) -> (q: usize)
    requires
        pos <= cs.len(),
    ensures
        q == next_non_ws(cs@, pos as int),
        pos <= q <= cs.len(),
        q == cs.len() || !is_ws(cs@[q as int]),
{
    let mut q = pos;
    while q < cs.len() && is_space(cs[q])
        invariant
            pos <= q <= cs.len(),
            next_non_ws(cs@, q as int) == next_non_ws(cs@, pos as int),
            forall|i: int| pos <= i < q ==> is_ws(#[trigger] cs@[i]),
        decreases cs.len() - q,
    {
        q = q + 1;
    }
    q
}

pub fn read_ident(cs: &Vec<char>, pos: usize) -> (q: usize)
    requires
        pos <= cs.len(),
    ensures
        q == ident_end(cs@, pos as int),
        pos <= q <= cs.len(),
        q == cs.len() || !is_ident_char(cs@[q as int]),
        forall|i: int| pos <= i < q ==> is_ident_char(#[trigger] cs@[i]),
{
    let mut q = pos;
    while q < cs.len() && is_word_char(cs[q])
        invariant
            pos <= q <= cs.len(),
            ident_end(cs@, q as int) == ident_end(cs@, pos as int),
            forall|i: int| pos <= i < q ==> is_ident_char(#[trigger] cs@[i]),
        decreases cs.len() - q,
    {
        q = q + 1;
    }
    q
}

/// Whether `cs` holds the characters of `w` from `k` on.
pub fn word_at(cs: &Vec<char>, k: usize, w: &Vec<char>) -> (r: bool)
    requires
        k <= cs.len(),
    ensures
        r == (k + w.len() <= cs.len() && cs@.subrange(k as int, k + w.len()) == w@),
{
    if w.len() > cs.len() - k {
        return false;
    }
    let mut i: usize = 0;
    while i < w.len()
        invariant
            k + w.len() <= cs.len(),
            i <= w.len(),
            forall|j: int| 0 <= j < i ==> cs@[k + j] == w@[j],
        decreases w.len() - i,
    {
        if cs[k + i] != w[i] {
            assert(cs@.subrange(k as int, k + w.len())[i as int] != w@[i as int]);
            return false;
        }
        i = i + 1;
    }
    assert(cs@.subrange(k as int, k + w.len()) =~= w@);
    true
}

/// Whether the keyword `w` stands at `k` (see `keyword_at`).
pub fn keyword_here(cs: &Vec<char>, k: usize, w: &Vec<char>) -> (r: bool)
    requires
        k <= cs.len(),
    ensures
        r == keyword_at(cs@, k as int, w@),
{
    if !word_at(cs, k, w) || k + w.len() >= cs.len() {
        return false;
    }
    if k > 0 && is_word_char(cs[k - 1]) {
        return false;
    }
    is_space(cs[k + w.len()])
}

/// A type expression as written in a field declaration: a name applied to
/// at most two arguments between angle brackets.
pub enum TypeTerm {
    Leaf(String),
    Apply1(String, Box<TypeTerm>),
    Apply2(String, Box<TypeTerm>, Box<TypeTerm>),
}

/// A type expression as the text writes it, names as character sequences.
pub enum TermModel {
    Leaf(Seq<char>),
    Apply1(Seq<char>, Box<TermModel>),
    Apply2(Seq<char>, Box<TermModel>, Box<TermModel>),
}

pub open spec fn term_model(t: TypeTerm) -> TermModel
    decreases t,
{
    match t {
        TypeTerm::Leaf(n) => TermModel::Leaf(n@),
        TypeTerm::Apply1(n, a) => TermModel::Apply1(n@, Box::new(term_model(*a))),
        TypeTerm::Apply2(n, a, b) => TermModel::Apply2(
            n@,
            Box::new(term_model(*a)),
            Box::new(term_model(*b)),
        ),
    }
}

pub open spec fn is_ident_start(c: char) -> bool {
    ('a' <= c && c <= 'z') || ('A' <= c && c <= 'Z') || c == '_'
}

/// An identifier starts at `p`: a letter or `_`, then identifier characters.
pub open spec fn ident_at(s: Seq<char>, p: int) -> bool {
    0 <= p < s.len() && is_ident_start(s[p])
}

/// The type expression that starts at `pos` (after optional whitespace):
/// `name`, `name<t>` or `name<t, u>`, with the position after it.
pub open spec fn term_spec(s: Seq<char>, pos: int) -> Option<(TermModel, int)>
    decreases s.len() - pos,
{
    if !(0 <= pos <= s.len()) {
        None
    } else {
        let p = next_non_ws(s, pos);
        let e = ident_end(s, p);
        let a = next_non_ws(s, e);
        if p < pos || !ident_at(s, p) || e <= p || a < e {
            None
        } else if !(a < s.len() && s[a] == '<') {
            Some((TermModel::Leaf(s.subrange(p, e)), e))
        } else {
            match term_spec(s, a + 1) {
                None => None,
                Some((t1, q1)) => {
                    let b = next_non_ws(s, q1);
                    if b <= a || b >= s.len() {
                        None
                    } else if s[b] == '>' {
                        Some((TermModel::Apply1(s.subrange(p, e), Box::new(t1)), b + 1))
                    } else if s[b] != ',' {
                        None
                    } else {
                        match term_spec(s, b + 1) {
                            None => None,
                            Some((t2, q2)) => {
                                let c = next_non_ws(s, q2);
                                if c >= s.len() || s[c] != '>' {
                                    None
                                } else {
                                    Some(
                                        (
                                            TermModel::Apply2(
                                                s.subrange(p, e),
                                                Box::new(t1),
                                                Box::new(t2),
                                            ),
                                            c + 1,
                                        ),
                                    )
                                }
                            },
                        }
                    }
                },
            }
        }
    }
}

/// Reads the type expression that starts at `pos` (after optional whitespace).
pub fn parse_term(src: &str, cs: &Vec<char>, pos: usize) -> (r: Option<(TypeTerm, usize)>)
    requires
        cs@ == src@,
        pos <= cs.len(),
    ensures
        match r {
            Some((t, q)) => term_spec(cs@, pos as int) == Some((term_model(t), q as int)) && pos < q
                <= cs.len(),
            None => term_spec(cs@, pos as int) is None,
        },
    decreases cs.len() - pos,
{
    let p = skip_ws(cs, pos);
    let e = read_ident(cs, p);
    let a = skip_ws(cs, e);
    if e == p || !is_name_start(cs[p]) {
        return None;
    }
    let name = String::from_str(src.substring_char(p, e));
    if !(a < cs.len() && cs[a] == '<') {
        return Some((TypeTerm::Leaf(name), e));
    }
    let (t1, q1) = match parse_term(src, cs, a + 1) {
        Some(x) => x,
        None => {
            return None;
        },
    };
    let b = skip_ws(cs, q1);
    if b >= cs.len() {
        return None;
    }
    if cs[b] == '>' {
        return Some((TypeTerm::Apply1(name, Box::new(t1)), b + 1));
    }
    if cs[b] != ',' {
        return None;
    }
    let (t2, q2) = match parse_term(src, cs, b + 1) {
        Some(x) => x,
        None => {
            return None;
        },
    };
    let c = skip_ws(cs, q2);
    if c >= cs.len() || cs[c] != '>' {
        return None;
    }
    Some((TypeTerm::Apply2(name, Box::new(t1), Box::new(t2)), c + 1))
}

/// The text of a rendering result.
pub open spec fn text_result<E>(r: Result<String, E>) -> Result<Seq<char>, E> {
    match r {
        Ok(s) => Ok(s@),
        Err(e) => Err(e),
    }
}

/// `inner` between `open` and `close`.
pub fn wrap(open: &str, inner: String, close: &str) -> (r: String)
    ensures
        r@ == open@ + inner@ + close@,
{
    let mut s = String::from_str(open);
    s.append(inner.as_str());
    s.append(close);
    s
}

/// The type applied to `x`, written out: `head<x>`.
pub fn angle(head: &str, x: String) -> (r: String)
    ensures
        r@ == head@ + seq!['<'] + x@ + seq!['>'],
{
    proof {
        reveal_strlit("<");
        reveal_strlit(">");
        assert("<"@ =~= seq!['<']);
        assert(">"@ =~= seq!['>']);
    }
    let mut s = String::from_str(head);
    s.append("<");
    s.append(x.as_str());
    s.append(">");
    s
}

} // verus!
