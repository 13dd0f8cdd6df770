//! The parts of a parsed declaration file that extraction reads: every
//! binding of the file in document order, with the shape of its value.

use vstd::prelude::*;

verus! {

/// One piece of a string literal.
#[derive(Debug, Clone, PartialEq, Eq)]
pub enum StrPart {
    /// Literal text, as written.
    Lit(Vec<char>),
    /// `${name}` naming a plain identifier.
    Var(Vec<char>),
    /// Any other interpolation.
    Complex,
}

/// One element of a binding's attribute path.
#[derive(Debug, Clone, PartialEq, Eq)]
pub enum KeyPart {
    Ident(Vec<char>),
    Str(Vec<StrPart>),
    Dynamic,
}

/// A direct entry of an attribute set: its path and, when its value is a
/// string, the string's pieces.
#[derive(Debug, Clone, PartialEq, Eq)]
pub struct Entry {
    pub path: Vec<KeyPart>,
    pub text: Option<Vec<StrPart>>,
}

/// The shape of a value expression, as far as extraction looks into it.
#[derive(Debug)]
pub enum Shape {
    /// A string.
    Str(Vec<StrPart>),
    /// An attribute set, with its direct entries in order.
    AttrSet(Vec<Entry>),
    /// `let ... in body`.
    LetIn(Box<Shape>),
    /// A binary operation, with its left operand.
    BinOp(Box<Shape>),
    /// `with namespace; body`.
    With(Box<Shape>),
    /// A function application.
    Apply,
    /// Anything else.
    Other,
}

/// A binding `path = value;` of the file. The `inner` bindings that follow
/// it in document order are the ones nested inside it.
#[derive(Debug)]
pub struct Binding {
    pub path: Vec<KeyPart>,
    pub value: Option<Shape>,
    pub inner: usize,
}

/// The text of a string with no interpolation.
pub open spec fn literal_of(parts: Seq<StrPart>) -> Option<Seq<char>>
    decreases parts.len(),
{
    if parts.len() == 0 {
        Some(Seq::empty())
    } else {
        match (literal_of(parts.drop_last()), parts.last()) {
            (Some(t), StrPart::Lit(l)) => Some(t + l@),
            _ => None,
        }
    }
}

/// The key of a one-element path that is a name or a plain string.
pub open spec fn simple_key(path: Seq<KeyPart>) -> Option<Seq<char>> {
    if path.len() != 1 {
        None
    } else {
        match path[0] {
            KeyPart::Ident(n) => Some(n@),
            KeyPart::Str(parts) => literal_of(parts@),
            KeyPart::Dynamic => None,
        }
    }
}

pub fn eq_chars(a: &[char], b: &[char]) -> (r: bool)
    ensures
        r == (a@ == b@),
{
    if a.len() != b.len() {
        return false;
    }
    let mut i: usize = 0;
    while i < a.len()
        invariant
            i <= a.len(),
            a@.len() == b@.len(),
            forall|j: int| 0 <= j < i ==> a@[j] == b@[j],
        decreases a.len() - i,
    {
        if a[i] != b[i] {
            return false;
        }
        i = i + 1;
    }
    assert(a@ =~= b@);
    true
}

pub fn literal_exec(parts: &Vec<StrPart>) -> (r: Option<Vec<char>>)
    ensures
        r matches Some(t) ==> literal_of(parts@) == Some(t@),
        r is None ==> literal_of(parts@) is None,
{
    let mut out: Vec<char> = Vec::new();
    let mut i: usize = 0;
    assert(parts@.take(0) =~= Seq::<StrPart>::empty());
    while i < parts.len()
        invariant
            i <= parts@.len(),
            literal_of(parts@.take(i as int)) == Some(out@),
        decreases parts@.len() - i,
    {
        assert(parts@.take(i + 1).drop_last() =~= parts@.take(i as int));
        match &parts[i] {
            StrPart::Lit(l) => {
                let mut k: usize = 0;
                let ghost o0 = out@;
                while k < l.len()
                    invariant
                        k <= l@.len(),
                        out@ == o0 + l@.take(k as int),
                    decreases l@.len() - k,
                {
                    out.push(l[k]);
                    k = k + 1;
                    assert(out@ =~= o0 + l@.take(k as int));
                }
                assert(l@.take(l@.len() as int) =~= l@);
            },
            _ => {
                proof {
                    lemma_literal_none_extends(parts@, i as int);
                }
                return None;
            },
        }
        i = i + 1;
    }
    assert(parts@.take(parts@.len() as int) =~= parts@);
    Some(out)
}

proof fn lemma_literal_none_extends(parts: Seq<StrPart>, i: int)
    requires
        0 <= i < parts.len(),
        !(parts[i] is Lit),
    ensures
        literal_of(parts) is None,
    decreases parts.len(),
{
    if i < parts.len() - 1 {
        assert(parts.drop_last()[i] == parts[i]);
        lemma_literal_none_extends(parts.drop_last(), i);
    }
}

pub fn simple_key_exec(path: &Vec<KeyPart>) -> (r: Option<Vec<char>>)
    ensures
        r matches Some(t) ==> simple_key(path@) == Some(t@),
        r is None ==> simple_key(path@) is None,
{
    if path.len() != 1 {
        return None;
    }
    match &path[0] {
        KeyPart::Ident(n) => Some(n.clone()),
        KeyPart::Str(parts) => literal_exec(parts),
        KeyPart::Dynamic => None,
    }
}

/// Does the path consist of the single key `name`?
pub fn key_is(path: &Vec<KeyPart>, name: &[char]) -> (r: bool)
    ensures
        r == (simple_key(path@) == Some(name@)),
{
    match simple_key_exec(path) {
        Some(k) => eq_chars(k.as_slice(), name),
        None => false,
    }
}

} // verus!
