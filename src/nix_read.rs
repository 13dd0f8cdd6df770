//! Reading a declaration file with the `rnix` parser into the bindings
//! that extraction works on.

use vstd::prelude::*;
use rnix::ast::{AstToken, HasEntry};
use rowan::ast::AstNode;
use crate::syntax::{Binding, Entry, KeyPart, Shape, StrPart};
use crate::text::chars_of;

verus! {

#[verifier::external_type_specification]
#[verifier::external_body]
pub struct ExRoot(rnix::ast::Root);

#[verifier::external_type_specification]
#[verifier::external_body]
pub struct ExAttrpathValue(rnix::ast::AttrpathValue);

#[verifier::external_type_specification]
#[verifier::external_body]
pub struct ExExpr(rnix::ast::Expr);

#[verifier::external_type_specification]
#[verifier::external_body]
pub struct ExAttr(rnix::ast::Attr);

#[verifier::external_type_specification]
#[verifier::external_body]
pub struct ExStr(rnix::ast::Str);

#[verifier::external_type_specification]
#[verifier::external_body]
pub struct ExAttrSet(rnix::ast::AttrSet);

/// An expression, told apart by its kind, with the parts extraction reads.
pub enum ExprForm {
    Str(rnix::ast::Str),
    AttrSet(rnix::ast::AttrSet),
    LetIn(Option<rnix::ast::Expr>),
    BinOp(Option<rnix::ast::Expr>),
    With(Option<rnix::ast::Expr>, Option<rnix::ast::Expr>),
    Apply,
    Ident(Option<String>),
    Other,
}

/// One element of an attribute path, told apart by its kind.
pub enum AttrForm {
    Ident(Option<String>),
    Str(rnix::ast::Str),
    Dynamic,
}

/// One piece of a string: literal text, or an interpolated expression.
pub enum RawPiece {
    Lit(String),
    Interp(Option<rnix::ast::Expr>),
}

/// Relies on `rowan::SyntaxNode::descendants`: how many bindings lie in
/// the binding's subtree, itself included.
#[verifier::external_body]
fn subtree_binding_count(kv: &rnix::ast::AttrpathValue) -> (r: usize) {
    kv.syntax().descendants().filter_map(rnix::ast::AttrpathValue::cast).count()
}

/// Relies on `rnix::ast::Attrpath::attrs`: the elements of the binding's path.
#[verifier::external_body]
fn binding_attrs(kv: &rnix::ast::AttrpathValue) -> (r: Vec<rnix::ast::Attr>) {
    match kv.attrpath() {
        Some(p) => p.attrs().collect(),
        None => Vec::new(),
    }
}

/// Relies on `rnix::ast::AttrpathValue::value`: the bound expression.
#[verifier::external_body]
fn binding_value(kv: &rnix::ast::AttrpathValue) -> (r: Option<rnix::ast::Expr>) {
    kv.value()
}

/// Relies on `rnix::ast::HasEntry::attrpath_values`: the set's direct bindings.
#[verifier::external_body]
fn set_bindings(set: &rnix::ast::AttrSet) -> (r: Vec<rnix::ast::AttrpathValue>) {
    set.attrpath_values().collect()
}

/// Relies on the variants of `rnix::ast::Attr` and on
/// `rnix::ast::Ident::ident_token` for an identifier's text.
#[verifier::external_body]
fn attr_form(a: &rnix::ast::Attr) -> (r: AttrForm) {
    match a.clone() {
        rnix::ast::Attr::Ident(i) => AttrForm::Ident(i.ident_token().map(|t| t.text().to_string())),
        rnix::ast::Attr::Str(s) => AttrForm::Str(s),
        rnix::ast::Attr::Dynamic(_) => AttrForm::Dynamic,
    }
}

/// Relies on the variants of `rnix::ast::Expr`, on the accessors of `let`,
/// binary-operation and `with` nodes, and on `rnix::ast::Ident::ident_token`.
#[verifier::external_body]
fn expr_form(e: &rnix::ast::Expr) -> (r: ExprForm) {
    match e.clone() {
        rnix::ast::Expr::Str(s) => ExprForm::Str(s),
        rnix::ast::Expr::AttrSet(s) => ExprForm::AttrSet(s),
        rnix::ast::Expr::LetIn(l) => ExprForm::LetIn(l.body()),
        rnix::ast::Expr::BinOp(b) => ExprForm::BinOp(b.lhs()),
        rnix::ast::Expr::With(w) => ExprForm::With(w.namespace(), w.body()),
        rnix::ast::Expr::Apply(_) => ExprForm::Apply,
        rnix::ast::Expr::Ident(i) => ExprForm::Ident(i.ident_token().map(|t| t.text().to_string())),
        _ => ExprForm::Other,
    }
}

/// Relies on `rnix::ast::Str::parts`: the string's pieces, in order.
#[verifier::external_body]
fn str_pieces(s: &rnix::ast::Str) -> (r: Vec<RawPiece>) {
    s.parts().map(|p| match p {
        rnix::ast::InterpolPart::Literal(l) => RawPiece::Lit(l.syntax().text().to_string()),
        rnix::ast::InterpolPart::Interpolation(i) => RawPiece::Interp(i.expr()),
    }).collect()
}

fn read_str(s: &rnix::ast::Str) -> (r: Vec<StrPart>) {
    let pieces = str_pieces(s);
    let mut out: Vec<StrPart> = Vec::new();
    let mut i: usize = 0;
    while i < pieces.len()
        decreases pieces.len() - i,
    {
        let part = match &pieces[i] {
            RawPiece::Lit(t) => StrPart::Lit(chars_of(t.as_str())),
            RawPiece::Interp(Some(e)) => match expr_form(e) {
                ExprForm::Ident(Some(n)) => StrPart::Var(chars_of(n.as_str())),
                _ => StrPart::Complex,
            },
            RawPiece::Interp(None) => StrPart::Complex,
        };
        out.push(part);
        i = i + 1;
    }
    out
}

fn read_path(kv: &rnix::ast::AttrpathValue) -> (r: Vec<KeyPart>) {
    let attrs = binding_attrs(kv);
    let mut out: Vec<KeyPart> = Vec::new();
    let mut i: usize = 0;
    while i < attrs.len()
        decreases attrs.len() - i,
    {
        let part = match attr_form(&attrs[i]) {
            AttrForm::Ident(Some(n)) => KeyPart::Ident(chars_of(n.as_str())),
            AttrForm::Ident(None) => KeyPart::Dynamic,
            AttrForm::Str(s) => KeyPart::Str(read_str(&s)),
            AttrForm::Dynamic => KeyPart::Dynamic,
        };
        out.push(part);
        i = i + 1;
    }
    out
}

fn read_entries(set: &rnix::ast::AttrSet) -> (r: Vec<Entry>) {
    let kvs = set_bindings(set);
    let mut out: Vec<Entry> = Vec::new();
    let mut i: usize = 0;
    while i < kvs.len()
        decreases kvs.len() - i,
    {
        let text = match binding_value(&kvs[i]) {
            Some(v) => match expr_form(&v) {
                ExprForm::Str(s) => Some(read_str(&s)),
                _ => None,
            },
            None => None,
        };
        out.push(Entry { path: read_path(&kvs[i]), text });
        i = i + 1;
    }
    out
}

/// The shape of an expression, looking at most `depth` levels deep.
fn read_shape(e: rnix::ast::Expr, depth: usize) -> (r: Shape)
    decreases depth,
{
    if depth == 0 {
        return Shape::Other;
    }
    match expr_form(&e) {
        ExprForm::Str(s) => Shape::Str(read_str(&s)),
        ExprForm::AttrSet(set) => Shape::AttrSet(read_entries(&set)),
        ExprForm::LetIn(Some(body)) => Shape::LetIn(Box::new(read_shape(body, depth - 1))),
        ExprForm::BinOp(Some(lhs)) => Shape::BinOp(Box::new(read_shape(lhs, depth - 1))),
        ExprForm::With(Some(_), Some(body)) => Shape::With(Box::new(read_shape(body, depth - 1))),
        ExprForm::Apply => Shape::Apply,
        _ => Shape::Other,
    }
}

/// One binding: its path, the shape of its value (looking at most `depth`
/// levels deep) and how many bindings are nested in it.
pub fn read_binding(kv: &rnix::ast::AttrpathValue, depth: usize) -> (r: Binding) {
    let count = subtree_binding_count(kv);
    let inner: usize = if count > 0 { count - 1 } else { 0 };
    let value = match binding_value(kv) {
        Some(v) => Some(read_shape(v, depth)),
        None => None,
    };
    Binding { path: read_path(kv), value, inner }
}

/// Whether the parser accepts `text` without any syntax error.
pub uninterp spec fn nix_parses(text: Seq<char>) -> bool;

/// The bindings of a file the parser accepts, in document order, each as
/// [`read_binding`] reads it.
pub uninterp spec fn nix_bindings(text: Seq<char>) -> Seq<Binding>;

/// Relies on `rnix::Root::parse` and `rowan::SyntaxNode::descendants`: the
/// file's bindings in document order, or nothing when the parser reports any
/// syntax error. The parse depends on the text alone, and each binding is
/// read by the verified [`read_binding`].
#[verifier::external_body]
pub(crate) fn read_bindings(text: &str) -> (r: Option<Vec<Binding>>)
    ensures
        r is Some <==> nix_parses(text@),
        r matches Some(b) ==> b@ == nix_bindings(text@),
{
    let parsed = rnix::Root::parse(text);
    if !parsed.errors().is_empty() {
        return None;
    }
    let depth = text.len();
    Some(parsed.tree().syntax().descendants().filter_map(rnix::ast::AttrpathValue::cast)
        .map(|kv| read_binding(&kv, depth)).collect())
}

} // verus!
