//! Reading a pin list: a set of `name = "version";` entries naming the
//! versions a pinned package file should hold.

use vstd::prelude::*;
use crate::entry::CoreError;
use crate::syntax::{Binding, KeyPart, Shape, literal_of, literal_exec};
use crate::nix_read::{nix_bindings, nix_parses, read_bindings};
use crate::text::string_of;

verus! {

/// The pin a binding states: a one-name path bound to a string without
/// interpolation.
pub open spec fn pin_of(b: Binding) -> Option<(Seq<char>, Seq<char>)> {
    if b.path@.len() == 1 {
        match (b.path@[0], b.value) {
            (KeyPart::Ident(n), Some(Shape::Str(parts))) => match literal_of(parts@) {
                Some(v) => Some((n@, v)),
                None => None,
            },
            _ => None,
        }
    } else {
        None
    }
}

/// The pins among the first `n` bindings, in document order.
pub open spec fn pins_upto(bs: Seq<Binding>, n: int) -> Seq<(Seq<char>, Seq<char>)>
    decreases n,
{
    if n <= 0 || n > bs.len() {
        Seq::empty()
    } else {
        match pin_of(bs[n - 1]) {
            Some(p) => pins_upto(bs, n - 1).push(p),
            None => pins_upto(bs, n - 1),
        }
    }
}

pub open spec fn strings_view(r: Seq<(String, String)>) -> Seq<(Seq<char>, Seq<char>)> {
    r.map_values(|p: (String, String)| (p.0@, p.1@))
}

/// The pins of a parsed pin list.
pub fn pins_from_bindings(bs: &Vec<Binding>) -> (r: Vec<(String, String)>)
    ensures
        strings_view(r@) == pins_upto(bs@, bs@.len() as int),
{
    let mut r: Vec<(String, String)> = Vec::new();
    let mut i: usize = 0;
    while i < bs.len()
        invariant
            i <= bs@.len(),
            strings_view(r@) == pins_upto(bs@, i as int),
        decreases bs@.len() - i,
    {
        let b = &bs[i];
        let ghost before = r@;
        if b.path.len() == 1 {
            match (&b.path[0], &b.value) {
                (KeyPart::Ident(n), Some(Shape::Str(parts))) => {
                    match literal_exec(parts) {
                        Some(v) => {
                            r.push((string_of(n.as_slice()), string_of(v.as_slice())));
                            assert(strings_view(r@) =~= strings_view(before).push((n@, v@)));
                        },
                        None => {},
                    }
                },
                _ => {},
            }
        }
        i = i + 1;
    }
    r
}

/// The `(name, version)` pins of a pin-list file; an error naming the file
/// when it does not parse.
pub fn parse_packages_spec(path: &str, content: &str) -> (r: Result<Vec<(String, String)>, CoreError>)
    ensures
        r is Err <==> !nix_parses(content@),
        r matches Ok(pins) ==> strings_view(pins@)
            == pins_upto(nix_bindings(content@), nix_bindings(content@).len() as int),
{
    match read_bindings(content) {
        Some(bs) => Ok(pins_from_bindings(&bs)),
        None => {
            let mut msg = String::from_str("Nix parse error in ");
            msg.append(path);
            Err(CoreError::InvalidEntry(msg))
        },
    }
}

} // verus!
