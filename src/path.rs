use vstd::prelude::*;
use vstd::string::StrSliceExecFns;
use vstd::string::StringExecFns;
use crate::text::{ends_with_char, starts_with_char};

verus! {

/// Whether a path starts at the root.
pub open spec fn is_rooted(p: Seq<char>) -> bool {
    p.len() > 0 && p[0] == '/'
}

/// `p` appended to the directory `base`, with one separator between them.
pub open spec fn joined(base: Seq<char>, p: Seq<char>) -> Seq<char> {
    if base.len() == 0 {
        p
    } else if base.last() == '/' {
        base + p
    } else {
        base + seq!['/'] + p
    }
}

/// Where `p` points when read from the directory `base`: a rooted path as it
/// is, any other below `base`.
pub open spec fn resolved(base: Seq<char>, p: Seq<char>) -> Seq<char> {
    if is_rooted(p) {
        p
    } else {
        joined(base, p)
    }
}

/// Resolves `p` against the directory `base`.
pub fn resolve_path(base: &str, p: &str) -> (r: String)
    ensures
        r@ == resolved(base@, p@),
{
    if starts_with_char(p, '/') {
        String::from_str(p)
    } else if base.unicode_len() == 0 {
        String::from_str(p)
    } else if ends_with_char(base, '/') {
        String::from_str(base).concat(p)
    } else {
        proof {
            reveal_strlit("/");
            assert("/"@ =~= seq!['/']);
        }
        let r = String::from_str(base).concat("/").concat(p);
        r
    }
}

} // verus!
