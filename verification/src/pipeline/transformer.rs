//! Source transformation: maps (source text, file identifier) to the
//! transformed text. Deterministic given identical inputs — the cache's
//! correctness depends on this. The placeholder rule prefixes the source
//! with a comment naming the file.

use vstd::prelude::*;

verus! {

/// The transformed text: a comment holding the identifier, then the source.
pub open spec fn transformed_of(source: Seq<char>, id: Seq<char>) -> Seq<char> {
    seq!['/', '*', ' '] + id + seq![' ', '*', '/', ' '] + source
}

pub struct Transformer;

impl Transformer {
    pub fn new() -> Transformer {
        Transformer
    }

    /// Transforms `source` as the contents of the file `id`; a pure
    /// function of its two arguments.
    pub fn transform(&self, source: &str, id: &str) -> (r: String)
        ensures
            r@ == transformed_of(source@, id@),
    {
        let banner = String::from_str("/* ").concat(id).concat(" */ ").concat(source);
        proof {
            reveal_strlit("/* ");
            reveal_strlit(" */ ");
            assert(banner@ =~= transformed_of(source@, id@));
        }
        banner
    }
}

} // verus!
