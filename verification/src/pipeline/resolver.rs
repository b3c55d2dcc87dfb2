//! Module resolution: maps a (referrer, specifier) pair to a resolved file
//! identifier. Failure to resolve is an absent result, never an error. The
//! placeholder rule joins the referrer and the specifier with a slash.

use vstd::prelude::*;

verus! {

/// The identifier the placeholder rule resolves to: the referrer, a slash,
/// then the specifier.
pub open spec fn resolved_of(specifier: Seq<char>, referrer: Seq<char>) -> Seq<char> {
    referrer + seq!['/'] + specifier
}

pub struct Resolver;

impl Resolver {
    pub fn new() -> Resolver {
        Resolver
    }

    /// Resolves `specifier` as imported from `referrer`. Total: the
    /// placeholder rule always resolves.
    pub fn resolve(&self, specifier: &str, referrer: &str) -> (r: Option<String>)
        ensures
            r matches Some(s) && s@ == resolved_of(specifier@, referrer@),
    {
        let joined = String::from_str(referrer).concat("/").concat(specifier);
        proof {
            reveal_strlit("/");
            assert(joined@ =~= resolved_of(specifier@, referrer@));
        }
        Some(joined)
    }
}

} // verus!
