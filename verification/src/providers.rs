//! The closed set of content providers and the errors a fetch can raise.

use vstd::prelude::*;

use crate::random::shuffle;

verus! {

/// The external sources the resolver can draw images from. The set is
/// fixed and small; the fetch itself runs outside the library and hands
/// its outcome back as plain values.
#[derive(Debug, PartialEq, Eq, Clone, Copy, Structural)]
pub enum Providers {
    BuongiornissimoCaffe,
    BuongiornoImmagini,
    Augurando,
    TiCondivido,
}

/// Why one provider yielded no image for one category. `UnsupportedGreeting`
/// is a permanent property of the provider, the other two are transient.
#[derive(Debug, Clone, Copy, PartialEq, Eq, Structural)]
pub enum ScrapeError {
    /// The provider does not offer this greeting category at all.
    UnsupportedGreeting,
    /// Transport failure, malformed page root, or unreachable content
    /// region.
    NetworkError,
    /// The page parsed but held no qualifying image link.
    EmptyResult,
}

impl Providers {
    pub open spec fn all_spec() -> Seq<Providers> {
        seq![
            Providers::BuongiornissimoCaffe,
            Providers::BuongiornoImmagini,
            Providers::Augurando,
            Providers::TiCondivido,
        ]
    }

    /// Get all providers.
    pub fn all() -> (r: Vec<Providers>)
        ensures
            r@ == Providers::all_spec(),
    {
        let mut v: Vec<Providers> = Vec::new();
        v.push(Providers::BuongiornissimoCaffe);
        v.push(Providers::BuongiornoImmagini);
        v.push(Providers::Augurando);
        v.push(Providers::TiCondivido);
        proof {
            assert(v@ =~= Providers::all_spec());
        }
        v
    }

    /// All providers in a fresh random visit order, so that no source is
    /// favoured across calls.
    pub fn shuffled() -> (r: Vec<Providers>)
        ensures
            r@.to_multiset() == Providers::all_spec().to_multiset(),
    {
        let mut v = Providers::all();
        shuffle(&mut v);
        v
    }
}

} // verus!
