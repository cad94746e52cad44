//! Resolution of named data references: the decision between an external
//! provider's layer and a catalog dataset.  The lookups themselves — parsing
//! a provider id, asking the catalog — happen outside this library; the
//! decision is pure.

use vstd::prelude::*;

verus! {

/// A data reference by name, optionally scoped to an external provider.
#[derive(Debug)]
pub struct NamedData {
    pub provider: Option<String>,
    pub name: String,
}

/// Where a named reference resolves: an external provider's layer, named by
/// provider and layer, or a catalog dataset to look up by name.
#[derive(Debug)]
pub enum NamedDataResolution {
    External { provider: String, layer: String },
    Dataset { name: String },
}

/// Decides a named reference: with a provider it is that provider's layer,
/// without one it is a catalog dataset.
pub fn resolve_named_data(data: NamedData) -> (r: NamedDataResolution)
    ensures
        data.provider matches Some(p) ==> (r matches NamedDataResolution::External {
            provider,
            layer,
        } && provider@ == p@ && layer@ == data.name@),
        data.provider is None ==> (r matches NamedDataResolution::Dataset { name } && name@
            == data.name@),
{
    match data.provider {
        Some(provider) => NamedDataResolution::External { provider, layer: data.name },
        None => NamedDataResolution::Dataset { name: data.name },
    }
}

} // verus!
