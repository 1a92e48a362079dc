//! The flag record as the remote service and the local overrides describe it.
use vstd::prelude::*;

verus! {

/// Name and identifier of a flag.
#[derive(Clone, Debug)]
pub struct Details {
    pub name: String,
    pub id: String,
}

/// One named boolean toggle with an opaque identifier.
#[derive(Clone, Debug)]
pub struct FeatureFlag {
    pub enabled: bool,
    pub details: Details,
}

/// The mathematical value of a [`FeatureFlag`].
pub struct FlagView {
    pub name: Seq<char>,
    pub id: Seq<char>,
    pub enabled: bool,
}

impl View for FeatureFlag {
    type V = FlagView;

    open spec fn view(&self) -> FlagView {
        FlagView { name: self.details.name@, id: self.details.id@, enabled: self.enabled }
    }
}

/// The views of a sequence of records, in order.
pub open spec fn views_of(s: Seq<FeatureFlag>) -> Seq<FlagView> {
    s.map_values(|f: FeatureFlag| f@)
}

impl FeatureFlag {
    /// A record with the given name, identifier and state.
    pub fn new(name: String, id: String, enabled: bool) -> (r: FeatureFlag)
        ensures
            r@ == (FlagView { name: name@, id: id@, enabled }),
    {
        FeatureFlag { enabled, details: Details { name, id } }
    }

    /// A copy of this record.
    pub fn duplicate(&self) -> (r: FeatureFlag)
        ensures
            r@ == self@,
    {
        FeatureFlag {
            enabled: self.enabled,
            details: Details { name: self.details.name.clone(), id: self.details.id.clone() },
        }
    }
}

} // verus!
