use vstd::prelude::*;

verus! {

/// One row of an encounter table.
///
/// `species` is an index into the species-name lookup of the catalog, `tier`
/// is the difficulty tier the row belongs to, and `params` is a reference to
/// the encounter-specific parameters (stats, ability, move set), which this
/// core treats as an opaque payload.
#[derive(Clone, Copy, Debug, PartialEq, Eq, Structural)]
pub struct Encounter {
    pub species: u16,
    pub tier: u8,
    pub params: u64,
}

/// Every row of `s` names a species below `n`, so each has a display name.
pub open spec fn all_species_in(s: Seq<Encounter>, n: nat) -> bool {
    forall|i: int| 0 <= i < s.len() ==> (#[trigger] s[i]).species < n
}

} // verus!
