use crate::catalog::valid_tier;
use crate::catalog::Catalog;
use crate::catalog::Region;
use crate::catalog::TIER_MAX;
use crate::catalog::TIER_MIN;
use crate::encounter::Encounter;
use crate::sort::sort_by_name;
use vstd::prelude::*;

verus! {

/// `tier` forced into the supported difficulty range.
pub open spec fn clamp_tier(tier: u8) -> u8 {
    if tier < TIER_MIN {
        TIER_MIN
    } else if tier > TIER_MAX {
        TIER_MAX
    } else {
        tier
    }
}

/// The user's current selection and the encounter list it displays: the
/// chosen (region, tier) table, freshly sorted by species display name on
/// every change of region or tier. The free-text species filter is held here
/// and applied by the presentation layer against the sorted list.
pub struct Session {
    region: Region,
    tier: u8,
    species_filter: String,
    encounters: Vec<Encounter>,
}

impl Session {
    /// The selected region.
    pub closed spec fn region_spec(self) -> Region {
        self.region
    }

    /// The selected difficulty tier.
    pub closed spec fn tier_spec(self) -> u8 {
        self.tier
    }

    /// The free-text species filter.
    pub closed spec fn filter_spec(self) -> Seq<char> {
        self.species_filter@
    }

    /// The displayed encounter list.
    pub closed spec fn encounters_spec(self) -> Seq<Encounter> {
        self.encounters@
    }

    /// The session agrees with the catalog: the tier is in range and the
    /// displayed list is exactly the selected table, sorted by species name.
    pub open spec fn consistent_with(self, cat: Catalog) -> bool {
        &&& valid_tier(self.tier_spec())
        &&& self.encounters_spec() == sort_by_name(
            cat.names_view(),
            cat.table_at(self.region_spec(), self.tier_spec()),
        )
    }

    /// The session at start: the base region at the lowest tier, an empty
    /// filter, and that table already sorted for display.
    pub fn new(cat: &Catalog) -> (r: Session)
        requires
            cat.wf(),
        ensures
            r.region_spec() == Region::Paldea,
            r.tier_spec() == TIER_MIN,
            r.filter_spec() == Seq::<char>::empty(),
            r.consistent_with(*cat),
            r.encounters_spec().len() > 0,
    {
        let encounters = cat.lookup(Region::Paldea, TIER_MIN);
        Session { region: Region::Paldea, tier: TIER_MIN, species_filter: String::new(), encounters }
    }

    /// Selects a region: the displayed list becomes that region's table at
    /// the current tier, sorted anew; tier and filter stay.
    pub fn set_region(&mut self, cat: &Catalog, region: Region)
        requires
            cat.wf(),
            valid_tier(old(self).tier_spec()),
        ensures
            final(self).region_spec() == region,
            final(self).tier_spec() == old(self).tier_spec(),
            final(self).filter_spec() == old(self).filter_spec(),
            final(self).consistent_with(*cat),
            final(self).encounters_spec().len() > 0,
    {
        self.region = region;
        self.encounters = cat.lookup(self.region, self.tier);
    }

    /// Selects a difficulty tier, clamped to the supported range: the
    /// displayed list becomes the current region's table at that tier, sorted
    /// anew; region and filter stay.
    pub fn set_tier(&mut self, cat: &Catalog, tier: u8)
        requires
            cat.wf(),
        ensures
            final(self).tier_spec() == clamp_tier(tier),
            final(self).region_spec() == old(self).region_spec(),
            final(self).filter_spec() == old(self).filter_spec(),
            final(self).consistent_with(*cat),
            final(self).encounters_spec().len() > 0,
    {
        let clamped = if tier < TIER_MIN {
            TIER_MIN
        } else if tier > TIER_MAX {
            TIER_MAX
        } else {
            tier
        };
        self.tier = clamped;
        self.encounters = cat.lookup(self.region, self.tier);
    }

    /// Replaces the free-text species filter; the selection and the displayed
    /// list stay.
    pub fn set_species_filter(&mut self, filter: String)
        ensures
            final(self).filter_spec() == filter@,
            final(self).region_spec() == old(self).region_spec(),
            final(self).tier_spec() == old(self).tier_spec(),
            final(self).encounters_spec() == old(self).encounters_spec(),
    {
        self.species_filter = filter;
    }

    /// The displayed encounter list, for the presentation layer to filter.
    pub fn encounters(&self) -> (r: &Vec<Encounter>)
        ensures
            r@ == self.encounters_spec(),
    {
        &self.encounters
    }

    /// The selected region.
    pub fn region(&self) -> (r: Region)
        ensures
            r == self.region_spec(),
    {
        self.region
    }

    /// The selected difficulty tier.
    pub fn tier(&self) -> (r: u8)
        ensures
            r == self.tier_spec(),
    {
        self.tier
    }

    /// The free-text species filter.
    pub fn species_filter(&self) -> (r: &String)
        ensures
            r@ == self.filter_spec(),
    {
        &self.species_filter
    }
}

} // verus!
