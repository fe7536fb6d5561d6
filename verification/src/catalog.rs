use crate::encounter::all_species_in;
use crate::encounter::Encounter;
use crate::sort::name_table;
use crate::sort::sort_by_name;
use crate::sort::sort_encounters;
use crate::sort::sorted_by_name;
use vstd::prelude::*;

verus! {

/// The game-world areas whose encounter catalogs differ: the base region and
/// the two downloadable-content regions.
#[derive(Clone, Copy, Debug, PartialEq, Eq, Structural)]
pub enum Region {
    Paldea,
    Kitakami,
    Blueberry,
}

/// How many regions the catalog covers.
pub const REGION_COUNT: usize = 3;

/// The lowest difficulty tier.
pub const TIER_MIN: u8 = 1;

/// The highest difficulty tier.
pub const TIER_MAX: u8 = 6;

/// One table per (region, tier) pair.
pub const TABLE_COUNT: usize = 18;

impl Region {
    /// The region's position on the catalog's region axis.
    pub open spec fn index_spec(self) -> int {
        match self {
            Region::Paldea => 0,
            Region::Kitakami => 1,
            Region::Blueberry => 2,
        }
    }

    /// Returns the region's position on the catalog's region axis.
    pub fn index(self) -> (r: usize)
        ensures
            r == self.index_spec(),
    {
        match self {
            Region::Paldea => 0,
            Region::Kitakami => 1,
            Region::Blueberry => 2,
        }
    }
}

/// `tier` lies in the supported difficulty range.
pub open spec fn valid_tier(tier: u8) -> bool {
    TIER_MIN <= tier <= TIER_MAX
}

/// The position of the (region, tier) table among the catalog's tables.
pub open spec fn slot_index(region: Region, tier: u8) -> int {
    region.index_spec() * 6 + tier - 1
}

/// The immutable, build-time encounter catalog: one non-empty table per
/// (region, tier) pair, plus the species-name lookup used for display order.
///
/// The tables' content is supplied pre-validated at construction and is never
/// mutated afterwards.
pub struct Catalog {
    tables: Vec<Vec<Encounter>>,
    names: Vec<Vec<u8>>,
}

impl Catalog {
    /// The species-name lookup: one display name per species.
    pub closed spec fn names_view(self) -> Seq<Seq<u8>> {
        name_table(self.names@)
    }

    /// How many species the name lookup covers.
    pub closed spec fn species_count(self) -> nat {
        self.names@.len()
    }

    /// The stored table for a (region, tier) pair, in its supplied order.
    pub closed spec fn table_at(self, region: Region, tier: u8) -> Seq<Encounter> {
        self.tables@[slot_index(region, tier)]@
    }

    /// The catalog is complete: a non-empty table for every (region, tier)
    /// pair, and every row's species has a display name.
    pub closed spec fn wf(self) -> bool {
        &&& self.tables@.len() == TABLE_COUNT
        &&& forall|t: int|
            0 <= t < TABLE_COUNT ==> (#[trigger] self.tables@[t])@.len() > 0
        &&& forall|t: int|
            0 <= t < TABLE_COUNT ==> all_species_in((#[trigger] self.tables@[t])@, self.names@.len())
    }

    /// Builds the catalog from the supplied build-time data: the 18 tables in
    /// region-major, tier-minor order, and the species-name lookup. Returns
    /// the catalog exactly when every table is present and non-empty and every
    /// row names a known species.
    pub fn new(tables: Vec<Vec<Encounter>>, names: Vec<Vec<u8>>) -> (r: Option<Catalog>)
        ensures
            r.is_some() <==> (tables@.len() == TABLE_COUNT && (forall|t: int|
                0 <= t < TABLE_COUNT ==> (#[trigger] tables@[t])@.len() > 0) && (forall|t: int|
                0 <= t < TABLE_COUNT ==> all_species_in((#[trigger] tables@[t])@, names@.len()))),
            r.is_some() ==> {
                &&& r.unwrap().wf()
                &&& r.unwrap().names_view() == name_table(names@)
                &&& r.unwrap().species_count() == names@.len()
                &&& forall|g: Region, t: u8|
                    valid_tier(t) ==> #[trigger] r.unwrap().table_at(g, t) == tables@[slot_index(
                        g,
                        t,
                    )]@
            },
    {
        if tables.len() != TABLE_COUNT {
            return None;
        }
        let mut t: usize = 0;
        while t < TABLE_COUNT
            invariant
                0 <= t <= TABLE_COUNT,
                tables@.len() == TABLE_COUNT,
                forall|k: int| 0 <= k < t ==> (#[trigger] tables@[k])@.len() > 0,
                forall|k: int|
                    0 <= k < t ==> all_species_in((#[trigger] tables@[k])@, names@.len()),
            decreases TABLE_COUNT - t,
        {
            if tables[t].len() == 0 {
                return None;
            }
            let table = &tables[t];
            let mut i: usize = 0;
            while i < table.len()
                invariant
                    0 <= i <= table@.len(),
                    0 <= t < TABLE_COUNT,
                    tables@.len() == TABLE_COUNT,
                    table@ == tables@[t as int]@,
                    forall|k: int| 0 <= k < i ==> (#[trigger] table@[k]).species < names@.len(),
                decreases table@.len() - i,
            {
                if table[i].species as usize >= names.len() {
                    proof {
                        assert(tables@[t as int]@[i as int].species >= names@.len());
                        assert(!all_species_in(tables@[t as int]@, names@.len()));
                    }
                    return None;
                }
                i = i + 1;
            }
            t = t + 1;
        }
        Some(Catalog { tables, names })
    }

    /// Returns the (region, tier) table sorted by species display name: the
    /// insertion sort of the stored table under the byte-wise name order. The
    /// result is never empty and holds exactly the stored rows.
    pub fn lookup(&self, region: Region, tier: u8) -> (r: Vec<Encounter>)
        requires
            self.wf(),
            valid_tier(tier),
        ensures
            r@ == sort_by_name(self.names_view(), self.table_at(region, tier)),
            sorted_by_name(self.names_view(), r@),
            r@.to_multiset() == self.table_at(region, tier).to_multiset(),
            r@.len() == self.table_at(region, tier).len(),
            r@.len() > 0,
    {
        let idx = region.index() * 6 + (tier as usize) - 1;
        let stored = &self.tables[idx];
        let mut copy: Vec<Encounter> = Vec::new();
        let mut i: usize = 0;
        while i < stored.len()
            invariant
                0 <= i <= stored@.len(),
                stored@ == self.tables@[idx as int]@,
                copy@ == stored@.take(i as int),
            decreases stored@.len() - i,
        {
            let row = stored[i];
            copy.push(row);
            proof {
                assert(stored@.take(i + 1) =~= stored@.take(i as int).push(stored@[i as int]));
            }
            i = i + 1;
        }
        proof {
            assert(copy@ =~= self.table_at(region, tier));
        }
        sort_encounters(&self.names, copy)
    }

    /// Returns the display name of a species, or nothing when the identifier
    /// is outside the lookup.
    pub fn species_name(&self, species: u16) -> (r: Option<&Vec<u8>>)
        ensures
            r.is_some() <==> species < self.species_count(),
            r.is_some() ==> r.unwrap()@ == self.names_view()[species as int],
    {
        if (species as usize) < self.names.len() {
            Some(&self.names[species as usize])
        } else {
            None
        }
    }
}

} // verus!
