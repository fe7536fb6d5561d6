use raid_core::Catalog;
use raid_core::Encounter;
use raid_core::Region;

fn enc(species: u16, tier: u8) -> Encounter {
    Encounter { species, tier, params: 0 }
}

fn names() -> Vec<Vec<u8>> {
    // species 0..=4, deliberately not in alphabetical order of their names
    vec![
        b"Sprigatito".to_vec(),
        b"Fuecoco".to_vec(),
        b"Quaxly".to_vec(),
        b"Pawmi".to_vec(),
        b"Lechonk".to_vec(),
    ]
}

fn tables() -> Vec<Vec<Encounter>> {
    let mut tables = Vec::new();
    for region in 0..3u16 {
        for tier in 1..=6u8 {
            let mut t = Vec::new();
            // species ids chosen so the supplied order is not name-sorted
            t.push(enc(2, tier));
            t.push(enc((region + 1) % 5, tier));
            t.push(enc(4, tier));
            tables.push(t);
        }
    }
    tables
}

#[test]
fn catalog_accepts_complete_data() {
    assert!(Catalog::new(tables(), names()).is_some());
}

#[test]
fn catalog_rejects_missing_table() {
    let mut t = tables();
    t.pop();
    assert!(Catalog::new(t, names()).is_none());
}

#[test]
fn catalog_rejects_empty_table() {
    let mut t = tables();
    t[7] = Vec::new();
    assert!(Catalog::new(t, names()).is_none());
}

#[test]
fn catalog_rejects_unknown_species() {
    let mut t = tables();
    t[3][1] = enc(5, 4);
    assert!(Catalog::new(t, names()).is_none());
}

fn name_of(names: &[Vec<u8>], e: &Encounter) -> Vec<u8> {
    names[e.species as usize].clone()
}

#[test]
fn lookup_is_sorted_and_nonempty_for_all_pairs() {
    let cat = Catalog::new(tables(), names()).unwrap();
    let ns = names();
    for region in [Region::Paldea, Region::Kitakami, Region::Blueberry] {
        for tier in 1..=6u8 {
            let r = cat.lookup(region, tier);
            assert!(!r.is_empty());
            for w in r.windows(2) {
                assert!(name_of(&ns, &w[0]) <= name_of(&ns, &w[1]));
            }
        }
    }
}

#[test]
fn lookup_is_stable_under_repeated_calls() {
    let cat = Catalog::new(tables(), names()).unwrap();
    let a = cat.lookup(Region::Paldea, 2);
    let b = cat.lookup(Region::Paldea, 2);
    assert_eq!(a, b);
}

#[test]
fn kitakami_tier_three_matches_static_table_sorted() {
    let cat = Catalog::new(tables(), names()).unwrap();
    let r = cat.lookup(Region::Kitakami, 3);
    // the Kitakami tier-3 table is [Quaxly(2), Quaxly-region species(2), Lechonk(4)]:
    // species 2, 2, 4 for region index 1 -> (1 + 1) % 5 == 2
    // sorted by name: Lechonk(4) < Quaxly(2) == Quaxly(2)
    let expected = vec![enc(4, 3), enc(2, 3), enc(2, 3)];
    assert_eq!(r, expected);
}

#[test]
fn species_name_lookup() {
    let cat = Catalog::new(tables(), names()).unwrap();
    assert_eq!(cat.species_name(1).unwrap(), &b"Fuecoco".to_vec());
    assert!(cat.species_name(5).is_none());
}
