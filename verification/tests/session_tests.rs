use raid_core::lex_le_bytes;
use raid_core::sort_encounters;
use raid_core::Catalog;
use raid_core::Encounter;
use raid_core::Region;
use raid_core::Session;

fn enc(species: u16, tier: u8) -> Encounter {
    Encounter { species, tier, params: 0 }
}

fn names() -> Vec<Vec<u8>> {
    vec![b"Cc".to_vec(), b"Aa".to_vec(), b"Bb".to_vec()]
}

fn tables() -> Vec<Vec<Encounter>> {
    let mut tables = Vec::new();
    for region in 0..3u16 {
        for tier in 1..=6u8 {
            tables.push(vec![enc(0, tier), enc(region % 3, tier), enc(2, tier)]);
        }
    }
    tables
}

fn catalog() -> Catalog {
    Catalog::new(tables(), names()).unwrap()
}

#[test]
fn session_starts_at_paldea_tier_one_sorted() {
    let cat = catalog();
    let s = Session::new(&cat);
    assert_eq!(s.region(), Region::Paldea);
    assert_eq!(s.tier(), 1);
    assert_eq!(s.species_filter().as_str(), "");
    // Paldea tier 1: species [0, 0, 2] -> names [Cc, Cc, Bb] -> sorted Bb, Cc, Cc
    assert_eq!(s.encounters(), &vec![enc(2, 1), enc(0, 1), enc(0, 1)]);
}

#[test]
fn set_region_resorts_for_new_region() {
    let cat = catalog();
    let mut s = Session::new(&cat);
    s.set_region(&cat, Region::Kitakami);
    assert_eq!(s.region(), Region::Kitakami);
    assert_eq!(s.tier(), 1);
    // Kitakami tier 1: species [0, 1, 2] -> names [Cc, Aa, Bb] -> Aa, Bb, Cc
    assert_eq!(s.encounters(), &vec![enc(1, 1), enc(2, 1), enc(0, 1)]);
}

#[test]
fn set_tier_clamps_into_range() {
    let cat = catalog();
    let mut s = Session::new(&cat);
    s.set_tier(&cat, 0);
    assert_eq!(s.tier(), 1);
    s.set_tier(&cat, 9);
    assert_eq!(s.tier(), 6);
    s.set_tier(&cat, 4);
    assert_eq!(s.tier(), 4);
    assert!(!s.encounters().is_empty());
}

#[test]
fn set_filter_keeps_selection_and_list() {
    let cat = catalog();
    let mut s = Session::new(&cat);
    let before = s.encounters().clone();
    s.set_species_filter(String::from("quax"));
    assert_eq!(s.species_filter().as_str(), "quax");
    assert_eq!(s.region(), Region::Paldea);
    assert_eq!(s.tier(), 1);
    assert_eq!(s.encounters(), &before);
}

#[test]
fn byte_order_is_case_sensitive_ordinal() {
    assert!(lex_le_bytes(&b"Aa".to_vec(), &b"Ab".to_vec()));
    assert!(lex_le_bytes(&b"Z".to_vec(), &b"a".to_vec()));
    assert!(!lex_le_bytes(&b"a".to_vec(), &b"Z".to_vec()));
    assert!(lex_le_bytes(&b"Ab".to_vec(), &b"Abc".to_vec()));
    assert!(!lex_le_bytes(&b"Abc".to_vec(), &b"Ab".to_vec()));
    assert!(lex_le_bytes(&b"".to_vec(), &b"A".to_vec()));
    assert!(lex_le_bytes(&b"".to_vec(), &b"".to_vec()));
}

#[test]
fn sort_keeps_input_order_of_equal_names() {
    let names = vec![b"Bb".to_vec(), b"Aa".to_vec()];
    let first = Encounter { species: 0, tier: 1, params: 1 };
    let second = Encounter { species: 0, tier: 1, params: 2 };
    let small = Encounter { species: 1, tier: 1, params: 3 };
    let sorted = sort_encounters(&names, vec![first, second, small]);
    assert_eq!(sorted, vec![small, first, second]);
    let sorted = sort_encounters(&names, vec![second, first, small]);
    assert_eq!(sorted, vec![small, second, first]);
}
