//! The data-aggregation core of a raid-encounter viewer: a build-time
//! encounter catalog selected by (region, difficulty tier), a binary-table
//! router that classifies dynamic buffers by exact byte length, a three-slot
//! override store replaced wholesale by decoded tables, and the selection
//! engine that hands the presentation layer a list sorted by species display
//! name.

mod catalog;
mod encounter;
mod ingest;
mod items;
mod order;
mod sequence;
mod session;
mod sort;
mod store;

pub use catalog::valid_tier;
pub use catalog::Catalog;
pub use catalog::Region;
pub use catalog::REGION_COUNT;
pub use catalog::TABLE_COUNT;
pub use catalog::TIER_MAX;
pub use catalog::TIER_MIN;
pub use encounter::all_species_in;
pub use encounter::Encounter;
pub use ingest::apply;
pub use ingest::apply_model;
pub use ingest::classify;
pub use ingest::kind_of_len;
pub use ingest::lemma_dispatch_by_length;
pub use ingest::DecodeOutcome;
pub use ingest::TableKind;
pub use ingest::ENCOUNTER_TABLE_BYTES;
pub use ingest::FIXED_ITEM_TABLE_BYTES;
pub use ingest::LOTTERY_ITEM_TABLE_BYTES;
pub use items::item_lookup;
pub use items::unique_items;
pub use items::ItemEntry;
pub use items::ItemTable;
pub use order::lemma_lex_le_total;
pub use order::lemma_lex_le_trans;
pub use order::lex_le;
pub use order::lex_le_bytes;
pub use order::lex_lt;
pub use sequence::apply_sequenced;
pub use sequence::lemma_newest_wins;
pub use sequence::sequenced_done;
pub use sequence::sequenced_store;
pub use sequence::SlotSequencer;
pub use session::clamp_tier;
pub use session::Session;
pub use sort::has_key;
pub use sort::key_of;
pub use sort::lemma_sort_by_name_correct;
pub use sort::lemma_sort_by_name_stable;
pub use sort::name_table;
pub use sort::sort_by_name;
pub use sort::sort_encounters;
pub use sort::sorted_by_name;
pub use store::lemma_replace_wins;
pub use store::lemma_replace_wins_items;
pub use store::lemma_slot_independence;
pub use store::OverrideStore;
pub use store::StoreModel;
