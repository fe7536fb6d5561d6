use crate::encounter::Encounter;
use crate::items::ItemTable;
use crate::store::OverrideStore;
use crate::store::StoreModel;
use vstd::prelude::*;

verus! {

/// Exact byte length of an encounter-override table.
pub const ENCOUNTER_TABLE_BYTES: usize = 30000;

/// Exact byte length of a fixed-reward item table.
pub const FIXED_ITEM_TABLE_BYTES: usize = 27456;

/// Exact byte length of a lottery-reward item table.
pub const LOTTERY_ITEM_TABLE_BYTES: usize = 53464;

/// The three dynamic table kinds a buffer can carry. The formats are not
/// self-describing, so the exact byte length is the only discriminator.
#[derive(Clone, Copy, Debug, PartialEq, Eq, Structural)]
pub enum TableKind {
    Encounters,
    FixedItems,
    LotteryItems,
}

/// The central length-to-kind mapping: which codec a buffer of `len` bytes is
/// routed to, or nothing when no kind has that exact length.
pub open spec fn kind_of_len(len: int) -> Option<TableKind> {
    if len == ENCOUNTER_TABLE_BYTES {
        Some(TableKind::Encounters)
    } else if len == FIXED_ITEM_TABLE_BYTES {
        Some(TableKind::FixedItems)
    } else if len == LOTTERY_ITEM_TABLE_BYTES {
        Some(TableKind::LotteryItems)
    } else {
        None
    }
}

/// Routes a buffer by its exact byte length.
pub fn classify(len: usize) -> (r: Option<TableKind>)
    ensures
        r == kind_of_len(len as int),
{
    if len == ENCOUNTER_TABLE_BYTES {
        Some(TableKind::Encounters)
    } else if len == FIXED_ITEM_TABLE_BYTES {
        Some(TableKind::FixedItems)
    } else if len == LOTTERY_ITEM_TABLE_BYTES {
        Some(TableKind::LotteryItems)
    } else {
        None
    }
}

/// Length-discriminated dispatch: each table kind is selected by its exact
/// byte length and by nothing else; every other length matches no kind.
pub proof fn lemma_dispatch_by_length()
    ensures
        kind_of_len(ENCOUNTER_TABLE_BYTES as int) == Some(TableKind::Encounters),
        kind_of_len(FIXED_ITEM_TABLE_BYTES as int) == Some(TableKind::FixedItems),
        kind_of_len(LOTTERY_ITEM_TABLE_BYTES as int) == Some(TableKind::LotteryItems),
        forall|len: int|
            len != ENCOUNTER_TABLE_BYTES && len != FIXED_ITEM_TABLE_BYTES && len
                != LOTTERY_ITEM_TABLE_BYTES ==> kind_of_len(len) is None,
{
}

/// What one ingestion attempt produced: a decoded table of one kind, or
/// nothing — a buffer of unmatched length, a structural decode fault, a
/// failed read or a failed fetch all end here, and the store is left as it
/// was.
pub enum DecodeOutcome {
    EncounterTable(Vec<Encounter>),
    FixedItemTable(ItemTable),
    LotteryItemTable(ItemTable),
    NoMatch,
}

/// The store contents after an ingestion outcome lands: a decoded table
/// replaces its own slot wholesale; anything else leaves every slot as it
/// was.
pub open spec fn apply_model(m: StoreModel, outcome: DecodeOutcome) -> StoreModel {
    match outcome {
        DecodeOutcome::EncounterTable(v) => m.with_event(v@),
        DecodeOutcome::FixedItemTable(t) => m.with_fixed(t@),
        DecodeOutcome::LotteryItemTable(t) => m.with_lottery(t@),
        DecodeOutcome::NoMatch => m,
    }
}

/// Lands one ingestion outcome in the store: a full replace of the matching
/// slot, or no change at all. No outcome ever touches another slot, and a
/// reader never sees a partial table.
pub fn apply(store: &mut OverrideStore, outcome: DecodeOutcome)
    ensures
        final(store)@ == apply_model(old(store)@, outcome),
{
    match outcome {
        DecodeOutcome::EncounterTable(v) => store.replace_event_encounters(v),
        DecodeOutcome::FixedItemTable(t) => store.replace_fixed_event_items(t),
        DecodeOutcome::LotteryItemTable(t) => store.replace_lottery_event_items(t),
        DecodeOutcome::NoMatch => (),
    }
}

} // verus!
