use crate::encounter::Encounter;
use crate::items::ItemEntry;
use crate::items::ItemTable;
use vstd::prelude::*;

verus! {

/// The abstract contents of the three override slots.
pub ghost struct StoreModel {
    pub event: Seq<Encounter>,
    pub fixed: Seq<ItemEntry>,
    pub lottery: Seq<ItemEntry>,
}

impl StoreModel {
    /// The model after a wholesale replace of the encounter-override slot.
    pub open spec fn with_event(self, v: Seq<Encounter>) -> StoreModel {
        StoreModel { event: v, ..self }
    }

    /// The model after a wholesale replace of the fixed-reward slot.
    pub open spec fn with_fixed(self, v: Seq<ItemEntry>) -> StoreModel {
        StoreModel { fixed: v, ..self }
    }

    /// The model after a wholesale replace of the lottery-reward slot.
    pub open spec fn with_lottery(self, v: Seq<ItemEntry>) -> StoreModel {
        StoreModel { lottery: v, ..self }
    }
}

/// The shared override store: three independent slots holding the most
/// recently decoded dynamic tables. Every write replaces one slot wholesale —
/// there is no merging — and leaves the other two untouched. Writes to one
/// slot are serialized by the owner of the store; when writers race, the last
/// write wins.
pub struct OverrideStore {
    event_encounters: Vec<Encounter>,
    fixed_event_items: ItemTable,
    lottery_event_items: ItemTable,
}

impl View for OverrideStore {
    type V = StoreModel;

    closed spec fn view(&self) -> StoreModel {
        StoreModel {
            event: self.event_encounters@,
            fixed: self.fixed_event_items@,
            lottery: self.lottery_event_items@,
        }
    }
}

impl OverrideStore {
    /// The store at process start: every slot empty.
    pub fn new() -> (r: OverrideStore)
        ensures
            r@.event == Seq::<Encounter>::empty(),
            r@.fixed == Seq::<ItemEntry>::empty(),
            r@.lottery == Seq::<ItemEntry>::empty(),
    {
        OverrideStore {
            event_encounters: Vec::new(),
            fixed_event_items: ItemTable::new(),
            lottery_event_items: ItemTable::new(),
        }
    }

    /// Replaces the encounter-override slot wholesale; the reward slots keep
    /// their contents.
    pub fn replace_event_encounters(&mut self, table: Vec<Encounter>)
        ensures
            final(self)@ == old(self)@.with_event(table@),
    {
        self.event_encounters = table;
    }

    /// Replaces the fixed-reward slot wholesale; the other slots keep their
    /// contents.
    pub fn replace_fixed_event_items(&mut self, table: ItemTable)
        ensures
            final(self)@ == old(self)@.with_fixed(table@),
    {
        self.fixed_event_items = table;
    }

    /// Replaces the lottery-reward slot wholesale; the other slots keep their
    /// contents.
    pub fn replace_lottery_event_items(&mut self, table: ItemTable)
        ensures
            final(self)@ == old(self)@.with_lottery(table@),
    {
        self.lottery_event_items = table;
    }

    /// A consistent view of the encounter-override slot.
    pub fn event_encounters(&self) -> (r: &Vec<Encounter>)
        ensures
            r@ == self@.event,
    {
        &self.event_encounters
    }

    /// A consistent view of the fixed-reward slot.
    pub fn fixed_event_items(&self) -> (r: &ItemTable)
        ensures
            r@ == self@.fixed,
    {
        &self.fixed_event_items
    }

    /// A consistent view of the lottery-reward slot.
    pub fn lottery_event_items(&self) -> (r: &ItemTable)
        ensures
            r@ == self@.lottery,
    {
        &self.lottery_event_items
    }
}

/// Replace wins: after two sequential replaces of the same slot, a read
/// returns the second value whole — never a mix of the two.
pub proof fn lemma_replace_wins(m: StoreModel, a: Seq<Encounter>, b: Seq<Encounter>)
    ensures
        m.with_event(a).with_event(b) == m.with_event(b),
        m.with_event(a).with_event(b).event == b,
{
}

/// Replace wins on the reward slots too.
pub proof fn lemma_replace_wins_items(m: StoreModel, a: Seq<ItemEntry>, b: Seq<ItemEntry>)
    ensures
        m.with_fixed(a).with_fixed(b) == m.with_fixed(b),
        m.with_fixed(a).with_fixed(b).fixed == b,
        m.with_lottery(a).with_lottery(b) == m.with_lottery(b),
        m.with_lottery(a).with_lottery(b).lottery == b,
{
}

/// Slot independence: replacing one slot never alters the other two.
pub proof fn lemma_slot_independence(m: StoreModel, v: Seq<Encounter>, w: Seq<ItemEntry>)
    ensures
        m.with_event(v).fixed == m.fixed,
        m.with_event(v).lottery == m.lottery,
        m.with_fixed(w).event == m.event,
        m.with_fixed(w).lottery == m.lottery,
        m.with_lottery(w).event == m.event,
        m.with_lottery(w).fixed == m.fixed,
{
}

} // verus!
