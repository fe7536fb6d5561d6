use vstd::prelude::*;

verus! {

/// One reward entry: the item identifier and its reward metadata, which this
/// core treats as an opaque payload.
#[derive(Clone, Debug, PartialEq, Eq)]
pub struct ItemEntry {
    pub item: u64,
    pub meta: Vec<u8>,
}

/// No two entries of `s` share an item identifier.
pub open spec fn unique_items(s: Seq<ItemEntry>) -> bool {
    forall|i: int, j: int|
        0 <= i < j < s.len() ==> (#[trigger] s[i]).item != (#[trigger] s[j]).item
}

/// The metadata mapped to `id`: that of the entry carrying `id`, or nothing.
pub open spec fn item_lookup(s: Seq<ItemEntry>, id: u64) -> Option<Vec<u8>>
    decreases s.len(),
{
    if s.len() == 0 {
        None
    } else if s[0].item == id {
        Some(s[0].meta)
    } else {
        item_lookup(s.skip(1), id)
    }
}

/// A reward table: a mapping from item identifier to reward metadata. Keys
/// are unique; the entries keep their decode order, which is the display
/// order. Fixed-reward and lottery-reward tables share this shape.
#[derive(Clone, Debug, PartialEq, Eq)]
pub struct ItemTable {
    entries: Vec<ItemEntry>,
}

impl View for ItemTable {
    type V = Seq<ItemEntry>;

    closed spec fn view(&self) -> Seq<ItemEntry> {
        self.entries@
    }
}

impl ItemTable {
    /// Keys are unique: the table's invariant.
    pub open spec fn wf(self) -> bool {
        unique_items(self@)
    }

    /// The empty table.
    pub fn new() -> (r: ItemTable)
        ensures
            r@ == Seq::<ItemEntry>::empty(),
            r.wf(),
    {
        ItemTable { entries: Vec::new() }
    }

    /// Builds a table from decoded entries, keeping their order. Returns the
    /// table exactly when no item identifier repeats; a duplicate is a
    /// structural fault of the decoded data and yields nothing.
    pub fn from_entries(entries: Vec<ItemEntry>) -> (r: Option<ItemTable>)
        ensures
            r.is_some() <==> unique_items(entries@),
            r.is_some() ==> r.unwrap()@ == entries@ && r.unwrap().wf(),
    {
        let mut i: usize = 0;
        while i < entries.len()
            invariant
                0 <= i <= entries@.len(),
                forall|p: int, q: int|
                    0 <= p < q < entries@.len() && q < i ==> (#[trigger] entries@[p]).item != (
                    #[trigger] entries@[q]).item,
            decreases entries@.len() - i,
        {
            let mut j: usize = 0;
            while j < i
                invariant
                    0 <= j <= i < entries@.len(),
                    forall|p: int| 0 <= p < j ==> (#[trigger] entries@[p]).item != entries@[i as int].item,
                decreases i - j,
            {
                if entries[j].item == entries[i].item {
                    return None;
                }
                j = j + 1;
            }
            i = i + 1;
        }
        Some(ItemTable { entries })
    }

    /// How many entries the table holds.
    pub fn len(&self) -> (r: usize)
        ensures
            r == self@.len(),
    {
        self.entries.len()
    }

    /// The entries in display (decode) order.
    pub fn entries(&self) -> (r: &Vec<ItemEntry>)
        ensures
            r@ == self@,
    {
        &self.entries
    }

    /// Looks an item identifier up, returning its reward metadata exactly
    /// when the table maps the identifier.
    pub fn get(&self, id: u64) -> (r: Option<&Vec<u8>>)
        ensures
            match r {
                Some(m) => item_lookup(self@, id) == Some(*m),
                None => item_lookup(self@, id) is None,
            },
            r.is_some() <==> exists|i: int| 0 <= i < self@.len() && (#[trigger] self@[i]).item == id,
    {
        let ghost s = self.entries@;
        proof {
            assert(s.skip(0) =~= s);
        }
        let mut i: usize = 0;
        while i < self.entries.len()
            invariant
                0 <= i <= s.len(),
                s == self.entries@,
                item_lookup(s, id) == item_lookup(s.skip(i as int), id),
                forall|k: int| 0 <= k < i ==> (#[trigger] s[k]).item != id,
            decreases s.len() - i,
        {
            if self.entries[i].item == id {
                proof {
                    assert(s.skip(i as int)[0] == s[i as int]);
                }
                return Some(&self.entries[i].meta);
            }
            proof {
                assert(s.skip(i as int)[0] == s[i as int]);
                assert(s.skip(i as int).skip(1) =~= s.skip(i + 1));
            }
            i = i + 1;
        }
        proof {
            assert(s.skip(i as int).len() == 0);
        }
        None
    }
}

} // verus!
