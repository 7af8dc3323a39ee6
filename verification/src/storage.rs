//! Account storage: an ordered collection of up to 256 indexed slots,
//! committed to by a single root.
//!
//! A slot holds either an inline value or the root of an externally-held
//! sparse map; the collection commits each slot's word into a fixed-depth
//! tree, so changing any slot's value or index changes the root. Index
//! uniqueness is validated at construction; a map slot's contents are the
//! responsibility of the map's owner and are never verified against the
//! stored root here.

use vstd::prelude::*;

use crate::commit::{entries_map_of, smt_root_of, smt_tree_root, storage_root_of,
    storage_tree_root};
use crate::errors::AccountError;
use crate::word::{Word, FIELD_MODULUS};

verus! {

/// Index reserved by convention for faucet issuance/ownership state.
pub const FAUCET_STORAGE_DATA_SLOT: u8 = 254;

/// The arity/type tag a slot carries, distinguishing inline values from
/// externally-committed maps.
#[derive(Clone, Copy, PartialEq, Eq, Structural, Debug)]
pub enum StorageSlotType {
    /// An inline value; arity 0 denotes a plain 4-element word.
    Value { value_arity: u8 },
    /// The root of an externally-maintained sparse map.
    MapRoot,
}

/// The smallest unit of account state: a type tag plus a committed word.
#[derive(Clone, Copy, PartialEq, Eq, Structural, Debug)]
pub struct StorageSlot {
    pub slot_type: StorageSlotType,
    pub value: Word,
}

impl StorageSlot {
    /// A plain value slot of arity 0.
    pub fn new_value(value: Word) -> (r: StorageSlot)
        ensures
            r == (StorageSlot { slot_type: StorageSlotType::Value { value_arity: 0u8 }, value }),
    {
        StorageSlot { slot_type: StorageSlotType::Value { value_arity: 0 }, value }
    }

    /// A map slot holding the root of an externally-held map.
    pub fn new_map(root: Word) -> (r: StorageSlot)
        ensures
            r == (StorageSlot { slot_type: StorageSlotType::MapRoot, value: root }),
    {
        StorageSlot { slot_type: StorageSlotType::MapRoot, value: root }
    }
}

/// One indexed entry of account storage.
#[derive(Clone, Copy, PartialEq, Eq, Structural, Debug)]
pub struct SlotItem {
    pub index: u8,
    pub slot: StorageSlot,
}

/// No two entries share an index.
pub open spec fn unique_indices(items: Seq<SlotItem>) -> bool {
    forall|i: int, j: int|
        0 <= i < j < items.len() ==> items[i].index != items[j].index
}

/// The index-to-slot relation an entry sequence describes, later entries
/// overriding earlier ones.
pub open spec fn slot_map_of(items: Seq<SlotItem>) -> Map<u8, StorageSlot>
    decreases items.len(),
{
    if items.len() == 0 {
        Map::empty()
    } else {
        slot_map_of(items.drop_last()).insert(items.last().index, items.last().slot)
    }
}

/// The full 256-leaf sequence committed by the slot tree: each occupied
/// index contributes its slot's word, every other index the zero word.
pub open spec fn leaves_of(m: Map<u8, StorageSlot>) -> Seq<Seq<u64>> {
    Seq::new(256, |i: int|
        if m.contains_key(i as u8) {
            m[i as u8].value@
        } else {
            seq![0u64, 0u64, 0u64, 0u64]
        })
}

/// The commitment root over an entry sequence.
pub open spec fn storage_commitment(items: Seq<SlotItem>) -> Seq<u64> {
    storage_root_of(leaves_of(slot_map_of(items)))
}

/// An index is occupied exactly when some entry carries it.
pub proof fn lemma_slot_map_dom(items: Seq<SlotItem>)
    ensures
        forall|k: u8| #[trigger] slot_map_of(items).contains_key(k)
            <==> exists|i: int| 0 <= i < items.len() && items[i].index == k,
    decreases items.len(),
{
    if items.len() > 0 {
        lemma_slot_map_dom(items.drop_last());
        assert forall|k: u8| #[trigger] slot_map_of(items).contains_key(k)
            implies exists|i: int| 0 <= i < items.len() && items[i].index == k by {
            if k == items.last().index {
                assert(items[items.len() - 1].index == k);
            } else {
                assert(slot_map_of(items.drop_last()).contains_key(k));
                let i = choose|i: int|
                    0 <= i < items.drop_last().len() && items.drop_last()[i].index == k;
                assert(items.drop_last()[i] == items[i]);
                assert(items[i].index == k);
            }
        }
        assert forall|k: u8|
            exists|i: int| 0 <= i < items.len() && items[i].index == k
            implies #[trigger] slot_map_of(items).contains_key(k) by {
            let i = choose|i: int| 0 <= i < items.len() && items[i].index == k;
            if i < items.len() - 1 {
                assert(items.drop_last()[i] == items[i]);
                assert(items.drop_last()[i].index == k);
                assert(slot_map_of(items.drop_last()).contains_key(k));
            }
        }
    }
}

/// With unique indices, the relation holds a pair exactly when the entry
/// sequence contains it.
pub proof fn lemma_slot_map_pairs(items: Seq<SlotItem>)
    requires
        unique_indices(items),
    ensures
        forall|it: SlotItem| items.contains(it)
            <==> #[trigger] slot_map_of(items).contains_pair(it.index, it.slot),
    decreases items.len(),
{
    if items.len() > 0 {
        let prefix = items.drop_last();
        let last = items.last();
        assert(unique_indices(prefix)) by {
            assert forall|i: int, j: int| 0 <= i < j < prefix.len()
                implies prefix[i].index != prefix[j].index by {
                assert(items[i].index != items[j].index);
            }
        }
        lemma_slot_map_pairs(prefix);
        lemma_slot_map_dom(prefix);
        assert forall|it: SlotItem| items.contains(it)
            implies #[trigger] slot_map_of(items).contains_pair(it.index, it.slot) by {
            let i = choose|i: int| 0 <= i < items.len() && items[i] == it;
            if i < items.len() - 1 {
                assert(prefix[i] == it);
                assert(prefix.contains(it));
                assert(slot_map_of(prefix).contains_pair(it.index, it.slot));
                // the last entry cannot shadow it: indices are unique
                assert(items[i].index != items[items.len() - 1].index);
                assert(it.index != last.index);
            } else {
                assert(it == last);
            }
        }
        assert forall|it: SlotItem|
            #[trigger] slot_map_of(items).contains_pair(it.index, it.slot)
            implies items.contains(it) by {
            if it.index == last.index {
                assert(it.slot == last.slot);
                assert(items[items.len() - 1] == it);
            } else {
                assert(slot_map_of(prefix).contains_pair(it.index, it.slot));
                assert(prefix.contains(it));
                let i = choose|i: int| 0 <= i < prefix.len() && prefix[i] == it;
                assert(items[i] == it);
            }
        }
    }
}

/// The storage root is a pure function of the indexed slot collection: two
/// entry sequences with unique indices holding the same entries, in whatever
/// order, commit to the same root.
pub proof fn lemma_commitment_order_independent(items1: Seq<SlotItem>, items2: Seq<SlotItem>)
    requires
        unique_indices(items1),
        unique_indices(items2),
        items1.to_multiset() == items2.to_multiset(),
    ensures
        storage_commitment(items1) == storage_commitment(items2),
{
    broadcast use vstd::seq_lib::group_to_multiset_ensures;

    lemma_slot_map_dom(items1);
    lemma_slot_map_dom(items2);
    lemma_slot_map_pairs(items1);
    lemma_slot_map_pairs(items2);
    let m1 = slot_map_of(items1);
    let m2 = slot_map_of(items2);
    assert forall|it: SlotItem| items1.contains(it) implies items2.contains(it) by {
        assert(items1.to_multiset().count(it) > 0);
    }
    assert forall|it: SlotItem| items2.contains(it) implies items1.contains(it) by {
        assert(items2.to_multiset().count(it) > 0);
    }
    assert forall|k: u8| #[trigger] m1.contains_key(k) implies m2.contains_key(k)
        && m1[k] == m2[k] by {
        let i = choose|i: int| 0 <= i < items1.len() && items1[i].index == k;
        let it = items1[i];
        assert(items1.contains(it));
        assert(m1.contains_pair(it.index, it.slot));
        assert(m2.contains_pair(it.index, it.slot));
    }
    assert forall|k: u8| #[trigger] m2.contains_key(k) implies m1.contains_key(k) by {
        let i = choose|i: int| 0 <= i < items2.len() && items2[i].index == k;
        let it = items2[i];
        assert(items2.contains(it));
        assert(m2.contains_pair(it.index, it.slot));
        assert(m1.contains_pair(it.index, it.slot));
    }
    assert(m1 =~= m2);
}

/// An externally-held sparse map from digest keys to words; the slot itself
/// stores only the map's root.
#[derive(Clone, Debug)]
pub struct StorageMap {
    pub entries: Vec<(Word, Word)>,
    pub root: Word,
}

/// What a committable set of map entries must satisfy.
pub open spec fn valid_map_entries(entries: Seq<(Word, Word)>) -> bool {
    &&& entries.len() < 1024
    &&& forall|i: int| 0 <= i < entries.len()
        ==> (#[trigger] entries[i]).0.wf() && entries[i].1.wf()
    &&& forall|i: int, j: int| 0 <= i < j < entries.len() ==> entries[i].0 != entries[j].0
}

impl StorageMap {
    /// The committed root matches the entries.
    pub open spec fn wf(self) -> bool {
        &&& valid_map_entries(self.entries@)
        &&& self.root@ == smt_root_of(entries_map_of(self.entries@))
    }

    /// An empty map.
    pub fn new() -> (r: StorageMap)
        ensures
            r.entries@.len() == 0,
            r.root@ == smt_root_of(Map::empty()),
            r.wf(),
    {
        let entries: Vec<(Word, Word)> = Vec::new();
        let root = smt_tree_root(&entries);
        StorageMap { entries, root }
    }

    /// Commits the given entries. Fails on a malformed element, a repeated
    /// key, or more entries than one committed map supports; no value is
    /// produced then.
    pub fn with_entries(entries: Vec<(Word, Word)>) -> (r: Result<StorageMap, AccountError>)
        ensures
            r is Ok <==> valid_map_entries(entries@),
            r matches Ok(m) ==> m.entries@ == entries@ && m.wf(),
    {
        if entries.len() >= 1024 {
            return Err(AccountError::TooManyMapEntries);
        }
        let n = entries.len();
        let mut i: usize = 0;
        while i < n
            invariant
                n == entries@.len(),
                i <= n,
                forall|a: int| 0 <= a < i
                    ==> (#[trigger] entries@[a]).0.wf() && entries@[a].1.wf(),
            decreases n - i,
        {
            let (k, v) = entries[i];
            if !k.is_canonical() || !v.is_canonical() {
                return Err(AccountError::MalformedMapEntry);
            }
            i += 1;
        }
        let mut a: usize = 0;
        while a < n
            invariant
                n == entries@.len(),
                a <= n,
                forall|x: int, y: int| 0 <= x < y < n && x < a
                    ==> entries@[x].0 != entries@[y].0,
            decreases n - a,
        {
            let mut b: usize = a + 1;
            while b < n
                invariant
                    n == entries@.len(),
                    a < n,
                    a < b <= n,
                    forall|y: int| a < y < b ==> entries@[a as int].0 != entries@[y].0,
                decreases n - b,
            {
                if entries[a].0 == entries[b].0 {
                    proof {
                        assert(!valid_map_entries(entries@)) by {
                            if valid_map_entries(entries@) {
                                assert(entries@[a as int].0 != entries@[b as int].0);
                            }
                        }
                    }
                    return Err(AccountError::DuplicateMapKey);
                }
                b += 1;
            }
            a += 1;
        }
        let root = smt_tree_root(&entries);
        Ok(StorageMap { entries, root })
    }

    /// The root of this map's committed contents.
    pub fn root(&self) -> (r: Word)
        requires
            self.wf(),
        ensures
            r@ == smt_root_of(entries_map_of(self.entries@)),
    {
        self.root
    }
}

/// An ordered collection of up to 256 indexed slots, immutable once built,
/// committed to by one root.
#[derive(Clone, Debug)]
pub struct AccountStorage {
    pub slots: Vec<SlotItem>,
    pub maps: Vec<StorageMap>,
    pub commitment: Word,
}

impl AccountStorage {
    /// Index uniqueness, the slot ceiling, and a commitment that matches the
    /// slots.
    pub open spec fn wf(self) -> bool {
        &&& self.slots@.len() <= 256
        &&& unique_indices(self.slots@)
        &&& self.commitment@ == storage_commitment(self.slots@)
    }

    /// Validates index uniqueness and the slot ceiling, then commits the
    /// indexed slot sequence. All-or-nothing: on failure no value is
    /// produced.
    pub fn new(slots: Vec<SlotItem>, maps: Vec<StorageMap>) -> (r: Result<
        AccountStorage,
        AccountError,
    >)
        ensures
            r is Ok <==> slots@.len() <= 256 && unique_indices(slots@),
            slots@.len() > 256 ==> r == Err::<AccountStorage, AccountError>(
                AccountError::TooManyStorageSlots,
            ),
            slots@.len() <= 256 && !unique_indices(slots@) ==> r == Err::<
                AccountStorage,
                AccountError,
            >(AccountError::DuplicateStorageSlot),
            r matches Ok(s) ==> s.slots@ == slots@ && s.maps@ == maps@ && s.wf(),
    {
        if slots.len() > 256 {
            return Err(AccountError::TooManyStorageSlots);
        }
        let n = slots.len();
        let mut a: usize = 0;
        while a < n
            invariant
                n == slots@.len(),
                n <= 256,
                a <= n,
                forall|x: int, y: int| 0 <= x < y < n && x < a
                    ==> slots@[x].index != slots@[y].index,
            decreases n - a,
        {
            let mut b: usize = a + 1;
            while b < n
                invariant
                    n == slots@.len(),
                    n <= 256,
                    a < n,
                    a < b <= n,
                    forall|y: int| a < y < b ==> slots@[a as int].index != slots@[y].index,
                decreases n - b,
            {
                if slots[a].index == slots[b].index {
                    proof {
                        assert(!unique_indices(slots@)) by {
                            if unique_indices(slots@) {
                                assert(slots@[a as int].index != slots@[b as int].index);
                            }
                        }
                    }
                    return Err(AccountError::DuplicateStorageSlot);
                }
                b += 1;
            }
            a += 1;
        }
        let commitment = commit_slots(&slots);
        Ok(AccountStorage { slots, maps, commitment })
    }

    /// The commitment root over the full indexed slot sequence.
    pub fn root(&self) -> (r: Word)
        requires
            self.wf(),
        ensures
            r@ == storage_commitment(self.slots@),
    {
        self.commitment
    }

    /// The slot stored at an index, if any.
    pub fn slot_at(&self, index: u8) -> (r: Option<StorageSlot>)
        requires
            self.wf(),
        ensures
            r == (if slot_map_of(self.slots@).contains_key(index) {
                Some(slot_map_of(self.slots@)[index])
            } else {
                None::<StorageSlot>
            }),
    {
        proof {
            lemma_slot_map_dom(self.slots@);
            lemma_slot_map_pairs(self.slots@);
        }
        let n = self.slots.len();
        let mut i: usize = 0;
        while i < n
            invariant
                self.wf(),
                n == self.slots@.len(),
                i <= n,
                forall|a: int| 0 <= a < i ==> self.slots@[a].index != index,
                forall|it: SlotItem| self.slots@.contains(it)
                    <==> #[trigger] slot_map_of(self.slots@).contains_pair(it.index, it.slot),
                forall|k: u8| #[trigger] slot_map_of(self.slots@).contains_key(k)
                    <==> exists|j: int| 0 <= j < self.slots@.len() && self.slots@[j].index == k,
            decreases n - i,
        {
            if self.slots[i].index == index {
                let it = self.slots[i];
                proof {
                    assert(self.slots@.contains(it));
                    assert(slot_map_of(self.slots@).contains_pair(it.index, it.slot));
                }
                return Some(it.slot);
            }
            i += 1;
        }
        None
    }
}

/// An accumulated collection of slot items and map definitions from which
/// independent `AccountStorage` values can be built repeatedly.
///
/// The configuration is an explicit immutable value: each `add_*` call
/// consumes the builder and returns the extended one, and `build` is a pure
/// transform of the accumulated state.
#[derive(Clone, Debug)]
pub struct AccountStorageBuilder {
    pub items: Vec<SlotItem>,
    pub maps: Vec<StorageMap>,
}

impl AccountStorageBuilder {
    pub fn new() -> (r: Self)
        ensures
            r.items@.len() == 0,
            r.maps@.len() == 0,
    {
        AccountStorageBuilder { items: Vec::new(), maps: Vec::new() }
    }

    /// Appends one slot item; duplicate indices are detected only at build
    /// time.
    pub fn add_item(self, item: SlotItem) -> (r: Self)
        ensures
            r.items@ == self.items@.push(item),
            r.maps@ == self.maps@,
    {
        let mut b = self;
        b.items.push(item);
        b
    }

    /// Appends each given slot item in order.
    pub fn add_items(self, items: Vec<SlotItem>) -> (r: Self)
        ensures
            r.items@ == self.items@ + items@,
            r.maps@ == self.maps@,
    {
        let ghost orig = self;
        let mut b = self;
        let n = items.len();
        let mut i: usize = 0;
        while i < n
            invariant
                n == items@.len(),
                i <= n,
                b.items@ == orig.items@ + items@.take(i as int),
                b.maps@ == orig.maps@,
            decreases n - i,
        {
            b = b.add_item(items[i]);
            proof {
                assert(items@.take(i + 1) =~= items@.take(i as int).push(items@[i as int]));
                assert(orig.items@ + items@.take(i + 1)
                    =~= (orig.items@ + items@.take(i as int)).push(items@[i as int]));
            }
            i += 1;
        }
        proof {
            assert(items@.take(n as int) =~= items@);
        }
        b
    }

    /// Appends one map definition.
    pub fn add_map(self, map: StorageMap) -> (r: Self)
        ensures
            r.items@ == self.items@,
            r.maps@ == self.maps@.push(map),
    {
        let mut b = self;
        b.maps.push(map);
        b
    }

    /// Appends each given map definition in order.
    pub fn add_maps(self, maps: Vec<StorageMap>) -> (r: Self)
        ensures
            r.items@ == self.items@,
            r.maps@ == self.maps@ + maps@,
    {
        let ghost orig = self;
        let mut b = self;
        let mut rest = maps;
        while rest.len() > 0
            invariant
                b.items@ == orig.items@,
                b.maps@ + rest@ == orig.maps@ + maps@,
            decreases rest@.len(),
        {
            let m = rest.remove(0);
            b.maps.push(m);
        }
        b
    }

    /// Produces an `AccountStorage` from the accumulated state, which stays
    /// available for further additions and builds. Fails, as construction
    /// does, on a repeated index or on more items than the slot ceiling
    /// allows; no value is produced then.
    pub fn build(&self) -> (r: Result<AccountStorage, AccountError>)
        ensures
            r is Ok <==> self.items@.len() <= 256 && unique_indices(self.items@),
            self.items@.len() > 256 ==> r == Err::<AccountStorage, AccountError>(
                AccountError::TooManyStorageSlots,
            ),
            self.items@.len() <= 256 && !unique_indices(self.items@) ==> r == Err::<
                AccountStorage,
                AccountError,
            >(AccountError::DuplicateStorageSlot),
            r matches Ok(s) ==> {
                &&& s.slots@ == self.items@
                &&& s.wf()
                &&& s.maps@.len() == self.maps@.len()
                &&& forall|i: int| 0 <= i < self.maps@.len()
                    ==> (#[trigger] s.maps@[i]).entries@ == self.maps@[i].entries@
                        && s.maps@[i].root == self.maps@[i].root
            },
    {
        let items = clone_slot_items(&self.items);
        let maps = clone_storage_maps(&self.maps);
        AccountStorage::new(items, maps)
    }
}

/// Copies a slot item vector element by element.
pub(crate) fn clone_slot_items(v: &Vec<SlotItem>) -> (r: Vec<SlotItem>)
    ensures
        r@ == v@,
{
    let mut r: Vec<SlotItem> = Vec::new();
    let n = v.len();
    let mut i: usize = 0;
    while i < n
        invariant
            n == v@.len(),
            i <= n,
            r@ == v@.take(i as int),
        decreases n - i,
    {
        r.push(v[i]);
        proof {
            assert(v@.take(i + 1) =~= v@.take(i as int).push(v@[i as int]));
        }
        i += 1;
    }
    proof {
        assert(v@.take(n as int) =~= v@);
    }
    r
}

/// Copies a map vector, entry lists and roots alike.
pub(crate) fn clone_storage_maps(v: &Vec<StorageMap>) -> (r: Vec<StorageMap>)
    ensures
        r@.len() == v@.len(),
        forall|i: int| 0 <= i < v@.len()
            ==> (#[trigger] r@[i]).entries@ == v@[i].entries@ && r@[i].root == v@[i].root,
{
    let mut r: Vec<StorageMap> = Vec::new();
    let n = v.len();
    let mut i: usize = 0;
    while i < n
        invariant
            n == v@.len(),
            i <= n,
            r@.len() == i,
            forall|j: int| 0 <= j < i
                ==> (#[trigger] r@[j]).entries@ == v@[j].entries@ && r@[j].root == v@[j].root,
        decreases n - i,
    {
        let entries = clone_word_pairs(&v[i].entries);
        r.push(StorageMap { entries, root: v[i].root });
        i += 1;
    }
    r
}

/// Copies a word-pair vector element by element.
fn clone_word_pairs(v: &Vec<(Word, Word)>) -> (r: Vec<(Word, Word)>)
    ensures
        r@ == v@,
{
    let mut r: Vec<(Word, Word)> = Vec::new();
    let n = v.len();
    let mut i: usize = 0;
    while i < n
        invariant
            n == v@.len(),
            i <= n,
            r@ == v@.take(i as int),
        decreases n - i,
    {
        r.push(v[i]);
        proof {
            assert(v@.take(i + 1) =~= v@.take(i as int).push(v@[i as int]));
        }
        i += 1;
    }
    proof {
        assert(v@.take(n as int) =~= v@);
    }
    r
}

/// A value slot at index 20 holding the word `[1, 2, 3, 4]`.
pub fn storage_item_0() -> (r: SlotItem)
    ensures
        r.index == 20,
        r.slot == (StorageSlot {
            slot_type: StorageSlotType::Value { value_arity: 0u8 },
            value: (Word { e0: 1u64, e1: 2u64, e2: 3u64, e3: 4u64 }),
        }),
{
    SlotItem { index: 20, slot: StorageSlot::new_value(Word::new(1, 2, 3, 4)) }
}

/// A value slot at index 30 holding the word `[5, 6, 7, 8]`.
pub fn storage_item_1() -> (r: SlotItem)
    ensures
        r.index == 30,
        r.slot == (StorageSlot {
            slot_type: StorageSlotType::Value { value_arity: 0u8 },
            value: (Word { e0: 5u64, e1: 6u64, e2: 7u64, e3: 8u64 }),
        }),
{
    SlotItem { index: 30, slot: StorageSlot::new_value(Word::new(5, 6, 7, 8)) }
}

/// The two digest-keyed leaves of the fixture map.
pub open spec fn storage_map_2_entries() -> Seq<(Word, Word)> {
    seq![
        (
            (Word { e0: 101u64, e1: 102u64, e2: 103u64, e3: 104u64 }),
            (Word { e0: 1u64, e1: 2u64, e2: 3u64, e3: 4u64 }),
        ),
        (
            (Word { e0: 105u64, e1: 106u64, e2: 107u64, e3: 108u64 }),
            (Word { e0: 5u64, e1: 6u64, e2: 7u64, e3: 8u64 }),
        ),
    ]
}

/// A committed map holding the two fixture leaves.
pub fn storage_map_2() -> (r: StorageMap)
    ensures
        r.entries@ == storage_map_2_entries(),
        r.wf(),
{
    let mut entries: Vec<(Word, Word)> = Vec::new();
    entries.push((Word::new(101, 102, 103, 104), Word::new(1, 2, 3, 4)));
    entries.push((Word::new(105, 106, 107, 108), Word::new(5, 6, 7, 8)));
    proof {
        assert(entries@ =~= storage_map_2_entries());
        assert(valid_map_entries(entries@)) by {
            assert(entries@[0].0.wf() && entries@[0].1.wf());
            assert(entries@[1].0.wf() && entries@[1].1.wf());
            assert(entries@[0].0 != entries@[1].0);
        }
    }
    StorageMap::with_entries(entries).unwrap()
}

/// A map slot at index 40 holding the fixture map's root.
pub fn storage_item_2() -> (r: SlotItem)
    ensures
        r.index == 40,
        r.slot.slot_type == StorageSlotType::MapRoot,
        r.slot.value@ == smt_root_of(entries_map_of(storage_map_2_entries())),
{
    SlotItem { index: 40, slot: StorageSlot::new_map(storage_map_2().root()) }
}

/// Builds the 256-leaf word vector a slot sequence induces and commits it.
fn commit_slots(slots: &Vec<SlotItem>) -> (r: Word)
    requires
        slots@.len() <= 256,
        unique_indices(slots@),
    ensures
        r@ == storage_commitment(slots@),
{
    let mut leaves: Vec<Word> = Vec::new();
    let mut i: usize = 0;
    while i < 256
        invariant
            leaves@.len() == i,
            i <= 256,
            forall|j: int| 0 <= j < i
                ==> leaves@[j] == (Word { e0: 0u64, e1: 0u64, e2: 0u64, e3: 0u64 }),
        decreases 256 - i,
    {
        leaves.push(Word::zeros());
        i += 1;
    }
    let n = slots.len();
    let mut k: usize = 0;
    while k < n
        invariant
            n == slots@.len() <= 256,
            unique_indices(slots@),
            k <= n,
            leaves@.len() == 256,
            forall|j: int| 0 <= j < 256 ==> #[trigger] leaves@[j]
                == (if slot_map_of(slots@.take(k as int)).contains_key(j as u8) {
                    slot_map_of(slots@.take(k as int))[j as u8].value
                } else {
                    (Word { e0: 0u64, e1: 0u64, e2: 0u64, e3: 0u64 })
                }),
        decreases n - k,
    {
        let item = slots[k];
        leaves.set(item.index as usize, item.slot.value);
        proof {
            assert(slots@.take(k + 1).drop_last() =~= slots@.take(k as int));
            assert(slots@.take(k + 1).last() == slots@[k as int]);
            assert(slot_map_of(slots@.take(k + 1))
                =~= slot_map_of(slots@.take(k as int)).insert(item.index, item.slot));
        }
        k += 1;
    }
    proof {
        assert(slots@.take(n as int) =~= slots@);
        let m = slot_map_of(slots@);
        let mapped = leaves@.map_values(|w: Word| w@);
        assert forall|j: int| 0 <= j < 256 implies mapped[j] == leaves_of(m)[j] by {
            assert(leaves@[j] == (if m.contains_key(j as u8) {
                m[j as u8].value
            } else {
                (Word { e0: 0u64, e1: 0u64, e2: 0u64, e3: 0u64 })
            }));
        }
        assert(mapped =~= leaves_of(m));
    }
    storage_tree_root(&leaves)
}

} // verus!
