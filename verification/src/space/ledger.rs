//! The ledger of populated chunks: which chunk coordinates have been
//! generated, and which container entity owns the content of each.

use vstd::prelude::*;
use avian2d::parry::utils::hashmap::HashMap;
use crate::geometry::ChunkCoord;

verus! {

/// `rustc_hash::FxBuildHasher`, which builds the hashers of the ledger's
/// hash table. It is declared so that the table's type can be written;
/// nothing is read from it.
#[verifier::external_type_specification]
#[verifier::external_body]
pub struct ExFxBuildHasher(rustc_hash::FxBuildHasher);

/// The hash table under the ledger: from the two coordinates of a chunk to
/// the identifier of its container. The collision library's `HashMap` is
/// the hash map of std with the hasher of `rustc_hash`, which hashes equal
/// keys alike in every run.
type Table = HashMap<(i32, i32), u64>;

/// One entry of the hash table.
type TableEntry = ((i32, i32), u64);

/// Chunks that have already been spawned, each with the identifier of the
/// container entity that owns its content. An entry is made when a chunk is
/// populated and leaves when the chunk is unloaded, and in no other way.
pub struct PopulatedChunks {
    table: Table,
}

/// The ledger that `table` stands for.
pub open spec fn ledger_of(table: Map<(i32, i32), u64>) -> Map<ChunkCoord, u64> {
    Map::new(
        |c: ChunkCoord| table.contains_key((c.x, c.y)),
        |c: ChunkCoord| table[(c.x, c.y)],
    )
}

/// The table without entries.
pub open spec fn empty_table() -> Map<(i32, i32), u64> {
    Map::empty()
}

/// Whether `entries` lists `table` entry by entry: nothing but entries of
/// the table, each of them, and no key twice.
pub open spec fn lists_table(entries: Seq<((i32, i32), u64)>, table: Map<(i32, i32), u64>) -> bool {
    &&& forall|i: int|
        0 <= i < entries.len() ==> table.contains_key(#[trigger] entries[i].0)
            && table[entries[i].0] == entries[i].1
    &&& forall|key: (i32, i32)| #[trigger]
        table.contains_key(key) ==> exists|i: int|
            0 <= i < entries.len() && #[trigger] entries[i].0 == key
    &&& forall|i: int, j: int|
        0 <= i < j < entries.len() ==> #[trigger] entries[i].0 != #[trigger] entries[j].0
}

/// `HashMap::default` on the ledger's table type: the table that it makes
/// holds no entry.
#[verifier::external_body]
fn table_new() -> (table: Table)
    ensures
        table@ == empty_table(),
{
    HashMap::default()
}

/// `HashMap::get` on the ledger's table: the value stored under `key`, if
/// the table holds the key.
#[verifier::external_body]
fn table_get(table: &Table, key: (i32, i32)) -> (found: Option<u64>)
    ensures
        found == (if table@.contains_key(key) {
            Some(table@[key])
        } else {
            None::<u64>
        }),
{
    table.get(&key).copied()
}

/// `HashMap::insert` on the ledger's table: afterwards `key` maps to
/// `value` and every other key is as before.
#[verifier::external_body]
fn table_insert(table: &mut Table, key: (i32, i32), value: u64)
    ensures
        final(table)@ == old(table)@.insert(key, value),
{
    table.insert(key, value);
}

/// `HashMap::remove` on the ledger's table: afterwards `key` is absent and
/// every other key is as before.
#[verifier::external_body]
fn table_remove(table: &mut Table, key: (i32, i32))
    ensures
        final(table)@ == old(table)@.remove(key),
{
    table.remove(&key);
}

/// `HashMap::iter` on the ledger's table, collected: every entry of the
/// table exactly once, in an order that is not stated.
#[verifier::external_body]
fn table_entries(table: &Table) -> (entries: Vec<TableEntry>)
    ensures
        lists_table(entries@, table@),
{
    table.iter().map(|(key, value)| (*key, *value)).collect()
}

impl View for PopulatedChunks {
    type V = Map<ChunkCoord, u64>;

    closed spec fn view(&self) -> Map<ChunkCoord, u64> {
        ledger_of(self.table@)
    }
}

impl Default for PopulatedChunks {
    fn default() -> (ledger: PopulatedChunks)
        ensures
            ledger@ == Map::<ChunkCoord, u64>::empty(),
    {
        let ledger = PopulatedChunks { table: table_new() };
        assert(ledger@ =~= Map::<ChunkCoord, u64>::empty());
        ledger
    }
}

/// Whether `entries` lists the ledger `ledger` entry by entry: nothing but
/// entries of the ledger, each of them, and no chunk twice.
pub open spec fn lists_ledger(
    entries: Seq<(ChunkCoord, u64)>,
    ledger: Map<ChunkCoord, u64>,
) -> bool {
    &&& forall|i: int|
        0 <= i < entries.len() ==> ledger.contains_key(#[trigger] entries[i].0)
            && ledger[entries[i].0] == entries[i].1
    &&& forall|c: ChunkCoord| #[trigger]
        ledger.contains_key(c) ==> exists|i: int|
            0 <= i < entries.len() && #[trigger] entries[i].0 == c
    &&& forall|i: int, j: int|
        0 <= i < j < entries.len() ==> #[trigger] entries[i].0 != #[trigger] entries[j].0
}

impl PopulatedChunks {
    /// A ledger without entries.
    pub fn new() -> (ledger: PopulatedChunks)
        ensures
            ledger@ == Map::<ChunkCoord, u64>::empty(),
    {
        PopulatedChunks::default()
    }

    /// The container that owns `chunk`, if the chunk is populated.
    pub fn get(&self, chunk: &ChunkCoord) -> (owner: Option<u64>)
        ensures
            owner == (if self@.contains_key(*chunk) {
                Some(self@[*chunk])
            } else {
                None::<u64>
            }),
    {
        table_get(&self.table, (chunk.x, chunk.y))
    }

    /// Whether `chunk` is populated.
    pub fn contains_key(&self, chunk: &ChunkCoord) -> (found: bool)
        ensures
            found == self@.contains_key(*chunk),
    {
        self.get(chunk).is_some()
    }

    /// Records `container` as the owner of `chunk`.
    pub(crate) fn insert(&mut self, chunk: ChunkCoord, container: u64)
        ensures
            final(self)@ == old(self)@.insert(chunk, container),
    {
        table_insert(&mut self.table, (chunk.x, chunk.y), container);
        assert(self@ =~= old(self)@.insert(chunk, container));
    }

    /// Forgets `chunk`.
    pub(crate) fn remove(&mut self, chunk: &ChunkCoord)
        ensures
            final(self)@ == old(self)@.remove(*chunk),
    {
        table_remove(&mut self.table, (chunk.x, chunk.y));
        assert(self@ =~= old(self)@.remove(*chunk));
    }

    /// Every entry of the ledger exactly once. The order is that of the
    /// hash table and carries no meaning.
    pub fn entries(&self) -> (out: Vec<(ChunkCoord, u64)>)
        ensures
            lists_ledger(out@, self@),
    {
        let raw = table_entries(&self.table);
        let mut out: Vec<(ChunkCoord, u64)> = Vec::new();
        let mut i: usize = 0;
        while i < raw.len()
            invariant
                i <= raw.len(),
                out@.len() == i,
                forall|k: int|
                    0 <= k < i ==> (#[trigger] out@[k]).0 == (ChunkCoord {
                        x: raw@[k].0.0,
                        y: raw@[k].0.1,
                    }) && out@[k].1 == raw@[k].1,
            decreases raw.len() - i,
        {
            let entry: TableEntry = raw[i];
            out.push((ChunkCoord { x: entry.0.0, y: entry.0.1 }, entry.1));
            i = i + 1;
        }
        proof {
            assert forall|c: ChunkCoord| #[trigger] self@.contains_key(c) implies exists|k: int|
                0 <= k < out@.len() && #[trigger] out@[k].0 == c by {
                let key = (c.x, c.y);
                assert(self.table@.contains_key(key));
                let k = choose|k: int| 0 <= k < raw@.len() && #[trigger] raw@[k].0 == key;
                assert(out@[k].0 == c);
            }
            assert forall|a: int, b: int| 0 <= a < b < out@.len() implies #[trigger] out@[a].0
                != #[trigger] out@[b].0 by {
                assert(raw@[a].0 != raw@[b].0);
            }
            assert forall|k: int| 0 <= k < out@.len() implies self@.contains_key(
                #[trigger] out@[k].0,
            ) && self@[out@[k].0] == out@[k].1 by {
                assert(self.table@.contains_key(raw@[k].0));
            }
        }
        out
    }
}

} // verus!
