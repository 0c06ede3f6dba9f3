use std::collections::BTreeMap;
use vstd::laws_cmp::group_laws_cmp;
use vstd::prelude::*;
use vstd::std_specs::btree::increasing_seq;
use vstd::std_specs::cmp::OrdSpec;
use vstd::std_specs::iter::IteratorSpec;

verus! {

/// What a table holds: for each partition that was ever written, its rows by key.
pub type Rows<V> = Map<u128, Map<u128, V>>;

/// What a look-up by partition and row key finds.
pub enum Lookup<V> {
    Found(V),
    /// The partition is there, the row is not.
    NoRow,
    /// The partition itself is not there.
    NoPartition,
}

/// The row at `partition`, `row`, or which of the two is missing.
pub open spec fn lookup<V>(rows: Rows<V>, partition: u128, row: u128) -> Lookup<V> {
    if !rows.contains_key(partition) {
        Lookup::NoPartition
    } else if !rows[partition].contains_key(row) {
        Lookup::NoRow
    } else {
        Lookup::Found(rows[partition][row])
    }
}

/// The rows of `partition`; none where the partition was never written.
pub open spec fn rows_of<V>(rows: Rows<V>, partition: u128) -> Map<u128, V> {
    if rows.contains_key(partition) {
        rows[partition]
    } else {
        Map::empty()
    }
}

/// The table after `value` is written at `partition`, `row`: it takes the place of
/// whatever stood there, and nothing else changes.
pub open spec fn stored<V>(rows: Rows<V>, partition: u128, row: u128, value: V) -> Rows<V> {
    rows.insert(partition, rows_of(rows, partition).insert(row, value))
}

/// The table after the row at `partition`, `row` is taken out. The partition stays,
/// even when no row is left in it.
pub open spec fn removed<V>(rows: Rows<V>, partition: u128, row: u128) -> Rows<V> {
    if rows.contains_key(partition) {
        rows.insert(partition, rows[partition].remove(row))
    } else {
        rows
    }
}

/// Is `pairs` the content of `rows`, each row once, in ascending order of the keys?
pub open spec fn is_listing<V>(pairs: Seq<(u128, &V)>, rows: Map<u128, V>) -> bool {
    &&& forall|i: int, j: int| 0 <= i < j < pairs.len() ==> pairs[i].0 < pairs[j].0
    &&& forall|i: int|
        0 <= i < pairs.len() ==> rows.contains_key(#[trigger] pairs[i].0) && rows[pairs[i].0]
            == *pairs[i].1
    &&& forall|key: u128|
        rows.contains_key(key) ==> exists|i: int| 0 <= i < pairs.len() && #[trigger] pairs[i].0 == key
}

/// A two-level ordered map: partitions by key, and in each partition rows by key.
pub struct Table<V> {
    partitions: BTreeMap<u128, BTreeMap<u128, V>>,
}

impl<V> View for Table<V> {
    type V = Rows<V>;

    closed spec fn view(&self) -> Rows<V> {
        Map::new(
            |partition: u128| self.partitions@.contains_key(partition),
            |partition: u128| self.partitions@[partition]@,
        )
    }
}

impl<V> Table<V> {
    /// A table without any partition.
    pub fn new() -> (table: Self)
        ensures
            table@ == Map::<u128, Map<u128, V>>::empty(),
    {
        broadcast use group_laws_cmp;

        let table = Table { partitions: BTreeMap::new() };
        assert(table@ =~= Map::<u128, Map<u128, V>>::empty());
        table
    }

    /// The rows of one partition, if the partition is there.
    pub fn partition(&self, partition: u128) -> (rows: Option<&BTreeMap<u128, V>>)
        ensures
            match rows {
                Some(found) => self@.contains_key(partition) && found@ == self@[partition],
                None => !self@.contains_key(partition),
            },
    {
        broadcast use group_laws_cmp;

        self.partitions.get(&partition)
    }

    /// The row at `partition`, `row`, or which of the two is missing.
    pub fn get(&self, partition: u128, row: u128) -> (found: Lookup<&V>)
        ensures
            match found {
                Lookup::Found(value) => lookup(self@, partition, row) == Lookup::Found(*value),
                Lookup::NoRow => lookup(self@, partition, row) is NoRow,
                Lookup::NoPartition => lookup(self@, partition, row) is NoPartition,
            },
    {
        broadcast use group_laws_cmp;

        match self.partitions.get(&partition) {
            None => Lookup::NoPartition,
            Some(rows) => match rows.get(&row) {
                None => Lookup::NoRow,
                Some(value) => Lookup::Found(value),
            },
        }
    }

    /// Writes `value` at `partition`, `row`, in place of what stood there.
    pub fn put(&mut self, partition: u128, row: u128, value: V)
        ensures
            final(self)@ == stored(old(self)@, partition, row, value),
    {
        broadcast use group_laws_cmp;

        let mut rows = match self.partitions.remove(&partition) {
            Some(rows) => rows,
            None => BTreeMap::new(),
        };
        rows.insert(row, value);
        self.partitions.insert(partition, rows);
        assert(self@ =~= stored(old(self)@, partition, row, value));
    }

    /// Takes out the row at `partition`, `row` and hands it back, or says which of
    /// the two is missing and leaves the table as it is.
    pub fn delete(&mut self, partition: u128, row: u128) -> (outcome: Lookup<V>)
        ensures
            outcome == lookup(old(self)@, partition, row),
            final(self)@ == removed(old(self)@, partition, row),
    {
        broadcast use group_laws_cmp;

        match self.partitions.remove(&partition) {
            None => {
                assert(self@ =~= old(self)@);
                Lookup::NoPartition
            },
            Some(mut rows) => {
                let gone = rows.remove(&row);
                self.partitions.insert(partition, rows);
                assert(self@ =~= removed(old(self)@, partition, row));
                match gone {
                    Some(value) => Lookup::Found(value),
                    None => Lookup::NoRow,
                }
            },
        }
    }
}

/// The pairs of an ordered map, in ascending order of the keys.
pub fn ordered_pairs<V>(rows: &BTreeMap<u128, V>) -> (pairs: Vec<(u128, &V)>)
    ensures
        is_listing(pairs@, rows@),
{
    broadcast use group_laws_cmp;

    let mut pairs: Vec<(u128, &V)> = Vec::new();
    let ghost all: Seq<(&u128, &V)> = rows.iter().remaining();
    for entry in it: rows.iter()
        invariant
            it.seq() == all,
            all.len() == rows@.dom().len(),
            increasing_seq(all.map_values(|kv: (&u128, &V)| *kv.0)),
            forall|i: int|
                0 <= i < all.len() ==> rows@.contains_key(*(#[trigger] all[i]).0) && rows@[*all[i].0]
                    == *all[i].1,
            forall|key: u128|
                rows@.contains_key(key) ==> exists|i: int|
                    0 <= i < all.len() && *(#[trigger] all[i]).0 == key,
            pairs@.len() == it.index(),
            forall|i: int|
                0 <= i < pairs@.len() ==> (#[trigger] pairs@[i]).0 == *all[i].0 && pairs@[i].1
                    == all[i].1,
    {
        pairs.push((*entry.0, entry.1));
    }
    proof {
        let keys = all.map_values(|kv: (&u128, &V)| *kv.0);
        assert forall|i: int, j: int| 0 <= i < j < pairs@.len() implies pairs@[i].0 < pairs@[j].0 by {
            assert(keys[i] == pairs@[i].0);
            assert(keys[j] == pairs@[j].0);
            assert(keys[i].cmp_spec(&keys[j]) is Less);
        }
        assert forall|key: u128| rows@.contains_key(key) implies exists|i: int|
            0 <= i < pairs@.len() && #[trigger] pairs@[i].0 == key by {
            let i = choose|i: int| 0 <= i < all.len() && *(#[trigger] all[i]).0 == key;
            assert(pairs@[i].0 == key);
        }
    }
    pairs
}


/// What is written is what is then found at its key.
pub proof fn lemma_stored_is_found<V>(rows: Rows<V>, partition: u128, row: u128, value: V)
    ensures
        lookup(stored(rows, partition, row, value), partition, row) == Lookup::Found(value),
{
}

/// A second write to a key leaves the table as if only the second had been made:
/// the first value is gone, and the partition has one row for the key, not two.
pub proof fn lemma_stored_twice<V>(rows: Rows<V>, partition: u128, row: u128, first: V, second: V)
    ensures
        stored(stored(rows, partition, row, first), partition, row, second) == stored(
            rows,
            partition,
            row,
            second,
        ),
        lookup(stored(stored(rows, partition, row, first), partition, row, second), partition, row)
            == Lookup::Found(second),
{
    assert(stored(stored(rows, partition, row, first), partition, row, second) =~= stored(
        rows,
        partition,
        row,
        second,
    )) by {
        assert(rows_of(rows, partition).insert(row, first).insert(row, second) =~= rows_of(
            rows,
            partition,
        ).insert(row, second));
    }
}

/// A write changes one partition only: every other partition is there or not as
/// before, with the rows it had.
pub proof fn lemma_stored_keeps_other_partitions<V>(
    rows: Rows<V>,
    partition: u128,
    row: u128,
    value: V,
    other: u128,
)
    requires
        other != partition,
    ensures
        stored(rows, partition, row, value).contains_key(other) == rows.contains_key(other),
        rows_of(stored(rows, partition, row, value), other) == rows_of(rows, other),
        forall|key: u128|
            lookup(stored(rows, partition, row, value), other, key) == lookup(rows, other, key),
{
}

/// Within the partition that is written, every other row stays as it was.
pub proof fn lemma_stored_keeps_other_rows<V>(
    rows: Rows<V>,
    partition: u128,
    row: u128,
    value: V,
    other: u128,
)
    requires
        other != row,
    ensures
        rows_of(stored(rows, partition, row, value), partition).contains_key(other) == rows_of(
            rows,
            partition,
        ).contains_key(other),
        rows_of(rows, partition).contains_key(other) ==> lookup(
            stored(rows, partition, row, value),
            partition,
            other,
        ) == lookup(rows, partition, other),
{
}

/// After a row is taken out it is not found, and taking it out once more finds
/// nothing to take and changes nothing.
pub proof fn lemma_removed_is_missing<V>(rows: Rows<V>, partition: u128, row: u128)
    ensures
        !(lookup(removed(rows, partition, row), partition, row) is Found),
        lookup(rows, partition, row) is Found ==> lookup(
            removed(rows, partition, row),
            partition,
            row,
        ) is NoRow,
        removed(removed(rows, partition, row), partition, row) == removed(rows, partition, row),
{
    assert(removed(removed(rows, partition, row), partition, row) =~= removed(
        rows,
        partition,
        row,
    )) by {
        if rows.contains_key(partition) {
            assert(rows[partition].remove(row).remove(row) =~= rows[partition].remove(row));
        }
    }
}

/// Taking out a row that is not there changes nothing.
pub proof fn lemma_removed_missing<V>(rows: Rows<V>, partition: u128, row: u128)
    requires
        !(lookup(rows, partition, row) is Found),
    ensures
        removed(rows, partition, row) == rows,
{
    if rows.contains_key(partition) {
        assert(rows[partition].remove(row) =~= rows[partition]);
    }
    assert(removed(rows, partition, row) =~= rows);
}

/// Taking a row out changes one key only: every other key finds what it found.
pub proof fn lemma_removed_keeps_others<V>(
    rows: Rows<V>,
    partition: u128,
    row: u128,
    other_partition: u128,
    other_row: u128,
)
    requires
        other_partition != partition || other_row != row,
    ensures
        lookup(removed(rows, partition, row), other_partition, other_row) == lookup(
            rows,
            other_partition,
            other_row,
        ),
        removed(rows, partition, row).contains_key(other_partition) == rows.contains_key(
            other_partition,
        ),
{
}

/// Two listings of the same rows are the same listing.
pub proof fn lemma_listing_unique<V>(
    first: Seq<(u128, &V)>,
    second: Seq<(u128, &V)>,
    rows: Map<u128, V>,
)
    requires
        is_listing(first, rows),
        is_listing(second, rows),
    ensures
        first.len() == second.len(),
        forall|i: int| 0 <= i < first.len() ==> first[i].0 == second[i].0 && *first[i].1 == *second[i].1,
{
    lemma_listing_prefix(first, second, rows, first.len() as int);
    lemma_listing_prefix(second, first, rows, second.len() as int);
}

proof fn lemma_listing_prefix<V>(
    first: Seq<(u128, &V)>,
    second: Seq<(u128, &V)>,
    rows: Map<u128, V>,
    n: int,
)
    requires
        is_listing(first, rows),
        is_listing(second, rows),
        0 <= n <= first.len(),
    ensures
        n <= second.len(),
        forall|i: int| 0 <= i < n ==> first[i].0 == second[i].0 && *first[i].1 == *second[i].1,
    decreases n,
{
    if n > 0 {
        lemma_listing_prefix(first, second, rows, n - 1);
        let key = first[n - 1].0;
        assert(rows.contains_key(key));
        let j = choose|j: int| 0 <= j < second.len() && #[trigger] second[j].0 == key;
        // `key` stands at place j of `second`; it is larger than the n - 1 keys before it
        // in `first`, which are the first n - 1 keys of `second`, so j >= n - 1.
        if j < n - 1 {
            assert(first[j].0 == second[j].0);
            assert(first[j].0 < first[n - 1].0);
        }
        if j > n - 1 {
            // then second[n - 1] is a key below `key` that `first` must hold before place n - 1
            let missing = second[n - 1].0;
            assert(rows.contains_key(missing));
            let i = choose|i: int| 0 <= i < first.len() && #[trigger] first[i].0 == missing;
            assert(second[n - 1].0 < second[j].0);
            if i < n - 1 {
                assert(first[i].0 == second[i].0);
                assert(second[i].0 < second[n - 1].0);
            } else if i > n - 1 {
                assert(first[n - 1].0 < first[i].0);
            }
        }
        assert(j == n - 1);
    }
}


/// A row that knows the key it belongs under.
pub trait Keyed: Sized {
    /// The key of the partition that the row belongs to.
    spec fn partition_key(&self) -> u128;

    /// The key of the row within its partition.
    spec fn row_key(&self) -> u128;

    /// A copy of the row.
    fn duplicate(&self) -> (copy: Self)
        ensures
            copy == *self,
    ;
}

/// Does every row stand under its own keys?
pub open spec fn keyed<V: Keyed>(rows: Rows<V>) -> bool {
    forall|partition: u128, row: u128|
        rows.contains_key(partition) && #[trigger] rows[partition].contains_key(row) ==> {
            &&& rows[partition][row].partition_key() == partition
            &&& rows[partition][row].row_key() == row
        }
}

/// Does every row of one partition stand under its own row key?
pub open spec fn keyed_rows<V: Keyed>(rows: Map<u128, V>) -> bool {
    forall|row: u128| #[trigger] rows.contains_key(row) ==> rows[row].row_key() == row
}

/// Is `items` exactly the rows of `rows` that are `wanted`, each once, in ascending
/// order of the row keys?
pub open spec fn is_selection<V: Keyed>(
    items: Seq<V>,
    rows: Map<u128, V>,
    wanted: spec_fn(V) -> bool,
) -> bool {
    &&& forall|i: int, j: int|
        0 <= i < j < items.len() ==> items[i].row_key() < items[j].row_key()
    &&& forall|i: int|
        0 <= i < items.len() ==> {
            &&& rows.contains_key((#[trigger] items[i]).row_key())
            &&& rows[items[i].row_key()] == items[i]
            &&& wanted(items[i])
        }
    &&& forall|key: u128|
        #[trigger] rows.contains_key(key) && wanted(rows[key]) ==> exists|i: int|
            0 <= i < items.len() && (#[trigger] items[i]).row_key() == key
}

/// Every row is wanted.
pub open spec fn all_rows<V>() -> spec_fn(V) -> bool {
    |row: V| true
}

/// Writing a row under its own keys keeps every row under its own keys.
pub proof fn lemma_stored_keyed<V: Keyed>(rows: Rows<V>, value: V)
    requires
        keyed(rows),
    ensures
        keyed(stored(rows, value.partition_key(), value.row_key(), value)),
{
    let after = stored(rows, value.partition_key(), value.row_key(), value);
    assert forall|partition: u128, row: u128|
        after.contains_key(partition) && #[trigger] after[partition].contains_key(row) implies {
        &&& after[partition][row].partition_key() == partition
        &&& after[partition][row].row_key() == row
    } by {
        if partition != value.partition_key() {
            assert(rows[partition].contains_key(row));
        } else if row != value.row_key() {
            assert(rows_of(rows, partition).contains_key(row));
            assert(rows[partition].contains_key(row));
        }
    }
}

/// Taking a row out keeps every row under its own keys.
pub proof fn lemma_removed_keyed<V: Keyed>(rows: Rows<V>, partition: u128, row: u128)
    requires
        keyed(rows),
    ensures
        keyed(removed(rows, partition, row)),
{
    let after = removed(rows, partition, row);
    assert forall|p: u128, r: u128|
        after.contains_key(p) && #[trigger] after[p].contains_key(r) implies {
        &&& after[p][r].partition_key() == p
        &&& after[p][r].row_key() == r
    } by {
        assert(rows[p].contains_key(r));
    }
}

/// Copies the rows of a listing, in its order.
fn copy_rows<V: Keyed>(pairs: &Vec<(u128, &V)>, Ghost(rows): Ghost<Map<u128, V>>) -> (items: Vec<V>)
    requires
        is_listing(pairs@, rows),
        keyed_rows(rows),
    ensures
        is_selection(items@, rows, all_rows::<V>()),
        items@.len() == pairs@.len(),
{
    let mut items: Vec<V> = Vec::new();
    let mut n: usize = 0;
    while n < pairs.len()
        invariant
            n <= pairs@.len(),
            is_listing(pairs@, rows),
            keyed_rows(rows),
            items@.len() == n,
            forall|i: int| 0 <= i < n ==> #[trigger] items@[i] == *pairs@[i].1,
        decreases pairs@.len() - n,
    {
        items.push(pairs[n].1.duplicate());
        n += 1;
    }
    proof {
        assert forall|i: int| 0 <= i < items@.len() implies (#[trigger] items@[i]).row_key()
            == pairs@[i].0 by {
            assert(rows.contains_key(pairs@[i].0));
        }
        assert forall|key: u128| #[trigger]
            rows.contains_key(key) && all_rows::<V>()(rows[key]) implies exists|i: int|
            0 <= i < items@.len() && (#[trigger] items@[i]).row_key() == key by {
            let i = choose|i: int| 0 <= i < pairs@.len() && #[trigger] pairs@[i].0 == key;
            assert(items@[i].row_key() == key);
        }
    }
    items
}

impl<V: Keyed> Table<V> {
    /// Copies of all rows of one partition, in ascending order of the row keys, if
    /// the partition is there.
    pub fn list(&self, partition: u128) -> (items: Option<Vec<V>>)
        requires
            keyed(self@),
        ensures
            match items {
                Some(found) => self@.contains_key(partition) && is_selection(
                    found@,
                    self@[partition],
                    all_rows::<V>(),
                ),
                None => !self@.contains_key(partition),
            },
    {
        match self.partition(partition) {
            None => None,
            Some(rows) => {
                let pairs = ordered_pairs(rows);
                Some(copy_rows(&pairs, Ghost(rows@)))
            },
        }
    }
}

} // verus!
