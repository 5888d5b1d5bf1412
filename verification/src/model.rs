//! The backing store as contracts see it: tables of rows by key, and what a
//! rename does to them.

use vstd::prelude::*;

verus! {

/// What the backing store holds for one key of a namespace.
pub struct RowModel {
    pub codecs: Seq<u8>,
    pub value: Seq<u8>,
    pub created_at_ms: int,
    pub expires_at_ms: Option<int>,
}

/// A namespace's table as contracts see it: its rows by key. There is one row
/// for a key at most, as every write replaces the row of its key.
pub type TableModel = Map<Seq<char>, RowModel>;

/// A letter of `A` to `Z` as its small letter, and every other character as
/// it is.
pub open spec fn small(c: char) -> char {
    if 65 <= c as u32 <= 90 {
        ((c as u32 + 32) as u32) as char
    } else {
        c
    }
}

/// The place of a namespace's table in the backing store. The backing store
/// does not tell the capital letters `A` to `Z` from the small ones in the
/// names of tables, so that two namespaces that differ in these alone have
/// one table between them.
pub open spec fn slot(namespace: Seq<char>) -> Seq<char> {
    namespace.map_values(|c: char| small(c))
}

/// The backing store as contracts see it: the tables that exist, by the
/// place of their namespace. A namespace that was never written, under any
/// spelling of its letters, has none.
pub type StoreModel = Map<Seq<char>, TableModel>;

/// The answer that the backing store is expected to give to a statement.
pub enum ReplyModel {
    /// The statement ran; it is not one that changes rows, and the count
    /// that comes with its reply says nothing.
    Ran,
    /// The statement ran and changed this many rows.
    Done(nat),
    /// The answer to an existence test.
    Flag(bool),
    /// The keys that a query found: these, each once, in any order.
    Keys(Set<Seq<char>>),
    /// The keys that a query with a pattern found: some of these.
    KeysAmong(Set<Seq<char>>),
    /// The tables that a listing found: a name for each of these places, each
    /// place once.
    Tables(Set<Seq<char>>),
    /// The row that a query for one key found, if any.
    Row(Option<RowModel>),
    /// The rows that a query found, by key.
    Rows(Map<Seq<char>, RowModel>),
    /// The statement names a table that does not exist.
    NoSuchTable,
    /// The statement was refused, and nothing was changed.
    Failed,
}

/// The rows of `rows` written into `table` one after the other, each in place
/// of the row that its key had.
pub open spec fn rows_inserted(table: TableModel, rows: Seq<(Seq<char>, RowModel)>) -> TableModel
    decreases rows.len(),
{
    if rows.len() == 0 {
        table
    } else {
        rows_inserted(table, rows.drop_last()).insert(rows.last().0, rows.last().1)
    }
}

/// The key that a rename gives to the row at `key`: the new name of the first
/// pair whose old name is `key`, and `key` itself where no pair has it.
pub open spec fn renamed_key(pairs: Seq<(Seq<char>, Seq<char>)>, key: Seq<char>) -> Seq<char>
    decreases pairs.len(),
{
    if pairs.len() == 0 {
        key
    } else if pairs[0].0 == key {
        pairs[0].1
    } else {
        renamed_key(pairs.skip(1), key)
    }
}

/// Whether a rename would give two rows of `table` one key.
pub open spec fn rename_collides(table: TableModel, pairs: Seq<(Seq<char>, Seq<char>)>) -> bool {
    exists|a: Seq<char>, b: Seq<char>|
        table.dom().contains(a) && table.dom().contains(b) && a != b && renamed_key(pairs, a)
            == renamed_key(pairs, b)
}

/// The key of `table` whose row a rename moves to `key`.
pub open spec fn rename_source(
    table: TableModel,
    pairs: Seq<(Seq<char>, Seq<char>)>,
    key: Seq<char>,
) -> Seq<char> {
    choose|from: Seq<char>| table.dom().contains(from) && renamed_key(pairs, from) == key
}

/// `table` with every row moved to the key that the rename gives it, all at
/// once: a row may move to a key that another row leaves in the same rename.
/// The statements of a rename set each moved row aside until every row has
/// moved, so that a backing store that moves rows one after the other comes
/// to the same table.
pub open spec fn rows_renamed(table: TableModel, pairs: Seq<(Seq<char>, Seq<char>)>) -> TableModel {
    Map::new(
        |key: Seq<char>|
            exists|from: Seq<char>| table.dom().contains(from) && renamed_key(pairs, from) == key,
        |key: Seq<char>| table[rename_source(table, pairs, key)],
    )
}

/// The old names of the pairs of a rename.
pub open spec fn old_names(pairs: Seq<(Seq<char>, Seq<char>)>) -> Seq<Seq<char>> {
    pairs.map_values(|p: (Seq<char>, Seq<char>)| p.0)
}

/// The new names of the pairs of a rename.
pub open spec fn new_names(pairs: Seq<(Seq<char>, Seq<char>)>) -> Seq<Seq<char>> {
    pairs.map_values(|p: (Seq<char>, Seq<char>)| p.1)
}

} // verus!
