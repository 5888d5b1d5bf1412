//! The text of statements: quoted identifiers, placeholders and the
//! statements themselves.

use vstd::prelude::*;
use vstd::hash_map::StringHashMap;
use crate::text::push_char;

verus! {

broadcast use vstd::string::group_string_axioms;

/// The prefix that the name of every namespace's table begins with.
pub const TABLE_PREFIX: &'static str = "tl_";

/// The suffix that turns a table's name into the name of its key index.
pub const INDEX_SUFFIX: &'static str = "_key";

/// A name with each double quote in it written twice.
pub open spec fn quotes_doubled(name: Seq<char>) -> Seq<char>
    decreases name.len(),
{
    if name.len() == 0 {
        seq![]
    } else if name[0] == '"' {
        seq!['"', '"'] + quotes_doubled(name.skip(1))
    } else {
        seq![name[0]] + quotes_doubled(name.skip(1))
    }
}

/// A name as a quoted SQL identifier: between double quotes, with each double
/// quote of the name written twice.
pub open spec fn quoted(name: Seq<char>) -> Seq<char> {
    seq!['"'] + quotes_doubled(name) + seq!['"']
}

/// How SQL reads the inside of a quoted identifier: two double quotes stand
/// for one, and one alone does not occur.
pub open spec fn quotes_halved(body: Seq<char>) -> Option<Seq<char>>
    decreases body.len(),
{
    if body.len() == 0 {
        Some(seq![])
    } else if body[0] == '"' {
        if body.len() >= 2 && body[1] == '"' {
            match quotes_halved(body.skip(2)) {
                Some(rest) => Some(seq!['"'] + rest),
                None => None,
            }
        } else {
            None
        }
    } else {
        match quotes_halved(body.skip(1)) {
            Some(rest) => Some(seq![body[0]] + rest),
            None => None,
        }
    }
}

/// The name that SQL reads out of a quoted identifier, or `None` where the
/// text is not one quoted identifier.
pub open spec fn unquoted(text: Seq<char>) -> Option<Seq<char>> {
    if text.len() >= 2 && text[0] == '"' && text.last() == '"' {
        quotes_halved(text.subrange(1, text.len() - 1))
    } else {
        None
    }
}

/// Doubling the quotes of a name goes through concatenation.
pub proof fn lemma_quotes_doubled_concat(a: Seq<char>, b: Seq<char>)
    ensures
        quotes_doubled(a + b) == quotes_doubled(a) + quotes_doubled(b),
    decreases a.len(),
{
    if a.len() == 0 {
        assert(a + b =~= b);
        assert(quotes_doubled(a) + quotes_doubled(b) =~= quotes_doubled(b));
    } else {
        lemma_quotes_doubled_concat(a.skip(1), b);
        assert((a + b).skip(1) =~= a.skip(1) + b);
        assert((a + b)[0] == a[0]);
        if a[0] == '"' {
            assert(quotes_doubled(a + b) =~= quotes_doubled(a) + quotes_doubled(b));
        } else {
            assert(quotes_doubled(a + b) =~= quotes_doubled(a) + quotes_doubled(b));
        }
    }
}

/// Safe quoting: SQL reads out of a quoted identifier exactly the name that
/// was quoted, whatever characters the name holds.
pub proof fn lemma_unquoted_quoted(name: Seq<char>)
    ensures
        unquoted(quoted(name)) == Some(name),
{
    lemma_halved_doubled(name);
    let text = quoted(name);
    assert(text.subrange(1, text.len() - 1) =~= quotes_doubled(name));
}

proof fn lemma_halved_doubled(name: Seq<char>)
    ensures
        quotes_halved(quotes_doubled(name)) == Some(name),
    decreases name.len(),
{
    if name.len() > 0 {
        lemma_halved_doubled(name.skip(1));
        let body = quotes_doubled(name);
        if name[0] == '"' {
            assert(body.skip(2) =~= quotes_doubled(name.skip(1)));
            assert(seq!['"'] + name.skip(1) =~= name);
        } else {
            assert(body.skip(1) =~= quotes_doubled(name.skip(1)));
            assert(seq![name[0]] + name.skip(1) =~= name);
        }
    }
}

/// Two names with the same quoted identifier are the same name.
pub proof fn lemma_quoted_injective(a: Seq<char>, b: Seq<char>)
    requires
        quoted(a) == quoted(b),
    ensures
        a == b,
{
    lemma_unquoted_quoted(a);
    lemma_unquoted_quoted(b);
}

/// The name of a namespace's table.
pub open spec fn table_name(namespace: Seq<char>) -> Seq<char> {
    TABLE_PREFIX@ + namespace
}

/// The name of the key index of a namespace's table.
pub open spec fn index_name(namespace: Seq<char>) -> Seq<char> {
    TABLE_PREFIX@ + namespace + INDEX_SUFFIX@
}

/// The quoted identifier of a namespace's table.
pub open spec fn table_identifier(namespace: Seq<char>) -> Seq<char> {
    quoted(table_name(namespace))
}

/// The quoted identifier of the key index of a namespace's table.
pub open spec fn index_identifier(namespace: Seq<char>) -> Seq<char> {
    quoted(index_name(namespace))
}

/// Two namespaces with the same table identifier are the same namespace.
pub proof fn lemma_table_identifier_injective(a: Seq<char>, b: Seq<char>)
    requires
        table_identifier(a) == table_identifier(b),
    ensures
        a == b,
{
    lemma_quoted_injective(table_name(a), table_name(b));
    let n = TABLE_PREFIX@.len() as int;
    assert(table_name(a).skip(n) =~= a);
    assert(table_name(b).skip(n) =~= b);
}

/// Appends `name` to `out` as a quoted identifier.
pub fn push_quoted(out: &mut String, prefix: &str, name: &str, suffix: &str)
    ensures
        final(out)@ == old(out)@ + quoted(prefix@ + name@ + suffix@),
{
    let ghost before = out@;
    push_char(out, '"');
    push_doubled(out, prefix);
    push_doubled(out, name);
    push_doubled(out, suffix);
    push_char(out, '"');
    proof {
        lemma_quotes_doubled_concat(prefix@, name@);
        lemma_quotes_doubled_concat(prefix@ + name@, suffix@);
        assert(out@ =~= before + quoted(prefix@ + name@ + suffix@));
    }
}

fn push_doubled(out: &mut String, name: &str)
    ensures
        final(out)@ == old(out)@ + quotes_doubled(name@),
{
    let ghost before = out@;
    for c in it: name.chars()
        invariant
            it.seq() == name@,
            out@ == before + quotes_doubled(name@.take(it.index() as int)),
    {
        proof {
            let k = it.index() as int;
            assert(name@.take(k + 1) =~= name@.take(k) + seq![c]);
            lemma_quotes_doubled_concat(name@.take(k), seq![c]);
            assert(seq![c].skip(1) =~= Seq::<char>::empty());
            assert(quotes_doubled(seq![c].skip(1)) =~= Seq::<char>::empty());
            assert(quotes_doubled(seq![c]) =~= if c == '"' {
                seq!['"', '"']
            } else {
                seq![c]
            });
        }
        if c == '"' {
            push_char(out, '"');
            push_char(out, '"');
        } else {
            push_char(out, c);
        }
        proof {
            let k = it.index() as int;
            assert(out@ =~= before + quotes_doubled(name@.take(k + 1)));
        }
    }
    proof {
        assert(name@.take(name@.len() as int) =~= name@);
    }
}

/// The quoted identifier of a namespace's table.
pub fn quoted_table(namespace: &str) -> (r: String)
    ensures
        r@ == table_identifier(namespace@),
{
    let mut out = String::new();
    push_quoted(&mut out, TABLE_PREFIX, namespace, "");
    proof {
        reveal_strlit("");
        assert(TABLE_PREFIX@ + namespace@ + ""@ =~= table_name(namespace@));
    }
    out
}

/// The quoted identifier of the key index of a namespace's table.
pub fn quoted_index(namespace: &str) -> (r: String)
    ensures
        r@ == index_identifier(namespace@),
{
    let mut out = String::new();
    push_quoted(&mut out, TABLE_PREFIX, namespace, INDEX_SUFFIX);
    out
}

/// `count` question marks with commas between them.
pub open spec fn placeholders(count: nat) -> Seq<char>
    decreases count,
{
    if count == 0 {
        seq![]
    } else if count == 1 {
        seq!['?']
    } else {
        placeholders((count - 1) as nat) + seq![',', '?']
    }
}

/// Appends `count` placeholders to `out`.
pub fn push_placeholders(out: &mut String, count: usize)
    ensures
        final(out)@ == old(out)@ + placeholders(count as nat),
{
    let ghost before = out@;
    let mut i: usize = 0;
    while i < count
        invariant
            i <= count,
            out@ == before + placeholders(i as nat),
        decreases count - i,
    {
        if i > 0 {
            push_char(out, ',');
        }
        push_char(out, '?');
        i += 1;
        proof {
            assert(out@ =~= before + placeholders(i as nat));
        }
    }
}

} // verus!

verus! {

pub const CREATE_TABLE_HEAD: &'static str = "CREATE TABLE IF NOT EXISTS ";

pub const CREATE_TABLE_TAIL: &'static str =
    " (key TEXT NOT NULL, version INTEGER NOT NULL DEFAULT 0, codecs BLOB NOT NULL, value BLOB NOT NULL, created_at_ms INTEGER NOT NULL, expires_at_ms INTEGER, PRIMARY KEY (key, version))";

pub const CREATE_INDEX_HEAD: &'static str = "CREATE INDEX IF NOT EXISTS ";

pub const CREATE_INDEX_ON: &'static str = " ON ";

pub const CREATE_INDEX_TAIL: &'static str = " (key)";

pub const INSERT_HEAD: &'static str = "INSERT OR REPLACE INTO ";

pub const INSERT_COLUMNS: &'static str =
    " (key, codecs, value, created_at_ms, expires_at_ms) VALUES ";

pub const INSERT_ROW: &'static str = "(?, ?, ?, ?, ?)";

pub const ROW_SEPARATOR: &'static str = ", ";

pub const GET_HEAD: &'static str = "SELECT value, codecs, expires_at_ms FROM ";

pub const ONE_KEY_TAIL: &'static str = " WHERE key = ? LIMIT 1";

pub const HAS_HEAD: &'static str = "SELECT EXISTS(SELECT 1 FROM ";

pub const HAS_TAIL: &'static str = " WHERE key = ? LIMIT 1)";

pub const SELECT_KEYS_HEAD: &'static str = "SELECT key FROM ";

pub const SELECT_ROWS_HEAD: &'static str = "SELECT key, value, codecs, expires_at_ms FROM ";

pub const DELETE_HEAD: &'static str = "DELETE FROM ";

pub const KEY_IN: &'static str = " WHERE key IN (";

pub const CLOSE_PAREN: &'static str = ")";

pub const KEY_LIKE: &'static str = " WHERE key LIKE ?";

pub const LIST_TABLES: &'static str =
    "SELECT name FROM sqlite_master WHERE type = 'table' AND name LIKE 'tl\\_%' ESCAPE '\\'";

pub const UPDATE_HEAD: &'static str = "UPDATE ";

pub const RENAME_CASE: &'static str = " SET key = CASE key";

pub const RENAME_WHEN: &'static str = " WHEN ? THEN ?";

pub const RENAME_ELSE: &'static str = " ELSE key END";

pub const RENAME_STAGED: &'static str = ", version = 1 WHERE version = 0 AND key IN (";

pub const SETTLE_TAIL: &'static str = " SET version = 0 WHERE version = 1";

/// `count` times the text `piece`, with `separator` between two of them.
pub open spec fn repeated(piece: Seq<char>, separator: Seq<char>, count: nat) -> Seq<char>
    decreases count,
{
    if count == 0 {
        seq![]
    } else if count == 1 {
        piece
    } else {
        repeated(piece, separator, (count - 1) as nat) + separator + piece
    }
}

/// Appends `piece` to `out` `count` times, with `separator` between two of
/// them.
pub fn push_repeated(out: &mut String, piece: &str, separator: &str, count: usize)
    ensures
        final(out)@ == old(out)@ + repeated(piece@, separator@, count as nat),
{
    let ghost before = out@;
    let mut i: usize = 0;
    while i < count
        invariant
            i <= count,
            out@ == before + repeated(piece@, separator@, i as nat),
        decreases count - i,
    {
        if i > 0 {
            out.append(separator);
        }
        out.append(piece);
        i += 1;
        proof {
            assert(out@ =~= before + repeated(piece@, separator@, i as nat));
        }
    }
}

/// The text that creates the table of a namespace.
pub open spec fn create_table_sql(namespace: Seq<char>) -> Seq<char> {
    CREATE_TABLE_HEAD@ + table_identifier(namespace) + CREATE_TABLE_TAIL@
}

/// The text that creates the key index of a namespace's table.
pub open spec fn create_index_sql(namespace: Seq<char>) -> Seq<char> {
    CREATE_INDEX_HEAD@ + index_identifier(namespace) + CREATE_INDEX_ON@ + table_identifier(
        namespace,
    ) + CREATE_INDEX_TAIL@
}

/// The text that writes `rows` rows.
pub open spec fn insert_sql(namespace: Seq<char>, rows: nat) -> Seq<char> {
    INSERT_HEAD@ + table_identifier(namespace) + INSERT_COLUMNS@ + repeated(
        INSERT_ROW@,
        ROW_SEPARATOR@,
        rows,
    )
}

/// The text that reads the row of one key.
pub open spec fn get_sql(namespace: Seq<char>) -> Seq<char> {
    GET_HEAD@ + table_identifier(namespace) + ONE_KEY_TAIL@
}

/// The text that asks whether one key has a row.
pub open spec fn has_sql(namespace: Seq<char>) -> Seq<char> {
    HAS_HEAD@ + table_identifier(namespace) + HAS_TAIL@
}

/// A statement's beginning followed by a table and a test of the key against
/// `keys` placeholders.
pub open spec fn keyed_sql(head: Seq<char>, namespace: Seq<char>, keys: nat) -> Seq<char> {
    head + table_identifier(namespace) + KEY_IN@ + placeholders(keys) + CLOSE_PAREN@
}

/// The text that lists keys, all or by pattern.
pub open spec fn list_keys_sql(namespace: Seq<char>, with_pattern: bool) -> Seq<char> {
    if with_pattern {
        SELECT_KEYS_HEAD@ + table_identifier(namespace) + KEY_LIKE@
    } else {
        SELECT_KEYS_HEAD@ + table_identifier(namespace)
    }
}

/// The text that renames a run of `pairs` keys: each row whose key is an
/// old name gets the new name that stands beside it, and is set aside under
/// version 1, where it is in the way of no row that is still to move.
pub open spec fn stage_sql(namespace: Seq<char>, pairs: nat) -> Seq<char> {
    UPDATE_HEAD@ + table_identifier(namespace) + RENAME_CASE@ + repeated(
        RENAME_WHEN@,
        Seq::<char>::empty(),
        pairs,
    ) + RENAME_ELSE@ + RENAME_STAGED@ + placeholders(pairs) + CLOSE_PAREN@
}

/// The text that ends a rename: the rows that were set aside come back under
/// version 0, each at its new key.
pub open spec fn settle_sql(namespace: Seq<char>) -> Seq<char> {
    UPDATE_HEAD@ + table_identifier(namespace) + SETTLE_TAIL@
}

/// The quoted identifiers of a namespace's table and of its key index.
#[derive(Debug, Clone, PartialEq, Eq)]
pub struct QuotedNames {
    pub table: String,
    pub index: String,
}

impl QuotedNames {
    /// Whether these are the identifiers of `namespace`.
    pub open spec fn of(&self, namespace: Seq<char>) -> bool {
        self.table@ == table_identifier(namespace) && self.index@ == index_identifier(namespace)
    }
}

/// The quoted identifiers of a namespace, made anew.
pub fn quoted_names(namespace: &str) -> (r: QuotedNames)
    ensures
        r.of(namespace@),
{
    QuotedNames { table: quoted_table(namespace), index: quoted_index(namespace) }
}

/// The quoted identifiers of the namespaces that were asked for, kept so
/// that they are put together once.
pub struct IdentifierCache {
    names: StringHashMap<QuotedNames>,
}

impl IdentifierCache {
    /// Whether each entry holds the identifiers of its namespace.
    pub closed spec fn wf(&self) -> bool {
        forall|namespace: Seq<char>| #[trigger]
            self.names@.dom().contains(namespace) ==> self.names@[namespace].of(namespace)
    }

    /// The namespaces whose identifiers are kept.
    pub closed spec fn cached(&self) -> Set<Seq<char>> {
        self.names@.dom()
    }

    /// A cache that holds nothing yet.
    pub fn new() -> (r: Self)
        ensures
            r.wf(),
            r.cached() == Set::<Seq<char>>::empty(),
    {
        IdentifierCache { names: StringHashMap::new() }
    }

    /// The quoted identifiers of a namespace: those that are kept, or new
    /// ones, which are kept from now on.
    pub fn lookup(&mut self, namespace: &str) -> (r: QuotedNames)
        requires
            old(self).wf(),
        ensures
            final(self).wf(),
            r.of(namespace@),
            final(self).cached() == old(self).cached().insert(namespace@),
    {
        match self.names.get(namespace) {
            Some(kept) => {
                let r = QuotedNames { table: kept.table.clone(), index: kept.index.clone() };
                proof {
                    assert(self.cached().insert(namespace@) =~= self.cached());
                }
                r
            },
            None => {
                let made = quoted_names(namespace);
                let r = QuotedNames { table: made.table.clone(), index: made.index.clone() };
                self.names.insert(namespace.to_owned(), made);
                r
            },
        }
    }

    /// Forgets every identifier.
    pub fn clear(&mut self)
        ensures
            final(self).wf(),
            final(self).cached() == Set::<Seq<char>>::empty(),
    {
        self.names.clear();
    }
}

/// A new string that holds `head` followed by `identifier`.
pub fn head_and(head: &str, identifier: &str) -> (r: String)
    ensures
        r@ == head@ + identifier@,
{
    let mut out = String::from_str(head);
    out.append(identifier);
    out
}

/// The text of a statement that tests the key against `keys` placeholders,
/// with the table's identifier as it is given.
pub fn keyed_statement(head: &str, table: &str, keys: usize) -> (r: String)
    ensures
        r@ == head@ + table@ + KEY_IN@ + placeholders(keys as nat) + CLOSE_PAREN@,
{
    let mut out = head_and(head, table);
    out.append(KEY_IN);
    push_placeholders(&mut out, keys);
    out.append(CLOSE_PAREN);
    proof {
        assert(out@ =~= head@ + table@ + KEY_IN@ + placeholders(keys as nat) + CLOSE_PAREN@);
    }
    out
}

} // verus!
