//! Database addresses, diagnostics, and the restore of a snapshot.

use vstd::prelude::*;

use crate::error::{invalid, IntegrityReport, StateError};
use crate::text::{
    chars_of, concat, contains, has_part, has_prefix, starts_with, text_eq, text_of, texts,
};

pub mod restore;

verus! {

/// Most connections of a database in a file.
pub const DEFAULT_MAX_CONNECTIONS: u32 = 8;

/// Whether an address names a database in memory.
pub open spec fn memory_address(database_url: Seq<char>) -> bool {
    ||| database_url == "sqlite::memory:"@
    ||| has_part(database_url, "mode=memory"@)
    ||| has_part(database_url, ":memory:"@)
}

/// Whether an address names a database in memory.
pub fn is_memory_database(database_url: &str) -> (r: bool)
    ensures
        r == memory_address(database_url@),
{
    text_eq(database_url, "sqlite::memory:") || contains(database_url, "mode=memory") || contains(
        database_url,
        ":memory:",
    )
}

/// Fewest and most connections of a database.
pub struct PoolLimits {
    pub min_connections: u32,
    pub max_connections: u32,
}

/// Fewest and most connections of a database: a database in memory lives in
/// its one connection.
pub fn pool_limits(database_url: &str) -> (r: PoolLimits)
    ensures
        memory_address(database_url@) ==> r.min_connections == 1 && r.max_connections == 1,
        !memory_address(database_url@) ==> r.min_connections == 0 && r.max_connections
            == DEFAULT_MAX_CONNECTIONS,
{
    if is_memory_database(database_url) {
        PoolLimits { min_connections: 1, max_connections: 1 }
    } else {
        PoolLimits { min_connections: 0, max_connections: DEFAULT_MAX_CONNECTIONS }
    }
}

/// A text up to a character, or whole where the character does not occur.
pub open spec fn before_char(text: Seq<char>, c: char) -> Seq<char>
    decreases text.len(),
{
    if text.len() == 0 || text[0] == c {
        Seq::empty()
    } else {
        seq![text[0]] + before_char(text.skip(1), c)
    }
}

/// The part of a text before a position is the part before a character, if the
/// character stands there first.
proof fn lemma_before_char(text: Seq<char>, c: char, n: int)
    requires
        0 <= n <= text.len(),
        forall|i: int| 0 <= i < n ==> #[trigger] text[i] != c,
        n < text.len() ==> text[n] == c,
    ensures
        before_char(text, c) == text.take(n),
    decreases text.len(),
{
    if n > 0 {
        lemma_before_char(text.skip(1), c, n - 1);
        assert(seq![text[0]] + text.skip(1).take(n - 1) =~= text.take(n));
    } else {
        assert(text.take(0) =~= Seq::empty());
    }
}

/// The file that a database address names, if it names one.
pub open spec fn file_of_address(database_url: Seq<char>) -> Option<Seq<char>> {
    if !has_prefix(database_url, "sqlite://"@) {
        None
    } else {
        let path = before_char(database_url.skip("sqlite://"@.len() as int), '?');
        if path.len() == 0 || path == ":memory:"@ || has_prefix(path, "file:"@) {
            None
        } else {
            Some(path)
        }
    }
}

/// The file that a database address names, if it names one.
pub fn sqlite_file_path(database_url: &str) -> (r: Option<String>)
    ensures
        match file_of_address(database_url@) {
            Some(path) => r matches Some(text) && text@ == path,
            None => r is None,
        },
{
    if !starts_with(database_url, "sqlite://") {
        return None;
    }
    proof {
        reveal_strlit("sqlite://");
    }
    let chars = chars_of(database_url);
    let from: usize = 9;
    let mut to: usize = from;
    let ghost rest = database_url@.skip(9);
    while to < chars.len() && chars[to] != '?'
        invariant
            from == 9,
            from <= to <= chars@.len(),
            chars@ == database_url@,
            rest == database_url@.skip(9),
            forall|i: int| 0 <= i < to - from ==> #[trigger] rest[i] != '?',
        decreases chars@.len() - to,
    {
        assert(rest[to - from] == chars@[to as int]);
        to += 1;
    }
    proof {
        if to < chars@.len() {
            assert(rest[to - from] == chars@[to as int]);
        }
        lemma_before_char(rest, '?', to - from);
    }
    let path = text_of(chars.as_slice(), from, to);
    assert(path@ =~= rest.take(to - from));
    if path.as_str().is_empty() || text_eq(path.as_str(), ":memory:") || starts_with(
        path.as_str(),
        "file:",
    ) {
        return None;
    }
    Some(path)
}

/// An identifier with every quotation mark doubled.
pub open spec fn doubled(name: Seq<char>) -> Seq<char>
    decreases name.len(),
{
    if name.len() == 0 {
        Seq::empty()
    } else if name.last() == '"' {
        doubled(name.drop_last()).push('"').push('"')
    } else {
        doubled(name.drop_last()).push(name.last())
    }
}

/// An identifier in quotation marks.
pub open spec fn quoted(name: Seq<char>) -> Seq<char> {
    seq!['"'] + doubled(name) + seq!['"']
}

/// An identifier in quotation marks.
pub fn quote_identifier(value: &str) -> (r: String)
    ensures
        r@ == quoted(value@),
{
    let chars = chars_of(value);
    let mut out = String::new();
    out.push('"');
    let mut i: usize = 0;
    assert(chars@.take(0) =~= Seq::empty());
    assert(out@ =~= seq!['"'] + doubled(chars@.take(0)));
    while i < chars.len()
        invariant
            i <= chars@.len(),
            out@ == seq!['"'] + doubled(chars@.take(i as int)),
        decreases chars@.len() - i,
    {
        let c = chars[i];
        let ghost before = out@;
        proof {
            assert(chars@.take(i + 1).drop_last() =~= chars@.take(i as int));
            assert(chars@.take(i + 1).last() == c);
        }
        if c == '"' {
            out.push('"');
        }
        out.push(c);
        i += 1;
        assert(out@ =~= seq!['"'] + doubled(chars@.take(i as int)));
    }
    assert(chars@.take(i as int) =~= value@);
    out.push('"');
    assert(out@ =~= quoted(value@));
    out
}

/// An object of a database schema.
#[derive(Clone, Debug, PartialEq, Eq)]
pub struct SchemaObject {
    /// table, index, trigger, or view.
    pub object_type: String,
    pub name: String,
    /// Statement that creates the object.
    pub sql: String,
}

impl SchemaObject {
    /// Whether the object is a virtual table.
    pub open spec fn virtual_table(self) -> bool {
        has_part(self.sql@, "VIRTUAL TABLE"@)
    }

    /// Whether the object is a table.
    pub open spec fn table(self) -> bool {
        self.object_type@ == "table"@
    }

    /// Whether the object belongs to a virtual table: it is named after it.
    pub open spec fn shadow_of(self, other: SchemaObject) -> bool {
        other.virtual_table() && has_prefix(self.name@, other.name@ + "_"@)
    }

    /// Statement that drops the object, where its kind can be dropped.
    pub open spec fn drop_statement(self) -> Option<Seq<char>> {
        if self.object_type@ == "table"@ {
            Some("DROP TABLE IF EXISTS main."@ + quoted(self.name@))
        } else if self.object_type@ == "index"@ {
            Some("DROP INDEX IF EXISTS main."@ + quoted(self.name@))
        } else if self.object_type@ == "trigger"@ {
            Some("DROP TRIGGER IF EXISTS main."@ + quoted(self.name@))
        } else if self.object_type@ == "view"@ {
            Some("DROP VIEW IF EXISTS main."@ + quoted(self.name@))
        } else {
            None
        }
    }

    /// Statement that copies the rows of the object from the snapshot.
    pub open spec fn copy_statement(self) -> Seq<char> {
        "INSERT INTO main."@ + quoted(self.name@) + " SELECT * FROM restored."@ + quoted(self.name@)
    }

    /// Whether the object is a virtual table.
    pub fn is_virtual(&self) -> (r: bool)
        ensures
            r == self.virtual_table(),
    {
        contains(self.sql.as_str(), "VIRTUAL TABLE")
    }

    /// Whether the object is a table.
    pub fn is_table(&self) -> (r: bool)
        ensures
            r == self.table(),
    {
        text_eq(self.object_type.as_str(), "table")
    }

    /// Whether the object belongs to a virtual table.
    pub fn is_shadow_of(&self, other: &SchemaObject) -> (r: bool)
        ensures
            r == self.shadow_of(*other),
    {
        let stem = concat(other.name.as_str(), "_");
        other.is_virtual() && starts_with(self.name.as_str(), stem.as_str())
    }

    /// Statement that drops the object, where its kind can be dropped.
    pub fn drop_sql(&self) -> (r: Option<String>)
        ensures
            match self.drop_statement() {
                Some(statement) => r matches Some(text) && text@ == statement,
                None => r is None,
            },
    {
        let kind = self.object_type.as_str();
        let head = if text_eq(kind, "table") {
            "DROP TABLE IF EXISTS main."
        } else if text_eq(kind, "index") {
            "DROP INDEX IF EXISTS main."
        } else if text_eq(kind, "trigger") {
            "DROP TRIGGER IF EXISTS main."
        } else if text_eq(kind, "view") {
            "DROP VIEW IF EXISTS main."
        } else {
            return None;
        };
        let name = quote_identifier(self.name.as_str());
        Some(concat(head, name.as_str()))
    }

    /// Statement that copies the rows of the object from the snapshot.
    pub fn copy_sql(&self) -> (r: String)
        ensures
            r@ == self.copy_statement(),
    {
        let name = quote_identifier(self.name.as_str());
        let mut out = String::new();
        out.push_str("INSERT INTO main.");
        out.push_str(name.as_str());
        out.push_str(" SELECT * FROM restored.");
        out.push_str(name.as_str());
        assert(out@ =~= self.copy_statement());
        out
    }
}

/// Whether an object belongs to a virtual table among the objects.
pub open spec fn shadow(objects: Seq<SchemaObject>, object: SchemaObject) -> bool {
    exists|k: int| 0 <= k < objects.len() && object.shadow_of(#[trigger] objects[k])
}

/// Objects that stand for themselves: dropping or creating a virtual table
/// takes care of what belongs to it.
pub open spec fn own_objects(objects: Seq<SchemaObject>) -> Seq<SchemaObject> {
    objects.filter(|object: SchemaObject| !shadow(objects, object))
}

/// Whether an object belongs to a virtual table among the objects.
fn is_shadow(objects: &[SchemaObject], object: &SchemaObject) -> (r: bool)
    ensures
        r == shadow(objects@, *object),
{
    let mut k: usize = 0;
    while k < objects.len()
        invariant
            k <= objects@.len(),
            forall|m: int| 0 <= m < k ==> !object.shadow_of(#[trigger] objects@[m]),
        decreases objects@.len() - k,
    {
        if object.is_shadow_of(&objects[k]) {
            return true;
        }
        k += 1;
    }
    false
}

/// Positions of the objects that stand for themselves.
fn own_positions(objects: &[SchemaObject]) -> (r: Vec<usize>)
    ensures
        forall|k: int| 0 <= k < r@.len() ==> (#[trigger] r@[k]) < objects@.len(),
        Seq::new(r@.len(), |k: int| objects@[r@[k] as int]) == own_objects(objects@),
{
    let ghost rule = |object: SchemaObject| !shadow(objects@, object);
    let mut picked: Vec<usize> = Vec::new();
    let mut i: usize = 0;
    proof {
        reveal(Seq::filter);
        assert(objects@.take(0) =~= Seq::empty());
        assert(Seq::new(picked@.len(), |k: int| objects@[picked@[k] as int]) =~= Seq::empty());
    }
    while i < objects.len()
        invariant
            i <= objects@.len(),
            rule == (|object: SchemaObject| !shadow(objects@, object)),
            forall|k: int| 0 <= k < picked@.len() ==> (#[trigger] picked@[k]) < objects@.len(),
            Seq::new(picked@.len(), |k: int| objects@[picked@[k] as int]) == objects@.take(
                i as int,
            ).filter(rule),
        decreases objects@.len() - i,
    {
        proof {
            reveal(Seq::filter);
            assert(objects@.take(i + 1).drop_last() =~= objects@.take(i as int));
            assert(objects@.take(i + 1).last() == objects@[i as int]);
        }
        let ghost before = Seq::new(picked@.len(), |k: int| objects@[picked@[k] as int]);
        if !is_shadow(objects, &objects[i]) {
            picked.push(i);
            assert(Seq::new(picked@.len(), |k: int| objects@[picked@[k] as int]) =~= before.push(
                objects@[i as int],
            ));
        }
        i += 1;
    }
    assert(objects@.take(i as int) =~= objects@);
    picked
}

/// Statements that drop the objects that are tables, or those that are not, in
/// order. Objects of other kinds are passed over.
pub open spec fn drops(objects: Seq<SchemaObject>, tables: bool) -> Seq<Seq<char>>
    decreases objects.len(),
{
    if objects.len() == 0 {
        Seq::empty()
    } else {
        let before = drops(objects.drop_last(), tables);
        if objects.last().table() == tables && objects.last().drop_statement() is Some {
            before.push(objects.last().drop_statement()->0)
        } else {
            before
        }
    }
}

/// Statements that create the objects that are tables, or those that are not,
/// in order.
pub open spec fn creations(objects: Seq<SchemaObject>, tables: bool) -> Seq<Seq<char>>
    decreases objects.len(),
{
    if objects.len() == 0 {
        Seq::empty()
    } else {
        let before = creations(objects.drop_last(), tables);
        if objects.last().table() == tables {
            before.push(objects.last().sql@)
        } else {
            before
        }
    }
}

/// Statements that copy the rows of the tables, in order.
pub open spec fn copies(objects: Seq<SchemaObject>) -> Seq<Seq<char>>
    decreases objects.len(),
{
    if objects.len() == 0 {
        Seq::empty()
    } else {
        let before = copies(objects.drop_last());
        if objects.last().table() {
            before.push(objects.last().copy_statement())
        } else {
            before
        }
    }
}

/// Statements that replace a live schema and its rows by those of a snapshot.
/// Everything live is dropped first, tables last, so that nothing of a newer
/// schema is retained. Tables are created and filled before what depends on
/// them is created.
pub open spec fn restore_statements(snapshot: Seq<SchemaObject>, live: Seq<SchemaObject>) -> Seq<
    Seq<char>,
> {
    let old = own_objects(live);
    let new = own_objects(snapshot);
    drops(old, false) + drops(old, true) + creations(new, true) + copies(new) + creations(
        new,
        false,
    )
}

/// What to write for an object.
#[derive(Clone, Copy, Debug, PartialEq, Eq, Structural)]
pub enum Step {
    Drop,
    Create,
    Copy,
}

/// Statements of one step.
spec fn step_statements(objects: Seq<SchemaObject>, step: Step, tables: bool) -> Seq<Seq<char>> {
    match step {
        Step::Drop => drops(objects, tables),
        Step::Create => creations(objects, tables),
        Step::Copy => copies(objects),
    }
}

/// Appends the statements of one step.
fn write_step(
    script: &mut Vec<String>,
    objects: &[SchemaObject],
    own: &[usize],
    step: Step,
    tables: bool,
)
    requires
        forall|k: int| 0 <= k < own@.len() ==> (#[trigger] own@[k]) < objects@.len(),
        step == Step::Copy ==> tables,
    ensures
        texts(final(script)@) == texts(old(script)@) + step_statements(
            Seq::new(own@.len(), |k: int| objects@[own@[k] as int]),
            step,
            tables,
        ),
{
    let ghost all = Seq::new(own@.len(), |k: int| objects@[own@[k] as int]);
    let ghost start = texts(script@);
    let mut i: usize = 0;
    assert(all.take(0) =~= Seq::empty());
    assert(texts(script@) =~= start + step_statements(all.take(0), step, tables));
    while i < own.len()
        invariant
            i <= own@.len(),
            forall|k: int| 0 <= k < own@.len() ==> (#[trigger] own@[k]) < objects@.len(),
            step == Step::Copy ==> tables,
            all == Seq::new(own@.len(), |k: int| objects@[own@[k] as int]),
            texts(script@) == start + step_statements(all.take(i as int), step, tables),
        decreases own@.len() - i,
    {
        let object = &objects[own[i]];
        let ghost before = texts(script@);
        proof {
            assert(all.take(i + 1).drop_last() =~= all.take(i as int));
            assert(all.take(i + 1).last() == *object);
        }
        if object.is_table() == tables {
            let statement = match step {
                Step::Drop => object.drop_sql(),
                Step::Create => Some(object.sql.clone()),
                Step::Copy => Some(object.copy_sql()),
            };
            match statement {
                Some(statement) => {
                    script.push(statement);
                    assert(texts(script@) =~= before.push(statement@));
                },
                None => {},
            }
        }
        i += 1;
        assert(texts(script@) =~= start + step_statements(all.take(i as int), step, tables));
    }
    assert(all.take(i as int) =~= all);
}

/// The statements that restore a snapshot, in the order in which they are
/// executed. `snapshot` lists its objects with tables first and then by name.
pub fn restore_from_snapshot(snapshot: &[SchemaObject], live: &[SchemaObject]) -> (r: Vec<String>)
    ensures
        texts(r@) == restore_statements(snapshot@, live@),
{
    let old = own_positions(live);
    let new = own_positions(snapshot);
    let mut script: Vec<String> = Vec::new();
    assert(texts(script@) =~= Seq::empty());
    write_step(&mut script, live, old.as_slice(), Step::Drop, false);
    write_step(&mut script, live, old.as_slice(), Step::Drop, true);
    write_step(&mut script, snapshot, new.as_slice(), Step::Create, true);
    write_step(&mut script, snapshot, new.as_slice(), Step::Copy, true);
    write_step(&mut script, snapshot, new.as_slice(), Step::Create, false);
    assert(texts(script@) =~= restore_statements(snapshot@, live@));
    script
}

/// A dropped object's statement is among the drops.
proof fn lemma_drops(objects: Seq<SchemaObject>, i: int)
    requires
        0 <= i < objects.len(),
        objects[i].drop_statement() is Some,
    ensures
        drops(objects, objects[i].table()).contains(objects[i].drop_statement()->0),
    decreases objects.len(),
{
    let tables = objects[i].table();
    let all = drops(objects, tables);
    if i == objects.len() - 1 {
        assert(all.last() == objects[i].drop_statement()->0);
    } else {
        lemma_drops(objects.drop_last(), i);
        let shorter = drops(objects.drop_last(), tables);
        let k = choose|k: int|
            0 <= k < shorter.len() && shorter[k] == objects[i].drop_statement()->0;
        assert(all[k] == shorter[k]);
    }
}

/// A created object's statement is among the creations.
proof fn lemma_creations(objects: Seq<SchemaObject>, i: int)
    requires
        0 <= i < objects.len(),
    ensures
        creations(objects, objects[i].table()).contains(objects[i].sql@),
        objects[i].table() ==> copies(objects).contains(objects[i].copy_statement()),
    decreases objects.len(),
{
    let tables = objects[i].table();
    let all = creations(objects, tables);
    if i == objects.len() - 1 {
        assert(all.last() == objects[i].sql@);
        if tables {
            assert(copies(objects).last() == objects[i].copy_statement());
        }
    } else {
        lemma_creations(objects.drop_last(), i);
        let shorter = creations(objects.drop_last(), tables);
        let k = choose|k: int| 0 <= k < shorter.len() && shorter[k] == objects[i].sql@;
        assert(all[k] == shorter[k]);
        if tables {
            let fewer = copies(objects.drop_last());
            let m = choose|m: int|
                0 <= m < fewer.len() && fewer[m] == objects[i].copy_statement();
            assert(copies(objects)[m] == fewer[m]);
        }
    }
}

/// A statement of a part is one of the whole.
proof fn lemma_part(a: Seq<Seq<char>>, b: Seq<Seq<char>>, c: Seq<Seq<char>>, statement: Seq<char>)
    requires
        b.contains(statement),
    ensures
        (a + b + c).contains(statement),
{
    let k = choose|k: int| 0 <= k < b.len() && b[k] == statement;
    assert((a + b + c)[a.len() + k] == statement);
}

/// A restore is a replacement, no merge: every live object that stands for
/// itself is dropped, whether the snapshot knows it or not.
pub proof fn law_restore_drops_live_objects(
    snapshot: Seq<SchemaObject>,
    live: Seq<SchemaObject>,
    i: int,
)
    requires
        0 <= i < own_objects(live).len(),
        own_objects(live)[i].drop_statement() is Some,
    ensures
        restore_statements(snapshot, live).contains(own_objects(live)[i].drop_statement()->0),
{
    let old = own_objects(live);
    let new = own_objects(snapshot);
    lemma_drops(old, i);
    let statement = old[i].drop_statement()->0;
    let tail = creations(new, true) + copies(new) + creations(new, false);
    if old[i].table() {
        lemma_part(drops(old, false), drops(old, true), tail, statement);
    } else {
        lemma_part(Seq::empty(), drops(old, false), drops(old, true) + tail, statement);
        assert(Seq::<Seq<char>>::empty() + drops(old, false) + (drops(old, true) + tail) =~= drops(
            old,
            false,
        ) + drops(old, true) + tail);
    }
    assert(drops(old, false) + drops(old, true) + tail =~= restore_statements(snapshot, live));
}

/// A restore brings back every object of the snapshot that stands for itself,
/// and the rows of every table.
pub proof fn law_restore_creates_snapshot_objects(
    snapshot: Seq<SchemaObject>,
    live: Seq<SchemaObject>,
    i: int,
)
    requires
        0 <= i < own_objects(snapshot).len(),
    ensures
        restore_statements(snapshot, live).contains(own_objects(snapshot)[i].sql@),
        own_objects(snapshot)[i].table() ==> restore_statements(snapshot, live).contains(
            own_objects(snapshot)[i].copy_statement(),
        ),
{
    let old = own_objects(live);
    let new = own_objects(snapshot);
    lemma_creations(new, i);
    let head = drops(old, false) + drops(old, true);
    let all = restore_statements(snapshot, live);
    if new[i].table() {
        lemma_part(head, creations(new, true), copies(new) + creations(new, false), new[i].sql@);
        assert(head + creations(new, true) + (copies(new) + creations(new, false)) =~= all);
        lemma_part(
            head + creations(new, true),
            copies(new),
            creations(new, false),
            new[i].copy_statement(),
        );
        assert(head + creations(new, true) + copies(new) + creations(new, false) =~= all);
    } else {
        lemma_part(
            head + creations(new, true) + copies(new),
            creations(new, false),
            Seq::empty(),
            new[i].sql@,
        );
        assert(head + creations(new, true) + copies(new) + creations(new, false)
            + Seq::<Seq<char>>::empty() =~= all);
    }
}

/// Checks where a snapshot is to go. `path` is the destination's text, where
/// it is valid UTF-8.
pub fn snapshot_destination(absolute: bool, exists: bool, path: Option<String>) -> (r: Result<
    String,
    StateError,
>)
    ensures
        r == (if !absolute {
            invalid("SQLite snapshot destination must be absolute")
        } else if exists {
            invalid("SQLite snapshot destination already exists")
        } else {
            match path {
                Some(path) => Ok::<String, StateError>(path),
                None => invalid("SQLite snapshot path is not UTF-8"),
            }
        }),
{
    if !absolute {
        return Err(StateError::InvalidInput("SQLite snapshot destination must be absolute"));
    }
    if exists {
        return Err(StateError::InvalidInput("SQLite snapshot destination already exists"));
    }
    match path {
        Some(path) => Ok(path),
        None => Err(StateError::InvalidInput("SQLite snapshot path is not UTF-8")),
    }
}

/// Checks what a restore reads from. `file` tells whether it is a regular file,
/// and `path` is its text, where it is valid UTF-8.
pub fn restore_source(absolute: bool, file: bool, path: Option<String>) -> (r: Result<
    String,
    StateError,
>)
    ensures
        r == (if !absolute {
            invalid("SQLite restore snapshot must be absolute")
        } else if !file {
            invalid("SQLite restore snapshot is not a file")
        } else {
            match path {
                Some(path) => Ok::<String, StateError>(path),
                None => invalid("SQLite restore path is not UTF-8"),
            }
        }),
{
    if !absolute {
        return Err(StateError::InvalidInput("SQLite restore snapshot must be absolute"));
    }
    if !file {
        return Err(StateError::InvalidInput("SQLite restore snapshot is not a file"));
    }
    match path {
        Some(path) => Ok(path),
        None => Err(StateError::InvalidInput("SQLite restore path is not UTF-8")),
    }
}

/// One row of the migration ledger.
#[derive(Clone, Copy, PartialEq, Eq, Structural)]
pub struct MigrationEntry {
    pub version: i64,
    pub success: bool,
}

/// The latest version that was applied with success; zero where none was.
pub open spec fn latest_version(ledger: Seq<MigrationEntry>) -> Option<i64>
    decreases ledger.len(),
{
    if ledger.len() == 0 {
        None
    } else {
        let before = latest_version(ledger.drop_last());
        let last = ledger.last();
        if last.success && (before is None || last.version > before->0) {
            Some(last.version)
        } else {
            before
        }
    }
}

/// The version of a database's schema. `None` stands for a database without a
/// migration ledger.
pub fn migration_version(ledger: Option<&[MigrationEntry]>) -> (r: i64)
    ensures
        r == (match ledger {
            Some(ledger) => match latest_version(ledger@) {
                Some(version) => version,
                None => 0,
            },
            None => 0,
        }),
{
    let rows = match ledger {
        Some(rows) => rows,
        None => return 0,
    };
    let mut latest: Option<i64> = None;
    let mut i: usize = 0;
    assert(rows@.take(0) =~= Seq::empty());
    while i < rows.len()
        invariant
            i <= rows@.len(),
            latest == latest_version(rows@.take(i as int)),
        decreases rows@.len() - i,
    {
        proof {
            assert(rows@.take(i + 1).drop_last() =~= rows@.take(i as int));
            assert(rows@.take(i + 1).last() == rows@[i as int]);
        }
        let row = rows[i];
        if row.success {
            latest = match latest {
                Some(version) => if row.version > version {
                    Some(row.version)
                } else {
                    Some(version)
                },
                None => Some(row.version),
            };
        }
        i += 1;
    }
    assert(rows@.take(i as int) =~= rows@);
    match latest {
        Some(version) => version,
        None => 0,
    }
}

/// What an integrity check found.
pub fn integrity_check(integrity: &str, foreign_key_violations: u64, migration_version: i64) -> (r: IntegrityReport)
    ensures
        r == (IntegrityReport {
            integrity_ok: integrity@ == "ok"@,
            foreign_key_violations,
            migration_version,
        }),
{
    IntegrityReport {
        integrity_ok: text_eq(integrity, "ok"),
        foreign_key_violations,
        migration_version,
    }
}

} // verus!
