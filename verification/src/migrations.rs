//! Compatibility of applied migrations.

use vstd::prelude::*;

use crate::error::{MigrationFault, StateError};
use crate::text::{
    bytes_eq, chars_of, join, joined, text_eq, text_of, texts, trimmed_end, white_space,
};

verus! {

/// One embedded migration.
#[derive(Clone, Debug, PartialEq, Eq)]
pub struct EmbeddedMigration {
    pub version: i64,
    pub checksum: Vec<u8>,
}

/// One migration that the database has applied.
#[derive(Clone, Debug, PartialEq, Eq)]
pub struct AppliedMigration {
    pub version: i64,
    pub checksum: Vec<u8>,
}

/// The upper-case hexadecimal character of a value below sixteen.
pub open spec fn upper_hex_char(nibble: nat) -> char {
    if nibble < 10 {
        (48 + nibble) as char
    } else {
        (55 + nibble) as char
    }
}

/// Two upper-case hexadecimal characters for each byte.
pub open spec fn upper_hex(bytes: Seq<u8>) -> Seq<char> {
    Seq::new(
        2 * bytes.len(),
        |i: int|
            if i % 2 == 0 {
                upper_hex_char((bytes[i / 2] / 16) as nat)
            } else {
                upper_hex_char((bytes[i / 2] % 16) as nat)
            },
    )
}

fn upper_hex_digit(nibble: u8) -> (c: char)
    requires
        nibble < 16,
    ensures
        c == upper_hex_char(nibble as nat),
{
    if nibble < 10 {
        (48 + nibble) as char
    } else {
        (55 + nibble) as char
    }
}

/// Upper-case hexadecimal rendering of bytes.
pub fn format_upper_hex(bytes: &[u8]) -> (r: String)
    ensures
        r@ == upper_hex(bytes@),
{
    let mut out = String::new();
    let mut i: usize = 0;
    while i < bytes.len()
        invariant
            i <= bytes@.len(),
            out@ == upper_hex(bytes@.take(i as int)),
        decreases bytes@.len() - i,
    {
        out.push(upper_hex_digit(bytes[i] / 16));
        out.push(upper_hex_digit(bytes[i] % 16));
        i += 1;
        assert(out@ =~= upper_hex(bytes@.take(i as int)));
    }
    assert(bytes@.take(bytes@.len() as int) =~= bytes@);
    out
}

/// Whether a checksum is one of the two deployed prerelease variants.
pub open spec fn legacy(version: i64, checksum: Seq<u8>) -> bool {
    ||| version == 16 && upper_hex(checksum)
        == "B9509BECDBCD2576D4C712D8CE4D90BCE6B55FD552098EF898CF7B8DB4B31779B8AD7ACFF750FA63572D11EE491953F5"@
    ||| version == 17 && upper_hex(checksum)
        == "C22C8F033CBC4E918CA20C6B90EDBCA4C0352124562135D717D141B669C40BD612FD65F72B92BDC2D847CFD445BE4CCA"@
}

/// Decides [`legacy`].
pub fn is_legacy(version: i64, checksum: &[u8]) -> (r: bool)
    ensures
        r == legacy(version, checksum@),
{
    let hex = format_upper_hex(checksum);
    if version == 16 {
        text_eq(
            hex.as_str(),
            "B9509BECDBCD2576D4C712D8CE4D90BCE6B55FD552098EF898CF7B8DB4B31779B8AD7ACFF750FA63572D11EE491953F5",
        )
    } else if version == 17 {
        text_eq(
            hex.as_str(),
            "C22C8F033CBC4E918CA20C6B90EDBCA4C0352124562135D717D141B669C40BD612FD65F72B92BDC2D847CFD445BE4CCA",
        )
    } else {
        false
    }
}

/// Table and index whose schema a prerelease migration must have left as the
/// embedded one does.
pub fn schema_subject(version: i64) -> (r: (&'static str, &'static str))
    ensures
        r.0@ == if version == 16 {
            "memory_note_set_snapshots"@
        } else {
            "retrieval_calibration_runs"@
        },
        r.1@ == if version == 17 {
            "retrieval_calibration_one_active_job"@
        } else {
            ""@
        },
{
    let table = if version == 16 {
        "memory_note_set_snapshots"
    } else {
        "retrieval_calibration_runs"
    };
    let index = if version == 17 {
        "retrieval_calibration_one_active_job"
    } else {
        ""
    };
    (table, index)
}

/// Versions and checksums of embedded migrations, in order.
pub open spec fn ledger(migrations: Seq<EmbeddedMigration>) -> Seq<(i64, Seq<u8>)> {
    migrations.map_values(|migration: EmbeddedMigration| (migration.version, migration.checksum@))
}

/// Why an applied migration is not accepted, if it is not: its checksum must
/// be the embedded one or, with an unchanged schema, a known prerelease one.
pub open spec fn drift(embedded: Seq<u8>, applied: AppliedMigration, schema_matches: bool) -> Option<
    StateError,
> {
    if embedded == applied.checksum@ || (legacy(applied.version, applied.checksum@)
        && schema_matches) {
        None
    } else {
        Some(StateError::Migration(MigrationFault::VersionMismatch(applied.version)))
    }
}

/// Checks one applied migration against the embedded one of its version. The
/// applied checksum is the one to go on with where none is refused.
pub fn check_applied(embedded: &[u8], applied: &AppliedMigration, schema_matches: bool) -> (r: Result<
    (),
    StateError,
>)
    ensures
        match drift(embedded@, *applied, schema_matches) {
            Some(error) => r == Err::<(), StateError>(error),
            None => r == Ok::<(), StateError>(()),
        },
{
    if bytes_eq(embedded, applied.checksum.as_slice()) {
        return Ok(());
    }
    if !is_legacy(applied.version, applied.checksum.as_slice()) || !schema_matches {
        return Err(StateError::Migration(MigrationFault::VersionMismatch(applied.version)));
    }
    Ok(())
}

/// Whether some embedded migration has the version.
pub open spec fn embeds(migrations: Seq<EmbeddedMigration>, version: i64) -> bool {
    exists|i: int| 0 <= i < migrations.len() && (#[trigger] migrations[i]).version == version
}

/// Position of the first ledger entry with the version.
pub open spec fn position(entries: Seq<(i64, Seq<u8>)>, version: i64) -> int
    decreases entries.len(),
{
    if entries.len() == 0 {
        0
    } else if entries[0].0 == version {
        0
    } else {
        1 + position(entries.skip(1), version)
    }
}

/// The ledger with the checksums that were applied, or the first applied
/// migration that is refused.
pub open spec fn reconciled(
    entries: Seq<(i64, Seq<u8>)>,
    applied: Seq<AppliedMigration>,
    schema_matches: Seq<bool>,
) -> Result<Seq<(i64, Seq<u8>)>, StateError>
    decreases applied.len(),
{
    if applied.len() == 0 {
        Ok(entries)
    } else {
        match reconciled(entries, applied.drop_last(), schema_matches) {
            Err(error) => Err(error),
            Ok(so_far) => {
                let next = applied.last();
                let at = position(so_far, next.version);
                match drift(so_far[at].1, next, schema_matches[applied.len() - 1]) {
                    Some(error) => Err(error),
                    None => Ok(so_far.update(at, (so_far[at].0, next.checksum@))),
                }
            },
        }
    }
}

proof fn lemma_position(entries: Seq<(i64, Seq<u8>)>, version: i64, at: int)
    requires
        0 <= at < entries.len(),
        entries[at].0 == version,
        forall|i: int| 0 <= i < at ==> (#[trigger] entries[i]).0 != version,
    ensures
        position(entries, version) == at,
    decreases at,
{
    if at > 0 {
        assert(entries[0].0 != version);
        assert forall|i: int| 0 <= i < at - 1 implies (#[trigger] entries.skip(1)[i]).0
            != version by {
            assert(entries.skip(1)[i] == entries[i + 1]);
        }
        assert(entries.skip(1)[at - 1] == entries[at]);
        lemma_position(entries.skip(1), version, at - 1);
    }
}

proof fn lemma_reconciled_error(
    entries: Seq<(i64, Seq<u8>)>,
    applied: Seq<AppliedMigration>,
    schema_matches: Seq<bool>,
    n: int,
)
    requires
        0 <= n <= applied.len(),
        reconciled(entries, applied.take(n), schema_matches) is Err,
    ensures
        reconciled(entries, applied, schema_matches) == reconciled(
            entries,
            applied.take(n),
            schema_matches,
        ),
    decreases applied.len() - n,
{
    if n < applied.len() {
        assert(applied.take(n + 1).drop_last() =~= applied.take(n));
        lemma_reconciled_error(entries, applied, schema_matches, n + 1);
    } else {
        assert(applied.take(n) =~= applied);
    }
}

fn copy_bytes(bytes: &Vec<u8>) -> (r: Vec<u8>)
    ensures
        r@ == bytes@,
{
    let mut out: Vec<u8> = Vec::new();
    let mut i: usize = 0;
    while i < bytes.len()
        invariant
            i <= bytes@.len(),
            out@ == bytes@.take(i as int),
        decreases bytes@.len() - i,
    {
        out.push(bytes[i]);
        i += 1;
        assert(out@ =~= bytes@.take(i as int));
    }
    assert(bytes@.take(bytes@.len() as int) =~= bytes@);
    out
}

/// Accept the checksums that a database has applied: each must be the embedded
/// one or a known prerelease one with an unchanged schema. `schema_matches`
/// says for each applied migration whether its schema is unchanged.
pub fn reconcile(
    migrations: Vec<EmbeddedMigration>,
    applied: &[AppliedMigration],
    schema_matches: &[bool],
) -> (r: Result<Vec<EmbeddedMigration>, StateError>)
    requires
        schema_matches@.len() == applied@.len(),
        forall|i: int|
            0 <= i < applied@.len() ==> embeds(migrations@, (#[trigger] applied@[i]).version),
    ensures
        match reconciled(ledger(migrations@), applied@, schema_matches@) {
            Err(error) => r == Err::<Vec<EmbeddedMigration>, StateError>(error),
            Ok(after) => r matches Ok(migrations) && ledger(migrations@) == after,
        },
{
    let ghost before = migrations@;
    let mut list = migrations;
    let n: usize = list.len();
    let mut i: usize = 0;
    while i < applied.len()
        invariant
            i <= applied@.len(),
            schema_matches@.len() == applied@.len(),
            before == migrations@,
            list@.len() == before.len() == n,
            forall|k: int|
                0 <= k < before.len() ==> (#[trigger] list@[k]).version == before[k].version,
            forall|k: int|
                0 <= k < applied@.len() ==> embeds(before, (#[trigger] applied@[k]).version),
            reconciled(ledger(before), applied@.take(i as int), schema_matches@) == Ok::<
                Seq<(i64, Seq<u8>)>,
                StateError,
            >(ledger(list@)),
        decreases applied@.len() - i,
    {
        let next = &applied[i];
        let mut at: usize = 0;
        assert(embeds(before, applied@[i as int].version));
        let ghost witness = choose|k: int|
            0 <= k < before.len() && (#[trigger] before[k]).version == applied@[i as int].version;
        assert(list@[witness].version == next.version);
        while list[at].version != next.version
            invariant
                at <= witness < list@.len() == n,
                list@[witness].version == next.version,
                forall|k: int| 0 <= k < at ==> (#[trigger] list@[k]).version != next.version,
            decreases witness - at,
        {
            at += 1;
        }
        let ghost entries = ledger(list@);
        proof {
            assert forall|k: int| 0 <= k < at implies (#[trigger] entries[k]).0
                != next.version by {
                assert(list@[k].version != next.version);
            }
            lemma_position(entries, next.version, at as int);
            assert(applied@.take(i + 1).drop_last() =~= applied@.take(i as int));
            assert(applied@.take(i + 1).last() == *next);
        }
        match check_applied(list[at].checksum.as_slice(), next, schema_matches[i]) {
            Ok(()) => {},
            Err(error) => {
                proof {
                    lemma_reconciled_error(ledger(before), applied@, schema_matches@, i + 1);
                }
                return Err(error);
            },
        }
        let version: i64 = list[at].version;
        let checksum = copy_bytes(&next.checksum);
        list.set(at, EmbeddedMigration { version, checksum });
        assert(ledger(list@) =~= entries.update(
            at as int,
            (entries[at as int].0, next.checksum@),
        ));
        i += 1;
    }
    assert(applied@.take(applied@.len() as int) =~= applied@);
    Ok(list)
}

/// An unchanged checksum is always accepted; a changed one never without both a
/// known prerelease checksum and an unchanged schema.
pub proof fn law_unknown_checksums_fail_closed(
    embedded: Seq<u8>,
    applied: AppliedMigration,
    schema_matches: bool,
)
    ensures
        embedded == applied.checksum@ ==> drift(embedded, applied, schema_matches) is None,
        embedded != applied.checksum@ && !schema_matches ==> drift(
            embedded,
            applied,
            schema_matches,
        ) == Some(StateError::Migration(MigrationFault::VersionMismatch(applied.version))),
        embedded != applied.checksum@ && !legacy(applied.version, applied.checksum@) ==> drift(
            embedded,
            applied,
            schema_matches,
        ) == Some(StateError::Migration(MigrationFault::VersionMismatch(applied.version))),
{
}

/// The text of the first line, without its end.
pub open spec fn first_line_len(text: Seq<char>) -> nat
    decreases text.len(),
{
    if text.len() == 0 || text[0] == '\n' {
        0
    } else {
        1 + first_line_len(text.skip(1))
    }
}

/// A line is no longer than its text.
pub proof fn lemma_first_line_bounded(text: Seq<char>)
    ensures
        first_line_len(text) <= text.len(),
        first_line_len(text) < text.len() ==> text[first_line_len(text) as int] == '\n',
        forall|i: int| 0 <= i < first_line_len(text) ==> #[trigger] text[i] != '\n',
    decreases text.len(),
{
    if text.len() > 0 && text[0] != '\n' {
        lemma_first_line_bounded(text.skip(1));
        assert forall|i: int| 0 <= i < first_line_len(text) implies #[trigger] text[i] != '\n' by {
            if i > 0 {
                assert(text.skip(1)[i - 1] == text[i]);
            }
        }
    }
}

/// Lines of a text; nothing follows the end of the last line.
pub open spec fn lines(text: Seq<char>) -> Seq<Seq<char>>
    decreases text.len(),
{
    if text.len() == 0 {
        Seq::empty()
    } else {
        let n = first_line_len(text) as int;
        proof {
            lemma_first_line_bounded(text);
        }
        if n < text.len() {
            seq![text.take(n)] + lines(text.skip(n + 1))
        } else {
            seq![text]
        }
    }
}

/// Schema text without white space at the ends of its lines.
pub open spec fn normalized_ddl(text: Seq<char>) -> Seq<char> {
    joined(lines(text).map_values(|line: Seq<char>| trimmed_end(line)), "\n"@)
}

fn is_space(c: char) -> (r: bool)
    ensures
        r == white_space(c),
{
    let mut one = String::new();
    one.push(c);
    let blank = crate::text::is_blank(one.as_str());
    proof {
        crate::text::lemma_blank(one@);
        assert(one@[0] == c);
    }
    blank
}

fn trim_end(chars: &Vec<char>, from: usize, to: usize) -> (r: String)
    requires
        from <= to <= chars@.len(),
    ensures
        r@ == trimmed_end(chars@.subrange(from as int, to as int)),
{
    let mut end: usize = to;
    while end > from && is_space(chars[end - 1])
        invariant
            from <= end <= to <= chars@.len(),
            trimmed_end(chars@.subrange(from as int, to as int)) == trimmed_end(
                chars@.subrange(from as int, end as int),
            ),
        decreases end,
    {
        let ghost piece = chars@.subrange(from as int, end as int);
        assert(piece.last() == chars@[end - 1]);
        assert(piece.drop_last() =~= chars@.subrange(from as int, end - 1));
        end -= 1;
    }
    if end > from {
        assert(chars@.subrange(from as int, end as int).last() == chars@[end - 1]);
    }
    text_of(chars.as_slice(), from, end)
}

/// Normalizes only trailing white space of lines: tokens, quoted literals,
/// constraints and column order stay as they are.
pub fn normalize_ddl(text: &str) -> (r: String)
    ensures
        r@ == normalized_ddl(text@),
{
    let chars = chars_of(text);
    let mut out: Vec<String> = Vec::new();
    let mut from: usize = 0;
    let ghost trim = |line: Seq<char>| trimmed_end(line);
    assert(chars@.skip(0) =~= chars@);
    assert(texts(out@) + lines(chars@).map_values(trim) =~= lines(chars@).map_values(trim));
    while from < chars.len()
        invariant
            from <= chars@.len(),
            chars@ == text@,
            trim == (|line: Seq<char>| trimmed_end(line)),
            lines(text@).map_values(trim) == texts(out@) + lines(
                chars@.skip(from as int),
            ).map_values(trim),
        decreases chars@.len() - from,
    {
        let ghost rest = chars@.skip(from as int);
        let mut to: usize = from;
        while to < chars.len() && chars[to] != '\n'
            invariant
                from <= to <= chars@.len(),
                forall|k: int| from <= k < to ==> chars@[k] != '\n',
            decreases chars@.len() - to,
        {
            to += 1;
        }
        let ghost before = texts(out@);
        out.push(trim_end(&chars, from, to));
        proof {
            let n = first_line_len(rest) as int;
            lemma_first_line_bounded(rest);
            if n < to - from {
                assert(rest[n] == chars@[from + n]);
            }
            if n > to - from {
                assert(rest[to - from] == chars@[to as int]);
            }
            assert(n == to - from);
            let line = chars@.subrange(from as int, to as int);
            assert(texts(out@) =~= before.push(trimmed_end(line)));
            if to < chars@.len() {
                assert(rest.take(n) =~= line);
                assert(rest.skip(n + 1) =~= chars@.skip(to + 1));
                let tail = lines(chars@.skip(to + 1));
                assert((seq![line] + tail).map_values(trim) =~= seq![trimmed_end(line)]
                    + tail.map_values(trim));
                assert(before + (seq![trimmed_end(line)] + tail.map_values(trim))
                    =~= before.push(trimmed_end(line)) + tail.map_values(trim));
            } else {
                assert(rest =~= line);
                assert(seq![line].map_values(trim) =~= seq![trimmed_end(line)]);
                assert(chars@.skip(to as int) =~= Seq::<char>::empty());
                assert(lines(chars@.skip(to as int)).map_values(trim) =~= Seq::<
                    Seq<char>,
                >::empty());
                assert(before + seq![trimmed_end(line)] =~= before.push(trimmed_end(line))
                    + Seq::<Seq<char>>::empty());
            }
        }
        from = if to < chars.len() {
            to + 1
        } else {
            to
        };
    }
    proof {
        assert(chars@.skip(from as int) =~= Seq::<char>::empty());
        assert(lines(chars@.skip(from as int)).map_values(trim) =~= Seq::<Seq<char>>::empty());
        assert(texts(out@) =~= lines(text@).map_values(trim));
    }
    join(out.as_slice(), "\n")
}

/// One schema object as stored.
#[derive(Clone, Debug, PartialEq, Eq)]
pub struct SchemaRow {
    pub kind: String,
    pub name: String,
    pub sql: Option<String>,
}

/// What is compared of a schema object.
pub open spec fn schema_entry(row: SchemaRow) -> (Seq<char>, Seq<char>, Seq<char>) {
    (
        row.kind@,
        row.name@,
        normalized_ddl(
            match row.sql {
                Some(sql) => sql@,
                None => Seq::empty(),
            },
        ),
    )
}

/// Whether two schemas list the same objects in the same order.
pub open spec fn same_schema(expected: Seq<SchemaRow>, actual: Seq<SchemaRow>) -> bool {
    expected.map_values(|row: SchemaRow| schema_entry(row)) == actual.map_values(
        |row: SchemaRow| schema_entry(row),
    )
}

fn ddl(row: &SchemaRow) -> (r: String)
    ensures
        r@ == schema_entry(*row).2,
{
    match &row.sql {
        Some(sql) => normalize_ddl(sql.as_str()),
        None => {
            let empty = String::new();
            normalize_ddl(empty.as_str())
        },
    }
}

/// Decides [`same_schema`].
pub fn schema_matches(expected: &[SchemaRow], actual: &[SchemaRow]) -> (r: bool)
    ensures
        r == same_schema(expected@, actual@),
{
    let ghost left = expected@.map_values(|row: SchemaRow| schema_entry(row));
    let ghost right = actual@.map_values(|row: SchemaRow| schema_entry(row));
    if expected.len() != actual.len() {
        assert(left.len() != right.len());
        return false;
    }
    let mut i: usize = 0;
    while i < expected.len()
        invariant
            i <= expected@.len(),
            expected@.len() == actual@.len(),
            left == expected@.map_values(|row: SchemaRow| schema_entry(row)),
            right == actual@.map_values(|row: SchemaRow| schema_entry(row)),
            forall|k: int| 0 <= k < i ==> left[k] == right[k],
        decreases expected@.len() - i,
    {
        let a = &expected[i];
        let b = &actual[i];
        let same = text_eq(a.kind.as_str(), b.kind.as_str()) && text_eq(
            a.name.as_str(),
            b.name.as_str(),
        ) && text_eq(ddl(a).as_str(), ddl(b).as_str());
        if !same {
            assert(left[i as int] != right[i as int]);
            return false;
        }
        i += 1;
    }
    assert(left =~= right);
    true
}

} // verus!
