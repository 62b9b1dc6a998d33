//! Classification of legacy memories before an explicit migration.

use vstd::prelude::*;

use crate::error::{invalid, StateError};
use crate::hash::{append_text, sha256_tagged, tagged_digest};
use crate::json::{json_literal, literal, print_strings, strings_json};
use crate::order::{is_sorted_form, sort_texts};
use crate::rows::{any, count, some_row};
use crate::text::{decimal, format_unsigned, text_eq, texts};

verus! {

/// What migration reads of the provenance of a legacy memory.
#[derive(Clone, Debug, PartialEq, Eq)]
pub struct LegacySource {
    pub source_type: String,
    pub note_file_id: Option<String>,
    pub note_path: Option<String>,
    pub note_revision: Option<i64>,
}

impl LegacySource {
    /// Whether the source points at a note.
    pub open spec fn notes(self) -> bool {
        self.source_type@ == "note"@ || self.note_file_id is Some || self.note_path is Some
            || self.note_revision is Some
    }

    /// Whether the source is a direct assertion or an import.
    pub open spec fn asserts(self) -> bool {
        self.source_type@ == "explicit_agent"@ || self.source_type@ == "explicit_admin"@
            || self.source_type@ == "import"@
    }

    /// Whether the source is of no recognized kind.
    pub open spec fn unknown(self) -> bool {
        self.source_type@ != "note"@ && !self.asserts()
    }

    /// Whether the source points at a note.
    pub fn is_note(&self) -> (r: bool)
        ensures
            r == self.notes(),
    {
        text_eq(self.source_type.as_str(), "note") || self.note_file_id.is_some()
            || self.note_path.is_some() || self.note_revision.is_some()
    }

    /// Whether the source is a direct assertion or an import.
    pub fn is_assertion(&self) -> (r: bool)
        ensures
            r == self.asserts(),
    {
        text_eq(self.source_type.as_str(), "explicit_agent") || text_eq(
            self.source_type.as_str(),
            "explicit_admin",
        ) || text_eq(self.source_type.as_str(), "import")
    }
}

/// What migration reads of a legacy memory.
#[derive(Clone, Debug, PartialEq, Eq)]
pub struct LegacyMemory {
    pub id: String,
    pub status: String,
    pub sources: Vec<LegacySource>,
}

/// How a legacy memory can be migrated.
#[derive(Clone, Copy, Debug, PartialEq, Eq, Structural)]
pub enum LegacyClass {
    /// No longer active: kept only in backup and report.
    Historical,
    /// Only explicit or import provenance, and no ambiguity.
    SafeExplicit,
    /// Only note provenance.
    NoteDerived,
    /// Note and explicit or import provenance together.
    Mixed,
    /// No recognized source shape.
    Unsupported,
}

/// The class of a source shape.
pub open spec fn shape_class(note: bool, explicit: bool, other: bool) -> LegacyClass {
    if !note && explicit && !other {
        LegacyClass::SafeExplicit
    } else if note && !explicit && !other {
        LegacyClass::NoteDerived
    } else if note && explicit {
        LegacyClass::Mixed
    } else {
        LegacyClass::Unsupported
    }
}

impl LegacyMemory {
    /// How the memory can be migrated.
    pub open spec fn class(self) -> LegacyClass {
        if self.status@ != "active"@ {
            LegacyClass::Historical
        } else {
            shape_class(
                some_row(self.sources@, |source: LegacySource| source.notes()),
                some_row(self.sources@, |source: LegacySource| source.asserts()),
                some_row(self.sources@, |source: LegacySource| source.unknown()),
            )
        }
    }

    /// How the memory can be migrated.
    pub fn classify(&self) -> (r: LegacyClass)
        ensures
            r == self.class(),
    {
        if !text_eq(self.status.as_str(), "active") {
            return LegacyClass::Historical;
        }
        let notes = |source: &LegacySource| -> (yes: bool)
            ensures
                yes == source.notes(),
            { source.is_note() };
        let note = any(
            self.sources.as_slice(),
            notes,
            Ghost(|source: LegacySource| source.notes()),
        );
        let asserts = |source: &LegacySource| -> (yes: bool)
            ensures
                yes == source.asserts(),
            { source.is_assertion() };
        let explicit = any(
            self.sources.as_slice(),
            asserts,
            Ghost(|source: LegacySource| source.asserts()),
        );
        let unknown = |source: &LegacySource| -> (yes: bool)
            ensures
                yes == source.unknown(),
            { !text_eq(source.source_type.as_str(), "note") && !source.is_assertion() };
        let other = any(
            self.sources.as_slice(),
            unknown,
            Ghost(|source: LegacySource| source.unknown()),
        );
        if !note && explicit && !other {
            LegacyClass::SafeExplicit
        } else if note && !explicit && !other {
            LegacyClass::NoteDerived
        } else if note && explicit {
            LegacyClass::Mixed
        } else {
            LegacyClass::Unsupported
        }
    }
}

/// One legacy row that the classified state covers.
#[derive(Clone, Debug, PartialEq, Eq)]
pub struct LegacyDigestRow {
    pub record_kind: String,
    pub record_key: String,
    pub record_json: String,
}

impl LegacyDigestRow {
    /// The line that the digest covers.
    pub open spec fn line(self) -> Seq<char> {
        strings_json(seq![self.record_kind@, self.record_key@, self.record_json@])
    }
}

/// Bytes that the digest of the classified state covers.
pub open spec fn state_bytes(rows: Seq<LegacyDigestRow>) -> Seq<u8>
    decreases rows.len(),
{
    if rows.len() == 0 {
        vstd::utf8::encode_utf8("mcp-vault-memory-v2.1-classified-state"@).push(0)
    } else {
        (state_bytes(rows.drop_last()) + vstd::utf8::encode_utf8(rows.last().line())).push(10)
    }
}

/// Digest of every legacy field that migration consumes. `rows` come in the
/// order of kind, key and content.
pub fn classified_state_hash(rows: &[LegacyDigestRow]) -> (r: String)
    ensures
        r@ == tagged_digest(state_bytes(rows@)),
{
    let mut bytes: Vec<u8> = Vec::new();
    append_text(&mut bytes, "mcp-vault-memory-v2.1-classified-state");
    bytes.push(0);
    let mut i: usize = 0;
    assert(rows@.take(0) =~= Seq::empty());
    assert(bytes@ =~= state_bytes(rows@.take(0)));
    while i < rows.len()
        invariant
            i <= rows@.len(),
            bytes@ == state_bytes(rows@.take(i as int)),
        decreases rows@.len() - i,
    {
        let mut parts: Vec<String> = Vec::new();
        parts.push(rows[i].record_kind.clone());
        parts.push(rows[i].record_key.clone());
        parts.push(rows[i].record_json.clone());
        let line = print_strings(parts.as_slice());
        proof {
            assert(texts(parts@) =~= seq![
                rows@[i as int].record_kind@,
                rows@[i as int].record_key@,
                rows@[i as int].record_json@,
            ]);
            assert(rows@.take(i + 1).drop_last() =~= rows@.take(i as int));
            assert(rows@.take(i + 1).last() == rows@[i as int]);
        }
        append_text(&mut bytes, line.as_str());
        bytes.push(10);
        i += 1;
    }
    assert(rows@.take(i as int) =~= rows@);
    sha256_tagged(bytes.as_slice())
}

/// Non-destructive classification of legacy rows before explicit migration.
#[derive(Clone, Debug, PartialEq, Eq)]
pub struct MemoryV2MigrationPreflight {
    /// Content-free digest of every legacy field consumed by migration. This
    /// changes even when row counts and ownership classes stay the same.
    pub classified_state_hash: String,
    /// All legacy rows.
    pub legacy_total: u64,
    /// Non-active legacy lifecycle rows retained only in backup and report.
    pub historical: u64,
    /// Rows with only explicit or import provenance and no ambiguity.
    pub safe_explicit: u64,
    /// Rows with only note provenance.
    pub note_derived: u64,
    /// Rows combining note and explicit or import provenance.
    pub mixed_source: u64,
    /// Rows with no recognized source shape.
    pub unsupported: u64,
    /// Content-free identities requiring an operator ownership decision.
    pub mixed_source_ids: Vec<String>,
    /// Content-free identities with unsupported provenance.
    pub unsupported_ids: Vec<String>,
}

/// Number of memories of a class.
pub open spec fn class_count(memories: Seq<LegacyMemory>, class: LegacyClass) -> nat {
    count(memories, |memory: LegacyMemory| memory.class() == class)
}

/// Identities of the memories of a class, in order.
pub open spec fn class_ids(memories: Seq<LegacyMemory>, class: LegacyClass) -> Seq<String> {
    memories.filter(|memory: LegacyMemory| memory.class() == class).map_values(
        |memory: LegacyMemory| memory.id,
    )
}

impl MemoryV2MigrationPreflight {
    /// Whether the report classifies exactly these rows.
    pub open spec fn reports(self, memories: Seq<LegacyMemory>, rows: Seq<LegacyDigestRow>) -> bool {
        &&& self.classified_state_hash@ == tagged_digest(state_bytes(rows))
        &&& self.legacy_total == memories.len()
        &&& self.historical == class_count(memories, LegacyClass::Historical)
        &&& self.safe_explicit == class_count(memories, LegacyClass::SafeExplicit)
        &&& self.note_derived == class_count(memories, LegacyClass::NoteDerived)
        &&& self.mixed_source == class_count(memories, LegacyClass::Mixed)
        &&& self.unsupported == class_count(memories, LegacyClass::Unsupported)
        &&& is_sorted_form(class_ids(memories, LegacyClass::Mixed), self.mixed_source_ids@)
        &&& is_sorted_form(class_ids(memories, LegacyClass::Unsupported), self.unsupported_ids@)
    }
}

/// Classes of one more memory.
proof fn lemma_class_step(memories: Seq<LegacyMemory>, n: int, class: LegacyClass)
    requires
        0 <= n < memories.len(),
    ensures
        class_count(memories.take(n + 1), class) == class_count(memories.take(n), class) + (
        if memories[n].class() == class {
            1int
        } else {
            0int
        }),
        class_ids(memories.take(n + 1), class) == if memories[n].class() == class {
            class_ids(memories.take(n), class).push(memories[n].id)
        } else {
            class_ids(memories.take(n), class)
        },
{
    reveal(Seq::filter);
    assert(memories.take(n + 1).drop_last() =~= memories.take(n));
    assert(memories.take(n + 1).last() == memories[n]);
    let rule = |memory: LegacyMemory| memory.class() == class;
    let name = |memory: LegacyMemory| memory.id;
    let before = memories.take(n).filter(rule);
    if memories[n].class() == class {
        assert(memories.take(n + 1).filter(rule) =~= before.push(memories[n]));
        assert(before.push(memories[n]).map_values(name) =~= before.map_values(name).push(
            memories[n].id,
        ));
    }
}

/// Classify legacy records. This never changes either legacy or current memory
/// content.
pub fn migration_preflight(memories: &[LegacyMemory], rows: &[LegacyDigestRow]) -> (r: MemoryV2MigrationPreflight)
    ensures
        r.reports(memories@, rows@),
{
    let mut historical: u64 = 0;
    let mut safe_explicit: u64 = 0;
    let mut note_derived: u64 = 0;
    let mut mixed: u64 = 0;
    let mut unsupported: u64 = 0;
    let mut mixed_ids: Vec<String> = Vec::new();
    let mut unsupported_ids: Vec<String> = Vec::new();
    let n: usize = memories.len();
    let mut i: usize = 0;
    proof {
        reveal(Seq::filter);
        assert(memories@.take(0) =~= Seq::empty());
        assert(class_ids(memories@.take(0), LegacyClass::Mixed) =~= Seq::empty());
        assert(class_ids(memories@.take(0), LegacyClass::Unsupported) =~= Seq::empty());
    }
    while i < n
        invariant
            i <= n == memories@.len(),
            historical <= i,
            safe_explicit <= i,
            note_derived <= i,
            mixed <= i,
            unsupported <= i,
            historical == class_count(memories@.take(i as int), LegacyClass::Historical),
            safe_explicit == class_count(memories@.take(i as int), LegacyClass::SafeExplicit),
            note_derived == class_count(memories@.take(i as int), LegacyClass::NoteDerived),
            mixed == class_count(memories@.take(i as int), LegacyClass::Mixed),
            unsupported == class_count(memories@.take(i as int), LegacyClass::Unsupported),
            mixed_ids@ == class_ids(memories@.take(i as int), LegacyClass::Mixed),
            unsupported_ids@ == class_ids(memories@.take(i as int), LegacyClass::Unsupported),
        decreases n - i,
    {
        proof {
            lemma_class_step(memories@, i as int, LegacyClass::Historical);
            lemma_class_step(memories@, i as int, LegacyClass::SafeExplicit);
            lemma_class_step(memories@, i as int, LegacyClass::NoteDerived);
            lemma_class_step(memories@, i as int, LegacyClass::Mixed);
            lemma_class_step(memories@, i as int, LegacyClass::Unsupported);
        }
        let memory = &memories[i];
        match memory.classify() {
            LegacyClass::Historical => {
                historical += 1;
            },
            LegacyClass::SafeExplicit => {
                safe_explicit += 1;
            },
            LegacyClass::NoteDerived => {
                note_derived += 1;
            },
            LegacyClass::Mixed => {
                mixed += 1;
                mixed_ids.push(memory.id.clone());
            },
            LegacyClass::Unsupported => {
                unsupported += 1;
                unsupported_ids.push(memory.id.clone());
            },
        }
        i += 1;
    }
    assert(memories@.take(i as int) =~= memories@);
    MemoryV2MigrationPreflight {
        classified_state_hash: classified_state_hash(rows),
        legacy_total: n as u64,
        historical,
        safe_explicit,
        note_derived,
        mixed_source: mixed,
        unsupported,
        mixed_source_ids: sort_texts(mixed_ids.as_slice()),
        unsupported_ids: sort_texts(unsupported_ids.as_slice()),
    }
}

impl MemoryV2MigrationPreflight {
    /// The report as a compact JSON object, its fields in their order.
    pub open spec fn json(self) -> Seq<char> {
        "{\"classified_state_hash\":"@ + json_literal(self.classified_state_hash@)
            + ",\"legacy_total\":"@ + decimal(self.legacy_total as nat) + ",\"historical\":"@
            + decimal(self.historical as nat) + ",\"safe_explicit\":"@ + decimal(
            self.safe_explicit as nat,
        ) + ",\"note_derived\":"@ + decimal(self.note_derived as nat) + ",\"mixed_source\":"@
            + decimal(self.mixed_source as nat) + ",\"unsupported\":"@ + decimal(
            self.unsupported as nat,
        ) + ",\"mixed_source_ids\":"@ + strings_json(texts(self.mixed_source_ids@))
            + ",\"unsupported_ids\":"@ + strings_json(texts(self.unsupported_ids@)) + "}"@
    }

    /// The report as the store keeps it: fields by name, with the statement
    /// that no content is in it.
    pub open spec fn stored_json(self) -> Seq<char> {
        "{\"classified_state_hash\":"@ + json_literal(self.classified_state_hash@)
            + ",\"content_included\":false,\"historical\":"@ + decimal(self.historical as nat)
            + ",\"legacy_total\":"@ + decimal(self.legacy_total as nat) + ",\"mixed_source\":"@
            + decimal(self.mixed_source as nat) + ",\"mixed_source_ids\":"@ + strings_json(
            texts(self.mixed_source_ids@),
        ) + ",\"note_derived\":"@ + decimal(self.note_derived as nat) + ",\"safe_explicit\":"@
            + decimal(self.safe_explicit as nat) + ",\"unsupported\":"@ + decimal(
            self.unsupported as nat,
        ) + ",\"unsupported_ids\":"@ + strings_json(texts(self.unsupported_ids@)) + "}"@
    }

    /// The report as a compact JSON object.
    pub fn to_json(&self) -> (r: String)
        ensures
            r@ == self.json(),
    {
        let mut out = String::new();
        out.push_str("{\"classified_state_hash\":");
        out.push_str(literal(self.classified_state_hash.as_str()).as_str());
        out.push_str(",\"legacy_total\":");
        out.push_str(format_unsigned(self.legacy_total).as_str());
        out.push_str(",\"historical\":");
        out.push_str(format_unsigned(self.historical).as_str());
        out.push_str(",\"safe_explicit\":");
        out.push_str(format_unsigned(self.safe_explicit).as_str());
        out.push_str(",\"note_derived\":");
        out.push_str(format_unsigned(self.note_derived).as_str());
        out.push_str(",\"mixed_source\":");
        out.push_str(format_unsigned(self.mixed_source).as_str());
        out.push_str(",\"unsupported\":");
        out.push_str(format_unsigned(self.unsupported).as_str());
        out.push_str(",\"mixed_source_ids\":");
        out.push_str(print_strings(self.mixed_source_ids.as_slice()).as_str());
        out.push_str(",\"unsupported_ids\":");
        out.push_str(print_strings(self.unsupported_ids.as_slice()).as_str());
        out.push_str("}");
        assert(out@ =~= self.json());
        out
    }

    /// The report as the store keeps it.
    pub fn to_stored_json(&self) -> (r: String)
        ensures
            r@ == self.stored_json(),
    {
        let mut out = String::new();
        out.push_str("{\"classified_state_hash\":");
        out.push_str(literal(self.classified_state_hash.as_str()).as_str());
        out.push_str(",\"content_included\":false,\"historical\":");
        out.push_str(format_unsigned(self.historical).as_str());
        out.push_str(",\"legacy_total\":");
        out.push_str(format_unsigned(self.legacy_total).as_str());
        out.push_str(",\"mixed_source\":");
        out.push_str(format_unsigned(self.mixed_source).as_str());
        out.push_str(",\"mixed_source_ids\":");
        out.push_str(print_strings(self.mixed_source_ids.as_slice()).as_str());
        out.push_str(",\"note_derived\":");
        out.push_str(format_unsigned(self.note_derived).as_str());
        out.push_str(",\"safe_explicit\":");
        out.push_str(format_unsigned(self.safe_explicit).as_str());
        out.push_str(",\"unsupported\":");
        out.push_str(format_unsigned(self.unsupported).as_str());
        out.push_str(",\"unsupported_ids\":");
        out.push_str(print_strings(self.unsupported_ids.as_slice()).as_str());
        out.push_str("}");
        assert(out@ =~= self.stored_json());
        out
    }

    /// Bytes that the fingerprint covers.
    pub open spec fn fingerprint_bytes(self) -> Seq<u8> {
        vstd::utf8::encode_utf8("mcp-vault-memory-v2.1-preflight"@).push(0)
            + vstd::utf8::encode_utf8(self.json())
    }

    /// Stable content-free fingerprint that binds an operator confirmation to
    /// the exact classification that they saw.
    pub fn fingerprint(&self) -> (r: Result<String, StateError>)
        ensures
            r matches Ok(text) && text@ == tagged_digest(self.fingerprint_bytes()),
    {
        let mut bytes: Vec<u8> = Vec::new();
        append_text(&mut bytes, "mcp-vault-memory-v2.1-preflight");
        bytes.push(0);
        append_text(&mut bytes, self.to_json().as_str());
        assert(bytes@ =~= self.fingerprint_bytes());
        Ok(sha256_tagged(bytes.as_slice()))
    }
}

/// The stored state of a vault's migration.
#[derive(Clone, Debug, PartialEq, Eq)]
pub struct MigrationStateRow {
    /// preflighted, completed, or blocked.
    pub status: String,
    pub legacy_total: i64,
    pub historical: i64,
    pub safe_explicit: i64,
    pub note_derived: i64,
    pub mixed_source: i64,
    pub unsupported: i64,
    pub report_json: String,
    pub preflighted_at: Option<i64>,
    pub completed_at: Option<i64>,
    pub updated_at: i64,
}

/// Whether all counts of a report fit their columns.
pub open spec fn counts_fit(report: MemoryV2MigrationPreflight) -> bool {
    &&& report.legacy_total <= i64::MAX
    &&& report.historical <= i64::MAX
    &&& report.safe_explicit <= i64::MAX
    &&& report.note_derived <= i64::MAX
    &&& report.mixed_source <= i64::MAX
    &&& report.unsupported <= i64::MAX
}

/// The migration state that a classification leaves. A new classification
/// withdraws an earlier completion.
pub fn preflighted(report: &MemoryV2MigrationPreflight, now: i64) -> (r: Result<
    MigrationStateRow,
    StateError,
>)
    ensures
        if !counts_fit(*report) {
            r == invalid::<MigrationStateRow>("legacy memory count is invalid")
        } else {
            &&& r matches Ok(row)
            &&& row.status@ == "preflighted"@
            &&& row.report_json@ == report.stored_json()
            &&& row == (MigrationStateRow {
                status: row.status,
                legacy_total: report.legacy_total as i64,
                historical: report.historical as i64,
                safe_explicit: report.safe_explicit as i64,
                note_derived: report.note_derived as i64,
                mixed_source: report.mixed_source as i64,
                unsupported: report.unsupported as i64,
                report_json: row.report_json,
                preflighted_at: Some(now),
                completed_at: None,
                updated_at: now,
            })
        },
{
    let max: u64 = i64::MAX as u64;
    if report.legacy_total > max || report.historical > max || report.safe_explicit > max
        || report.note_derived > max || report.mixed_source > max || report.unsupported > max {
        return Err(StateError::InvalidInput("legacy memory count is invalid"));
    }
    Ok(
        MigrationStateRow {
            status: "preflighted".to_owned(),
            legacy_total: report.legacy_total as i64,
            historical: report.historical as i64,
            safe_explicit: report.safe_explicit as i64,
            note_derived: report.note_derived as i64,
            mixed_source: report.mixed_source as i64,
            unsupported: report.unsupported as i64,
            report_json: report.to_stored_json(),
            preflighted_at: Some(now),
            completed_at: None,
            updated_at: now,
        },
    )
}

/// Record the outcome of an explicitly authorized one-time migration. Only a
/// classified vault can finish; legacy rows are never deleted here.
pub fn finish_migration(
    state: Option<MigrationStateRow>,
    completed: bool,
    report_json: String,
    now: i64,
) -> (r: Result<MigrationStateRow, StateError>)
    ensures
        if !(state is Some && state->0.preflighted_at is Some) {
            r == Err::<MigrationStateRow, StateError>(StateError::Conflict)
        } else {
            &&& r matches Ok(row)
            &&& row.status@ == if completed {
                "completed"@
            } else {
                "blocked"@
            }
            &&& row == (MigrationStateRow {
                status: row.status,
                report_json,
                completed_at: if completed {
                    Some(now)
                } else {
                    None
                },
                updated_at: now,
                ..state->0
            })
        },
{
    match state {
        Some(row) => {
            if row.preflighted_at.is_none() {
                return Err(StateError::Conflict);
            }
            let status = if completed {
                "completed".to_owned()
            } else {
                "blocked".to_owned()
            };
            let completed_at = if completed {
                Some(now)
            } else {
                None
            };
            Ok(MigrationStateRow { status, report_json, completed_at, updated_at: now, ..row })
        },
        None => Err(StateError::Conflict),
    }
}

/// Every legacy memory falls into exactly one class: the counts add up to the
/// total.
pub proof fn law_every_memory_is_classified_once(memories: Seq<LegacyMemory>)
    ensures
        class_count(memories, LegacyClass::Historical) + class_count(
            memories,
            LegacyClass::SafeExplicit,
        ) + class_count(memories, LegacyClass::NoteDerived) + class_count(
            memories,
            LegacyClass::Mixed,
        ) + class_count(memories, LegacyClass::Unsupported) == memories.len(),
    decreases memories.len(),
{
    reveal(Seq::filter);
    if memories.len() > 0 {
        let n = memories.len() - 1;
        law_every_memory_is_classified_once(memories.drop_last());
        assert(memories.take(n) =~= memories.drop_last());
        assert(memories.take(n + 1) =~= memories);
        lemma_class_step(memories, n, LegacyClass::Historical);
        lemma_class_step(memories, n, LegacyClass::SafeExplicit);
        lemma_class_step(memories, n, LegacyClass::NoteDerived);
        lemma_class_step(memories, n, LegacyClass::Mixed);
        lemma_class_step(memories, n, LegacyClass::Unsupported);
    }
}

} // verus!
