//! Reading file entries, revisions and unfinished operations.

use vstd::prelude::*;

use crate::audit::AuditRecord;
use crate::domain::{optional_id, DomainError, Id, Revision, VaultContext, VaultPath};
use crate::error::{invalid, StateError};
use crate::files::{validate_recent_limit, FileRecord, FileRevisionRecord, JournalRecord};
use crate::order::{is_page, is_selection, page, select, SortKey};
use crate::outbox::OutboxEventRecord;
use crate::rows::{count, count_rows, each, find, first_index, marks};
use crate::text::{optional_text, text_eq};

verus! {

impl FileRecord {
    /// Whether the entry stands at a path of the vault.
    pub open spec fn stands_at(self, vault: Seq<char>, path: Seq<char>) -> bool {
        self.vault_id@ == vault && self.path@ == path
    }

    /// Whether the entry is live in the vault.
    pub open spec fn live_in(self, vault: Seq<char>) -> bool {
        self.vault_id@ == vault && self.active()
    }
}

/// The live entry at a path of the vault.
pub fn get_active(context: &VaultContext, files: &[FileRecord], path: &VaultPath) -> (r: Option<usize>)
    ensures
        match r {
            Some(i) => i < files@.len() && first_index(
                files@,
                |file: FileRecord| file.stands_at(context.id@, path@) && file.active(),
            ) == Some(i as int),
            None => first_index(
                files@,
                |file: FileRecord| file.stands_at(context.id@, path@) && file.active(),
            ) is None,
        },
{
    let accepts = |file: &FileRecord| -> (yes: bool)
        ensures
            yes == (file.stands_at(context.id@, path@) && file.active()),
        { file.vault_id.same(&context.id) && file.path.same(path) && file.is_active() };
    find(
        files,
        accepts,
        Ghost(|file: FileRecord| file.stands_at(context.id@, path@) && file.active()),
    )
}

/// The entry at a path of the vault, a deleted one too.
pub fn get_any_by_path(context: &VaultContext, files: &[FileRecord], path: &VaultPath) -> (r: Option<
    usize,
>)
    ensures
        match r {
            Some(i) => i < files@.len() && first_index(
                files@,
                |file: FileRecord| file.stands_at(context.id@, path@),
            ) == Some(i as int),
            None => first_index(
                files@,
                |file: FileRecord| file.stands_at(context.id@, path@),
            ) is None,
        },
{
    let accepts = |file: &FileRecord| -> (yes: bool)
        ensures
            yes == file.stands_at(context.id@, path@),
        { file.vault_id.same(&context.id) && file.path.same(path) };
    find(files, accepts, Ghost(|file: FileRecord| file.stands_at(context.id@, path@)))
}

/// The entry with an identity in the vault, a deleted one too.
pub fn get_by_id(context: &VaultContext, files: &[FileRecord], file_id: &Id) -> (r: Option<usize>)
    ensures
        match r {
            Some(i) => i < files@.len() && first_index(
                files@,
                |file: FileRecord| file.vault_id@ == context.id@ && file.id@ == file_id@,
            ) == Some(i as int),
            None => first_index(
                files@,
                |file: FileRecord| file.vault_id@ == context.id@ && file.id@ == file_id@,
            ) is None,
        },
{
    let accepts = |file: &FileRecord| -> (yes: bool)
        ensures
            yes == (file.vault_id@ == context.id@ && file.id@ == file_id@),
        { file.vault_id.same(&context.id) && file.id.same(file_id) };
    find(
        files,
        accepts,
        Ghost(|file: FileRecord| file.vault_id@ == context.id@ && file.id@ == file_id@),
    )
}

/// What entries are listed by: their path.
pub open spec fn path_key(file: FileRecord) -> SortKey {
    SortKey { first: 0, second: 0, third: 0, id: file.path.text }
}

/// All live entries of the vault in the order of their paths: their positions.
pub fn list_active_entries(context: &VaultContext, files: &[FileRecord]) -> (picked: Vec<usize>)
    ensures
        is_selection(
            files@.map_values(|file: FileRecord| path_key(file)),
            files@.map_values(|file: FileRecord| file.live_in(context.id@)),
            files@.len(),
            picked@,
        ),
{
    let place = |file: &FileRecord| -> (key: SortKey)
        ensures
            key == path_key(*file),
        { SortKey { first: 0, second: 0, third: 0, id: file.path.text.clone() } };
    let order_keys = each(files, place, Ghost(|file: FileRecord| path_key(file)));
    let accepts = |file: &FileRecord| -> (yes: bool)
        ensures
            yes == file.live_in(context.id@),
        { file.vault_id.same(&context.id) && file.is_active() };
    let eligible = marks(files, accepts, Ghost(|file: FileRecord| file.live_in(context.id@)));
    select(order_keys.as_slice(), eligible.as_slice(), files.len())
}

impl FileRevisionRecord {
    /// Whether the revision belongs to a file of the vault.
    pub open spec fn revises(self, vault: Seq<char>, file_id: Seq<char>) -> bool {
        self.vault_id@ == vault && self.file_id@ == file_id
    }
}

/// One exact revision of a file of the vault: its position. A revision that no
/// row can have is refused.
pub fn get_revision(
    context: &VaultContext,
    revisions: &[FileRevisionRecord],
    file_id: &Id,
    revision: Revision,
) -> (r: Result<Option<usize>, StateError>)
    ensures
        if !revision.storable() {
            r == Err::<Option<usize>, StateError>(
                StateError::InvalidDomain(DomainError::RevisionOutOfRange),
            )
        } else {
            let found = first_index(
                revisions@,
                |row: FileRevisionRecord|
                    row.revises(context.id@, file_id@) && row.revision.value == revision.value,
            );
            match r {
                Ok(Some(i)) => i < revisions@.len() && found == Some(i as int),
                Ok(None) => found is None,
                Err(_) => false,
            }
        },
{
    match revision.as_i64() {
        Ok(_) => {},
        Err(error) => return Err(StateError::InvalidDomain(error)),
    }
    let accepts = |row: &FileRevisionRecord| -> (yes: bool)
        ensures
            yes == (row.revises(context.id@, file_id@) && row.revision.value == revision.value),
        {
            row.vault_id.same(&context.id) && row.file_id.same(file_id) && row.revision.value
                == revision.value
        };
    Ok(
        find(
            revisions,
            accepts,
            Ghost(
                |row: FileRevisionRecord|
                    row.revises(context.id@, file_id@) && row.revision.value == revision.value,
            ),
        ),
    )
}

/// What the revisions of a file are listed by: their number.
pub open spec fn revision_key(row: FileRevisionRecord) -> SortKey {
    SortKey { first: row.revision.value as i128, second: 0, third: 0, id: row.id.text }
}

/// All revisions of a file of the vault, oldest first: their positions.
pub fn list_revisions(context: &VaultContext, revisions: &[FileRevisionRecord], file_id: &Id) -> (picked: Vec<
    usize,
>)
    ensures
        is_selection(
            revisions@.map_values(|row: FileRevisionRecord| revision_key(row)),
            revisions@.map_values(|row: FileRevisionRecord| row.revises(context.id@, file_id@)),
            revisions@.len(),
            picked@,
        ),
{
    let place = |row: &FileRevisionRecord| -> (key: SortKey)
        ensures
            key == revision_key(*row),
        {
            SortKey {
                first: row.revision.value as i128,
                second: 0,
                third: 0,
                id: row.id.text.clone(),
            }
        };
    let order_keys = each(revisions, place, Ghost(|row: FileRevisionRecord| revision_key(row)));
    let accepts = |row: &FileRevisionRecord| -> (yes: bool)
        ensures
            yes == row.revises(context.id@, file_id@),
        { row.vault_id.same(&context.id) && row.file_id.same(file_id) };
    let eligible = marks(
        revisions,
        accepts,
        Ghost(|row: FileRevisionRecord| row.revises(context.id@, file_id@)),
    );
    select(order_keys.as_slice(), eligible.as_slice(), revisions.len())
}

/// What recent revisions are listed by: their age.
pub open spec fn recency_key(row: FileRevisionRecord) -> SortKey {
    SortKey { first: row.created_at as i128, second: 0, third: 0, id: row.id.text }
}

/// The newest revisions of the vault, newest first: their positions.
pub fn list_recent_revisions(context: &VaultContext, revisions: &[FileRevisionRecord], limit: u32) -> (r: Result<
    Vec<usize>,
    StateError,
>)
    ensures
        if !(1 <= limit <= 200) {
            r == invalid::<Vec<usize>>("recent revision limit must be between 1 and 200")
        } else {
            r matches Ok(picked) && is_page(
                revisions@.map_values(|row: FileRevisionRecord| recency_key(row)),
                revisions@.map_values(|row: FileRevisionRecord| row.vault_id@ == context.id@),
                true,
                limit as nat,
                0,
                picked@,
            )
        },
{
    match validate_recent_limit(limit) {
        Ok(()) => {},
        Err(error) => return Err(error),
    }
    let place = |row: &FileRevisionRecord| -> (key: SortKey)
        ensures
            key == recency_key(*row),
        {
            SortKey { first: row.created_at as i128, second: 0, third: 0, id: row.id.text.clone() }
        };
    let order_keys = each(revisions, place, Ghost(|row: FileRevisionRecord| recency_key(row)));
    let accepts = |row: &FileRevisionRecord| -> (yes: bool)
        ensures
            yes == (row.vault_id@ == context.id@),
        { row.vault_id.same(&context.id) };
    let eligible = marks(
        revisions,
        accepts,
        Ghost(|row: FileRevisionRecord| row.vault_id@ == context.id@),
    );
    Ok(page(order_keys.as_slice(), eligible.as_slice(), true, limit, 0))
}

/// What unfinished operations are listed by: their age.
pub open spec fn journal_key(row: JournalRecord) -> SortKey {
    SortKey { first: row.created_at as i128, second: 0, third: 0, id: row.id.text }
}

/// The operations of the vault that recovery still has to settle, oldest
/// first: their positions.
pub fn list_incomplete(context: &VaultContext, journal: &[JournalRecord]) -> (picked: Vec<usize>)
    ensures
        is_selection(
            journal@.map_values(|row: JournalRecord| journal_key(row)),
            journal@.map_values(
                |row: JournalRecord| row.vault_id@ == context.id@ && row.state.incomplete(),
            ),
            journal@.len(),
            picked@,
        ),
{
    let place = |row: &JournalRecord| -> (key: SortKey)
        ensures
            key == journal_key(*row),
        {
            SortKey { first: row.created_at as i128, second: 0, third: 0, id: row.id.text.clone() }
        };
    let order_keys = each(journal, place, Ghost(|row: JournalRecord| journal_key(row)));
    let accepts = |row: &JournalRecord| -> (yes: bool)
        ensures
            yes == (row.vault_id@ == context.id@ && row.state.incomplete()),
        { row.vault_id.same(&context.id) && row.state.is_incomplete() };
    let eligible = marks(
        journal,
        accepts,
        Ghost(|row: JournalRecord| row.vault_id@ == context.id@ && row.state.incomplete()),
    );
    select(order_keys.as_slice(), eligible.as_slice(), journal.len())
}

/// Number of events of the vault about one aggregate.
pub fn count_outbox_events(context: &VaultContext, events: &[OutboxEventRecord], aggregate_id: &str) -> (r: u64)
    ensures
        r == count(
            events@,
            |event: OutboxEventRecord|
                optional_id(event.vault_id) == Some(context.id@) && event.aggregate_id@
                    == aggregate_id@,
        ),
{
    let accepts = |event: &OutboxEventRecord| -> (yes: bool)
        ensures
            yes == (optional_id(event.vault_id) == Some(context.id@) && event.aggregate_id@
                == aggregate_id@),
        {
            let in_vault = match &event.vault_id {
                Some(vault_id) => vault_id.same(&context.id),
                None => false,
            };
            in_vault && text_eq(event.aggregate_id.as_str(), aggregate_id)
        };
    count_rows(
        events,
        accepts,
        Ghost(
            |event: OutboxEventRecord|
                optional_id(event.vault_id) == Some(context.id@) && event.aggregate_id@
                    == aggregate_id@,
        ),
    ) as u64
}

/// Number of audit facts of the vault about one target.
pub fn count_audit_entries(context: &VaultContext, facts: &[AuditRecord], target_id: &str) -> (r: u64)
    ensures
        r == count(
            facts@,
            |fact: AuditRecord|
                optional_id(fact.vault_id) == Some(context.id@) && optional_text(fact.target_id)
                    == Some(target_id@),
        ),
{
    let accepts = |fact: &AuditRecord| -> (yes: bool)
        ensures
            yes == (optional_id(fact.vault_id) == Some(context.id@) && optional_text(fact.target_id)
                == Some(target_id@)),
        {
            let in_vault = match &fact.vault_id {
                Some(vault_id) => vault_id.same(&context.id),
                None => false,
            };
            let about = match &fact.target_id {
                Some(target) => text_eq(target.as_str(), target_id),
                None => false,
            };
            in_vault && about
        };
    count_rows(
        facts,
        accepts,
        Ghost(
            |fact: AuditRecord|
                optional_id(fact.vault_id) == Some(context.id@) && optional_text(fact.target_id)
                    == Some(target_id@),
        ),
    ) as u64
}

/// A live entry at a path is also found when deleted entries count, where no
/// path of the vault is held twice.
pub proof fn law_active_entries_are_entries(
    files: Seq<FileRecord>,
    vault: Seq<char>,
    path: Seq<char>,
    i: int,
)
    requires
        first_index(
            files,
            |file: FileRecord| file.stands_at(vault, path) && file.active(),
        ) == Some(i),
        forall|a: int, b: int|
            0 <= a < b < files.len() && #[trigger] files[a].stands_at(vault, path)
                ==> !#[trigger] files[b].stands_at(vault, path),
    ensures
        first_index(files, |file: FileRecord| file.stands_at(vault, path)) == Some(i),
{
    let live = |file: FileRecord| file.stands_at(vault, path) && file.active();
    let held = |file: FileRecord| file.stands_at(vault, path);
    crate::rows::lemma_first_index(files, live);
    assert(live(files[i]));
    assert forall|k: int| 0 <= k < i implies !held(#[trigger] files[k]) by {
        if files[k].stands_at(vault, path) {
            assert(!files[i].stands_at(vault, path));
        }
    }
    crate::rows::lemma_first_index_is(files, held, i);
}

} // verus!
