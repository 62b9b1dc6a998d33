//! Reading current memories: eligibility, filters, listings and counts.

use vstd::prelude::*;

use crate::current_memory::{
    validate_page, CurrentMemoryOwnership, CurrentMemoryRecord, CurrentMemorySourceRecord,
    MemoryNoteSetRecord, MemoryNoteSetSnapshotRecord, StoredItem, MAX_MEMORY_LIMIT,
};
use crate::domain::{Id, Revision, VaultContext, VaultPath};
use crate::error::{accepted_if, invalid, StateError};
use crate::files::FileRecord;
use crate::order::{is_order, is_page, keys, keys_of, page, select, sorted_order, Keyed, SortKey};
use crate::rows::{any, count, count_rows, find, first_index, first_row, marks, some_row};
use crate::score::Score;
use crate::search::{memory_search_terms, memory_terms};
use crate::text::{
    byte_len, bytes_of, is_listed, is_term_of, join, joined, listed, fold_label, fold_stored,
    label_form, stored_form, normalized_terms, optional_text, text_eq, texts,
};

verus! {

/// Whether a file is the live canonical file with a path and revision.
pub open spec fn is_canonical(
    file: FileRecord,
    vault: Seq<char>,
    id: Seq<char>,
    path: Seq<char>,
    revision: Revision,
) -> bool {
    &&& file.vault_id@ == vault
    &&& file.id@ == id
    &&& file.path@ == path
    &&& file.current_revision == revision
    &&& file.deleted_at is None
}

/// Whether the canonical file with a path and revision is live.
pub open spec fn canonical_current(
    files: Seq<FileRecord>,
    vault: Seq<char>,
    id: Seq<char>,
    path: Seq<char>,
    revision: Revision,
) -> bool {
    some_row(files, |file: FileRecord| is_canonical(file, vault, id, path, revision))
}

/// Whether the canonical file with a path and revision is live.
pub fn is_canonical_current(
    files: &[FileRecord],
    vault: &Id,
    id: &Id,
    path: &VaultPath,
    revision: Revision,
) -> (r: bool)
    ensures
        r == canonical_current(files@, vault@, id@, path@, revision),
{
    let accepts = |file: &FileRecord| -> (yes: bool)
        ensures
            yes == is_canonical(*file, vault@, id@, path@, revision),
        {
            file.vault_id.same(vault) && file.id.same(id) && file.path.same(path)
                && file.current_revision.value == revision.value && file.deleted_at.is_none()
        };
    any(
        files,
        accepts,
        Ghost(|file: FileRecord| is_canonical(file, vault@, id@, path@, revision)),
    )
}

/// Whether a file is a live source note, with exactly the given content where
/// one is given.
pub open spec fn is_source(
    file: FileRecord,
    vault: Seq<char>,
    id: Seq<char>,
    content_hash: Option<Seq<char>>,
) -> bool {
    &&& file.vault_id@ == vault
    &&& file.id@ == id
    &&& file.deleted_at is None
    &&& content_hash is Some ==> optional_text(file.content_hash) == content_hash
}

/// Whether a source note is live, with exactly the given content where one is
/// given.
pub open spec fn source_current(
    files: Seq<FileRecord>,
    vault: Seq<char>,
    id: Seq<char>,
    content_hash: Option<Seq<char>>,
) -> bool {
    some_row(files, |file: FileRecord| is_source(file, vault, id, content_hash))
}

/// Text of the content hash that is asked for, if one is.
pub open spec fn wanted_content(content_hash: Option<&String>) -> Option<Seq<char>> {
    match content_hash {
        Some(hash) => Some(hash@),
        None => None,
    }
}

/// Whether a source note is live with exactly the given content.
pub fn is_source_current(files: &[FileRecord], vault: &Id, id: &Id, content_hash: Option<&String>) -> (r: bool)
    ensures
        r == source_current(files@, vault@, id@, wanted_content(content_hash)),
{
    let accepts = |file: &FileRecord| -> (yes: bool)
        ensures
            yes == is_source(*file, vault@, id@, wanted_content(content_hash)),
        {
            let same_content = match (content_hash, &file.content_hash) {
                (None, _) => true,
                (Some(hash), Some(current)) => text_eq(hash.as_str(), current.as_str()),
                (Some(_), None) => false,
            };
            file.vault_id.same(vault) && file.id.same(id) && file.deleted_at.is_none()
                && same_content
        };
    any(
        files,
        accepts,
        Ghost(|file: FileRecord| is_source(file, vault@, id@, wanted_content(content_hash))),
    )
}

impl MemoryNoteSetRecord {
    /// Whether the canonical file of the set is live and its source note still
    /// has the content that the set was made from.
    pub open spec fn current(self, files: Seq<FileRecord>) -> bool {
        &&& source_current(
            files,
            self.vault_id@,
            self.source_file_id@,
            Some(self.source_content_hash@),
        )
        &&& canonical_current(
            files,
            self.vault_id@,
            self.canonical_file_id@,
            self.canonical_path@,
            self.canonical_revision,
        )
    }

    /// Whether the canonical file of the set and its source note are live.
    pub open spec fn canonical_live(self, files: Seq<FileRecord>) -> bool {
        &&& source_current(files, self.vault_id@, self.source_file_id@, None)
        &&& canonical_current(
            files,
            self.vault_id@,
            self.canonical_file_id@,
            self.canonical_path@,
            self.canonical_revision,
        )
    }

    /// Whether the set is current.
    pub fn is_current(&self, files: &[FileRecord]) -> (r: bool)
        ensures
            r == self.current(files@),
    {
        is_source_current(
            files,
            &self.vault_id,
            &self.source_file_id,
            Some(&self.source_content_hash),
        ) && is_canonical_current(
            files,
            &self.vault_id,
            &self.canonical_file_id,
            &self.canonical_path,
            self.canonical_revision,
        )
    }

    /// Whether the canonical file of the set and its source note are live.
    pub fn is_canonical_live(&self, files: &[FileRecord]) -> (r: bool)
        ensures
            r == self.canonical_live(files@),
    {
        is_source_current(files, &self.vault_id, &self.source_file_id, None)
            && is_canonical_current(
            files,
            &self.vault_id,
            &self.canonical_file_id,
            &self.canonical_path,
            self.canonical_revision,
        )
    }
}

impl CurrentMemoryRecord {
    /// Whether the canonical file of an explicit item is live.
    pub open spec fn canonical_live(self, files: Seq<FileRecord>) -> bool {
        &&& self.canonical_file_id is Some
        &&& self.canonical_path is Some
        &&& self.canonical_revision is Some
        &&& canonical_current(
            files,
            self.vault_id@,
            self.canonical_file_id->0@,
            self.canonical_path->0@,
            self.canonical_revision->0,
        )
    }

    /// Whether a set owns the item and is current.
    pub open spec fn owned_by_current(self, set: MemoryNoteSetRecord, files: Seq<FileRecord>) -> bool {
        &&& self.note_set_id is Some
        &&& set.is(self.vault_id@, self.note_set_id->0@)
        &&& set.current(files)
    }

    /// Whether the item can be read. A note move keeps file identity and
    /// content and leaves the item readable; a content change, a deletion, a
    /// missing canonical file or a half-published rewrite hides it at once.
    pub open spec fn eligible(self, sets: Seq<MemoryNoteSetRecord>, files: Seq<FileRecord>) -> bool {
        match self.ownership {
            CurrentMemoryOwnership::Explicit => self.canonical_live(files),
            CurrentMemoryOwnership::NoteDerived => some_row(
                sets,
                |set: MemoryNoteSetRecord| self.owned_by_current(set, files),
            ),
        }
    }

    /// Whether the canonical file of an explicit item is live.
    pub fn is_canonical_live(&self, files: &[FileRecord]) -> (r: bool)
        ensures
            r == self.canonical_live(files@),
    {
        match (&self.canonical_file_id, &self.canonical_path, self.canonical_revision) {
            (Some(id), Some(path), Some(revision)) => is_canonical_current(
                files,
                &self.vault_id,
                id,
                path,
                revision,
            ),
            _ => false,
        }
    }

    /// Whether the item can be read.
    pub fn is_eligible(&self, sets: &[MemoryNoteSetRecord], files: &[FileRecord]) -> (r: bool)
        ensures
            r == self.eligible(sets@, files@),
    {
        match self.ownership {
            CurrentMemoryOwnership::Explicit => self.is_canonical_live(files),
            CurrentMemoryOwnership::NoteDerived => {
                let accepts = |set: &MemoryNoteSetRecord| -> (yes: bool)
                    ensures
                        yes == self.owned_by_current(*set, files@),
                    {
                        let owner = match &self.note_set_id {
                            Some(id) => set.is_set(&self.vault_id, id),
                            None => false,
                        };
                        owner && set.is_current(files)
                    };
                any(
                    sets,
                    accepts,
                    Ghost(|set: MemoryNoteSetRecord| self.owned_by_current(set, files@)),
                )
            },
        }
    }
}

/// Whether a file is the live note behind a provenance row.
pub open spec fn is_note_of(file: FileRecord, source: CurrentMemorySourceRecord) -> bool {
    &&& source.note_file_id is Some
    &&& file.vault_id@ == source.vault_id@
    &&& file.id@ == source.note_file_id->0@
    &&& file.deleted_at is None
}

impl CurrentMemorySourceRecord {
    /// Where the source note is now: the path of the live file, else the path
    /// at capture time.
    pub open spec fn current_path(self, files: Seq<FileRecord>) -> Option<VaultPath> {
        match first_row(files, |file: FileRecord| is_note_of(file, self)) {
            Some(file) => Some(file.path),
            None => self.note_path,
        }
    }

    /// Where the source note is now.
    pub fn path_now(&self, files: &[FileRecord]) -> (r: Option<VaultPath>)
        ensures
            r == self.current_path(files@),
    {
        let accepts = |file: &FileRecord| -> (yes: bool)
            ensures
                yes == is_note_of(*file, *self),
            {
                let same_file = match &self.note_file_id {
                    Some(id) => file.id.same(id),
                    None => false,
                };
                same_file && file.vault_id.same(&self.vault_id) && file.deleted_at.is_none()
            };
        match find(files, accepts, Ghost(|file: FileRecord| is_note_of(file, *self))) {
            Some(i) => Some(files[i].path.duplicate()),
            None => crate::domain::duplicate_path(&self.note_path),
        }
    }
}

/// Current-only list and search filters.
#[derive(Clone, Debug, PartialEq, Eq)]
pub struct CurrentMemoryFilter {
    /// Optional kind labels.
    pub kinds: Vec<String>,
    /// Optional ownership labels.
    pub ownership: Vec<CurrentMemoryOwnership>,
    /// Optional exact tag, case-insensitive.
    pub tag: Option<String>,
    /// Optional exact entity, case-insensitive.
    pub entity: Option<String>,
    /// Optional current source path.
    pub source_path: Option<String>,
    /// Optional temporal eligibility point.
    pub valid_at: Option<i64>,
    /// Minimum importance; missing importance behaves as zero for this filter.
    pub min_importance: Option<Score>,
}

impl Default for CurrentMemoryFilter {
    /// The filter that lets every item pass.
    fn default() -> (r: CurrentMemoryFilter)
        ensures
            r.kinds@.len() == 0,
            r.ownership@.len() == 0,
            r.tag is None,
            r.entity is None,
            r.source_path is None,
            r.valid_at is None,
            r.min_importance is None,
    {
        CurrentMemoryFilter {
            kinds: Vec::new(),
            ownership: Vec::new(),
            tag: None,
            entity: None,
            source_path: None,
            valid_at: None,
            min_importance: None,
        }
    }
}

/// Whether one of the stored labels is the wanted one, whatever its case and
/// the spaces around it.
pub open spec fn has_term(stored: Seq<String>, wanted: Seq<char>) -> bool {
    some_row(stored, |label: String| label_form(label@) == label_form(wanted))
}

/// Whether one of the stored labels is the wanted one, whatever its case.
pub fn contains_term(stored: &[String], wanted: &str) -> (r: bool)
    ensures
        r == has_term(stored@, wanted@),
{
    let form = fold_label(wanted);
    let accepts = |label: &String| -> (yes: bool)
        ensures
            yes == (label_form(label@) == label_form(wanted@)),
        {
            let own = fold_label(label.as_str());
            text_eq(own.as_str(), form.as_str())
        };
    any(stored, accepts, Ghost(|label: String| label_form(label@) == label_form(wanted@)))
}

/// The importance that a filter compares: zero where there is none.
pub open spec fn compared_importance(importance: Option<Score>) -> Score {
    match importance {
        Some(importance) => importance,
        None => Score { bits: 0 },
    }
}

impl CurrentMemoryFilter {
    /// Whether an item passes the filter.
    pub open spec fn admits(self, item: StoredItem, files: Seq<FileRecord>) -> bool {
        let memory = item.memory;
        &&& self.kinds@.len() == 0 || (memory.kind is Some && listed(self.kinds@, memory.kind->0@))
        &&& self.ownership@.len() == 0 || self.ownership@.contains(memory.ownership)
        &&& self.tag is Some ==> has_term(memory.tags@, self.tag->0@)
        &&& self.entity is Some ==> has_term(memory.entities@, self.entity->0@)
        &&& self.source_path is Some ==> some_row(
            item.sources@,
            |source: CurrentMemorySourceRecord|
                source.current_path(files) is Some && source.current_path(files)->0@
                    == self.source_path->0@,
        )
        &&& self.valid_at is Some ==> (memory.valid_from is None || memory.valid_from->0
            <= self.valid_at->0) && (memory.valid_to is None || memory.valid_to->0
            > self.valid_at->0)
        &&& self.min_importance is Some ==> compared_importance(memory.importance).at_least(
            self.min_importance->0,
        )
    }

    /// Whether an item passes the filter.
    pub fn is_admitting(&self, item: &StoredItem, files: &[FileRecord]) -> (r: bool)
        ensures
            r == self.admits(*item, files@),
    {
        let memory = &item.memory;
        let kind_ok = self.kinds.len() == 0 || match &memory.kind {
            Some(kind) => is_listed(self.kinds.as_slice(), kind.as_str()),
            None => false,
        };
        let owner = memory.ownership;
        let same_owner = |ownership: &CurrentMemoryOwnership| -> (yes: bool)
            ensures
                yes == (*ownership == owner),
            { *ownership == owner };
        let ownership_ok = self.ownership.len() == 0 || any(
            self.ownership.as_slice(),
            same_owner,
            Ghost(|ownership: CurrentMemoryOwnership| ownership == owner),
        );
        proof {
            let rule = |ownership: CurrentMemoryOwnership| ownership == owner;
            if some_row(self.ownership@, rule) {
                let k = choose|k: int|
                    0 <= k < self.ownership@.len() && rule(#[trigger] self.ownership@[k]);
                assert(self.ownership@[k] == owner);
            }
        }
        let tag_ok = match &self.tag {
            Some(tag) => contains_term(memory.tags.as_slice(), tag.as_str()),
            None => true,
        };
        let entity_ok = match &self.entity {
            Some(entity) => contains_term(memory.entities.as_slice(), entity.as_str()),
            None => true,
        };
        let source_ok = match &self.source_path {
            Some(path) => {
                let here = |source: &CurrentMemorySourceRecord| -> (yes: bool)
                    ensures
                        yes == (source.current_path(files@) is Some && source.current_path(
                            files@,
                        )->0@ == path@),
                    {
                        match source.path_now(files) {
                            Some(now) => text_eq(now.as_str(), path.as_str()),
                            None => false,
                        }
                    };
                any(
                    item.sources.as_slice(),
                    here,
                    Ghost(
                        |source: CurrentMemorySourceRecord|
                            source.current_path(files@) is Some && source.current_path(files@)->0@
                                == self.source_path->0@,
                    ),
                )
            },
            None => true,
        };
        let valid_ok = match self.valid_at {
            Some(at) => {
                let begun = match memory.valid_from {
                    Some(from) => from <= at,
                    None => true,
                };
                let lasting = match memory.valid_to {
                    Some(to) => to > at,
                    None => true,
                };
                begun && lasting
            },
            None => true,
        };
        let importance_ok = match self.min_importance {
            Some(least) => {
                let importance = match memory.importance {
                    Some(importance) => importance,
                    None => Score { bits: 0 },
                };
                importance.is_at_least(least)
            },
            None => true,
        };
        kind_ok && ownership_ok && tag_ok && entity_ok && source_ok && valid_ok && importance_ok
    }
}

impl StoredItem {
    /// Whether the item is a readable one of the vault.
    pub open spec fn readable(
        self,
        vault: Seq<char>,
        sets: Seq<MemoryNoteSetRecord>,
        files: Seq<FileRecord>,
    ) -> bool {
        self.memory.vault_id@ == vault && self.memory.eligible(sets, files)
    }

    /// Whether the item is a readable one of the vault.
    pub fn is_readable(&self, vault: &Id, sets: &[MemoryNoteSetRecord], files: &[FileRecord]) -> (r: bool)
        ensures
            r == self.readable(vault@, sets@, files@),
    {
        self.memory.vault_id.same(vault) && self.memory.is_eligible(sets, files)
    }
}

/// The position of one item without freshness filtering, for reconciliation
/// and revision-aware mutation.
pub fn get_unchecked(context: &VaultContext, items: &[StoredItem], memory_id: &Id) -> (r: Option<usize>)
    ensures
        match r {
            Some(i) => i < items@.len() && first_index(
                items@,
                |item: StoredItem| item.is(context.id@, memory_id@),
            ) == Some(i as int),
            None => first_index(items@, |item: StoredItem| item.is(context.id@, memory_id@)) is None,
        },
{
    let accepts = |item: &StoredItem| -> (yes: bool)
        ensures
            yes == item.is(context.id@, memory_id@),
        { item.is_item(&context.id, memory_id) };
    find(items, accepts, Ghost(|item: StoredItem| item.is(context.id@, memory_id@)))
}

/// The position of one readable item. Stale canonical or source state is
/// indistinguishable from a missing item at this boundary.
pub fn get(
    context: &VaultContext,
    items: &[StoredItem],
    sets: &[MemoryNoteSetRecord],
    files: &[FileRecord],
    memory_id: &Id,
) -> (r: Option<usize>)
    ensures
        match r {
            Some(i) => i < items@.len() && first_index(
                items@,
                |item: StoredItem|
                    item.is(context.id@, memory_id@) && item.memory.eligible(sets@, files@),
            ) == Some(i as int),
            None => first_index(
                items@,
                |item: StoredItem|
                    item.is(context.id@, memory_id@) && item.memory.eligible(sets@, files@),
            ) is None,
        },
{
    let accepts = |item: &StoredItem| -> (yes: bool)
        ensures
            yes == (item.is(context.id@, memory_id@) && item.memory.eligible(sets@, files@)),
        { item.is_item(&context.id, memory_id) && item.memory.is_eligible(sets, files) };
    find(
        items,
        accepts,
        Ghost(
            |item: StoredItem|
                item.is(context.id@, memory_id@) && item.memory.eligible(sets@, files@),
        ),
    )
}

impl Keyed for StoredItem {
    /// Latest update first, then by identity.
    open spec fn key(self) -> SortKey {
        SortKey {
            first: (0 - self.memory.updated_at) as i128,
            second: 0,
            third: 0,
            id: self.memory.id.text,
        }
    }

    fn sort_key(&self) -> (k: SortKey) {
        SortKey {
            first: -(self.memory.updated_at as i128),
            second: 0,
            third: 0,
            id: self.memory.id.text.clone(),
        }
    }
}

/// Which items a listing shows.
pub open spec fn shown(
    items: Seq<StoredItem>,
    vault: Seq<char>,
    sets: Seq<MemoryNoteSetRecord>,
    files: Seq<FileRecord>,
    filter: CurrentMemoryFilter,
) -> Seq<bool> {
    items.map_values(
        |item: StoredItem| item.readable(vault, sets, files) && filter.admits(item, files),
    )
}

/// Positions of one page of the readable items that pass a filter, latest
/// update first.
pub fn list(
    context: &VaultContext,
    items: &[StoredItem],
    sets: &[MemoryNoteSetRecord],
    files: &[FileRecord],
    filter: &CurrentMemoryFilter,
    limit: u32,
    offset: u32,
) -> (r: Result<Vec<usize>, StateError>)
    ensures
        if !(1 <= limit <= MAX_MEMORY_LIMIT && offset <= 100_000) {
            r == invalid::<Vec<usize>>("current-memory page bounds are invalid")
        } else {
            r matches Ok(picked) && is_page(
                keys(items@),
                shown(items@, context.id@, sets@, files@, *filter),
                false,
                limit as nat,
                offset as nat,
                picked@,
            )
        },
{
    match validate_page(limit, offset) {
        Ok(()) => {},
        Err(error) => return Err(error),
    }
    let accepts = |item: &StoredItem| -> (yes: bool)
        ensures
            yes == (item.readable(context.id@, sets@, files@) && filter.admits(*item, files@)),
        { item.is_readable(&context.id, sets, files) && filter.is_admitting(item, files) };
    let eligible = marks(
        items,
        accepts,
        Ghost(
            |item: StoredItem|
                item.readable(context.id@, sets@, files@) && filter.admits(item, files@),
        ),
    );
    let order_keys = keys_of(items);
    Ok(page(order_keys.as_slice(), eligible.as_slice(), false, limit, offset))
}

/// Whether one of the stored labels is a compared form of the wanted values.
pub open spec fn names_any(stored: Seq<String>, wanted: Seq<String>) -> bool {
    some_row(stored, |label: String| is_term_of(wanted, stored_form(label@)))
}

/// Whether one of the stored labels is among the terms.
fn contains_any(stored: &[String], terms: &[String], wanted: &[String]) -> (r: bool)
    requires
        forall|t: Seq<char>| #[trigger] listed(terms@, t) <==> is_term_of(wanted@, t),
    ensures
        r == names_any(stored@, wanted@),
{
    let accepts = |label: &String| -> (yes: bool)
        ensures
            yes == is_term_of(wanted@, stored_form(label@)),
        {
            let own = fold_stored(label.as_str());
            is_listed(terms, own.as_str())
        };
    any(stored, accepts, Ghost(|label: String| is_term_of(wanted@, stored_form(label@))))
}

/// Which items mention one of the given entities or tags.
pub open spec fn mentioning(
    items: Seq<StoredItem>,
    vault: Seq<char>,
    sets: Seq<MemoryNoteSetRecord>,
    files: Seq<FileRecord>,
    entities: Seq<String>,
    tags: Seq<String>,
    filter: CurrentMemoryFilter,
) -> Seq<bool> {
    items.map_values(
        |item: StoredItem|
            item.readable(vault, sets, files) && (names_any(item.memory.entities@, entities)
                || names_any(item.memory.tags@, tags)) && filter.admits(item, files),
    )
}

/// Match explicit context entities and tags without admitting unrelated recent
/// memories merely because they exist. Gives positions, latest update first.
pub fn search_terms(
    context: &VaultContext,
    items: &[StoredItem],
    sets: &[MemoryNoteSetRecord],
    files: &[FileRecord],
    entities: &[String],
    tags: &[String],
    filter: &CurrentMemoryFilter,
    limit: u32,
) -> (r: Result<Vec<usize>, StateError>)
    ensures
        if !(1 <= limit <= MAX_MEMORY_LIMIT) {
            r == invalid::<Vec<usize>>("current-memory page bounds are invalid")
        } else {
            r matches Ok(picked) && is_page(
                keys(items@),
                mentioning(items@, context.id@, sets@, files@, entities@, tags@, *filter),
                false,
                limit as nat,
                0,
                picked@,
            )
        },
{
    match validate_page(limit, 0) {
        Ok(()) => {},
        Err(error) => return Err(error),
    }
    let entity_terms = normalized_terms(entities);
    let tag_terms = normalized_terms(tags);
    let accepts = |item: &StoredItem| -> (yes: bool)
        ensures
            yes == (item.readable(context.id@, sets@, files@) && (names_any(
                item.memory.entities@,
                entities@,
            ) || names_any(item.memory.tags@, tags@)) && filter.admits(*item, files@)),
        {
            let named = contains_any(
                item.memory.entities.as_slice(),
                entity_terms.as_slice(),
                entities,
            ) || contains_any(item.memory.tags.as_slice(), tag_terms.as_slice(), tags);
            item.is_readable(&context.id, sets, files) && named && filter.is_admitting(item, files)
        };
    let eligible = marks(
        items,
        accepts,
        Ghost(
            |item: StoredItem|
                item.readable(context.id@, sets@, files@) && (names_any(
                    item.memory.entities@,
                    entities@,
                ) || names_any(item.memory.tags@, tags@)) && filter.admits(item, files@),
        ),
    );
    let order_keys = keys_of(items);
    Ok(page(order_keys.as_slice(), eligible.as_slice(), false, limit, 0))
}

/// One answer of the full-text index.
#[derive(Clone, Debug, PartialEq, Eq)]
pub struct TextHit {
    /// Item that the query matched.
    pub memory_id: Id,
    /// Raw relevance rank; lower is better.
    pub rank: Score,
}

impl Keyed for TextHit {
    /// Best rank first, then by identity.
    open spec fn key(self) -> SortKey {
        SortKey { first: self.rank.rank() as i128, second: 0, third: 0, id: self.memory_id.text }
    }

    fn sort_key(&self) -> (k: SortKey) {
        SortKey {
            first: self.rank.order(),
            second: 0,
            third: 0,
            id: self.memory_id.text.clone(),
        }
    }
}

/// Which answers of the full-text index belong to readable items that pass the
/// filter.
pub open spec fn hits_shown(
    hits: Seq<TextHit>,
    items: Seq<StoredItem>,
    vault: Seq<char>,
    sets: Seq<MemoryNoteSetRecord>,
    files: Seq<FileRecord>,
    filter: CurrentMemoryFilter,
) -> Seq<bool> {
    hits.map_values(
        |hit: TextHit|
            some_row(
                items,
                |item: StoredItem|
                    item.is(vault, hit.memory_id@) && item.memory.eligible(sets, files)
                        && filter.admits(item, files),
            ),
    )
}

/// Checks a query for the full-text index.
pub fn validate_fts_query(fts_query: &str, limit: u32) -> (r: Result<(), StateError>)
    ensures
        r == (if !(1 <= limit <= MAX_MEMORY_LIMIT) {
            invalid("current-memory page bounds are invalid")
        } else {
            accepted_if(
                1 <= byte_len(fts_query@) <= 16_384,
                "current-memory FTS query is invalid",
            )
        }),
{
    match validate_page(limit, 0) {
        Ok(()) => {},
        Err(error) => return Err(error),
    }
    let n: usize = bytes_of(fts_query);
    if n == 0 || n > 16_384 {
        return Err(StateError::InvalidInput("current-memory FTS query is invalid"));
    }
    Ok(())
}

/// Positions among the hits of those that are shown, best rank first. `hits`
/// are what the full-text index answered to the query in this vault.
pub fn search_fts(
    context: &VaultContext,
    items: &[StoredItem],
    sets: &[MemoryNoteSetRecord],
    files: &[FileRecord],
    fts_query: &str,
    hits: &[TextHit],
    filter: &CurrentMemoryFilter,
    limit: u32,
) -> (r: Result<Vec<usize>, StateError>)
    ensures
        if !(1 <= limit <= MAX_MEMORY_LIMIT) {
            r == invalid::<Vec<usize>>("current-memory page bounds are invalid")
        } else if !(1 <= byte_len(fts_query@) <= 16_384) {
            r == invalid::<Vec<usize>>("current-memory FTS query is invalid")
        } else {
            r matches Ok(picked) && is_page(
                keys(hits@),
                hits_shown(hits@, items@, context.id@, sets@, files@, *filter),
                false,
                limit as nat,
                0,
                picked@,
            )
        },
{
    match validate_fts_query(fts_query, limit) {
        Ok(()) => {},
        Err(error) => return Err(error),
    }
    let mut eligible: Vec<bool> = Vec::new();
    let mut i: usize = 0;
    let ghost wanted = hits_shown(hits@, items@, context.id@, sets@, files@, *filter);
    while i < hits.len()
        invariant
            i <= hits@.len(),
            wanted == hits_shown(hits@, items@, context.id@, sets@, files@, *filter),
            eligible@ == wanted.take(i as int),
        decreases hits@.len() - i,
    {
        let hit = &hits[i];
        let accepts = |item: &StoredItem| -> (yes: bool)
            ensures
                yes == (item.is(context.id@, hit.memory_id@) && item.memory.eligible(sets@, files@)
                    && filter.admits(*item, files@)),
            {
                item.is_item(&context.id, &hit.memory_id) && item.memory.is_eligible(sets, files)
                    && filter.is_admitting(item, files)
            };
        let ghost vault = context.id@;
        let ghost all_sets = sets@;
        let ghost all_files = files@;
        let ghost rules = *filter;
        let found = any(
            items,
            accepts,
            Ghost(
                |item: StoredItem|
                    item.is(vault, hit.memory_id@) && item.memory.eligible(all_sets, all_files)
                        && rules.admits(item, all_files),
            ),
        );
        eligible.push(found);
        i += 1;
        assert(eligible@ =~= wanted.take(i as int));
    }
    assert(eligible@ =~= wanted);
    let order_keys = keys_of(hits);
    Ok(page(order_keys.as_slice(), eligible.as_slice(), false, limit, 0))
}

/// Current-only dashboard counts.
#[derive(Clone, Copy, Debug, PartialEq, Eq, Structural)]
pub struct CurrentMemoryCounts {
    /// All readable current items.
    pub total: u64,
    /// Independently owned explicit items.
    pub explicit: u64,
    /// Items owned by current source-note sets.
    pub note_derived: u64,
    /// Source sets paused after a manual derived-item deletion.
    pub paused_sources: u64,
}

/// Number of readable items of a vault with the given ownership.
pub open spec fn readable_count(
    items: Seq<StoredItem>,
    vault: Seq<char>,
    sets: Seq<MemoryNoteSetRecord>,
    files: Seq<FileRecord>,
    ownership: CurrentMemoryOwnership,
) -> nat {
    count(
        items,
        |item: StoredItem| item.readable(vault, sets, files) && item.memory.ownership == ownership,
    )
}

/// Current-only ownership and pause counts.
pub fn counts(
    context: &VaultContext,
    items: &[StoredItem],
    sets: &[MemoryNoteSetRecord],
    files: &[FileRecord],
) -> (r: CurrentMemoryCounts)
    ensures
        r.explicit == readable_count(
            items@,
            context.id@,
            sets@,
            files@,
            CurrentMemoryOwnership::Explicit,
        ),
        r.note_derived == readable_count(
            items@,
            context.id@,
            sets@,
            files@,
            CurrentMemoryOwnership::NoteDerived,
        ),
        r.total == if r.explicit + r.note_derived > u64::MAX {
            u64::MAX as int
        } else {
            r.explicit + r.note_derived
        },
        r.paused_sources == count(
            sets@,
            |set: MemoryNoteSetRecord| set.vault_id@ == context.id@ && set.extraction_paused,
        ),
{
    let explicit_item = |item: &StoredItem| -> (yes: bool)
        ensures
            yes == (item.readable(context.id@, sets@, files@) && item.memory.ownership
                == CurrentMemoryOwnership::Explicit),
        {
            item.memory.ownership == CurrentMemoryOwnership::Explicit && item.is_readable(
                &context.id,
                sets,
                files,
            )
        };
    let explicit: usize = count_rows(
        items,
        explicit_item,
        Ghost(
            |item: StoredItem|
                item.readable(context.id@, sets@, files@) && item.memory.ownership
                    == CurrentMemoryOwnership::Explicit,
        ),
    );
    let derived_item = |item: &StoredItem| -> (yes: bool)
        ensures
            yes == (item.readable(context.id@, sets@, files@) && item.memory.ownership
                == CurrentMemoryOwnership::NoteDerived),
        {
            item.memory.ownership == CurrentMemoryOwnership::NoteDerived && item.is_readable(
                &context.id,
                sets,
                files,
            )
        };
    let derived: usize = count_rows(
        items,
        derived_item,
        Ghost(
            |item: StoredItem|
                item.readable(context.id@, sets@, files@) && item.memory.ownership
                    == CurrentMemoryOwnership::NoteDerived,
        ),
    );
    let paused_set = |set: &MemoryNoteSetRecord| -> (yes: bool)
        ensures
            yes == (set.vault_id@ == context.id@ && set.extraction_paused),
        { set.extraction_paused && set.vault_id.same(&context.id) };
    let paused: usize = count_rows(
        sets,
        paused_set,
        Ghost(|set: MemoryNoteSetRecord| set.vault_id@ == context.id@ && set.extraction_paused),
    );
    CurrentMemoryCounts {
        total: (explicit as u64).saturating_add(derived as u64),
        explicit: explicit as u64,
        note_derived: derived as u64,
        paused_sources: paused as u64,
    }
}

/// Order of provenance rows: by creation time, then identity.
impl Keyed for CurrentMemorySourceRecord {
    open spec fn key(self) -> SortKey {
        SortKey { first: self.created_at as i128, second: 0, third: 0, id: self.id.text }
    }

    fn sort_key(&self) -> (k: SortKey) {
        SortKey {
            first: self.created_at as i128,
            second: 0,
            third: 0,
            id: self.id.text.clone(),
        }
    }
}

/// Positions of an item's provenance rows in the order in which they are
/// shown, each with the path where its note is now.
pub fn list_sources(item: &StoredItem, files: &[FileRecord]) -> (r: Vec<(usize, Option<VaultPath>)>)
    ensures
        is_order(keys(item.sources@), r@.map_values(|entry: (usize, Option<VaultPath>)| entry.0)),
        forall|i: int|
            0 <= i < r@.len() ==> (#[trigger] r@[i]).1 == item.sources@[r@[i].0 as int].current_path(
                files@,
            ),
{
    let order_keys = keys_of(item.sources.as_slice());
    let order = sorted_order(order_keys.as_slice());
    let mut out: Vec<(usize, Option<VaultPath>)> = Vec::new();
    let mut i: usize = 0;
    while i < order.len()
        invariant
            i <= order@.len(),
            is_order(keys(item.sources@), order@),
            out@.map_values(|entry: (usize, Option<VaultPath>)| entry.0) == order@.take(i as int),
            out@.len() == i,
            forall|k: int|
                0 <= k < i ==> (#[trigger] out@[k]).1 == item.sources@[out@[k].0 as int].current_path(
                    files@,
                ),
        decreases order@.len() - i,
    {
        let at: usize = order[i];
        let path = item.sources[at].path_now(files);
        out.push((at, path));
        i += 1;
        assert(out@.map_values(|entry: (usize, Option<VaultPath>)| entry.0) =~= order@.take(
            i as int,
        ));
    }
    assert(order@.take(i as int) =~= order@);
    out
}

/// Where an item of a set stands: by ordinal, those without one first, then by
/// identity.
pub open spec fn set_key(item: StoredItem) -> SortKey {
    SortKey {
        first: match item.memory.ordinal {
            Some(ordinal) => ordinal as i128,
            None => -1i128,
        },
        second: 0,
        third: 0,
        id: item.memory.id.text,
    }
}

/// Positions of every item of a set, in the set's order, for deterministic
/// rewrites and recovery. The set must be stored.
pub fn list_note_set_items(
    context: &VaultContext,
    items: &[StoredItem],
    sets: &[MemoryNoteSetRecord],
    set_id: &Id,
) -> (r: Result<Vec<usize>, StateError>)
    ensures
        if !some_row(sets@, |set: MemoryNoteSetRecord| set.is(context.id@, set_id@)) {
            r == Err::<Vec<usize>, StateError>(StateError::Conflict)
        } else {
            r matches Ok(picked) && crate::order::is_selection(
                items@.map_values(|item: StoredItem| set_key(item)),
                items@.map_values(|item: StoredItem| item.in_set(context.id@, set_id@)),
                items@.len(),
                picked@,
            )
        },
{
    let stored = |set: &MemoryNoteSetRecord| -> (yes: bool)
        ensures
            yes == set.is(context.id@, set_id@),
        { set.is_set(&context.id, set_id) };
    if !any(
        sets,
        stored,
        Ghost(|set: MemoryNoteSetRecord| set.is(context.id@, set_id@)),
    ) {
        return Err(StateError::Conflict);
    }
    let mut order_keys: Vec<SortKey> = Vec::new();
    let mut i: usize = 0;
    while i < items.len()
        invariant
            i <= items@.len(),
            order_keys@ == items@.take(i as int).map_values(|item: StoredItem| set_key(item)),
        decreases items@.len() - i,
    {
        let memory = &items[i].memory;
        let first: i128 = match memory.ordinal {
            Some(ordinal) => ordinal as i128,
            None => -1,
        };
        order_keys.push(SortKey { first, second: 0, third: 0, id: memory.id.text.clone() });
        i += 1;
        assert(order_keys@ =~= items@.take(i as int).map_values(|item: StoredItem| set_key(item)));
    }
    assert(items@.take(i as int) =~= items@);
    let accepts = |item: &StoredItem| -> (yes: bool)
        ensures
            yes == item.in_set(context.id@, set_id@),
        { item.is_in_set(&context.id, set_id) };
    let eligible = marks(
        items,
        accepts,
        Ghost(|item: StoredItem| item.in_set(context.id@, set_id@)),
    );
    Ok(select(order_keys.as_slice(), eligible.as_slice(), items.len()))
}

/// What the full-text index holds of an item.
pub struct ItemText {
    pub entities: String,
    pub tags: String,
    pub search_terms: String,
}

/// Texts of an item that its search terms come from.
pub open spec fn indexed_texts(memory: CurrentMemoryRecord) -> Seq<Seq<char>> {
    seq![memory.content@] + texts(memory.tags@) + texts(memory.entities@)
}

/// What the full-text index holds of an item, beside its content.
pub fn item_text(memory: &CurrentMemoryRecord) -> (r: ItemText)
    ensures
        r.entities@ == joined(texts(memory.entities@), " "@),
        r.tags@ == joined(texts(memory.tags@), " "@),
        r.search_terms@ == memory_terms(indexed_texts(*memory), 4096),
{
    let mut values: Vec<&str> = Vec::new();
    values.push(memory.content.as_str());
    let mut i: usize = 0;
    while i < memory.tags.len()
        invariant
            i <= memory.tags@.len(),
            values@.len() == 1 + i,
            values@[0]@ == memory.content@,
            forall|k: int| 0 <= k < i ==> #[trigger] values@[1 + k]@ == memory.tags@[k]@,
        decreases memory.tags@.len() - i,
    {
        values.push(memory.tags[i].as_str());
        i += 1;
    }
    let ghost n = memory.tags@.len();
    let mut j: usize = 0;
    while j < memory.entities.len()
        invariant
            j <= memory.entities@.len(),
            n == memory.tags@.len(),
            values@.len() == 1 + n + j,
            values@[0]@ == memory.content@,
            forall|k: int| 0 <= k < n ==> #[trigger] values@[1 + k]@ == memory.tags@[k]@,
            forall|k: int| 0 <= k < j ==> #[trigger] values@[1 + n + k]@ == memory.entities@[k]@,
        decreases memory.entities@.len() - j,
    {
        values.push(memory.entities[j].as_str());
        j += 1;
    }
    proof {
        let all = values@.map_values(|value: &str| value@);
        let wanted = indexed_texts(*memory);
        assert(all.len() == wanted.len());
        assert forall|k: int| 0 <= k < all.len() implies all[k] == wanted[k] by {
            if k == 0 {
            } else if k <= n {
                assert(values@[1 + (k - 1)]@ == memory.tags@[k - 1]@);
            } else {
                assert(values@[1 + n + (k - 1 - n)]@ == memory.entities@[k - 1 - n]@);
            }
        }
        assert(all =~= wanted);
    }
    ItemText {
        entities: join(memory.entities.as_slice(), " "),
        tags: join(memory.tags.as_slice(), " "),
        search_terms: memory_search_terms(values.as_slice(), 4096),
    }
}

impl Keyed for MemoryNoteSetSnapshotRecord {
    /// Oldest first, then by identity.
    open spec fn key(self) -> SortKey {
        SortKey { first: self.created_at as i128, second: 0, third: 0, id: self.id.text }
    }

    fn sort_key(&self) -> (k: SortKey) {
        SortKey {
            first: self.created_at as i128,
            second: 0,
            third: 0,
            id: self.id.text.clone(),
        }
    }
}

impl MemoryNoteSetSnapshotRecord {
    /// Whether this is a proposal for a source note that waits for publication.
    pub open spec fn pending(self, vault: Seq<char>, source: Seq<char>) -> bool {
        &&& self.vault_id@ == vault
        &&& self.source_file_id@ == source
        &&& self.status@ == "prepared"@
    }

    /// Whether this is a proposal for a source note that waits for publication.
    pub fn is_pending(&self, vault: &Id, source: &Id) -> (r: bool)
        ensures
            r == self.pending(vault@, source@),
    {
        self.vault_id.same(vault) && self.source_file_id.same(source) && text_eq(
            self.status.as_str(),
            "prepared",
        )
    }
}

/// Whether `i` is the oldest pending proposal for a source note.
pub open spec fn is_prepared(
    snapshots: Seq<MemoryNoteSetSnapshotRecord>,
    vault: Seq<char>,
    source: Seq<char>,
    i: usize,
) -> bool {
    crate::order::is_selection(
        keys(snapshots),
        snapshots.map_values(|p: MemoryNoteSetSnapshotRecord| p.pending(vault, source)),
        1,
        seq![i],
    )
}

/// Whether no proposal is pending for a source note.
pub open spec fn none_pending(
    snapshots: Seq<MemoryNoteSetSnapshotRecord>,
    vault: Seq<char>,
    source: Seq<char>,
) -> bool {
    forall|k: int| 0 <= k < snapshots.len() ==> !(#[trigger] snapshots[k]).pending(vault, source)
}

/// The position of the prepared snapshot for one exact source, if any.
pub fn prepared_note_set_snapshot(
    context: &VaultContext,
    snapshots: &[MemoryNoteSetSnapshotRecord],
    source_file_id: &Id,
) -> (r: Option<usize>)
    ensures
        match r {
            Some(i) => i < snapshots@.len() && is_prepared(
                snapshots@,
                context.id@,
                source_file_id@,
                i,
            ) && snapshots@[i as int].pending(context.id@, source_file_id@),
            None => forall|k: int|
                0 <= k < snapshots@.len() ==> !(#[trigger] snapshots@[k]).pending(
                    context.id@,
                    source_file_id@,
                ),
        },
        r is None ==> none_pending(snapshots@, context.id@, source_file_id@),
{
    let accepts = |p: &MemoryNoteSetSnapshotRecord| -> (yes: bool)
        ensures
            yes == p.pending(context.id@, source_file_id@),
        { p.is_pending(&context.id, source_file_id) };
    let eligible = marks(
        snapshots,
        accepts,
        Ghost(|p: MemoryNoteSetSnapshotRecord| p.pending(context.id@, source_file_id@)),
    );
    let order_keys = keys_of(snapshots);
    let picked = select(order_keys.as_slice(), eligible.as_slice(), 1);
    if picked.len() == 0 {
        assert forall|k: int| 0 <= k < snapshots@.len() implies !(
        #[trigger] snapshots@[k]).pending(context.id@, source_file_id@) by {
            assert(eligible@[k] == snapshots@[k].pending(context.id@, source_file_id@));
        }
        return None;
    }
    assert(picked@ =~= seq![picked@[0]]);
    assert(eligible@[picked@[0] as int]);
    Some(picked[0])
}

/// What a listing shows is readable: it belongs to the vault, and its canonical
/// file and, for derived items, its source content are current.
pub proof fn law_listing_shows_current_items(
    items: Seq<StoredItem>,
    vault: Seq<char>,
    sets: Seq<MemoryNoteSetRecord>,
    files: Seq<FileRecord>,
    filter: CurrentMemoryFilter,
    limit: nat,
    offset: nat,
    picked: Seq<usize>,
)
    requires
        is_page(keys(items), shown(items, vault, sets, files, filter), false, limit, offset, picked),
    ensures
        picked.len() <= limit,
        forall|k: int|
            0 <= k < picked.len() ==> items[#[trigger] picked[k] as int].readable(
                vault,
                sets,
                files,
            ),
{
    crate::order::law_page_is_bounded(
        keys(items),
        shown(items, vault, sets, files, filter),
        false,
        limit,
        offset,
        picked,
    );
}

/// Moving a note leaves what was read from it readable: only its path changes.
pub proof fn law_moved_notes_stay_readable(
    set: MemoryNoteSetRecord,
    files: Seq<FileRecord>,
    moved: Seq<FileRecord>,
    i: int,
    path: VaultPath,
)
    requires
        0 <= i < files.len(),
        set.current(files),
        files[i].id@ == set.source_file_id@,
        files[i].id@ != set.canonical_file_id@,
        moved == files.update(i, FileRecord { path, ..files[i] }),
    ensures
        set.current(moved),
{
    let vault = set.vault_id@;
    let source = |file: FileRecord|
        is_source(file, vault, set.source_file_id@, Some(set.source_content_hash@));
    let canonical = |file: FileRecord|
        is_canonical(
            file,
            vault,
            set.canonical_file_id@,
            set.canonical_path@,
            set.canonical_revision,
        );
    let a = choose|a: int| 0 <= a < files.len() && source(#[trigger] files[a]);
    let b = choose|b: int| 0 <= b < files.len() && canonical(#[trigger] files[b]);
    assert(source(moved[a]));
    assert(canonical(moved[b]));
}

/// Changing or deleting the source note hides every item of its set at once.
pub proof fn law_changed_sources_hide_items(
    memory: CurrentMemoryRecord,
    sets: Seq<MemoryNoteSetRecord>,
    files: Seq<FileRecord>,
)
    requires
        memory.ownership == CurrentMemoryOwnership::NoteDerived,
        forall|s: int, f: int|
            0 <= s < sets.len() && 0 <= f < files.len() && memory.note_set_id is Some && (
            #[trigger] sets[s]).is(memory.vault_id@, memory.note_set_id->0@) && (
            #[trigger] files[f]).id@ == sets[s].source_file_id@ ==> files[f].deleted_at is Some
                || optional_text(files[f].content_hash) != Some(sets[s].source_content_hash@),
    ensures
        !memory.eligible(sets, files),
{
    if memory.eligible(sets, files) {
        let rule = |set: MemoryNoteSetRecord| memory.owned_by_current(set, files);
        let s = choose|s: int| 0 <= s < sets.len() && rule(#[trigger] sets[s]);
        let set = sets[s];
        let source = |file: FileRecord|
            is_source(
                file,
                set.vault_id@,
                set.source_file_id@,
                Some(set.source_content_hash@),
            );
        let f = choose|f: int| 0 <= f < files.len() && source(#[trigger] files[f]);
        assert(files[f].id@ == sets[s].source_file_id@);
    }
}

} // verus!
