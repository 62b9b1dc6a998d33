//! Formal memories: one published proposition over the contributions of
//! several notes, and the local publication that keeps them.

use vstd::prelude::*;

use crate::current_memory::formal_commit::{find_in_flight, flies_for, in_flight, OperationState};
use crate::current_memory::identities::{reserve_new, reserved_twice};
use crate::current_memory::publish::{stored, unstorable};
use crate::current_memory::reads::{get_unchecked, list_sources};
use crate::current_memory::{
    checked, validate_page, CurrentMemoryBundle, CurrentMemoryOwnership, CurrentMemoryRecord,
    CurrentMemorySourceRecord, MemoryNoteSetRecord, StoredItem, MAX_MEMORY_LIMIT,
};
use crate::domain::{
    duplicate_optional, duplicate_path, duplicate_text, Id, Revision, VaultContext, VaultPath,
};
use crate::error::{duplicate_row, invalid, refuse_duplicate, StateError};
use crate::files::FileRecord;
use crate::hash::{append_text, sha256_tagged, tagged_digest, well_tagged};
use crate::json::{json_literal, literal, print_strings, strings_json};
use crate::order::{is_order, is_selection, keys, keys_of, select, sorted_order, Keyed, SortKey};
use crate::rows::{
    any, count, count_rows, each, find, first_index, first_row, keep, lemma_first_index,
    lemma_put_is_found, marks, some_row,
};
use crate::text::{
    copy_texts, format_decimal, optional_text, signed_decimal, text_before, text_eq, text_less,
    texts,
};

verus! {

/// Exact current contribution supporting the complete formal proposition.
#[derive(Clone, Debug, PartialEq, Eq)]
pub struct FormalMemorySupport {
    /// Source-owned contribution identity.
    pub contribution_id: Id,
    /// Stable source identity; paths never establish ownership.
    pub source_file_id: Id,
    /// Exact represented source bytes.
    pub source_hash: String,
    /// Exact semantic contribution identity, including optional metadata.
    pub semantic_hash: String,
}

/// Portable formal object; canonical physical metadata is assigned elsewhere.
#[derive(Clone, Debug, PartialEq, Eq)]
pub struct FormalMemoryDocument {
    /// Representative complete proposition and preserved metadata.
    pub memory: CurrentMemoryRecord,
    /// Independently validated supports, never a similarity component.
    pub supports: Vec<FormalMemorySupport>,
}

/// One local source rewrite performed with formal forgetting or compaction.
#[derive(Clone, Debug, PartialEq, Eq)]
pub struct FormalSourceRewrite {
    /// Set revision observed before preparing the operation.
    pub expected_revision: Revision,
    /// Next source set, including explicit pause state.
    pub set: MemoryNoteSetRecord,
    /// Complete surviving contributions.
    pub items: Vec<CurrentMemoryBundle>,
}

/// One bounded crash-recoverable publication. Only one can be active per vault.
#[derive(Clone, Debug, PartialEq, Eq)]
pub struct FormalMemoryOperation {
    /// Stable operation identity allocated before canonical writes.
    pub id: String,
    /// Previous formal objects used for revision checks and file cleanup.
    pub before: Vec<FormalMemoryDocument>,
    /// Complete new objects, with stable identities.
    pub after: Vec<FormalMemoryDocument>,
    /// Source contributions to replace together with formal publication.
    pub source_rewrites: Vec<FormalSourceRewrite>,
    /// User-forgotten formal identities, hidden immediately during recovery.
    pub forgotten: Vec<Id>,
}

/// JSON texts of the scores of an item: `null` where a score is absent.
pub struct ScoreTexts {
    pub importance: String,
    pub confidence: String,
}

/// JSON text of an optional text.
pub open spec fn optional_literal(text: Option<String>) -> Seq<char> {
    match text {
        Some(text) => json_literal(text@),
        None => "null"@,
    }
}

/// JSON text of an optional number.
pub open spec fn optional_number(number: Option<i64>) -> Seq<char> {
    match number {
        Some(number) => signed_decimal(number as int),
        None => "null"@,
    }
}

/// The exact proposition of an item as a JSON array. Retrieval normalization is
/// deliberately left out.
pub open spec fn proposition(item: CurrentMemoryRecord, scores: ScoreTexts) -> Seq<char> {
    "["@ + json_literal(item.content@) + ","@ + optional_literal(item.kind) + ","@
        + scores.importance@ + ","@ + scores.confidence@ + ","@ + optional_number(item.valid_from)
        + ","@ + optional_number(item.valid_to) + ","@ + strings_json(texts(item.tags@)) + ","@
        + strings_json(texts(item.entities@)) + ","@ + item.metadata@ + "]"@
}

/// JSON text of an optional text.
pub fn print_optional(text: &Option<String>) -> (r: String)
    ensures
        r@ == optional_literal(*text),
{
    match text {
        Some(text) => literal(text.as_str()),
        None => "null".to_owned(),
    }
}

/// JSON text of an optional number.
pub fn print_number(number: Option<i64>) -> (r: String)
    ensures
        r@ == optional_number(number),
{
    match number {
        Some(number) => format_decimal(number),
        None => "null".to_owned(),
    }
}

/// Exact proposition key of an item. `scores` are the JSON texts of its scores.
pub fn contribution_semantic_hash(item: &CurrentMemoryRecord, scores: &ScoreTexts) -> (r: String)
    ensures
        r@ == tagged_digest(vstd::utf8::encode_utf8(proposition(*item, *scores))),
        well_tagged(r@),
{
    let mut out = String::new();
    out.push_str("[");
    out.push_str(literal(item.content.as_str()).as_str());
    out.push_str(",");
    out.push_str(print_optional(&item.kind).as_str());
    out.push_str(",");
    out.push_str(scores.importance.as_str());
    out.push_str(",");
    out.push_str(scores.confidence.as_str());
    out.push_str(",");
    out.push_str(print_number(item.valid_from).as_str());
    out.push_str(",");
    out.push_str(print_number(item.valid_to).as_str());
    out.push_str(",");
    out.push_str(print_strings(item.tags.as_slice()).as_str());
    out.push_str(",");
    out.push_str(print_strings(item.entities.as_slice()).as_str());
    out.push_str(",");
    out.push_str(item.metadata.as_str());
    out.push_str("]");
    assert(out@ =~= proposition(*item, *scores));
    let mut bytes: Vec<u8> = Vec::new();
    append_text(&mut bytes, out.as_str());
    assert(bytes@ =~= vstd::utf8::encode_utf8(proposition(*item, *scores)));
    sha256_tagged(bytes.as_slice())
}

/// The stored proposition key of an item: one that is empty is filled in, any
/// other stays.
pub fn fill_semantic_hash(stored: String, item: &CurrentMemoryRecord, scores: &ScoreTexts) -> (r: String)
    ensures
        if stored@.len() == 0 {
            r@ == tagged_digest(vstd::utf8::encode_utf8(proposition(*item, *scores)))
        } else {
            r == stored
        },
{
    if stored.as_str().is_empty() {
        contribution_semantic_hash(item, scores)
    } else {
        stored
    }
}

/// The proposition key depends on the proposition alone: items that agree on
/// content, kind, scores, validity, tags, entities and metadata have the same
/// one, whatever their identity, revision, paths, times and normalized text.
pub proof fn law_semantic_hash_is_of_the_proposition(
    a: CurrentMemoryRecord,
    b: CurrentMemoryRecord,
    scores_a: ScoreTexts,
    scores_b: ScoreTexts,
)
    requires
        a.content@ == b.content@,
        optional_text(a.kind) == optional_text(b.kind),
        scores_a.importance@ == scores_b.importance@,
        scores_a.confidence@ == scores_b.confidence@,
        a.valid_from == b.valid_from,
        a.valid_to == b.valid_to,
        texts(a.tags@) == texts(b.tags@),
        texts(a.entities@) == texts(b.entities@),
        a.metadata@ == b.metadata@,
    ensures
        tagged_digest(vstd::utf8::encode_utf8(proposition(a, scores_a))) == tagged_digest(
            vstd::utf8::encode_utf8(proposition(b, scores_b)),
        ),
{
}

/// Which rows a keyset page may show: those that are eligible and come after
/// the cursor.
pub open spec fn after_cursor(ids: Seq<String>, eligible: Seq<bool>, cursor: Option<&str>) -> Seq<
    bool,
> {
    Seq::new(
        ids.len(),
        |i: int| eligible[i] && (cursor is Some ==> text_before(cursor->0@, ids[i]@)),
    )
}

/// Positions of one page of the eligible rows by identity, from a cursor on.
pub fn page_after(ids: &[String], eligible: &[bool], cursor: Option<&str>, limit: u32) -> (r: Vec<
    usize,
>)
    requires
        eligible@.len() == ids@.len(),
    ensures
        is_selection(keys(ids@), after_cursor(ids@, eligible@, cursor), limit as nat, r@),
{
    let mut open: Vec<bool> = Vec::new();
    let mut i: usize = 0;
    while i < ids.len()
        invariant
            i <= ids@.len(),
            eligible@.len() == ids@.len(),
            open@ == after_cursor(ids@, eligible@, cursor).take(i as int),
        decreases ids@.len() - i,
    {
        let later = match cursor {
            Some(cursor) => text_less(cursor, ids[i].as_str()),
            None => true,
        };
        open.push(eligible[i] && later);
        i += 1;
        assert(open@ =~= after_cursor(ids@, eligible@, cursor).take(i as int));
    }
    assert(open@ =~= after_cursor(ids@, eligible@, cursor));
    let order_keys = keys_of(ids);
    select(order_keys.as_slice(), open.as_slice(), limit as usize)
}

impl StoredItem {
    /// Whether the item is a current contribution of a note of the vault.
    pub open spec fn contributes(
        self,
        vault: Seq<char>,
        sets: Seq<MemoryNoteSetRecord>,
        files: Seq<FileRecord>,
    ) -> bool {
        self.memory.ownership == CurrentMemoryOwnership::NoteDerived && self.readable(
            vault,
            sets,
            files,
        )
    }

    /// Whether the item is a current contribution of a note of the vault.
    pub fn is_contribution(&self, vault: &Id, sets: &[MemoryNoteSetRecord], files: &[FileRecord]) -> (r: bool)
        ensures
            r == self.contributes(vault@, sets@, files@),
    {
        self.memory.ownership == CurrentMemoryOwnership::NoteDerived && self.is_readable(
            vault,
            sets,
            files,
        )
    }
}

/// Identities of items, in order.
pub open spec fn item_ids(items: Seq<StoredItem>) -> Seq<String> {
    items.map_values(|item: StoredItem| item.memory.id.text)
}

/// Positions of one page of the current contributions by identity, whatever
/// formal objects are public.
pub fn contributions(
    context: &VaultContext,
    items: &[StoredItem],
    sets: &[MemoryNoteSetRecord],
    files: &[FileRecord],
    after: Option<&str>,
    limit: u32,
) -> (r: Result<Vec<usize>, StateError>)
    ensures
        if !(1 <= limit <= MAX_MEMORY_LIMIT) {
            r == invalid::<Vec<usize>>("current-memory page bounds are invalid")
        } else {
            r matches Ok(picked) && is_selection(
                keys(item_ids(items@)),
                after_cursor(
                    item_ids(items@),
                    items@.map_values(
                        |item: StoredItem| item.contributes(context.id@, sets@, files@),
                    ),
                    after,
                ),
                limit as nat,
                picked@,
            )
        },
{
    match validate_page(limit, 0) {
        Ok(()) => {},
        Err(error) => return Err(error),
    }
    let accepts = |item: &StoredItem| -> (yes: bool)
        ensures
            yes == item.contributes(context.id@, sets@, files@),
        { item.is_contribution(&context.id, sets, files) };
    let eligible = marks(
        items,
        accepts,
        Ghost(|item: StoredItem| item.contributes(context.id@, sets@, files@)),
    );
    let mut ids: Vec<String> = Vec::new();
    let mut i: usize = 0;
    while i < items.len()
        invariant
            i <= items@.len(),
            ids@ == item_ids(items@).take(i as int),
        decreases items@.len() - i,
    {
        ids.push(items[i].memory.id.text.clone());
        i += 1;
        assert(ids@ =~= item_ids(items@).take(i as int));
    }
    assert(ids@ =~= item_ids(items@));
    Ok(page_after(ids.as_slice(), eligible.as_slice(), after, limit))
}

/// Number of current contributions.
pub fn contribution_count(
    context: &VaultContext,
    items: &[StoredItem],
    sets: &[MemoryNoteSetRecord],
    files: &[FileRecord],
) -> (r: u64)
    ensures
        r == count(items@, |item: StoredItem| item.contributes(context.id@, sets@, files@)),
{
    let accepts = |item: &StoredItem| -> (yes: bool)
        ensures
            yes == item.contributes(context.id@, sets@, files@),
        { item.is_contribution(&context.id, sets, files) };
    let n: usize = count_rows(
        items,
        accepts,
        Ghost(|item: StoredItem| item.contributes(context.id@, sets@, files@)),
    );
    n as u64
}

impl FormalMemoryDocument {
    /// Whether this is the formal object with the given identity in a vault.
    pub open spec fn is(self, vault: Seq<char>, id: Seq<char>) -> bool {
        self.memory.vault_id@ == vault && self.memory.id@ == id
    }

    /// Whether this is the formal object with the given identity in a vault.
    pub fn is_document(&self, vault: &Id, id: &Id) -> (r: bool)
        ensures
            r == self.is(vault@, id@),
    {
        self.memory.vault_id.same(vault) && self.memory.id.same(id)
    }

    /// Whether the object rests on a contribution.
    pub open spec fn rests_on(self, contribution: Seq<char>) -> bool {
        some_row(
            self.supports@,
            |support: FormalMemorySupport| support.contribution_id@ == contribution,
        )
    }

    /// Whether the object rests on a contribution.
    pub fn is_resting_on(&self, contribution: &Id) -> (r: bool)
        ensures
            r == self.rests_on(contribution@),
    {
        let accepts = |support: &FormalMemorySupport| -> (yes: bool)
            ensures
                yes == (support.contribution_id@ == contribution@),
            { support.contribution_id.same(contribution) };
        any(
            self.supports.as_slice(),
            accepts,
            Ghost(|support: FormalMemorySupport| support.contribution_id@ == contribution@),
        )
    }

    /// Whether the object belongs to a vault's note-derived memories.
    pub open spec fn in_scope(self, vault: Seq<char>) -> bool {
        self.memory.vault_id@ == vault && self.memory.ownership
            == CurrentMemoryOwnership::NoteDerived
    }

    /// Whether the object belongs to a vault's note-derived memories.
    pub fn is_in_scope(&self, vault: &Id) -> (r: bool)
        ensures
            r == self.in_scope(vault@),
    {
        self.memory.vault_id.same(vault) && self.memory.ownership
            == CurrentMemoryOwnership::NoteDerived
    }
}

/// What supports are shown by: their contribution.
pub open spec fn support_key(support: FormalMemorySupport) -> SortKey {
    SortKey { first: 0, second: 0, third: 0, id: support.contribution_id.text }
}

/// Whether `order` lists every support of an object once, by contribution.
pub open spec fn by_contribution(supports: Seq<FormalMemorySupport>, order: Seq<usize>) -> bool {
    is_order(
        supports.map_values(|support: FormalMemorySupport| support_key(support)),
        order,
    )
}

/// Positions of an object's supports in the order in which they are shown.
pub fn show_supports(supports: &[FormalMemorySupport]) -> (order: Vec<usize>)
    ensures
        by_contribution(supports@, order@),
{
    let place = |support: &FormalMemorySupport| -> (key: SortKey)
        ensures
            key == support_key(*support),
        {
            SortKey { first: 0, second: 0, third: 0, id: support.contribution_id.text.clone() }
        };
    let order_keys = each(
        supports,
        place,
        Ghost(|support: FormalMemorySupport| support_key(support)),
    );
    sorted_order(order_keys.as_slice())
}

/// Where a formal object stands, and its supports in the order in which they
/// are shown.
#[derive(Clone, Debug, PartialEq, Eq)]
pub struct ShownDocument {
    pub at: usize,
    pub supports: Vec<usize>,
}

/// A formal object with its supports by contribution, invalid ones too for
/// reconciliation.
pub fn formal_document(context: &VaultContext, documents: &[FormalMemoryDocument], id: &Id) -> (r: Option<
    ShownDocument,
>)
    ensures
        match r {
            Some(shown) => shown.at < documents@.len() && first_index(
                documents@,
                |doc: FormalMemoryDocument| doc.is(context.id@, id@),
            ) == Some(shown.at as int) && by_contribution(
                documents@[shown.at as int].supports@,
                shown.supports@,
            ),
            None => first_index(
                documents@,
                |doc: FormalMemoryDocument| doc.is(context.id@, id@),
            ) is None,
        },
{
    let accepts = |doc: &FormalMemoryDocument| -> (yes: bool)
        ensures
            yes == doc.is(context.id@, id@),
        { doc.is_document(&context.id, id) };
    match find(documents, accepts, Ghost(|doc: FormalMemoryDocument| doc.is(context.id@, id@))) {
        Some(at) => {
            let supports = show_supports(documents[at].supports.as_slice());
            Some(ShownDocument { at, supports })
        },
        None => None,
    }
}

/// Identities of formal objects, in order.
pub open spec fn document_ids(documents: Seq<FormalMemoryDocument>) -> Seq<String> {
    documents.map_values(|doc: FormalMemoryDocument| doc.memory.id.text)
}

/// Positions of one page of the formal objects of a vault by identity, with
/// orphaned objects that need cleanup.
pub fn formal_documents(
    context: &VaultContext,
    documents: &[FormalMemoryDocument],
    after: Option<&str>,
    limit: u32,
) -> (r: Result<Vec<usize>, StateError>)
    ensures
        if !(1 <= limit <= MAX_MEMORY_LIMIT) {
            r == invalid::<Vec<usize>>("current-memory page bounds are invalid")
        } else {
            r matches Ok(picked) && is_selection(
                keys(document_ids(documents@)),
                after_cursor(
                    document_ids(documents@),
                    documents@.map_values(
                        |doc: FormalMemoryDocument| doc.memory.vault_id@ == context.id@,
                    ),
                    after,
                ),
                limit as nat,
                picked@,
            )
        },
{
    match validate_page(limit, 0) {
        Ok(()) => {},
        Err(error) => return Err(error),
    }
    let accepts = |doc: &FormalMemoryDocument| -> (yes: bool)
        ensures
            yes == (doc.memory.vault_id@ == context.id@),
        { doc.memory.vault_id.same(&context.id) };
    let eligible = marks(
        documents,
        accepts,
        Ghost(|doc: FormalMemoryDocument| doc.memory.vault_id@ == context.id@),
    );
    let mut ids: Vec<String> = Vec::new();
    let mut i: usize = 0;
    while i < documents.len()
        invariant
            i <= documents@.len(),
            ids@ == document_ids(documents@).take(i as int),
        decreases documents@.len() - i,
    {
        ids.push(documents[i].memory.id.text.clone());
        i += 1;
        assert(ids@ =~= document_ids(documents@).take(i as int));
    }
    assert(ids@ =~= document_ids(documents@));
    Ok(page_after(ids.as_slice(), eligible.as_slice(), after, limit))
}

/// Whether a formal object of the vault rests on a contribution.
pub open spec fn owns(doc: FormalMemoryDocument, vault: Seq<char>, contribution: Seq<char>) -> bool {
    doc.memory.vault_id@ == vault && doc.rests_on(contribution)
}

/// The position of the formal object that rests on a contribution, without
/// exposing an alias.
pub fn contribution_owner(
    context: &VaultContext,
    documents: &[FormalMemoryDocument],
    contribution: &Id,
) -> (r: Option<usize>)
    ensures
        match r {
            Some(i) => i < documents@.len() && first_index(
                documents@,
                |doc: FormalMemoryDocument| owns(doc, context.id@, contribution@),
            ) == Some(i as int),
            None => first_index(
                documents@,
                |doc: FormalMemoryDocument| owns(doc, context.id@, contribution@),
            ) is None,
        },
{
    let accepts = |doc: &FormalMemoryDocument| -> (yes: bool)
        ensures
            yes == owns(*doc, context.id@, contribution@),
        { doc.memory.vault_id.same(&context.id) && doc.is_resting_on(contribution) };
    find(
        documents,
        accepts,
        Ghost(|doc: FormalMemoryDocument| owns(doc, context.id@, contribution@)),
    )
}

/// Whether a support is exactly what its contribution and source are now.
pub open spec fn support_holds(
    items: Seq<StoredItem>,
    sets: Seq<MemoryNoteSetRecord>,
    files: Seq<FileRecord>,
    vault: Seq<char>,
    support: FormalMemorySupport,
    scores: ScoreTexts,
) -> bool {
    let item = first_row(items, |item: StoredItem| item.is(vault, support.contribution_id@));
    let set = match item {
        Some(item) => match item.memory.note_set_id {
            Some(id) => first_row(sets, |set: MemoryNoteSetRecord| set.is(vault, id@)),
            None => None,
        },
        None => None,
    };
    &&& item is Some
    &&& set is Some
    &&& set->0.source_file_id@ == support.source_file_id@
    &&& set->0.source_content_hash@ == support.source_hash@
    &&& tagged_digest(vstd::utf8::encode_utf8(proposition(item->0.memory, scores)))
        == support.semantic_hash@
    &&& set->0.canonical_revision.storable()
    &&& set->0.current(files)
}

/// Verify a canonical support against current source and semantic identity.
/// `scores` are the JSON texts of the contribution's scores.
pub fn support_current(
    context: &VaultContext,
    items: &[StoredItem],
    sets: &[MemoryNoteSetRecord],
    files: &[FileRecord],
    support: &FormalMemorySupport,
    scores: &ScoreTexts,
) -> (r: bool)
    ensures
        r == support_holds(items@, sets@, files@, context.id@, *support, *scores),
{
    let memory = match get_unchecked(context, items, &support.contribution_id) {
        Some(i) => &items[i].memory,
        None => return false,
    };
    let set = match &memory.note_set_id {
        Some(id) => match crate::current_memory::note_sets::get_note_set(context, sets, id) {
            Some(i) => &sets[i],
            None => return false,
        },
        None => return false,
    };
    let semantic_hash = contribution_semantic_hash(memory, scores);
    if !set.source_file_id.same(&support.source_file_id) || !text_eq(
        set.source_content_hash.as_str(),
        support.source_hash.as_str(),
    ) || !text_eq(semantic_hash.as_str(), support.semantic_hash.as_str()) {
        return false;
    }
    set.canonical_revision.value <= i64::MAX as u64 && set.is_current(files)
}

/// Whether a support stands for its source: it is valid, and no valid support
/// of the same source has a smaller contribution or the same one earlier.
pub open spec fn speaks_for_source(
    supports: Seq<FormalMemorySupport>,
    valid: Seq<bool>,
    i: int,
) -> bool {
    &&& valid[i]
    &&& forall|k: int|
        0 <= k < supports.len() && valid[k] && (#[trigger] supports[k]).source_file_id@
            == supports[i].source_file_id@ ==> !text_before(
            supports[k].contribution_id@,
            supports[i].contribution_id@,
        ) && (k < i ==> supports[k].contribution_id@ != supports[i].contribution_id@)
}

/// Which supports stand for their sources.
pub open spec fn source_speakers(supports: Seq<FormalMemorySupport>, valid: Seq<bool>) -> Seq<bool> {
    Seq::new(supports.len(), |i: int| speaks_for_source(supports, valid, i))
}

impl Keyed for FormalMemorySupport {
    /// Supports are shown by source.
    open spec fn key(self) -> SortKey {
        SortKey { first: 0, second: 0, third: 0, id: self.source_file_id.text }
    }

    fn sort_key(&self) -> (k: SortKey) {
        SortKey { first: 0, second: 0, third: 0, id: self.source_file_id.text.clone() }
    }
}

/// Positions of the supports whose provenance a formal object shows: one for
/// each source, by source.
pub fn formal_sources(supports: &[FormalMemorySupport], valid: &[bool]) -> (r: Vec<usize>)
    requires
        valid@.len() == supports@.len(),
    ensures
        is_selection(
            keys(supports@),
            source_speakers(supports@, valid@),
            supports@.len(),
            r@,
        ),
{
    let mut shown: Vec<bool> = Vec::new();
    let mut i: usize = 0;
    let ghost rule = source_speakers(supports@, valid@);
    while i < supports.len()
        invariant
            i <= supports@.len(),
            valid@.len() == supports@.len(),
            rule == source_speakers(supports@, valid@),
            shown@ == rule.take(i as int),
        decreases supports@.len() - i,
    {
        let mut speaks = valid[i];
        let mut k: usize = 0;
        while k < supports.len()
            invariant
                i < supports@.len(),
                k <= supports@.len(),
                valid@.len() == supports@.len(),
                speaks == (valid@[i as int] && forall|m: int|
                    0 <= m < k && valid@[m] && (#[trigger] supports@[m]).source_file_id@
                        == supports@[i as int].source_file_id@ ==> !text_before(
                        supports@[m].contribution_id@,
                        supports@[i as int].contribution_id@,
                    ) && (m < i ==> supports@[m].contribution_id@
                        != supports@[i as int].contribution_id@)),
            decreases supports@.len() - k,
        {
            let other = &supports[k];
            let own = &supports[i];
            if valid[k] && other.source_file_id.same(&own.source_file_id) {
                if text_less(other.contribution_id.as_str(), own.contribution_id.as_str()) || (k < i
                    && other.contribution_id.same(&own.contribution_id)) {
                    speaks = false;
                }
            }
            k += 1;
        }
        shown.push(speaks);
        i += 1;
        assert(shown@ =~= rule.take(i as int));
    }
    assert(shown@ =~= rule);
    let order_keys = keys_of(supports);
    select(order_keys.as_slice(), shown.as_slice(), supports.len())
}

/// Whether a provenance row is shown under a formal object: with the object's
/// identity and with the path where its note is now.
pub open spec fn shown_under(
    row: CurrentMemorySourceRecord,
    source: CurrentMemorySourceRecord,
    files: Seq<FileRecord>,
    id: Id,
) -> bool {
    &&& row.heading_path@ == source.heading_path@
    &&& row == (CurrentMemorySourceRecord {
        memory_id: id,
        note_path: source.current_path(files),
        heading_path: row.heading_path,
        ..source
    })
}

/// Whether `rows` show the provenance of an item under a formal object, in its
/// order.
pub open spec fn item_shown_under(
    item: StoredItem,
    files: Seq<FileRecord>,
    id: Id,
    rows: Seq<CurrentMemorySourceRecord>,
) -> bool {
    exists|order: Seq<usize>|
        {
            &&& #[trigger] is_order(keys(item.sources@), order)
            &&& rows.len() == order.len()
            &&& forall|k: int|
                0 <= k < rows.len() ==> shown_under(
                    #[trigger] rows[k],
                    item.sources@[order[k] as int],
                    files,
                    id,
                )
        }
}

/// Whether `rows` show the provenance of a contribution under a formal object;
/// a contribution that is gone shows none.
pub open spec fn contribution_shown_under(
    items: Seq<StoredItem>,
    files: Seq<FileRecord>,
    vault: Seq<char>,
    contribution: Seq<char>,
    id: Id,
    rows: Seq<CurrentMemorySourceRecord>,
) -> bool {
    match first_row(items, |item: StoredItem| item.is(vault, contribution)) {
        Some(item) => item_shown_under(item, files, id, rows),
        None => rows.len() == 0,
    }
}

/// Rows of several parts, one part after the other.
pub open spec fn all_rows(parts: Seq<Seq<CurrentMemorySourceRecord>>) -> Seq<
    CurrentMemorySourceRecord,
>
    decreases parts.len(),
{
    if parts.len() == 0 {
        Seq::empty()
    } else {
        all_rows(parts.drop_last()) + parts.last()
    }
}

/// Whether `parts` show, one after the other, the provenance of the picked
/// supports under a formal object.
pub open spec fn supports_shown_under(
    items: Seq<StoredItem>,
    files: Seq<FileRecord>,
    vault: Seq<char>,
    supports: Seq<FormalMemorySupport>,
    picked: Seq<usize>,
    id: Id,
    parts: Seq<Seq<CurrentMemorySourceRecord>>,
) -> bool {
    &&& parts.len() == picked.len()
    &&& forall|k: int|
        0 <= k < parts.len() ==> contribution_shown_under(
            items,
            files,
            vault,
            supports[picked[k] as int].contribution_id@,
            id,
            #[trigger] parts[k],
        )
}

fn show_under(source: &CurrentMemorySourceRecord, path: Option<VaultPath>, id: &Id) -> (r: CurrentMemorySourceRecord)
    ensures
        r.heading_path@ == source.heading_path@,
        r == (CurrentMemorySourceRecord {
            memory_id: *id,
            note_path: path,
            heading_path: r.heading_path,
            ..*source
        }),
{
    CurrentMemorySourceRecord {
        id: source.id.duplicate(),
        vault_id: source.vault_id.duplicate(),
        memory_id: id.duplicate(),
        source_type: source.source_type.clone(),
        note_file_id: duplicate_optional(&source.note_file_id),
        note_path: path,
        note_revision: source.note_revision,
        source_content_hash: duplicate_text(&source.source_content_hash),
        heading_path: copy_texts(source.heading_path.as_slice()),
        start_line: source.start_line,
        end_line: source.end_line,
        excerpt_hash: duplicate_text(&source.excerpt_hash),
        actor_id: duplicate_text(&source.actor_id),
        created_at: source.created_at,
    }
}

/// Provenance of an item, shown under a formal object.
fn show_item_under(item: &StoredItem, files: &[FileRecord], id: &Id) -> (r: Vec<
    CurrentMemorySourceRecord,
>)
    ensures
        item_shown_under(*item, files@, *id, r@),
{
    let listed = list_sources(item, files);
    let ghost order = listed@.map_values(|entry: (usize, Option<VaultPath>)| entry.0);
    let mut rows: Vec<CurrentMemorySourceRecord> = Vec::new();
    let mut i: usize = 0;
    while i < listed.len()
        invariant
            i <= listed@.len(),
            order == listed@.map_values(|entry: (usize, Option<VaultPath>)| entry.0),
            is_order(keys(item.sources@), order),
            forall|k: int|
                0 <= k < listed@.len() ==> (#[trigger] listed@[k]).1
                    == item.sources@[listed@[k].0 as int].current_path(files@),
            rows@.len() == i,
            forall|k: int|
                0 <= k < i ==> shown_under(
                    #[trigger] rows@[k],
                    item.sources@[order[k] as int],
                    files@,
                    *id,
                ),
        decreases listed@.len() - i,
    {
        assert(order[i as int] == listed@[i as int].0);
        let at: usize = listed[i].0;
        let path = duplicate_path(&listed[i].1);
        rows.push(show_under(&item.sources[at], path, id));
        i += 1;
    }
    assert(is_order(keys(item.sources@), order));
    rows
}

/// Provenance that a formal object shows: that of one support for each source,
/// by source, every row under the object's identity.
pub fn show_formal_sources(
    context: &VaultContext,
    id: &Id,
    items: &[StoredItem],
    files: &[FileRecord],
    supports: &[FormalMemorySupport],
    valid: &[bool],
) -> (r: Vec<CurrentMemorySourceRecord>)
    requires
        valid@.len() == supports@.len(),
    ensures
        forall|i: int| 0 <= i < r@.len() ==> (#[trigger] r@[i]).memory_id == *id,
        exists|picked: Seq<usize>, parts: Seq<Seq<CurrentMemorySourceRecord>>|
            {
                &&& is_selection(
                    keys(supports@),
                    source_speakers(supports@, valid@),
                    supports@.len(),
                    picked,
                )
                &&& #[trigger] supports_shown_under(
                    items@,
                    files@,
                    context.id@,
                    supports@,
                    picked,
                    *id,
                    parts,
                )
                &&& r@ == all_rows(parts)
            },
{
    let picked = formal_sources(supports, valid);
    let mut rows: Vec<CurrentMemorySourceRecord> = Vec::new();
    let ghost mut parts: Seq<Seq<CurrentMemorySourceRecord>> = Seq::empty();
    let mut i: usize = 0;
    while i < picked.len()
        invariant
            i <= picked@.len(),
            forall|k: int| 0 <= k < picked@.len() ==> (#[trigger] picked@[k]) < supports@.len(),
            supports_shown_under(
                items@,
                files@,
                context.id@,
                supports@,
                picked@.take(i as int),
                *id,
                parts,
            ),
            rows@ == all_rows(parts),
            forall|k: int| 0 <= k < rows@.len() ==> (#[trigger] rows@[k]).memory_id == *id,
        decreases picked@.len() - i,
    {
        let support = &supports[picked[i]];
        let mut part: Vec<CurrentMemorySourceRecord> = match get_unchecked(
            context,
            items,
            &support.contribution_id,
        ) {
            Some(at) => show_item_under(&items[at], files, id),
            None => Vec::new(),
        };
        proof {
            let longer = parts.push(part@);
            assert(longer.drop_last() =~= parts);
            assert forall|k: int| 0 <= k < longer.len() implies contribution_shown_under(
                items@,
                files@,
                context.id@,
                supports@[picked@.take(i + 1)[k] as int].contribution_id@,
                *id,
                #[trigger] longer[k],
            ) by {
                if k < i {
                    assert(longer[k] == parts[k]);
                    assert(picked@.take(i + 1)[k] == picked@.take(i as int)[k]);
                }
            }
            parts = longer;
        }
        rows.append(&mut part);
        i += 1;
    }
    assert(picked@.take(i as int) =~= picked@);
    rows
}

/// Whether every current contribution of a vault is adopted by a formal object
/// whose support is valid.
pub open spec fn covered(
    items: Seq<StoredItem>,
    sets: Seq<MemoryNoteSetRecord>,
    files: Seq<FileRecord>,
    vault: Seq<char>,
    adopted: Seq<Id>,
) -> bool {
    !some_row(
        items,
        |item: StoredItem|
            item.contributes(vault, sets, files) && !some_row(
                adopted,
                |id: Id| id@ == item.memory.id@,
            ),
    )
}

/// Whether a vault may switch to formal reads: only after every current
/// contribution is adopted.
fn is_covered(
    context: &VaultContext,
    items: &[StoredItem],
    sets: &[MemoryNoteSetRecord],
    files: &[FileRecord],
    adopted: &[Id],
) -> (r: bool)
    ensures
        r == covered(items@, sets@, files@, context.id@, adopted@),
{
    let accepts = |item: &StoredItem| -> (yes: bool)
        ensures
            yes == (item.contributes(context.id@, sets@, files@) && !some_row(
                adopted@,
                |id: Id| id@ == item.memory.id@,
            )),
        {
            let same = |id: &Id| -> (yes: bool)
                ensures
                    yes == (id@ == item.memory.id@),
                { id.same(&item.memory.id) };
            let known = any(adopted, same, Ghost(|id: Id| id@ == item.memory.id@));
            item.is_contribution(&context.id, sets, files) && !known
        };
    !any(
        items,
        accepts,
        Ghost(
            |item: StoredItem|
                item.contributes(context.id@, sets@, files@) && !some_row(
                    adopted@,
                    |id: Id| id@ == item.memory.id@,
                ),
        ),
    )
}

/// What an attempt to switch a vault to formal reads comes to.
pub struct FormalAdoption {
    /// Whether every current contribution is adopted.
    pub covered: bool,
    /// The stored mode: whether reads are formal.
    pub enabled: bool,
    /// Identities that the text index holds for the vault.
    pub indexed: Vec<Id>,
}

/// Switch a vault to formal reads, only after every current contribution is
/// adopted. `adopted` are the contributions with a valid support, `public` the
/// identities that formal reads show. With the switch everything else leaves the
/// text index, so that hidden contributions cannot change its ranking.
pub fn enable_formal_if_covered(
    context: &VaultContext,
    items: &[StoredItem],
    sets: &[MemoryNoteSetRecord],
    files: &[FileRecord],
    adopted: &[Id],
    enabled: bool,
    indexed: Vec<Id>,
    public: &[Id],
) -> (r: FormalAdoption)
    ensures
        r.covered == covered(items@, sets@, files@, context.id@, adopted@),
        r.enabled == (enabled || r.covered),
        r.indexed@ == (if r.covered {
            indexed@.filter(|held: Id| some_row(public@, |id: Id| id@ == held@))
        } else {
            indexed@
        }),
{
    if !is_covered(context, items, sets, files, adopted) {
        return FormalAdoption { covered: false, enabled, indexed };
    }
    let shown = |held: &Id| -> (yes: bool)
        ensures
            yes == some_row(public@, |id: Id| id@ == held@),
        {
            let same = |id: &Id| -> (yes: bool)
                ensures
                    yes == (id@ == held@),
                { id.same(held) };
            any(public, same, Ghost(|id: Id| id@ == held@))
        };
    let indexed = keep(
        indexed,
        shown,
        Ghost(|held: Id| some_row(public@, |id: Id| id@ == held@)),
    );
    FormalAdoption { covered: true, enabled: true, indexed }
}

/// Why the revision of a formal object or set is not the stored one, if so.
pub open spec fn seen_revision_fault(stored: Option<Revision>, seen: Revision) -> Option<StateError> {
    if !seen.storable() {
        Some(unstorable())
    } else if stored != Some(seen) {
        Some(StateError::Conflict)
    } else {
        None
    }
}

/// Checks that a revision is the stored one.
fn check_seen_revision(stored: Option<Revision>, seen: Revision) -> (r: Result<(), StateError>)
    ensures
        r == checked(seen_revision_fault(stored, seen)),
{
    match seen.as_i64() {
        Ok(_) => {},
        Err(error) => return Err(StateError::InvalidDomain(error)),
    }
    match stored {
        Some(stored) => {
            if stored.value != seen.value {
                return Err(StateError::Conflict);
            }
        },
        None => return Err(StateError::Conflict),
    }
    Ok(())
}

/// Revision of a stored formal object.
pub open spec fn document_revision(
    documents: Seq<FormalMemoryDocument>,
    vault: Seq<char>,
    id: Seq<char>,
) -> Option<Revision> {
    match first_row(documents, |doc: FormalMemoryDocument| doc.is(vault, id)) {
        Some(doc) => Some(doc.memory.revision),
        None => None,
    }
}

/// Revision of a stored set.
pub open spec fn set_revision_of(
    sets: Seq<MemoryNoteSetRecord>,
    vault: Seq<char>,
    id: Seq<char>,
) -> Option<Revision> {
    match first_row(sets, |set: MemoryNoteSetRecord| set.is(vault, id)) {
        Some(set) => Some(set.set_revision),
        None => None,
    }
}

/// The first stale object that an operation rests on, if any.
pub open spec fn before_fault(
    before: Seq<FormalMemoryDocument>,
    documents: Seq<FormalMemoryDocument>,
    vault: Seq<char>,
) -> Option<StateError>
    decreases before.len(),
{
    if before.len() == 0 {
        None
    } else {
        match before_fault(before.drop_last(), documents, vault) {
            Some(error) => Some(error),
            None => seen_revision_fault(
                document_revision(documents, vault, before.last().memory.id@),
                before.last().memory.revision,
            ),
        }
    }
}

/// The first stale source that an operation rewrites, if any.
pub open spec fn rewrites_fault(
    rewrites: Seq<FormalSourceRewrite>,
    sets: Seq<MemoryNoteSetRecord>,
    vault: Seq<char>,
) -> Option<StateError>
    decreases rewrites.len(),
{
    if rewrites.len() == 0 {
        None
    } else {
        match rewrites_fault(rewrites.drop_last(), sets, vault) {
            Some(error) => Some(error),
            None => if rewrites.last().set.vault_id@ != vault {
                Some(StateError::Conflict)
            } else {
                seen_revision_fault(
                    set_revision_of(sets, vault, rewrites.last().set.id@),
                    rewrites.last().expected_revision,
                )
            },
        }
    }
}

/// A fault of the first objects is a fault of all.
proof fn lemma_before_fault(
    before: Seq<FormalMemoryDocument>,
    n: int,
    documents: Seq<FormalMemoryDocument>,
    vault: Seq<char>,
)
    requires
        0 <= n <= before.len(),
    ensures
        before_fault(before.take(n), documents, vault) is Some ==> before_fault(
            before,
            documents,
            vault,
        ) == before_fault(before.take(n), documents, vault),
    decreases before.len(),
{
    if n < before.len() {
        lemma_before_fault(before.drop_last(), n, documents, vault);
        assert(before.drop_last().take(n) =~= before.take(n));
    } else {
        assert(before.take(n) =~= before);
    }
}

/// A fault of the first rewrites is a fault of all.
proof fn lemma_rewrites_fault(
    rewrites: Seq<FormalSourceRewrite>,
    n: int,
    sets: Seq<MemoryNoteSetRecord>,
    vault: Seq<char>,
)
    requires
        0 <= n <= rewrites.len(),
    ensures
        rewrites_fault(rewrites.take(n), sets, vault) is Some ==> rewrites_fault(
            rewrites,
            sets,
            vault,
        ) == rewrites_fault(rewrites.take(n), sets, vault),
    decreases rewrites.len(),
{
    if n < rewrites.len() {
        lemma_rewrites_fault(rewrites.drop_last(), n, sets, vault);
        assert(rewrites.drop_last().take(n) =~= rewrites.take(n));
    } else {
        assert(rewrites.take(n) =~= rewrites);
    }
}

/// Whether an object is among those that an operation starts from.
pub open spec fn starts_from(before: Seq<FormalMemoryDocument>, id: Seq<char>) -> bool {
    some_row(before, |doc: FormalMemoryDocument| doc.memory.id@ == id)
}

/// Whether an object is among those that an operation starts from.
pub fn is_starting_from(before: &[FormalMemoryDocument], id: &Id) -> (r: bool)
    ensures
        r == starts_from(before@, id@),
{
    let accepts = |doc: &FormalMemoryDocument| -> (yes: bool)
        ensures
            yes == (doc.memory.id@ == id@),
        { doc.memory.id.same(id) };
    any(before, accepts, Ghost(|doc: FormalMemoryDocument| doc.memory.id@ == id@))
}

/// Whether an operation would take a support from an object that it does not
/// start from.
pub open spec fn steals(
    support: FormalMemorySupport,
    documents: Seq<FormalMemoryDocument>,
    before: Seq<FormalMemoryDocument>,
    vault: Seq<char>,
) -> bool {
    match first_row(
        documents,
        |doc: FormalMemoryDocument| owns(doc, vault, support.contribution_id@),
    ) {
        Some(owner) => !starts_from(before, owner.memory.id@),
        None => false,
    }
}

/// Whether one of an object's supports would be taken from another object.
pub open spec fn document_steals(
    doc: FormalMemoryDocument,
    documents: Seq<FormalMemoryDocument>,
    before: Seq<FormalMemoryDocument>,
    vault: Seq<char>,
) -> bool {
    some_row(
        doc.supports@,
        |support: FormalMemorySupport| steals(support, documents, before, vault),
    )
}

/// Why an operation is not reserved, if it is not.
pub open spec fn preparation_fault(
    op: FormalMemoryOperation,
    documents: Seq<FormalMemoryDocument>,
    sets: Seq<MemoryNoteSetRecord>,
    reserved: Seq<Id>,
    operations: Seq<OperationState>,
    vault: Seq<char>,
) -> Option<StateError> {
    if op.after@.len() > 256 || op.before@.len() > 256 || op.source_rewrites@.len() > 256 {
        Some(StateError::InvalidInput("formal operation exceeds bound"))
    } else if some_row(op.after@, |doc: FormalMemoryDocument| !doc.in_scope(vault)) || some_row(
        op.before@,
        |doc: FormalMemoryDocument| !doc.in_scope(vault),
    ) {
        Some(StateError::InvalidInput("formal ownership scope is invalid"))
    } else if let Some(error) = before_fault(op.before@, documents, vault) {
        Some(error)
    } else if let Some(error) = rewrites_fault(op.source_rewrites@, sets, vault) {
        Some(error)
    } else if reserved_twice(reserved, introduced(op)) {
        Some(duplicate_row())
    } else if some_row(
        op.after@,
        |doc: FormalMemoryDocument| document_steals(doc, documents, op.before@, vault),
    ) {
        Some(StateError::Conflict)
    } else if in_flight(operations, vault) is Some {
        Some(duplicate_row())
    } else {
        None
    }
}

/// Identities that an operation introduces, in order.
pub open spec fn introduced(op: FormalMemoryOperation) -> Seq<Id> {
    op.after@.filter(
        |doc: FormalMemoryDocument| !starts_from(op.before@, doc.memory.id@),
    ).map_values(|doc: FormalMemoryDocument| doc.memory.id)
}

/// Checks the objects that an operation starts from.
fn check_before(
    context: &VaultContext,
    before: &[FormalMemoryDocument],
    documents: &[FormalMemoryDocument],
) -> (r: Result<(), StateError>)
    ensures
        r == checked(before_fault(before@, documents@, context.id@)),
{
    let mut i: usize = 0;
    while i < before.len()
        invariant
            i <= before@.len(),
            before_fault(before@.take(i as int), documents@, context.id@) is None,
        decreases before@.len() - i,
    {
        proof {
            assert(before@.take(i + 1).drop_last() =~= before@.take(i as int));
            assert(before@.take(i + 1).last() == before@[i as int]);
            lemma_before_fault(before@, i + 1, documents@, context.id@);
        }
        let memory = &before[i].memory;
        let stored_revision = match formal_document(context, documents, &memory.id) {
            Some(shown) => Some(documents[shown.at].memory.revision),
            None => None,
        };
        match check_seen_revision(stored_revision, memory.revision) {
            Ok(()) => {},
            Err(error) => return Err(error),
        }
        i += 1;
    }
    assert(before@.take(i as int) =~= before@);
    Ok(())
}

/// Checks the sources that an operation rewrites.
fn check_rewrites(
    context: &VaultContext,
    rewrites: &[FormalSourceRewrite],
    sets: &[MemoryNoteSetRecord],
) -> (r: Result<(), StateError>)
    ensures
        r == checked(rewrites_fault(rewrites@, sets@, context.id@)),
{
    let mut i: usize = 0;
    while i < rewrites.len()
        invariant
            i <= rewrites@.len(),
            rewrites_fault(rewrites@.take(i as int), sets@, context.id@) is None,
        decreases rewrites@.len() - i,
    {
        proof {
            assert(rewrites@.take(i + 1).drop_last() =~= rewrites@.take(i as int));
            assert(rewrites@.take(i + 1).last() == rewrites@[i as int]);
            lemma_rewrites_fault(rewrites@, i + 1, sets@, context.id@);
        }
        let rewrite = &rewrites[i];
        let stored_revision = match crate::current_memory::note_sets::get_note_set(
            context,
            sets,
            &rewrite.set.id,
        ) {
            Some(k) => Some(sets[k].set_revision),
            None => None,
        };
        if !rewrite.set.vault_id.same(&context.id) {
            return Err(StateError::Conflict);
        }
        match check_seen_revision(stored_revision, rewrite.expected_revision) {
            Ok(()) => {},
            Err(error) => return Err(error),
        }
        i += 1;
    }
    assert(rewrites@.take(i as int) =~= rewrites@);
    Ok(())
}

/// Whether one of an object's supports would be taken from another object.
fn is_stealing(
    context: &VaultContext,
    doc: &FormalMemoryDocument,
    documents: &[FormalMemoryDocument],
    before: &[FormalMemoryDocument],
) -> (r: bool)
    ensures
        r == document_steals(*doc, documents@, before@, context.id@),
{
    let accepts = |support: &FormalMemorySupport| -> (yes: bool)
        ensures
            yes == steals(*support, documents@, before@, context.id@),
        {
            match contribution_owner(context, documents, &support.contribution_id) {
                Some(i) => !is_starting_from(before, &documents[i].memory.id),
                None => false,
            }
        };
    any(
        doc.supports.as_slice(),
        accepts,
        Ghost(|support: FormalMemorySupport| steals(support, documents@, before@, context.id@)),
    )
}

/// Identities that an operation introduces, in order.
fn list_introduced(op: &FormalMemoryOperation) -> (r: Vec<Id>)
    ensures
        r@ == introduced(*op),
{
    let before = op.before.as_slice();
    let mut ids: Vec<Id> = Vec::new();
    let mut i: usize = 0;
    let ghost rule = |doc: FormalMemoryDocument| !starts_from(op.before@, doc.memory.id@);
    let ghost name = |doc: FormalMemoryDocument| doc.memory.id;
    proof {
        reveal(Seq::filter);
        assert(op.after@.take(0) =~= Seq::empty());
        assert(op.after@.take(0).filter(rule).map_values(name) =~= Seq::empty());
    }
    while i < op.after.len()
        invariant
            i <= op.after@.len(),
            before@ == op.before@,
            rule == (|doc: FormalMemoryDocument| !starts_from(op.before@, doc.memory.id@)),
            name == (|doc: FormalMemoryDocument| doc.memory.id),
            ids@ == op.after@.take(i as int).filter(rule).map_values(name),
        decreases op.after@.len() - i,
    {
        let doc = &op.after[i];
        proof {
            reveal(Seq::filter);
            assert(op.after@.take(i + 1).drop_last() =~= op.after@.take(i as int));
            assert(op.after@.take(i + 1).last() == op.after@[i as int]);
        }
        let ghost shorter = op.after@.take(i as int).filter(rule);
        if !is_starting_from(before, &doc.memory.id) {
            ids.push(doc.memory.id.duplicate());
            assert(shorter.push(*doc).map_values(name) =~= shorter.map_values(name).push(
                doc.memory.id,
            ));
        }
        i += 1;
        assert(ids@ =~= op.after@.take(i as int).filter(rule).map_values(name));
    }
    assert(op.after@.take(i as int) =~= op.after@);
    ids
}

/// What the reservation of a publication leaves.
#[derive(Clone, Debug, PartialEq, Eq)]
pub struct PreparedOperation {
    /// Identities that were ever given to formal objects of the vault.
    pub reserved: Vec<Id>,
    /// Publications in flight.
    pub operations: Vec<OperationState>,
}

/// A publication that is prepared and not committed.
pub open spec fn prepared_as(vault: Id, id: String) -> OperationState {
    OperationState { vault_id: vault, operation_id: id, committed: false }
}

/// Whether no vault has two publications in flight.
pub open spec fn one_operation_each(operations: Seq<OperationState>) -> bool {
    forall|i: int, j: int|
        0 <= i < j < operations.len() ==> (#[trigger] operations[i]).vault_id@ != (
        #[trigger] operations[j]).vault_id@
}

/// Reserve a publication before any file changes. The identities that it
/// introduces are reserved: one that was ever used is refused, and so is a
/// second operation for the vault.
pub fn prepare_formal_operation(
    context: &VaultContext,
    op: &FormalMemoryOperation,
    documents: &[FormalMemoryDocument],
    sets: &[MemoryNoteSetRecord],
    reserved: Vec<Id>,
    operations: Vec<OperationState>,
) -> (r: Result<PreparedOperation, StateError>)
    ensures
        match preparation_fault(
            *op,
            documents@,
            sets@,
            reserved@,
            operations@,
            context.id@,
        ) {
            Some(error) => r == Err::<PreparedOperation, StateError>(error),
            None => {
                &&& r matches Ok(after)
                &&& after.reserved@ == reserved@ + introduced(*op)
                &&& after.operations@ == operations@.push(prepared_as(context.id, op.id))
            },
        },
{
    if op.after.len() > 256 || op.before.len() > 256 || op.source_rewrites.len() > 256 {
        return Err(StateError::InvalidInput("formal operation exceeds bound"));
    }
    let foreign = |doc: &FormalMemoryDocument| -> (yes: bool)
        ensures
            yes == !doc.in_scope(context.id@),
        { !doc.is_in_scope(&context.id) };
    let foreign_after = any(
        op.after.as_slice(),
        foreign,
        Ghost(|doc: FormalMemoryDocument| !doc.in_scope(context.id@)),
    );
    let foreign = |doc: &FormalMemoryDocument| -> (yes: bool)
        ensures
            yes == !doc.in_scope(context.id@),
        { !doc.is_in_scope(&context.id) };
    let foreign_before = any(
        op.before.as_slice(),
        foreign,
        Ghost(|doc: FormalMemoryDocument| !doc.in_scope(context.id@)),
    );
    if foreign_after || foreign_before {
        return Err(StateError::InvalidInput("formal ownership scope is invalid"));
    }
    match check_before(context, op.before.as_slice(), documents) {
        Ok(()) => {},
        Err(error) => return Err(error),
    }
    match check_rewrites(context, op.source_rewrites.as_slice(), sets) {
        Ok(()) => {},
        Err(error) => return Err(error),
    }
    let ids = list_introduced(op);
    let reserved = match reserve_new(reserved, ids.as_slice()) {
        Some(reserved) => reserved,
        None => return Err(refuse_duplicate()),
    };
    let before = op.before.as_slice();
    let stealing = |doc: &FormalMemoryDocument| -> (yes: bool)
        ensures
            yes == document_steals(*doc, documents@, before@, context.id@),
        { is_stealing(context, doc, documents, before) };
    if any(
        op.after.as_slice(),
        stealing,
        Ghost(
            |doc: FormalMemoryDocument| document_steals(doc, documents@, op.before@, context.id@),
        ),
    ) {
        return Err(StateError::Conflict);
    }
    if find_in_flight(context, operations.as_slice()).is_some() {
        return Err(refuse_duplicate());
    }
    let mut operations = operations;
    operations.push(
        OperationState {
            vault_id: context.id.duplicate(),
            operation_id: op.id.clone(),
            committed: false,
        },
    );
    Ok(PreparedOperation { reserved, operations })
}

/// A vault has at most one publication in flight: preparing one keeps that.
pub proof fn law_one_operation_per_vault(operations: Seq<OperationState>, vault: Id, id: String)
    requires
        one_operation_each(operations),
        in_flight(operations, vault@) is None,
    ensures
        one_operation_each(operations.push(prepared_as(vault, id))),
        in_flight(operations.push(prepared_as(vault, id)), vault@) == Some(prepared_as(vault, id)),
{
    let after = operations.push(prepared_as(vault, id));
    lemma_first_index(operations, flies_for(vault@));
    lemma_put_is_found(operations, flies_for(vault@), prepared_as(vault, id));
    assert forall|i: int, j: int| 0 <= i < j < after.len() implies (#[trigger] after[i]).vault_id@ != (
    #[trigger] after[j]).vault_id@ by {
        assert(after[i] == operations[i]);
        if j < operations.len() {
            assert(after[j] == operations[j]);
        } else {
            assert(!flies_for(vault@)(operations[i]));
        }
    }
}

} // verus!
