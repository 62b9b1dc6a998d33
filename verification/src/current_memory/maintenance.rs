//! Background maintenance of formal memories: admission, candidate pairs and
//! progress.

use vstd::prelude::*;

use crate::current_memory::formal::{
    after_cursor, optional_literal, optional_number, page_after, print_number, print_optional,
    FormalMemoryDocument,
};
use crate::current_memory::{
    validate_page, CurrentMemoryOwnership, MemoryNoteSetRecord, StoredItem, MAX_MEMORY_LIMIT,
};
use crate::domain::{Id, VaultContext};
use crate::error::{invalid, StateError};
use crate::files::FileRecord;
use crate::hash::{append_text, sha256_tagged, tagged_digest};
use crate::json::{json_literal, literal};
use crate::order::{is_selection, is_sorted_form, keys, keys_of, select, sort_texts, Keyed, SortKey};
use crate::providers::EmbeddingRecord;
use crate::rows::{
    any, change, count, count_rows, find, first_index, first_row, keep, lemma_filter_drops, marks,
    some_row,
};
use crate::text::{
    byte_len, bytes_of, decimal, format_decimal, format_unsigned, join, joined, signed_decimal,
    text_eq, texts,
};

verus! {

/// Bytes that the admission fingerprint covers: the profile, and each entry
/// with a zero byte behind it.
pub open spec fn admission_bytes(profile: Seq<char>, entries: Seq<String>) -> Seq<u8>
    decreases entries.len(),
{
    if entries.len() == 0 {
        vstd::utf8::encode_utf8(profile)
    } else {
        (admission_bytes(profile, entries.drop_last()) + vstd::utf8::encode_utf8(
            entries.last()@,
        )).push(0)
    }
}

/// Fingerprint of a profile and of entries in their order.
pub fn fingerprint_entries(profile: &str, entries: &[String]) -> (r: String)
    ensures
        r@ == tagged_digest(admission_bytes(profile@, entries@)),
{
    let mut bytes: Vec<u8> = Vec::new();
    append_text(&mut bytes, profile);
    let mut i: usize = 0;
    assert(entries@.take(0) =~= Seq::empty());
    assert(bytes@ =~= admission_bytes(profile@, entries@.take(0)));
    while i < entries.len()
        invariant
            i <= entries@.len(),
            bytes@ == admission_bytes(profile@, entries@.take(i as int)),
        decreases entries@.len() - i,
    {
        proof {
            assert(entries@.take(i + 1).drop_last() =~= entries@.take(i as int));
            assert(entries@.take(i + 1).last() == entries@[i as int]);
        }
        append_text(&mut bytes, entries[i].as_str());
        bytes.push(0);
        i += 1;
    }
    assert(entries@.take(i as int) =~= entries@);
    sha256_tagged(bytes.as_slice())
}

/// A JSON array of values that are JSON texts already.
pub open spec fn array_json(values: Seq<Seq<char>>) -> Seq<char> {
    "["@ + joined(values, ","@) + "]"@
}

fn print_array(values: &[String]) -> (r: String)
    ensures
        r@ == array_json(texts(values@)),
{
    let mut out = String::new();
    out.push_str("[");
    out.push_str(join(values, ",").as_str());
    out.push_str("]");
    assert(out@ =~= array_json(texts(values@)));
    out
}

/// The stored proposition key of an item.
#[derive(Clone, Debug, PartialEq, Eq)]
pub struct ItemHash {
    /// Isolation boundary.
    pub vault_id: Id,
    pub id: Id,
    pub ownership: CurrentMemoryOwnership,
    pub semantic_hash: String,
}

impl ItemHash {
    /// Whether the item is a contribution of a note in a vault.
    pub open spec fn contributed(self, vault: Seq<char>) -> bool {
        self.vault_id@ == vault && self.ownership == CurrentMemoryOwnership::NoteDerived
    }
}

/// Whether an embedding belongs to a memory of a vault.
pub open spec fn memory_vector(embedding: EmbeddingRecord, vault: Seq<char>) -> bool {
    embedding.vault_id@ == vault && embedding.object_type@ == "memory"@
}

/// The stored file with an identity, removed ones too.
pub open spec fn file_row(files: Seq<FileRecord>, vault: Seq<char>, id: Seq<char>) -> Option<FileRecord> {
    first_row(files, |file: FileRecord| file.vault_id@ == vault && file.id@ == id)
}

/// JSON text of the content hash of a file that may be missing.
pub open spec fn hash_json(file: Option<FileRecord>) -> Seq<char> {
    match file {
        Some(file) => optional_literal(file.content_hash),
        None => "null"@,
    }
}

/// JSON text of the time when a file that may be missing was removed.
pub open spec fn removal_json(file: Option<FileRecord>) -> Seq<char> {
    match file {
        Some(file) => optional_number(file.deleted_at),
        None => "null"@,
    }
}

/// What the fingerprint reads of a note set: the represented source, the set's
/// revision and pause, and the state of the source file and the canonical file.
pub open spec fn source_entry(set: MemoryNoteSetRecord, files: Seq<FileRecord>) -> Seq<char> {
    let source = file_row(files, set.vault_id@, set.source_file_id@);
    let canonical = file_row(files, set.vault_id@, set.canonical_file_id@);
    array_json(
        seq![
            json_literal("source"@),
            json_literal(set.id@),
            json_literal(set.source_content_hash@),
            decimal(set.set_revision.value as nat),
            if set.extraction_paused {
                "1"@
            } else {
                "0"@
            },
            hash_json(source),
            removal_json(source),
            hash_json(canonical),
        ],
    )
}

/// What the fingerprint reads of a contribution: its proposition key.
pub open spec fn item_entry(item: ItemHash) -> Seq<char> {
    array_json(
        seq![json_literal("item"@), json_literal(item.id@), json_literal(item.semantic_hash@)],
    )
}

/// What the fingerprint reads of a formal object: its revision and content hash.
pub open spec fn formal_entry(doc: FormalMemoryDocument) -> Seq<char> {
    array_json(
        seq![
            json_literal("formal"@),
            json_literal(doc.memory.id@),
            decimal(doc.memory.revision.value as nat),
            json_literal(doc.memory.content_hash@),
        ],
    )
}

/// What the fingerprint reads of a vector: its model, content hash and time.
pub open spec fn vector_entry(embedding: EmbeddingRecord) -> Seq<char> {
    array_json(
        seq![
            json_literal("vector"@),
            json_literal(embedding.id@),
            json_literal(embedding.model_id@),
            json_literal(embedding.content_hash@),
            signed_decimal(embedding.updated_at as int),
        ],
    )
}

/// One entry for each note set, contribution, formal object and memory vector of
/// a vault.
pub open spec fn dedup_entries(
    vault: Seq<char>,
    sets: Seq<MemoryNoteSetRecord>,
    files: Seq<FileRecord>,
    items: Seq<ItemHash>,
    documents: Seq<FormalMemoryDocument>,
    embeddings: Seq<EmbeddingRecord>,
) -> Seq<Seq<char>> {
    sets.filter(|set: MemoryNoteSetRecord| set.vault_id@ == vault).map_values(
        |set: MemoryNoteSetRecord| source_entry(set, files),
    ) + items.filter(|item: ItemHash| item.contributed(vault)).map_values(
        |item: ItemHash| item_entry(item),
    ) + documents.filter(
        |doc: FormalMemoryDocument| doc.memory.vault_id@ == vault,
    ).map_values(|doc: FormalMemoryDocument| formal_entry(doc)) + embeddings.filter(
        |embedding: EmbeddingRecord| memory_vector(embedding, vault),
    ).map_values(|embedding: EmbeddingRecord| vector_entry(embedding))
}

/// Prints an entry for each row that a rule picks, behind those already there.
fn add_entries<T, F: Fn(&T) -> bool, G: Fn(&T) -> String>(
    entries: &mut Vec<String>,
    rows: &[T],
    accepts: F,
    print: G,
    Ghost(rule): Ghost<spec_fn(T) -> bool>,
    Ghost(entry): Ghost<spec_fn(T) -> Seq<char>>,
)
    requires
        forall|row: &T| #[trigger] accepts.requires((row,)),
        forall|row: &T, yes: bool| #[trigger] accepts.ensures((row,), yes) ==> yes == rule(*row),
        forall|row: &T| #[trigger] print.requires((row,)),
        forall|row: &T, text: String| #[trigger]
            print.ensures((row,), text) ==> text@ == entry(*row),
    ensures
        texts(final(entries)@) == texts(old(entries)@) + rows@.filter(rule).map_values(entry),
{
    let mut i: usize = 0;
    proof {
        reveal(Seq::filter);
        assert(rows@.take(0) =~= Seq::empty());
        assert(texts(entries@) =~= texts(entries@) + rows@.take(0).filter(rule).map_values(entry));
    }
    while i < rows.len()
        invariant
            i <= rows@.len(),
            forall|row: &T| #[trigger] accepts.requires((row,)),
            forall|row: &T, yes: bool| #[trigger]
                accepts.ensures((row,), yes) ==> yes == rule(*row),
            forall|row: &T| #[trigger] print.requires((row,)),
            forall|row: &T, text: String| #[trigger]
                print.ensures((row,), text) ==> text@ == entry(*row),
            texts(entries@) == texts(old(entries)@) + rows@.take(i as int).filter(rule).map_values(
                entry,
            ),
        decreases rows@.len() - i,
    {
        proof {
            reveal(Seq::filter);
            assert(rows@.take(i + 1).drop_last() =~= rows@.take(i as int));
            assert(rows@.take(i + 1).last() == rows@[i as int]);
        }
        let ghost before = entries@;
        if accepts(&rows[i]) {
            let text = print(&rows[i]);
            entries.push(text);
            proof {
                assert(texts(entries@) =~= texts(before).push(text@));
                assert(rows@.take(i + 1).filter(rule).map_values(entry) =~= rows@.take(
                    i as int,
                ).filter(rule).map_values(entry).push(text@));
                assert(texts(entries@) =~= texts(old(entries)@) + rows@.take(i + 1).filter(
                    rule,
                ).map_values(entry));
            }
        }
        i += 1;
    }
    assert(rows@.take(i as int) =~= rows@);
}

/// Finds the stored file with an identity, removed ones too.
fn find_file<'a>(files: &'a [FileRecord], vault: &Id, id: &Id) -> (r: Option<&'a FileRecord>)
    ensures
        match r {
            Some(file) => file_row(files@, vault@, id@) == Some(*file),
            None => file_row(files@, vault@, id@) is None,
        },
{
    let accepts = |file: &FileRecord| -> (yes: bool)
        ensures
            yes == (file.vault_id@ == vault@ && file.id@ == id@),
        { file.vault_id.same(vault) && file.id.same(id) };
    match find(files, accepts, Ghost(|file: FileRecord| file.vault_id@ == vault@ && file.id@ == id@)) {
        Some(at) => Some(&files[at]),
        None => None,
    }
}

fn print_hash(file: Option<&FileRecord>) -> (r: String)
    ensures
        r@ == hash_json(match file {
            Some(file) => Some(*file),
            None => None,
        }),
{
    match file {
        Some(file) => print_optional(&file.content_hash),
        None => "null".to_owned(),
    }
}

fn print_removal(file: Option<&FileRecord>) -> (r: String)
    ensures
        r@ == removal_json(match file {
            Some(file) => Some(*file),
            None => None,
        }),
{
    match file {
        Some(file) => print_number(file.deleted_at),
        None => "null".to_owned(),
    }
}

fn print_source(set: &MemoryNoteSetRecord, files: &[FileRecord]) -> (r: String)
    ensures
        r@ == source_entry(*set, files@),
{
    let source = find_file(files, &set.vault_id, &set.source_file_id);
    let canonical = find_file(files, &set.vault_id, &set.canonical_file_id);
    let mut values: Vec<String> = Vec::new();
    values.push(literal("source"));
    values.push(literal(set.id.as_str()));
    values.push(literal(set.source_content_hash.as_str()));
    values.push(format_unsigned(set.set_revision.value));
    if set.extraction_paused {
        values.push("1".to_owned());
    } else {
        values.push("0".to_owned());
    }
    values.push(print_hash(source));
    values.push(print_removal(source));
    values.push(print_hash(canonical));
    let entry = print_array(values.as_slice());
    proof {
        let source = file_row(files@, set.vault_id@, set.source_file_id@);
        let canonical = file_row(files@, set.vault_id@, set.canonical_file_id@);
        assert(texts(values@) =~= seq![
            json_literal("source"@),
            json_literal(set.id@),
            json_literal(set.source_content_hash@),
            decimal(set.set_revision.value as nat),
            if set.extraction_paused {
                "1"@
            } else {
                "0"@
            },
            hash_json(source),
            removal_json(source),
            hash_json(canonical),
        ]);
    }
    entry
}

fn print_item(item: &ItemHash) -> (r: String)
    ensures
        r@ == item_entry(*item),
{
    let mut values: Vec<String> = Vec::new();
    values.push(literal("item"));
    values.push(literal(item.id.as_str()));
    values.push(literal(item.semantic_hash.as_str()));
    assert(texts(values@) =~= seq![
        json_literal("item"@),
        json_literal(item.id@),
        json_literal(item.semantic_hash@),
    ]);
    print_array(values.as_slice())
}

fn print_formal(doc: &FormalMemoryDocument) -> (r: String)
    ensures
        r@ == formal_entry(*doc),
{
    let mut values: Vec<String> = Vec::new();
    values.push(literal("formal"));
    values.push(literal(doc.memory.id.as_str()));
    values.push(format_unsigned(doc.memory.revision.value));
    values.push(literal(doc.memory.content_hash.as_str()));
    assert(texts(values@) =~= seq![
        json_literal("formal"@),
        json_literal(doc.memory.id@),
        decimal(doc.memory.revision.value as nat),
        json_literal(doc.memory.content_hash@),
    ]);
    print_array(values.as_slice())
}

fn print_vector(embedding: &EmbeddingRecord) -> (r: String)
    ensures
        r@ == vector_entry(*embedding),
{
    let mut values: Vec<String> = Vec::new();
    values.push(literal("vector"));
    values.push(literal(embedding.id.as_str()));
    values.push(literal(embedding.model_id.as_str()));
    values.push(literal(embedding.content_hash.as_str()));
    values.push(format_decimal(embedding.updated_at));
    assert(texts(values@) =~= seq![
        json_literal("vector"@),
        json_literal(embedding.id@),
        json_literal(embedding.model_id@),
        json_literal(embedding.content_hash@),
        signed_decimal(embedding.updated_at as int),
    ]);
    print_array(values.as_slice())
}

/// Whether `sorted` holds the given texts in the order of their bytes.
pub open spec fn sorted_entries(entries: Seq<Seq<char>>, sorted: Seq<String>) -> bool {
    exists|printed: Seq<String>| texts(printed) == entries && #[trigger] is_sorted_form(printed, sorted)
}

/// Metadata-only admission fingerprint of a vault: its profile, and the entries
/// of its sources, contributions, formal objects and memory vectors in the order
/// of their bytes. No note body is read.
pub fn dedup_input_fingerprint(
    context: &VaultContext,
    profile: &str,
    sets: &[MemoryNoteSetRecord],
    files: &[FileRecord],
    items: &[ItemHash],
    documents: &[FormalMemoryDocument],
    embeddings: &[EmbeddingRecord],
) -> (r: String)
    ensures
        exists|sorted: Seq<String>|
            #[trigger] sorted_entries(
                dedup_entries(context.id@, sets@, files@, items@, documents@, embeddings@),
                sorted,
            ) && r@ == tagged_digest(admission_bytes(profile@, sorted)),
{
    let vault = &context.id;
    let mut entries: Vec<String> = Vec::new();
    assert(texts(entries@) =~= Seq::empty());
    let own_set = |set: &MemoryNoteSetRecord| -> (yes: bool)
        ensures
            yes == (set.vault_id@ == vault@),
        { set.vault_id.same(vault) };
    let print_set = |set: &MemoryNoteSetRecord| -> (text: String)
        ensures
            text@ == source_entry(*set, files@),
        { print_source(set, files) };
    add_entries(
        &mut entries,
        sets,
        own_set,
        print_set,
        Ghost(|set: MemoryNoteSetRecord| set.vault_id@ == context.id@),
        Ghost(|set: MemoryNoteSetRecord| source_entry(set, files@)),
    );
    let own_item = |item: &ItemHash| -> (yes: bool)
        ensures
            yes == item.contributed(vault@),
        { item.ownership == CurrentMemoryOwnership::NoteDerived && item.vault_id.same(vault) };
    let print_own_item = |item: &ItemHash| -> (text: String)
        ensures
            text@ == item_entry(*item),
        { print_item(item) };
    add_entries(
        &mut entries,
        items,
        own_item,
        print_own_item,
        Ghost(|item: ItemHash| item.contributed(context.id@)),
        Ghost(|item: ItemHash| item_entry(item)),
    );
    let own_document = |doc: &FormalMemoryDocument| -> (yes: bool)
        ensures
            yes == (doc.memory.vault_id@ == vault@),
        { doc.memory.vault_id.same(vault) };
    let print_document = |doc: &FormalMemoryDocument| -> (text: String)
        ensures
            text@ == formal_entry(*doc),
        { print_formal(doc) };
    add_entries(
        &mut entries,
        documents,
        own_document,
        print_document,
        Ghost(|doc: FormalMemoryDocument| doc.memory.vault_id@ == context.id@),
        Ghost(|doc: FormalMemoryDocument| formal_entry(doc)),
    );
    let own_vector = |embedding: &EmbeddingRecord| -> (yes: bool)
        ensures
            yes == memory_vector(*embedding, vault@),
        { embedding.vault_id.same(vault) && text_eq(embedding.object_type.as_str(), "memory") };
    let print_own_vector = |embedding: &EmbeddingRecord| -> (text: String)
        ensures
            text@ == vector_entry(*embedding),
        { print_vector(embedding) };
    add_entries(
        &mut entries,
        embeddings,
        own_vector,
        print_own_vector,
        Ghost(|embedding: EmbeddingRecord| memory_vector(embedding, context.id@)),
        Ghost(|embedding: EmbeddingRecord| vector_entry(embedding)),
    );
    assert(texts(entries@) =~= dedup_entries(
        context.id@,
        sets@,
        files@,
        items@,
        documents@,
        embeddings@,
    ));
    let sorted = sort_texts(entries.as_slice());
    assert(sorted_entries(texts(entries@), sorted@));
    fingerprint_entries(profile, sorted.as_slice())
}

/// A bounded semantic candidate pair.
#[derive(Clone, Debug, PartialEq, Eq)]
pub struct FormalPair {
    /// Isolation boundary.
    pub vault_id: Id,
    /// Stable key of the pair's inputs.
    pub pair_key: String,
    pub left_id: Id,
    pub right_id: Id,
    /// Pairs with new inputs go first.
    pub priority: i64,
    /// When the pair had its last turn; zero before the first.
    pub attempt_sequence: i64,
    /// Whether a terminal judgment is recorded.
    pub done: bool,
}

impl FormalPair {
    /// Whether this is the pair with a key in a vault.
    pub open spec fn is(self, vault: Seq<char>, key: Seq<char>) -> bool {
        self.vault_id@ == vault && self.pair_key@ == key
    }

    /// Whether this is the pair with a key in a vault.
    pub fn is_pair(&self, vault: &Id, key: &str) -> (r: bool)
        ensures
            r == self.is(vault@, key@),
    {
        self.vault_id.same(vault) && text_eq(self.pair_key.as_str(), key)
    }

    /// Whether the pair waits for a judgment.
    pub open spec fn pending(self, vault: Seq<char>) -> bool {
        self.vault_id@ == vault && !self.done
    }

    /// Whether the pair waits for a judgment.
    pub fn is_pending(&self, vault: &Id) -> (r: bool)
        ensures
            r == self.pending(vault@),
    {
        !self.done && self.vault_id.same(vault)
    }
}

impl Keyed for FormalPair {
    /// Those whose last turn is longest ago first, then by priority, then by
    /// key.
    open spec fn key(self) -> SortKey {
        SortKey {
            first: self.attempt_sequence as i128,
            second: (0 - self.priority) as i128,
            third: 0,
            id: self.pair_key,
        }
    }

    fn sort_key(&self) -> (k: SortKey) {
        SortKey {
            first: self.attempt_sequence as i128,
            second: -(self.priority as i128),
            third: 0,
            id: self.pair_key.clone(),
        }
    }
}

/// A candidate pair before it is queued.
pub struct PairCandidate {
    pub key: String,
    pub left: Id,
    pub right: Id,
}

/// The larger of two priorities.
pub open spec fn higher(a: i64, b: i64) -> i64 {
    if a >= b {
        a
    } else {
        b
    }
}

/// Pairs after a candidate is queued: a known pair keeps its state and takes
/// the higher priority.
pub open spec fn queued(
    pairs: Seq<FormalPair>,
    vault: Id,
    candidate: PairCandidate,
    priority: i64,
) -> Seq<FormalPair> {
    match first_index(pairs, |pair: FormalPair| pair.is(vault@, candidate.key@)) {
        Some(i) => pairs.update(
            i,
            FormalPair { priority: higher(pairs[i].priority, priority), ..pairs[i] },
        ),
        None => pairs.push(
            FormalPair {
                vault_id: vault,
                pair_key: candidate.key,
                left_id: candidate.left,
                right_id: candidate.right,
                priority,
                attempt_sequence: 0,
                done: false,
            },
        ),
    }
}

/// Pairs after several candidates are queued.
pub open spec fn all_queued(
    pairs: Seq<FormalPair>,
    vault: Id,
    candidates: Seq<PairCandidate>,
    priority: i64,
) -> Seq<FormalPair>
    decreases candidates.len(),
{
    if candidates.len() == 0 {
        pairs
    } else {
        queued(
            all_queued(pairs, vault, candidates.drop_last(), priority),
            vault,
            candidates.last(),
            priority,
        )
    }
}

/// Queues one candidate.
fn queue_pair(pairs: Vec<FormalPair>, vault: &Id, candidate: PairCandidate, priority: i64) -> (r: Vec<
    FormalPair,
>)
    ensures
        r@ == queued(pairs@, *vault, candidate, priority),
{
    let ghost wanted = queued(pairs@, *vault, candidate, priority);
    let mut pairs = pairs;
    let at = {
        let key = candidate.key.as_str();
        let accepts = |pair: &FormalPair| -> (yes: bool)
            ensures
                yes == pair.is(vault@, key@),
            { pair.is_pair(vault, key) };
        find(
            pairs.as_slice(),
            accepts,
            Ghost(|pair: FormalPair| pair.is(vault@, candidate.key@)),
        )
    };
    match at {
        Some(i) => {
            let pair = pairs.remove(i);
            let raised: i64 = if pair.priority >= priority {
                pair.priority
            } else {
                priority
            };
            pairs.insert(i, FormalPair { priority: raised, ..pair });
        },
        None => {
            pairs.push(
                FormalPair {
                    vault_id: vault.duplicate(),
                    pair_key: candidate.key,
                    left_id: candidate.left,
                    right_id: candidate.right,
                    priority,
                    attempt_sequence: 0,
                    done: false,
                },
            );
        },
    }
    assert(pairs@ =~= wanted);
    pairs
}

/// Contributions that wait for their first examination, without one.
pub open spec fn other_inputs(inputs: Seq<Id>, id: Seq<char>) -> Seq<Id> {
    inputs.filter(|input: Id| input@ != id)
}

/// Retire an obsolete or already examined incremental input.
pub fn finish_new_dedup_contribution(inputs: Vec<Id>, id: &Id) -> (r: Vec<Id>)
    ensures
        r@ == other_inputs(inputs@, id@),
{
    let accepts = |input: &Id| -> (yes: bool)
        ensures
            yes == (input@ != id@),
        { !input.same(id) };
    keep(inputs, accepts, Ghost(|input: Id| input@ != id@))
}

/// A contribution that was examined, with the fingerprint of what was seen.
#[derive(Clone, Debug, PartialEq, Eq)]
pub struct ExaminedInput {
    pub vault_id: Id,
    pub contribution_id: Id,
    pub fingerprint: String,
}

impl ExaminedInput {
    /// Whether this is an examination of an input.
    pub open spec fn of_input(self, vault: Seq<char>, id: Seq<char>) -> bool {
        self.vault_id@ == vault && self.contribution_id@ == id
    }

    /// Whether this is the examination of exactly these inputs.
    pub open spec fn covers(self, vault: Seq<char>, id: Seq<char>, fingerprint: Seq<char>) -> bool {
        self.vault_id@ == vault && self.contribution_id@ == id && self.fingerprint@ == fingerprint
    }
}

/// Examinations after an input was examined: the one that is stored of it is
/// the latest.
pub open spec fn examination_put(
    examined: Seq<ExaminedInput>,
    vault: Id,
    id: Id,
    fingerprint: String,
) -> Seq<ExaminedInput> {
    examined.filter(|row: ExaminedInput| !row.of_input(vault@, id@)).push(
        ExaminedInput { vault_id: vault, contribution_id: id, fingerprint },
    )
}

/// Queue of a vault, with what was examined.
pub struct PairQueue {
    pub pairs: Vec<FormalPair>,
    pub new_inputs: Vec<Id>,
    pub examined: Vec<ExaminedInput>,
}

/// Queue the candidates of an input and mark it as examined with the inputs
/// that were seen, in one step, so that a crash cannot lose work. Candidates of
/// a new input go first. `new_inputs` are the vault's contributions that wait
/// for their first examination.
pub fn queue_formal_pairs(
    context: &VaultContext,
    queue: PairQueue,
    id: &Id,
    fingerprint: String,
    candidates: Vec<PairCandidate>,
) -> (r: PairQueue)
    ensures
        r.pairs@ == all_queued(
            queue.pairs@,
            context.id,
            candidates@,
            count(queue.new_inputs@, |input: Id| input@ == id@) as i64,
        ),
        r.new_inputs@ == other_inputs(queue.new_inputs@, id@),
        r.examined@ == examination_put(queue.examined@, context.id, *id, fingerprint),
{
    let same = |input: &Id| -> (yes: bool)
        ensures
            yes == (input@ == id@),
        { input.same(id) };
    let waiting: usize = count_rows(
        queue.new_inputs.as_slice(),
        same,
        Ghost(|input: Id| input@ == id@),
    );
    let priority: i64 = waiting as i64;
    let ghost base = queue.pairs@;
    let ghost all = candidates@;
    let mut pairs = queue.pairs;
    let mut rest = candidates;
    let n: usize = rest.len();
    let mut i: usize = 0;
    assert(rest@ =~= all.skip(0));
    while i < n
        invariant
            i <= n == all.len(),
            rest@ == all.skip(i as int),
            pairs@ == all_queued(base, context.id, all.take(i as int), priority),
        decreases n - i,
    {
        let candidate = rest.remove(0);
        proof {
            assert(candidate == all[i as int]);
            assert(all.take(i + 1).drop_last() =~= all.take(i as int));
            assert(all.take(i + 1).last() == candidate);
        }
        pairs = queue_pair(pairs, &context.id, candidate, priority);
        i += 1;
        assert(rest@ =~= all.skip(i as int));
    }
    assert(all.take(n as int) =~= all);
    let new_inputs = finish_new_dedup_contribution(queue.new_inputs, id);
    let stays = |row: &ExaminedInput| -> (yes: bool)
        ensures
            yes == !row.of_input(context.id@, id@),
        { !(row.vault_id.same(&context.id) && row.contribution_id.same(id)) };
    let mut examined = keep(
        queue.examined,
        stays,
        Ghost(|row: ExaminedInput| !row.of_input(context.id@, id@)),
    );
    examined.push(
        ExaminedInput {
            vault_id: context.id.duplicate(),
            contribution_id: id.duplicate(),
            fingerprint,
        },
    );
    PairQueue { pairs, new_inputs, examined }
}

/// Positions of the next candidate pairs. Successful and uncertain judgments
/// are not retried.
pub fn pending_formal_pairs(context: &VaultContext, pairs: &[FormalPair], limit: u32) -> (r: Result<
    Vec<usize>,
    StateError,
>)
    ensures
        if !(1 <= limit <= MAX_MEMORY_LIMIT) {
            r == invalid::<Vec<usize>>("current-memory page bounds are invalid")
        } else {
            r matches Ok(picked) && is_selection(
                keys(pairs@),
                pairs@.map_values(|pair: FormalPair| pair.pending(context.id@)),
                limit as nat,
                picked@,
            )
        },
{
    match validate_page(limit, 0) {
        Ok(()) => {},
        Err(error) => return Err(error),
    }
    let accepts = |pair: &FormalPair| -> (yes: bool)
        ensures
            yes == pair.pending(context.id@),
        { pair.is_pending(&context.id) };
    let eligible = marks(pairs, accepts, Ghost(|pair: FormalPair| pair.pending(context.id@)));
    let order_keys = keys_of(pairs);
    Ok(select(order_keys.as_slice(), eligible.as_slice(), limit as usize))
}

/// The latest turn that a pending pair of a vault had; zero where none had one.
pub open spec fn latest_turn(pairs: Seq<FormalPair>, vault: Seq<char>) -> int
    decreases pairs.len(),
{
    if pairs.len() == 0 {
        0
    } else {
        let before = latest_turn(pairs.drop_last(), vault);
        if pairs.last().pending(vault) && pairs.last().attempt_sequence > before {
            pairs.last().attempt_sequence as int
        } else {
            before
        }
    }
}

/// Every pending pair had its turn no later than the latest.
pub proof fn lemma_latest_turn(pairs: Seq<FormalPair>, vault: Seq<char>)
    ensures
        0 <= latest_turn(pairs, vault) <= i64::MAX,
        forall|i: int|
            0 <= i < pairs.len() && (#[trigger] pairs[i]).pending(vault)
                ==> pairs[i].attempt_sequence <= latest_turn(pairs, vault),
    decreases pairs.len(),
{
    if pairs.len() > 0 {
        lemma_latest_turn(pairs.drop_last(), vault);
        assert forall|i: int|
            0 <= i < pairs.len() && (#[trigger] pairs[i]).pending(vault) implies pairs[i].attempt_sequence
            <= latest_turn(pairs, vault) by {
            if i < pairs.len() - 1 {
                assert(pairs.drop_last()[i] == pairs[i]);
            }
        }
    }
}

/// The latest turn that a pending pair of a vault had.
fn find_latest_turn(pairs: &[FormalPair], vault: &Id) -> (r: i64)
    ensures
        r == latest_turn(pairs@, vault@),
{
    let mut latest: i64 = 0;
    let mut i: usize = 0;
    assert(pairs@.take(0) =~= Seq::empty());
    while i < pairs.len()
        invariant
            i <= pairs@.len(),
            latest == latest_turn(pairs@.take(i as int), vault@),
        decreases pairs@.len() - i,
    {
        proof {
            assert(pairs@.take(i + 1).drop_last() =~= pairs@.take(i as int));
            assert(pairs@.take(i + 1).last() == pairs@[i as int]);
        }
        if pairs[i].is_pending(vault) && pairs[i].attempt_sequence > latest {
            latest = pairs[i].attempt_sequence;
        }
        i += 1;
    }
    assert(pairs@.take(i as int) =~= pairs@);
    latest
}

/// Pairs after one got its turn.
pub open spec fn turn_given(pairs: Seq<FormalPair>, vault: Seq<char>, key: Seq<char>) -> Seq<
    FormalPair,
> {
    let turn = (latest_turn(pairs, vault) + 1) as i64;
    pairs.map_values(
        |pair: FormalPair|
            if pair.is(vault, key) && pair.pending(vault) {
                FormalPair { attempt_sequence: turn, ..pair }
            } else {
                pair
            },
    )
}

/// Record a candidate's turn before outside work, without treating an
/// interruption as completion. `None` where no such pair waits.
pub fn start_formal_pair(context: &VaultContext, pairs: Vec<FormalPair>, key: &str) -> (r: Option<
    Vec<FormalPair>,
>)
    requires
        latest_turn(pairs@, context.id@) < i64::MAX,
    ensures
        if some_row(
            pairs@,
            |pair: FormalPair| pair.is(context.id@, key@) && pair.pending(context.id@),
        ) {
            r matches Some(after) && after@ == turn_given(pairs@, context.id@, key@)
        } else {
            r is None
        },
{
    let accepts = |pair: &FormalPair| -> (yes: bool)
        ensures
            yes == (pair.is(context.id@, key@) && pair.pending(context.id@)),
        { pair.is_pair(&context.id, key) && pair.is_pending(&context.id) };
    if !any(
        pairs.as_slice(),
        accepts,
        Ghost(|pair: FormalPair| pair.is(context.id@, key@) && pair.pending(context.id@)),
    ) {
        return None;
    }
    let latest: i64 = find_latest_turn(pairs.as_slice(), &context.id);
    let turn: i64 = latest + 1;
    let step = |pair: FormalPair| -> (next: FormalPair)
        ensures
            next == (if pair.is(context.id@, key@) && pair.pending(context.id@) {
                FormalPair { attempt_sequence: turn, ..pair }
            } else {
                pair
            }),
        {
            if pair.is_pair(&context.id, key) && pair.is_pending(&context.id) {
                FormalPair { attempt_sequence: turn, ..pair }
            } else {
                pair
            }
        };
    let ghost rule = |pair: FormalPair|
        if pair.is(context.id@, key@) && pair.pending(context.id@) {
            FormalPair { attempt_sequence: turn, ..pair }
        } else {
            pair
        };
    let ghost before = pairs@;
    let after = change(pairs, step, Ghost(rule));
    assert(after@ =~= turn_given(before, context.id@, key@));
    Some(after)
}

/// Checkpoint one completed candidate.
pub fn finish_formal_pair(context: &VaultContext, pairs: Vec<FormalPair>, key: &str) -> (r: Vec<
    FormalPair,
>)
    ensures
        r@ == pairs@.map_values(
            |pair: FormalPair|
                if pair.is(context.id@, key@) {
                    FormalPair { done: true, ..pair }
                } else {
                    pair
                },
        ),
{
    let step = |pair: FormalPair| -> (next: FormalPair)
        ensures
            next == (if pair.is(context.id@, key@) {
                FormalPair { done: true, ..pair }
            } else {
                pair
            }),
        {
            if pair.is_pair(&context.id, key) {
                FormalPair { done: true, ..pair }
            } else {
                pair
            }
        };
    change(
        pairs,
        step,
        Ghost(
            |pair: FormalPair|
                if pair.is(context.id@, key@) {
                    FormalPair { done: true, ..pair }
                } else {
                    pair
                },
        ),
    )
}

/// A pair that got its turn goes to the end of the queue: every other pending
/// pair had its turn before.
pub proof fn law_turns_go_round(pairs: Seq<FormalPair>, vault: Seq<char>, key: Seq<char>, i: int, j: int)
    requires
        0 <= i < pairs.len(),
        0 <= j < pairs.len(),
        pairs[i].is(vault, key),
        pairs[i].pending(vault),
        pairs[j].pending(vault),
        pairs[j].pair_key@ != key,
        latest_turn(pairs, vault) < i64::MAX,
    ensures
        turn_given(pairs, vault, key)[j].attempt_sequence < turn_given(
            pairs,
            vault,
            key,
        )[i].attempt_sequence,
{
    lemma_latest_turn(pairs, vault);
}

/// Whether a vault has semantic work: note-derived items, formal objects, an
/// operation in flight or a pair that waits. Explicit-only and empty vaults
/// have none.
pub fn has_dedup_work(
    context: &VaultContext,
    items: &[StoredItem],
    documents: &[FormalMemoryDocument],
    operation: bool,
    pairs: &[FormalPair],
) -> (r: bool)
    ensures
        r == (some_row(
            items@,
            |item: StoredItem|
                item.memory.vault_id@ == context.id@ && item.memory.ownership
                    == CurrentMemoryOwnership::NoteDerived,
        ) || some_row(
            documents@,
            |doc: FormalMemoryDocument| doc.memory.vault_id@ == context.id@,
        ) || operation || some_row(pairs@, |pair: FormalPair| pair.pending(context.id@))),
{
    let derived = |item: &StoredItem| -> (yes: bool)
        ensures
            yes == (item.memory.vault_id@ == context.id@ && item.memory.ownership
                == CurrentMemoryOwnership::NoteDerived),
        {
            item.memory.ownership == CurrentMemoryOwnership::NoteDerived
                && item.memory.vault_id.same(&context.id)
        };
    let own = |doc: &FormalMemoryDocument| -> (yes: bool)
        ensures
            yes == (doc.memory.vault_id@ == context.id@),
        { doc.memory.vault_id.same(&context.id) };
    let pending = |pair: &FormalPair| -> (yes: bool)
        ensures
            yes == pair.pending(context.id@),
        { pair.is_pending(&context.id) };
    let any_item = any(
        items,
        derived,
        Ghost(
            |item: StoredItem|
                item.memory.vault_id@ == context.id@ && item.memory.ownership
                    == CurrentMemoryOwnership::NoteDerived,
        ),
    );
    let any_document = any(
        documents,
        own,
        Ghost(|doc: FormalMemoryDocument| doc.memory.vault_id@ == context.id@),
    );
    let any_pair = any(pairs, pending, Ghost(|pair: FormalPair| pair.pending(context.id@)));
    any_item || any_document || operation || any_pair
}

/// Maintenance state of a vault.
#[derive(Clone, Debug, PartialEq, Eq)]
pub struct MaintenanceRow {
    /// Current state or redacted blocking reason.
    pub status: String,
    /// Fingerprint of the inputs that the last pass saw.
    pub fingerprint: String,
    /// Earliest automatic retry time.
    pub retry_at: i64,
    /// Where the candidate scan goes on; empty once a sweep is complete.
    pub cursor: String,
}

/// The maintenance state with a status code and the next retry time. Inputs
/// seen and the scan's continuation stay.
pub fn set_formal_status(row: MaintenanceRow, status: String, retry_at: i64) -> (r: MaintenanceRow)
    ensures
        r == (MaintenanceRow { status, retry_at, ..row }),
{
    MaintenanceRow { status, retry_at, ..row }
}

/// The maintenance state with the inputs that a successful pass saw. A vault
/// without a state gets none.
pub fn checkpoint_dedup_inputs(row: Option<MaintenanceRow>, fingerprint: String) -> (r: Option<
    MaintenanceRow,
>)
    ensures
        r == (match row {
            Some(row) => Some((MaintenanceRow { fingerprint, ..row })),
            None => None,
        }),
{
    match row {
        Some(row) => Some(MaintenanceRow { fingerprint, ..row }),
        None => None,
    }
}

/// The maintenance state with the continuation of the candidate scan; without
/// one the next sweep starts anew.
pub fn save_formal_scan_cursor(row: MaintenanceRow, cursor: Option<Id>) -> (r: MaintenanceRow)
    ensures
        r.cursor@ == (match cursor {
            Some(id) => id@,
            None => Seq::empty(),
        }),
        r == (MaintenanceRow { cursor: r.cursor, ..row }),
{
    let cursor = match cursor {
        Some(id) => id.text,
        None => String::new(),
    };
    MaintenanceRow { cursor, ..row }
}

/// Whether the inputs with a fingerprint are covered: the last pass covered
/// exactly them, and no work is unfinished.
pub open spec fn covered(
    maintenance: Option<MaintenanceRow>,
    fingerprint: Seq<char>,
    pairs: Seq<FormalPair>,
    new_inputs: Seq<Id>,
    operation: bool,
    vault: Seq<char>,
) -> bool {
    &&& maintenance is Some
    &&& maintenance->0.status@ == "covered_candidates"@
    &&& maintenance->0.fingerprint@ == fingerprint
    &&& !some_row(pairs, |pair: FormalPair| pair.pending(vault))
    &&& new_inputs.len() == 0
    &&& !operation
}

/// Decides whether stable inputs need no new pass.
pub fn dedup_inputs_covered(
    context: &VaultContext,
    maintenance: &Option<MaintenanceRow>,
    fingerprint: &str,
    pairs: &[FormalPair],
    new_inputs: &[Id],
    operation: bool,
) -> (r: bool)
    ensures
        r == covered(
            *maintenance,
            fingerprint@,
            pairs@,
            new_inputs@,
            operation,
            context.id@,
        ),
{
    let pending = |pair: &FormalPair| -> (yes: bool)
        ensures
            yes == pair.pending(context.id@),
        { pair.is_pending(&context.id) };
    let unfinished = any(pairs, pending, Ghost(|pair: FormalPair| pair.pending(context.id@)));
    match maintenance {
        Some(row) => text_eq(row.status.as_str(), "covered_candidates") && text_eq(
            row.fingerprint.as_str(),
            fingerprint,
        ) && !unfinished && new_inputs.len() == 0 && !operation,
        None => false,
    }
}

/// Content-free, current background-maintenance progress.
#[derive(Clone, Debug, PartialEq, Eq)]
pub struct FormalMaintenanceStatus {
    /// Actual current maintenance stage, independent of the last error.
    pub phase: String,
    /// Successfully examined singleton bodies, including unchanged bodies.
    pub sentence_checked: u64,
    /// Local compatibility read-view cutover completed.
    pub adopted: bool,
    /// Pending bounded semantic candidate pairs.
    pub pending_pairs: u64,
    /// Persistent terminal judgments for these inputs, including uncertainty.
    pub checked_pairs: u64,
    /// Current state or redacted blocking reason.
    pub status: String,
    /// Earliest automatic retry time.
    pub retry_at: i64,
}

impl Default for FormalMaintenanceStatus {
    /// Nothing done and nothing known.
    fn default() -> (r: FormalMaintenanceStatus)
        ensures
            r.phase@.len() == 0,
            r.sentence_checked == 0,
            !r.adopted,
            r.pending_pairs == 0,
            r.checked_pairs == 0,
            r.status@.len() == 0,
            r.retry_at == 0,
    {
        FormalMaintenanceStatus {
            phase: String::new(),
            sentence_checked: 0,
            adopted: false,
            pending_pairs: 0,
            checked_pairs: 0,
            status: String::new(),
            retry_at: 0,
        }
    }
}

/// Progress of the singleton sweep.
#[derive(Clone, Debug, PartialEq, Eq)]
pub struct DedupProgress {
    /// Stage that is at work.
    pub phase: String,
    /// Bodies that were examined.
    pub sentence_checked: u64,
    /// Where the sweep goes on.
    pub sentence_cursor: Option<String>,
}

/// The progress at another stage.
pub fn set_dedup_phase(row: DedupProgress, phase: String) -> (r: DedupProgress)
    ensures
        r == (DedupProgress { phase, ..row }),
{
    DedupProgress { phase, ..row }
}

/// Where the singleton sweep goes on after a restart.
pub fn sentence_scan_cursor(row: Option<DedupProgress>) -> (r: Option<Id>)
    ensures
        r == (match row {
            Some(row) => match row.sentence_cursor {
                Some(text) => Some(Id { text }),
                None => None::<Id>,
            },
            None => None,
        }),
{
    match row {
        Some(row) => match row.sentence_cursor {
            Some(text) => Some(Id { text }),
            None => None,
        },
        None => None,
    }
}

/// The progress with the sweep's continuation, which moves on before a body is
/// examined: one slow body cannot hold up the later ones.
pub fn checkpoint_sentence_scan(row: DedupProgress, cursor: Option<Id>) -> (r: DedupProgress)
    ensures
        r == (DedupProgress {
            sentence_cursor: match cursor {
                Some(id) => Some(id.text),
                None => None,
            },
            ..row
        }),
{
    let sentence_cursor = match cursor {
        Some(id) => Some(id.text),
        None => None,
    };
    DedupProgress { sentence_cursor, ..row }
}

/// The progress after one more body was examined, changed or not. A vault
/// without progress gets none.
pub fn record_sentence_checked(row: Option<DedupProgress>) -> (r: Option<DedupProgress>)
    requires
        row is Some ==> row->0.sentence_checked < i64::MAX,
    ensures
        r == (match row {
            Some(row) => Some(
                (DedupProgress { sentence_checked: (row.sentence_checked + 1) as u64, ..row }),
            ),
            None => None,
        }),
{
    match row {
        Some(row) => {
            let sentence_checked: u64 = row.sentence_checked + 1;
            Some(DedupProgress { sentence_checked, ..row })
        },
        None => None,
    }
}

/// What a status says of the recorded state and progress. What was never
/// recorded is pending.
pub open spec fn reports(
    maintenance: Option<MaintenanceRow>,
    progress: Option<DedupProgress>,
    status: FormalMaintenanceStatus,
) -> bool {
    &&& match maintenance {
        Some(row) => status.status == row.status && status.retry_at == row.retry_at,
        None => status.status@ == "pending"@ && status.retry_at == 0,
    }
    &&& match progress {
        Some(row) => status.phase == row.phase && status.sentence_checked == row.sentence_checked,
        None => status.phase@ == "pending"@ && status.sentence_checked == 0,
    }
}

/// Read-only background status of a vault.
pub fn formal_status(
    context: &VaultContext,
    maintenance: Option<MaintenanceRow>,
    progress: Option<DedupProgress>,
    pairs: &[FormalPair],
    adopted: bool,
) -> (r: FormalMaintenanceStatus)
    ensures
        reports(maintenance, progress, r),
        r.adopted == adopted,
        r.pending_pairs == count(
            pairs@,
            |pair: FormalPair| pair.vault_id@ == context.id@ && !pair.done,
        ),
        r.checked_pairs == count(
            pairs@,
            |pair: FormalPair| pair.vault_id@ == context.id@ && pair.done,
        ),
{
    let waiting = |pair: &FormalPair| -> (yes: bool)
        ensures
            yes == (pair.vault_id@ == context.id@ && !pair.done),
        { !pair.done && pair.vault_id.same(&context.id) };
    let judged = |pair: &FormalPair| -> (yes: bool)
        ensures
            yes == (pair.vault_id@ == context.id@ && pair.done),
        { pair.done && pair.vault_id.same(&context.id) };
    let pending: usize = count_rows(
        pairs,
        waiting,
        Ghost(|pair: FormalPair| pair.vault_id@ == context.id@ && !pair.done),
    );
    let done: usize = count_rows(
        pairs,
        judged,
        Ghost(|pair: FormalPair| pair.vault_id@ == context.id@ && pair.done),
    );
    let (status, retry_at) = match maintenance {
        Some(row) => (row.status, row.retry_at),
        None => ("pending".to_owned(), 0),
    };
    let (phase, sentence_checked) = match progress {
        Some(row) => (row.phase, row.sentence_checked),
        None => ("pending".to_owned(), 0),
    };
    FormalMaintenanceStatus {
        phase,
        sentence_checked,
        adopted,
        pending_pairs: pending as u64,
        checked_pairs: done as u64,
        status,
        retry_at,
    }
}

/// The latest of times; zero where there is none.
pub open spec fn latest_time(times: Seq<i64>) -> int
    decreases times.len(),
{
    if times.len() == 0 {
        0
    } else if times.len() == 1 {
        times[0] as int
    } else {
        let before = latest_time(times.drop_last());
        if times.last() > before {
            times.last() as int
        } else {
            before
        }
    }
}

/// Arrival stamp of an object's vectors: how many there are and when the last
/// one came. Another object's vector does not change it.
pub fn formal_vector_stamp(updated: &[i64]) -> (r: String)
    requires
        updated@.len() <= i64::MAX,
    ensures
        r@ == signed_decimal(updated@.len() as int) + ":"@ + signed_decimal(
            latest_time(updated@),
        ),
{
    let mut latest: i64 = 0;
    let mut i: usize = 0;
    while i < updated.len()
        invariant
            i <= updated@.len(),
            latest == latest_time(updated@.take(i as int)),
        decreases updated@.len() - i,
    {
        proof {
            assert(updated@.take(i + 1).drop_last() =~= updated@.take(i as int));
            assert(updated@.take(i + 1).last() == updated@[i as int]);
        }
        if i == 0 || updated[i] > latest {
            latest = updated[i];
        }
        i += 1;
    }
    assert(updated@.take(i as int) =~= updated@);
    let mut out = String::new();
    out.push_str(format_decimal(updated.len() as i64).as_str());
    out.push_str(":");
    out.push_str(format_decimal(latest).as_str());
    assert(out@ =~= signed_decimal(updated@.len() as int) + ":"@ + signed_decimal(
        latest_time(updated@),
    ));
    out
}

/// A textual proposal that was kept for an input.
#[derive(Clone, Debug, PartialEq, Eq)]
pub struct KeptRewrite {
    pub vault_id: Id,
    pub input_hash: String,
    pub content: String,
}

/// The proposal that the vault keeps for an input: its position.
pub fn equivalence_rewrite(context: &VaultContext, rewrites: &[KeptRewrite], key: &str) -> (r: Option<
    usize,
>)
    ensures
        match r {
            Some(i) => i < rewrites@.len() && first_index(
                rewrites@,
                |row: KeptRewrite| row.vault_id@ == context.id@ && row.input_hash@ == key@,
            ) == Some(i as int),
            None => first_index(
                rewrites@,
                |row: KeptRewrite| row.vault_id@ == context.id@ && row.input_hash@ == key@,
            ) is None,
        },
{
    let accepts = |row: &KeptRewrite| -> (yes: bool)
        ensures
            yes == (row.vault_id@ == context.id@ && row.input_hash@ == key@),
        { row.vault_id.same(&context.id) && text_eq(row.input_hash.as_str(), key) };
    find(
        rewrites,
        accepts,
        Ghost(|row: KeptRewrite| row.vault_id@ == context.id@ && row.input_hash@ == key@),
    )
}

/// Checks a textual proposal before it is kept. Empty content means that the
/// original stays.
pub fn save_equivalence_rewrite(existing: Option<String>, content: String) -> (r: Result<
    String,
    StateError,
>)
    ensures
        r == (if byte_len(content@) > 65_536 {
            invalid("rewrite exceeds bound")
        } else {
            match existing {
                Some(kept) => Ok::<String, StateError>(kept),
                None => Ok(content),
            }
        }),
{
    if bytes_of(content.as_str()) > 65_536 {
        return Err(StateError::InvalidInput("rewrite exceeds bound"));
    }
    match existing {
        Some(kept) => Ok(kept),
        None => Ok(content),
    }
}

/// Sources of note sets, in order.
pub open spec fn set_sources(sets: Seq<MemoryNoteSetRecord>) -> Seq<String> {
    sets.map_values(|set: MemoryNoteSetRecord| set.source_file_id.text)
}

/// Positions of one page of a vault's note sets by source. The cursor remains
/// valid while completed sets disappear.
pub fn source_ids_after(
    context: &VaultContext,
    sets: &[MemoryNoteSetRecord],
    after: Option<&str>,
    limit: u32,
) -> (r: Result<Vec<usize>, StateError>)
    ensures
        if !(1 <= limit <= MAX_MEMORY_LIMIT) {
            r == invalid::<Vec<usize>>("current-memory page bounds are invalid")
        } else {
            r matches Ok(picked) && is_selection(
                keys(set_sources(sets@)),
                after_cursor(
                    set_sources(sets@),
                    sets@.map_values(|set: MemoryNoteSetRecord| set.vault_id@ == context.id@),
                    after,
                ),
                limit as nat,
                picked@,
            )
        },
{
    match validate_page(limit, 0) {
        Ok(()) => {},
        Err(error) => return Err(error),
    }
    let accepts = |set: &MemoryNoteSetRecord| -> (yes: bool)
        ensures
            yes == (set.vault_id@ == context.id@),
        { set.vault_id.same(&context.id) };
    let eligible = marks(
        sets,
        accepts,
        Ghost(|set: MemoryNoteSetRecord| set.vault_id@ == context.id@),
    );
    let mut ids: Vec<String> = Vec::new();
    let mut i: usize = 0;
    while i < sets.len()
        invariant
            i <= sets@.len(),
            ids@ == set_sources(sets@).take(i as int),
        decreases sets@.len() - i,
    {
        ids.push(sets[i].source_file_id.text.clone());
        i += 1;
        assert(ids@ =~= set_sources(sets@).take(i as int));
    }
    assert(ids@ =~= set_sources(sets@));
    Ok(page_after(ids.as_slice(), eligible.as_slice(), after, limit))
}

/// Positions of one page of the contributions that wait for their first
/// examination. They bypass the historical cursor.
pub fn new_dedup_contributions(inputs: &[String], limit: u32) -> (r: Result<Vec<usize>, StateError>)
    ensures
        if !(1 <= limit <= MAX_MEMORY_LIMIT) {
            r == invalid::<Vec<usize>>("current-memory page bounds are invalid")
        } else {
            r matches Ok(picked) && is_selection(
                keys(inputs@),
                inputs@.map_values(|input: String| true),
                limit as nat,
                picked@,
            )
        },
{
    match validate_page(limit, 0) {
        Ok(()) => {},
        Err(error) => return Err(error),
    }
    let accepts = |input: &String| -> (yes: bool)
        ensures
            yes == true,
        { true };
    let eligible = marks(inputs, accepts, Ghost(|input: String| true));
    let order_keys = keys_of(inputs);
    Ok(select(order_keys.as_slice(), eligible.as_slice(), limit as usize))
}

/// Where a candidate scan goes on. A completed sweep leaves an empty text and
/// starts anew.
pub open spec fn scan_continuation(stored: Option<String>) -> Option<Id> {
    if stored is Some && stored->0@.len() > 0 {
        Some(Id { text: stored->0 })
    } else {
        None
    }
}

/// The persisted continuation of a candidate scan.
pub fn formal_scan_cursor(stored: Option<String>) -> (r: Option<Id>)
    ensures
        r == scan_continuation(stored),
{
    match stored {
        Some(text) => {
            if text.as_str().is_empty() {
                None
            } else {
                Some(Id { text })
            }
        },
        None => None,
    }
}

/// Whether a contribution was examined with exactly these inputs.
pub fn formal_examined(
    context: &VaultContext,
    examined: &[ExaminedInput],
    id: &Id,
    fingerprint: &str,
) -> (r: bool)
    ensures
        r == some_row(
            examined@,
            |row: ExaminedInput| row.covers(context.id@, id@, fingerprint@),
        ),
{
    let accepts = |row: &ExaminedInput| -> (yes: bool)
        ensures
            yes == row.covers(context.id@, id@, fingerprint@),
        {
            row.vault_id.same(&context.id) && row.contribution_id.same(id) && text_eq(
                row.fingerprint.as_str(),
                fingerprint,
            )
        };
    any(
        examined,
        accepts,
        Ghost(|row: ExaminedInput| row.covers(context.id@, id@, fingerprint@)),
    )
}

/// Whether an identity was ever given to a formal object of the vault. A
/// retired identity stays reserved.
pub fn formal_identity_reserved(reserved: &[Id], id: &Id) -> (r: bool)
    ensures
        r == some_row(reserved@, |row: Id| row@ == id@),
{
    let accepts = |row: &Id| -> (yes: bool)
        ensures
            yes == (row@ == id@),
        { row.same(id) };
    any(reserved, accepts, Ghost(|row: Id| row@ == id@))
}

/// An input that was examined is known as examined with exactly the inputs that
/// were seen last.
pub proof fn law_examination_is_read_back(
    examined: Seq<ExaminedInput>,
    vault: Id,
    id: Id,
    fingerprint: String,
    asked: Seq<char>,
)
    ensures
        some_row(
            examination_put(examined, vault, id, fingerprint),
            |row: ExaminedInput| row.covers(vault@, id@, asked),
        ) <==> asked == fingerprint@,
{
    let of_input = |row: ExaminedInput| row.of_input(vault@, id@);
    let others = |row: ExaminedInput| !row.of_input(vault@, id@);
    let covers = |row: ExaminedInput| row.covers(vault@, id@, asked);
    let kept = examined.filter(others);
    let after = examination_put(examined, vault, id, fingerprint);
    lemma_filter_drops(examined, of_input);
    assert(others =~= |row: ExaminedInput| !of_input(row));
    assert(after.last() == ExaminedInput { vault_id: vault, contribution_id: id, fingerprint });
    if asked == fingerprint@ {
        assert(covers(after[after.len() - 1]));
    } else if some_row(after, covers) {
        let k = choose|k: int| 0 <= k < after.len() && covers(#[trigger] after[k]);
        if k < kept.len() {
            assert(after[k] == kept[k]);
            assert(of_input(kept[k]));
        }
    }
}

/// A stage is recorded without overwriting a waiting or error reason: the
/// status that is reported and its retry time do not depend on the progress.
pub proof fn law_phase_keeps_reason(
    maintenance: MaintenanceRow,
    progress: DedupProgress,
    phase: String,
    before: FormalMaintenanceStatus,
    after: FormalMaintenanceStatus,
)
    requires
        reports(Some(maintenance), Some(progress), before),
        reports(Some(maintenance), Some(DedupProgress { phase, ..progress }), after),
    ensures
        after.status == before.status,
        after.retry_at == before.retry_at,
        after.phase == phase,
        after.sentence_checked == before.sentence_checked,
{
}

/// Once a pass that covered its candidates has saved the inputs it saw, those
/// inputs are covered, and any other inputs are not.
pub proof fn law_checkpoint_covers_its_inputs(
    row: MaintenanceRow,
    fingerprint: String,
    other: Seq<char>,
    pairs: Seq<FormalPair>,
    vault: Seq<char>,
)
    requires
        row.status@ == "covered_candidates"@,
        !some_row(pairs, |pair: FormalPair| pair.pending(vault)),
    ensures
        covered(
            Some(MaintenanceRow { fingerprint, ..row }),
            fingerprint@,
            pairs,
            Seq::empty(),
            false,
            vault,
        ),
        other != fingerprint@ ==> !covered(
            Some(MaintenanceRow { fingerprint, ..row }),
            other,
            pairs,
            Seq::empty(),
            false,
            vault,
        ),
{
}

/// Unfinished work always wins: while a pair waits, a new contribution is not
/// examined or a publication is in flight, no inputs are covered.
pub proof fn law_unfinished_work_is_not_covered(
    maintenance: Option<MaintenanceRow>,
    fingerprint: Seq<char>,
    pairs: Seq<FormalPair>,
    new_inputs: Seq<Id>,
    operation: bool,
    vault: Seq<char>,
)
    requires
        some_row(pairs, |pair: FormalPair| pair.pending(vault)) || new_inputs.len() > 0
            || operation,
    ensures
        !covered(maintenance, fingerprint, pairs, new_inputs, operation, vault),
{
}

/// A scan goes on where it was checkpointed.
pub proof fn law_scan_continues(saved: MaintenanceRow, id: Id)
    requires
        id@.len() > 0,
        saved.cursor@ == id@,
    ensures
        scan_continuation(Some(saved.cursor)) is Some,
        scan_continuation(Some(saved.cursor))->0@ == id@,
{
}

} // verus!
