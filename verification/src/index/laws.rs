//! What searches, relations and projections of notes give, in terms of the
//! stored notes, files and filters.

use vstd::prelude::*;

use crate::domain::{Id, VaultContext};
use crate::error::StateError;
use crate::files::FileRecord;
use crate::index::queries::{
    closeness, directly_linked, get_note_for_retrieval, has_tag, hit_rank, is_live_file, live_path,
    membership_under, ordering_paths, puts_under, ranked_keys, ranks, related, related_notes,
    relation_score, search_notes, shared_tags, tag_score, NoteHit, NoteSearchFilter,
};
use crate::index::{
    clear_vault, is_member, is_node, is_note, list_nodes, remove_note, replace_knowledge_map,
    replace_note, HeadingProjectionInput, IndexMembershipProjectionInput, IndexNodeProjectionInput,
    IndexNodeRecord, IndexState, IndexStatusRecord, LinkProjectionInput, NoteProjectionInput,
    NoteSearchRecord, StoredMembership, StoredNode, StoredNote, TagProjectionInput,
};
use crate::order::law_ranks_follow_names;
use crate::order::laws::{lemma_page_parts, lemma_page_rows, no_later};
use crate::rows::laws::lemma_kept;
use crate::rows::{count, lemma_first_index};
use crate::text::laws::{law_open_pattern_matches_prefix, same_letter};
use crate::text::text_before;

verus! {

/// Whether a file stands live in a vault at a path.
pub open spec fn stands_live(file: FileRecord, vault: Seq<char>, id: Seq<char>) -> bool {
    &&& file.vault_id.text@ == vault
    &&& file.id.text@ == id
    &&& file.deleted_at is None
}

/// Whether a text opens with a prefix, up to the case of ASCII letters.
pub open spec fn opens_with(text: Seq<char>, prefix: Seq<char>) -> bool {
    prefix.len() <= text.len() && forall|i: int|
        0 <= i < prefix.len() ==> same_letter(#[trigger] text[i], prefix[i])
}

/// Whether a text holds no wildcard.
pub open spec fn literal(text: Seq<char>) -> bool {
    forall|i: int| 0 <= i < text.len() ==> #[trigger] text[i] != '%' && text[i] != '_'
}

/// Whether a note has a normalized tag.
pub open spec fn carries(note: StoredNote, tag: Seq<char>) -> bool {
    exists|i: int| 0 <= i < note.tags@.len() && (#[trigger] note.tags@[i]).normalized_tag@ == tag
}

/// Whether a note of a vault stands under a topic.
pub open spec fn stands_under(
    note: StoredNote,
    nodes: Seq<StoredNode>,
    memberships: Seq<StoredMembership>,
    vault: Seq<char>,
    topic: Seq<char>,
) -> bool {
    exists|m: int, n: int|
        {
            &&& 0 <= m < memberships.len()
            &&& 0 <= n < nodes.len()
            &&& (#[trigger] memberships[m]).vault_id.text@ == vault
            &&& memberships[m].membership.file_id.text@ == note.note.file_id.text@
            &&& (#[trigger] nodes[n]).vault_id.text@ == vault
            &&& nodes[n].node.id@ == memberships[m].membership.node_id@
            &&& nodes[n].node.stable_key@ == topic
        }
}

proof fn lemma_stands_under(
    note: StoredNote,
    nodes: Seq<StoredNode>,
    memberships: Seq<StoredMembership>,
    vault: Seq<char>,
    topic: Seq<char>,
)
    ensures
        membership_under(note, nodes, memberships, vault, topic) is Some <==> stands_under(
            note,
            nodes,
            memberships,
            vault,
            topic,
        ),
{
    let rule = |membership: StoredMembership|
        puts_under(membership, nodes, vault, note.note.file_id@, topic);
    lemma_first_index(memberships, rule);
    if let Some(m) = crate::rows::first_index(memberships, rule) {
        let n = choose|n: int|
            0 <= n < nodes.len() && is_node(
                #[trigger] nodes[n],
                vault,
                memberships[m].membership.node_id@,
            ) && nodes[n].node.stable_key@ == topic;
        assert(memberships[m].vault_id.text@ == vault && nodes[n].vault_id.text@ == vault);
    }
    if stands_under(note, nodes, memberships, vault, topic) {
        let (m, n) = choose|m: int, n: int|
            {
                &&& 0 <= m < memberships.len()
                &&& 0 <= n < nodes.len()
                &&& (#[trigger] memberships[m]).vault_id.text@ == vault
                &&& memberships[m].membership.file_id.text@ == note.note.file_id.text@
                &&& (#[trigger] nodes[n]).vault_id.text@ == vault
                &&& nodes[n].node.id@ == memberships[m].membership.node_id@
                &&& nodes[n].node.stable_key@ == topic
            };
        assert(is_node(nodes[n], vault, memberships[m].membership.node_id@));
        assert(rule(memberships[m]));
    }
}

proof fn lemma_live_path(files: Seq<FileRecord>, vault: Seq<char>, id: Seq<char>)
    ensures
        match live_path(files, vault, id) {
            Some(path) => exists|f: int|
                0 <= f < files.len() && stands_live(#[trigger] files[f], vault, id)
                    && files[f].path == path,
            None => forall|f: int|
                0 <= f < files.len() ==> !stands_live(#[trigger] files[f], vault, id),
        },
{
    let rule = |file: FileRecord| is_live_file(file, vault, id);
    lemma_first_index(files, rule);
    if let Some(f) = crate::rows::first_index(files, rule) {
        assert(stands_live(files[f], vault, id));
    }
    assert forall|f: int| 0 <= f < files.len() && stands_live(#[trigger] files[f], vault, id)
        implies rule(files[f]) by {}
}

/// Whether everything that a search asks of a note holds of it, read off the
/// stored rows. Of a path prefix without wildcards, every live entry of the file
/// opens with it.
pub open spec fn is_asked_for(
    note: StoredNote,
    nodes: Seq<StoredNode>,
    memberships: Seq<StoredMembership>,
    files: Seq<FileRecord>,
    hits: Seq<NoteHit>,
    filter: NoteSearchFilter,
    vault: Seq<char>,
) -> bool {
    &&& note.note.vault_id.text@ == vault
    &&& exists|h: int|
        0 <= h < hits.len() && (#[trigger] hits[h]).file_id.text@ == note.note.file_id.text@
    &&& exists|f: int|
        0 <= f < files.len() && stands_live(#[trigger] files[f], vault, note.note.file_id.text@)
    &&& filter.path_prefix matches Some(prefix) ==> forall|f: int|
        0 <= f < files.len() && stands_live(#[trigger] files[f], vault, note.note.file_id.text@)
            ==> opens_with(files[f].path.text@, prefix@)
    &&& forall|t: int| 0 <= t < filter.tags@.len() ==> carries(note, #[trigger] filter.tags@[t]@)
    &&& forall|t: int|
        0 <= t < filter.topic_keys@.len() ==> stands_under(
            note,
            nodes,
            memberships,
            vault,
            #[trigger] filter.topic_keys@[t]@,
        )
    &&& filter.modified_after matches Some(after) ==> note.updated_at >= after
    &&& filter.modified_before matches Some(before) ==> note.updated_at <= before
}

proof fn lemma_admits(
    note: StoredNote,
    nodes: Seq<StoredNode>,
    memberships: Seq<StoredMembership>,
    files: Seq<FileRecord>,
    hits: Seq<NoteHit>,
    filter: NoteSearchFilter,
    vault: Seq<char>,
)
    requires
        filter.path_prefix matches Some(prefix) ==> literal(prefix@),
    ensures
        is_asked_for(note, nodes, memberships, files, hits, filter, vault)
            ==> note.note.vault_id@ == vault && hit_rank(hits, note) is Some && filter.admits(
            note,
            nodes,
            memberships,
            files,
            vault,
        ),
        note.note.vault_id@ == vault && hit_rank(hits, note) is Some && filter.admits(
            note,
            nodes,
            memberships,
            files,
            vault,
        ) ==> {
            &&& note.note.vault_id.text@ == vault
            &&& exists|h: int|
                0 <= h < hits.len() && (#[trigger] hits[h]).file_id.text@ == note.note.file_id.text@
            &&& exists|f: int|
                0 <= f < files.len() && stands_live(
                    #[trigger] files[f],
                    vault,
                    note.note.file_id.text@,
                ) && (filter.path_prefix matches Some(prefix) ==> opens_with(
                    files[f].path.text@,
                    prefix@,
                ))
            &&& forall|t: int|
                0 <= t < filter.tags@.len() ==> carries(note, #[trigger] filter.tags@[t]@)
            &&& forall|t: int|
                0 <= t < filter.topic_keys@.len() ==> stands_under(
                    note,
                    nodes,
                    memberships,
                    vault,
                    #[trigger] filter.topic_keys@[t]@,
                )
            &&& filter.modified_after matches Some(after) ==> note.updated_at >= after
            &&& filter.modified_before matches Some(before) ==> note.updated_at <= before
        },
{
    let id = note.note.file_id@;
    lemma_live_path(files, vault, id);
    lemma_first_index(hits, |hit: NoteHit| hit.file_id@ == note.note.file_id@);
    if let Some(prefix) = filter.path_prefix {
        if let Some(path) = live_path(files, vault, id) {
            law_open_pattern_matches_prefix(path@, prefix@);
        }
    }
    assert forall|t: int| 0 <= t < filter.topic_keys@.len() implies (membership_under(
        note,
        nodes,
        memberships,
        vault,
        #[trigger] filter.topic_keys@[t]@,
    ) is Some <==> stands_under(
        note,
        nodes,
        memberships,
        vault,
        filter.topic_keys@[t]@,
    )) by {
        lemma_stands_under(note, nodes, memberships, vault, filter.topic_keys@[t]@);
    }
    assert forall|t: int| 0 <= t < filter.tags@.len() implies (has_tag(
        note,
        #[trigger] filter.tags@[t]@,
    ) <==> carries(note, filter.tags@[t]@)) by {
        let tag = filter.tags@[t]@;
        if carries(note, tag) {
            let i = choose|i: int|
                0 <= i < note.tags@.len() && (#[trigger] note.tags@[i]).normalized_tag@ == tag;
            assert(note.tags@[i].normalized_tag@ == tag);
        }
    }
}

/// A search shows notes of the vault that the index hit, that live and that pass
/// every filter: a path prefix without wildcards opens the path, each tag is a
/// tag of the note, each topic has it as a member, and it was changed in time.
pub proof fn law_search_shows_what_is_asked_for(
    context: &VaultContext,
    notes: &[StoredNote],
    nodes: &[StoredNode],
    memberships: &[StoredMembership],
    files: &[FileRecord],
    fts_query: &str,
    hits: &[NoteHit],
    filter: &NoteSearchFilter,
    limit: u32,
    offset: u32,
    r: Result<Vec<usize>, StateError>,
)
    requires
        call_ensures(
            search_notes,
            (
                context,
                notes,
                nodes,
                memberships,
                files,
                fts_query,
                hits,
                filter,
                limit,
                offset,
            ),
            r,
        ),
        filter.path_prefix matches Some(prefix) ==> literal(prefix@),
    ensures
        r matches Ok(picked) ==> {
            &&& picked@.len() <= limit
            &&& forall|i: int, j: int|
                0 <= i < j < picked@.len() ==> (#[trigger] picked@[i]) != (#[trigger] picked@[j])
            &&& forall|i: int|
                0 <= i < picked@.len() ==> {
                    let note = notes@[#[trigger] picked@[i] as int];
                    &&& picked@[i] < notes@.len()
                    &&& note.note.vault_id.text@ == context.id.text@
                    &&& exists|h: int|
                        0 <= h < hits@.len() && (#[trigger] hits@[h]).file_id.text@
                            == note.note.file_id.text@
                    &&& exists|f: int|
                        0 <= f < files@.len() && stands_live(
                            #[trigger] files@[f],
                            context.id.text@,
                            note.note.file_id.text@,
                        ) && (filter.path_prefix matches Some(prefix) ==> opens_with(
                            files@[f].path.text@,
                            prefix@,
                        ))
                    &&& forall|t: int|
                        0 <= t < filter.tags@.len() ==> carries(note, #[trigger] filter.tags@[t]@)
                    &&& forall|t: int|
                        0 <= t < filter.topic_keys@.len() ==> stands_under(
                            note,
                            nodes@,
                            memberships@,
                            context.id.text@,
                            #[trigger] filter.topic_keys@[t]@,
                        )
                    &&& filter.modified_after matches Some(after) ==> note.updated_at >= after
                    &&& filter.modified_before matches Some(before) ==> note.updated_at <= before
                }
        },
{
    if let Ok(picked) = r {
        let rule = |note: StoredNote|
            note.note.vault_id@ == context.id@ && hit_rank(hits@, note) is Some && filter.admits(
                note,
                nodes@,
                memberships@,
                files@,
                context.id@,
            );
        lemma_page_rows(
            ranked_keys(
                ranks(notes@, hits@),
                ordering_paths(notes@, files@, context.id@),
                notes@,
            ),
            notes@.map_values(rule),
            false,
            limit as nat,
            offset as nat,
            picked@,
        );
        assert forall|i: int| 0 <= i < picked@.len() implies rule(
            notes@[#[trigger] picked@[i] as int],
        ) by {
            assert(notes@.map_values(rule)[picked@[i] as int]);
        }
        assert forall|i: int| 0 <= i < picked@.len() implies picked@[i] < notes@.len() && ({
            let note = notes@[#[trigger] picked@[i] as int];
            &&& note.note.vault_id.text@ == context.id.text@
            &&& exists|h: int|
                0 <= h < hits@.len() && (#[trigger] hits@[h]).file_id.text@
                    == note.note.file_id.text@
            &&& exists|f: int|
                0 <= f < files@.len() && stands_live(
                    #[trigger] files@[f],
                    context.id.text@,
                    note.note.file_id.text@,
                ) && (filter.path_prefix matches Some(prefix) ==> opens_with(
                    files@[f].path.text@,
                    prefix@,
                ))
            &&& forall|t: int|
                0 <= t < filter.tags@.len() ==> carries(note, #[trigger] filter.tags@[t]@)
            &&& forall|t: int|
                0 <= t < filter.topic_keys@.len() ==> stands_under(
                    note,
                    nodes@,
                    memberships@,
                    context.id.text@,
                    #[trigger] filter.topic_keys@[t]@,
                )
            &&& filter.modified_after matches Some(after) ==> note.updated_at >= after
            &&& filter.modified_before matches Some(before) ==> note.updated_at <= before
        }) by {
            lemma_admits(
                notes@[picked@[i] as int],
                nodes@,
                memberships@,
                files@,
                hits@,
                *filter,
                context.id@,
            );
        }
    }
}

/// A search leaves nothing out: a page that is not full, from the start, shows
/// every note of which all holds that is asked for. A note under the prefix is
/// found whatever follows the prefix in its path.
pub proof fn law_search_leaves_nothing_out(
    context: &VaultContext,
    notes: &[StoredNote],
    nodes: &[StoredNode],
    memberships: &[StoredMembership],
    files: &[FileRecord],
    fts_query: &str,
    hits: &[NoteHit],
    filter: &NoteSearchFilter,
    limit: u32,
    r: Result<Vec<usize>, StateError>,
    k: int,
)
    requires
        call_ensures(
            search_notes,
            (context, notes, nodes, memberships, files, fts_query, hits, filter, limit, 0u32),
            r,
        ),
        filter.path_prefix matches Some(prefix) ==> literal(prefix@),
        0 <= k < notes@.len(),
        is_asked_for(
            notes@[k],
            nodes@,
            memberships@,
            files@,
            hits@,
            *filter,
            context.id.text@,
        ),
    ensures
        1 <= limit <= 100 && 1 <= vstd::utf8::encode_utf8(fts_query@).len() <= 4096 <==> r is Ok,
        r matches Ok(picked) ==> (picked@.len() < limit ==> picked@.contains(k as usize)),
{
    if let Ok(picked) = r {
        let rule = |note: StoredNote|
            note.note.vault_id@ == context.id@ && hit_rank(hits@, note) is Some && filter.admits(
                note,
                nodes@,
                memberships@,
                files@,
                context.id@,
            );
        let eligible = notes@.map_values(rule);
        lemma_page_rows(
            ranked_keys(
                ranks(notes@, hits@),
                ordering_paths(notes@, files@, context.id@),
                notes@,
            ),
            eligible,
            false,
            limit as nat,
            0,
            picked@,
        );
        lemma_admits(notes@[k], nodes@, memberships@, files@, hits@, *filter, context.id@);
        assert(eligible[k]);
    }
}

/// Whether one entry is the only live one of a file in a vault.
pub open spec fn is_only_entry(
    files: Seq<FileRecord>,
    vault: Seq<char>,
    id: Seq<char>,
    at: int,
) -> bool {
    &&& 0 <= at < files.len()
    &&& stands_live(files[at], vault, id)
    &&& forall|f: int|
        0 <= f < files.len() && stands_live(#[trigger] files[f], vault, id) ==> f == at
}

/// Hits come in the order of their ranks, the smallest first; of equal ranks the
/// note with the path whose bytes come first.
pub proof fn law_search_orders_by_rank(
    context: &VaultContext,
    notes: &[StoredNote],
    nodes: &[StoredNode],
    memberships: &[StoredMembership],
    files: &[FileRecord],
    fts_query: &str,
    hits: &[NoteHit],
    filter: &NoteSearchFilter,
    limit: u32,
    offset: u32,
    r: Result<Vec<usize>, StateError>,
    i: int,
    j: int,
    a: int,
    b: int,
    f: int,
    g: int,
)
    requires
        call_ensures(
            search_notes,
            (
                context,
                notes,
                nodes,
                memberships,
                files,
                fts_query,
                hits,
                filter,
                limit,
                offset,
            ),
            r,
        ),
        r matches Ok(picked) && 0 <= i < j < picked@.len() && 0 <= a < hits@.len() && 0 <= b
            < hits@.len() && hits@[a].file_id.text@ == notes@[picked@[i] as int].note.file_id.text@
            && hits@[b].file_id.text@ == notes@[picked@[j] as int].note.file_id.text@,
        forall|x: int, y: int|
            0 <= x < y < hits@.len() ==> (#[trigger] hits@[x]).file_id.text@ != (
            #[trigger] hits@[y]).file_id.text@,
        is_only_entry(files@, context.id.text@, hits@[a].file_id.text@, f),
        is_only_entry(files@, context.id.text@, hits@[b].file_id.text@, g),
    ensures
        hits@[a].rank.rank() <= hits@[b].rank.rank(),
        hits@[a].rank.rank() == hits@[b].rank.rank() ==> files@[f].path.text@
            == files@[g].path.text@ || text_before(files@[f].path.text@, files@[g].path.text@),
{
    let picked = r->Ok_0@;
    let firsts = ranks(notes@, hits@);
    let paths = ordering_paths(notes@, files@, context.id@);
    let rule = |note: StoredNote|
        note.note.vault_id@ == context.id@ && hit_rank(hits@, note) is Some && filter.admits(
            note,
            nodes@,
            memberships@,
            files@,
            context.id@,
        );
    let keys = ranked_keys(firsts, paths, notes@);
    lemma_page_rows(
        keys,
        notes@.map_values(rule),
        false,
        limit as nat,
        offset as nat,
        picked,
    );
    let x = picked[i] as int;
    let y = picked[j] as int;
    lemma_first_index(hits@, |hit: NoteHit| hit.file_id@ == notes@[x].note.file_id@);
    lemma_first_index(hits@, |hit: NoteHit| hit.file_id@ == notes@[y].note.file_id@);
    assert(hit_rank(hits@, notes@[x]) == Some(hits@[a].rank));
    assert(hit_rank(hits@, notes@[y]) == Some(hits@[b].rank));
    assert(firsts[x] == hits@[a].rank.rank());
    assert(firsts[y] == hits@[b].rank.rank());
    assert(no_later(keys[x], keys[y]));
    assert(notes@.len() == notes.len());
    lemma_live_path(files@, context.id@, notes@[x].note.file_id@);
    lemma_live_path(files@, context.id@, notes@[y].note.file_id@);
    lemma_path_order(paths, x, y);
}

/// Of two paths the one with no higher rank comes first or is the same.
proof fn lemma_path_order(paths: Seq<String>, x: int, y: int)
    requires
        0 <= x < paths.len(),
        0 <= y < paths.len(),
    ensures
        crate::order::names_before(paths, paths[x]@) as i128 <= crate::order::names_before(
            paths,
            paths[y]@,
        ) as i128 && paths.len() <= u64::MAX ==> paths[x]@ == paths[y]@ || text_before(
            paths[x]@,
            paths[y]@,
        ),
{
    law_ranks_follow_names(paths, x, y);
    crate::text::lemma_text_order(paths[x]@, paths[y]@, paths[x]@);
    paths.lemma_filter_len(|other: String| text_before(other@, paths[x]@));
    paths.lemma_filter_len(|other: String| text_before(other@, paths[y]@));
}

/// Normalized tags of a note.
pub open spec fn tag_names(tags: Seq<TagProjectionInput>) -> Set<Seq<char>> {
    tags.map_values(|tag: TagProjectionInput| tag.normalized_tag@).to_set()
}

/// Whether no two tags have the same normalized form.
pub open spec fn distinct_tags(tags: Seq<TagProjectionInput>) -> bool {
    forall|i: int, j: int|
        0 <= i < j < tags.len() ==> (#[trigger] tags[i]).normalized_tag@ != (
        #[trigger] tags[j]).normalized_tag@
}

proof fn lemma_tag_names(tags: Seq<TagProjectionInput>, name: Seq<char>)
    ensures
        tag_names(tags).contains(name) <==> exists|i: int|
            0 <= i < tags.len() && (#[trigger] tags[i]).normalized_tag@ == name,
        tag_names(tags).finite(),
{
    let names = tags.map_values(|tag: TagProjectionInput| tag.normalized_tag@);
    vstd::seq_lib::seq_to_set_is_finite(names);
    if tag_names(tags).contains(name) {
        let i = choose|i: int| 0 <= i < names.len() && names[i] == name;
        assert(tags[i].normalized_tag@ == name);
    }
    assert forall|i: int| 0 <= i < tags.len() && (#[trigger] tags[i]).normalized_tag@
        == name implies tag_names(tags).contains(name) by {
        assert(names[i] == name);
    }
}

proof fn lemma_count_one(tags: Seq<TagProjectionInput>, name: Seq<char>)
    requires
        distinct_tags(tags),
    ensures
        count(tags, |tag: TagProjectionInput| tag.normalized_tag@ == name) == if tag_names(
            tags,
        ).contains(name) {
            1nat
        } else {
            0nat
        },
    decreases tags.len(),
{
    reveal(Seq::filter);
    lemma_tag_names(tags, name);
    if tags.len() > 0 {
        let fewer = tags.drop_last();
        assert forall|i: int, j: int| 0 <= i < j < fewer.len() implies (
        #[trigger] fewer[i]).normalized_tag@ != (#[trigger] fewer[j]).normalized_tag@ by {
            assert(fewer[i] == tags[i] && fewer[j] == tags[j]);
        }
        lemma_count_one(fewer, name);
        lemma_tag_names(fewer, name);
        let last = tags.len() - 1;
        if tags[last].normalized_tag@ == name {
            assert forall|i: int| 0 <= i < fewer.len() implies (
            #[trigger] fewer[i]).normalized_tag@ != name by {
                assert(fewer[i] == tags[i]);
                assert(tags[i].normalized_tag@ != tags[last].normalized_tag@);
            }
        } else {
            if tag_names(tags).contains(name) {
                let i = choose|i: int|
                    0 <= i < tags.len() && (#[trigger] tags[i]).normalized_tag@ == name;
                assert(fewer[i].normalized_tag@ == name);
            }
            if tag_names(fewer).contains(name) {
                let i = choose|i: int|
                    0 <= i < fewer.len() && (#[trigger] fewer[i]).normalized_tag@ == name;
                assert(tags[i].normalized_tag@ == name);
            }
        }
    }
}

/// Each shared tag counts: of notes without repeated tags, the tag score is the
/// number of normalized tags that both have.
pub proof fn law_each_shared_tag_counts(a: Seq<TagProjectionInput>, b: Seq<TagProjectionInput>)
    requires
        distinct_tags(a),
        distinct_tags(b),
    ensures
        shared_tags(a, b) == tag_names(a).intersect(tag_names(b)).len(),
    decreases a.len(),
{
    let both = tag_names(a).intersect(tag_names(b));
    lemma_tag_names(a, Seq::empty());
    if a.len() == 0 {
        assert forall|name: Seq<char>| !both.contains(name) by {
            lemma_tag_names(a, name);
        }
        assert(both =~= Set::empty());
    } else {
        let fewer = a.drop_last();
        let name = a.last().normalized_tag@;
        let rest = tag_names(fewer).intersect(tag_names(b));
        assert forall|i: int, j: int| 0 <= i < j < fewer.len() implies (
        #[trigger] fewer[i]).normalized_tag@ != (#[trigger] fewer[j]).normalized_tag@ by {
            assert(fewer[i] == a[i] && fewer[j] == a[j]);
        }
        law_each_shared_tag_counts(fewer, b);
        lemma_count_one(b, name);
        let named = |tag: TagProjectionInput| tag.normalized_tag@ == name;
        let last = |tag: TagProjectionInput| tag.normalized_tag@ == a.last().normalized_tag@;
        assert(named =~= last);
        assert(shared_tags(a, b) == shared_tags(fewer, b) + count(b, last));
        lemma_tag_names(fewer, name);
        lemma_tag_names(b, name);
        assert(!tag_names(fewer).contains(name)) by {
            assert forall|i: int| 0 <= i < fewer.len() implies (
            #[trigger] fewer[i]).normalized_tag@ != name by {
                assert(fewer[i] == a[i]);
                assert(a[i].normalized_tag@ != a[a.len() - 1].normalized_tag@);
            }
        }
        assert forall|other: Seq<char>| tag_names(a).contains(other) <==> (tag_names(
            fewer,
        ).contains(other) || other == name) by {
            lemma_tag_names(a, other);
            lemma_tag_names(fewer, other);
            if tag_names(a).contains(other) && other != name {
                let i = choose|i: int|
                    0 <= i < a.len() && (#[trigger] a[i]).normalized_tag@ == other;
                assert(fewer[i].normalized_tag@ == other);
            }
            if tag_names(fewer).contains(other) {
                let i = choose|i: int|
                    0 <= i < fewer.len() && (#[trigger] fewer[i]).normalized_tag@ == other;
                assert(a[i].normalized_tag@ == other);
            }
            if other == name {
                assert(a[a.len() - 1].normalized_tag@ == other);
            }
        }
        if tag_names(b).contains(name) {
            assert(both =~= rest.insert(name));
            assert(!rest.contains(name));
        } else {
            assert(both =~= rest);
        }
    }
}

/// Whether two notes of a vault are linked, in either direction.
pub open spec fn linked_either_way(a: StoredNote, b: StoredNote) -> bool {
    ||| exists|i: int|
        0 <= i < a.links@.len() && (#[trigger] a.links@[i]).target_file_id is Some
            && a.links@[i].target_file_id->0.text@ == b.note.file_id.text@
    ||| exists|i: int|
        0 <= i < b.links@.len() && (#[trigger] b.links@[i]).target_file_id is Some
            && b.links@[i].target_file_id->0.text@ == a.note.file_id.text@
}

/// The score of a note for another one: the normalized tags that both have, and
/// two more where either links to the other.
pub open spec fn shared_score(source: StoredNote, candidate: StoredNote) -> nat {
    tag_names(source.tags@).intersect(tag_names(candidate.tags@)).len() + if linked_either_way(
        source,
        candidate,
    ) {
        2nat
    } else {
        0nat
    }
}

proof fn lemma_relation_score(
    notes: Seq<StoredNote>,
    vault: Seq<char>,
    file: Seq<char>,
    source: int,
    candidate: StoredNote,
)
    requires
        0 <= source < notes.len(),
        is_note(notes[source], vault, file),
        forall|k: int| 0 <= k < source ==> !is_note(#[trigger] notes[k], vault, file),
        distinct_tags(notes[source].tags@),
        distinct_tags(candidate.tags@),
        candidate.note.vault_id@ == vault,
    ensures
        relation_score(candidate, notes, vault, file) == shared_score(notes[source], candidate),
        tag_score(candidate, notes, vault, file) == tag_names(notes[source].tags@).intersect(
            tag_names(candidate.tags@),
        ).len(),
        directly_linked(candidate, notes, vault, file) <==> linked_either_way(
            notes[source],
            candidate,
        ),
{
    let own = |note: StoredNote| is_note(note, vault, file);
    crate::rows::lemma_first_index_is(notes, own, source);
    law_each_shared_tag_counts(notes[source].tags@, candidate.tags@);
    let a = notes[source];
    let b = candidate;
    if linked_either_way(a, b) {
        if exists|i: int|
            0 <= i < a.links@.len() && (#[trigger] a.links@[i]).target_file_id is Some
                && a.links@[i].target_file_id->0.text@ == b.note.file_id.text@ {
            let i = choose|i: int|
                0 <= i < a.links@.len() && (#[trigger] a.links@[i]).target_file_id is Some
                    && a.links@[i].target_file_id->0.text@ == b.note.file_id.text@;
            assert(crate::index::queries::leads_to(a.links@[i], b.note.file_id@));
            assert(crate::index::queries::links_to(a, vault, b.note.file_id@));
        } else {
            let i = choose|i: int|
                0 <= i < b.links@.len() && (#[trigger] b.links@[i]).target_file_id is Some
                    && b.links@[i].target_file_id->0.text@ == a.note.file_id.text@;
            assert(crate::index::queries::leads_to(b.links@[i], file));
            assert(crate::index::queries::links_to(b, vault, file));
        }
    }
}

/// Related notes are live notes of the vault, other than the note itself, that
/// share a tag with it or are linked with it either way. Each comes with its
/// score: one for each normalized tag that both have, two for a link.
pub proof fn law_related_notes_are_scored_by_what_they_share(
    context: &VaultContext,
    notes: &[StoredNote],
    files: &[FileRecord],
    file_id: &Id,
    limit: u32,
    offset: u32,
    r: Result<Vec<(usize, u64)>, StateError>,
    source: int,
    i: int,
)
    requires
        call_ensures(related_notes, (context, notes, files, file_id, limit, offset), r),
        r matches Ok(found) && 0 <= i < found@.len(),
        0 <= source < notes@.len(),
        notes@[source].note.vault_id.text@ == context.id.text@,
        notes@[source].note.file_id.text@ == file_id.text@,
        forall|k: int|
            0 <= k < source ==> !((#[trigger] notes@[k]).note.vault_id.text@ == context.id.text@
                && notes@[k].note.file_id.text@ == file_id.text@),
        forall|k: int| 0 <= k < notes@.len() ==> distinct_tags((#[trigger] notes@[k]).tags@),
    ensures
        ({
            let at = r->Ok_0@[i].0;
            let note = notes@[at as int];
            &&& at < notes@.len()
            &&& note.note.vault_id.text@ == context.id.text@
            &&& note.note.file_id.text@ != file_id.text@
            &&& exists|f: int|
                0 <= f < files@.len() && stands_live(
                    #[trigger] files@[f],
                    context.id.text@,
                    note.note.file_id.text@,
                )
            &&& shared_score(notes@[source], note) > 0
            &&& shared_score(notes@[source], note) <= u64::MAX ==> r->Ok_0@[i].1 == shared_score(
                notes@[source],
                note,
            )
        }),
{
    let found = r->Ok_0@;
    let picked = found.map_values(|entry: (usize, u64)| entry.0);
    let rule = |note: StoredNote| related(note, notes@, files@, context.id@, file_id@);
    lemma_page_rows(
        ranked_keys(
            closeness(notes@, context.id@, file_id@),
            ordering_paths(notes@, files@, context.id@),
            notes@,
        ),
        notes@.map_values(rule),
        false,
        limit as nat,
        offset as nat,
        picked,
    );
    let at = found[i].0;
    assert(picked[i] == at);
    let note = notes@[at as int];
    assert(rule(note));
    assert forall|k: int| 0 <= k < source implies !is_note(
        #[trigger] notes@[k],
        context.id@,
        file_id@,
    ) by {}
    lemma_relation_score(notes@, context.id@, file_id@, source, note);
    lemma_live_path(files@, context.id@, note.note.file_id@);
}

/// The closest note comes first: of two related notes the one that shares more
/// stands no later, and where they share as much, the one whose path comes first.
pub proof fn law_closest_notes_come_first(
    context: &VaultContext,
    notes: &[StoredNote],
    files: &[FileRecord],
    file_id: &Id,
    limit: u32,
    offset: u32,
    r: Result<Vec<(usize, u64)>, StateError>,
    source: int,
    i: int,
    j: int,
    f: int,
    g: int,
)
    requires
        call_ensures(related_notes, (context, notes, files, file_id, limit, offset), r),
        r matches Ok(found) && 0 <= i < j < found@.len(),
        0 <= source < notes@.len(),
        notes@[source].note.vault_id.text@ == context.id.text@,
        notes@[source].note.file_id.text@ == file_id.text@,
        forall|k: int|
            0 <= k < source ==> !((#[trigger] notes@[k]).note.vault_id.text@ == context.id.text@
                && notes@[k].note.file_id.text@ == file_id.text@),
        forall|k: int| 0 <= k < notes@.len() ==> distinct_tags((#[trigger] notes@[k]).tags@),
        forall|k: int|
            0 <= k < notes@.len() ==> tag_names(notes@[source].tags@).intersect(
                tag_names((#[trigger] notes@[k]).tags@),
            ).len() <= u64::MAX,
        is_only_entry(
            files@,
            context.id.text@,
            notes@[r->Ok_0@[i].0 as int].note.file_id.text@,
            f,
        ),
        is_only_entry(
            files@,
            context.id.text@,
            notes@[r->Ok_0@[j].0 as int].note.file_id.text@,
            g,
        ),
    ensures
        r->Ok_0@[i].0 != r->Ok_0@[j].0,
        ({
            let first = notes@[r->Ok_0@[i].0 as int];
            let second = notes@[r->Ok_0@[j].0 as int];
            &&& shared_score(notes@[source], first) >= shared_score(notes@[source], second)
            &&& shared_score(notes@[source], first) == shared_score(notes@[source], second)
                ==> files@[f].path.text@ == files@[g].path.text@ || text_before(
                files@[f].path.text@,
                files@[g].path.text@,
            )
        }),
{
    let found = r->Ok_0@;
    let picked = found.map_values(|entry: (usize, u64)| entry.0);
    let rule = |note: StoredNote| related(note, notes@, files@, context.id@, file_id@);
    let firsts = closeness(notes@, context.id@, file_id@);
    let paths = ordering_paths(notes@, files@, context.id@);
    let keys = ranked_keys(firsts, paths, notes@);
    lemma_page_rows(keys, notes@.map_values(rule), false, limit as nat, offset as nat, picked);
    let x = found[i].0 as int;
    let y = found[j].0 as int;
    assert(picked[i] == x && picked[j] == y);
    assert(rule(notes@[x]) && rule(notes@[y]));
    assert forall|k: int| 0 <= k < source implies !is_note(
        #[trigger] notes@[k],
        context.id@,
        file_id@,
    ) by {}
    lemma_relation_score(notes@, context.id@, file_id@, source, notes@[x]);
    lemma_relation_score(notes@, context.id@, file_id@, source, notes@[y]);
    assert(no_later(keys[x], keys[y]));
    assert(firsts[x] == -(shared_score(notes@[source], notes@[x]) as int));
    assert(firsts[y] == -(shared_score(notes@[source], notes@[y]) as int));
    assert(notes@.len() == notes.len());
    lemma_live_path(files@, context.id@, notes@[x].note.file_id@);
    lemma_live_path(files@, context.id@, notes@[y].note.file_id@);
    lemma_path_order(paths, x, y);
}

/// Nothing that is related is left out: a page that is not full, from the start,
/// shows every live note of the vault that shares a tag or a link.
pub proof fn law_related_notes_are_complete(
    context: &VaultContext,
    notes: &[StoredNote],
    files: &[FileRecord],
    file_id: &Id,
    limit: u32,
    r: Result<Vec<(usize, u64)>, StateError>,
    source: int,
    k: int,
)
    requires
        call_ensures(related_notes, (context, notes, files, file_id, limit, 0u32), r),
        0 <= source < notes@.len(),
        notes@[source].note.vault_id.text@ == context.id.text@,
        notes@[source].note.file_id.text@ == file_id.text@,
        forall|n: int|
            0 <= n < source ==> !((#[trigger] notes@[n]).note.vault_id.text@ == context.id.text@
                && notes@[n].note.file_id.text@ == file_id.text@),
        forall|n: int| 0 <= n < notes@.len() ==> distinct_tags((#[trigger] notes@[n]).tags@),
        0 <= k < notes@.len(),
        notes@[k].note.vault_id.text@ == context.id.text@,
        notes@[k].note.file_id.text@ != file_id.text@,
        exists|f: int|
            0 <= f < files@.len() && stands_live(
                #[trigger] files@[f],
                context.id.text@,
                notes@[k].note.file_id.text@,
            ),
        shared_score(notes@[source], notes@[k]) > 0,
    ensures
        r is Ok <==> 1 <= limit <= 100,
        r matches Ok(found) ==> (found@.len() < limit ==> exists|i: int|
            0 <= i < found@.len() && (#[trigger] found@[i]).0 == k),
{
    assert forall|n: int| 0 <= n < source implies !is_note(
        #[trigger] notes@[n],
        context.id@,
        file_id@,
    ) by {}
    lemma_relation_score(notes@, context.id@, file_id@, source, notes@[k]);
    lemma_live_path(files@, context.id@, notes@[k].note.file_id@);
    if let Ok(found) = r {
        let picked = found@.map_values(|entry: (usize, u64)| entry.0);
        let rule = |note: StoredNote| related(note, notes@, files@, context.id@, file_id@);
        let eligible = notes@.map_values(rule);
        lemma_page_rows(
            ranked_keys(
                closeness(notes@, context.id@, file_id@),
                ordering_paths(notes@, files@, context.id@),
                notes@,
            ),
            eligible,
            false,
            limit as nat,
            0,
            picked,
        );
        assert(eligible[k]);
        if found@.len() < limit {
            let i = choose|i: int| 0 <= i < picked.len() && picked[i] == k as usize;
            assert(found@[i].0 == k);
        }
    }
}

/// Pages of a search, or of related notes, at successive offsets are parts of
/// one listing.
pub proof fn law_search_pages_are_parts_of_one_listing(
    context: &VaultContext,
    notes: &[StoredNote],
    nodes: &[StoredNode],
    memberships: &[StoredMembership],
    files: &[FileRecord],
    fts_query: &str,
    hits: &[NoteHit],
    filter: &NoteSearchFilter,
    limit: u32,
    offset: u32,
    both: u32,
    part: Result<Vec<usize>, StateError>,
    whole: Result<Vec<usize>, StateError>,
)
    requires
        call_ensures(
            search_notes,
            (
                context,
                notes,
                nodes,
                memberships,
                files,
                fts_query,
                hits,
                filter,
                limit,
                offset,
            ),
            part,
        ),
        call_ensures(
            search_notes,
            (context, notes, nodes, memberships, files, fts_query, hits, filter, both, 0u32),
            whole,
        ),
        both == limit + offset,
        part is Ok,
        whole is Ok,
    ensures
        offset <= whole->Ok_0@.len() ==> part->Ok_0@ == whole->Ok_0@.skip(offset as int),
        offset > whole->Ok_0@.len() ==> part->Ok_0@.len() == 0,
{
    let rule = |note: StoredNote|
        note.note.vault_id@ == context.id@ && hit_rank(hits@, note) is Some && filter.admits(
            note,
            nodes@,
            memberships@,
            files@,
            context.id@,
        );
    lemma_page_parts(
        ranked_keys(
            ranks(notes@, hits@),
            ordering_paths(notes@, files@, context.id@),
            notes@,
        ),
        notes@.map_values(rule),
        false,
        limit as nat,
        offset as nat,
        whole->Ok_0@,
        part->Ok_0@,
    );
}

/// A replaced note is stored as given, in the place of what was stored for its
/// file, and every other note stays where it is. It is refused exactly where it
/// belongs to another vault or holds a number that cannot be stored.
pub proof fn law_replacing_a_note_changes_that_note_alone(
    context: &VaultContext,
    notes: Vec<StoredNote>,
    note: NoteProjectionInput,
    headings: Vec<HeadingProjectionInput>,
    tags: Vec<TagProjectionInput>,
    links: Vec<LinkProjectionInput>,
    now: i64,
    r: Result<Vec<StoredNote>, StateError>,
)
    requires
        call_ensures(replace_note, (context, notes, note, headings, tags, links, now), r),
    ensures
        r is Ok <==> {
            &&& note.vault_id.text@ == context.id.text@
            &&& note.revision.value <= i64::MAX
            &&& note.word_count <= i64::MAX
            &&& forall|h: int|
                0 <= h < headings@.len() ==> (#[trigger] headings@[h]).start_byte <= i64::MAX && (
                headings@[h].end_byte matches Some(end) ==> end <= i64::MAX)
        },
        r matches Ok(after) ==> exists|at: int|
            {
                &&& 0 <= at < after@.len()
                &&& (#[trigger] after@[at]).note == note
                &&& after@[at].headings == headings
                &&& after@[at].tags == tags
                &&& after@[at].links == links
                &&& after@[at].updated_at == now
                &&& if at < notes@.len() {
                    &&& notes@[at].note.file_id.text@ == note.file_id.text@
                    &&& after@[at].created_at == notes@[at].created_at
                    &&& after@.len() == notes@.len()
                } else {
                    &&& after@[at].created_at == now
                    &&& after@.len() == notes@.len() + 1
                    &&& forall|k: int|
                        0 <= k < notes@.len() ==> (#[trigger] notes@[k]).note.file_id.text@
                            != note.file_id.text@
                }
                &&& forall|k: int|
                    0 <= k < notes@.len() && k != at ==> #[trigger] after@[k] == notes@[k]
            },
{
    let own = |stored: StoredNote| stored.note.file_id@ == note.file_id@;
    lemma_first_index(notes@, own);
    let overflows = |heading: HeadingProjectionInput| crate::index::heading_overflows(heading);
    if crate::rows::some_row(headings@, overflows) {
        let h = choose|h: int| 0 <= h < headings@.len() && overflows(#[trigger] headings@[h]);
        assert(crate::index::heading_overflows(headings@[h]));
    } else {
        assert forall|h: int| 0 <= h < headings@.len() implies (
        #[trigger] headings@[h]).start_byte <= i64::MAX && (headings@[h].end_byte matches Some(end)
            ==> end <= i64::MAX) by {
            assert(!overflows(headings@[h]));
        }
    }
    if let Ok(after) = r {
        let new = StoredNote { note, headings, tags, links, created_at: now, updated_at: now };
        let named = |stored: StoredNote| stored.note.file_id@ == new.note.file_id@;
        assert(own =~= named);
        let at = match crate::rows::first_index(notes@, named) {
            Some(i) => i,
            None => notes@.len() as int,
        };
        assert(after@[at].note == note);
    }
}

/// A removed note is gone with its memberships; nothing else changes.
pub proof fn law_removing_a_note_removes_that_note_alone(
    context: &VaultContext,
    state: IndexState,
    file_id: &Id,
    r: IndexState,
)
    requires
        call_ensures(remove_note, (context, state, file_id), r),
    ensures
        forall|note: StoredNote| #[trigger]
            r.notes@.contains(note) <==> state.notes@.contains(note) && !(note.note.vault_id.text@
                == context.id.text@ && note.note.file_id.text@ == file_id.text@),
        forall|member: StoredMembership| #[trigger]
            r.memberships@.contains(member) <==> state.memberships@.contains(member) && !(
            member.vault_id.text@ == context.id.text@ && member.membership.file_id.text@
                == file_id.text@),
        r.nodes == state.nodes,
        r.statuses == state.statuses,
{
    lemma_kept(state.notes@, |stored: StoredNote| !is_note(stored, context.id@, file_id@));
    lemma_kept(
        state.memberships@,
        |stored: StoredMembership| !is_member(stored, context.id@, file_id@),
    );
}

/// A replaced map is the given nodes and memberships, bound to the vault, with
/// the given status; notes and the maps of other vaults stay.
pub proof fn law_replacing_a_map_keeps_other_vaults(
    context: &VaultContext,
    state: IndexState,
    nodes: Vec<IndexNodeProjectionInput>,
    memberships: Vec<IndexMembershipProjectionInput>,
    status: IndexStatusRecord,
    r: Result<IndexState, StateError>,
)
    requires
        call_ensures(replace_knowledge_map, (context, state, nodes, memberships, status), r),
    ensures
        r is Ok <==> {
            &&& status.vault_id.text@ == context.id.text@
            &&& status.index_revision.value <= i64::MAX
            &&& status.indexed_entries <= i64::MAX
            &&& status.indexed_notes <= i64::MAX
            &&& status.indexed_bytes <= i64::MAX
        },
        r matches Ok(after) ==> {
            &&& after.notes == state.notes
            &&& forall|node: StoredNode| #[trigger]
                after.nodes@.contains(node) <==> (state.nodes@.contains(node) && node.vault_id.text@
                    != context.id.text@) || exists|k: int|
                    0 <= k < nodes@.len() && node == (StoredNode {
                        vault_id: context.id,
                        node: #[trigger] nodes@[k],
                    })
            &&& forall|member: StoredMembership| #[trigger]
                after.memberships@.contains(member) <==> (state.memberships@.contains(member)
                    && member.vault_id.text@ != context.id.text@) || exists|k: int|
                    0 <= k < memberships@.len() && member == (StoredMembership {
                        vault_id: context.id,
                        membership: #[trigger] memberships@[k],
                    })
            &&& forall|row: IndexStatusRecord| #[trigger]
                after.statuses@.contains(row) <==> (state.statuses@.contains(row)
                    && row.vault_id.text@ != context.id.text@) || row == status
        },
{
    if let Ok(after) = r {
        let old_nodes = |stored: StoredNode| stored.vault_id@ != context.id@;
        let old_members = |stored: StoredMembership| stored.vault_id@ != context.id@;
        let old_statuses = |stored: IndexStatusRecord| stored.vault_id@ != context.id@;
        lemma_kept(state.nodes@, old_nodes);
        lemma_kept(state.memberships@, old_members);
        lemma_kept(state.statuses@, old_statuses);
        let new_nodes = crate::index::bound_nodes(nodes@, context.id);
        let new_members = crate::index::bound_memberships(memberships@, context.id);
        assert forall|node: StoredNode| #[trigger] after.nodes@.contains(node) <==> (
        state.nodes@.contains(node) && node.vault_id.text@ != context.id.text@) || exists|k: int|
            0 <= k < nodes@.len() && node == (StoredNode {
                vault_id: context.id,
                node: #[trigger] nodes@[k],
            }) by {
            assert(after.nodes@ =~= state.nodes@.filter(old_nodes) + new_nodes);
            lemma_appended(state.nodes@.filter(old_nodes), new_nodes, node);
            if new_nodes.contains(node) {
                let k = choose|k: int| 0 <= k < new_nodes.len() && new_nodes[k] == node;
                assert(node == (StoredNode { vault_id: context.id, node: nodes@[k] }));
            }
            assert forall|k: int|
                0 <= k < nodes@.len() && node == (StoredNode {
                    vault_id: context.id,
                    node: #[trigger] nodes@[k],
                }) implies new_nodes.contains(node) by {
                assert(new_nodes[k] == node);
            }
        }
        assert forall|member: StoredMembership| #[trigger]
            after.memberships@.contains(member) <==> (state.memberships@.contains(member)
            && member.vault_id.text@ != context.id.text@) || exists|k: int|
            0 <= k < memberships@.len() && member == (StoredMembership {
                vault_id: context.id,
                membership: #[trigger] memberships@[k],
            }) by {
            assert(after.memberships@ =~= state.memberships@.filter(old_members) + new_members);
            lemma_appended(state.memberships@.filter(old_members), new_members, member);
            if new_members.contains(member) {
                let k = choose|k: int| 0 <= k < new_members.len() && new_members[k] == member;
                assert(member == (StoredMembership {
                    vault_id: context.id,
                    membership: memberships@[k],
                }));
            }
            assert forall|k: int|
                0 <= k < memberships@.len() && member == (StoredMembership {
                    vault_id: context.id,
                    membership: #[trigger] memberships@[k],
                }) implies new_members.contains(member) by {
                assert(new_members[k] == member);
            }
        }
        assert forall|row: IndexStatusRecord| #[trigger] after.statuses@.contains(row) <==> (
        state.statuses@.contains(row) && row.vault_id.text@ != context.id.text@) || row == status by {
            let kept = state.statuses@.filter(old_statuses);
            assert(after.statuses@ =~= kept + seq![status]);
            lemma_appended(kept, seq![status], row);
            if seq![status].contains(row) {
                let k = choose|k: int| 0 <= k < seq![status].len() && seq![status][k] == row;
            }
            assert(seq![status][0] == status);
        }
    }
}

proof fn lemma_appended<T>(a: Seq<T>, b: Seq<T>, row: T)
    ensures
        (a + b).contains(row) <==> a.contains(row) || b.contains(row),
{
    if a.contains(row) {
        let k = choose|k: int| 0 <= k < a.len() && a[k] == row;
        assert((a + b)[k] == row);
    }
    if b.contains(row) {
        let k = choose|k: int| 0 <= k < b.len() && b[k] == row;
        assert((a + b)[a.len() + k] == row);
    }
    if (a + b).contains(row) {
        let k = choose|k: int| 0 <= k < (a + b).len() && (a + b)[k] == row;
        if k < a.len() {
            assert(a[k] == row);
        } else {
            assert(b[k - a.len()] == row);
        }
    }
}

/// Clearing a vault leaves nothing of it, and everything of other vaults.
pub proof fn law_clearing_keeps_other_vaults(
    context: &VaultContext,
    state: IndexState,
    r: IndexState,
)
    requires
        call_ensures(clear_vault, (context, state), r),
    ensures
        forall|note: StoredNote| #[trigger]
            r.notes@.contains(note) <==> state.notes@.contains(note) && note.note.vault_id.text@
                != context.id.text@,
        forall|node: StoredNode| #[trigger]
            r.nodes@.contains(node) <==> state.nodes@.contains(node) && node.vault_id.text@
                != context.id.text@,
        forall|member: StoredMembership| #[trigger]
            r.memberships@.contains(member) <==> state.memberships@.contains(member)
                && member.vault_id.text@ != context.id.text@,
        forall|row: IndexStatusRecord| #[trigger]
            r.statuses@.contains(row) <==> state.statuses@.contains(row) && row.vault_id.text@
                != context.id.text@,
{
    lemma_kept(state.notes@, |stored: StoredNote| stored.note.vault_id@ != context.id@);
    lemma_kept(state.nodes@, |stored: StoredNode| stored.vault_id@ != context.id@);
    lemma_kept(state.memberships@, |stored: StoredMembership| stored.vault_id@ != context.id@);
    lemma_kept(state.statuses@, |stored: IndexStatusRecord| stored.vault_id@ != context.id@);
}

/// A note is shown for retrieval exactly where the vault has it and its file
/// lives. It is shown at the path of the live entry, with at most the first 280
/// characters of its text.
pub proof fn law_live_notes_are_shown(
    context: &VaultContext,
    notes: &[StoredNote],
    nodes: &[StoredNode],
    memberships: &[StoredMembership],
    files: &[FileRecord],
    file_id: &Id,
    r: Option<NoteSearchRecord>,
)
    requires
        call_ensures(
            get_note_for_retrieval,
            (context, notes, nodes, memberships, files, file_id),
            r,
        ),
    ensures
        r is Some <==> {
            &&& exists|k: int|
                0 <= k < notes@.len() && (#[trigger] notes@[k]).note.vault_id.text@
                    == context.id.text@ && notes@[k].note.file_id.text@ == file_id.text@
            &&& exists|f: int|
                0 <= f < files@.len() && stands_live(
                    #[trigger] files@[f],
                    context.id.text@,
                    file_id.text@,
                )
        },
        r matches Some(record) ==> {
            &&& exists|k: int|
                {
                    &&& 0 <= k < notes@.len()
                    &&& (#[trigger] notes@[k]).note.vault_id.text@ == context.id.text@
                    &&& notes@[k].note.file_id.text@ == file_id.text@
                    &&& record.file_id == notes@[k].note.file_id
                    &&& record.revision == notes@[k].note.revision
                    &&& record.title == notes@[k].note.title
                    &&& record.updated_at == notes@[k].updated_at
                    &&& record.tags@.len() == notes@[k].tags@.len()
                    &&& record.headings@.len() == notes@[k].headings@.len()
                    &&& record.outgoing_links@.len() == notes@[k].links@.len()
                    &&& record.snippet@.len() <= 280
                    &&& notes@[k].note.plain_text@.len() <= 280 ==> record.snippet@
                        == notes@[k].note.plain_text@
                    &&& notes@[k].note.plain_text@.len() > 280 ==> record.snippet@
                        == notes@[k].note.plain_text@.take(280)
                }
            &&& exists|f: int|
                0 <= f < files@.len() && stands_live(
                    #[trigger] files@[f],
                    context.id.text@,
                    file_id.text@,
                ) && files@[f].path == record.path
            &&& record.score is None
        },
{
    let rule = |note: StoredNote| is_note(note, context.id@, file_id@);
    lemma_first_index(notes@, rule);
    lemma_live_path(files@, context.id@, file_id@);
    if let Some(k) = crate::rows::first_index(notes@, rule) {
        assert(notes@[k].note.vault_id.text@ == context.id.text@);
    }
}

/// Backlinks are counted one by one: a note more adds each of its links to the
/// file, where it is a note of the vault.
pub proof fn law_backlinks_are_counted_one_by_one(
    notes: Seq<StoredNote>,
    note: StoredNote,
    vault: Seq<char>,
    file: Seq<char>,
)
    ensures
        crate::index::queries::backlinks(Seq::empty(), vault, file) == 0,
        crate::index::queries::backlinks(notes.push(note), vault, file)
            == crate::index::queries::backlinks(notes, vault, file) + if note.note.vault_id.text@
            == vault {
            note.links@.filter(
                |link: LinkProjectionInput|
                    link.target_file_id is Some && link.target_file_id->0.text@ == file,
            ).len()
        } else {
            0
        },
{
    assert(notes.push(note).drop_last() =~= notes);
    let named = |link: LinkProjectionInput|
        link.target_file_id is Some && link.target_file_id->0.text@ == file;
    let leads = |link: LinkProjectionInput| crate::index::queries::leads_to(link, file);
    assert(named =~= leads);
}

/// Nodes are listed below the parent that is asked for, or at the top, in the
/// vault, each with the number of its members.
pub proof fn law_nodes_are_listed_under_their_parent(
    context: &VaultContext,
    nodes: &[StoredNode],
    memberships: &[StoredMembership],
    parent_key: Option<&str>,
    limit: u32,
    offset: u32,
    r: Result<Vec<IndexNodeRecord>, StateError>,
    i: int,
)
    requires
        call_ensures(list_nodes, (context, nodes, memberships, parent_key, limit, offset), r),
        r matches Ok(records) && 0 <= i < records@.len(),
    ensures
        r->Ok_0@.len() <= limit <= 100,
        exists|n: int|
            {
                let record = r->Ok_0@[i];
                let node = #[trigger] nodes@[n];
                &&& 0 <= n < nodes@.len()
                &&& node.vault_id.text@ == context.id.text@
                &&& record.stable_key == node.node.stable_key
                &&& record.node_type == node.node.node_type
                &&& record.title == node.node.title
                &&& record.summary == node.node.summary
                &&& record.source_type == node.node.source_type
                &&& record.sort_key == node.node.sort_key
                &&& record.member_count == memberships@.filter(
                    |member: StoredMembership|
                        member.vault_id.text@ == context.id.text@ && member.membership.node_id@
                            == node.node.id@,
                ).len() as u64
                &&& match parent_key {
                    None => node.node.parent_id is None,
                    Some(key) => node.node.parent_id is Some && exists|p: int|
                        {
                            &&& 0 <= p < nodes@.len()
                            &&& (#[trigger] nodes@[p]).vault_id.text@ == context.id.text@
                            &&& nodes@[p].node.id@ == node.node.parent_id->0@
                            &&& nodes@[p].node.stable_key@ == key@
                        },
                }
            },
{
    let records = r->Ok_0@;
    let keys = crate::index::node_keys(nodes@);
    let eligible = crate::index::nodes_under(nodes@, context.id@, parent_key);
    let picked = choose|picked: Seq<usize>|
        {
            &&& #[trigger] crate::order::is_page(
                keys,
                eligible,
                false,
                limit as nat,
                offset as nat,
                picked,
            )
            &&& records == Seq::new(
                picked.len(),
                |k: int|
                    crate::index::node_record(
                        nodes@,
                        memberships@,
                        context.id@,
                        nodes@[picked[k] as int],
                    ),
            )
        };
    lemma_page_rows(keys, eligible, false, limit as nat, offset as nat, picked);
    let n = picked[i] as int;
    let node = nodes@[n];
    assert(eligible[n]);
    let of_node = |member: StoredMembership|
        member.vault_id@ == node.vault_id@ && member.membership.node_id@ == node.node.id@;
    let named = |member: StoredMembership|
        member.vault_id.text@ == context.id.text@ && member.membership.node_id@ == node.node.id@;
    assert(of_node =~= named);
    if let Some(id) = node.node.parent_id {
        let rule = |stored: StoredNode| is_node(stored, context.id@, id@);
        lemma_first_index(nodes@, rule);
        if let Some(p) = crate::rows::first_index(nodes@, rule) {
            assert(nodes@[p].vault_id.text@ == context.id.text@);
        }
    }
}

} // verus!
