use vstd::prelude::*;

use crate::position::{range_contains, Position};
use crate::refname::{is_tag, refname, Referenceable};
use crate::resolve::{
    def_in_files, def_in_seq, definition, definition_target, file_names, first_entity_at,
    first_ref_at, search_names,
};
use crate::vault::{lemma_find_file, lemma_rebuilt, paths_unique, rebuilt, FileIndex, VaultView};

verus! {

proof fn lemma_first_ref_at(refs: Seq<crate::vault::Reference>, pos: Position, k: int, i: int)
    requires
        0 <= k <= i < refs.len(),
        range_contains(refs[i].range, pos),
        forall|j: int| 0 <= j < i ==> !range_contains(#[trigger] refs[j].range, pos),
    ensures
        first_ref_at(refs, pos, k) == Some(i),
    decreases i - k,
{
    if k < i {
        lemma_first_ref_at(refs, pos, k + 1, i);
    }
}

proof fn lemma_def_seq_found(ents: Seq<Referenceable>, root: Seq<char>, name: Seq<char>, k: int, j: int)
    requires
        0 <= k <= j < ents.len(),
        refname(ents[j], root) == Some(name),
    ensures
        def_in_seq(ents, root, name, k) is Some,
    decreases j - k,
{
    if k < j && refname(ents[k], root) != Some(name) {
        lemma_def_seq_found(ents, root, name, k + 1, j);
    }
}

proof fn lemma_def_seq_sound(ents: Seq<Referenceable>, root: Seq<char>, name: Seq<char>, k: int)
    requires
        0 <= k,
    ensures
        def_in_seq(ents, root, name, k) matches Some(x) ==> exists|m: int|
            0 <= m < ents.len() && ents[m] == x && refname(x, root) == Some(name),
    decreases ents.len() - k,
{
    if k < ents.len() && refname(ents[k], root) != Some(name) {
        lemma_def_seq_sound(ents, root, name, k + 1);
    }
}

proof fn lemma_def_files_found(
    files: Seq<FileIndex>,
    root: Seq<char>,
    name: Seq<char>,
    k: int,
    fi: int,
    j: int,
)
    requires
        0 <= k <= fi < files.len(),
        0 <= j < files[fi].linkables@.len(),
        refname(files[fi].linkables@[j], root) == Some(name),
    ensures
        def_in_files(files, root, name, k) is Some,
    decreases fi - k,
{
    if k < fi {
        lemma_def_files_found(files, root, name, k + 1, fi, j);
    } else {
        lemma_def_seq_found(files[fi].linkables@, root, name, 0, j);
    }
}

proof fn lemma_def_files_sound(files: Seq<FileIndex>, root: Seq<char>, name: Seq<char>, k: int)
    requires
        0 <= k,
    ensures
        def_in_files(files, root, name, k) matches Some(x) ==> exists|fi: int, m: int|
            0 <= fi < files.len() && 0 <= m < files[fi].linkables@.len()
                && files[fi].linkables@[m] == x && refname(x, root) == Some(name),
    decreases files.len() - k,
{
    if k < files.len() {
        lemma_def_seq_sound(files[k].linkables@, root, name, 0);
        lemma_def_files_sound(files, root, name, k + 1);
    }
}

/// Refname round trip: a link whose text is the refname of an entity `e`
/// leads definition lookup, from a cursor on that link, to `e`'s declaration.
/// The link is the first of its file whose span holds the cursor, and `e` is
/// the one entity of the vault that bears that refname.
pub proof fn lemma_refname_round_trip(
    v: VaultView,
    path: Seq<char>,
    pos: Position,
    i: int,
    fi: int,
    j: int,
)
    requires
        0 <= i < v.references_for(path).len(),
        range_contains(v.references_for(path)[i].range, pos),
        forall|m: int| 0 <= m < i ==> !range_contains(#[trigger] v.references_for(path)[m].range, pos),
        0 <= fi < v.files.len(),
        0 <= j < v.files[fi].linkables@.len(),
        refname(v.files[fi].linkables@[j], v.root) == Some(v.references_for(path)[i].reference_text@),
        forall|gi: int, gj: int|
            0 <= gi < v.files.len() && 0 <= gj < v.files[gi].linkables@.len() && refname(
                #[trigger] v.files[gi].linkables@[gj],
                v.root,
            ) == refname(v.files[fi].linkables@[j], v.root) ==> v.files[gi].linkables@[gj]
                == v.files[fi].linkables@[j],
    ensures
        definition_target(v, path, pos) == Some(v.files[fi].linkables@[j]),
        definition(v, path, pos) == match crate::resolve::file_uri_of(
            crate::refname::entity_path(v.files[fi].linkables@[j]),
        ) {
            Some(u) => Some((u, crate::refname::entity_range(v.files[fi].linkables@[j]))),
            None => None,
        },
{
    let refs = v.references_for(path);
    let name = refs[i].reference_text@;
    lemma_first_ref_at(refs, pos, 0, i);
    lemma_def_files_found(v.files, v.root, name, 0, fi, j);
    lemma_def_files_sound(v.files, v.root, name, 0);
}

proof fn lemma_file_names_from(ents: Seq<Referenceable>, root: Seq<char>, n: Seq<char>)
    requires
        file_names(ents, root).contains(n),
    ensures
        exists|m: int| 0 <= m < ents.len() && !is_tag(ents[m]) && refname(ents[m], root) == Some(n),
    decreases ents.len(),
{
    let rest = file_names(ents.drop_last(), root);
    let e = ents.last();
    if !is_tag(e) && refname(e, root) is Some && refname(e, root)->0 == n {
        assert(ents[ents.len() - 1] == e);
    } else {
        if !is_tag(e) && refname(e, root) is Some {
            assert(file_names(ents, root) == rest.push(refname(e, root)->0));
            let k = choose|k: int| 0 <= k < file_names(ents, root).len() && file_names(ents, root)[k] == n;
            assert(k < rest.len());
            assert(rest[k] == n);
        }
        lemma_file_names_from(ents.drop_last(), root, n);
        let m = choose|m: int|
            0 <= m < ents.drop_last().len() && !is_tag(ents.drop_last()[m]) && refname(
                ents.drop_last()[m],
                root,
            ) == Some(n);
        assert(ents[m] == ents.drop_last()[m]);
    }
}

/// Tags stay out of a whole-file reference search: with the cursor on a
/// file, the refname of a tag the file declares is not searched for, unless
/// an entity of the file that is no tag bears the same refname.
pub proof fn lemma_file_search_skips_tags(v: VaultView, path: Seq<char>, pos: Position, t: int)
    requires
        first_entity_at(v.linkables_for(path), pos, 0) matches Some(i) && v.linkables_for(
            path,
        )[i] is File,
        0 <= t < v.linkables_for(path).len(),
        v.linkables_for(path)[t] is Tag,
        forall|m: int|
            0 <= m < v.linkables_for(path).len() && !is_tag(#[trigger] v.linkables_for(path)[m])
                ==> refname(v.linkables_for(path)[m], v.root) != refname(
                v.linkables_for(path)[t],
                v.root,
            ),
    ensures
        search_names(v, path, pos) matches Some(ns) && !ns.contains(
            refname(v.linkables_for(path)[t], v.root)->0,
        ),
{
    let ents = v.linkables_for(path);
    let n = refname(ents[t], v.root)->0;
    assert(refname(ents[t], v.root) == Some(n));
    if file_names(ents, v.root).contains(n) {
        lemma_file_names_from(ents, v.root, n);
    }
}

/// Recording the same content for a file twice leaves the index exactly as
/// recording it once.
pub proof fn lemma_rebuild_idempotent(files: Seq<FileIndex>, e: FileIndex)
    requires
        paths_unique(files),
    ensures
        rebuilt(rebuilt(files, e), e) == rebuilt(files, e),
{
    lemma_rebuilt(files, e);
    let once = rebuilt(files, e);
    lemma_find_file(once, e.path@, 0);
    let i = crate::vault::find_file(once, e.path@, 0)->0;
    assert(once.update(i, e) =~= once);
}

/// A cursor on no link finds no definition, and a cursor on no entity finds
/// no references; neither is an error.
pub proof fn lemma_no_match(v: VaultView, path: Seq<char>, pos: Position)
    ensures
        (forall|m: int|
            0 <= m < v.references_for(path).len() ==> !range_contains(
                #[trigger] v.references_for(path)[m].range,
                pos,
            )) ==> definition(v, path, pos) is None,
        (forall|m: int|
            0 <= m < v.linkables_for(path).len() ==> !range_contains(
                crate::refname::entity_range(#[trigger] v.linkables_for(path)[m]),
                pos,
            )) ==> search_names(v, path, pos) is None,
{
    lemma_first_ref_none(v.references_for(path), pos, 0);
    lemma_first_entity_none(v.linkables_for(path), pos, 0);
}

proof fn lemma_first_ref_none(refs: Seq<crate::vault::Reference>, pos: Position, k: int)
    requires
        0 <= k,
    ensures
        (forall|m: int| 0 <= m < refs.len() ==> !range_contains(#[trigger] refs[m].range, pos))
            ==> first_ref_at(refs, pos, k) is None,
    decreases refs.len() - k,
{
    if k < refs.len() {
        lemma_first_ref_none(refs, pos, k + 1);
    }
}

proof fn lemma_first_entity_none(ents: Seq<Referenceable>, pos: Position, k: int)
    requires
        0 <= k,
    ensures
        (forall|m: int|
            0 <= m < ents.len() ==> !range_contains(
                crate::refname::entity_range(#[trigger] ents[m]),
                pos,
            )) ==> first_entity_at(ents, pos, k) is None,
    decreases ents.len() - k,
{
    if k < ents.len() {
        lemma_first_entity_none(ents, pos, k + 1);
    }
}

} // verus!
