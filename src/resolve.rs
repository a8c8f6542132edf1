use vstd::prelude::*;

use crate::position::{range_contains, Position, Range};
use crate::refname::{str_eq, entity_path, entity_range, is_tag, refname, Referenceable};
use crate::vault::{FileIndex, Reference, Vault, VaultView};

verus! {

/// A place in the vault: the URI of a file and a span inside it.
#[derive(Clone, Debug)]
pub struct Location {
    pub uri: String,
    pub range: Range,
}

pub open spec fn loc_view(l: Location) -> (Seq<char>, Range) {
    (l.uri@, l.range)
}

pub open spec fn site_view(s: (String, Range)) -> (Seq<char>, Range) {
    (s.0@, s.1)
}

/// The `file` URI of an absolute path, as the URL library spells it; none for
/// a path it cannot turn into such a URI.
pub uninterp spec fn file_uri_of(path: Seq<char>) -> Option<Seq<char>>;

/// Relies on `Url::from_file_path` of the url crate (re-exported by
/// tower_lsp's `lsp_types`), whose result depends on the path alone, and on
/// `From<Url> for String`, which hands back the serialised URI.
#[verifier::external_body]
fn file_uri(path: &str) -> (r: Option<String>)
    ensures
        r matches Some(s) ==> file_uri_of(path@) == Some(s@),
        r is None ==> file_uri_of(path@) is None,
{
    match tower_lsp::lsp_types::Url::from_file_path(path) {
        Ok(u) => Some(String::from(u)),
        Err(()) => None,
    }
}

/// The first link at or after index `k` whose span holds the cursor.
pub open spec fn first_ref_at(refs: Seq<Reference>, pos: Position, k: int) -> Option<int>
    decreases refs.len() - k,
{
    if k < 0 || k >= refs.len() {
        None
    } else if range_contains(refs[k].range, pos) {
        Some(k)
    } else {
        first_ref_at(refs, pos, k + 1)
    }
}

/// The first entity at or after index `k` whose span holds the cursor.
pub open spec fn first_entity_at(ents: Seq<Referenceable>, pos: Position, k: int) -> Option<int>
    decreases ents.len() - k,
{
    if k < 0 || k >= ents.len() {
        None
    } else if range_contains(entity_range(ents[k]), pos) {
        Some(k)
    } else {
        first_entity_at(ents, pos, k + 1)
    }
}

/// The first entity at or after index `k` whose refname is `name`.
pub open spec fn def_in_seq(ents: Seq<Referenceable>, root: Seq<char>, name: Seq<char>, k: int) -> Option<
    Referenceable,
>
    decreases ents.len() - k,
{
    if k < 0 || k >= ents.len() {
        None
    } else if refname(ents[k], root) == Some(name) {
        Some(ents[k])
    } else {
        def_in_seq(ents, root, name, k + 1)
    }
}

/// The first entity named `name`, looking at the files from index `k` on in
/// index order, and inside a file in the order of its text.
pub open spec fn def_in_files(files: Seq<FileIndex>, root: Seq<char>, name: Seq<char>, k: int) -> Option<
    Referenceable,
>
    decreases files.len() - k,
{
    if k < 0 || k >= files.len() {
        None
    } else {
        match def_in_seq(files[k].linkables@, root, name, 0) {
            Some(e) => Some(e),
            None => def_in_files(files, root, name, k + 1),
        }
    }
}

/// The entity that the link under the cursor in the file at `path` points
/// to: the first link there that holds the cursor, and the first entity of the
/// vault whose refname is that link's text.
pub open spec fn definition_target(v: VaultView, path: Seq<char>, pos: Position) -> Option<
    Referenceable,
> {
    let refs = v.references_for(path);
    match first_ref_at(refs, pos, 0) {
        Some(i) => def_in_files(v.files, v.root, refs[i].reference_text@, 0),
        None => None,
    }
}

/// Where the definition lookup leads: the target's file URI and its span.
pub open spec fn definition(v: VaultView, path: Seq<char>, pos: Position) -> Option<
    (Seq<char>, Range),
> {
    match definition_target(v, path, pos) {
        Some(e) => match file_uri_of(entity_path(e)) {
            Some(u) => Some((u, entity_range(e))),
            None => None,
        },
        None => None,
    }
}

/// The refnames of the entities of a file that a whole-file search covers:
/// all but its tags, skipping those with no refname.
pub open spec fn file_names(ents: Seq<Referenceable>, root: Seq<char>) -> Seq<Seq<char>>
    decreases ents.len(),
{
    if ents.len() == 0 {
        Seq::empty()
    } else {
        let rest = file_names(ents.drop_last(), root);
        let e = ents.last();
        if !is_tag(e) && refname(e, root) is Some {
            rest.push(refname(e, root)->0)
        } else {
            rest
        }
    }
}

/// The refnames that a reference search from the cursor looks for; none
/// where no entity of the file holds the cursor.
pub open spec fn search_names(v: VaultView, path: Seq<char>, pos: Position) -> Option<
    Seq<Seq<char>>,
> {
    let ents = v.linkables_for(path);
    match first_entity_at(ents, pos, 0) {
        Some(i) => if ents[i] is File {
            Some(file_names(ents, v.root))
        } else {
            match refname(ents[i], v.root) {
                Some(n) => Some(seq![n]),
                None => None,
            }
        },
        None => None,
    }
}

/// The links among `refs`, all in the file at `path`, whose text is `name`.
pub open spec fn sites_in_refs(path: Seq<char>, refs: Seq<Reference>, name: Seq<char>) -> Seq<
    (Seq<char>, Range),
>
    decreases refs.len(),
{
    if refs.len() == 0 {
        Seq::empty()
    } else {
        let rest = sites_in_refs(path, refs.drop_last(), name);
        if refs.last().reference_text@ == name {
            rest.push((path, refs.last().range))
        } else {
            rest
        }
    }
}

/// The links of the whole vault whose text is `name`, file after file.
pub open spec fn sites_in_files(files: Seq<FileIndex>, name: Seq<char>) -> Seq<(Seq<char>, Range)>
    decreases files.len(),
{
    if files.len() == 0 {
        Seq::empty()
    } else {
        sites_in_files(files.drop_last(), name) + sites_in_refs(
            files.last().path@,
            files.last().references@,
            name,
        )
    }
}

/// For each name in turn, the links of the vault with that text.
pub open spec fn sites_for_names(files: Seq<FileIndex>, names: Seq<Seq<char>>) -> Seq<
    (Seq<char>, Range),
>
    decreases names.len(),
{
    if names.len() == 0 {
        Seq::empty()
    } else {
        sites_for_names(files, names.drop_last()) + sites_in_files(files, names.last())
    }
}

/// The sites whose path has a file URI, with the path turned into it.
pub open spec fn uri_sites(sites: Seq<(Seq<char>, Range)>) -> Seq<(Seq<char>, Range)>
    decreases sites.len(),
{
    if sites.len() == 0 {
        Seq::empty()
    } else {
        let rest = uri_sites(sites.drop_last());
        match file_uri_of(sites.last().0) {
            Some(u) => rest.push((u, sites.last().1)),
            None => rest,
        }
    }
}

/// The index of the first link among `refs` whose span holds the cursor.
fn ref_at(refs: &[Reference], pos: Position) -> (r: Option<usize>)
    ensures
        r matches Some(i) ==> first_ref_at(refs@, pos, 0) == Some(i as int) && i < refs@.len(),
        r is None ==> first_ref_at(refs@, pos, 0) is None,
{
    let mut i: usize = 0;
    while i < refs.len()
        invariant
            i <= refs@.len(),
            first_ref_at(refs@, pos, 0) == first_ref_at(refs@, pos, i as int),
        decreases refs@.len() - i,
    {
        if refs[i].range.contains(pos) {
            return Some(i);
        }
        i = i + 1;
    }
    None
}

/// The index of the first entity among `ents` whose span holds the cursor.
fn entity_at(ents: &[Referenceable], pos: Position) -> (r: Option<usize>)
    ensures
        r matches Some(i) ==> first_entity_at(ents@, pos, 0) == Some(i as int) && i < ents@.len(),
        r is None ==> first_entity_at(ents@, pos, 0) is None,
{
    let mut i: usize = 0;
    while i < ents.len()
        invariant
            i <= ents@.len(),
            first_entity_at(ents@, pos, 0) == first_entity_at(ents@, pos, i as int),
        decreases ents@.len() - i,
    {
        if ents[i].range().contains(pos) {
            return Some(i);
        }
        i = i + 1;
    }
    None
}

/// The first entity among `ents` whose refname is `name`.
fn def_in<'a>(ents: &'a Vec<Referenceable>, root: &str, name: &str) -> (r: Option<
    &'a Referenceable,
>)
    ensures
        r matches Some(e) ==> def_in_seq(ents@, root@, name@, 0) == Some(*e),
        r is None ==> def_in_seq(ents@, root@, name@, 0) is None,
{
    let mut j: usize = 0;
    while j < ents.len()
        invariant
            j <= ents@.len(),
            def_in_seq(ents@, root@, name@, 0) == def_in_seq(ents@, root@, name@, j as int),
        decreases ents@.len() - j,
    {
        let e = &ents[j];
        match e.refname(root) {
            Some(n) => {
                if str_eq(n.as_str(), name) {
                    return Some(e);
                }
            },
            None => {},
        }
        j = j + 1;
    }
    None
}

/// The entity that the link under the cursor points to. The first link of
/// the file at `path` whose span holds the cursor is taken, and the first
/// entity of the vault whose refname equals its text exactly. None where no
/// link holds the cursor or no entity bears that name.
pub fn find_definition<'a>(vault: &'a Vault, position: Position, path: &str) -> (r: Option<
    &'a Referenceable,
>)
    ensures
        r matches Some(e) ==> definition_target(vault@, path@, position) == Some(*e),
        r is None ==> definition_target(vault@, path@, position) is None,
{
    let refs = vault.references_for(path);
    let i = match ref_at(refs, position) {
        Some(i) => i,
        None => return None,
    };
    let name = refs[i].reference_text.as_str();
    let root = vault.root_dir().as_str();
    let files = vault.files();
    let mut fi: usize = 0;
    while fi < files.len()
        invariant
            fi <= files@.len(),
            files@ == vault@.files,
            root@ == vault@.root,
            name@ == refs@[i as int].reference_text@,
            first_ref_at(refs@, position, 0) == Some(i as int),
            refs@ == vault@.references_for(path@),
            def_in_files(files@, root@, name@, 0) == def_in_files(files@, root@, name@, fi as int),
        decreases files@.len() - fi,
    {
        match def_in(&files[fi].linkables, root, name) {
            Some(e) => {
                return Some(e);
            },
            None => {},
        }
        fi = fi + 1;
    }
    None
}

/// Definition lookup: the location of the entity that the link under the
/// cursor in the file at `path` points to. None where there is no link
/// under the cursor, where the link is broken, or where the target's path has
/// no file URI.
pub fn goto_definition(vault: &Vault, position: Position, path: &str) -> (r: Option<Location>)
    ensures
        r matches Some(l) ==> definition(vault@, path@, position) == Some(loc_view(l)),
        r is None ==> definition(vault@, path@, position) is None,
{
    match find_definition(vault, position, path) {
        Some(e) => match file_uri(e.path().as_str()) {
            Some(uri) => Some(Location { uri, range: e.range() }),
            None => None,
        },
        None => None,
    }
}

pub open spec fn names_view(ns: Seq<String>) -> Seq<Seq<char>> {
    ns.map_values(|s: String| s@)
}

pub open spec fn sites_view(ss: Seq<(String, Range)>) -> Seq<(Seq<char>, Range)> {
    ss.map_values(|s: (String, Range)| site_view(s))
}

pub open spec fn locations_view(ls: Seq<Location>) -> Seq<(Seq<char>, Range)> {
    ls.map_values(|l: Location| loc_view(l))
}

/// The refnames that a whole-file search over `ents` looks for.
fn file_names_of(ents: &[Referenceable], root: &str) -> (r: Vec<String>)
    ensures
        names_view(r@) == file_names(ents@, root@),
{
    let mut out: Vec<String> = Vec::new();
    let mut j: usize = 0;
    while j < ents.len()
        invariant
            j <= ents@.len(),
            names_view(out@) == file_names(ents@.take(j as int), root@),
        decreases ents@.len() - j,
    {
        proof {
            assert(ents@.take(j + 1).drop_last() =~= ents@.take(j as int));
        }
        let e = &ents[j];
        if !e.is_tag() {
            match e.refname(root) {
                Some(n) => {
                    out.push(n);
                    proof {
                        assert(names_view(out@) =~= file_names(ents@.take(j + 1), root@));
                    }
                },
                None => {},
            }
        }
        j = j + 1;
    }
    proof {
        assert(ents@.take(j as int) =~= ents@);
    }
    out
}

/// The refnames that a reference search from the cursor in the file at
/// `path` looks for. With the cursor on a whole file: the refnames of all its
/// entities but its tags. On another entity: its own refname. None where no
/// entity of the file holds the cursor, or the entity has no refname.
pub fn search_names_at(vault: &Vault, position: Position, path: &str) -> (r: Option<Vec<String>>)
    ensures
        r matches Some(ns) ==> search_names(vault@, path@, position) == Some(names_view(ns@)),
        r is None ==> search_names(vault@, path@, position) is None,
{
    let ents = vault.linkables_for(path);
    let i = match entity_at(ents, position) {
        Some(i) => i,
        None => return None,
    };
    let root = vault.root_dir().as_str();
    match &ents[i] {
        Referenceable::File(_) => Some(file_names_of(ents, root)),
        e => match e.refname(root) {
            Some(n) => {
                let mut out: Vec<String> = Vec::new();
                out.push(n);
                proof {
                    assert(names_view(out@) =~= seq![n@]);
                }
                Some(out)
            },
            None => None,
        },
    }
}

/// Appends to `out` the links of the vault whose text is `name`, each with
/// its owning path, file after file.
fn collect_sites(files: &Vec<FileIndex>, name: &str, out: &mut Vec<(String, Range)>)
    ensures
        sites_view(final(out)@) == sites_view(old(out)@) + sites_in_files(files@, name@),
{
    let ghost base = sites_view(out@);
    let mut fi: usize = 0;
    while fi < files.len()
        invariant
            fi <= files@.len(),
            sites_view(out@) == base + sites_in_files(files@.take(fi as int), name@),
        decreases files@.len() - fi,
    {
        let f = &files[fi];
        let ghost mid = sites_view(out@);
        let mut j: usize = 0;
        while j < f.references.len()
            invariant
                fi < files@.len(),
                f == files@[fi as int],
                j <= f.references@.len(),
                sites_view(out@) == mid + sites_in_refs(f.path@, f.references@.take(j as int), name@),
            decreases f.references@.len() - j,
        {
            proof {
                assert(f.references@.take(j + 1).drop_last() =~= f.references@.take(j as int));
            }
            let r = &f.references[j];
            if str_eq(r.reference_text.as_str(), name) {
                let ghost before = out@;
                let p = f.path.clone();
                out.push((p, r.range));
                proof {
                    assert(sites_view(out@) =~= sites_view(before).push((f.path@, r.range)));
                    assert(f.references@.take(j + 1).last() == *r);
                    assert(sites_view(out@) =~= mid + sites_in_refs(
                        f.path@,
                        f.references@.take(j + 1),
                        name@,
                    ));
                }
            }
            j = j + 1;
        }
        proof {
            assert(f.references@.take(j as int) =~= f.references@);
            assert(files@.take(fi + 1).drop_last() =~= files@.take(fi as int));
            assert(sites_view(out@) =~= base + sites_in_files(files@.take(fi + 1), name@));
        }
        fi = fi + 1;
    }
    proof {
        assert(files@.take(fi as int) =~= files@);
    }
}

/// The links that a reference search from the cursor finds, each as its
/// owning path and its span: for each searched refname in turn, every link of
/// the vault with that text. Duplicates are kept. None as for
/// `search_names_at`.
pub fn reference_sites(vault: &Vault, position: Position, path: &str) -> (r: Option<
    Vec<(String, Range)>,
>)
    ensures
        r matches Some(ss) ==> search_names(vault@, path@, position) matches Some(ns)
            && sites_view(ss@) == sites_for_names(vault@.files, ns),
        r is None ==> search_names(vault@, path@, position) is None,
{
    let names = match search_names_at(vault, position, path) {
        Some(ns) => ns,
        None => return None,
    };
    let files = vault.files();
    let mut out: Vec<(String, Range)> = Vec::new();
    let mut k: usize = 0;
    while k < names.len()
        invariant
            k <= names@.len(),
            files@ == vault@.files,
            sites_view(out@) == sites_for_names(files@, names_view(names@).take(k as int)),
        decreases names@.len() - k,
    {
        proof {
            assert(names_view(names@).take(k + 1).drop_last() =~= names_view(names@).take(k as int));
        }
        collect_sites(files, names[k].as_str(), &mut out);
        k = k + 1;
    }
    proof {
        assert(names_view(names@).take(k as int) =~= names_view(names@));
    }
    Some(out)
}

/// Reference-set lookup: the locations of the links that point to the entity
/// under the cursor in the file at `path`, as `reference_sites` finds them,
/// each path turned into its file URI. A site whose path has no URI is left
/// out. None as for `search_names_at`.
pub fn references(vault: &Vault, cursor_position: Position, path: &str) -> (r: Option<
    Vec<Location>,
>)
    ensures
        r matches Some(ls) ==> search_names(vault@, path@, cursor_position) matches Some(ns)
            && locations_view(ls@) == uri_sites(sites_for_names(vault@.files, ns)),
        r is None ==> search_names(vault@, path@, cursor_position) is None,
{
    let sites = match reference_sites(vault, cursor_position, path) {
        Some(ss) => ss,
        None => return None,
    };
    let mut out: Vec<Location> = Vec::new();
    let mut k: usize = 0;
    while k < sites.len()
        invariant
            k <= sites@.len(),
            locations_view(out@) == uri_sites(sites_view(sites@).take(k as int)),
        decreases sites@.len() - k,
    {
        proof {
            assert(sites_view(sites@).take(k + 1).drop_last() =~= sites_view(sites@).take(k as int));
        }
        match file_uri(sites[k].0.as_str()) {
            Some(uri) => {
                out.push(Location { uri, range: sites[k].1 });
                proof {
                    assert(locations_view(out@) =~= uri_sites(sites_view(sites@).take(k + 1)));
                }
            },
            None => {},
        }
        k = k + 1;
    }
    proof {
        assert(sites_view(sites@).take(k as int) =~= sites_view(sites@));
    }
    Some(out)
}

} // verus!
