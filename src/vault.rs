use vstd::prelude::*;

use crate::position::Range;
use crate::refname::{str_eq, Referenceable};

verus! {

/// A link occurrence in a note: the target text the author wrote and its span.
#[derive(Clone, Debug)]
pub struct Reference {
    pub reference_text: String,
    pub range: Range,
}

impl Reference {
    pub fn new(reference_text: String, range: Range) -> (r: Reference)
        ensures
            r.reference_text@ == reference_text@,
            r.range == range,
    {
        Reference { reference_text, range }
    }
}

/// What the index holds for one note file: the entities it declares and the
/// links it contains, each in the order of the text.
#[derive(Clone, Debug)]
pub struct FileIndex {
    pub path: String,
    pub linkables: Vec<Referenceable>,
    pub references: Vec<Reference>,
}

impl FileIndex {
    pub fn new(path: String, linkables: Vec<Referenceable>, references: Vec<Reference>) -> (r:
        FileIndex)
        ensures
            r.path@ == path@,
            r.linkables@ == linkables@,
            r.references@ == references@,
    {
        FileIndex { path, linkables, references }
    }
}

/// The first position at or after `k` whose file has path `p`.
pub open spec fn find_file(files: Seq<FileIndex>, p: Seq<char>, k: int) -> Option<int>
    decreases files.len() - k,
{
    if k < 0 || k >= files.len() {
        None
    } else if files[k].path@ == p {
        Some(k)
    } else {
        find_file(files, p, k + 1)
    }
}

/// No two files of the index share a path.
pub open spec fn paths_unique(files: Seq<FileIndex>) -> bool {
    forall|i: int, j: int|
        0 <= i < files.len() && 0 <= j < files.len() && i != j ==> files[i].path@
            != files[j].path@
}

/// The entities declared in the file at `p`; empty for an unknown file.
pub open spec fn linkables_in(files: Seq<FileIndex>, p: Seq<char>) -> Seq<Referenceable> {
    match find_file(files, p, 0) {
        Some(i) => files[i].linkables@,
        None => Seq::empty(),
    }
}

/// The links that occur in the file at `p`; empty for an unknown file.
pub open spec fn references_in(files: Seq<FileIndex>, p: Seq<char>) -> Seq<Reference> {
    match find_file(files, p, 0) {
        Some(i) => files[i].references@,
        None => Seq::empty(),
    }
}

/// The links of one file, each paired with the file's path.
pub open spec fn file_pairs(f: FileIndex) -> Seq<(Seq<char>, Reference)> {
    f.references@.map_values(|r: Reference| (f.path@, r))
}

/// Every link of the index with its owning path, file after file.
pub open spec fn all_pairs(files: Seq<FileIndex>) -> Seq<(Seq<char>, Reference)>
    decreases files.len(),
{
    if files.len() == 0 {
        Seq::empty()
    } else {
        all_pairs(files.drop_last()) + file_pairs(files.last())
    }
}

/// Every entity of the index, file after file.
pub open spec fn all_linkables(files: Seq<FileIndex>) -> Seq<Referenceable>
    decreases files.len(),
{
    if files.len() == 0 {
        Seq::empty()
    } else {
        all_linkables(files.drop_last()) + files.last().linkables@
    }
}

/// The files after the slice of `e.path` is replaced by `e`, or `e` added
/// at the end where that path was unknown.
pub open spec fn rebuilt(files: Seq<FileIndex>, e: FileIndex) -> Seq<FileIndex> {
    match find_file(files, e.path@, 0) {
        Some(i) => files.update(i, e),
        None => files.push(e),
    }
}

/// The files after each of `entries` is recorded in turn.
pub open spec fn rebuilt_all(files: Seq<FileIndex>, entries: Seq<FileIndex>) -> Seq<FileIndex>
    decreases entries.len(),
{
    if entries.len() == 0 {
        files
    } else {
        rebuilt(rebuilt_all(files, entries.drop_last()), entries.last())
    }
}

/// The mathematical content of a vault: its root and its files in order.
pub struct VaultView {
    pub root: Seq<char>,
    pub files: Seq<FileIndex>,
}

impl VaultView {
    pub open spec fn linkables_for(self, p: Seq<char>) -> Seq<Referenceable> {
        linkables_in(self.files, p)
    }

    pub open spec fn references_for(self, p: Seq<char>) -> Seq<Reference> {
        references_in(self.files, p)
    }

    pub open spec fn is_indexed(self, p: Seq<char>) -> bool {
        find_file(self.files, p, 0) is Some
    }

    /// Every link with its owning path, or those of one file only.
    pub open spec fn all_references(self, filter: Option<Seq<char>>) -> Seq<(Seq<char>, Reference)> {
        match filter {
            None => all_pairs(self.files),
            Some(p) => match find_file(self.files, p, 0) {
                Some(i) => file_pairs(self.files[i]),
                None => Seq::empty(),
            },
        }
    }
}

/// Characterises `find_file`: the first match at or after `k`.
pub proof fn lemma_find_file(files: Seq<FileIndex>, p: Seq<char>, k: int)
    requires
        0 <= k,
    ensures
        match find_file(files, p, k) {
            Some(i) => k <= i < files.len() && files[i].path@ == p && forall|j: int|
                k <= j < i ==> files[j].path@ != p,
            None => forall|j: int| k <= j < files.len() ==> files[j].path@ != p,
        },
    decreases files.len() - k,
{
    if k < files.len() && files[k].path@ != p {
        lemma_find_file(files, p, k + 1);
    }
}

/// `find_file` depends on the paths alone.
pub proof fn lemma_find_file_paths(a: Seq<FileIndex>, b: Seq<FileIndex>, p: Seq<char>, k: int)
    requires
        a.len() == b.len(),
        forall|j: int| 0 <= j < a.len() ==> a[j].path@ == b[j].path@,
    ensures
        find_file(a, p, k) == find_file(b, p, k),
    decreases a.len() - k,
{
    if 0 <= k < a.len() && a[k].path@ != p {
        lemma_find_file_paths(a, b, p, k + 1);
    }
}

/// With unique paths, a file found at `i` is the one found from the start.
pub proof fn lemma_find_unique(files: Seq<FileIndex>, i: int)
    requires
        paths_unique(files),
        0 <= i < files.len(),
    ensures
        find_file(files, files[i].path@, 0) == Some(i),
{
    lemma_find_file(files, files[i].path@, 0);
}

/// What recording `e` leaves in the index: `e` under its own path, every other
/// path as it was, and paths still unique.
pub proof fn lemma_rebuilt(files: Seq<FileIndex>, e: FileIndex)
    requires
        paths_unique(files),
    ensures
        paths_unique(rebuilt(files, e)),
        find_file(rebuilt(files, e), e.path@, 0) matches Some(i) && rebuilt(files, e)[i] == e,
        forall|q: Seq<char>|
            q != e.path@ ==> #[trigger] find_file(rebuilt(files, e), q, 0) == find_file(files, q, 0),
        forall|q: Seq<char>|
            q != e.path@ && (#[trigger] find_file(files, q, 0)) is Some ==> rebuilt(files, e)[find_file(
                files,
                q,
                0,
            )->0] == files[find_file(files, q, 0)->0],
{
    let p = e.path@;
    let nf = rebuilt(files, e);
    lemma_find_file(files, p, 0);
    match find_file(files, p, 0) {
        Some(i) => {
            lemma_find_file_paths(nf, files, p, 0);
            assert forall|q: Seq<char>| q != p implies find_file(nf, q, 0) == find_file(
                files,
                q,
                0,
            ) by {
                lemma_find_file_paths(nf, files, q, 0);
            }
            lemma_find_unique(nf, i);
        },
        None => {
            assert(nf.len() == files.len() + 1);
            assert forall|q: Seq<char>| q != p implies find_file(nf, q, 0) == find_file(
                files,
                q,
                0,
            ) by {
                lemma_find_file(files, q, 0);
                lemma_find_file(nf, q, 0);
                match find_file(nf, q, 0) {
                    Some(j) => {
                        if j < files.len() {
                            lemma_find_unique(files, j);
                        }
                    },
                    None => {},
                }
                match find_file(files, q, 0) {
                    Some(j) => {
                        assert(nf[j] == files[j]);
                    },
                    None => {},
                }
            }
            lemma_find_unique(nf, files.len() as int);
        },
    }
    assert forall|q: Seq<char>| q != p && (#[trigger] find_file(files, q, 0)) is Some implies nf[find_file(
        files,
        q,
        0,
    )->0] == files[find_file(files, q, 0)->0] by {
        lemma_find_file(files, q, 0);
    }
}

/// The in-memory index of a vault: for each note file, what it declares and
/// what it links to.
pub struct Vault {
    root_dir: String,
    files: Vec<FileIndex>,
}

impl View for Vault {
    type V = VaultView;

    closed spec fn view(&self) -> VaultView {
        VaultView { root: self.root_dir@, files: self.files@ }
    }
}

impl Vault {
    /// Each indexed path occurs once.
    pub open spec fn wf(&self) -> bool {
        paths_unique(self@.files)
    }

    /// An index of the vault at `root_dir` that holds no file yet.
    pub fn new(root_dir: String) -> (r: Vault)
        ensures
            r.wf(),
            r@.root == root_dir@,
            r@.files == Seq::<FileIndex>::empty(),
    {
        Vault { root_dir, files: Vec::new() }
    }

    pub fn root_dir(&self) -> (r: &String)
        ensures
            r@ == self@.root,
    {
        &self.root_dir
    }

    /// The indexed files, in the order they were first recorded.
    pub fn files(&self) -> (r: &Vec<FileIndex>)
        ensures
            r@ == self@.files,
    {
        &self.files
    }

    /// Where the file at `path` stands among the indexed files.
    pub fn find(&self, path: &str) -> (r: Option<usize>)
        ensures
            r matches Some(i) ==> find_file(self@.files, path@, 0) == Some(i as int),
            r is None ==> find_file(self@.files, path@, 0) is None,
    {
        let mut i: usize = 0;
        while i < self.files.len()
            invariant
                i <= self.files@.len(),
                find_file(self@.files, path@, 0) == find_file(self@.files, path@, i as int),
            decreases self.files@.len() - i,
        {
            if str_eq(self.files[i].path.as_str(), path) {
                return Some(i);
            }
            i = i + 1;
        }
        None
    }

    /// The entities declared in the file at `path`, in the order of its
    /// text; empty for a file the index does not know.
    pub fn linkables_for(&self, path: &str) -> (r: &[Referenceable])
        ensures
            r@ == self@.linkables_for(path@),
    {
        match self.find(path) {
            Some(i) => {
                proof {
                    lemma_find_file(self@.files, path@, 0);
                }
                self.files[i].linkables.as_slice()
            },
            None => &[],
        }
    }

    /// The links that occur in the file at `path`, in the order of its text;
    /// empty for a file the index does not know.
    pub fn references_for(&self, path: &str) -> (r: &[Reference])
        ensures
            r@ == self@.references_for(path@),
    {
        match self.find(path) {
            Some(i) => {
                proof {
                    lemma_find_file(self@.files, path@, 0);
                }
                self.files[i].references.as_slice()
            },
            None => &[],
        }
    }

    /// Every link of the vault with its owning path, file after file, or
    /// those of the file at `filter` only (none for an unknown file).
    pub fn all_references<'a>(&'a self, filter: Option<&str>) -> (r: Vec<(&'a String, &'a Reference)>)
        ensures
            r@.map_values(|x: (&String, &Reference)| (x.0@, *x.1)) == self@.all_references(
                match filter {
                    Some(p) => Some(p@),
                    None => None,
                },
            ),
    {
        let mut out: Vec<(&'a String, &'a Reference)> = Vec::new();
        let ghost start: int = match filter {
            Some(p) => match find_file(self@.files, p@, 0) {
                Some(i) => i,
                None => self@.files.len() as int,
            },
            None => 0,
        };
        let n = self.files.len();
        let (lo, hi): (usize, usize) = match filter {
            Some(p) => match self.find(p) {
                Some(i) => {
                    proof {
                        lemma_find_file(self@.files, p@, 0);
                    }
                    (i, i + 1)
                },
                None => (0, 0),
            },
            None => (0, n),
        };
        let mut fi: usize = lo;
        while fi < hi
            invariant
                lo <= fi <= hi <= self.files@.len(),
                out@.map_values(|x: (&String, &Reference)| (x.0@, *x.1)) == all_pairs(
                    self.files@.subrange(lo as int, fi as int),
                ),
            decreases hi - fi,
        {
            let f = &self.files[fi];
            let mut j: usize = 0;
            let ghost mid = out@.map_values(|x: (&String, &Reference)| (x.0@, *x.1));
            while j < f.references.len()
                invariant
                    fi < self.files@.len(),
                    f == self.files@[fi as int],
                    j <= f.references@.len(),
                    out@.map_values(|x: (&String, &Reference)| (x.0@, *x.1)) == mid + file_pairs(
                        *f,
                    ).take(j as int),
                decreases f.references@.len() - j,
            {
                let ghost before = out@;
                out.push((&f.path, &f.references[j]));
                proof {
                    assert(file_pairs(*f)[j as int] == (f.path@, f.references@[j as int]));
                    assert(out@.map_values(|x: (&String, &Reference)| (x.0@, *x.1)) =~= before.map_values(
                        |x: (&String, &Reference)| (x.0@, *x.1),
                    ).push((f.path@, f.references@[j as int])));
                    assert(out@.map_values(|x: (&String, &Reference)| (x.0@, *x.1)) =~= mid
                        + file_pairs(*f).take(j + 1));
                }
                j = j + 1;
            }
            proof {
                assert(file_pairs(*f).take(j as int) =~= file_pairs(*f));
                assert(self.files@.subrange(lo as int, fi + 1).drop_last() =~= self.files@.subrange(
                    lo as int,
                    fi as int,
                ));
            }
            fi = fi + 1;
        }
        proof {
            match filter {
                Some(p) => {
                    if lo < hi {
                        let one = self.files@.subrange(lo as int, hi as int);
                        assert(one.drop_last() =~= Seq::<FileIndex>::empty());
                        assert(all_pairs(one.drop_last()) == Seq::<(Seq<char>, Reference)>::empty());
                        assert(one.last() == self.files@[lo as int]);
                        assert(all_pairs(one) =~= file_pairs(self.files@[lo as int]));
                    }
                },
                None => {
                    assert(self.files@.subrange(0, hi as int) =~= self.files@);
                },
            }
        }
        out
    }

    /// Records what the text of the file at `path` now declares and links to.
    /// Everything recorded earlier for that path is dropped in the same step,
    /// and every other file is left as it was. A path not yet indexed is added.
    pub fn update_file(
        &mut self,
        path: String,
        linkables: Vec<Referenceable>,
        references: Vec<Reference>,
    )
        requires
            old(self).wf(),
        ensures
            final(self).wf(),
            final(self)@.root == old(self)@.root,
            final(self)@.files == rebuilt(
                old(self)@.files,
                (FileIndex { path: path, linkables: linkables, references: references }),
            ),
            final(self)@.is_indexed(path@),
            final(self)@.linkables_for(path@) == linkables@,
            final(self)@.references_for(path@) == references@,
            final(self)@.all_references(Some(path@)) == references@.map_values(
                |r: Reference| (path@, r),
            ),
            forall|q: Seq<char>|
                q != path@ ==> {
                    &&& #[trigger] final(self)@.linkables_for(q) == old(self)@.linkables_for(q)
                    &&& final(self)@.references_for(q) == old(self)@.references_for(q)
                    &&& final(self)@.all_references(Some(q)) == old(self)@.all_references(Some(q))
                    &&& final(self)@.is_indexed(q) == old(self)@.is_indexed(q)
                },
    {
        let entry = FileIndex { path, linkables, references };
        proof {
            lemma_rebuilt(self.files@, entry);
        }
        match self.find(entry.path.as_str()) {
            Some(i) => {
                proof {
                    lemma_find_file(self@.files, entry.path@, 0);
                }
                self.files.set(i, entry);
            },
            None => {
                self.files.push(entry);
            },
        }
    }

    /// An index of the vault at `root_dir` holding each of `entries`, recorded
    /// in turn as `update_file` records one file.
    pub fn build(root_dir: String, entries: Vec<FileIndex>) -> (r: Vault)
        ensures
            r.wf(),
            r@.root == root_dir@,
            r@.files == rebuilt_all(Seq::empty(), entries@),
    {
        let mut v = Vault::new(root_dir);
        let mut rest = entries;
        let ghost all = rest@;
        let total = rest.len();
        let mut k: usize = 0;
        while rest.len() > 0
            invariant
                v.wf(),
                v@.root == root_dir@,
                k <= all.len(),
                all.len() == total,
                rest@ == all.skip(k as int),
                v@.files == rebuilt_all(Seq::empty(), all.take(k as int)),
            decreases rest@.len(),
        {
            let e = rest.remove(0);
            proof {
                assert(all.take(k + 1).drop_last() =~= all.take(k as int));
                assert(all.take(k + 1).last() == e);
            }
            v.update_file(e.path, e.linkables, e.references);
            k = k + 1;
            proof {
                assert(rest@ =~= all.skip(k as int));
            }
        }
        proof {
            assert(all.take(k as int) =~= all);
        }
        v
    }
}

} // verus!
