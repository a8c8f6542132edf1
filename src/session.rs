use vstd::prelude::*;

use crate::position::Position;
use crate::refname::Referenceable;
use crate::resolve::{
    definition, goto_definition, loc_view, locations_view, references, search_names,
    sites_for_names, uri_sites, Location,
};
use crate::vault::{rebuilt, rebuilt_all, FileIndex, Reference, Vault, VaultView};

verus! {

/// Why a request could not be served.
#[derive(Clone, Copy, PartialEq, Eq, Debug, Structural)]
pub enum ServerError {
    /// The vault index has not been built.
    NotInitialized,
}

/// The state of one editing session: the vault index once it is built.
pub struct Session {
    vault: Option<Vault>,
}

impl Session {
    /// The index of the session, if it has been built.
    pub closed spec fn index(&self) -> Option<VaultView> {
        match self.vault {
            Some(v) => Some(v@),
            None => None,
        }
    }

    pub closed spec fn wf(&self) -> bool {
        match self.vault {
            Some(v) => v.wf(),
            None => true,
        }
    }

    /// A session whose index is not built yet.
    pub fn new() -> (r: Session)
        ensures
            r.wf(),
            r.index() is None,
    {
        Session { vault: None }
    }

    /// Builds the index of the vault at `root_dir` from the content of each
    /// of its files, replacing any index built before.
    pub fn initialize(&mut self, root_dir: String, entries: Vec<FileIndex>)
        ensures
            final(self).wf(),
            final(self).index() matches Some(v) && v.root == root_dir@ && v.files == rebuilt_all(
                Seq::empty(),
                entries@,
            ),
    {
        self.vault = Some(Vault::build(root_dir, entries));
    }

    /// Records the new content of the file at `path`. Fails, changing
    /// nothing, where the index is not built.
    pub fn did_change(
        &mut self,
        path: String,
        linkables: Vec<Referenceable>,
        references: Vec<Reference>,
    ) -> (r: Result<(), ServerError>)
        requires
            old(self).wf(),
        ensures
            final(self).wf(),
            old(self).index() is None ==> r == Err::<(), ServerError>(ServerError::NotInitialized)
                && final(self).index() is None,
            old(self).index() matches Some(v) ==> r is Ok && final(self).index() == Some(
                VaultView {
                    root: v.root,
                    files: rebuilt(
                        v.files,
                        (FileIndex { path: path, linkables: linkables, references: references }),
                    ),
                },
            ),
    {
        match &mut self.vault {
            Some(v) => {
                v.update_file(path, linkables, references);
                Ok(())
            },
            None => Err(ServerError::NotInitialized),
        }
    }

    /// Definition lookup on the session's index. An error only where the
    /// index is not built; finding nothing is no error.
    pub fn definition(&self, position: Position, path: &str) -> (r: Result<
        Option<Location>,
        ServerError,
    >)
        ensures
            self.index() is None ==> (r matches Err(e) && e == ServerError::NotInitialized),
            self.index() matches Some(v) ==> r matches Ok(d) && match d {
                Some(l) => definition(v, path@, position) == Some(loc_view(l)),
                None => definition(v, path@, position) is None,
            },
    {
        match &self.vault {
            Some(v) => Ok(goto_definition(v, position, path)),
            None => Err(ServerError::NotInitialized),
        }
    }

    /// Reference-set lookup on the session's index. An error only where the
    /// index is not built; finding nothing is no error.
    pub fn references(&self, position: Position, path: &str) -> (r: Result<
        Option<Vec<Location>>,
        ServerError,
    >)
        ensures
            self.index() is None ==> (r matches Err(e) && e == ServerError::NotInitialized),
            self.index() matches Some(v) ==> r matches Ok(d) && match d {
                Some(ls) => search_names(v, path@, position) matches Some(ns) && locations_view(ls@)
                    == uri_sites(sites_for_names(v.files, ns)),
                None => search_names(v, path@, position) is None,
            },
    {
        match &self.vault {
            Some(v) => Ok(references(v, position, path)),
            None => Err(ServerError::NotInitialized),
        }
    }
}

} // verus!
