//! The git object store, read through the `git2` crate: repository
//! discovery, HEAD's tree, the index and blobs.
use vstd::prelude::*;
use std::path::Path;
use git2::{Blob, Index, Oid, Reference, Repository, Tree, TreeEntry};

verus! {

#[verifier::external_type_specification]
#[verifier::external_body]
pub struct ExRepository(Repository);

#[verifier::external_type_specification]
#[verifier::external_body]
pub struct ExReference<'a>(Reference<'a>);

#[verifier::external_type_specification]
#[verifier::external_body]
pub struct ExTree<'a>(Tree<'a>);

#[verifier::external_type_specification]
#[verifier::external_body]
pub struct ExTreeEntry<'a>(TreeEntry<'a>);

#[verifier::external_type_specification]
#[verifier::external_body]
pub struct ExBlob<'a>(Blob<'a>);

#[verifier::external_type_specification]
#[verifier::external_body]
pub struct ExIndex(Index);

#[verifier::external_type_specification]
#[verifier::external_body]
pub struct ExOid(Oid);

/// A path git accepts as repository-relative: non-empty, not absolute, not
/// starting with a `.` or `..` component, and free of NUL characters.
pub open spec fn is_repo_path(p: Seq<char>) -> bool {
    &&& p.len() > 0
    &&& p[0] != '/'
    &&& !(p.len() == 1 && p[0] == '.')
    &&& !(p.len() >= 2 && p[0] == '.' && p[1] == '/')
    &&& !(p.len() == 2 && p[0] == '.' && p[1] == '.')
    &&& !(p.len() >= 3 && p[0] == '.' && p[1] == '.' && p[2] == '/')
    &&& forall|i: int| 0 <= i < p.len() ==> p[i] != '\0'
}

/// Relies on `git2::Repository::discover`: opens the repository that holds
/// `path`, searching upwards; `None` where there is none.
#[verifier::external_body]
pub(crate) fn discover(path: &str) -> (r: Option<Repository>) {
    Repository::discover(path).ok()
}

/// Relies on `git2::Repository::workdir`: the working directory, `None` for a
/// bare repository.
#[verifier::external_body]
pub(crate) fn workdir(repo: &Repository) -> (r: Option<String>) {
    repo.workdir().map(|p| p.to_string_lossy().into_owned())
}

/// Relies on `git2::Repository::head`: the reference HEAD points at, `None`
/// where it cannot be resolved (no commit yet).
#[verifier::external_body]
pub(crate) fn head<'a>(repo: &'a Repository) -> (r: Option<Reference<'a>>) {
    repo.head().ok()
}

/// Relies on `git2::Reference::peel_to_tree`: the tree of the commit the
/// reference leads to.
#[verifier::external_body]
pub(crate) fn peel_to_tree<'a>(r: &Reference<'a>) -> (t: Option<Tree<'a>>) {
    r.peel_to_tree().ok()
}

/// Relies on `git2::Tree::get_path`: the entry at a relative path in the tree
/// or its subtrees.
#[verifier::external_body]
pub(crate) fn tree_get_path<'a>(tree: &Tree<'a>, path: &str) -> (r: Option<TreeEntry<'static>>) {
    tree.get_path(Path::new(path)).ok()
}

/// Relies on `git2::TreeEntry::id`: the object the entry names.
#[verifier::external_body]
pub(crate) fn tree_entry_id(entry: &TreeEntry<'static>) -> (r: Oid) {
    entry.id()
}

/// Relies on `git2::Repository::find_blob`: the blob with that id.
#[verifier::external_body]
pub(crate) fn find_blob<'a>(repo: &'a Repository, id: Oid) -> (r: Option<Blob<'a>>) {
    repo.find_blob(id).ok()
}

/// Relies on `git2::Blob::is_binary`: git's guess that the content is binary.
#[verifier::external_body]
pub(crate) fn blob_is_binary<'a>(blob: &Blob<'a>) -> (r: bool) {
    blob.is_binary()
}

/// Relies on `git2::Blob::content`: the blob's bytes, copied.
#[verifier::external_body]
pub(crate) fn blob_content<'a>(blob: &Blob<'a>) -> (r: Vec<u8>) {
    blob.content().to_vec()
}

/// Relies on `git2::Repository::index`: the repository's index file.
#[verifier::external_body]
pub(crate) fn open_index(repo: &Repository) -> (r: Option<Index>) {
    repo.index().ok()
}

/// Relies on `git2::Index::read` with `force`: reloads the index from disk;
/// `false` where that failed.
#[verifier::external_body]
pub(crate) fn reload_index(index: &mut Index) -> (r: bool) {
    index.read(true).is_ok()
}

/// Relies on `git2::Index::get_path` at stage 0: the blob id staged at the
/// path. That function panics on a path git does not accept as relative.
#[verifier::external_body]
pub(crate) fn index_entry_id(index: &Index, path: &str) -> (r: Option<Oid>)
    requires
        is_repo_path(path@),
{
    index.get_path(Path::new(path), 0).map(|e| e.id)
}

} // verus!
