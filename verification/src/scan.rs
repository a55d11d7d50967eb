//! What a walk over a directory on disk comes to. The walk itself reads the
//! file system and is done elsewhere; here is what it decides and how the
//! tree is put together from what it found. Entries keep the order of the
//! listing.

use vstd::prelude::*;
use crate::path::path_view;
use crate::tree::{child_index, Dir, Item, Node};

verus! {

/// Why a path could not be scanned.
#[derive(Clone, Copy, Debug, PartialEq, Eq, Structural)]
pub enum ScanError {
    NotFound,
    NotADirectory,
    PermissionDenied,
}

/// How reading the file system failed.
#[derive(Clone, Copy, Debug, PartialEq, Eq, Structural)]
pub enum IoFailure {
    NotFound,
    NotADirectory,
    PermissionDenied,
    Other,
}

/// The scan error for a failure. A failure of any other kind leaves the
/// entry as unreadable as a refusal does, and counts as one.
pub fn scan_error(failure: IoFailure) -> (r: ScanError)
    ensures
        r == match failure {
            IoFailure::NotFound => ScanError::NotFound,
            IoFailure::NotADirectory => ScanError::NotADirectory,
            IoFailure::PermissionDenied => ScanError::PermissionDenied,
            IoFailure::Other => ScanError::PermissionDenied,
        },
{
    match failure {
        IoFailure::NotFound => ScanError::NotFound,
        IoFailure::NotADirectory => ScanError::NotADirectory,
        IoFailure::PermissionDenied => ScanError::PermissionDenied,
        IoFailure::Other => ScanError::PermissionDenied,
    }
}

/// What kind of thing a listed entry is.
#[derive(Clone, Copy, Debug, PartialEq, Eq, Structural)]
pub enum EntryKind {
    File,
    Directory,
    Symlink,
    Other,
}

/// Whether the root of a scan can be scanned, and why not.
pub open spec fn root_verdict(exists: bool, is_directory: bool, readable: bool) -> Result<
    (),
    ScanError,
> {
    if !exists {
        Err(ScanError::NotFound)
    } else if !is_directory {
        Err(ScanError::NotADirectory)
    } else if !readable {
        Err(ScanError::PermissionDenied)
    } else {
        Ok(())
    }
}

/// Decides whether the root of a scan can be scanned.
pub fn check_root(exists: bool, is_directory: bool, readable: bool) -> (r: Result<(), ScanError>)
    ensures
        r == root_verdict(exists, is_directory, readable),
{
    if !exists {
        Err(ScanError::NotFound)
    } else if !is_directory {
        Err(ScanError::NotADirectory)
    } else if !readable {
        Err(ScanError::PermissionDenied)
    } else {
        Ok(())
    }
}

/// Whether the walk goes into an entry of this kind. It goes into
/// directories only: a link is a leaf, whatever it points to.
pub fn descends(kind: EntryKind) -> (r: bool)
    ensures
        r == (kind == EntryKind::Directory),
{
    match kind {
        EntryKind::Directory => true,
        _ => false,
    }
}

/// An entry that was left out of the tree, and why.
pub struct ScanWarning {
    pub path: Vec<String>,
    pub error: ScanError,
}

pub open spec fn warnings_view(warnings: Seq<ScanWarning>) -> Seq<(Seq<Seq<char>>, ScanError)> {
    Seq::new(warnings.len(), |i: int| (path_view(warnings[i].path@), warnings[i].error))
}

/// The warnings of a directory as seen from its parent: each path starts
/// with the directory's name.
pub open spec fn below(name: Seq<char>, warnings: Seq<(Seq<Seq<char>>, ScanError)>) -> Seq<
    (Seq<Seq<char>>, ScanError),
> {
    Seq::new(warnings.len(), |i: int| (seq![name] + warnings[i].0, warnings[i].1))
}

/// A scan in mathematical form.
pub ghost struct ScanModel {
    pub dir: Node,
    pub warnings: Seq<(Seq<Seq<char>>, ScanError)>,
}

/// A listed entry in mathematical form.
pub ghost enum ListedModel {
    Leaf { name: Seq<char> },
    Subtree { scan: ScanModel },
    Unreadable { name: Seq<char>, error: ScanError },
}

impl ScanModel {
    /// The scan of a directory before any entry was seen.
    pub open spec fn begin(name: Seq<char>) -> ScanModel {
        ScanModel { dir: Node::Dir { name, children: Seq::empty() }, warnings: Seq::empty() }
    }

    /// Whether the directory already has an entry of this name.
    pub open spec fn taken(self, name: Seq<char>) -> bool {
        child_index(self.dir.children(), name, 0) is Some
    }

    /// The scan with `node` as one more entry.
    pub open spec fn with_entry(self, node: Node) -> ScanModel {
        ScanModel {
            dir: Node::Dir { name: self.dir.name(), children: self.dir.children().push(node) },
            warnings: self.warnings,
        }
    }

    /// The scan after one more listed entry. A leaf becomes a file; a
    /// scanned directory becomes an entry and hands up its warnings; an
    /// entry that could not be read is left out with a warning. An entry
    /// whose name is taken is left out.
    pub open spec fn accept(self, entry: ListedModel) -> ScanModel {
        match entry {
            ListedModel::Leaf { name } => if self.taken(name) {
                self
            } else {
                self.with_entry(Node::File { name })
            },
            ListedModel::Subtree { scan } => if self.taken(scan.dir.name()) {
                self
            } else {
                ScanModel {
                    dir: self.with_entry(scan.dir).dir,
                    warnings: self.warnings + below(scan.dir.name(), scan.warnings),
                }
            },
            ListedModel::Unreadable { name, error } => ScanModel {
                dir: self.dir,
                warnings: self.warnings.push((seq![name], error)),
            },
        }
    }
}

/// The tree of a scanned directory with the warnings of the walk.
pub struct Scanned {
    dir: Dir,
    warnings: Vec<ScanWarning>,
}

/// One entry of a listing, as the walk found it.
pub enum Listed {
    Leaf { name: String },
    Subtree { scan: Scanned },
    Unreadable { name: String, error: ScanError },
}

impl View for Scanned {
    type V = ScanModel;

    closed spec fn view(&self) -> ScanModel {
        ScanModel { dir: self.dir@, warnings: warnings_view(self.warnings@) }
    }
}

impl View for Listed {
    type V = ListedModel;

    open spec fn view(&self) -> ListedModel {
        match self {
            Listed::Leaf { name } => ListedModel::Leaf { name: name@ },
            Listed::Subtree { scan } => ListedModel::Subtree { scan: scan@ },
            Listed::Unreadable { name, error } => ListedModel::Unreadable {
                name: name@,
                error: *error,
            },
        }
    }
}

/// The path `path` as seen from the parent of the directory `name`.
pub fn prefixed(name: &String, path: &Vec<String>) -> (r: Vec<String>)
    ensures
        path_view(r@) == seq![name@] + path_view(path@),
{
    let mut r: Vec<String> = Vec::new();
    r.push(name.clone());
    let mut i: usize = 0;
    while i < path.len()
        invariant
            i <= path.len(),
            r.len() == i + 1,
            r[0]@ == name@,
            forall|j: int| 0 <= j < i ==> r[j + 1]@ == path[j]@,
        decreases path.len() - i,
    {
        r.push(path[i].clone());
        i = i + 1;
    }
    assert(path_view(r@) =~= seq![name@] + path_view(path@));
    r
}

impl Scanned {
    /// The scan of the directory `name` before any entry was seen.
    pub fn begin(name: String) -> (r: Scanned)
        ensures
            r@ == ScanModel::begin(name@),
    {
        let r = Scanned { dir: Dir::new(name), warnings: Vec::new() };
        assert(warnings_view(r.warnings@) =~= Seq::empty());
        r
    }

    /// Takes in one more listed entry. The result says whether the entry
    /// was taken in, as an entry of the tree or as a warning; an entry
    /// whose name is taken is not.
    pub fn accept(&mut self, entry: Listed) -> (r: bool)
        ensures
            final(self)@ == old(self)@.accept(entry@),
            r == match entry@ {
                ListedModel::Leaf { name } => !old(self)@.taken(name),
                ListedModel::Subtree { scan } => !old(self)@.taken(scan.dir.name()),
                ListedModel::Unreadable { .. } => true,
            },
            final(self)@.dir.wf(),
    {
        proof {
            use_type_invariant(&self.dir);
        }
        match entry {
            Listed::Leaf { name } => self.dir.push(Item::File { name }),
            Listed::Subtree { scan } => {
                let Scanned { dir, warnings } = scan;
                let name = dir.name().clone();
                let ghost mine = warnings_view(self.warnings@);
                let ghost theirs = warnings_view(warnings@);
                if !self.dir.push(Item::Dir { value: dir }) {
                    return false;
                }
                let mut i: usize = 0;
                while i < warnings.len()
                    invariant
                        i <= warnings.len(),
                        theirs == warnings_view(warnings@),
                        warnings_view(self.warnings@) == mine + below(name@, theirs).take(
                            i as int,
                        ),
                        self.dir@ == old(self)@.with_entry(entry@->scan.dir).dir,
                        self.dir@.wf(),
                    decreases warnings.len() - i,
                {
                    let ghost before = warnings_view(self.warnings@);
                    let path = prefixed(&name, &warnings[i].path);
                    self.warnings.push(ScanWarning { path, error: warnings[i].error });
                    assert(warnings_view(self.warnings@) =~= before.push(
                        below(name@, theirs)[i as int],
                    ));
                    assert(mine + below(name@, theirs).take(i + 1) =~= before.push(
                        below(name@, theirs)[i as int],
                    ));
                    i = i + 1;
                }
                assert(below(name@, theirs).take(warnings.len() as int) =~= below(name@, theirs));
                true
            },
            Listed::Unreadable { name, error } => {
                let ghost before = warnings_view(self.warnings@);
                let mut path: Vec<String> = Vec::new();
                path.push(name);
                assert(path_view(path@) =~= seq![name@]);
                self.warnings.push(ScanWarning { path, error });
                assert(warnings_view(self.warnings@) =~= before.push((seq![name@], error)));
                true
            },
        }
    }

    /// The tree that was put together.
    pub fn dir(&self) -> (r: &Dir)
        ensures
            r@ == self@.dir,
    {
        &self.dir
    }

    /// The entries that were left out, each with its path and the reason.
    pub fn warnings(&self) -> (r: &Vec<ScanWarning>)
        ensures
            warnings_view(r@) == self@.warnings,
    {
        &self.warnings
    }

    /// The tree alone.
    pub fn into_dir(self) -> (r: Dir)
        ensures
            r@ == self@.dir,
    {
        self.dir
    }
}

} // verus!
