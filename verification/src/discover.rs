//! Finding the files of a tree.

use vstd::prelude::*;
use crate::path::{child_path, path_view, paths_view};
use crate::tree::{items_view, Dir, Item, Node};

verus! {

/// The paths of the files at and below `n`, found at `path`, in the order
/// of a walk that visits the entries of each directory in turn.
pub open spec fn files_under(n: Node, path: Seq<Seq<char>>) -> Seq<Seq<Seq<char>>>
    decreases n, n.children().len() + 1,
{
    match n {
        Node::File { .. } => seq![path],
        Node::Dir { .. } => files_from(n, path, 0),
    }
}

/// The paths of the files at and below the entries of `n` at index `k` and
/// after.
pub open spec fn files_from(n: Node, path: Seq<Seq<char>>, k: int) -> Seq<Seq<Seq<char>>>
    decreases n, n.children().len() - k,
{
    match n {
        Node::Dir { children, .. } => if 0 <= k < children.len() {
            files_under(children[k], path.push(children[k].name())) + files_from(n, path, k + 1)
        } else {
            Seq::empty()
        },
        Node::File { .. } => Seq::empty(),
    }
}

/// Appends to `out` the paths of the files below `dir`, found at `path`.
fn collect_files(dir: &Dir, path: &Vec<String>, out: &mut Vec<Vec<String>>)
    ensures
        paths_view(final(out)@) == paths_view(old(out)@) + files_under(dir@, path_view(path@)),
    decreases dir@,
{
    let ghost start = paths_view(out@);
    let ghost pv = path_view(path@);
    let items = dir.children();
    let mut k: usize = 0;
    assert(start + files_from(dir@, pv, 0) =~= start + files_under(dir@, pv));
    while k < items.len()
        invariant
            k <= items.len(),
            items_view(items@) == dir@.children(),
            pv == path_view(path@),
            paths_view(out@) + files_from(dir@, pv, k as int) == start + files_from(dir@, pv, 0),
        decreases items.len() - k,
    {
        let ghost before = paths_view(out@);
        let ghost child = dir@.children()[k as int];
        assert(child == items[k as int]@);
        let ghost found = files_under(child, pv.push(child.name()));
        let at = child_path(path, items[k].name());
        match &items[k] {
            Item::File { .. } => {
                out.push(at);
                assert(paths_view(out@) =~= before + found);
            },
            Item::Dir { value } => {
                collect_files(value, &at, out);
            },
        }
        assert(paths_view(out@) + files_from(dir@, pv, k + 1) =~= before + files_from(
            dir@,
            pv,
            k as int,
        ));
        k = k + 1;
    }
    assert(paths_view(out@) =~= start + files_from(dir@, pv, 0));
}

/// The paths of all files of the tree, in the order of the walk.
pub fn file_paths(dir: &Dir) -> (paths: Vec<Vec<String>>)
    ensures
        paths_view(paths@) == files_under(dir@, Seq::empty()),
{
    let mut paths: Vec<Vec<String>> = Vec::new();
    let root: Vec<String> = Vec::new();
    assert(path_view(root@) =~= Seq::empty());
    assert(paths_view(paths@) =~= Seq::empty());
    collect_files(dir, &root, &mut paths);
    assert(paths_view(paths@) =~= files_under(dir@, Seq::empty()));
    paths
}

} // verus!
