//! What holds of every explorer, stated over its mathematical form.

use vstd::prelude::*;
use crate::explorer::{row_of, visible, visible_from, ExplorerState, Row};
use crate::tree::{child_index, lemma_child_index, Kind, Node};

verus! {

/// The rows of the entries of `t`, each at depth one.
pub open spec fn entry_rows(t: Node) -> Seq<Row> {
    Seq::new(t.children().len(), |i: int| row_of(t.children()[i], seq![t.children()[i].name()]))
}

/// With only the root open, the walk over the entries from index `k` on
/// shows each entry and nothing below it.
proof fn lemma_entries_only(t: Node, k: int)
    requires
        t is Dir,
        0 <= k <= t.children().len(),
    ensures
        visible_from(t, Seq::empty(), set![Seq::empty()], k) == entry_rows(t).skip(k),
    decreases t.children().len() - k,
{
    let root = Seq::<Seq<char>>::empty();
    let ex = set![root];
    if k < t.children().len() {
        lemma_entries_only(t, k + 1);
        let child = t.children()[k];
        let at = root.push(child.name());
        assert(at =~= seq![child.name()]);
        assert(at.len() == 1);
        assert(!ex.contains(at));
        assert(visible(child, at, ex) == seq![row_of(child, at)]);
        assert(entry_rows(t).skip(k) =~= seq![row_of(child, at)] + entry_rows(t).skip(k + 1));
    } else {
        assert(entry_rows(t).skip(k) =~= Seq::empty());
    }
}

/// An explorer in which the root alone is open shows the root and the
/// root's entries, in their order, and nothing deeper.
pub proof fn lemma_root_open_shows_root_and_entries(s: ExplorerState)
    requires
        s.root is Dir,
        s.expanded == set![Seq::<Seq<char>>::empty()],
    ensures
        s.visible() == seq![row_of(s.root, Seq::empty())] + entry_rows(s.root),
{
    lemma_entries_only(s.root, 0);
    assert(entry_rows(s.root).skip(0) =~= entry_rows(s.root));
}

/// A tree that was just installed shows its root and the root's entries, in
/// their order, and nothing deeper.
pub proof fn lemma_replaced_tree_shows_root_and_entries(s: ExplorerState, t: Node)
    requires
        t is Dir,
    ensures
        s.replace_tree(t).expanded == set![Seq::<Seq<char>>::empty()],
        s.replace_tree(t).visible() == seq![row_of(t, Seq::empty())] + entry_rows(t),
        ExplorerState::opened(t).visible() == seq![row_of(t, Seq::empty())] + entry_rows(t),
{
    let root = Seq::<Seq<char>>::empty();
    let ex = set![root];
    assert(t.resolve(root) == Some(t));
    assert(t.names_dir(root));
    assert(ex.filter(|p: Seq<Seq<char>>| t.names_dir(p)) =~= ex);
    lemma_entries_only(t, 0);
    assert(entry_rows(t).skip(0) =~= entry_rows(t));
}

/// A row of the walk from a well-formed `n`, found at `path`, shows a node
/// of the tree: the row's path goes on from `path`, what goes on names the
/// node below `n`, and the row has the node's name and kind and the depth
/// of its path.
pub open spec fn row_shows_node(n: Node, path: Seq<Seq<char>>, row: Row) -> bool {
    &&& row.depth == row.path.len()
    &&& row.path.len() >= path.len()
    &&& row.path.subrange(0, path.len() as int) == path
    &&& n.resolve(row.path.skip(path.len() as int)) matches Some(m) && m.name() == row.name
        && m.kind() == row.kind
}

/// Every row of the walk shows a node of the tree.
pub proof fn lemma_rows_show_nodes(
    n: Node,
    path: Seq<Seq<char>>,
    expanded: Set<Seq<Seq<char>>>,
    i: int,
)
    requires
        n.wf(),
        0 <= i < visible(n, path, expanded).len(),
    ensures
        row_shows_node(n, path, visible(n, path, expanded)[i]),
    decreases n, n.children().len() + 1,
{
    if i == 0 {
        let row = visible(n, path, expanded)[0];
        assert(row == row_of(n, path));
        assert(row.path.subrange(0, path.len() as int) =~= path);
        assert(row.path.skip(path.len() as int) =~= Seq::empty());
    } else {
        assert(n is Dir && expanded.contains(path));
        lemma_entry_rows_show_nodes(n, path, expanded, 0, i - 1);
    }
}

/// Every row of the walks from the entries of `n` at index `k` and after
/// shows a node of the tree.
proof fn lemma_entry_rows_show_nodes(
    n: Node,
    path: Seq<Seq<char>>,
    expanded: Set<Seq<Seq<char>>>,
    k: int,
    i: int,
)
    requires
        n.wf(),
        0 <= k,
        0 <= i < visible_from(n, path, expanded, k).len(),
    ensures
        row_shows_node(n, path, visible_from(n, path, expanded, k)[i]),
    decreases n, n.children().len() - k,
{
    let children = n.children();
    assert(n is Dir && k < children.len());
    let child = children[k];
    let at = path.push(child.name());
    let first = visible(child, at, expanded);
    let row = visible_from(n, path, expanded, k)[i];
    if i < first.len() {
        assert(row == first[i]);
        assert(child.wf());
        lemma_rows_show_nodes(child, at, expanded, i);
        let rest = row.path.skip(at.len() as int);
        let below = row.path.skip(path.len() as int);
        assert(row.path.subrange(0, at.len() as int)[path.len() as int] == child.name());
        assert(row.path.subrange(0, path.len() as int) =~= path) by {
            assert forall|j: int| 0 <= j < path.len() implies row.path[j] == path[j] by {
                assert(row.path.subrange(0, at.len() as int)[j] == at[j]);
            }
        }
        assert(below[0] == child.name());
        assert(below.skip(1) =~= rest);
        lemma_child_index(children, child.name(), 0);
        assert(child_index(children, child.name(), 0) == Some(k));
    } else {
        assert(row == visible_from(n, path, expanded, k + 1)[i - first.len()]);
        lemma_entry_rows_show_nodes(n, path, expanded, k + 1, i - first.len());
    }
}

/// What an explorer shows can be acted on: the path of a file's row can be
/// selected, and the path of a directory's row can be opened or closed.
pub proof fn lemma_rows_can_be_acted_on(s: ExplorerState, i: int)
    requires
        s.wf(),
        0 <= i < s.visible().len(),
    ensures
        s.visible()[i].kind == Kind::File ==> s.root.names_file(s.visible()[i].path),
        s.visible()[i].kind == Kind::Directory ==> s.root.names_dir(s.visible()[i].path),
        s.visible()[i].depth == s.visible()[i].path.len(),
{
    lemma_rows_show_nodes(s.root, Seq::empty(), s.expanded, i);
    let row = s.visible()[i];
    assert(row.path.skip(0) =~= row.path);
}

/// A directory that is opened and a file that is selected stay so over a
/// fresh scan that still has both.
pub proof fn lemma_rescan_keeps_what_remains(
    s: ExplorerState,
    p: Seq<Seq<char>>,
    f: Seq<Seq<char>>,
    t: Node,
)
    requires
        s.root.names_dir(p),
        !s.expanded.contains(p),
        s.root.names_file(f),
        t.names_dir(p),
        t.names_file(f),
    ensures
        s.toggle_expand(p).select(f).expanded.contains(p),
        s.toggle_expand(p).select(f).selected == Some(f),
        s.toggle_expand(p).select(f).rescan(t).expanded.contains(p),
        s.toggle_expand(p).select(f).rescan(t).selected == Some(f),
{
}

/// A fresh scan keeps exactly the open paths that still name a directory
/// and keeps the selection exactly if it still names a file.
pub proof fn lemma_rescan_prunes_what_is_gone(s: ExplorerState, t: Node)
    ensures
        s.rescan(t).root == t,
        forall|p: Seq<Seq<char>>|
            s.rescan(t).expanded.contains(p) <==> s.expanded.contains(p) && t.names_dir(p),
        s.selected matches Some(f) ==> s.rescan(t).selected == (if t.names_file(f) {
            Some(f)
        } else {
            None
        }),
        s.selected is None ==> s.rescan(t).selected is None,
{
}

/// Selecting a path that names a directory, or nothing, changes nothing.
pub proof fn lemma_select_ignores_what_is_no_file(s: ExplorerState, p: Seq<Seq<char>>)
    requires
        !s.root.names_file(p),
    ensures
        s.select(p) == s,
        s.root.names_dir(p) ==> !s.root.names_file(p),
{
}

/// Opening and closing, selecting and installing a tree all keep an
/// explorer well-formed.
pub proof fn lemma_steps_keep_well_formed(s: ExplorerState, p: Seq<Seq<char>>, t: Node)
    requires
        s.wf(),
    ensures
        s.toggle_expand(p).wf(),
        s.select(p).wf(),
        t is Dir && t.wf() ==> s.replace_tree(t).wf() && s.rescan(t).wf() && ExplorerState::opened(
            t,
        ).wf(),
{
    if t is Dir && t.wf() {
        let root = Seq::<Seq<char>>::empty();
        assert(t.resolve(root) == Some(t));
    }
}

/// Toggling a directory twice gives back the state before.
pub proof fn lemma_toggle_twice(s: ExplorerState, p: Seq<Seq<char>>)
    ensures
        s.toggle_expand(p).toggle_expand(p).root == s.root,
        s.toggle_expand(p).toggle_expand(p).selected == s.selected,
        s.toggle_expand(p).toggle_expand(p).expanded =~= s.expanded,
{
}

} // verus!
