//! The explorer: one tree together with which directories are open and which
//! file is selected.

use vstd::prelude::*;
use crate::path::{child_path, clone_path, path_view, paths_view, same_path};
use crate::tree::{items_view, Dir, Item, Kind, Node};

verus! {

/// The mathematical form of an explorer.
pub ghost struct ExplorerState {
    pub root: Node,
    pub expanded: Set<Seq<Seq<char>>>,
    pub selected: Option<Seq<Seq<char>>>,
}

impl ExplorerState {
    /// The tree is well-formed, every open path names a directory of it and
    /// the selected path, if any, names a file of it.
    pub open spec fn wf(self) -> bool {
        &&& self.root is Dir
        &&& self.root.wf()
        &&& forall|p: Seq<Seq<char>>| self.expanded.contains(p) ==> self.root.names_dir(p)
        &&& self.selected matches Some(f) ==> self.root.names_file(f)
    }

    /// A tree as it is first shown: the root open, nothing selected.
    pub open spec fn opened(root: Node) -> ExplorerState {
        ExplorerState { root, expanded: set![Seq::empty()], selected: None }
    }

    /// The tree `root` with as much of the given state as still fits it.
    pub open spec fn restored(
        root: Node,
        expanded: Set<Seq<Seq<char>>>,
        selected: Option<Seq<Seq<char>>>,
    ) -> ExplorerState {
        ExplorerState {
            root,
            expanded: expanded.filter(|p: Seq<Seq<char>>| root.names_dir(p)),
            selected: match selected {
                Some(f) => if root.names_file(f) {
                    Some(f)
                } else {
                    None
                },
                None => None,
            },
        }
    }

    pub open spec fn toggle_expand(self, path: Seq<Seq<char>>) -> ExplorerState {
        if !self.root.names_dir(path) {
            self
        } else if self.expanded.contains(path) {
            ExplorerState { expanded: self.expanded.remove(path), ..self }
        } else {
            ExplorerState { expanded: self.expanded.insert(path), ..self }
        }
    }

    pub open spec fn select(self, path: Seq<Seq<char>>) -> ExplorerState {
        if self.root.names_file(path) {
            ExplorerState { selected: Some(path), ..self }
        } else {
            self
        }
    }

    pub open spec fn replace_tree(self, root: Node) -> ExplorerState {
        ExplorerState::restored(root, set![Seq::empty()], self.selected)
    }

    pub open spec fn rescan(self, root: Node) -> ExplorerState {
        ExplorerState::restored(root, self.expanded, self.selected)
    }

    /// The explorer after a scanned tree was taken in by `step`. The state
    /// given counts only where the saved state is restored.
    pub open spec fn install(
        self,
        step: InstallStep,
        root: Node,
        expanded: Set<Seq<Seq<char>>>,
        selected: Option<Seq<Seq<char>>>,
    ) -> ExplorerState {
        match step {
            InstallStep::Restore => ExplorerState::restored(root, expanded, selected),
            InstallStep::Rescan => self.rescan(root),
            InstallStep::Replace => self.replace_tree(root),
        }
    }

    /// The rows on display, top to bottom.
    pub open spec fn visible(self) -> Seq<Row> {
        visible(self.root, Seq::empty(), self.expanded)
    }
}

/// One row on display, in mathematical form.
pub ghost struct Row {
    pub path: Seq<Seq<char>>,
    pub name: Seq<char>,
    pub kind: Kind,
    pub depth: nat,
}

/// The row that shows node `n`, found at `path`.
pub open spec fn row_of(n: Node, path: Seq<Seq<char>>) -> Row {
    Row { path, name: n.name(), kind: n.kind(), depth: path.len() }
}

/// The pre-order walk from `n`, found at `path`: the node itself, then, if it
/// is an open directory, the walk from each of its entries in turn.
pub open spec fn visible(n: Node, path: Seq<Seq<char>>, expanded: Set<Seq<Seq<char>>>) -> Seq<Row>
    decreases n, n.children().len() + 1,
{
    if n is Dir && expanded.contains(path) {
        seq![row_of(n, path)] + visible_from(n, path, expanded, 0)
    } else {
        seq![row_of(n, path)]
    }
}

/// The walks from the entries of `n` at index `k` and after, one after another.
pub open spec fn visible_from(
    n: Node,
    path: Seq<Seq<char>>,
    expanded: Set<Seq<Seq<char>>>,
    k: int,
) -> Seq<Row>
    decreases n, n.children().len() - k,
{
    match n {
        Node::Dir { children, .. } => if 0 <= k < children.len() {
            visible(children[k], path.push(children[k].name()), expanded) + visible_from(
                n,
                path,
                expanded,
                k + 1,
            )
        } else {
            Seq::empty()
        },
        Node::File { .. } => Seq::empty(),
    }
}

/// One row on display.
pub struct VisibleRow {
    pub path: Vec<String>,
    pub name: String,
    pub kind: Kind,
    pub depth: usize,
}

impl View for VisibleRow {
    type V = Row;

    open spec fn view(&self) -> Row {
        Row {
            path: path_view(self.path@),
            name: self.name@,
            kind: self.kind,
            depth: self.depth as nat,
        }
    }
}

pub open spec fn rows_view(rows: Seq<VisibleRow>) -> Seq<Row> {
    Seq::new(rows.len(), |i: int| rows[i]@)
}

/// How a freshly scanned tree is taken in.
#[derive(Clone, Copy, Debug, PartialEq, Eq, Structural)]
pub enum InstallStep {
    /// Nothing is shown yet: the tree comes with the state that was saved.
    Restore,
    /// The folder on display was scanned again: its state is kept.
    Rescan,
    /// Another folder was opened: only its root is open.
    Replace,
}

/// How the scan of `folder` is taken in when `shown` is the folder on
/// display.
pub open spec fn install_step_of(shown: Option<Seq<char>>, folder: Seq<char>) -> InstallStep {
    match shown {
        None => InstallStep::Restore,
        Some(f) => if f == folder {
            InstallStep::Rescan
        } else {
            InstallStep::Replace
        },
    }
}

/// Decides how the scan of `folder` is taken in.
pub fn install_step(shown: Option<&String>, folder: &String) -> (r: InstallStep)
    ensures
        r == install_step_of(
            match shown {
                Some(f) => Some(f@),
                None => None,
            },
            folder@,
        ),
{
    match shown {
        None => InstallStep::Restore,
        Some(f) => if *f == *folder {
            InstallStep::Rescan
        } else {
            InstallStep::Replace
        },
    }
}

/// Why a selection was refused.
#[derive(Clone, Copy, Debug, PartialEq, Eq, Structural)]
pub enum SelectionError {
    NotAFile,
}

pub open spec fn selected_view(s: Option<Vec<String>>) -> Option<Seq<Seq<char>>> {
    match s {
        Some(p) => Some(path_view(p@)),
        None => None,
    }
}

/// A tree with its open directories and its selected file.
pub struct DirExplorer {
    root: Dir,
    expanded: Vec<Vec<String>>,
    selected: Option<Vec<String>>,
}

impl View for DirExplorer {
    type V = ExplorerState;

    closed spec fn view(&self) -> ExplorerState {
        ExplorerState {
            root: self.root@,
            expanded: paths_view(self.expanded@).to_set(),
            selected: selected_view(self.selected),
        }
    }
}

impl Default for DirExplorer {
    /// An explorer on a directory without a name and without entries.
    fn default() -> (r: DirExplorer)
        ensures
            r@ == ExplorerState::opened(Node::Dir { name: Seq::empty(), children: Seq::empty() }),
    {
        DirExplorer::new(Dir::default())
    }
}

/// The one path of the root.
fn root_only() -> (r: Vec<Vec<String>>)
    ensures
        paths_view(r@) == seq![Seq::<Seq<char>>::empty()],
        paths_view(r@).to_set() == set![Seq::<Seq<char>>::empty()],
        paths_view(r@).no_duplicates(),
{
    let mut r: Vec<Vec<String>> = Vec::new();
    r.push(Vec::new());
    proof {
        let pv = paths_view(r@);
        assert(path_view(r[0]@) =~= Seq::empty());
        assert(pv =~= seq![Seq::<Seq<char>>::empty()]);
        assert forall|x: Seq<Seq<char>>|
            pv.to_set().contains(x) <==> set![Seq::<Seq<char>>::empty()].contains(x) by {
            if x == Seq::<Seq<char>>::empty() {
                assert(pv[0] == x);
            }
        }
        assert(pv.to_set() =~= set![Seq::<Seq<char>>::empty()]);
    }
    r
}

/// The index of `path` in `paths`.
pub fn find_path(paths: &Vec<Vec<String>>, path: &Vec<String>) -> (r: Option<usize>)
    ensures
        match r {
            Some(i) => {
                &&& i < paths.len()
                &&& paths_view(paths@)[i as int] == path_view(path@)
                &&& forall|j: int| 0 <= j < i ==> paths_view(paths@)[j] != path_view(path@)
            },
            None => !paths_view(paths@).contains(path_view(path@)),
        },
{
    let mut i: usize = 0;
    while i < paths.len()
        invariant
            i <= paths.len(),
            forall|j: int| 0 <= j < i ==> paths_view(paths@)[j] != path_view(path@),
        decreases paths.len() - i,
    {
        if same_path(&paths[i], path) {
            return Some(i);
        }
        i = i + 1;
    }
    None
}

/// The paths among `paths` that name a directory of `root`, each once, in
/// their first order.
pub fn retain_dirs(root: &Dir, paths: &Vec<Vec<String>>) -> (kept: Vec<Vec<String>>)
    ensures
        paths_view(kept@).no_duplicates(),
        paths_view(kept@).to_set() == paths_view(paths@).to_set().filter(
            |p: Seq<Seq<char>>| root@.names_dir(p),
        ),
{
    let ghost all = paths_view(paths@);
    let mut kept: Vec<Vec<String>> = Vec::new();
    let mut i: usize = 0;
    while i < paths.len()
        invariant
            i <= paths.len(),
            all == paths_view(paths@),
            paths_view(kept@).no_duplicates(),
            forall|t: int|
                0 <= t < kept.len() ==> root@.names_dir(#[trigger] paths_view(kept@)[t])
                    && all.contains(paths_view(kept@)[t]),
            forall|j: int|
                0 <= j < i && root@.names_dir(#[trigger] all[j]) ==> paths_view(kept@).contains(
                    all[j],
                ),
        decreases paths.len() - i,
    {
        let p = &paths[i];
        assert(all[i as int] == path_view(p@));
        let is_dir = match root.kind_at(p) {
            Some(Kind::Directory) => true,
            _ => false,
        };
        let ghost before = paths_view(kept@);
        if is_dir && find_path(&kept, p).is_none() {
            kept.push(clone_path(p));
            proof {
                let after = paths_view(kept@);
                assert(after =~= before.push(all[i as int]));
                assert forall|j: int|
                    0 <= j < i + 1 && root@.names_dir(#[trigger] all[j]) implies after.contains(
                    all[j],
                ) by {
                    if j < i {
                        let t = choose|t: int| 0 <= t < before.len() && before[t] == all[j];
                        assert(after[t] == all[j]);
                    } else {
                        assert(after[before.len() as int] == all[j]);
                    }
                }
            }
        }
        i = i + 1;
    }
    proof {
        let kv = paths_view(kept@);
        let want = all.to_set().filter(|p: Seq<Seq<char>>| root@.names_dir(p));
        assert forall|x: Seq<Seq<char>>| kv.to_set().contains(x) <==> want.contains(x) by {
            if kv.to_set().contains(x) {
                let t = choose|t: int| 0 <= t < kv.len() && kv[t] == x;
                assert(root@.names_dir(kv[t]));
            }
            if want.contains(x) {
                let j = choose|j: int| 0 <= j < all.len() && all[j] == x;
                assert(root@.names_dir(all[j]));
            }
        }
        assert(kv.to_set() =~= want);
    }
    kept
}

/// Appends to `out` the walk from `dir`, found at `path`.
fn collect_rows(
    dir: &Dir,
    path: &Vec<String>,
    expanded: &Vec<Vec<String>>,
    out: &mut Vec<VisibleRow>,
)
    ensures
        rows_view(final(out)@) == rows_view(old(out)@) + visible(
            dir@,
            path_view(path@),
            paths_view(expanded@).to_set(),
        ),
    decreases dir@,
{
    let ghost start = rows_view(out@);
    let ghost pv = path_view(path@);
    let ghost ex = paths_view(expanded@).to_set();
    let ghost head = start.push(row_of(dir@, pv));
    out.push(
        VisibleRow {
            path: clone_path(path),
            name: dir.name().clone(),
            kind: Kind::Directory,
            depth: path.len(),
        },
    );
    assert(rows_view(out@) =~= head);
    assert(head =~= start + seq![row_of(dir@, pv)]);
    if find_path(expanded, path).is_some() {
        let items = dir.children();
        let mut k: usize = 0;
        while k < items.len()
            invariant
                k <= items.len(),
                items_view(items@) == dir@.children(),
                pv == path_view(path@),
                ex == paths_view(expanded@).to_set(),
                rows_view(out@) + visible_from(dir@, pv, ex, k as int) == head + visible_from(
                    dir@,
                    pv,
                    ex,
                    0,
                ),
            decreases items.len() - k,
        {
            let ghost before = rows_view(out@);
            let ghost child = dir@.children()[k as int];
            assert(child == items[k as int]@);
            let ghost walk = visible(child, pv.push(child.name()), ex);
            let cp = child_path(path, items[k].name());
            match &items[k] {
                Item::File { name } => {
                    let depth = cp.len();
                    out.push(VisibleRow { path: cp, name: name.clone(), kind: Kind::File, depth });
                    assert(rows_view(out@) =~= before + walk);
                },
                Item::Dir { value } => {
                    collect_rows(value, &cp, expanded, out);
                },
            }
            assert(rows_view(out@) + visible_from(dir@, pv, ex, k + 1) =~= before + visible_from(
                dir@,
                pv,
                ex,
                k as int,
            ));
            k = k + 1;
        }
        assert(start + visible(dir@, pv, ex) =~= head + visible_from(dir@, pv, ex, 0));
    }
}

impl DirExplorer {
    #[verifier::type_invariant]
    spec fn inv(&self) -> bool {
        &&& self@.wf()
        &&& paths_view(self.expanded@).no_duplicates()
    }

    /// An explorer on `root`, the root open and nothing selected.
    pub fn new(root: Dir) -> (r: DirExplorer)
        ensures
            r@ == ExplorerState::opened(root@),
            r@.wf(),
    {
        proof {
            use_type_invariant(&root);
        }
        DirExplorer { root, expanded: root_only(), selected: None }
    }

    /// The tree on display.
    pub fn root(&self) -> (r: &Dir)
        ensures
            r@ == self@.root,
            self@.wf(),
    {
        proof {
            use_type_invariant(self);
        }
        &self.root
    }

    /// The selected file's path, if one is selected.
    pub fn selected(&self) -> (r: Option<&Vec<String>>)
        ensures
            match r {
                Some(p) => self@.selected == Some(path_view(p@)),
                None => self@.selected is None,
            },
    {
        match &self.selected {
            Some(p) => Some(p),
            None => None,
        }
    }

    /// The open directories' paths, each once.
    pub fn expanded(&self) -> (r: &Vec<Vec<String>>)
        ensures
            paths_view(r@).to_set() == self@.expanded,
            paths_view(r@).no_duplicates(),
    {
        proof {
            use_type_invariant(self);
        }
        &self.expanded
    }

    /// Whether the directory at `path` is open.
    pub fn is_expanded(&self, path: &Vec<String>) -> (r: bool)
        ensures
            r == self@.expanded.contains(path_view(path@)),
    {
        find_path(&self.expanded, path).is_some()
    }

    /// An explorer on `root` that keeps, of the open paths and the selection
    /// given, what `root` still has.
    pub fn restore(root: Dir, expanded: Vec<Vec<String>>, selected: Option<Vec<String>>) -> (r:
        DirExplorer)
        ensures
            r@ == ExplorerState::restored(
                root@,
                paths_view(expanded@).to_set(),
                selected_view(selected),
            ),
            r@.wf(),
    {
        proof {
            use_type_invariant(&root);
        }
        let kept = retain_dirs(&root, &expanded);
        let still = match selected {
            Some(f) => match root.kind_at(&f) {
                Some(Kind::File) => Some(f),
                _ => None,
            },
            None => None,
        };
        DirExplorer { root, expanded: kept, selected: still }
    }

    /// Opens the directory at `path` if it is closed and closes it if it is
    /// open. A path that names no directory changes nothing.
    pub fn toggle_expand(&mut self, path: &Vec<String>)
        ensures
            final(self)@ == old(self)@.toggle_expand(path_view(path@)),
            final(self)@.wf(),
    {
        proof {
            use_type_invariant(&*self);
        }
        let ghost pv = path_view(path@);
        match self.root.kind_at(path) {
            Some(Kind::Directory) => {
                let mut paths: Vec<Vec<String>> = Vec::new();
                core::mem::swap(&mut self.expanded, &mut paths);
                let ghost before = paths_view(paths@);
                match find_path(&paths, path) {
                    Some(i) => {
                        paths.remove(i);
                        proof {
                            let after = paths_view(paths@);
                            assert(after =~= before.remove(i as int));
                            assert forall|x: Seq<Seq<char>>|
                                after.to_set().contains(x) <==> before.to_set().remove(
                                    pv,
                                ).contains(x) by {
                                if after.to_set().contains(x) {
                                    let t = choose|t: int| 0 <= t < after.len() && after[t] == x;
                                    if t < i {
                                        assert(before[t] == x);
                                    } else {
                                        assert(before[t + 1] == x);
                                    }
                                }
                                if before.to_set().remove(pv).contains(x) {
                                    let j = choose|j: int| 0 <= j < before.len() && before[j] == x;
                                    if j < i {
                                        assert(after[j] == x);
                                    } else {
                                        assert(after[j - 1] == x);
                                    }
                                }
                            }
                            assert(after.to_set() =~= before.to_set().remove(pv));
                        }
                    },
                    None => {
                        paths.push(clone_path(path));
                        proof {
                            let after = paths_view(paths@);
                            assert(after =~= before.push(pv));
                            assert forall|x: Seq<Seq<char>>|
                                after.to_set().contains(x) <==> before.to_set().insert(
                                    pv,
                                ).contains(x) by {
                                if after.to_set().contains(x) {
                                    let t = choose|t: int| 0 <= t < after.len() && after[t] == x;
                                    if t < before.len() {
                                        assert(before[t] == x);
                                    }
                                }
                                if before.to_set().insert(pv).contains(x) {
                                    if x == pv {
                                        assert(after[before.len() as int] == x);
                                    } else {
                                        let j = choose|j: int|
                                            0 <= j < before.len() && before[j] == x;
                                        assert(after[j] == x);
                                    }
                                }
                            }
                            assert(after.to_set() =~= before.to_set().insert(pv));
                        }
                    },
                }
                proof {
                    let next = DirExplorer {
                        root: self.root,
                        expanded: paths,
                        selected: self.selected,
                    };
                    assert(next@ == old(self)@.toggle_expand(pv));
                    assert(next.inv());
                }
                core::mem::swap(&mut self.expanded, &mut paths);
            },
            _ => {},
        }
    }

    /// Selects the file at `path`. A path that names no file is refused and
    /// the selection stays as it was.
    pub fn select(&mut self, path: &Vec<String>) -> (r: Result<(), SelectionError>)
        ensures
            final(self)@ == old(self)@.select(path_view(path@)),
            r is Ok <==> old(self)@.root.names_file(path_view(path@)),
            r is Err ==> final(self)@ == old(self)@,
            r matches Err(e) ==> e == SelectionError::NotAFile,
            final(self)@.wf(),
    {
        proof {
            use_type_invariant(&*self);
        }
        match self.root.kind_at(path) {
            Some(Kind::File) => {
                self.selected = Some(clone_path(path));
                Ok(())
            },
            _ => Err(SelectionError::NotAFile),
        }
    }

    /// Installs a new tree: only the root is open afterwards, and the
    /// selection is kept if the new tree still has that file.
    pub fn replace_tree(&mut self, new_root: Dir)
        ensures
            final(self)@ == old(self)@.replace_tree(new_root@),
            final(self)@.wf(),
    {
        let mut selected: Option<Vec<String>> = None;
        proof {
            use_type_invariant(&*self);
            let next = DirExplorer { root: self.root, expanded: self.expanded, selected };
            assert(next.inv());
        }
        core::mem::swap(&mut self.selected, &mut selected);
        *self = DirExplorer::restore(new_root, root_only(), selected);
    }

    /// Installs a fresh scan of the same place: open directories and the
    /// selection are kept where the new tree still has them, and dropped
    /// where it does not.
    pub fn rescan(&mut self, new_root: Dir)
        ensures
            final(self)@ == old(self)@.rescan(new_root@),
            final(self)@.wf(),
    {
        let mut selected: Option<Vec<String>> = None;
        let mut expanded: Vec<Vec<String>> = Vec::new();
        proof {
            use_type_invariant(&*self);
            let next = DirExplorer { root: self.root, expanded: self.expanded, selected };
            assert(next.inv());
        }
        core::mem::swap(&mut self.selected, &mut selected);
        proof {
            let next = DirExplorer { root: self.root, expanded, selected: self.selected };
            assert(paths_view(expanded@) =~= Seq::empty());
            assert(next@.expanded =~= Set::empty());
            assert(next.inv());
        }
        core::mem::swap(&mut self.expanded, &mut expanded);
        *self = DirExplorer::restore(new_root, expanded, selected);
    }

    /// Takes in a scanned tree by `step`. The state given counts only where
    /// the saved state is restored.
    pub fn install(
        &mut self,
        step: InstallStep,
        tree: Dir,
        expanded: Vec<Vec<String>>,
        selected: Option<Vec<String>>,
    )
        ensures
            final(self)@ == old(self)@.install(
                step,
                tree@,
                paths_view(expanded@).to_set(),
                selected_view(selected),
            ),
            final(self)@.wf(),
    {
        match step {
            InstallStep::Restore => {
                *self = DirExplorer::restore(tree, expanded, selected);
            },
            InstallStep::Rescan => {
                self.rescan(tree);
            },
            InstallStep::Replace => {
                self.replace_tree(tree);
            },
        }
    }

    /// The rows on display, top to bottom: every entry all of whose
    /// ancestors are open.
    pub fn visible_sequence(&self) -> (rows: Vec<VisibleRow>)
        ensures
            rows_view(rows@) == self@.visible(),
    {
        let mut rows: Vec<VisibleRow> = Vec::new();
        let path: Vec<String> = Vec::new();
        assert(path_view(path@) =~= Seq::empty());
        assert(rows_view(rows@) =~= Seq::empty());
        collect_rows(&self.root, &path, &self.expanded, &mut rows);
        assert(rows_view(rows@) =~= self@.visible());
        rows
    }
}

} // verus!
