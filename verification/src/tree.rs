//! The directory tree: files and directories as they were found on disk.

use vstd::prelude::*;
use crate::path::path_view;

verus! {

/// One entry of a directory.
pub enum Item {
    File { name: String },
    Dir { value: Dir },
}

/// A directory with its entries in listing order.
pub struct Dir {
    name: String,
    children: Vec<Item>,
}

/// What a path names.
#[derive(Clone, Copy, Debug, PartialEq, Eq, Structural)]
pub enum Kind {
    File,
    Directory,
}

/// The mathematical form of a tree.
pub ghost enum Node {
    File { name: Seq<char> },
    Dir { name: Seq<char>, children: Seq<Node> },
}

impl Node {
    pub open spec fn name(self) -> Seq<char> {
        match self {
            Node::File { name } => name,
            Node::Dir { name, .. } => name,
        }
    }

    pub open spec fn children(self) -> Seq<Node> {
        match self {
            Node::File { .. } => Seq::empty(),
            Node::Dir { children, .. } => children,
        }
    }

    /// The node that `path` names below this one: at each step the first
    /// entry of that name.
    pub open spec fn resolve(self, path: Seq<Seq<char>>) -> Option<Node>
        decreases path.len(),
    {
        if path.len() == 0 {
            Some(self)
        } else {
            match child_index(self.children(), path[0], 0) {
                Some(i) => self.children()[i].resolve(path.skip(1)),
                None => None,
            }
        }
    }

    pub open spec fn kind(self) -> Kind {
        match self {
            Node::File { .. } => Kind::File,
            Node::Dir { .. } => Kind::Directory,
        }
    }

    pub open spec fn kind_at(self, path: Seq<Seq<char>>) -> Option<Kind> {
        match self.resolve(path) {
            Some(n) => Some(n.kind()),
            None => None,
        }
    }

    pub open spec fn names_file(self, path: Seq<Seq<char>>) -> bool {
        self.kind_at(path) == Some(Kind::File)
    }

    pub open spec fn names_dir(self, path: Seq<Seq<char>>) -> bool {
        self.kind_at(path) == Some(Kind::Directory)
    }

    /// No two entries of one directory share a name, at any depth.
    pub open spec fn wf(self) -> bool
        decreases self,
    {
        match self {
            Node::File { .. } => true,
            Node::Dir { children, .. } => {
                &&& distinct_names(children)
                &&& forall|i: int| 0 <= i < children.len() ==> (#[trigger] children[i]).wf()
            },
        }
    }
}

pub open spec fn distinct_names(nodes: Seq<Node>) -> bool {
    forall|i: int, j: int|
        0 <= i < j < nodes.len() ==> (#[trigger] nodes[i]).name() != (#[trigger] nodes[j]).name()
}

/// The first index at or after `from` whose node has this name.
pub open spec fn child_index(nodes: Seq<Node>, name: Seq<char>, from: int) -> Option<int>
    decreases nodes.len() - from,
{
    if from < 0 || from >= nodes.len() {
        None
    } else if nodes[from].name() == name {
        Some(from)
    } else {
        child_index(nodes, name, from + 1)
    }
}

/// What `child_index` finds: the first node of that name, or that there is none.
pub proof fn lemma_child_index(nodes: Seq<Node>, name: Seq<char>, from: int)
    requires
        0 <= from,
    ensures
        match child_index(nodes, name, from) {
            Some(i) => {
                &&& from <= i < nodes.len()
                &&& nodes[i].name() == name
                &&& forall|j: int| from <= j < i ==> nodes[j].name() != name
            },
            None => forall|j: int| from <= j < nodes.len() ==> nodes[j].name() != name,
        },
    decreases nodes.len() - from,
{
    if from < nodes.len() && nodes[from].name() != name {
        lemma_child_index(nodes, name, from + 1);
    }
}

pub open spec fn items_view(items: Seq<Item>) -> Seq<Node> {
    Seq::new(items.len(), |i: int| items[i]@)
}

impl View for Item {
    type V = Node;

    open spec fn view(&self) -> Node
        decreases self,
    {
        match self {
            Item::File { name } => Node::File { name: name@ },
            Item::Dir { value } => value.view(),
        }
    }
}

impl View for Dir {
    type V = Node;

    open spec fn view(&self) -> Node
        decreases self,
    {
        Node::Dir {
            name: self.spec_name(),
            children: Seq::new(
                self.spec_children().len(),
                |i: int|
                    if 0 <= i < self.spec_children().len() {
                        self.spec_children()[i].view()
                    } else {
                        Node::File { name: Seq::empty() }
                    },
            ),
        }
    }
}

impl Default for Dir {
    /// A directory without a name and without entries.
    fn default() -> (d: Dir)
        ensures
            d@ == (Node::Dir { name: Seq::empty(), children: Seq::empty() }),
    {
        Dir::new(String::new())
    }
}

impl Item {
    /// The entry's own name.
    pub fn name(&self) -> (r: &String)
        ensures
            r@ == self@.name(),
    {
        match self {
            Item::File { name } => name,
            Item::Dir { value } => value.name(),
        }
    }

    /// Whether the entry is a file or a directory.
    pub fn kind(&self) -> (r: Kind)
        ensures
            r == self@.kind(),
    {
        match self {
            Item::File { .. } => Kind::File,
            Item::Dir { .. } => Kind::Directory,
        }
    }
}

impl Dir {
    pub closed spec fn spec_name(&self) -> Seq<char> {
        self.name@
    }

    pub closed spec fn spec_children(&self) -> Seq<Item> {
        self.children@
    }

    /// Every directory value is well-formed.
    #[verifier::type_invariant]
    pub open spec fn valid(&self) -> bool {
        self@.wf()
    }

    pub proof fn lemma_children_view(&self)
        ensures
            self@.children() == items_view(self.spec_children()),
    {
        assert(self@.children() =~= items_view(self.spec_children()));
    }

    pub fn new(name: String) -> (d: Dir)
        ensures
            d@ == (Node::Dir { name: name@, children: Seq::empty() }),
            d@.wf(),
    {
        let d = Dir { name, children: Vec::new() };
        assert(d@.children() =~= Seq::empty());
        d
    }

    pub fn name(&self) -> (r: &String)
        ensures
            r@ == self@.name(),
    {
        &self.name
    }

    pub fn children(&self) -> (r: &Vec<Item>)
        ensures
            r@ == self.spec_children(),
            items_view(r@) == self@.children(),
            self@.wf(),
    {
        proof {
            use_type_invariant(self);
            self.lemma_children_view();
        }
        &self.children
    }

    /// The index of the entry with this name.
    pub fn position(&self, name: &String) -> (r: Option<usize>)
        ensures
            match r {
                Some(i) => child_index(self@.children(), name@, 0) == Some(i as int),
                None => child_index(self@.children(), name@, 0) is None,
            },
    {
        let mut i: usize = 0;
        while i < self.children.len()
            invariant
                0 <= i <= self.children.len(),
                child_index(self@.children(), name@, 0) == child_index(
                    self@.children(),
                    name@,
                    i as int,
                ),
            decreases self.children.len() - i,
        {
            if *self.children[i].name() == *name {
                return Some(i);
            }
            i = i + 1;
        }
        None
    }

    /// How many entries the directory has.
    pub fn len(&self) -> (r: usize)
        ensures
            r == self@.children().len(),
    {
        self.children.len()
    }

    /// The entry at index `i`, if there is one.
    pub fn get(&self, i: usize) -> (r: Option<&Item>)
        ensures
            match r {
                Some(item) => i < self@.children().len() && item@ == self@.children()[i as int],
                None => i >= self@.children().len(),
            },
    {
        if i < self.children.len() {
            Some(&self.children[i])
        } else {
            None
        }
    }

    /// What `path` names in this tree, if anything.
    pub fn kind_at(&self, path: &Vec<String>) -> (r: Option<Kind>)
        ensures
            r == self@.kind_at(path_view(path@)),
    {
        let ghost pv = path_view(path@);
        let mut cur: &Dir = self;
        let mut k: usize = 0;
        assert(pv.skip(0) =~= pv);
        while k < path.len()
            invariant
                k <= path.len(),
                pv == path_view(path@),
                self@.resolve(pv) == cur@.resolve(pv.skip(k as int)),
            decreases path.len() - k,
        {
            let ghost rest = pv.skip(k as int);
            assert(rest[0] == path[k as int]@);
            assert(rest.skip(1) =~= pv.skip(k + 1));
            match cur.position(&path[k]) {
                None => {
                    return None;
                },
                Some(i) => {
                    proof {
                        lemma_child_index(cur@.children(), path[k as int]@, 0);
                    }
                    let ghost child = cur@.children()[i as int];
                    assert(cur@.resolve(rest) == child.resolve(rest.skip(1)));
                    match &cur.children[i] {
                        Item::File { .. } => {
                            assert(child.children().len() == 0);
                            assert(rest.skip(1).len() == path.len() - k - 1);
                            if k + 1 == path.len() {
                                return Some(Kind::File);
                            } else {
                                return None;
                            }
                        },
                        Item::Dir { value } => {
                            cur = value;
                        },
                    }
                },
            }
            k = k + 1;
        }
        Some(Kind::Directory)
    }

    /// Appends an entry unless its name is taken.
    pub fn push(&mut self, item: Item) -> (r: bool)
        ensures
            r == (child_index(old(self)@.children(), item@.name(), 0) is None),
            r ==> final(self)@ == (Node::Dir { name: old(self)@.name(), children: old(self)@.children().push(item@) }),
            !r ==> final(self)@ == old(self)@,
            final(self)@.wf(),
    {
        proof {
            use_type_invariant(&*self);
            lemma_child_index(self@.children(), item@.name(), 0);
        }
        match self.position(item.name()) {
            Some(_) => false,
            None => {
                proof {
                    match &item {
                        Item::Dir { value } => { use_type_invariant(value); },
                        Item::File { .. } => {},
                    }
                }
                let ghost before = old(self)@.children();
                let ghost added = item@;
                let mut items: Vec<Item> = Vec::new();
                core::mem::swap(&mut self.children, &mut items);
                items.push(item);
                proof {
                    let after = items_view(items@);
                    assert(after =~= before.push(added));
                    assert forall|i: int| 0 <= i < after.len() implies (#[trigger] after[i]).wf() by {
                        if i < before.len() {
                            assert(before[i].wf());
                        }
                    }
                    assert(distinct_names(after));
                    let next = Dir { name: self.name, children: items };
                    assert(next@.children() =~= after);
                    assert(next@.wf());
                }
                core::mem::swap(&mut self.children, &mut items);
                assert(self@.children() =~= before.push(added));
                true
            },
        }
    }
}

} // verus!
