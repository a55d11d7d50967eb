//! A small tree to show an explorer with.

use vstd::prelude::*;
use crate::explorer::{DirExplorer, ExplorerState};
use crate::tree::{lemma_child_index, Dir, Item, Node};

verus! {

/// The file node called `name`.
pub open spec fn file(name: Seq<char>) -> Node {
    Node::File { name }
}

/// The demonstration tree.
pub open spec fn demo_tree() -> Node {
    Node::Dir {
        name: "root_kek"@,
        children: seq![
            file("lil_1"@),
            file("lil_2"@),
            file("lil_3"@),
            Node::Dir {
                name: "kek_1"@,
                children: seq![
                    Node::Dir { name: "kek_2"@, children: seq![file("lil_1"@), file("lil_2"@)] },
                    Node::Dir { name: "kek_3"@, children: Seq::empty() },
                    file("lil_1"@),
                ],
            },
        ],
    }
}

/// The names used in the demonstration tree differ from one another.
proof fn lemma_demo_names()
    ensures
        "lil_1"@ != "lil_2"@,
        "lil_1"@ != "lil_3"@,
        "lil_2"@ != "lil_3"@,
        "kek_1"@ != "lil_1"@,
        "kek_1"@ != "lil_2"@,
        "kek_1"@ != "lil_3"@,
        "kek_2"@ != "kek_3"@,
        "kek_2"@ != "lil_1"@,
        "kek_3"@ != "lil_1"@,
{
    reveal_strlit("lil_1");
    reveal_strlit("lil_2");
    reveal_strlit("lil_3");
    reveal_strlit("kek_1");
    reveal_strlit("kek_2");
    reveal_strlit("kek_3");
    assert("lil_1"@[4] != "lil_2"@[4]);
    assert("lil_1"@[4] != "lil_3"@[4]);
    assert("lil_2"@[4] != "lil_3"@[4]);
    assert("kek_1"@[0] != "lil_1"@[0]);
    assert("kek_1"@[0] != "lil_2"@[0]);
    assert("kek_1"@[0] != "lil_3"@[0]);
    assert("kek_2"@[4] != "kek_3"@[4]);
    assert("kek_2"@[0] != "lil_1"@[0]);
    assert("kek_3"@[0] != "lil_1"@[0]);
}

/// Appends `item` to `dir`, where no entry of `dir` has its name yet.
fn push_new(dir: &mut Dir, item: Item)
    requires
        forall|i: int|
            0 <= i < old(dir)@.children().len() ==> old(dir)@.children()[i].name() != item@.name(),
    ensures
        final(dir)@ == (Node::Dir {
            name: old(dir)@.name(),
            children: old(dir)@.children().push(item@),
        }),
{
    proof {
        lemma_child_index(dir@.children(), item@.name(), 0);
    }
    dir.push(item);
}

/// An explorer on the demonstration tree.
pub fn demo() -> (r: DirExplorer)
    ensures
        r@ == ExplorerState::opened(demo_tree()),
{
    proof {
        lemma_demo_names();
    }
    let mut kek_2 = Dir::new("kek_2".to_owned());
    push_new(&mut kek_2, Item::File { name: "lil_1".to_owned() });
    push_new(&mut kek_2, Item::File { name: "lil_2".to_owned() });
    assert(kek_2@.children() =~= seq![file("lil_1"@), file("lil_2"@)]);

    let kek_3 = Dir::new("kek_3".to_owned());

    let mut kek_1 = Dir::new("kek_1".to_owned());
    push_new(&mut kek_1, Item::Dir { value: kek_2 });
    push_new(&mut kek_1, Item::Dir { value: kek_3 });
    push_new(&mut kek_1, Item::File { name: "lil_1".to_owned() });
    assert(kek_1@.children() =~= seq![kek_2@, kek_3@, file("lil_1"@)]);

    let mut root = Dir::new("root_kek".to_owned());
    push_new(&mut root, Item::File { name: "lil_1".to_owned() });
    push_new(&mut root, Item::File { name: "lil_2".to_owned() });
    push_new(&mut root, Item::File { name: "lil_3".to_owned() });
    push_new(&mut root, Item::Dir { value: kek_1 });
    assert(root@.children() =~= seq![file("lil_1"@), file("lil_2"@), file("lil_3"@), kek_1@]);
    assert(root@ == demo_tree());
    DirExplorer::new(root)
}

} // verus!
