//! What the templates of a set need of one another. A template may inherit
//! from a parent and may load macros from other files; both must be among
//! the templates, and no template may inherit from itself through its
//! parents.

use vstd::prelude::*;
use vstd::string::*;
use crate::path::{clone_path, path_view};
use crate::template::{faults_view, Fault, TemplateFault};

verus! {

/// What a template refers to, in mathematical form.
pub ghost struct Links {
    pub parent: Option<Seq<char>>,
    pub imports: Seq<Seq<char>>,
}

/// What a template refers to: the template it inherits from, if any, and
/// the files it loads macros from, in the order of the text.
pub struct TemplateLinks {
    pub parent: Option<String>,
    pub imports: Vec<String>,
}

impl View for TemplateLinks {
    type V = Links;

    open spec fn view(&self) -> Links {
        Links {
            parent: match self.parent {
                Some(p) => Some(p@),
                None => None,
            },
            imports: path_view(self.imports@),
        }
    }
}

/// A template's name with what the template refers to.
pub struct LinkEntry {
    pub name: String,
    pub links: TemplateLinks,
}

pub open spec fn table_view(table: Seq<LinkEntry>) -> Seq<(Seq<char>, Links)> {
    Seq::new(table.len(), |i: int| (table[i].name@, table[i].links@))
}

/// A template that refers to nothing.
pub open spec fn no_links() -> Links {
    Links { parent: None, imports: Seq::empty() }
}

/// The first index at or after `from` of the template called `name`.
pub open spec fn index_of(table: Seq<(Seq<char>, Links)>, name: Seq<char>, from: int) -> Option<int>
    decreases table.len() - from,
{
    if from < 0 || from >= table.len() {
        None
    } else if table[from].0 == name {
        Some(from)
    } else {
        index_of(table, name, from + 1)
    }
}

/// What `index_of` finds lies in the table and has the name.
pub proof fn lemma_index_of(table: Seq<(Seq<char>, Links)>, name: Seq<char>, from: int)
    requires
        0 <= from,
    ensures
        match index_of(table, name, from) {
            Some(i) => from <= i < table.len() && table[i].0 == name,
            None => forall|j: int| from <= j < table.len() ==> table[j].0 != name,
        },
    decreases table.len() - from,
{
    if from < table.len() && table[from].0 != name {
        lemma_index_of(table, name, from + 1);
    }
}

/// Whether the parents of the template at index `i` come to an end within
/// `fuel` steps: at a template without a parent, or at a parent that is
/// not in the table.
pub open spec fn chain_ends(table: Seq<(Seq<char>, Links)>, i: int, fuel: nat) -> bool
    decreases fuel,
{
    match table[i].1.parent {
        None => true,
        Some(p) => match index_of(table, p, 0) {
            None => true,
            Some(j) => fuel > 0 && chain_ends(table, j, (fuel - 1) as nat),
        },
    }
}

/// Parents that come to an end within some number of steps do so within
/// any larger number.
pub proof fn lemma_chain_ends_later(table: Seq<(Seq<char>, Links)>, i: int, fuel: nat, more: nat)
    requires
        chain_ends(table, i, fuel),
        fuel <= more,
    ensures
        chain_ends(table, i, more),
    decreases fuel,
{
    match table[i].1.parent {
        None => {},
        Some(p) => match index_of(table, p, 0) {
            None => {},
            Some(j) => {
                lemma_chain_ends_later(table, j, (fuel - 1) as nat, (more - 1) as nat);
            },
        },
    }
}

pub open spec fn missing_parent_message(parent: Seq<char>) -> Seq<char> {
    "inherits from '"@ + parent + "', which is not among the templates"@
}

pub open spec fn missing_import_message(file: Seq<char>) -> Seq<char> {
    "loads macros from '"@ + file + "', which is not among the templates"@
}

pub open spec fn circle_message() -> Seq<char> {
    "inherits from itself through its parents"@
}

/// One fault for each of `imports` that is not in the table, in order.
pub open spec fn import_faults(
    table: Seq<(Seq<char>, Links)>,
    name: Seq<char>,
    imports: Seq<Seq<char>>,
) -> Seq<Fault>
    decreases imports.len(),
{
    if imports.len() == 0 {
        Seq::empty()
    } else {
        let rest = import_faults(table, name, imports.drop_last());
        if index_of(table, imports.last(), 0) is None {
            rest.push(Fault { template: name, message: missing_import_message(imports.last()) })
        } else {
            rest
        }
    }
}

/// The fault of a parent that is not in the table.
pub open spec fn parent_faults(table: Seq<(Seq<char>, Links)>, i: int) -> Seq<Fault> {
    match table[i].1.parent {
        Some(p) => if index_of(table, p, 0) is None {
            seq![Fault { template: table[i].0, message: missing_parent_message(p) }]
        } else {
            Seq::empty()
        },
        None => Seq::empty(),
    }
}

/// The fault of parents that run in a circle: they do not come to an end
/// within as many steps as there are templates.
pub open spec fn circle_faults(table: Seq<(Seq<char>, Links)>, i: int) -> Seq<Fault> {
    if chain_ends(table, i, table.len()) {
        Seq::empty()
    } else {
        seq![Fault { template: table[i].0, message: circle_message() }]
    }
}

/// The faults of the template at index `i`, each under the template's
/// name: a missing parent, then each missing file of macros, then parents
/// that run in a circle.
pub open spec fn entry_faults(table: Seq<(Seq<char>, Links)>, i: int) -> Seq<Fault> {
    parent_faults(table, i) + import_faults(table, table[i].0, table[i].1.imports) + circle_faults(
        table,
        i,
    )
}

/// The faults of the first `k` templates, in order.
pub open spec fn link_faults_upto(table: Seq<(Seq<char>, Links)>, k: int) -> Seq<Fault>
    decreases k,
{
    if k <= 0 {
        Seq::empty()
    } else {
        link_faults_upto(table, k - 1) + entry_faults(table, k - 1)
    }
}

/// The faults of all templates, in order.
pub open spec fn link_faults(table: Seq<(Seq<char>, Links)>) -> Seq<Fault> {
    link_faults_upto(table, table.len() as int)
}

/// What parsing one source gave: what the template refers to, or the
/// parser's message.
pub open spec fn parse_view(parse: Result<TemplateLinks, String>) -> Result<Links, Seq<char>> {
    match parse {
        Ok(links) => Ok(links@),
        Err(message) => Err(message@),
    }
}

/// A copy of what a template refers to.
pub fn clone_links(links: &TemplateLinks) -> (r: TemplateLinks)
    ensures
        r@ == links@,
{
    TemplateLinks {
        parent: match &links.parent {
            Some(p) => Some(p.clone()),
            None => None,
        },
        imports: clone_path(&links.imports),
    }
}

/// The index of the template called `name`.
pub fn find_entry(table: &Vec<LinkEntry>, name: &String) -> (r: Option<usize>)
    ensures
        match r {
            Some(i) => index_of(table_view(table@), name@, 0) == Some(i as int) && i < table.len(),
            None => index_of(table_view(table@), name@, 0) is None,
        },
{
    let mut i: usize = 0;
    while i < table.len()
        invariant
            i <= table.len(),
            index_of(table_view(table@), name@, 0) == index_of(table_view(table@), name@, i as int),
        decreases table.len() - i,
    {
        if table[i].name == *name {
            return Some(i);
        }
        i = i + 1;
    }
    None
}

/// Whether the parents of the template at index `i` come to an end. A
/// template beyond the table has none.
pub fn chain_is_finite(table: &Vec<LinkEntry>, i: usize) -> (r: bool)
    ensures
        i < table.len() ==> r == chain_ends(table_view(table@), i as int, table.len() as nat),
        i >= table.len() ==> r,
{
    if i >= table.len() {
        return true;
    }
    let ghost tv = table_view(table@);
    let mut cur: usize = i;
    let mut left: usize = table.len();
    loop
        invariant
            i < table.len(),
            cur < table.len(),
            left <= table.len(),
            tv == table_view(table@),
            chain_ends(tv, i as int, table.len() as nat) == chain_ends(tv, cur as int, left as nat),
        decreases left,
    {
        match &table[cur].links.parent {
            None => {
                return true;
            },
            Some(p) => {
                assert(tv[cur as int].1.parent == Some(p@));
                match find_entry(table, p) {
                    None => {
                        return true;
                    },
                    Some(j) => {
                        if left == 0 {
                            return false;
                        }
                        cur = j;
                        left = left - 1;
                    },
                }
            },
        }
    }
}

/// The fault that says that `name` inherits from `parent`, which is
/// missing.
fn missing_parent(name: &String, parent: &String) -> (r: TemplateFault)
    ensures
        r@ == (Fault { template: name@, message: missing_parent_message(parent@) }),
{
    let mut message = "inherits from '".to_owned();
    message.append(parent.as_str());
    message.append("', which is not among the templates");
    TemplateFault { template: name.clone(), message }
}

/// The fault that says that `name` loads macros from `file`, which is
/// missing.
fn missing_import(name: &String, file: &String) -> (r: TemplateFault)
    ensures
        r@ == (Fault { template: name@, message: missing_import_message(file@) }),
{
    let mut message = "loads macros from '".to_owned();
    message.append(file.as_str());
    message.append("', which is not among the templates");
    TemplateFault { template: name.clone(), message }
}

/// Appends to `out` the faults of the template at index `i`.
fn push_entry_faults(table: &Vec<LinkEntry>, i: usize, out: &mut Vec<TemplateFault>)
    requires
        i < table.len(),
    ensures
        faults_view(final(out)@) == faults_view(old(out)@) + entry_faults(
            table_view(table@),
            i as int,
        ),
{
    let ghost tv = table_view(table@);
    let ghost start = faults_view(out@);
    let entry = &table[i];
    assert(tv[i as int] == (entry.name@, entry.links@));
    match &entry.links.parent {
        Some(p) => {
            if find_entry(table, p).is_none() {
                out.push(missing_parent(&entry.name, p));
            }
        },
        None => {},
    }
    assert(faults_view(out@) =~= start + parent_faults(tv, i as int));
    let ghost after_parent = faults_view(out@);
    let ghost all = path_view(entry.links.imports@);
    let mut k: usize = 0;
    assert(all.take(0) =~= Seq::empty());
    assert(after_parent + import_faults(tv, entry.name@, all.take(0)) =~= after_parent);
    while k < entry.links.imports.len()
        invariant
            k <= entry.links.imports.len(),
            tv == table_view(table@),
            all == path_view(entry.links.imports@),
            faults_view(out@) == after_parent + import_faults(tv, entry.name@, all.take(k as int)),
        decreases entry.links.imports.len() - k,
    {
        let ghost before = faults_view(out@);
        proof {
            let next = all.take(k + 1);
            assert(next.drop_last() =~= all.take(k as int));
            assert(next.last() == entry.links.imports[k as int]@);
        }
        if find_entry(table, &entry.links.imports[k]).is_none() {
            out.push(missing_import(&entry.name, &entry.links.imports[k]));
            assert(faults_view(out@) =~= before.push(
                Fault {
                    template: entry.name@,
                    message: missing_import_message(entry.links.imports[k as int]@),
                },
            ));
            assert(faults_view(out@) =~= after_parent + import_faults(
                tv,
                entry.name@,
                all.take(k + 1),
            ));
        }
        k = k + 1;
    }
    assert(all.take(entry.links.imports.len() as int) =~= all);
    let ghost after_imports = faults_view(out@);
    if !chain_is_finite(table, i) {
        out.push(
            TemplateFault {
                template: entry.name.clone(),
                message: "inherits from itself through its parents".to_owned(),
            },
        );
    }
    assert(faults_view(out@) =~= after_imports + circle_faults(tv, i as int));
    assert(faults_view(out@) =~= start + entry_faults(tv, i as int));
}

/// The faults in how the templates of `table` refer to one another.
pub fn check_links(table: &Vec<LinkEntry>) -> (faults: Vec<TemplateFault>)
    ensures
        faults_view(faults@) == link_faults(table_view(table@)),
{
    let ghost tv = table_view(table@);
    let mut faults: Vec<TemplateFault> = Vec::new();
    let mut i: usize = 0;
    assert(faults_view(faults@) =~= Seq::empty());
    while i < table.len()
        invariant
            i <= table.len(),
            tv == table_view(table@),
            faults_view(faults@) == link_faults_upto(tv, i as int),
        decreases table.len() - i,
    {
        push_entry_faults(table, i, &mut faults);
        i = i + 1;
    }
    faults
}

} // verus!
