//! The set of templates of one source directory.
//!
//! Loading is done here, with the engine behind the boundary. Rendering is
//! not: the engine may fail to return from a render (a template that
//! includes itself, for one), and what it renders may depend on the
//! environment of the process, since its function `get_env` stays
//! registered. So a render is no function of the template and the context
//! alone, and the call is left to the application. The library says which
//! names may be handed to the engine and what is made of its answers.

use vstd::prelude::*;
use crate::engine::{engine_add_all, engine_empty, engine_parse, parse_result, registry_templates};
use crate::links::{
    check_links, clone_links, link_faults, no_links, parse_view, LinkEntry, Links, TemplateLinks,
    table_view,
};
use crate::naming::{has_template_extension, is_template_name};
use crate::path::{join, joined, path_view};

verus! {

/// One template file: its path below the source directory and its text.
pub struct TemplateSource {
    pub name: String,
    pub content: String,
}

/// What is wrong with one template.
pub struct TemplateFault {
    pub template: String,
    pub message: String,
}

/// A fault in mathematical form.
pub ghost struct Fault {
    pub template: Seq<char>,
    pub message: Seq<char>,
}

impl View for TemplateFault {
    type V = Fault;

    open spec fn view(&self) -> Fault {
        Fault { template: self.template@, message: self.message@ }
    }
}

pub open spec fn faults_view(faults: Seq<TemplateFault>) -> Seq<Fault> {
    Seq::new(faults.len(), |i: int| faults[i]@)
}

/// Why a set of templates could not be loaded: every fault that was found.
pub struct TemplateLoadError {
    pub faults: Vec<TemplateFault>,
}

/// Why a template could not be rendered.
pub enum RenderError {
    TemplateNotFound { name: String },
    Render { template: String, message: String },
}

/// A render error in mathematical form.
pub ghost enum RenderFailure {
    TemplateNotFound { name: Seq<char> },
    Render { template: Seq<char>, message: Seq<char> },
}

impl View for RenderError {
    type V = RenderFailure;

    open spec fn view(&self) -> RenderFailure {
        match self {
            RenderError::TemplateNotFound { name } => RenderFailure::TemplateNotFound {
                name: name@,
            },
            RenderError::Render { template, message } => RenderFailure::Render {
                template: template@,
                message: message@,
            },
        }
    }
}

/// Template sources as pairs of a name and a text.
pub open spec fn sources_view(sources: Seq<TemplateSource>) -> Seq<(Seq<char>, Seq<char>)> {
    Seq::new(sources.len(), |i: int| (sources[i].name@, sources[i].content@))
}

/// The names of the sources, in order.
pub open spec fn names_of(sources: Seq<(Seq<char>, Seq<char>)>) -> Seq<Seq<char>> {
    Seq::new(sources.len(), |i: int| sources[i].0)
}

/// The sources that are templates by their name, in order.
pub open spec fn discovered(sources: Seq<(Seq<char>, Seq<char>)>) -> Seq<(Seq<char>, Seq<char>)>
    decreases sources.len(),
{
    if sources.len() == 0 {
        Seq::empty()
    } else {
        let rest = discovered(sources.drop_last());
        if is_template_name(sources.last().0) {
            rest.push(sources.last())
        } else {
            rest
        }
    }
}

/// What a registry holds after `sources` were added to one that held
/// `held`: a later source replaces an earlier one of the same name.
pub open spec fn registered(
    held: Map<Seq<char>, Seq<char>>,
    sources: Seq<(Seq<char>, Seq<char>)>,
) -> Map<Seq<char>, Seq<char>>
    decreases sources.len(),
{
    if sources.len() == 0 {
        held
    } else {
        registered(held, sources.drop_last()).insert(sources.last().0, sources.last().1)
    }
}

/// The names in the order in which each first occurs.
pub open spec fn first_names(names: Seq<Seq<char>>) -> Seq<Seq<char>>
    decreases names.len(),
{
    if names.len() == 0 {
        Seq::empty()
    } else {
        let rest = first_names(names.drop_last());
        if rest.contains(names.last()) {
            rest
        } else {
            rest.push(names.last())
        }
    }
}

/// The parser's message against a source, or nothing if it parses.
pub open spec fn syntax_error(name: Seq<char>, content: Seq<char>) -> Option<Seq<char>> {
    match parse_result(name, content) {
        Ok(_) => None,
        Err(message) => Some(message),
    }
}

/// What the parser makes of each source.
pub open spec fn parses_of(sources: Seq<(Seq<char>, Seq<char>)>) -> Seq<Result<Links, Seq<char>>> {
    Seq::new(sources.len(), |i: int| parse_result(sources[i].0, sources[i].1))
}

/// One fault for each source that did not parse, in order: the source's
/// name with the parser's message. A source beyond the end of `parses` has
/// none.
pub open spec fn faults_of(
    sources: Seq<(Seq<char>, Seq<char>)>,
    parses: Seq<Result<Links, Seq<char>>>,
) -> Seq<Fault>
    decreases sources.len(),
{
    if sources.len() == 0 {
        Seq::empty()
    } else {
        let rest = faults_of(sources.drop_last(), parses);
        let i = sources.len() - 1;
        if i < parses.len() && parses[i] is Err {
            rest.push(Fault { template: sources[i].0, message: parses[i]->Err_0 })
        } else {
            rest
        }
    }
}

/// The faults of the sources that do not parse.
pub open spec fn syntax_faults(sources: Seq<(Seq<char>, Seq<char>)>) -> Seq<Fault> {
    faults_of(sources, parses_of(sources))
}

pub open spec fn parses_view(parses: Seq<Result<TemplateLinks, String>>) -> Seq<
    Result<Links, Seq<char>>,
> {
    Seq::new(parses.len(), |i: int| parse_view(parses[i]))
}

/// The last index of `name` in `names`.
pub open spec fn last_index_of(names: Seq<Seq<char>>, name: Seq<char>) -> Option<int>
    decreases names.len(),
{
    if names.len() == 0 {
        None
    } else if names.last() == name {
        Some(names.len() - 1)
    } else {
        last_index_of(names.drop_last(), name)
    }
}

/// What the template `name` refers to: what the parser found in the last
/// source of that name. A name without a source, and a source that did
/// not parse, refer to nothing.
pub open spec fn links_of(
    name: Seq<char>,
    source_names: Seq<Seq<char>>,
    parses: Seq<Result<Links, Seq<char>>>,
) -> Links {
    match last_index_of(source_names, name) {
        Some(j) => if j < parses.len() && parses[j] is Ok {
            parses[j]->Ok_0
        } else {
            no_links()
        },
        None => no_links(),
    }
}

/// Each of `names` with what its template refers to.
pub open spec fn link_table_of(
    names: Seq<Seq<char>>,
    source_names: Seq<Seq<char>>,
    parses: Seq<Result<Links, Seq<char>>>,
) -> Seq<(Seq<char>, Links)> {
    Seq::new(names.len(), |i: int| (names[i], links_of(names[i], source_names, parses)))
}

/// The templates of `sources`, each once, with what it refers to.
pub open spec fn link_table(sources: Seq<(Seq<char>, Seq<char>)>) -> Seq<(Seq<char>, Links)> {
    link_table_of(first_names(names_of(sources)), names_of(sources), parses_of(sources))
}

pub open spec fn empty_source_message() -> Seq<char> {
    "no templates found"@
}

/// Everything that keeps a set from loading. A source directory without
/// any template file is one fault, under the directory's name. Otherwise
/// the files that could not be read and the sources that do not parse are
/// listed; if there is none of these, the faults in how the templates
/// refer to one another.
pub open spec fn load_faults(
    source_root: Seq<char>,
    unread: Seq<Fault>,
    sources: Seq<(Seq<char>, Seq<char>)>,
) -> Seq<Fault> {
    if unread.len() + sources.len() == 0 {
        seq![Fault { template: source_root, message: empty_source_message() }]
    } else if unread.len() + syntax_faults(sources).len() > 0 {
        unread + syntax_faults(sources)
    } else {
        link_faults(link_table(sources))
    }
}

/// What the engine answered to a render, as plain values.
pub open spec fn answer_view(answer: Result<String, Vec<String>>) -> Result<
    Seq<char>,
    Seq<Seq<char>>,
> {
    match answer {
        Ok(text) => Ok(text@),
        Err(parts) => Err(path_view(parts@)),
    }
}

pub open spec fn result_view(result: Result<String, RenderError>) -> Result<
    Seq<char>,
    RenderFailure,
> {
    match result {
        Ok(text) => Ok(text@),
        Err(e) => Err(e@),
    }
}

/// What rendering `name` comes to, given what the engine answered: the
/// text, or an error that names the template and holds the engine's
/// messages as one line.
pub open spec fn outcome_of(name: Seq<char>, answer: Result<Seq<char>, Seq<Seq<char>>>) -> Result<
    Seq<char>,
    RenderFailure,
> {
    match answer {
        Ok(text) => Ok(text),
        Err(parts) => Err(RenderFailure::Render { template: name, message: joined_messages(parts) }),
    }
}

/// The messages of a failure and of its causes as one line.
pub open spec fn joined_messages(parts: Seq<Seq<char>>) -> Seq<char> {
    joined(parts, seq![':', ' '])
}

/// The index of `name` in `names`.
pub fn find_name(names: &Vec<String>, name: &String) -> (r: Option<usize>)
    ensures
        match r {
            Some(i) => {
                &&& i < names.len()
                &&& names[i as int]@ == name@
                &&& forall|j: int| 0 <= j < i ==> names[j]@ != name@
            },
            None => !path_view(names@).contains(name@),
        },
{
    let mut i: usize = 0;
    while i < names.len()
        invariant
            i <= names.len(),
            forall|j: int| 0 <= j < i ==> path_view(names@)[j] != name@,
        decreases names.len() - i,
    {
        if names[i] == *name {
            assert forall|j: int| 0 <= j < i implies names[j]@ != name@ by {
                assert(path_view(names@)[j] != name@);
            }
            return Some(i);
        }
        i = i + 1;
    }
    None
}

/// The sources that are templates by their name.
pub fn discover_sources(sources: &Vec<TemplateSource>) -> (kept: Vec<TemplateSource>)
    ensures
        sources_view(kept@) == discovered(sources_view(sources@)),
{
    let ghost all = sources_view(sources@);
    let mut kept: Vec<TemplateSource> = Vec::new();
    let mut i: usize = 0;
    assert(all.take(0) =~= Seq::empty());
    assert(sources_view(kept@) =~= Seq::empty());
    while i < sources.len()
        invariant
            i <= sources.len(),
            all == sources_view(sources@),
            sources_view(kept@) == discovered(all.take(i as int)),
        decreases sources.len() - i,
    {
        let ghost before = sources_view(kept@);
        proof {
            let next = all.take(i + 1);
            assert(next.drop_last() =~= all.take(i as int));
            assert(next.last() == all[i as int]);
        }
        if has_template_extension(sources[i].name.as_str()) {
            kept.push(
                TemplateSource {
                    name: sources[i].name.clone(),
                    content: sources[i].content.clone(),
                },
            );
            assert(sources_view(kept@) =~= before.push(all[i as int]));
        }
        i = i + 1;
    }
    assert(all.take(sources.len() as int) =~= all);
    kept
}

/// What the parser makes of each source, in order.
pub fn check_sources(sources: &Vec<TemplateSource>) -> (parses: Vec<Result<TemplateLinks, String>>)
    ensures
        parses_view(parses@) == parses_of(sources_view(sources@)),
{
    let mut parses: Vec<Result<TemplateLinks, String>> = Vec::new();
    let mut i: usize = 0;
    while i < sources.len()
        invariant
            i <= sources.len(),
            parses.len() == i,
            forall|j: int|
                0 <= j < i ==> parses_view(parses@)[j] == parses_of(sources_view(sources@))[j],
        decreases sources.len() - i,
    {
        let ghost before = parses_view(parses@);
        let found = engine_parse(sources[i].name.as_str(), sources[i].content.as_str());
        parses.push(found);
        proof {
            let after = parses_view(parses@);
            assert forall|j: int| 0 <= j < i + 1 implies after[j] == parses_of(
                sources_view(sources@),
            )[j] by {
                if j < i {
                    assert(after[j] == before[j]);
                }
            }
        }
        i = i + 1;
    }
    assert(parses_view(parses@) =~= parses_of(sources_view(sources@)));
    parses
}

/// The faults that `parses` hold against `sources`: for each source that
/// did not parse, in order, the source's name with the message.
pub fn collect_faults(sources: &Vec<TemplateSource>, parses: &Vec<Result<TemplateLinks, String>>) -> (faults:
    Vec<TemplateFault>)
    ensures
        faults_view(faults@) == faults_of(sources_view(sources@), parses_view(parses@)),
{
    let ghost all = sources_view(sources@);
    let ghost found = parses_view(parses@);
    let mut faults: Vec<TemplateFault> = Vec::new();
    let mut i: usize = 0;
    assert(all.take(0) =~= Seq::empty());
    assert(faults_view(faults@) =~= Seq::empty());
    while i < sources.len()
        invariant
            i <= sources.len(),
            all == sources_view(sources@),
            found == parses_view(parses@),
            faults_view(faults@) == faults_of(all.take(i as int), found),
        decreases sources.len() - i,
    {
        let ghost before = faults_view(faults@);
        proof {
            let next = all.take(i + 1);
            assert(next.drop_last() =~= all.take(i as int));
            assert(next[i as int] == all[i as int]);
        }
        if i < parses.len() {
            match &parses[i] {
                Err(message) => {
                    faults.push(
                        TemplateFault {
                            template: sources[i].name.clone(),
                            message: message.clone(),
                        },
                    );
                    assert(faults_view(faults@) =~= before.push(
                        Fault { template: all[i as int].0, message: message@ },
                    ));
                },
                Ok(_) => {},
            }
        }
        i = i + 1;
    }
    assert(all.take(sources.len() as int) =~= all);
    faults
}

/// The index of the last source called `name`.
pub fn find_last(sources: &Vec<TemplateSource>, name: &String) -> (r: Option<usize>)
    ensures
        match r {
            Some(j) => j < sources.len() && last_index_of(names_of(sources_view(sources@)), name@)
                == Some(j as int),
            None => last_index_of(names_of(sources_view(sources@)), name@) is None,
        },
{
    let ghost all = names_of(sources_view(sources@));
    let mut i: usize = sources.len();
    assert(all.take(i as int) =~= all);
    while i > 0
        invariant
            i <= sources.len(),
            all == names_of(sources_view(sources@)),
            last_index_of(all, name@) == last_index_of(all.take(i as int), name@),
        decreases i,
    {
        i = i - 1;
        proof {
            let upto = all.take(i + 1);
            assert(upto.drop_last() =~= all.take(i as int));
            assert(upto.last() == sources[i as int].name@);
        }
        if sources[i].name == *name {
            return Some(i);
        }
    }
    None
}

/// Each of `names` with what its template refers to: what `parses` holds
/// for the last source of that name.
pub fn build_link_table(
    names: &Vec<String>,
    sources: &Vec<TemplateSource>,
    parses: &Vec<Result<TemplateLinks, String>>,
) -> (table: Vec<LinkEntry>)
    ensures
        table_view(table@) == link_table_of(
            path_view(names@),
            names_of(sources_view(sources@)),
            parses_view(parses@),
        ),
{
    let ghost want = link_table_of(
        path_view(names@),
        names_of(sources_view(sources@)),
        parses_view(parses@),
    );
    let mut table: Vec<LinkEntry> = Vec::new();
    let mut i: usize = 0;
    while i < names.len()
        invariant
            i <= names.len(),
            table.len() == i,
            want == link_table_of(
                path_view(names@),
                names_of(sources_view(sources@)),
                parses_view(parses@),
            ),
            forall|k: int| 0 <= k < i ==> table_view(table@)[k] == want[k],
        decreases names.len() - i,
    {
        let ghost before = table_view(table@);
        let nothing = TemplateLinks { parent: None, imports: Vec::new() };
        assert(path_view(nothing.imports@) =~= Seq::empty());
        let links = match find_last(sources, &names[i]) {
            Some(j) => if j < parses.len() {
                assert(parses_view(parses@)[j as int] == parse_view(parses[j as int]));
                match &parses[j] {
                    Ok(found) => clone_links(found),
                    Err(_) => nothing,
                }
            } else {
                nothing
            },
            None => nothing,
        };
        table.push(LinkEntry { name: names[i].clone(), links });
        proof {
            let after = table_view(table@);
            assert forall|k: int| 0 <= k < i + 1 implies after[k] == want[k] by {
                if k < i {
                    assert(after[k] == before[k]);
                }
            }
        }
        i = i + 1;
    }
    assert(table_view(table@) =~= want);
    table
}

/// The names of the sources, each once, in the order of first occurrence.
pub fn distinct_names(sources: &Vec<TemplateSource>) -> (names: Vec<String>)
    ensures
        path_view(names@) == first_names(names_of(sources_view(sources@))),
{
    let ghost all = names_of(sources_view(sources@));
    let mut names: Vec<String> = Vec::new();
    let mut i: usize = 0;
    assert(all.take(0) =~= Seq::empty());
    assert(path_view(names@) =~= Seq::empty());
    while i < sources.len()
        invariant
            i <= sources.len(),
            all == names_of(sources_view(sources@)),
            path_view(names@) == first_names(all.take(i as int)),
        decreases sources.len() - i,
    {
        let ghost before = path_view(names@);
        proof {
            let next = all.take(i + 1);
            assert(next.drop_last() =~= all.take(i as int));
            assert(next.last() == all[i as int]);
        }
        match find_name(&names, &sources[i].name) {
            Some(at) => {
                assert(before[at as int] == all[i as int]);
            },
            None => {
                names.push(sources[i].name.clone());
                assert(path_view(names@) =~= before.push(all[i as int]));
            },
        }
        i = i + 1;
    }
    assert(all.take(sources.len() as int) =~= all);
    names
}

/// The messages as one line, a colon and a blank between each two.
pub fn join_messages(parts: &Vec<String>) -> (line: String)
    ensures
        line@ == joined_messages(path_view(parts@)),
{
    proof {
        reveal_strlit(": ");
        assert(": "@ =~= seq![':', ' ']);
    }
    join(parts, ": ")
}

/// What rendering `name` comes to, given what the engine answered: the
/// text, or an error that names the template and holds the engine's
/// messages as one line.
pub fn render_outcome(name: &str, answer: &Result<String, Vec<String>>) -> (r: Result<
    String,
    RenderError,
>)
    ensures
        result_view(r) == outcome_of(name@, answer_view(*answer)),
{
    match answer {
        Ok(text) => Ok(text.clone()),
        Err(parts) => Err(
            RenderError::Render { template: name.to_owned(), message: join_messages(parts) },
        ),
    }
}

/// A set of templates in mathematical form.
pub ghost struct TemplateSetModel {
    pub source_root: Seq<char>,
    pub names: Seq<Seq<char>>,
    pub templates: Map<Seq<char>, Seq<char>>,
}

impl TemplateSetModel {
    /// Every name is a template's name and occurs once, and the names are
    /// those of the registered templates.
    pub open spec fn wf(self) -> bool {
        &&& self.names.no_duplicates()
        &&& forall|i: int| 0 <= i < self.names.len() ==> is_template_name(#[trigger] self.names[i])
        &&& self.templates.dom() == self.names.to_set()
    }
}

/// The templates of one source directory, compiled and ready to render.
pub struct TemplateSet {
    source_root: String,
    names: Vec<String>,
    registry: tera::Tera,
}

impl View for TemplateSet {
    type V = TemplateSetModel;

    closed spec fn view(&self) -> TemplateSetModel {
        TemplateSetModel {
            source_root: self.source_root@,
            names: path_view(self.names@),
            templates: registry_templates(self.registry),
        }
    }
}

/// Where no source is at fault, every source parses.
pub proof fn lemma_no_faults_all_parse(
    sources: Seq<(Seq<char>, Seq<char>)>,
    parses: Seq<Result<Links, Seq<char>>>,
)
    requires
        faults_of(sources, parses).len() == 0,
    ensures
        forall|i: int| 0 <= i < sources.len() && i < parses.len() ==> parses[i] is Ok,
    decreases sources.len(),
{
    if sources.len() > 0 {
        lemma_no_faults_all_parse(sources.drop_last(), parses);
    }
}

/// The first names of a list are the list's names, each once.
pub proof fn lemma_first_names(names: Seq<Seq<char>>)
    ensures
        first_names(names).no_duplicates(),
        first_names(names).to_set() == names.to_set(),
    decreases names.len(),
{
    if names.len() == 0 {
        assert(first_names(names).to_set() =~= names.to_set());
    } else {
        let front = names.drop_last();
        let rest = first_names(front);
        lemma_first_names(front);
        let got = first_names(names);
        assert forall|x: Seq<char>| got.to_set().contains(x) <==> names.to_set().contains(x) by {
            if got.to_set().contains(x) {
                let t = choose|t: int| 0 <= t < got.len() && got[t] == x;
                if t < rest.len() {
                    assert(rest[t] == x);
                    assert(rest.to_set().contains(x));
                    assert(front.to_set().contains(x));
                    let j = choose|j: int| 0 <= j < front.len() && front[j] == x;
                    assert(names[j] == x);
                } else {
                    assert(names[names.len() - 1] == x);
                }
            }
            if names.to_set().contains(x) {
                let j = choose|j: int| 0 <= j < names.len() && names[j] == x;
                if j < front.len() {
                    assert(front[j] == x);
                    assert(front.to_set().contains(x));
                    assert(rest.to_set().contains(x));
                    let t = choose|t: int| 0 <= t < rest.len() && rest[t] == x;
                    assert(got[t] == x);
                } else if rest.contains(x) {
                } else {
                    assert(got[rest.len() as int] == x);
                }
            }
        }
        assert(got.to_set() =~= names.to_set());
    }
}

/// What is discovered are templates by name, and registering them gives
/// the registry their names.
pub proof fn lemma_discovered(sources: Seq<(Seq<char>, Seq<char>)>)
    ensures
        forall|i: int|
            0 <= i < discovered(sources).len() ==> is_template_name(
                (#[trigger] discovered(sources)[i]).0,
            ),
        forall|i: int|
            0 <= i < sources.len() && is_template_name((#[trigger] sources[i]).0)
                ==> discovered(sources).contains(sources[i]),
        forall|i: int|
            0 <= i < discovered(sources).len() ==> sources.contains(
                #[trigger] discovered(sources)[i],
            ),
    decreases sources.len(),
{
    if sources.len() > 0 {
        let front = sources.drop_last();
        let rest = discovered(front);
        let got = discovered(sources);
        lemma_discovered(front);
        assert forall|i: int|
            0 <= i < sources.len() && is_template_name(
                (#[trigger] sources[i]).0,
            ) implies got.contains(sources[i]) by {
            if i < front.len() {
                assert(front[i] == sources[i]);
                let t = choose|t: int| 0 <= t < rest.len() && rest[t] == front[i];
                assert(got[t] == sources[i]);
            } else {
                assert(got[rest.len() as int] == sources[i]);
            }
        }
        assert forall|i: int| 0 <= i < got.len() implies sources.contains(#[trigger] got[i]) by {
            if i < rest.len() {
                assert(rest[i] == got[i]);
                let j = choose|j: int| 0 <= j < front.len() && front[j] == rest[i];
                assert(sources[j] == got[i]);
            } else {
                assert(sources[sources.len() - 1] == got[i]);
            }
        }
    }
}

/// The names of a loaded set are the names of the sources that are
/// templates by name: each of them, and nothing else.
pub proof fn lemma_loaded_names(sources: Seq<(Seq<char>, Seq<char>)>, name: Seq<char>)
    ensures
        first_names(names_of(discovered(sources))).contains(name) <==> is_template_name(name)
            && names_of(sources).contains(name),
{
    let found = discovered(sources);
    let names = first_names(names_of(found));
    lemma_first_names(names_of(found));
    lemma_discovered(sources);
    if names.contains(name) {
        assert(names.to_set().contains(name));
        assert(names_of(found).to_set().contains(name));
        let j = choose|j: int| 0 <= j < names_of(found).len() && names_of(found)[j] == name;
        assert(sources.contains(found[j]));
        let k = choose|k: int| 0 <= k < sources.len() && sources[k] == found[j];
        assert(names_of(sources)[k] == name);
    }
    if is_template_name(name) && names_of(sources).contains(name) {
        let k = choose|k: int| 0 <= k < names_of(sources).len() && names_of(sources)[k] == name;
        assert(found.contains(sources[k]));
        let j = choose|j: int| 0 <= j < found.len() && found[j] == sources[k];
        assert(names_of(found)[j] == name);
        assert(names_of(found).to_set().contains(name));
        assert(names.to_set().contains(name));
    }
}

/// Registering sources in an empty registry leaves it with their names.
pub proof fn lemma_registered_names(sources: Seq<(Seq<char>, Seq<char>)>)
    ensures
        registered(Map::empty(), sources).dom() == names_of(sources).to_set(),
    decreases sources.len(),
{
    let names = names_of(sources);
    let got = registered(Map::empty(), sources).dom();
    if sources.len() == 0 {
        assert(got =~= names.to_set());
    } else {
        let front = sources.drop_last();
        lemma_registered_names(front);
        let held = registered(Map::empty(), front).dom();
        assert forall|x: Seq<char>| got.contains(x) <==> names.to_set().contains(x) by {
            if got.contains(x) {
                if x == sources.last().0 {
                    assert(names[names.len() - 1] == x);
                } else {
                    assert(held.contains(x));
                    let j = choose|j: int|
                        0 <= j < names_of(front).len() && names_of(front)[j] == x;
                    assert(names[j] == x);
                }
            }
            if names.to_set().contains(x) {
                let j = choose|j: int| 0 <= j < names.len() && names[j] == x;
                if j < front.len() {
                    assert(names_of(front)[j] == x);
                    assert(names_of(front).to_set().contains(x));
                }
            }
        }
        assert(got =~= names.to_set());
    }
}

impl TemplateSet {
    #[verifier::type_invariant]
    spec fn inv(&self) -> bool {
        self@.wf()
    }

    /// Compiles the templates among `sources`: those whose name ends in the
    /// template ending. `unread` holds the files that were found and could
    /// not be read. The set loads if and only if nothing is at fault; else
    /// every fault comes back in one pass, each under the name of the file
    /// or template that caused it. See `load_faults` for what they are.
    pub fn load(
        source_root: &str,
        sources: &Vec<TemplateSource>,
        unread: Vec<TemplateFault>,
    ) -> (r: Result<TemplateSet, TemplateLoadError>)
        ensures
            r is Ok <==> load_faults(
                source_root@,
                faults_view(unread@),
                discovered(sources_view(sources@)),
            ).len() == 0,
            match r {
                Ok(set) => {
                    &&& set@.wf()
                    &&& set@.source_root == source_root@
                    &&& set@.names == first_names(names_of(discovered(sources_view(sources@))))
                    &&& set@.templates == registered(
                        Map::empty(),
                        discovered(sources_view(sources@)),
                    )
                },
                Err(e) => faults_view(e.faults@) == load_faults(
                    source_root@,
                    faults_view(unread@),
                    discovered(sources_view(sources@)),
                ),
            },
    {
        let found = discover_sources(sources);
        let ghost d = sources_view(found@);
        if unread.len() == 0 && found.len() == 0 {
            let mut faults: Vec<TemplateFault> = Vec::new();
            faults.push(
                TemplateFault {
                    template: source_root.to_owned(),
                    message: "no templates found".to_owned(),
                },
            );
            assert(faults_view(faults@) =~= seq![
                Fault { template: source_root@, message: empty_source_message() },
            ]);
            return Err(TemplateLoadError { faults });
        }
        let parses = check_sources(&found);
        let mut syntax = collect_faults(&found, &parses);
        if unread.len() > 0 || syntax.len() > 0 {
            let mut faults = unread;
            let ghost first = faults_view(faults@);
            let ghost second = faults_view(syntax@);
            let ghost a = faults@;
            let ghost b = syntax@;
            faults.append(&mut syntax);
            assert(faults@ == a + b);
            assert(faults_view(faults@) =~= first + second);
            return Err(TemplateLoadError { faults });
        }
        let names = distinct_names(&found);
        let table = build_link_table(&names, &found, &parses);
        let links = check_links(&table);
        if links.len() > 0 {
            return Err(TemplateLoadError { faults: links });
        }
        let mut registry = engine_empty();
        assert(registry_templates(registry) =~= Map::empty());
        proof {
            lemma_no_faults_all_parse(d, parses_of(d));
            assert forall|i: int| 0 <= i < found.len() implies parse_result(
                found[i].name@,
                found[i].content@,
            ) is Ok by {
                assert(parses_of(d)[i] == parse_result(d[i].0, d[i].1));
            }
        }
        match engine_add_all(&mut registry, &found) {
            Ok(()) => {
                proof {
                    lemma_first_names(names_of(d));
                    lemma_discovered(sources_view(sources@));
                    lemma_registered_names(d);
                    let nv = path_view(names@);
                    assert forall|i: int| 0 <= i < nv.len() implies is_template_name(
                        #[trigger] nv[i],
                    ) by {
                        assert(nv.to_set().contains(nv[i]));
                        assert(names_of(d).to_set().contains(nv[i]));
                        let j = choose|j: int| 0 <= j < names_of(d).len() && names_of(d)[j] == nv[i];
                        assert(is_template_name(d[j].0));
                    }
                }
                Ok(TemplateSet { source_root: source_root.to_owned(), names, registry })
            },
            Err(message) => {
                let mut faults: Vec<TemplateFault> = Vec::new();
                faults.push(TemplateFault { template: source_root.to_owned(), message });
                Err(TemplateLoadError { faults })
            },
        }
    }

    /// The directory the templates were read from.
    pub fn source_root(&self) -> (r: &String)
        ensures
            r@ == self@.source_root,
    {
        &self.source_root
    }

    /// The names of the loaded templates, each once, in the order in which
    /// they were found.
    pub fn names(&self) -> (r: &Vec<String>)
        ensures
            path_view(r@) == self@.names,
            self@.wf(),
    {
        proof {
            use_type_invariant(self);
        }
        &self.names
    }

    /// Whether a template of this name is loaded.
    pub fn has(&self, name: &str) -> (r: bool)
        ensures
            r == self@.names.contains(name@),
    {
        let owned = name.to_owned();
        match find_name(&self.names, &owned) {
            Some(i) => {
                assert(path_view(self.names@)[i as int] == name@);
                true
            },
            None => false,
        }
    }

    /// Whether the template `name` can be handed to the engine: a name
    /// that is not loaded gives `TemplateNotFound`.
    pub fn lookup(&self, name: &str) -> (r: Result<(), RenderError>)
        ensures
            r is Ok <==> self@.names.contains(name@),
            r matches Err(e) ==> e@ == (RenderFailure::TemplateNotFound { name: name@ }),
    {
        if self.has(name) {
            Ok(())
        } else {
            Err(RenderError::TemplateNotFound { name: name.to_owned() })
        }
    }

    /// The engine's registry with the templates of the set, to render
    /// them with.
    pub fn registry(&self) -> (r: &tera::Tera)
        ensures
            registry_templates(*r) == self@.templates,
    {
        &self.registry
    }
}

impl Default for TemplateSet {
    /// A set without templates.
    fn default() -> (r: TemplateSet)
        ensures
            r@.names.len() == 0,
            r@.source_root.len() == 0,
            r@.wf(),
    {
        let registry = engine_empty();
        let names: Vec<String> = Vec::new();
        assert(path_view(names@) =~= Seq::empty());
        assert(path_view(names@).to_set() =~= Set::empty());
        TemplateSet { source_root: String::new(), names, registry }
    }
}

} // verus!
