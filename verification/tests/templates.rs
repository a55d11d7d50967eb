use scaffold::context::{Binding, ContextValue, RenderContext};
use scaffold::naming::{has_template_extension, output_path, template_name};
use scaffold::links::{check_links, LinkEntry, TemplateLinks};
use scaffold::pipeline::{clone_error, collect_batch, render_all, BatchReport};
use scaffold::template::{
    build_link_table, check_sources, collect_faults, discover_sources, distinct_names, find_last,
    find_name, join_messages, render_outcome, RenderError, TemplateFault, TemplateSet,
    TemplateSource,
};

fn source(name: &str, content: &str) -> TemplateSource {
    TemplateSource { name: name.to_string(), content: content.to_string() }
}

fn text(value: &str) -> ContextValue {
    ContextValue::Text(value.to_string())
}

fn ask(set: &TemplateSet, name: &str, context: &RenderContext) -> Result<String, Vec<String>> {
    match set.registry().render(name, &context.to_engine()) {
        Ok(text) => Ok(text),
        Err(e) => {
            let mut parts = vec![e.to_string()];
            let mut cause = std::error::Error::source(&e);
            while let Some(c) = cause {
                parts.push(c.to_string());
                cause = c.source();
            }
            Err(parts)
        }
    }
}

fn render(set: &TemplateSet, name: &str, context: &RenderContext) -> Result<String, RenderError> {
    set.lookup(name)?;
    render_outcome(name, &ask(set, name, context))
}

fn render_batch(set: &TemplateSet, context: &RenderContext) -> BatchReport {
    let answers: Vec<Result<String, Vec<String>>> =
        set.names().iter().map(|name| ask(set, name, context)).collect();
    render_all(set, &answers)
}

fn faults_of(sources: Vec<TemplateSource>) -> Vec<(String, String)> {
    match TemplateSet::load("templates", &sources, vec![]) {
        Ok(_) => panic!("expected a load error"),
        Err(e) => e.faults.into_iter().map(|f| (f.template, f.message)).collect(),
    }
}

fn loaded(sources: Vec<TemplateSource>) -> TemplateSet {
    match TemplateSet::load("templates", &sources, vec![]) {
        Ok(set) => set,
        Err(e) => panic!("load failed: {}", e.faults[0].message),
    }
}

#[test]
fn hello_world_round_trip() {
    let set = loaded(vec![source("hello.tera", "Hello, {{name}}!")]);
    let mut context = RenderContext::new();
    context.insert("name".to_string(), text("World"));
    assert_eq!(render(&set, "hello.tera", &context).ok(), Some("Hello, World!".to_string()));
}

#[test]
fn rendering_an_unknown_name_is_template_not_found() {
    let set = loaded(vec![source("hello.tera", "Hello")]);
    match render(&set, "other.tera", &RenderContext::new()) {
        Err(RenderError::TemplateNotFound { name }) => assert_eq!(name, "other.tera"),
        _ => panic!("expected TemplateNotFound"),
    }
    assert!(set.lookup("hello.tera").is_ok());
    assert!(set.has("hello.tera"));
    assert!(!set.has("other.tera"));
    assert!(!set.has("hello"));
}

#[test]
fn a_missing_variable_is_a_render_error_under_the_templates_name() {
    let set = loaded(vec![source("greeting.tera", "Dear {{ name }},")]);
    match render(&set, "greeting.tera", &RenderContext::new()) {
        Err(RenderError::Render { template, message }) => {
            assert_eq!(template, "greeting.tera");
            assert!(message.starts_with("Failed to render 'greeting.tera': "));
            assert!(message.contains("`name`"));
        }
        _ => panic!("expected a render error"),
    }
}

#[test]
fn batch_render_goes_on_after_a_failure() {
    let set = loaded(vec![
        source("good.txt.tera", "Hello, {{name}}!"),
        source("bad.txt.tera", "{{ missing.field }}"),
    ]);
    let mut context = RenderContext::new();
    context.insert("name".to_string(), text("World"));
    let report = render_batch(&set, &context);
    assert_eq!(report.outputs.len(), 1);
    assert_eq!(report.outputs[0].path, "good.txt");
    assert_eq!(report.outputs[0].content, "Hello, World!");
    assert_eq!(report.warnings.len(), 1);
    assert_eq!(report.warnings[0].template, "bad.txt.tera");
    match &report.warnings[0].error {
        RenderError::Render { template, .. } => assert_eq!(template, "bad.txt.tera"),
        _ => panic!("expected a render error"),
    }
}

#[test]
fn batch_render_keeps_the_order_of_the_templates() {
    let set = loaded(vec![
        source("b/two.rs.tera", "2 {{ n }}"),
        source("a/one.rs.tera", "1 {{ n }}"),
        source("c.tera", "{{ nope }}"),
        source("d.tera", "4"),
    ]);
    let mut context = RenderContext::new();
    context.insert("n".to_string(), ContextValue::Number(7));
    let report = render_batch(&set, &context);
    let outputs: Vec<(String, String)> =
        report.outputs.into_iter().map(|o| (o.path, o.content)).collect();
    assert_eq!(
        outputs,
        vec![
            ("b/two.rs".to_string(), "2 7".to_string()),
            ("a/one.rs".to_string(), "1 7".to_string()),
            ("d".to_string(), "4".to_string()),
        ]
    );
    assert_eq!(report.warnings.len(), 1);
    assert_eq!(report.warnings[0].template, "c.tera");
}

#[test]
fn names_are_the_discovered_files() {
    let set = loaded(vec![
        source("src/main.rs.tera", "fn main() {}"),
        source("Cargo.toml.tera", "[package]"),
        source("README.md.tera", "# {{ title }}"),
    ]);
    assert_eq!(set.names(), &vec!["src/main.rs.tera", "Cargo.toml.tera", "README.md.tera"]);
    let paths: Vec<String> = set.names().iter().map(|n| output_path(n)).collect();
    assert_eq!(paths, vec!["src/main.rs", "Cargo.toml", "README.md"]);
    assert_eq!(set.source_root(), "templates");
}

#[test]
fn files_that_are_no_templates_are_not_loaded() {
    let set = loaded(vec![
        source("notes.txt", "{{ broken"),
        source("a.tera", "a"),
        source(".tera", "no stem"),
        source("image.png", ""),
    ]);
    assert_eq!(set.names(), &vec!["a.tera"]);
    assert!(!set.has("notes.txt"));
    let kept = discover_sources(&vec![source("x", ""), source("y.tera", "1"), source("z.tera", "2")]);
    let names: Vec<String> = kept.into_iter().map(|s| s.name).collect();
    assert_eq!(names, vec!["y.tera", "z.tera"]);
}

#[test]
fn a_later_source_replaces_an_earlier_one_of_the_same_name() {
    let sources = vec![source("a.tera", "first"), source("b.tera", "b"), source("a.tera", "second")];
    assert_eq!(distinct_names(&sources), vec!["a.tera", "b.tera"]);
    let set = loaded(sources);
    assert_eq!(set.names(), &vec!["a.tera", "b.tera"]);
    assert_eq!(render(&set, "a.tera", &RenderContext::new()).ok(), Some("second".to_string()));
}

#[test]
fn every_broken_template_is_reported() {
    let sources = vec![
        source("one.tera", "{{ open"),
        source("fine.tera", "fine"),
        source("two.tera", "{% if %}"),
    ];
    match TemplateSet::load("templates", &sources, vec![]) {
        Ok(_) => panic!("expected a load error"),
        Err(e) => {
            assert_eq!(e.faults.len(), 2);
            assert_eq!(e.faults[0].template, "one.tera");
            assert_eq!(e.faults[1].template, "two.tera");
            assert!(!e.faults[0].message.is_empty());
            assert!(!e.faults[1].message.is_empty());
        }
    }
}

#[test]
fn unread_files_are_reported_before_broken_ones() {
    let sources = vec![source("fine.tera", "fine"), source("broken.tera", "{{ open")];
    let unread = vec![TemplateFault {
        template: "locked.tera".to_string(),
        message: "permission denied".to_string(),
    }];
    match TemplateSet::load("templates", &sources, unread) {
        Ok(_) => panic!("expected a load error"),
        Err(e) => {
            assert_eq!(e.faults.len(), 2);
            assert_eq!(e.faults[0].template, "locked.tera");
            assert_eq!(e.faults[0].message, "permission denied");
            assert_eq!(e.faults[1].template, "broken.tera");
        }
    }
    let unread = vec![TemplateFault { template: "x.tera".to_string(), message: "m".to_string() }];
    match TemplateSet::load("templates", &vec![source("fine.tera", "fine")], unread) {
        Ok(_) => panic!("expected a load error"),
        Err(e) => assert_eq!(e.faults.len(), 1),
    }
}

#[test]
fn a_missing_parent_is_reported_under_the_child() {
    let faults = faults_of(vec![
        source("child.tera", "{% extends \"base.tera\" %}"),
        source("plain.tera", "plain"),
    ]);
    assert_eq!(
        faults,
        vec![(
            "child.tera".to_string(),
            "inherits from 'base.tera', which is not among the templates".to_string()
        )]
    );
}

#[test]
fn a_missing_file_of_macros_is_reported_under_the_template() {
    let faults = faults_of(vec![
        source("page.tera", "{% import \"macros.tera\" as m %}{% import \"more.tera\" as n %}x"),
        source("more.tera", "{% macro hi() %}hi{% endmacro hi %}"),
    ]);
    assert_eq!(
        faults,
        vec![(
            "page.tera".to_string(),
            "loads macros from 'macros.tera', which is not among the templates".to_string()
        )]
    );
}

#[test]
fn parents_in_a_circle_are_reported_under_each_template() {
    let faults = faults_of(vec![
        source("a.tera", "{% extends \"b.tera\" %}"),
        source("b.tera", "{% extends \"c.tera\" %}"),
        source("c.tera", "{% extends \"b.tera\" %}"),
        source("d.tera", "{% extends \"d.tera\" %}"),
        source("e.tera", "fine"),
    ]);
    let circle = "inherits from itself through its parents".to_string();
    assert_eq!(
        faults,
        vec![
            ("a.tera".to_string(), circle.clone()),
            ("b.tera".to_string(), circle.clone()),
            ("c.tera".to_string(), circle.clone()),
            ("d.tera".to_string(), circle),
        ]
    );
}

#[test]
fn a_long_line_of_parents_is_no_circle() {
    let set = loaded(vec![
        source("a.tera", "{% extends \"b.tera\" %}{% block x %}a{% endblock %}"),
        source("b.tera", "{% extends \"c.tera\" %}"),
        source("c.tera", "{% extends \"d.tera\" %}"),
        source("d.tera", "<{% block x %}d{% endblock %}>"),
    ]);
    assert_eq!(render(&set, "a.tera", &RenderContext::new()).ok(), Some("<a>".to_string()));
    assert_eq!(render(&set, "c.tera", &RenderContext::new()).ok(), Some("<d>".to_string()));
}

#[test]
fn the_last_source_of_a_name_decides_its_links() {
    let faults = faults_of(vec![
        source("a.tera", "plain"),
        source("b.tera", "b"),
        source("a.tera", "{% extends \"gone.tera\" %}"),
    ]);
    assert_eq!(faults.len(), 1);
    assert_eq!(faults[0].0, "a.tera");
    let set = loaded(vec![
        source("a.tera", "{% extends \"gone.tera\" %}"),
        source("a.tera", "plain"),
    ]);
    assert_eq!(set.names(), &vec!["a.tera"]);
}

#[test]
fn check_links_on_a_table() {
    let entry = |name: &str, parent: Option<&str>, imports: &[&str]| LinkEntry {
        name: name.to_string(),
        links: TemplateLinks {
            parent: parent.map(|p| p.to_string()),
            imports: imports.iter().map(|i| i.to_string()).collect(),
        },
    };
    assert!(check_links(&vec![]).is_empty());
    assert!(check_links(&vec![entry("a", Some("b"), &["b"]), entry("b", None, &[])]).is_empty());
    let faults: Vec<(String, String)> = check_links(&vec![
        entry("a", Some("x"), &["b", "y", "z"]),
        entry("b", Some("c"), &[]),
        entry("c", Some("b"), &["q"]),
    ])
    .into_iter()
    .map(|f| (f.template, f.message))
    .collect();
    let missing = |what: &str, name: &str| {
        format!("{} '{}', which is not among the templates", what, name)
    };
    assert_eq!(
        faults,
        vec![
            ("a".to_string(), missing("inherits from", "x")),
            ("a".to_string(), missing("loads macros from", "y")),
            ("a".to_string(), missing("loads macros from", "z")),
            ("b".to_string(), "inherits from itself through its parents".to_string()),
            ("c".to_string(), missing("loads macros from", "q")),
            ("c".to_string(), "inherits from itself through its parents".to_string()),
        ]
    );
}

#[test]
fn the_link_table_holds_what_the_parser_found() {
    let sources = vec![
        source("a.tera", "{% extends \"b.tera\" %}"),
        source("b.tera", "{% import \"m.tera\" as m %}{% import \"n.tera\" as n %}"),
        source("a.tera", "{{ broken"),
        source("c.tera", "c"),
    ];
    let parses = check_sources(&sources);
    assert!(parses[0].is_ok() && parses[1].is_ok() && parses[2].is_err() && parses[3].is_ok());
    assert_eq!(parses[0].as_ref().ok().and_then(|l| l.parent.clone()), Some("b.tera".to_string()));
    assert_eq!(find_last(&sources, &"a.tera".to_string()), Some(2));
    assert_eq!(find_last(&sources, &"c.tera".to_string()), Some(3));
    assert_eq!(find_last(&sources, &"d.tera".to_string()), None);
    let names = vec!["a.tera".to_string(), "b.tera".to_string(), "zzz".to_string()];
    let table = build_link_table(&names, &sources, &parses);
    assert_eq!(table.len(), 3);
    assert_eq!(table[0].name, "a.tera");
    assert_eq!(table[0].links.parent, None);
    assert_eq!(table[1].links.parent, None);
    assert_eq!(table[1].links.imports, vec!["m.tera", "n.tera"]);
    assert_eq!(table[2].name, "zzz");
    assert!(table[2].links.imports.is_empty());
    let only = vec![source("a.tera", "{% extends \"b.tera\" %}")];
    let first = build_link_table(&names, &only, &parses);
    assert_eq!(first[0].links.parent, Some("b.tera".to_string()));
}

#[test]
fn a_parent_that_is_present_links() {
    let set = loaded(vec![
        source("child.tera", "{% extends \"base.tera\" %}{% block body %}child{% endblock %}"),
        source("base.tera", "[{% block body %}base{% endblock %}]"),
    ]);
    assert_eq!(render(&set, "child.tera", &RenderContext::new()).ok(), Some("[child]".to_string()));
    assert_eq!(render(&set, "base.tera", &RenderContext::new()).ok(), Some("[base]".to_string()));
}

#[test]
fn a_source_without_templates_does_not_load() {
    assert_eq!(
        faults_of(vec![]),
        vec![("templates".to_string(), "no templates found".to_string())]
    );
    assert_eq!(
        faults_of(vec![source("readme.md", "text"), source(".tera", "x")]),
        vec![("templates".to_string(), "no templates found".to_string())]
    );
}

#[test]
fn the_default_set_is_empty() {
    let set = TemplateSet::default();
    assert!(set.names().is_empty());
    assert_eq!(set.source_root(), "");
    let report = render_batch(&set, &RenderContext::new());
    assert!(report.outputs.is_empty());
    assert!(report.warnings.is_empty());
    assert!(set.lookup("a.tera").is_err());
}

#[test]
fn answers_beyond_the_names_and_names_beyond_the_answers_are_left_out() {
    let set = loaded(vec![source("a.tera", "a"), source("b.tera", "b")]);
    let report = render_all(&set, &vec![Ok("A".to_string())]);
    assert_eq!(report.outputs.len(), 1);
    assert_eq!(report.outputs[0].path, "a");
    assert!(report.warnings.is_empty());
    let report = render_all(
        &set,
        &vec![Err(vec!["x".to_string(), "y".to_string()]), Ok("B".to_string()), Ok("C".to_string())],
    );
    assert_eq!(report.outputs.len(), 1);
    assert_eq!(report.outputs[0].path, "b");
    assert_eq!(report.outputs[0].content, "B");
    assert_eq!(report.warnings.len(), 1);
    assert_eq!(report.warnings[0].template, "a.tera");
    match &report.warnings[0].error {
        RenderError::Render { template, message } => {
            assert_eq!(template, "a.tera");
            assert_eq!(message, "x: y");
        }
        _ => panic!("expected a render error"),
    }
}

#[test]
fn check_sources_gives_one_answer_for_each_source() {
    let sources = vec![source("a.tera", "ok {{ x }}"), source("b.tera", "{% for %}")];
    let parses = check_sources(&sources);
    assert_eq!(parses.len(), 2);
    assert!(parses[0].is_ok());
    assert!(parses[1].is_err());
}

#[test]
fn collect_faults_pairs_names_with_messages() {
    let sources = vec![source("a", ""), source("b", ""), source("c", ""), source("d", "")];
    let fine = || Ok(TemplateLinks { parent: None, imports: vec![] });
    let parses = vec![Err("first".to_string()), fine(), Err("third".to_string())];
    let faults: Vec<(String, String)> = collect_faults(&sources, &parses)
        .into_iter()
        .map(|f| (f.template, f.message))
        .collect();
    assert_eq!(
        faults,
        vec![("a".to_string(), "first".to_string()), ("c".to_string(), "third".to_string())]
    );
    assert!(collect_faults(&sources, &vec![]).is_empty());
    assert!(collect_faults(&vec![], &parses).is_empty());
}

#[test]
fn join_messages_puts_a_colon_between() {
    assert_eq!(join_messages(&vec![]), "");
    assert_eq!(join_messages(&vec!["one".to_string()]), "one");
    assert_eq!(
        join_messages(&vec!["one".to_string(), "two".to_string(), "three".to_string()]),
        "one: two: three"
    );
}

#[test]
fn render_outcome_says_what_the_engine_said() {
    assert_eq!(render_outcome("t", &Ok("text".to_string())).ok(), Some("text".to_string()));
    match render_outcome("t", &Err(vec!["a".to_string(), "b".to_string()])) {
        Err(RenderError::Render { template, message }) => {
            assert_eq!(template, "t");
            assert_eq!(message, "a: b");
        }
        _ => panic!("expected a render error"),
    }
}

#[test]
fn collect_batch_sorts_results() {
    let names = vec!["a.tera".to_string(), "b".to_string(), "c.tera".to_string(), "d.tera".to_string()];
    let results = vec![
        Ok("A".to_string()),
        Ok("B".to_string()),
        Err(RenderError::Render { template: "c.tera".to_string(), message: "m".to_string() }),
    ];
    let report = collect_batch(&names, &results);
    let outputs: Vec<(String, String)> =
        report.outputs.into_iter().map(|o| (o.path, o.content)).collect();
    assert_eq!(
        outputs,
        vec![("a".to_string(), "A".to_string()), ("b".to_string(), "B".to_string())]
    );
    assert_eq!(report.warnings.len(), 1);
    assert_eq!(report.warnings[0].template, "c.tera");
    match clone_error(&report.warnings[0].error) {
        RenderError::Render { template, message } => {
            assert_eq!(template, "c.tera");
            assert_eq!(message, "m");
        }
        _ => panic!("expected a render error"),
    }
}

#[test]
fn find_name_gives_the_first_index() {
    let names = vec!["a".to_string(), "b".to_string(), "a".to_string()];
    assert_eq!(find_name(&names, &"a".to_string()), Some(0));
    assert_eq!(find_name(&names, &"b".to_string()), Some(1));
    assert_eq!(find_name(&names, &"c".to_string()), None);
}

#[test]
fn numbers_and_flags_are_not_text() {
    let set = loaded(vec![source(
        "t.tera",
        "{{ count + 1 }} {% if ready %}yes{% else %}no{% endif %} {{ label }}",
    )]);
    let mut context = RenderContext::new();
    context.insert("count".to_string(), ContextValue::Number(41));
    context.insert("ready".to_string(), ContextValue::Flag(false));
    context.insert("label".to_string(), text("41"));
    assert_eq!(render(&set, "t.tera", &context).ok(), Some("42 no 41".to_string()));
    context.insert("ready".to_string(), ContextValue::Flag(true));
    context.insert("count".to_string(), ContextValue::Number(-3));
    assert_eq!(render(&set, "t.tera", &context).ok(), Some("-2 yes 41".to_string()));
}

#[test]
fn lists_and_mappings_nest() {
    let set = loaded(vec![source(
        "t.tera",
        "{% for m in members %}{{ m.name }}={{ m.age }};{% endfor %}{{ owner.tags | length }}{{ owner.tags.1 }}",
    )]);
    let member = |name: &str, age: i64| {
        ContextValue::Mapping(vec![
            Binding { key: "name".to_string(), value: text(name) },
            Binding { key: "age".to_string(), value: ContextValue::Number(age) },
        ])
    };
    let mut context = RenderContext::new();
    context.insert(
        "members".to_string(),
        ContextValue::List(vec![member("ann", 30), member("bob", 25)]),
    );
    context.insert(
        "owner".to_string(),
        ContextValue::Mapping(vec![
            Binding { key: "tags".to_string(), value: ContextValue::List(vec![text("x")]) },
            Binding {
                key: "tags".to_string(),
                value: ContextValue::List(vec![text("p"), text("q"), text("r")]),
            },
        ]),
    );
    assert_eq!(render(&set, "t.tera", &context).ok(), Some("ann=30;bob=25;3q".to_string()));
}

#[test]
fn template_names_and_output_paths() {
    assert!(has_template_extension("foo/bar.rs.tera"));
    assert!(has_template_extension("a.tera"));
    assert!(!has_template_extension(".tera"));
    assert!(!has_template_extension("dir/.tera"));
    assert!(has_template_extension("dir/a.tera"));
    assert!(!has_template_extension("tera"));
    assert!(!has_template_extension("bar.rs"));
    assert!(!has_template_extension("bar.tera.rs"));
    assert!(!has_template_extension("bar.TERA"));
    assert!(!has_template_extension(""));
    assert!(has_template_extension("héllo.tera"));
    assert_eq!(output_path("foo/bar.rs.tera"), "foo/bar.rs");
    assert_eq!(output_path("héllo.tera"), "héllo");
    assert_eq!(output_path("bar.rs"), "bar.rs");
    assert_eq!(output_path(".tera"), ".tera");
    assert_eq!(output_path("dir/.tera"), "dir/.tera");
    assert_eq!(output_path("a.tera.tera"), "a.tera");
    assert_eq!(template_name("foo/bar.rs"), "foo/bar.rs.tera");
    assert_eq!(output_path(&template_name("x/y")), "x/y");
    assert_eq!(template_name(&output_path("x/y.tera")), "x/y.tera");
}
