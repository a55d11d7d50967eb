//! Rendering every template of a set in one pass. One template that fails
//! does not stop the others: its error goes to the warnings. The engine is
//! asked elsewhere, once for each template; here its answers are made into
//! the report.

use vstd::prelude::*;
use crate::naming::{output_path, output_path_of};
use crate::path::path_view;
use crate::template::{
    answer_view, outcome_of, render_outcome, result_view, RenderError, RenderFailure, TemplateSet,
};

verus! {

/// One rendered file: where it goes, and its text.
pub struct RenderedFile {
    pub path: String,
    pub content: String,
}

/// One template that could not be rendered, with the reason.
pub struct RenderWarning {
    pub template: String,
    pub error: RenderError,
}

/// What a batch render comes to: the rendered files and the warnings, each
/// in the order of the templates.
pub struct BatchReport {
    pub outputs: Vec<RenderedFile>,
    pub warnings: Vec<RenderWarning>,
}

/// A report in mathematical form.
pub ghost struct ReportModel {
    pub outputs: Seq<(Seq<char>, Seq<char>)>,
    pub warnings: Seq<(Seq<char>, RenderFailure)>,
}

pub open spec fn outputs_view(outputs: Seq<RenderedFile>) -> Seq<(Seq<char>, Seq<char>)> {
    Seq::new(outputs.len(), |i: int| (outputs[i].path@, outputs[i].content@))
}

pub open spec fn warnings_view(warnings: Seq<RenderWarning>) -> Seq<(Seq<char>, RenderFailure)> {
    Seq::new(warnings.len(), |i: int| (warnings[i].template@, warnings[i].error@))
}

impl View for BatchReport {
    type V = ReportModel;

    open spec fn view(&self) -> ReportModel {
        ReportModel {
            outputs: outputs_view(self.outputs@),
            warnings: warnings_view(self.warnings@),
        }
    }
}

pub open spec fn results_view(results: Seq<Result<String, RenderError>>) -> Seq<
    Result<Seq<char>, RenderFailure>,
> {
    Seq::new(results.len(), |i: int| result_view(results[i]))
}

/// The report for templates `names` whose renders came to `results`: each
/// text under its template's output path, each error under its template's
/// name. A template beyond the end of `results` is left out.
pub open spec fn batch_of(
    names: Seq<Seq<char>>,
    results: Seq<Result<Seq<char>, RenderFailure>>,
) -> ReportModel
    decreases names.len(),
{
    if names.len() == 0 {
        ReportModel { outputs: Seq::empty(), warnings: Seq::empty() }
    } else {
        let rest = batch_of(names.drop_last(), results);
        let i = names.len() - 1;
        if i >= results.len() {
            rest
        } else {
            match results[i] {
                Ok(text) => ReportModel {
                    outputs: rest.outputs.push((output_path_of(names[i]), text)),
                    warnings: rest.warnings,
                },
                Err(e) => ReportModel {
                    outputs: rest.outputs,
                    warnings: rest.warnings.push((names[i], e)),
                },
            }
        }
    }
}

pub open spec fn answers_view(answers: Seq<Result<String, Vec<String>>>) -> Seq<
    Result<Seq<char>, Seq<Seq<char>>>,
> {
    Seq::new(answers.len(), |i: int| answer_view(answers[i]))
}

/// What the renders of `names` come to, given the engine's answers, one for
/// each name in order. Where the lists differ in length, the shorter one
/// counts.
pub open spec fn outcomes(
    names: Seq<Seq<char>>,
    answers: Seq<Result<Seq<char>, Seq<Seq<char>>>>,
) -> Seq<Result<Seq<char>, RenderFailure>> {
    Seq::new(
        if names.len() <= answers.len() {
            names.len()
        } else {
            answers.len()
        },
        |i: int| outcome_of(names[i], answers[i]),
    )
}

/// A copy of an error.
pub fn clone_error(error: &RenderError) -> (r: RenderError)
    ensures
        r@ == error@,
{
    match error {
        RenderError::TemplateNotFound { name } => RenderError::TemplateNotFound {
            name: name.clone(),
        },
        RenderError::Render { template, message } => RenderError::Render {
            template: template.clone(),
            message: message.clone(),
        },
    }
}

/// Sorts the results of a batch into rendered files and warnings.
pub fn collect_batch(names: &Vec<String>, results: &Vec<Result<String, RenderError>>) -> (report:
    BatchReport)
    ensures
        report@ == batch_of(path_view(names@), results_view(results@)),
{
    let ghost all = path_view(names@);
    let ghost got = results_view(results@);
    let mut outputs: Vec<RenderedFile> = Vec::new();
    let mut warnings: Vec<RenderWarning> = Vec::new();
    let mut i: usize = 0;
    assert(all.take(0) =~= Seq::empty());
    assert(outputs_view(outputs@) =~= Seq::empty());
    assert(warnings_view(warnings@) =~= Seq::empty());
    while i < names.len()
        invariant
            i <= names.len(),
            all == path_view(names@),
            got == results_view(results@),
            outputs_view(outputs@) == batch_of(all.take(i as int), got).outputs,
            warnings_view(warnings@) == batch_of(all.take(i as int), got).warnings,
        decreases names.len() - i,
    {
        let ghost outputs_before = outputs_view(outputs@);
        let ghost warnings_before = warnings_view(warnings@);
        proof {
            let next = all.take(i + 1);
            assert(next.drop_last() =~= all.take(i as int));
            assert(next[i as int] == names[i as int]@);
        }
        if i < results.len() {
            match &results[i] {
                Ok(text) => {
                    outputs.push(
                        RenderedFile { path: output_path(names[i].as_str()), content: text.clone() },
                    );
                    assert(outputs_view(outputs@) =~= outputs_before.push(
                        (output_path_of(names[i as int]@), text@),
                    ));
                },
                Err(e) => {
                    warnings.push(
                        RenderWarning { template: names[i].clone(), error: clone_error(e) },
                    );
                    assert(warnings_view(warnings@) =~= warnings_before.push(
                        (names[i as int]@, e@),
                    ));
                },
            }
        }
        i = i + 1;
    }
    assert(all.take(names.len() as int) =~= all);
    BatchReport { outputs, warnings }
}

/// The report of a batch over every template of the set, given the
/// engine's answers, one for each template in the order of `names`. This
/// never fails as a whole: each template with an answer ends up either
/// among the outputs, under its output path, or among the warnings, under
/// its name.
pub fn render_all(set: &TemplateSet, answers: &Vec<Result<String, Vec<String>>>) -> (report:
    BatchReport)
    ensures
        report@ == batch_of(set@.names, outcomes(set@.names, answers_view(answers@))),
        answers.len() >= set@.names.len() ==> report@.outputs.len() + report@.warnings.len()
            == set@.names.len(),
{
    let names = set.names();
    let ghost want = outcomes(path_view(names@), answers_view(answers@));
    let mut results: Vec<Result<String, RenderError>> = Vec::new();
    let mut i: usize = 0;
    while i < names.len() && i < answers.len()
        invariant
            i <= names.len(),
            i <= answers.len(),
            results.len() == i,
            want == outcomes(path_view(names@), answers_view(answers@)),
            forall|j: int| 0 <= j < i ==> results_view(results@)[j] == want[j],
        decreases names.len() - i,
    {
        let ghost before = results_view(results@);
        let result = render_outcome(names[i].as_str(), &answers[i]);
        results.push(result);
        proof {
            let after = results_view(results@);
            assert forall|j: int| 0 <= j < i + 1 implies after[j] == want[j] by {
                if j < i {
                    assert(after[j] == before[j]);
                }
            }
        }
        i = i + 1;
    }
    assert(results_view(results@) =~= want);
    let report = collect_batch(names, &results);
    proof {
        if answers.len() >= names.len() {
            lemma_batch_accounts_for_all(set@.names, want);
        }
    }
    report
}

/// Every template with a result is in the report once: among the outputs or
/// among the warnings.
pub proof fn lemma_batch_accounts_for_all(
    names: Seq<Seq<char>>,
    results: Seq<Result<Seq<char>, RenderFailure>>,
)
    requires
        names.len() <= results.len(),
    ensures
        batch_of(names, results).outputs.len() + batch_of(names, results).warnings.len()
            == names.len(),
    decreases names.len(),
{
    if names.len() > 0 {
        lemma_batch_accounts_for_all(names.drop_last(), results);
    }
}

/// The template at index `i` is in the report as its result says: its text
/// under its output path, or its error under its name.
pub proof fn lemma_batch_holds_each(
    names: Seq<Seq<char>>,
    results: Seq<Result<Seq<char>, RenderFailure>>,
    i: int,
)
    requires
        0 <= i < names.len(),
        i < results.len(),
    ensures
        match results[i] {
            Ok(text) => batch_of(names, results).outputs.contains((output_path_of(names[i]), text)),
            Err(e) => batch_of(names, results).warnings.contains((names[i], e)),
        },
    decreases names.len(),
{
    let report = batch_of(names, results);
    let rest = batch_of(names.drop_last(), results);
    let last = names.len() - 1;
    if i == last {
        match results[i] {
            Ok(text) => {
                assert(report.outputs[rest.outputs.len() as int] == (
                    output_path_of(names[i]),
                    text,
                ));
            },
            Err(e) => {
                assert(report.warnings[rest.warnings.len() as int] == (names[i], e));
            },
        }
    } else {
        lemma_batch_holds_each(names.drop_last(), results, i);
        assert(names.drop_last()[i] == names[i]);
        match results[i] {
            Ok(text) => {
                let at = choose|at: int|
                    0 <= at < rest.outputs.len() && rest.outputs[at] == (
                        output_path_of(names[i]),
                        text,
                    );
                assert(report.outputs[at] == rest.outputs[at]);
            },
            Err(e) => {
                let at = choose|at: int|
                    0 <= at < rest.warnings.len() && rest.warnings[at] == (names[i], e);
                assert(report.warnings[at] == rest.warnings[at]);
            },
        }
    }
}

} // verus!
