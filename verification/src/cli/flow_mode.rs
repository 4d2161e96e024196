//! Running one flow: what it starts with, and what is printed of it.
use crate::flow::executor::FlowRun;
use crate::flow::model::FlowContext;
use crate::flow::record::StepRecord;
use crate::json;
use crate::json::Json;
use crate::text;
use vstd::prelude::*;

verus! {

/// The context with the value that a pair gives, or what is wrong with the pair.
pub open spec fn with_pair(
    context: Map<Seq<char>, json::JsonView>,
    pair: Seq<char>,
) -> Result<Map<Seq<char>, json::JsonView>, Seq<char>> {
    match text::spec_find(pair, "="@) {
        None => Err("--flow-context expects KEY=VALUE, got `"@ + pair + "`"@),
        Some(i) => if i == 0 {
            Err("--flow-context key must not be empty in `"@ + pair + "`"@)
        } else {
            Ok(context.insert(pair.take(i), crate::ai::wire::js(pair.skip(i + 1))))
        },
    }
}

/// The context that a flow starts with: the working directory, and what the pairs
/// give; or what is wrong with the first bad one.
pub open spec fn context_of(cwd: Seq<char>, pairs: Seq<Seq<char>>) -> Result<
    Map<Seq<char>, json::JsonView>,
    Seq<char>,
>
    decreases pairs.len(),
{
    if pairs.len() == 0 {
        Ok(map!["cwd"@ => crate::ai::wire::js(cwd)])
    } else {
        match context_of(cwd, pairs.drop_last()) {
            Err(e) => Err(e),
            Ok(context) => with_pair(context, pairs.last()),
        }
    }
}

/// What a context, or an error, stands for.
pub open spec fn context_view(r: Result<FlowContext, String>) -> Result<
    Map<Seq<char>, json::JsonView>,
    Seq<char>,
> {
    match r {
        Ok(context) => Ok(context.deep_view()),
        Err(e) => Err(e@),
    }
}

proof fn lemma_first_error_stays(cwd: Seq<char>, pairs: Seq<Seq<char>>, n: int)
    requires
        0 <= n <= pairs.len(),
        context_of(cwd, pairs.take(n)) is Err,
    ensures
        context_of(cwd, pairs) == context_of(cwd, pairs.take(n)),
    decreases pairs.len(),
{
    if n == pairs.len() {
        assert(pairs.take(n) =~= pairs);
    } else {
        assert(pairs.drop_last().take(n) =~= pairs.take(n));
        lemma_first_error_stays(cwd, pairs.drop_last(), n);
    }
}

/// The context that a flow starts with.
pub fn flow_context(cwd: &str, pairs: &[String]) -> (r: Result<FlowContext, String>)
    ensures
        context_view(r) == context_of(cwd@, pairs.deep_view()),
{
    let mut context = FlowContext::new();
    context.set("cwd", Json::text(cwd));
    assert(context.deep_view() =~= map!["cwd"@ => crate::ai::wire::js(cwd@)]);
    let ghost view = pairs.deep_view();
    let mut i: usize = 0;
    assert(view.take(0) =~= seq![]);
    while i < pairs.len()
        invariant
            i <= pairs@.len(),
            view == pairs.deep_view(),
            context_of(cwd@, view.take(i as int)) == Ok::<
                Map<Seq<char>, json::JsonView>,
                Seq<char>,
            >(context.deep_view()),
        decreases pairs.len() - i,
    {
        assert(view.take(i + 1).drop_last() =~= view.take(i as int));
        assert(view[i as int] == pairs@[i as int]@);
        let pair = pairs[i].as_str();
        match text::find(pair, "=") {
            None => {
                proof {
                    lemma_first_error_stays(cwd@, view, i + 1);
                }
                return Err(text::concat3("--flow-context expects KEY=VALUE, got `", pair, "`"));
            },
            Some(at) => {
                if at == 0 {
                    proof {
                        lemma_first_error_stays(cwd@, view, i + 1);
                    }
                    return Err(
                        text::concat3("--flow-context key must not be empty in `", pair, "`"),
                    );
                }
                proof {
                    reveal_strlit("=");
                    text::lemma_find_from(pair@, "="@, 0);
                }
                let n = text::count(pair);
                let key = text::sub_string(pair, 0, at);
                let value = text::sub_string(pair, at + 1, n);
                assert(key@ =~= pair@.take(at as int));
                assert(value@ =~= pair@.skip(at + 1));
                context.set(&key, Json::Str(value));
            },
        }
        i += 1;
    }
    assert(view.take(view.len() as int) =~= view);
    Ok(context)
}

// ----------------------------------------------------------------------- report
/// What the output of a step shows: the content of a prompt or tool, or the
/// answer of the user.
pub open spec fn output_lines(output: Option<json::JsonView>) -> Seq<Seq<char>> {
    match output {
        None => seq![],
        Some(o) => match o.text_field("content"@) {
            Some(content) => seq!["    "@ + content],
            None => match o.text_field("answer"@) {
                Some(answer) => seq!["    answer: "@ + answer],
                None => seq![],
            },
        },
    }
}

/// What is printed of a step.
pub open spec fn step_lines(step: crate::flow::record::RecordView) -> Seq<Seq<char>> {
    seq!["["@ + step.status.word() + "] "@ + step.name] + output_lines(step.output) + (
    match step.error {
        Some(e) => seq!["    error: "@ + e],
        None => seq![],
    })
}

/// What is printed of steps.
pub open spec fn steps_lines(steps: Seq<crate::flow::record::RecordView>) -> Seq<Seq<char>>
    decreases steps.len(),
{
    if steps.len() == 0 {
        seq![]
    } else {
        steps_lines(steps.drop_last()) + step_lines(steps.last())
    }
}

/// What is printed of a flow that ran to its end.
pub open spec fn report_of(
    name: Seq<char>,
    steps: Seq<crate::flow::record::RecordView>,
) -> Seq<Seq<char>> {
    steps_lines(steps).push(
        "flow "@ + name + ": "@ + if crate::cli::slack::any_failed(steps) {
            "FAILED"@
        } else {
            "OK"@
        },
    )
}

fn put_step(out: &mut Vec<String>, step: &StepRecord)
    ensures
        final(out).deep_view() == old(out).deep_view() + step_lines(step.deep_view()),
{
    let ghost first = out.deep_view();
    text::put(out, text::concat4("[", step.status.as_str(), "] ", &step.name));
    match &step.output {
        None => {},
        Some(o) => match o.get_str("content") {
            Some(content) => {
                text::put(out, text::concat("    ", content));
            },
            None => match o.get_str("answer") {
                Some(answer) => {
                    text::put(out, text::concat("    answer: ", answer));
                },
                None => {},
            },
        },
    }
    match &step.error {
        Some(e) => {
            text::put(out, text::concat("    error: ", e));
        },
        None => {},
    }
    assert(out.deep_view() =~= first + step_lines(step.deep_view()));
}

/// What is printed of a flow that ran to its end, and whether a step failed.
pub fn flow_report(name: &str, steps: &[StepRecord]) -> (r: (Vec<String>, bool))
    ensures
        r.0.deep_view() == report_of(name@, steps.deep_view()),
        r.1 == crate::cli::slack::any_failed(steps.deep_view()),
{
    let ghost view = steps.deep_view();
    let mut out: Vec<String> = Vec::new();
    let mut i: usize = 0;
    assert(out.deep_view() =~= seq![]);
    assert(view.take(0) =~= seq![]);
    while i < steps.len()
        invariant
            i <= steps@.len(),
            view == steps.deep_view(),
            out.deep_view() == steps_lines(view.take(i as int)),
        decreases steps.len() - i,
    {
        assert(view.take(i + 1).drop_last() =~= view.take(i as int));
        assert(view[i as int] == steps@[i as int].deep_view());
        put_step(&mut out, &steps[i]);
        i += 1;
    }
    assert(view.take(view.len() as int) =~= view);
    let failed = crate::cli::slack::has_failed(steps);
    let word = if failed {
        "FAILED"
    } else {
        "OK"
    };
    text::put(&mut out, text::concat4("flow ", name, ": ", word));
    (out, failed)
}

/// What is printed when a flow starts.
pub fn flow_header(name: &str) -> (r: String)
    ensures
        r@ == "flow: "@ + name@,
{
    text::concat("flow: ", name)
}

/// What comes of a flow: what is printed of it and whether a step failed, or the
/// error with which it was aborted.
pub open spec fn mode_result(
    name: Seq<char>,
    run: Result<crate::flow::executor::RunView, Seq<char>>,
) -> Result<(Seq<Seq<char>>, bool), Seq<char>> {
    match run {
        Ok(run) => Ok((report_of(name, run.steps), crate::cli::slack::any_failed(run.steps))),
        Err(e) => Err("flow failed: "@ + e),
    }
}

/// What comes of the flow `name`.
pub fn run_flow_mode(name: &str, run: Result<&FlowRun, String>) -> (r: Result<
    (Vec<String>, bool),
    String,
>)
    ensures
        (match r {
            Ok(report) => Ok((report.0.deep_view(), report.1)),
            Err(e) => Err(e@),
        }) == mode_result(
            name@,
            match run {
                Ok(run) => Ok(run.deep_view()),
                Err(e) => Err(e@),
            },
        ),
{
    match run {
        Ok(run) => Ok(flow_report(name, run.steps.as_slice())),
        Err(e) => Err(text::concat("flow failed: ", &e)),
    }
}

/// A pair gives its key the text behind its first `=`, over what an earlier pair
/// or the working directory gave it.
pub proof fn law_later_pairs_win(
    cwd: Seq<char>,
    pairs: Seq<Seq<char>>,
    key: Seq<char>,
    value: Seq<char>,
)
    requires
        context_of(cwd, pairs) is Ok,
        key.len() > 0,
        !key.contains('='),
    ensures
        ({
            let all = context_of(cwd, pairs.push(key + "="@ + value));
            &&& all is Ok
            &&& all->Ok_0.contains_key(key)
            &&& all->Ok_0[key] == crate::ai::wire::js(value)
        }),
{
    let pair = key + "="@ + value;
    reveal_strlit("=");
    let all = pairs.push(pair);
    assert(all.drop_last() =~= pairs);
    text::lemma_find_from(pair, "="@, 0);
    let at = key.len() as int;
    assert(pair.subrange(at, at + 1) =~= "="@);
    assert(text::matches_at(pair, "="@, at));
    let found = text::spec_find(pair, "="@);
    assert(found is Some);
    if found->0 < at {
        let k = found->0;
        assert(pair.subrange(k, k + 1)[0] == key[k]);
        assert(key.contains(key[k]));
    }
    assert(found->0 == at);
    assert(pair.take(at) =~= key);
    assert(pair.skip(at + 1) =~= value);
}

} // verus!
