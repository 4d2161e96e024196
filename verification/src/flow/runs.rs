//! A run does what its flow says: every step in its turn, with what was found before
//! it, and each is recorded.
use crate::agent::session::Mode;
use crate::flow::record::StepStatus;
use vstd::prelude::*;

verus! {

// ------------------------------------------------------------ every step is made
/// Whether the records are those of the first `n` steps: one for each, in their order
/// and with their names. Behind that of a condition may stand those of its branch.
pub open spec fn covers(
    records: Seq<crate::flow::record::RecordView>,
    steps: Seq<crate::flow::model::StepView>,
    n: int,
) -> bool
    decreases n,
{
    if n <= 0 {
        records.len() == 0
    } else {
        exists|k: int|
            #![trigger records.take(k)]
            0 <= k < records.len() && records[k].name == steps[n - 1].name() && covers(
                records.take(k),
                steps,
                n - 1,
            ) && (k + 1 == records.len() || steps[n - 1] is Condition)
    }
}

/// Whether a list of steps is that of the step under way in another list: all steps of
/// a phase, or all of one branch of a condition.
pub open spec fn belongs(
    list: crate::flow::executor::FrameView,
    parent: crate::flow::executor::FrameView,
) -> bool {
    let step = parent.steps[parent.next as int];
    match list.owner {
        crate::flow::executor::OwnerView::Flow => false,
        crate::flow::executor::OwnerView::Phase(name) => step is Phase && name == step.name()
            && list.steps == step->Phase_steps,
        crate::flow::executor::OwnerView::Condition(name) => step is Condition && name
            == step.name() && (list.steps == step->Condition_then || (step->Condition_else_ is Some
            && list.steps == step->Condition_else_->0) || (step->Condition_else_ is None
            && list.steps.len() == 0)),
    }
}

/// Whether a list is that of a phase with a prompt.
pub open spec fn is_prompted(
    list: crate::flow::executor::FrameView,
    parent: crate::flow::executor::FrameView,
) -> bool {
    list.owner is Phase && parent.steps[parent.next as int]->Phase_prompt is Some
}

/// Whether what was recorded in a list of steps is what was done: first the prompt,
/// where the list is that of a phase with a prompt, and then the steps.
pub open spec fn is_recorded(
    list: crate::flow::executor::FrameView,
    parent: crate::flow::executor::FrameView,
) -> bool {
    if is_prompted(list, parent) {
        &&& list.records.len() > 0
        &&& list.records[0].name == list.owner->Phase_0 + ":prompt"@
        &&& covers(list.records.skip(1), list.steps, list.next as int)
    } else {
        covers(list.records, list.steps, list.next as int)
    }
}

/// The lists of steps that are under way, the innermost last.
pub open spec fn lists(
    r: crate::flow::executor::RunnerView,
) -> Seq<crate::flow::executor::FrameView> {
    r.outer.push(r.current)
}

/// Whether what is waited for is for the step under way.
pub open spec fn waits_for_its_step(r: crate::flow::executor::RunnerView) -> bool {
    match r.doing {
        crate::flow::executor::DoingView::Prompt(name) => name == r.step().name(),
        crate::flow::executor::DoingView::Phase(name) => name == r.step().name() && r.step() is Phase
            && r.step()->Phase_prompt is Some,
        crate::flow::executor::DoingView::Ask(name) => name == r.step().name(),
        crate::flow::executor::DoingView::Tool(name) => name == r.step().name(),
        crate::flow::executor::DoingView::Delegate(name) => name == r.step().name(),
        crate::flow::executor::DoingView::Check(check) => check.name == r.step().name(),
        crate::flow::executor::DoingView::Fix(check) => check.name == r.step().name(),
        _ => true,
    }
}

/// Whether a run has done, and recorded, each step before the one under way, in the
/// flow itself and in every list that was entered.
pub open spec fn is_faithful(r: crate::flow::executor::RunnerView) -> bool {
    let all = lists(r);
    &&& waits_for_its_step(r)
    &&& covers(all[0].records, all[0].steps, all[0].next as int)
    &&& forall|i: int|
        1 <= i < all.len() ==> belongs(#[trigger] all[i], all[i - 1]) && is_recorded(
            all[i],
            all[i - 1],
        )
}

/// The steps of the flow itself.
pub open spec fn flow_steps(
    r: crate::flow::executor::RunnerView,
) -> Seq<crate::flow::model::StepView> {
    lists(r)[0].steps
}

proof fn lemma_one_more(
    records: Seq<crate::flow::record::RecordView>,
    record: crate::flow::record::RecordView,
    inner: Seq<crate::flow::record::RecordView>,
    steps: Seq<crate::flow::model::StepView>,
    n: int,
)
    requires
        n >= 0,
        covers(records, steps, n),
        record.name == steps[n].name(),
        inner.len() == 0 || steps[n] is Condition,
    ensures
        covers(records.push(record) + inner, steps, n + 1),
{
    let all = records.push(record) + inner;
    let k = records.len() as int;
    assert(all.take(k) =~= records);
    assert(all[k] == record);
}

proof fn lemma_settled(
    r: crate::flow::executor::RunnerView,
    notes: Seq<crate::flow::executor::NoteView>,
    record: crate::flow::record::RecordView,
    inner: Seq<crate::flow::record::RecordView>,
)
    requires
        r.wf(),
        is_faithful(r),
        r.current.next < r.current.steps.len(),
        record.name == r.step().name(),
        inner.len() == 0 || r.step() is Condition,
    ensures
        ({
            let t = crate::flow::executor::settled(r, notes, record, inner);
            &&& t.runner.doing is Over || is_faithful(t.runner)
            &&& flow_steps(t.runner) == flow_steps(r)
        }),
{
    let t = crate::flow::executor::settled(r, notes, record, inner);
    let before = lists(r);
    let after = lists(t.runner);
    let n = r.outer.len() as int;
    assert(before[n] == r.current);
    assert(after[n] == t.runner.current);
    assert forall|i: int| 0 <= i < n implies #[trigger] after[i] == before[i] by {}
    let new = r.current.records.push(record) + inner;
    if n == 0 {
        lemma_one_more(r.current.records, record, inner, r.current.steps, r.current.next as int);
    } else if !(t.runner.doing is Over) {
        let parent = before[n - 1];
        assert(belongs(before[n], parent) && is_recorded(before[n], parent));
        assert(after[n - 1] == parent);
        if is_prompted(r.current, parent) {
            lemma_one_more(
                r.current.records.skip(1),
                record,
                inner,
                r.current.steps,
                r.current.next as int,
            );
            assert(new.skip(1) =~= r.current.records.skip(1).push(record) + inner);
        } else {
            lemma_one_more(r.current.records, record, inner, r.current.steps, r.current.next as int);
        }
        assert(is_recorded(after[n], after[n - 1]));
    }
    if !(t.runner.doing is Over) {
        assert forall|i: int| 1 <= i < after.len() implies belongs(#[trigger] after[i], after[i - 1])
            && is_recorded(after[i], after[i - 1]) by {
            assert(belongs(before[i], before[i - 1]) && is_recorded(before[i], before[i - 1]));
            if i < n {
                assert(after[i] == before[i] && after[i - 1] == before[i - 1]);
            } else {
                assert(after[i - 1] == before[i - 1]);
            }
        }
    }
}

proof fn lemma_entered(
    r: crate::flow::executor::RunnerView,
    notes: Seq<crate::flow::executor::NoteView>,
    owner: crate::flow::executor::OwnerView,
    steps: Seq<crate::flow::model::StepView>,
    records: Seq<crate::flow::record::RecordView>,
)
    requires
        r.wf(),
        is_faithful(r),
        r.current.next < r.current.steps.len(),
        ({
            let list = crate::flow::executor::FrameView { owner, steps, next: 0, records };
            belongs(list, r.current) && is_recorded(list, r.current)
        }),
    ensures
        ({
            let t = crate::flow::executor::entered(r, notes, owner, steps, records);
            &&& is_faithful(t.runner)
            &&& flow_steps(t.runner) == flow_steps(r)
        }),
{
    let t = crate::flow::executor::entered(r, notes, owner, steps, records);
    let before = lists(r);
    let after = lists(t.runner);
    assert(after.drop_last() =~= before);
    assert forall|i: int| 1 <= i < after.len() implies belongs(#[trigger] after[i], after[i - 1])
        && is_recorded(after[i], after[i - 1]) by {
        if i < before.len() {
            assert(after[i] == before[i] && after[i - 1] == before[i - 1]);
            assert(belongs(before[i], before[i - 1]) && is_recorded(before[i], before[i - 1]));
        } else {
            assert(after[i - 1] == r.current);
        }
    }
    assert(after[0] == before[0]);
}

proof fn lemma_waiting(
    r: crate::flow::executor::RunnerView,
    q: crate::flow::executor::RunnerView,
)
    requires
        is_faithful(r),
        q.outer == r.outer,
        q.current == r.current,
        waits_for_its_step(q),
    ensures
        is_faithful(q),
        flow_steps(q) == flow_steps(r),
{
    assert(lists(q) =~= lists(r));
}

/// A run begins faithfully.
pub proof fn law_runs_begin_faithfully(
    name: Seq<char>,
    budget: Option<usize>,
    steps: Seq<crate::flow::model::StepView>,
    context: Map<Seq<char>, crate::json::JsonView>,
    tools: Seq<Seq<char>>,
    can_ask: bool,
)
    ensures
        ({
            let r = crate::flow::executor::at_start(name, budget, steps, context, tools, can_ask);
            is_faithful(r) && flow_steps(r) == steps
        }),
{
}

/// No step is left out or taken twice: a run that is faithful stays so with every move,
/// until it is over, and the steps of the flow stay what they are. Whatever list it
/// enters is the whole list of a phase, or of a branch of a condition.
pub proof fn law_no_step_is_left_out(
    r: crate::flow::executor::RunnerView,
    reply: crate::flow::executor::ReplyView,
)
    requires
        r.wf(),
        is_faithful(r),
    ensures
        ({
            let t = crate::flow::executor::advanced(r);
            &&& t.runner.doing is Over || is_faithful(t.runner)
            &&& flow_steps(t.runner) == flow_steps(r)
        }),
        ({
            let t = crate::flow::executor::replied(r, reply);
            &&& t.runner.doing is Over || is_faithful(t.runner)
            &&& flow_steps(t.runner) == flow_steps(r)
        }),
{
    lemma_advanced(r);
    lemma_replied(r, reply);
}

proof fn lemma_advanced(r: crate::flow::executor::RunnerView)
    requires
        r.wf(),
        is_faithful(r),
    ensures
        ({
            let t = crate::flow::executor::advanced(r);
            &&& t.runner.doing is Over || is_faithful(t.runner)
            &&& flow_steps(t.runner) == flow_steps(r)
        }),
{
    let t = crate::flow::executor::advanced(r);
    if !(r.doing is Ready) {
    } else if r.current.next < r.current.steps.len() {
        let notes = crate::flow::executor::news(r, StepStatus::Running);
        match r.step() {
            crate::flow::model::StepView::Ask { name, .. } => {
                if r.can_ask {
                    lemma_waiting(r, t.runner);
                } else {
                    lemma_settled(
                        r,
                        notes,
                        crate::flow::record::failure(
                            name,
                            "ask"@,
                            "ask steps require the interactive UI (not available in print mode)"@,
                        ),
                        seq![],
                    );
                }
            },
            crate::flow::model::StepView::Tool { name, tool, .. } => {
                if r.tools.contains(tool) {
                    lemma_waiting(r, t.runner);
                } else {
                    lemma_settled(
                        r,
                        notes,
                        crate::flow::record::failure(name, "tool"@, "unknown tool `"@ + tool + "`"@),
                        seq![],
                    );
                }
            },
            crate::flow::model::StepView::Condition { name, if_condition, then, else_ } => {
                lemma_entered(
                    r,
                    notes,
                    crate::flow::executor::OwnerView::Condition(name),
                    crate::flow::executor::branch_of(
                        crate::flow::model::expanded(r.context, if_condition),
                        then,
                        else_,
                    ),
                    seq![],
                );
            },
            crate::flow::model::StepView::Phase { name, prompt, steps } => {
                if prompt is Some {
                    lemma_waiting(r, t.runner);
                } else {
                    lemma_entered(
                        r,
                        notes,
                        crate::flow::executor::OwnerView::Phase(name),
                        steps,
                        seq![],
                    );
                }
            },
            _ => {
                assert(lists(t.runner) =~= lists(r));
                if !(t.runner.doing is Over) {
                    lemma_waiting(r, t.runner);
                }
            },
        }
    } else {
        lemma_closed(r);
    }
}

proof fn lemma_closed(r: crate::flow::executor::RunnerView)
    requires
        r.wf(),
        is_faithful(r),
        r.doing is Ready,
        r.current.next >= r.current.steps.len(),
    ensures
        ({
            let t = crate::flow::executor::advanced(r);
            &&& t.runner.doing is Over || is_faithful(t.runner)
            &&& flow_steps(t.runner) == flow_steps(r)
        }),
{
    let t = crate::flow::executor::advanced(r);
    let done = r.current;
    if done.owner is Flow {
        assert(lists(t.runner) =~= lists(r));
    } else {
        let below = crate::flow::executor::RunnerView {
            outer: r.outer.drop_last(),
            current: r.outer.last(),
            ..r
        };
        let n = r.outer.len() as int;
        assert(lists(below) =~= r.outer);
        assert(lists(r)[n] == done);
        assert(lists(r)[n - 1] == below.current);
        assert(belongs(lists(r)[n], lists(r)[n - 1]));
        assert(r.outer[n - 1] == below.current);
        assert forall|i: int| 0 <= i < below.outer.len() implies #[trigger] below.outer[i]
            == r.outer[i] by {}
        assert forall|i: int| 1 <= i < lists(below).len() implies belongs(
            #[trigger] lists(below)[i],
            lists(below)[i - 1],
        ) && is_recorded(lists(below)[i], lists(below)[i - 1]) by {
            assert(lists(r)[i] == lists(below)[i] && lists(r)[i - 1] == lists(below)[i - 1]);
            assert(belongs(lists(r)[i], lists(r)[i - 1]));
        }
        assert(lists(r)[0] == lists(below)[0]);
        assert(is_faithful(below));
        assert(below.wf()) by {
            assert(r.outer[n - 1].owner is Flow <==> n - 1 == 0);
            assert forall|i: int| 0 <= i < below.outer.len() implies (
            #[trigger] below.outer[i].owner is Flow <==> i == 0) by {
                assert(r.outer[i].owner is Flow <==> i == 0);
            }
        }
        match done.owner {
            crate::flow::executor::OwnerView::Condition(name) => {
                lemma_settled(
                    below,
                    seq![],
                    crate::flow::record::RecordView {
                        name,
                        step_type: "condition"@,
                        status: if done.steps.len() == 0 {
                            StepStatus::Skipped
                        } else {
                            StepStatus::Succeeded
                        },
                        output: Some(
                            crate::ai::wire::jo(
                                map!["branches"@ => crate::flow::record::records_json(
                                    done.records,
                                )],
                            ),
                        ),
                        error: None,
                    },
                    done.records,
                );
            },
            crate::flow::executor::OwnerView::Phase(name) => {
                lemma_settled(
                    below,
                    seq![],
                    crate::flow::record::success(
                        name,
                        "phase"@,
                        crate::ai::wire::jo(
                            map!["steps"@ => crate::flow::record::records_json(done.records)],
                        ),
                    ),
                    seq![],
                );
            },
            _ => {},
        }
    }
}

proof fn lemma_ends_with(
    r: crate::flow::executor::RunnerView,
    q: crate::flow::executor::RunnerView,
    record: crate::flow::record::RecordView,
)
    requires
        r.wf(),
        is_faithful(r),
        r.current.next < r.current.steps.len(),
        q == (crate::flow::executor::RunnerView { context: q.context, ..r }),
        record.name == r.step().name(),
    ensures
        ({
            let t = crate::flow::executor::settled(q, seq![], record, seq![]);
            &&& t.runner.doing is Over || is_faithful(t.runner)
            &&& flow_steps(t.runner) == flow_steps(r)
        }),
{
    lemma_waiting(r, q);
    lemma_settled(q, seq![], record, seq![]);
}

proof fn lemma_replied(
    r: crate::flow::executor::RunnerView,
    reply: crate::flow::executor::ReplyView,
)
    requires
        r.wf(),
        is_faithful(r),
    ensures
        ({
            let t = crate::flow::executor::replied(r, reply);
            &&& t.runner.doing is Over || is_faithful(t.runner)
            &&& flow_steps(t.runner) == flow_steps(r)
        }),
{
    let t = crate::flow::executor::replied(r, reply);
    assert forall|
        q: crate::flow::executor::RunnerView,
        record: crate::flow::record::RecordView,
    |
        r.current.next < r.current.steps.len() && q == (crate::flow::executor::RunnerView {
            context: q.context,
            ..r
        }) && record.name == r.step().name() implies ({
        let t = #[trigger] crate::flow::executor::settled(q, seq![], record, seq![]);
        &&& t.runner.doing is Over || is_faithful(t.runner)
        &&& flow_steps(t.runner) == flow_steps(r)
    }) by {
        lemma_ends_with(r, q, record);
    }
    if let crate::flow::executor::DoingView::Phase(name) = r.doing {
        if let crate::flow::executor::ReplyView::Text(Ok(output)) = reply {
            let inner = name + ":prompt"@;
            let q = crate::flow::executor::storing(
                r,
                inner,
                crate::flow::executor::one_text("output"@, output),
            );
            lemma_waiting(r, q);
            let records = seq![
                crate::flow::record::success(inner, "prompt"@, crate::ai::wire::js(output)),
            ];
            assert(records.skip(1) =~= seq![]);
            lemma_entered(
                q,
                seq![],
                crate::flow::executor::OwnerView::Phase(name),
                r.step()->Phase_steps,
                records,
            );
        }
    } else if !(t.runner.doing is Ready) {
        assert(t.runner.outer == r.outer);
        if !(t.runner.doing is Over) {
            if t.runner.current == r.current {
                lemma_waiting(r, t.runner);
            }
        } else if t.runner.current == r.current {
            assert(lists(t.runner) =~= lists(r));
        }
    }
}

/// A flow that is done has made every one of its steps, in their order.
pub proof fn law_done_flows_made_every_step(r: crate::flow::executor::RunnerView)
    requires
        r.wf(),
        is_faithful(r),
    ensures
        crate::flow::executor::advanced(r).action matches crate::flow::executor::ActionView::Done(run)
            ==> covers(run.steps, flow_steps(r), flow_steps(r).len() as int) && run.flow_name
            == r.name && run.context == r.context && run.fix_rounds == r.fix_rounds,
{
    if crate::flow::executor::advanced(r).action is Done {
        if r.outer.len() > 0 {
            assert(!(r.current.owner is Flow));
        }
        assert(lists(r)[0] == r.current);
    }
}

/// A phase that is through has made every one of its steps, behind its prompt where it
/// has one, and is recorded with what they gave.
pub proof fn law_phases_make_every_step(r: crate::flow::executor::RunnerView)
    requires
        r.wf(),
        is_faithful(r),
        r.doing is Ready,
        r.current.owner is Phase,
        r.current.next == r.current.steps.len(),
    ensures
        ({
            let parent = r.outer.last();
            let phase = parent.steps[parent.next as int];
            let t = crate::flow::executor::advanced(r);
            let record = t.runner.current.records.last();
            let made = if phase->Phase_prompt is Some {
                r.current.records.skip(1)
            } else {
                r.current.records
            };
            &&& phase is Phase
            &&& covers(made, phase->Phase_steps, phase->Phase_steps.len() as int)
            &&& record.name == phase.name()
            &&& record.status == StepStatus::Succeeded
            &&& record.output == Some(
                crate::json::JsonView::Object(
                    map!["steps"@ => crate::flow::record::records_json(r.current.records)],
                ),
            )
            &&& t.runner.current.next == parent.next + 1
        }),
{
    let n = r.outer.len() as int;
    assert(lists(r)[n] == r.current);
    assert(lists(r)[n - 1] == r.outer.last());
    assert(belongs(lists(r)[n], lists(r)[n - 1]) && is_recorded(lists(r)[n], lists(r)[n - 1]));
    assert(r.outer[n - 1] == r.outer.last());
}

// ----------------------------------------------------------------- what steps do
/// A phase without a prompt turns to all of its steps at once, one with a prompt once
/// the prompt was answered; the answer is kept.
pub proof fn law_phases_turn_to_their_steps(
    r: crate::flow::executor::RunnerView,
    answer: Seq<char>,
)
    requires
        r.wf(),
        r.current.next < r.current.steps.len(),
        r.step() is Phase,
    ensures
        r.doing is Ready && r.step()->Phase_prompt is None ==> {
            let t = crate::flow::executor::advanced(r);
            t.action is Go && t.runner.current.steps == r.step()->Phase_steps
                && t.runner.current.next == 0 && t.runner.outer == r.outer.push(r.current)
        },
        r.doing is Ready && r.step()->Phase_prompt is Some ==> {
            let t = crate::flow::executor::advanced(r);
            t.action == (crate::flow::executor::ActionView::Prompt {
                prompt: crate::flow::model::expanded(r.context, r.step()->Phase_prompt->0),
                mode: Mode::Build,
                model: None,
            }) && t.runner.doing is Phase && t.runner.current == r.current
        },
        r.doing is Phase ==> {
            let t = crate::flow::executor::replied(
                r,
                crate::flow::executor::ReplyView::Text(Ok(answer)),
            );
            t.action is Go && t.runner.current.steps == r.step()->Phase_steps
                && t.runner.current.next == 0 && t.runner.outer == r.outer.push(r.current)
                && t.runner.current.records.len() == 1 && t.runner.current.records[0].output
                == Some(crate::json::JsonView::Str(answer))
        },
{
}

/// A condition turns to its first branch where it holds, and else to the other.
pub proof fn law_conditions_turn_to_their_branch(r: crate::flow::executor::RunnerView)
    requires
        r.doing is Ready,
        r.current.next < r.current.steps.len(),
        r.step() is Condition,
    ensures
        ({
            let t = crate::flow::executor::advanced(r);
            let yes = crate::flow::record::holds(
                crate::flow::model::expanded(r.context, r.step()->Condition_if_condition),
            );
            &&& t.action is Go
            &&& t.runner.outer == r.outer.push(r.current)
            &&& t.runner.current.next == 0
            &&& yes ==> t.runner.current.steps == r.step()->Condition_then
            &&& !yes && r.step()->Condition_else_ is Some ==> t.runner.current.steps
                == r.step()->Condition_else_->0
            &&& !yes && r.step()->Condition_else_ is None ==> t.runner.current.steps.len() == 0
        }),
{
}

/// A tool step calls its tool with its arguments, in which the references are replaced;
/// a prompt step prompts with its message, a plan in plan mode; an ask step asks its
/// question; a verify step runs its command in the shell.
pub proof fn law_steps_do_what_they_say(r: crate::flow::executor::RunnerView)
    requires
        r.doing is Ready,
        r.current.next < r.current.steps.len(),
    ensures
        r.step() is Tool && r.tools.contains(r.step()->Tool_tool) && r.step()->Tool_arguments is Some
            ==> crate::flow::executor::advanced(r).action == crate::flow::executor::ActionView::Call(
            crate::agent::call::CallInfoView {
                tool_call_id: r.step().name(),
                name: r.step()->Tool_tool,
                arguments: crate::flow::model::expanded_json(
                    r.context,
                    r.step()->Tool_arguments->0,
                ),
            },
        ),
        r.step() is Prompt && r.step()->Prompt_message is Some ==> crate::flow::executor::advanced(
            r,
        ).action == (crate::flow::executor::ActionView::Prompt {
            prompt: crate::flow::model::expanded(r.context, r.step()->Prompt_message->0),
            mode: if r.step()->Prompt_mode == Some("plan"@) {
                Mode::Plan
            } else {
                Mode::Build
            },
            model: r.step()->Prompt_model,
        }),
        r.step() is Ask && r.can_ask ==> crate::flow::executor::advanced(r).action == (
        crate::flow::executor::ActionView::Ask {
            question: crate::flow::model::expanded(r.context, r.step()->Ask_question),
            options: r.step()->Ask_options,
        }),
        r.step() is Verify && r.tools.contains("bash"@) && r.step()->Verify_command is Some
            ==> crate::flow::executor::advanced(r).action == crate::flow::executor::ActionView::Call(
            crate::agent::call::CallInfoView {
                tool_call_id: "verify-"@ + r.step().name(),
                name: "bash"@,
                arguments: crate::json::JsonView::Object(
                    map!["command"@ => crate::json::JsonView::Str(
                        crate::flow::model::expanded(r.context, r.step()->Verify_command->0),
                    )],
                ),
            },
        ),
        r.step() is Delegate ==> crate::flow::executor::advanced(r).action == (
        crate::flow::executor::ActionView::Delegate {
            prompt: crate::flow::model::expanded(r.context, r.step()->Delegate_prompt),
            schema: r.step()->Delegate_schema,
            tools: r.step()->Delegate_tools,
            max_turns: r.step()->Delegate_max_turns,
        }),
        r.step() is Tool && !r.tools.contains(r.step()->Tool_tool)
            ==> crate::flow::executor::advanced(r).action is Aborted,
        r.step() is Verify && !r.tools.contains("bash"@) ==> crate::flow::executor::advanced(
            r,
        ).action is Aborted,
{
}

/// Whether a step ended with this output, which is kept under its name, and the run
/// goes on with the next step.
pub open spec fn went_well(
    t: crate::flow::executor::TurnView,
    r: crate::flow::executor::RunnerView,
    name: Seq<char>,
    output: crate::json::JsonView,
    kept: crate::json::JsonView,
) -> bool {
    let record = t.runner.current.records.last();
    &&& t.action is Go
    &&& t.runner.current.next == r.current.next + 1
    &&& t.runner.current.records.drop_last() == r.current.records
    &&& record.name == name
    &&& record.status == StepStatus::Succeeded
    &&& record.output == Some(output)
    &&& record.error is None
    &&& t.runner.context == crate::flow::model::stored(r.context, name, kept)
}

/// Whether a step failed for this reason, which gives up the flow unless the step lets
/// it go on.
pub open spec fn went_wrong(
    t: crate::flow::executor::TurnView,
    r: crate::flow::executor::RunnerView,
    name: Seq<char>,
    reason: Seq<char>,
) -> bool {
    let record = t.runner.current.records.last();
    &&& t.runner.current.records.drop_last() == r.current.records
    &&& record.name == name
    &&& record.status == StepStatus::Failed
    &&& record.error == Some(reason)
    &&& crate::flow::executor::goes_on(r.step()) ==> t.action is Go && t.runner.current.next
        == r.current.next + 1
    &&& !crate::flow::executor::goes_on(r.step()) ==> t.action is Aborted
}

/// What comes of a step is recorded and kept under its name: the answer of an agent or
/// of the user, or what a tool gave; and a failure with its reason.
pub proof fn law_replies_are_recorded(
    r: crate::flow::executor::RunnerView,
    name: Seq<char>,
    answer: Seq<char>,
    outcome: crate::agent::call::OutcomeView,
)
    requires
        r.wf(),
        r.current.next < r.current.steps.len(),
    ensures
        r.doing == crate::flow::executor::DoingView::Prompt(name) ==> went_well(
            crate::flow::executor::replied(
                r,
                crate::flow::executor::ReplyView::Text(Ok(answer)),
            ),
            r,
            name,
            crate::json::JsonView::Str(answer),
            crate::json::JsonView::Object(map!["output"@ => crate::json::JsonView::Str(answer)]),
        ) && went_wrong(
            crate::flow::executor::replied(
                r,
                crate::flow::executor::ReplyView::Text(Err(answer)),
            ),
            r,
            name,
            answer,
        ),
        r.doing == crate::flow::executor::DoingView::Ask(name) ==> went_well(
            crate::flow::executor::replied(
                r,
                crate::flow::executor::ReplyView::Answer(Ok(answer)),
            ),
            r,
            name,
            crate::json::JsonView::Object(map!["answer"@ => crate::json::JsonView::Str(answer)]),
            crate::json::JsonView::Object(map!["answer"@ => crate::json::JsonView::Str(answer)]),
        ) && went_wrong(
            crate::flow::executor::replied(
                r,
                crate::flow::executor::ReplyView::Answer(Err(answer)),
            ),
            r,
            name,
            answer,
        ),
        r.doing == crate::flow::executor::DoingView::Tool(name) && !outcome.is_error ==> went_well(
            crate::flow::executor::replied(r, crate::flow::executor::ReplyView::Done(outcome)),
            r,
            name,
            tool_output(outcome),
            tool_output(outcome),
        ),
        r.doing == crate::flow::executor::DoingView::Tool(name) && outcome.is_error ==> went_wrong(
            crate::flow::executor::replied(r, crate::flow::executor::ReplyView::Done(outcome)),
            r,
            name,
            outcome.content,
        ),
        r.doing == crate::flow::executor::DoingView::Tool(name) ==> went_wrong(
            crate::flow::executor::replied(r, crate::flow::executor::ReplyView::Failed(answer)),
            r,
            name,
            answer,
        ) && went_wrong(
            crate::flow::executor::replied(r, crate::flow::executor::ReplyView::Denied(answer)),
            r,
            name,
            "permission denied: "@ + answer,
        ),
{
    let none = Seq::<crate::flow::record::RecordView>::empty();
    assert forall|record: crate::flow::record::RecordView| (#[trigger] r.current.records.push(
        record,
    ) + none) == r.current.records.push(record) by {
        assert(r.current.records.push(record) + none =~= r.current.records.push(record));
    }
    assert forall|record: crate::flow::record::RecordView|
        (#[trigger] r.current.records.push(record)).drop_last() == r.current.records by {
        assert(r.current.records.push(record).drop_last() =~= r.current.records);
    }
}

/// What is kept of a tool: what it gave, and whether that is an error.
pub open spec fn tool_output(outcome: crate::agent::call::OutcomeView) -> crate::json::JsonView {
    crate::json::JsonView::Object(
        map![
            "content"@ => crate::json::JsonView::Str(outcome.content),
            "isError"@ => crate::json::JsonView::Bool(outcome.is_error),
        ],
    )
}

/// A verification that fails while fix rounds are left has an agent fix it, which is
/// shown the command and the failure, and is then run again; that costs one round.
pub proof fn law_failing_checks_are_fixed_and_run_again(
    r: crate::flow::executor::RunnerView,
    check: crate::flow::executor::CheckView,
    outcome: crate::agent::call::OutcomeView,
    answer: Seq<char>,
)
    requires
        r.doing == crate::flow::executor::DoingView::Check(check),
        outcome.is_error,
        check.rounds < check.max,
        r.budget is None || r.fix_rounds < r.budget->0,
        r.fix_rounds < usize::MAX,
    ensures
        ({
            let fix = crate::flow::executor::replied(
                r,
                crate::flow::executor::ReplyView::Done(outcome),
            );
            let again = crate::flow::executor::replied(
                fix.runner,
                crate::flow::executor::ReplyView::Text(Ok(answer)),
            );
            &&& fix.action is Prompt
            &&& fix.action->Prompt_mode == Mode::Build
            &&& exists|a: Seq<char>, b: Seq<char>, c: Seq<char>|
                fix.action->Prompt_prompt == #[trigger] (a + check.command + b + outcome.content
                    + c)
            &&& fix.runner.fix_rounds == r.fix_rounds + 1
            &&& fix.runner.current == r.current
            &&& again.action == crate::flow::executor::ActionView::Call(
                crate::agent::call::CallInfoView {
                    tool_call_id: "verify-"@ + check.name,
                    name: "bash"@,
                    arguments: crate::json::JsonView::Object(
                        map!["command"@ => crate::json::JsonView::Str(
                            crate::flow::model::expanded(r.context, check.command),
                        )],
                    ),
                },
            )
            &&& again.runner.doing matches crate::flow::executor::DoingView::Check(next)
                && next.rounds == check.rounds + 1 && next.max == check.max && next.command
                == check.command
        }),
{
    let fix = crate::flow::executor::replied(r, crate::flow::executor::ReplyView::Done(outcome));
    let left = crate::flow::executor::rounds_left(check, r.budget, r.fix_rounds);
    let a = "The verification command failed. Fix the root cause.\n\nCommand: "@;
    let b = "\n\nOutput:\n"@;
    let c = "\n\nFix rounds remaining: "@ + crate::text::spec_decimal((left - 1) as nat)
        + "\n\nReply with the fix summary when done."@;
    assert(fix.action->Prompt_prompt =~= a + check.command + b + outcome.content + c);
}

} // verus!
