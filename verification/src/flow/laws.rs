//! What holds of every run of a flow.
use crate::flow::record::StepStatus;
use vstd::prelude::*;

verus! {

/// A runner that is over stays so, whatever it is told.
pub proof fn law_over_is_final(
    r: crate::flow::executor::RunnerView,
    reply: crate::flow::executor::ReplyView,
)
    requires
        r.doing is Over,
    ensures
        crate::flow::executor::advanced(r) == crate::flow::executor::idle(r),
        crate::flow::executor::replied(r, reply) == crate::flow::executor::idle(r),
{
}

/// A verification that still fails when no fix round is left ends the flow: no
/// later step runs, and the reason names the step and the last failure.
pub proof fn law_red_verify_never_ships(
    r: crate::flow::executor::RunnerView,
    outcome: crate::agent::call::OutcomeView,
)
    requires
        r.wf(),
        outcome.is_error,
        r.doing is Check,
        crate::flow::executor::rounds_left(r.doing->Check_0, r.budget, r.fix_rounds) == 0,
    ensures
        ({
            let t = crate::flow::executor::replied(
                r,
                crate::flow::executor::ReplyView::Done(outcome),
            );
            &&& t.runner.doing is Over
            &&& t.action == crate::flow::executor::ActionView::Aborted(
                crate::flow::executor::abort_reason(
                    r.step().name(),
                    Some(
                        crate::flow::executor::exhausted(
                            r.doing->Check_0,
                            r.budget,
                            r.fix_rounds,
                            outcome.content,
                        ),
                    ),
                ),
            )
        }),
{
}

/// A verification that passes takes no fix round.
pub proof fn law_green_verify_spends_nothing(
    r: crate::flow::executor::RunnerView,
    outcome: crate::agent::call::OutcomeView,
)
    requires
        r.doing is Check,
        !outcome.is_error,
    ensures
        crate::flow::executor::replied(
            r,
            crate::flow::executor::ReplyView::Done(outcome),
        ).runner.fix_rounds == r.fix_rounds,
{
}

/// The fix rounds of a flow never exceed its budget.
pub proof fn law_fix_rounds_stay_within_budget(
    r: crate::flow::executor::RunnerView,
    reply: crate::flow::executor::ReplyView,
)
    requires
        r.wf(),
        r.budget matches Some(b) ==> r.fix_rounds <= b,
    ensures
        ({
            let t = crate::flow::executor::advanced(r);
            &&& t.runner.budget == r.budget
            &&& t.runner.budget matches Some(b) ==> t.runner.fix_rounds <= b
        }),
        ({
            let t = crate::flow::executor::replied(r, reply);
            &&& t.runner.budget == r.budget
            &&& t.runner.budget matches Some(b) ==> t.runner.fix_rounds <= b
        }),
{
}

/// A step that fails ends the flow, unless it is one that lets the flow go on.
pub proof fn law_failure_aborts(
    r: crate::flow::executor::RunnerView,
    notes: Seq<crate::flow::executor::NoteView>,
    record: crate::flow::record::RecordView,
    inner: Seq<crate::flow::record::RecordView>,
)
    requires
        record.status == StepStatus::Failed,
    ensures
        crate::flow::executor::goes_on(r.step()) == (crate::flow::executor::settled(
            r,
            notes,
            record,
            inner,
        ).action is Go),
        !crate::flow::executor::goes_on(r.step()) ==> crate::flow::executor::settled(
            r,
            notes,
            record,
            inner,
        ).runner.doing is Over,
{
}

// ------------------------------------------------------------------ progress
/// Whether a step of the flow itself is under way.
pub open spec fn top_step_runs(r: crate::flow::executor::RunnerView) -> bool {
    r.outer.len() > 0 || !(r.doing is Ready || r.doing is Over)
}

/// The index and the name of the step of the flow itself that is under way or
/// next.
pub open spec fn top_step(r: crate::flow::executor::RunnerView) -> (usize, Seq<char>) {
    if r.outer.len() > 0 {
        (r.outer[0].next, r.outer[0].steps[r.outer[0].next as int].name())
    } else {
        (r.current.next, r.step().name())
    }
}

/// The progress among the notes.
pub open spec fn progress_in(
    notes: Seq<crate::flow::executor::NoteView>,
) -> Seq<crate::flow::executor::ProgressView>
    decreases notes.len(),
{
    if notes.len() == 0 {
        seq![]
    } else {
        match notes.last() {
            crate::flow::executor::NoteView::Progress(p) => progress_in(notes.drop_last()).push(p),
            _ => progress_in(notes.drop_last()),
        }
    }
}

/// Whether the progress that a move tells fits: a step of the flow itself that
/// begins is told as running first, and one that ends is told last with how it
/// ended; both by its index and name, and nothing else is told.
pub open spec fn progress_fits(
    before: crate::flow::executor::RunnerView,
    t: crate::flow::executor::TurnView,
) -> bool {
    let told = progress_in(t.notes);
    let (index, name) = top_step(before);
    let running = crate::flow::executor::ProgressView {
        step_index: index,
        step_name: name,
        status: StepStatus::Running,
    };
    let begins = !top_step_runs(before) && before.doing is Ready && before.current.next
        < before.current.steps.len();
    let first: Seq<crate::flow::executor::ProgressView> = if begins {
        seq![running]
    } else {
        seq![]
    };
    ||| told == first
    ||| {
        &&& told.len() == first.len() + 1
        &&& told.drop_last() == first
        &&& told.last().step_index == index
        &&& told.last().step_name == name
        &&& told.last().status != StepStatus::Running
        &&& !top_step_runs(t.runner)
    }
}

proof fn lemma_settled_progress(
    r: crate::flow::executor::RunnerView,
    notes: Seq<crate::flow::executor::NoteView>,
    record: crate::flow::record::RecordView,
    inner: Seq<crate::flow::record::RecordView>,
)
    ensures
        progress_in(crate::flow::executor::settled(r, notes, record, inner).notes) == (
        if r.outer.len() == 0 {
            progress_in(notes).push(
                crate::flow::executor::ProgressView {
                    step_index: r.current.next,
                    step_name: r.step().name(),
                    status: record.status,
                },
            )
        } else {
            progress_in(notes)
        }),
{
    let all = crate::flow::executor::settled(r, notes, record, inner).notes;
    let news = crate::flow::executor::news(r, record.status);
    assert(all.drop_last() =~= notes + news);
    assert(progress_in(all) == progress_in(notes + news));
    if r.outer.len() == 0 {
        assert((notes + news).drop_last() =~= notes);
    } else {
        assert(notes + news =~= notes);
    }
}

proof fn lemma_news_progress(r: crate::flow::executor::RunnerView, status: StepStatus)
    ensures
        progress_in(crate::flow::executor::news(r, status)) == (if r.outer.len() == 0 {
            seq![
                crate::flow::executor::ProgressView {
                    step_index: r.current.next,
                    step_name: r.step().name(),
                    status,
                },
            ]
        } else {
            seq![]
        }),
{
    let news = crate::flow::executor::news(r, status);
    if r.outer.len() == 0 {
        assert(news.drop_last() =~= seq![]);
        assert(progress_in(news.drop_last()) =~= seq![]);
        assert(progress_in(news) =~= seq![
            crate::flow::executor::ProgressView {
                step_index: r.current.next,
                step_name: r.step().name(),
                status,
            },
        ]);
    }
}

/// Progress is told of the steps of the flow itself, and of each as running
/// first and then how it ended.
pub proof fn law_progress_is_running_then_final(
    r: crate::flow::executor::RunnerView,
    reply: crate::flow::executor::ReplyView,
)
    requires
        r.wf(),
    ensures
        progress_fits(r, crate::flow::executor::advanced(r)),
        crate::flow::executor::replied(r, reply) == crate::flow::executor::idle(r)
            || progress_fits(r, crate::flow::executor::replied(r, reply)),
{
    let running = crate::flow::executor::news(r, StepStatus::Running);
    assert forall|
        x: crate::flow::executor::RunnerView,
        notes: Seq<crate::flow::executor::NoteView>,
        record: crate::flow::record::RecordView,
        inner: Seq<crate::flow::record::RecordView>,
    |
        progress_in(
            (#[trigger] crate::flow::executor::settled(x, notes, record, inner)).notes,
        ) == (if x.outer.len() == 0 {
            progress_in(notes).push(
                crate::flow::executor::ProgressView {
                    step_index: x.current.next,
                    step_name: x.step().name(),
                    status: record.status,
                },
            )
        } else {
            progress_in(notes)
        }) by {
        lemma_settled_progress(x, notes, record, inner);
    }
    lemma_news_progress(r, StepStatus::Running);
    assert(progress_in(seq![]) =~= seq![]);
    let told = progress_in(crate::flow::executor::advanced(r).notes);
    let again = progress_in(crate::flow::executor::replied(r, reply).notes);
    if told.len() > 0 {
        assert(told.drop_last() =~= seq![] || told.drop_last() =~= progress_in(running));
    }
    if again.len() > 0 {
        assert(again.drop_last() =~= seq![]);
    }
}

// ------------------------------------------------------------------- records
/// The records of the steps of the flow itself.
pub open spec fn top_records(
    r: crate::flow::executor::RunnerView,
) -> Seq<crate::flow::record::RecordView> {
    if r.outer.len() > 0 {
        r.outer[0].records
    } else {
        r.current.records
    }
}

/// What was recorded of a flow stays recorded.
pub proof fn law_records_are_append_only(
    r: crate::flow::executor::RunnerView,
    reply: crate::flow::executor::ReplyView,
)
    requires
        r.wf(),
    ensures
        top_records(r).is_prefix_of(top_records(crate::flow::executor::advanced(r).runner)),
        top_records(r).is_prefix_of(top_records(crate::flow::executor::replied(r, reply).runner)),
{
}

// --------------------------------------------------------------- termination
/// How much there is to do in a step.
pub open spec fn weight(step: crate::flow::model::StepView) -> nat
    decreases step, 0int,
{
    match step {
        crate::flow::model::StepView::Condition { then, else_, .. } => 3 + weights(then, 0) + (
        match else_ {
            Some(steps) => weights(steps, 0),
            None => 0,
        }),
        crate::flow::model::StepView::Phase { steps, .. } => 3 + weights(steps, 0),
        _ => 1,
    }
}

/// How much there is to do in the steps from `from` on.
pub open spec fn weights(steps: Seq<crate::flow::model::StepView>, from: int) -> nat
    decreases steps, steps.len() - from,
{
    if from < 0 || from >= steps.len() {
        0
    } else {
        weight(steps[from]) + weights(steps, from + 1)
    }
}

/// How much there is to do in the outer lists.
pub open spec fn outer_weight(outer: Seq<crate::flow::executor::FrameView>) -> nat
    decreases outer.len(),
{
    if outer.len() == 0 {
        0
    } else {
        outer_weight(outer.drop_last()) + 2 + weights(outer.last().steps, outer.last().next + 1)
    }
}

/// How much there is to do in a flow, its current step counted as a whole.
pub open spec fn to_do(r: crate::flow::executor::RunnerView) -> nat {
    if r.doing is Over {
        0
    } else {
        1 + weights(r.current.steps, r.current.next as int) + outer_weight(r.outer)
    }
}

/// How much there is to do in the step that is under way.
pub open spec fn step_to_do(r: crate::flow::executor::RunnerView) -> int {
    match r.doing {
        crate::flow::executor::DoingView::Check(c) => 2 * (c.max - c.rounds) + 1,
        crate::flow::executor::DoingView::Fix(c) => 2 * (c.max - c.rounds) + 2,
        _ => 0,
    }
}

/// Whether the end is nearer after a move: less is left to do, or as much with a
/// step begun, or as much with less left in that step.
pub open spec fn nearer(
    after: crate::flow::executor::RunnerView,
    before: crate::flow::executor::RunnerView,
) -> bool {
    ||| to_do(after) < to_do(before)
    ||| {
        &&& to_do(after) == to_do(before)
        &&& before.doing is Ready
        &&& !(after.doing is Ready)
    }
    ||| {
        &&& to_do(after) == to_do(before)
        &&& !(before.doing is Ready)
        &&& !(after.doing is Ready)
        &&& 0 <= step_to_do(after) < step_to_do(before)
    }
}

/// Every run of a flow ends: each move that is not idle brings the end nearer.
pub proof fn law_every_run_ends(
    r: crate::flow::executor::RunnerView,
    reply: crate::flow::executor::ReplyView,
)
    requires
        r.wf(),
    ensures
        ({
            let t = crate::flow::executor::advanced(r);
            t.action is Idle || nearer(t.runner, r)
        }),
        ({
            let t = crate::flow::executor::replied(r, reply);
            t.action is Idle || nearer(t.runner, r)
        }),
{
    lemma_weight_is_positive(r);
    if r.doing is Ready && r.current.next >= r.current.steps.len() {
        if r.outer.len() > 0 {
            let parent = r.outer.last();
            assert(parent == r.outer[r.outer.len() - 1]);
            assert(weights(parent.steps, parent.next as int) == weight(
                parent.steps[parent.next as int],
            ) + weights(parent.steps, parent.next + 1));
        }
    } else {
        let outer = r.outer.push(r.current);
        assert(outer.drop_last() =~= r.outer);
        assert(outer.last() == r.current);
    }
}

proof fn lemma_weight_is_positive(r: crate::flow::executor::RunnerView)
    ensures
        r.current.next < r.current.steps.len() ==> weights(r.current.steps, r.current.next as int)
            == weight(r.step()) + weights(r.current.steps, r.current.next + 1),
        weight(r.step()) > 0,
{
}

} // verus!
