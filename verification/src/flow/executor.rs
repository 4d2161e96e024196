//! Running a flow.
//!
//! A `FlowRunner` decides what comes next. It is moved on with `advance` until
//! it names an action that takes the world outside: prompting an agent, asking
//! the user, calling a tool. What came of that goes back in with `reply`.
use crate::agent::call::{ToolCallInfo, ToolOutcome};
use crate::agent::session::Mode;
use crate::dup::Dup;
use crate::flow::model::{expand_json, set_step_output, Flow, FlowContext, FlowStep};
use crate::flow::record::{all_to_json, evaluate_condition, state_text, StepRecord, StepStatus};
use crate::json::Json;
use crate::text;
use vstd::prelude::*;

verus! {

// ------------------------------------------------------------- notes, actions
/// News of a step at the top level of a flow.
pub struct FlowProgress {
    pub step_index: usize,
    pub step_name: String,
    pub status: StepStatus,
}

/// What a `FlowProgress` stands for.
pub ghost struct ProgressView {
    pub step_index: usize,
    pub step_name: Seq<char>,
    pub status: StepStatus,
}

impl DeepView for FlowProgress {
    type V = ProgressView;

    open spec fn deep_view(&self) -> ProgressView {
        ProgressView {
            step_index: self.step_index,
            step_name: self.step_name@,
            status: self.status,
        }
    }
}

/// What is to be told or kept, besides the next action.
pub enum Note {
    Progress(FlowProgress),
    /// The texts of the state file and of the context file.
    State { state: String, context: String },
}

/// What a `Note` stands for.
pub ghost enum NoteView {
    Progress(ProgressView),
    State { state: Seq<char>, context: Seq<char> },
}

impl DeepView for Note {
    type V = NoteView;

    open spec fn deep_view(&self) -> NoteView {
        match self {
            Note::Progress(p) => NoteView::Progress(p.deep_view()),
            Note::State { state, context } => NoteView::State { state: state@, context: context@ },
        }
    }
}

/// The result of a flow.
pub struct FlowRun {
    pub flow_name: String,
    pub steps: Vec<StepRecord>,
    pub context: FlowContext,
    /// How many fix rounds the verify steps took together.
    pub fix_rounds: usize,
}

/// What a `FlowRun` stands for.
pub ghost struct RunView {
    pub flow_name: Seq<char>,
    pub steps: Seq<crate::flow::record::RecordView>,
    pub context: Map<Seq<char>, crate::json::JsonView>,
    pub fix_rounds: usize,
}

impl DeepView for FlowRun {
    type V = RunView;

    open spec fn deep_view(&self) -> RunView {
        RunView {
            flow_name: self.flow_name@,
            steps: self.steps.deep_view(),
            context: self.context.deep_view(),
            fix_rounds: self.fix_rounds,
        }
    }
}

/// What comes next.
#[allow(inconsistent_fields)]
pub enum Action {
    /// Nothing outside: the runner is to be advanced.
    Go,
    /// Nothing at all: the runner did not wait for what it was told.
    Idle,
    /// Prompt a fresh agent.
    Prompt { prompt: String, mode: Mode, model: Option<String> },
    /// Ask the user.
    Ask { question: String, options: Option<Vec<String>> },
    /// Authorize the call and make it.
    Call(ToolCallInfo),
    /// Have a fresh agent with these tools answer in JSON.
    Delegate {
        prompt: String,
        schema: Option<Json>,
        tools: Option<Vec<String>>,
        max_turns: usize,
    },
    /// The flow is done.
    Done(FlowRun),
    /// The flow was given up.
    Aborted(String),
}

/// What an `Action` stands for.
#[allow(inconsistent_fields)]
pub ghost enum ActionView {
    Go,
    Idle,
    Prompt { prompt: Seq<char>, mode: Mode, model: Option<Seq<char>> },
    Ask { question: Seq<char>, options: Option<Seq<Seq<char>>> },
    Call(crate::agent::call::CallInfoView),
    Delegate {
        prompt: Seq<char>,
        schema: Option<crate::json::JsonView>,
        tools: Option<Seq<Seq<char>>>,
        max_turns: usize,
    },
    Done(RunView),
    Aborted(Seq<char>),
}

impl DeepView for Action {
    type V = ActionView;

    open spec fn deep_view(&self) -> ActionView {
        match self {
            Action::Go => ActionView::Go,
            Action::Idle => ActionView::Idle,
            Action::Prompt { prompt, mode, model } => ActionView::Prompt {
                prompt: prompt@,
                mode: *mode,
                model: model.deep_view(),
            },
            Action::Ask { question, options } => ActionView::Ask {
                question: question@,
                options: options.deep_view(),
            },
            Action::Call(call) => ActionView::Call(call.deep_view()),
            Action::Delegate { prompt, schema, tools, max_turns } => ActionView::Delegate {
                prompt: prompt@,
                schema: schema.deep_view(),
                tools: tools.deep_view(),
                max_turns: *max_turns,
            },
            Action::Done(run) => ActionView::Done(run.deep_view()),
            Action::Aborted(message) => ActionView::Aborted(message@),
        }
    }
}

/// What came of a tool call.
pub enum CallReply {
    /// It was not allowed, for this reason.
    Denied(String),
    /// The tool gave this.
    Done(ToolOutcome),
    /// The tool did not run to its end.
    Failed(String),
}

/// What came of an action.
pub enum FlowReply {
    /// What an agent answered, or why it did not.
    Text(Result<String, String>),
    /// What the user answered, or why not.
    Answer(Result<String, String>),
    /// What came of a call.
    Call(CallReply),
}

/// What a `FlowReply` stands for.
pub ghost enum ReplyView {
    Text(Result<Seq<char>, Seq<char>>),
    Answer(Result<Seq<char>, Seq<char>>),
    Denied(Seq<char>),
    Done(crate::agent::call::OutcomeView),
    Failed(Seq<char>),
}

/// What a text or an error stands for.
pub open spec fn result_view(r: Result<String, String>) -> Result<Seq<char>, Seq<char>> {
    match r {
        Ok(t) => Ok(t@),
        Err(e) => Err(e@),
    }
}

impl DeepView for FlowReply {
    type V = ReplyView;

    open spec fn deep_view(&self) -> ReplyView {
        match self {
            FlowReply::Text(r) => ReplyView::Text(result_view(*r)),
            FlowReply::Answer(r) => ReplyView::Answer(result_view(*r)),
            FlowReply::Call(CallReply::Denied(reason)) => ReplyView::Denied(reason@),
            FlowReply::Call(CallReply::Done(outcome)) => ReplyView::Done(outcome.deep_view()),
            FlowReply::Call(CallReply::Failed(message)) => ReplyView::Failed(message@),
        }
    }
}

// ------------------------------------------------------------------ the state
/// A verify step that is under way.
pub struct Check {
    name: String,
    command: String,
    max: usize,
    rounds: usize,
}

/// What a `Check` stands for.
pub ghost struct CheckView {
    pub name: Seq<char>,
    pub command: Seq<char>,
    pub max: usize,
    pub rounds: usize,
}

impl DeepView for Check {
    type V = CheckView;

    closed spec fn deep_view(&self) -> CheckView {
        CheckView {
            name: self.name@,
            command: self.command@,
            max: self.max,
            rounds: self.rounds,
        }
    }
}

/// What a runner waits for.
pub enum Doing {
    /// Nothing: it is to be advanced.
    Ready,
    /// The answer to the prompt of a step.
    Prompt(String),
    /// The answer to the prompt of a phase.
    Phase(String),
    /// The user's answer.
    Ask(String),
    /// The result of a tool.
    Tool(String),
    /// The answer of a delegate.
    Delegate(String),
    /// The result of a verification.
    Check(Check),
    /// The answer to the prompt for a fix.
    Fix(Check),
    /// Nothing any more.
    Over,
}

/// What a `Doing` stands for.
pub ghost enum DoingView {
    Ready,
    Prompt(Seq<char>),
    Phase(Seq<char>),
    Ask(Seq<char>),
    Tool(Seq<char>),
    Delegate(Seq<char>),
    Check(CheckView),
    Fix(CheckView),
    Over,
}

impl DeepView for Doing {
    type V = DoingView;

    open spec fn deep_view(&self) -> DoingView {
        match self {
            Doing::Ready => DoingView::Ready,
            Doing::Prompt(name) => DoingView::Prompt(name@),
            Doing::Phase(name) => DoingView::Phase(name@),
            Doing::Ask(name) => DoingView::Ask(name@),
            Doing::Tool(name) => DoingView::Tool(name@),
            Doing::Delegate(name) => DoingView::Delegate(name@),
            Doing::Check(check) => DoingView::Check(check.deep_view()),
            Doing::Fix(check) => DoingView::Fix(check.deep_view()),
            Doing::Over => DoingView::Over,
        }
    }
}

impl Dup for Check {
    fn dup(&self) -> (r: Self) {
        Check {
            name: self.name.dup(),
            command: self.command.dup(),
            max: self.max,
            rounds: self.rounds,
        }
    }
}

impl Dup for Doing {
    fn dup(&self) -> (r: Self) {
        match self {
            Doing::Ready => Doing::Ready,
            Doing::Prompt(name) => Doing::Prompt(name.dup()),
            Doing::Phase(name) => Doing::Phase(name.dup()),
            Doing::Ask(name) => Doing::Ask(name.dup()),
            Doing::Tool(name) => Doing::Tool(name.dup()),
            Doing::Delegate(name) => Doing::Delegate(name.dup()),
            Doing::Check(check) => Doing::Check(check.dup()),
            Doing::Fix(check) => Doing::Fix(check.dup()),
            Doing::Over => Doing::Over,
        }
    }
}

/// What a list of steps belongs to.
enum Owner {
    Flow,
    Condition(String),
    Phase(String),
}

/// What an `Owner` stands for.
pub ghost enum OwnerView {
    Flow,
    Condition(Seq<char>),
    Phase(Seq<char>),
}

/// A list of steps that is under way.
struct Frame<'a> {
    owner: Owner,
    steps: &'a [FlowStep],
    next: usize,
    records: Vec<StepRecord>,
}

/// What a `Frame` stands for.
pub ghost struct FrameView {
    pub owner: OwnerView,
    pub steps: Seq<crate::flow::model::StepView>,
    pub next: usize,
    pub records: Seq<crate::flow::record::RecordView>,
}

impl DeepView for Owner {
    type V = OwnerView;

    closed spec fn deep_view(&self) -> OwnerView {
        match self {
            Owner::Flow => OwnerView::Flow,
            Owner::Condition(name) => OwnerView::Condition(name@),
            Owner::Phase(name) => OwnerView::Phase(name@),
        }
    }
}

impl<'a> DeepView for Frame<'a> {
    type V = FrameView;

    closed spec fn deep_view(&self) -> FrameView {
        FrameView {
            owner: self.owner.deep_view(),
            steps: crate::flow::model::steps_view(self.steps@),
            next: self.next,
            records: self.records.deep_view(),
        }
    }
}

/// A flow that is being run.
pub struct FlowRunner<'a> {
    flow: &'a Flow,
    fix_rounds: usize,
    context: FlowContext,
    tools: Vec<String>,
    can_ask: bool,
    outer: Vec<Frame<'a>>,
    current: Frame<'a>,
    doing: Doing,
}

/// What a `FlowRunner` stands for.
pub ghost struct RunnerView {
    pub name: Seq<char>,
    pub budget: Option<usize>,
    pub fix_rounds: usize,
    pub context: Map<Seq<char>, crate::json::JsonView>,
    pub tools: Seq<Seq<char>>,
    pub can_ask: bool,
    pub outer: Seq<FrameView>,
    pub current: FrameView,
    pub doing: DoingView,
}

impl<'a> DeepView for FlowRunner<'a> {
    type V = RunnerView;

    closed spec fn deep_view(&self) -> RunnerView {
        RunnerView {
            name: self.flow.name@,
            budget: self.flow.error_budget,
            fix_rounds: self.fix_rounds,
            context: self.context.deep_view(),
            tools: self.tools.deep_view(),
            can_ask: self.can_ask,
            outer: self.outer.deep_view(),
            current: self.current.deep_view(),
            doing: self.doing.deep_view(),
        }
    }
}

impl RunnerView {
    /// The step that is under way in the innermost list.
    pub open spec fn step(self) -> crate::flow::model::StepView {
        self.current.steps[self.current.next as int]
    }

    /// Whether a step is under way where the state says so: in each outer list,
    /// and in the innermost one while something is waited for.
    pub open spec fn wf(self) -> bool {
        &&& forall|i: int|
            0 <= i < self.outer.len() ==> (#[trigger] self.outer[i]).next
                < self.outer[i].steps.len() <= usize::MAX
        &&& self.current.next <= self.current.steps.len()
        &&& (self.outer.len() == 0 <==> self.current.owner is Flow)
        &&& forall|i: int|
            0 <= i < self.outer.len() ==> (#[trigger] self.outer[i].owner is Flow <==> i == 0)
        &&& !(self.doing is Ready) && !(self.doing is Over) ==> self.current.next
            < self.current.steps.len()
        &&& self.current.steps.len() <= usize::MAX
        &&& self.doing matches DoingView::Check(c) ==> c.rounds <= c.max
        &&& self.doing matches DoingView::Fix(c) ==> c.rounds <= c.max
        &&& self.doing is Phase ==> self.step() is Phase
        &&& self.doing is Check || self.doing is Fix ==> self.step() is Verify
    }
}

/// What a move of a runner gives.
pub ghost struct TurnView {
    pub runner: RunnerView,
    pub notes: Seq<NoteView>,
    pub action: ActionView,
}

/// What a move of a runner gives besides its new state.
pub struct Turn {
    pub notes: Vec<Note>,
    pub action: Action,
}

impl Turn {
    /// Whether this, with the state `after`, is the move `t`.
    pub open spec fn is(self, after: RunnerView, t: TurnView) -> bool {
        t == (TurnView {
            runner: after,
            notes: self.notes.deep_view(),
            action: self.action.deep_view(),
        })
    }
}

// ------------------------------------------------------------- ending a step
/// The news of the step that is under way; there is none of inner steps.
pub open spec fn news(r: RunnerView, status: StepStatus) -> Seq<NoteView> {
    if r.outer.len() == 0 {
        seq![
            NoteView::Progress(
                ProgressView { step_index: r.current.next, step_name: r.step().name(), status },
            ),
        ]
    } else {
        seq![]
    }
}

/// The text of the context file.
pub open spec fn context_of(values: Map<Seq<char>, crate::json::JsonView>) -> Seq<char> {
    crate::json::json_pretty(
        crate::json::JsonView::Object(map!["values"@ => crate::json::JsonView::Object(values)]),
    )
}

/// Whether a flow goes on when this step fails.
pub open spec fn goes_on(step: crate::flow::model::StepView) -> bool {
    match step {
        crate::flow::model::StepView::Ask { on_reject, .. } => on_reject == "continue"@,
        crate::flow::model::StepView::Delegate { on_invalid, .. } => on_invalid == "continue"@,
        _ => false,
    }
}

/// Why a flow is given up at a step.
pub open spec fn abort_reason(name: Seq<char>, error: Option<Seq<char>>) -> Seq<char> {
    "flow aborted at step `"@ + name + "`: "@ + (match error {
        Some(e) => e,
        None => "step failed"@,
    })
}

/// The step that is under way ends with `record`; `inner` are the records that
/// are listed behind it. A failure ends the flow, unless the step lets it go on.
pub open spec fn settled(
    r: RunnerView,
    notes: Seq<NoteView>,
    record: crate::flow::record::RecordView,
    inner: Seq<crate::flow::record::RecordView>,
) -> TurnView {
    let records = r.current.records.push(record) + inner;
    let notes = notes + news(r, record.status) + seq![
        NoteView::State {
            state: crate::flow::record::state_of(r.name, records),
            context: context_of(r.context),
        },
    ];
    if record.status == StepStatus::Failed && !goes_on(r.step()) {
        TurnView {
            runner: RunnerView {
                current: FrameView { records, ..r.current },
                doing: DoingView::Over,
                ..r
            },
            notes,
            action: ActionView::Aborted(abort_reason(r.step().name(), record.error)),
        }
    } else {
        TurnView {
            runner: RunnerView {
                current: FrameView { records, next: (r.current.next + 1) as usize, ..r.current },
                doing: DoingView::Ready,
                ..r
            },
            notes,
            action: ActionView::Go,
        }
    }
}

/// The flow is given up in the middle of a step.
pub open spec fn given_up(r: RunnerView, notes: Seq<NoteView>, message: Seq<char>) -> TurnView {
    TurnView {
        runner: RunnerView { doing: DoingView::Over, ..r },
        notes,
        action: ActionView::Aborted(message),
    }
}

/// The runner waits for what comes of `action`.
pub open spec fn waiting(
    r: RunnerView,
    notes: Seq<NoteView>,
    doing: DoingView,
    action: ActionView,
) -> TurnView {
    TurnView { runner: RunnerView { doing, ..r }, notes, action }
}

/// The runner turns to the steps of the step that is under way.
pub open spec fn entered(
    r: RunnerView,
    notes: Seq<NoteView>,
    owner: OwnerView,
    steps: Seq<crate::flow::model::StepView>,
    records: Seq<crate::flow::record::RecordView>,
) -> TurnView {
    TurnView {
        runner: RunnerView {
            outer: r.outer.push(r.current),
            current: FrameView { owner, steps, next: 0, records },
            doing: DoingView::Ready,
            ..r
        },
        notes,
        action: ActionView::Go,
    }
}

fn context_text(context: &FlowContext) -> (r: String)
    ensures
        r@ == context_of(context.deep_view()),
{
    let copy = context.dup();
    let whole = Json::object().with("values", Json::Object(copy.values));
    assert(whole.deep_view()->Object_0 =~= map![
        "values"@ => crate::json::JsonView::Object(context.deep_view())
    ]);
    crate::json::render_pretty(&whole)
}

fn continues(step: &FlowStep) -> (r: bool)
    ensures
        r == goes_on(step.deep_view()),
{
    match step {
        FlowStep::Ask { on_reject, .. } => text::same(on_reject, "continue"),
        FlowStep::Delegate { on_invalid, .. } => text::same(on_invalid, "continue"),
        _ => false,
    }
}

impl<'a> FlowRunner<'a> {
    fn step(&self) -> (r: &'a FlowStep)
        requires
            self.current.next < self.current.steps@.len(),
        ensures
            r.deep_view() == self.deep_view().step(),
    {
        let steps: &'a [FlowStep] = self.current.steps;
        &steps[self.current.next]
    }

    fn progress(&self, notes: &mut Vec<Note>, status: StepStatus)
        requires
            self.current.next < self.current.steps@.len(),
        ensures
            final(notes).deep_view() == old(notes).deep_view() + news(self.deep_view(), status),
    {
        if self.outer.len() == 0 {
            text::put(
                notes,
                Note::Progress(
                    FlowProgress {
                        step_index: self.current.next,
                        step_name: self.step().name().to_owned(),
                        status,
                    },
                ),
            );
        }
        assert(final(notes).deep_view() =~= old(notes).deep_view() + news(
            self.deep_view(),
            status,
        ));
    }

    fn settle(&mut self, notes: Vec<Note>, record: StepRecord, inner: &[StepRecord]) -> (t: Turn)
        requires
            old(self).current.next < old(self).current.steps@.len(),
            old(self).deep_view().wf(),
        ensures
            t.is(
                final(self).deep_view(),
                settled(
                    old(self).deep_view(),
                    notes.deep_view(),
                    record.deep_view(),
                    inner.deep_view(),
                ),
            ),
            final(self).deep_view().wf(),
    {
        let ghost first = self.deep_view();
        let ghost told = notes.deep_view();
        let mut notes = notes;
        let step = self.step();
        let failed = record.status == StepStatus::Failed;
        self.progress(&mut notes, record.status);
        let reason = match &record.error {
            Some(error) => error.dup(),
            None => "step failed".to_owned(),
        };
        text::put(&mut self.current.records, record);
        crate::dup::extend_dup(&mut self.current.records, inner);
        let state = state_text(&self.flow.name, self.current.records.as_slice());
        let context = context_text(&self.context);
        text::put(&mut notes, Note::State { state, context });
        assert(notes.deep_view() =~= settled(
            first,
            told,
            record.deep_view(),
            inner.deep_view(),
        ).notes);
        if failed && !continues(step) {
            self.doing = Doing::Over;
            let message = text::concat4("flow aborted at step `", step.name(), "`: ", &reason);
            Turn { notes, action: Action::Aborted(message) }
        } else {
            self.current.next = self.current.next + 1;
            self.doing = Doing::Ready;
            Turn { notes, action: Action::Go }
        }
    }

    fn end(&mut self, notes: Vec<Note>, record: StepRecord) -> (t: Turn)
        requires
            old(self).current.next < old(self).current.steps@.len(),
            old(self).deep_view().wf(),
        ensures
            t.is(
                final(self).deep_view(),
                settled(old(self).deep_view(), notes.deep_view(), record.deep_view(), seq![]),
            ),
            final(self).deep_view().wf(),
    {
        let none: Vec<StepRecord> = Vec::new();
        assert(none.deep_view() =~= seq![]);
        self.settle(notes, record, none.as_slice())
    }

    fn enter(
        &mut self,
        notes: Vec<Note>,
        owner: Owner,
        steps: &'a [FlowStep],
        records: Vec<StepRecord>,
    ) -> (t: Turn)
        requires
            old(self).current.next < old(self).current.steps@.len(),
            old(self).deep_view().wf(),
            !(owner is Flow),
        ensures
            t.is(
                final(self).deep_view(),
                entered(
                    old(self).deep_view(),
                    notes.deep_view(),
                    owner.deep_view(),
                    crate::flow::model::steps_view(steps@),
                    records.deep_view(),
                ),
            ),
            final(self).deep_view().wf(),
    {
        let ghost first = self.deep_view();
        let count = steps.len();
        assert(steps@.len() == count);
        let mut frame = Frame { owner, steps, next: 0, records };
        std::mem::swap(&mut frame, &mut self.current);
        text::put(&mut self.outer, frame);
        self.doing = Doing::Ready;
        assert(self.deep_view().outer =~= first.outer.push(first.current));
        Turn { notes, action: Action::Go }
    }

    fn give_up(&mut self, notes: Vec<Note>, message: String) -> (t: Turn)
        requires
            old(self).deep_view().wf(),
        ensures
            t.is(
                final(self).deep_view(),
                given_up(old(self).deep_view(), notes.deep_view(), message@),
            ),
            final(self).deep_view().wf(),
    {
        self.doing = Doing::Over;
        Turn { notes, action: Action::Aborted(message) }
    }
}

// ---------------------------------------------------------- starting a step
/// The call that runs the command of a verify step.
pub open spec fn check_call(name: Seq<char>, command: Seq<char>) -> crate::agent::call::CallInfoView {
    crate::agent::call::CallInfoView {
        tool_call_id: "verify-"@ + name,
        name: "bash"@,
        arguments: crate::ai::wire::jo(map!["command"@ => crate::ai::wire::js(command)]),
    }
}

/// The steps of the branch that a condition takes.
pub open spec fn branch_of(
    condition: Seq<char>,
    yes: Seq<crate::flow::model::StepView>,
    no: Option<Seq<crate::flow::model::StepView>>,
) -> Seq<crate::flow::model::StepView> {
    if crate::flow::record::holds(condition) {
        yes
    } else {
        match no {
            Some(steps) => steps,
            None => seq![],
        }
    }
}

/// A text, or the empty one.
pub open spec fn or_empty(t: Option<Seq<char>>) -> Seq<char> {
    match t {
        Some(t) => t,
        None => ""@,
    }
}

/// The command of a verify step.
pub open spec fn command_of(command: Option<Seq<char>>) -> Seq<char> {
    match command {
        Some(c) => c,
        None => "cargo test"@,
    }
}

/// The arguments of a tool step, without their references.
pub open spec fn arguments_of(
    values: Map<Seq<char>, crate::json::JsonView>,
    arguments: Option<crate::json::JsonView>,
) -> crate::json::JsonView {
    match arguments {
        Some(a) => crate::flow::model::expanded_json(values, a),
        None => crate::json::JsonView::Object(Map::empty()),
    }
}

/// A prompt step starts.
pub open spec fn begun_prompt(
    r: RunnerView,
    name: Seq<char>,
    mode: Option<Seq<char>>,
    message: Option<Seq<char>>,
    model: Option<Seq<char>>,
) -> TurnView {
    waiting(
        r,
        news(r, StepStatus::Running),
        DoingView::Prompt(name),
        ActionView::Prompt {
            prompt: crate::flow::model::expanded(r.context, or_empty(message)),
            mode: if mode == Some("plan"@) {
                Mode::Plan
            } else {
                Mode::Build
            },
            model,
        },
    )
}

/// An ask step starts; without anybody to ask it fails.
pub open spec fn begun_ask(
    r: RunnerView,
    name: Seq<char>,
    question: Seq<char>,
    options: Option<Seq<Seq<char>>>,
) -> TurnView {
    let notes = news(r, StepStatus::Running);
    if !r.can_ask {
        settled(
            r,
            notes,
            crate::flow::record::failure(
                name,
                "ask"@,
                "ask steps require the interactive UI (not available in print mode)"@,
            ),
            seq![],
        )
    } else {
        waiting(
            r,
            notes,
            DoingView::Ask(name),
            ActionView::Ask {
                question: crate::flow::model::expanded(r.context, question),
                options,
            },
        )
    }
}

/// A tool step starts; a tool that is not there fails it.
pub open spec fn begun_tool(
    r: RunnerView,
    name: Seq<char>,
    tool: Seq<char>,
    arguments: Option<crate::json::JsonView>,
) -> TurnView {
    let notes = news(r, StepStatus::Running);
    if !r.tools.contains(tool) {
        settled(
            r,
            notes,
            crate::flow::record::failure(name, "tool"@, "unknown tool `"@ + tool + "`"@),
            seq![],
        )
    } else {
        waiting(
            r,
            notes,
            DoingView::Tool(name),
            ActionView::Call(
                crate::agent::call::CallInfoView {
                    tool_call_id: name,
                    name: tool,
                    arguments: arguments_of(r.context, arguments),
                },
            ),
        )
    }
}

/// A phase starts, with its prompt where it has one.
pub open spec fn begun_phase(
    r: RunnerView,
    name: Seq<char>,
    prompt: Option<Seq<char>>,
    steps: Seq<crate::flow::model::StepView>,
) -> TurnView {
    let notes = news(r, StepStatus::Running);
    match prompt {
        Some(p) => waiting(
            r,
            notes,
            DoingView::Phase(name),
            ActionView::Prompt {
                prompt: crate::flow::model::expanded(r.context, p),
                mode: Mode::Build,
                model: None,
            },
        ),
        None => entered(r, notes, OwnerView::Phase(name), steps, seq![]),
    }
}

/// A verify step starts; without a shell the flow is given up.
pub open spec fn begun_verify(
    r: RunnerView,
    name: Seq<char>,
    command: Option<Seq<char>>,
    max: usize,
) -> TurnView {
    let notes = news(r, StepStatus::Running);
    if !r.tools.contains("bash"@) {
        given_up(r, notes, "verify needs the bash tool"@)
    } else {
        let command = command_of(command);
        waiting(
            r,
            notes,
            DoingView::Check(CheckView { name, command, max, rounds: 0 }),
            ActionView::Call(
                check_call(name, crate::flow::model::expanded(r.context, command)),
            ),
        )
    }
}

/// The next step of the innermost list starts.
pub open spec fn begun(r: RunnerView) -> TurnView {
    match r.step() {
        crate::flow::model::StepView::Prompt { name, mode, message, model } => begun_prompt(
            r,
            name,
            mode,
            message,
            model,
        ),
        crate::flow::model::StepView::Ask { name, question, options, .. } => begun_ask(
            r,
            name,
            question,
            options,
        ),
        crate::flow::model::StepView::Tool { name, tool, arguments } => begun_tool(
            r,
            name,
            tool,
            arguments,
        ),
        crate::flow::model::StepView::Condition { name, if_condition, then, else_ } => entered(
            r,
            news(r, StepStatus::Running),
            OwnerView::Condition(name),
            branch_of(crate::flow::model::expanded(r.context, if_condition), then, else_),
            seq![],
        ),
        crate::flow::model::StepView::Phase { name, prompt, steps } => begun_phase(
            r,
            name,
            prompt,
            steps,
        ),
        crate::flow::model::StepView::Verify { name, command, max_fix_rounds } => begun_verify(
            r,
            name,
            command,
            max_fix_rounds,
        ),
        crate::flow::model::StepView::Delegate { name, prompt, schema, tools, max_turns, .. } =>
            waiting(
            r,
            news(r, StepStatus::Running),
            DoingView::Delegate(name),
            ActionView::Delegate {
                prompt: crate::flow::model::expanded(r.context, prompt),
                schema,
                tools,
                max_turns,
            },
        ),
    }
}

/// The innermost list is through: the step that it belongs to ends, or the flow.
pub open spec fn closed_list(r: RunnerView) -> TurnView {
    let done = r.current;
    let below = RunnerView { outer: r.outer.drop_last(), current: r.outer.last(), ..r };
    match done.owner {
        OwnerView::Flow => TurnView {
            runner: RunnerView { doing: DoingView::Over, ..r },
            notes: seq![],
            action: ActionView::Done(
                RunView {
                    flow_name: r.name,
                    steps: done.records,
                    context: r.context,
                    fix_rounds: r.fix_rounds,
                },
            ),
        },
        OwnerView::Condition(name) => settled(
            below,
            seq![],
            crate::flow::record::RecordView {
                name,
                step_type: "condition"@,
                status: if done.steps.len() == 0 {
                    StepStatus::Skipped
                } else {
                    StepStatus::Succeeded
                },
                output: Some(
                    crate::ai::wire::jo(
                        map!["branches"@ => crate::flow::record::records_json(done.records)],
                    ),
                ),
                error: None,
            },
            done.records,
        ),
        OwnerView::Phase(name) => settled(
            below,
            seq![],
            crate::flow::record::success(
                name,
                "phase"@,
                crate::ai::wire::jo(
                    map!["steps"@ => crate::flow::record::records_json(done.records)],
                ),
            ),
            seq![],
        ),
    }
}

/// A runner that does not wait for anything is moved on.
pub open spec fn advanced(r: RunnerView) -> TurnView {
    if !(r.doing is Ready) {
        TurnView { runner: r, notes: seq![], action: ActionView::Idle }
    } else if r.current.next < r.current.steps.len() {
        begun(r)
    } else {
        closed_list(r)
    }
}

fn verify_call(name: &str, command: &str) -> (r: ToolCallInfo)
    ensures
        r.deep_view() == check_call(name@, command@),
{
    let arguments = Json::object().with("command", Json::text(command));
    assert(arguments.deep_view()->Object_0 =~= map!["command"@ => crate::ai::wire::js(command@)]);
    ToolCallInfo {
        tool_call_id: text::concat("verify-", name),
        name: "bash".to_owned(),
        arguments,
    }
}

fn no_steps<'a>() -> (r: &'a [FlowStep])
    ensures
        r@.len() == 0,
{
    let none: &'a [FlowStep; 0] = &[];
    none
}

impl<'a> FlowRunner<'a> {
    /// Whether the runner is ready to begin a step or end a list.
    closed spec fn at_step(&self) -> bool {
        &&& self.deep_view().wf()
        &&& self.current.next < self.current.steps@.len()
    }

    fn begin_prompt(
        &mut self,
        name: &str,
        mode: &Option<String>,
        message: &Option<String>,
        model: &Option<String>,
    ) -> (t: Turn)
        requires
            old(self).at_step(),
        ensures
            t.is(
                final(self).deep_view(),
                begun_prompt(
                    old(self).deep_view(),
                    name@,
                    mode.deep_view(),
                    message.deep_view(),
                    model.deep_view(),
                ),
            ),
            final(self).deep_view().wf(),
    {
        let mut notes: Vec<Note> = Vec::new();
        assert(notes.deep_view() =~= seq![]);
        self.progress(&mut notes, StepStatus::Running);
        assert(notes.deep_view() =~= news(old(self).deep_view(), StepStatus::Running));
        let message = match message {
            Some(message) => message.as_str(),
            None => "",
        };
        let prompt = self.context.expand(message);
        let plan = match mode {
            Some(mode) => text::same(mode, "plan"),
            None => false,
        };
        self.doing = Doing::Prompt(name.to_owned());
        let mode = if plan {
            Mode::Plan
        } else {
            Mode::Build
        };
        Turn { notes, action: Action::Prompt { prompt, mode, model: model.dup() } }
    }

    fn begin_ask(&mut self, name: &str, question: &str, options: &Option<Vec<String>>) -> (t: Turn)
        requires
            old(self).at_step(),
        ensures
            t.is(
                final(self).deep_view(),
                begun_ask(old(self).deep_view(), name@, question@, options.deep_view()),
            ),
            final(self).deep_view().wf(),
    {
        let mut notes: Vec<Note> = Vec::new();
        assert(notes.deep_view() =~= seq![]);
        self.progress(&mut notes, StepStatus::Running);
        assert(notes.deep_view() =~= news(old(self).deep_view(), StepStatus::Running));
        if !self.can_ask {
            let record = StepRecord::failed(
                name,
                "ask",
                "ask steps require the interactive UI (not available in print mode)",
            );
            return self.end(notes, record);
        }
        let question = self.context.expand(question);
        self.doing = Doing::Ask(name.to_owned());
        Turn { notes, action: Action::Ask { question, options: options.dup() } }
    }

    fn begin_tool(&mut self, name: &str, tool: &str, arguments: &Option<Json>) -> (t: Turn)
        requires
            old(self).at_step(),
        ensures
            t.is(
                final(self).deep_view(),
                begun_tool(old(self).deep_view(), name@, tool@, arguments.deep_view()),
            ),
            final(self).deep_view().wf(),
    {
        let mut notes: Vec<Note> = Vec::new();
        assert(notes.deep_view() =~= seq![]);
        self.progress(&mut notes, StepStatus::Running);
        assert(notes.deep_view() =~= news(old(self).deep_view(), StepStatus::Running));
        if !text::contains_text(self.tools.as_slice(), tool) {
            let record = StepRecord::failed(
                name,
                "tool",
                &text::concat3("unknown tool `", tool, "`"),
            );
            return self.end(notes, record);
        }
        let arguments = match arguments {
            Some(value) => expand_json(value, &self.context),
            None => Json::object(),
        };
        self.doing = Doing::Tool(name.to_owned());
        Turn {
            notes,
            action: Action::Call(
                ToolCallInfo { tool_call_id: name.to_owned(), name: tool.to_owned(), arguments },
            ),
        }
    }

    fn begin_phase(&mut self, name: &str, prompt: &Option<String>, steps: &'a [FlowStep]) -> (t:
        Turn)
        requires
            old(self).at_step(),
            old(self).deep_view().step() is Phase,
        ensures
            t.is(
                final(self).deep_view(),
                begun_phase(
                    old(self).deep_view(),
                    name@,
                    prompt.deep_view(),
                    crate::flow::model::steps_view(steps@),
                ),
            ),
            final(self).deep_view().wf(),
    {
        let mut notes: Vec<Note> = Vec::new();
        assert(notes.deep_view() =~= seq![]);
        self.progress(&mut notes, StepStatus::Running);
        assert(notes.deep_view() =~= news(old(self).deep_view(), StepStatus::Running));
        match prompt {
            Some(prompt) => {
                let prompt = self.context.expand(prompt);
                self.doing = Doing::Phase(name.to_owned());
                Turn { notes, action: Action::Prompt { prompt, mode: Mode::Build, model: None } }
            },
            None => {
                let records: Vec<StepRecord> = Vec::new();
                assert(records.deep_view() =~= seq![]);
                self.enter(notes, Owner::Phase(name.to_owned()), steps, records)
            },
        }
    }

    fn begin_verify(&mut self, name: &str, command: &Option<String>, max: usize) -> (t: Turn)
        requires
            old(self).at_step(),
            old(self).deep_view().step() is Verify,
        ensures
            t.is(
                final(self).deep_view(),
                begun_verify(old(self).deep_view(), name@, command.deep_view(), max),
            ),
            final(self).deep_view().wf(),
    {
        let mut notes: Vec<Note> = Vec::new();
        assert(notes.deep_view() =~= seq![]);
        self.progress(&mut notes, StepStatus::Running);
        assert(notes.deep_view() =~= news(old(self).deep_view(), StepStatus::Running));
        if !text::contains_text(self.tools.as_slice(), "bash") {
            return self.give_up(notes, "verify needs the bash tool".to_owned());
        }
        let command = match command {
            Some(command) => command.as_str(),
            None => "cargo test",
        };
        let call = verify_call(name, &self.context.expand(command));
        self.doing = Doing::Check(
            Check { name: name.to_owned(), command: command.to_owned(), max, rounds: 0 },
        );
        Turn { notes, action: Action::Call(call) }
    }

    fn begin_condition(
        &mut self,
        name: &str,
        condition: &str,
        yes: &'a [FlowStep],
        no: &'a Option<Vec<FlowStep>>,
    ) -> (t: Turn)
        requires
            old(self).at_step(),
        ensures
            t.is(
                final(self).deep_view(),
                entered(
                    old(self).deep_view(),
                    news(old(self).deep_view(), StepStatus::Running),
                    OwnerView::Condition(name@),
                    branch_of(
                        crate::flow::model::expanded(old(self).deep_view().context, condition@),
                        crate::flow::model::steps_view(yes@),
                        match no {
                            Some(steps) => Some(crate::flow::model::steps_view(steps@)),
                            None => None,
                        },
                    ),
                    seq![],
                ),
            ),
            final(self).deep_view().wf(),
    {
        let mut notes: Vec<Note> = Vec::new();
        assert(notes.deep_view() =~= seq![]);
        self.progress(&mut notes, StepStatus::Running);
        assert(notes.deep_view() =~= news(old(self).deep_view(), StepStatus::Running));
        let branch = if evaluate_condition(&self.context.expand(condition)) {
            yes
        } else {
            match no {
                Some(steps) => steps.as_slice(),
                None => {
                    let none = no_steps();
                    assert(crate::flow::model::steps_view(none@) =~= seq![]);
                    none
                },
            }
        };
        let records: Vec<StepRecord> = Vec::new();
        assert(records.deep_view() =~= seq![]);
        self.enter(notes, Owner::Condition(name.to_owned()), branch, records)
    }

    fn begin(&mut self) -> (t: Turn)
        requires
            old(self).at_step(),
        ensures
            t.is(final(self).deep_view(), begun(old(self).deep_view())),
            final(self).deep_view().wf(),
    {
        match self.step() {
            FlowStep::Prompt { name, mode, message, model } => self.begin_prompt(
                name,
                mode,
                message,
                model,
            ),
            FlowStep::Ask { name, question, options, .. } => self.begin_ask(
                name,
                question,
                options,
            ),
            FlowStep::Tool { name, tool, arguments } => self.begin_tool(name, tool, arguments),
            FlowStep::Condition { name, if_condition, then, else_ } => self.begin_condition(
                name,
                if_condition,
                then.as_slice(),
                else_,
            ),
            FlowStep::Phase { name, prompt, steps } => self.begin_phase(
                name,
                prompt,
                steps.as_slice(),
            ),
            FlowStep::Verify { name, command, max_fix_rounds } => self.begin_verify(
                name,
                command,
                *max_fix_rounds,
            ),
            FlowStep::Delegate { name, prompt, schema, tools, max_turns, .. } => {
                let mut notes: Vec<Note> = Vec::new();
                assert(notes.deep_view() =~= seq![]);
                self.progress(&mut notes, StepStatus::Running);
                assert(notes.deep_view() =~= news(old(self).deep_view(), StepStatus::Running));
                let prompt = self.context.expand(prompt);
                self.doing = Doing::Delegate(name.dup());
                Turn {
                    notes,
                    action: Action::Delegate {
                        prompt,
                        schema: schema.dup(),
                        tools: tools.dup(),
                        max_turns: *max_turns,
                    },
                }
            },
        }
    }

    fn close(&mut self) -> (t: Turn)
        requires
            old(self).deep_view().wf(),
            old(self).doing is Ready,
        ensures
            t.is(final(self).deep_view(), closed_list(old(self).deep_view())),
            final(self).deep_view().wf(),
    {
        let ghost first = self.deep_view();
        let notes: Vec<Note> = Vec::new();
        assert(notes.deep_view() =~= seq![]);
        match self.outer.pop() {
            None => {
                self.doing = Doing::Over;
                let run = FlowRun {
                    flow_name: self.flow.name.dup(),
                    steps: self.current.records.dup(),
                    context: self.context.dup(),
                    fix_rounds: self.fix_rounds,
                };
                assert(self.outer.deep_view() =~= first.outer);
                Turn { notes, action: Action::Done(run) }
            },
            Some(parent) => {
                let mut done = parent;
                assert(done.deep_view() == first.outer.last());
                std::mem::swap(&mut done, &mut self.current);
                assert(self.outer.deep_view() =~= first.outer.drop_last());
                let below: Ghost<RunnerView> = Ghost(
                    RunnerView { outer: first.outer.drop_last(), current: first.outer.last(), ..first },
                );
                assert(self.deep_view() == below@);
                assert(below@.outer.len() > 0 ==> below@.outer[0] == first.outer[0]);
                assert(first.outer[first.outer.len() - 1].owner is Flow <==> first.outer.len() == 1);
                let listed = all_to_json(done.records.as_slice());
                match done.owner {
                    Owner::Condition(name) => {
                        let status = if done.steps.len() == 0 {
                            StepStatus::Skipped
                        } else {
                            StepStatus::Succeeded
                        };
                        let output = Json::object().with("branches", listed);
                        assert(output.deep_view()->Object_0 =~= map![
                            "branches"@ => crate::flow::record::records_json(first.current.records)
                        ]);
                        let record = StepRecord {
                            name,
                            step_type: "condition".to_owned(),
                            status,
                            output: Some(output),
                            error: None,
                        };
                        self.settle(notes, record, done.records.as_slice())
                    },
                    Owner::Phase(name) => {
                        let output = Json::object().with("steps", listed);
                        assert(output.deep_view()->Object_0 =~= map![
                            "steps"@ => crate::flow::record::records_json(first.current.records)
                        ]);
                        self.end(notes, StepRecord::succeeded(&name, "phase", output))
                    },
                    Owner::Flow => {
                        assert(false);
                        Turn { notes, action: Action::Idle }
                    },
                }
            },
        }
    }

    /// Moves the runner on: starts the next step, or ends a list of steps.
    pub fn advance(&mut self) -> (t: Turn)
        requires
            old(self).deep_view().wf(),
        ensures
            t.is(final(self).deep_view(), advanced(old(self).deep_view())),
            final(self).deep_view().wf(),
            crate::flow::model::takes_outputs(old(self).deep_view().context)
                ==> crate::flow::model::takes_outputs(final(self).deep_view().context),
    {
        match self.doing {
            Doing::Ready => {
                if self.current.next < self.current.steps.len() {
                    self.begin()
                } else {
                    self.close()
                }
            },
            _ => {
                let notes: Vec<Note> = Vec::new();
                assert(notes.deep_view() =~= seq![]);
                Turn { notes, action: Action::Idle }
            },
        }
    }
}

// -------------------------------------------------------------- taking replies
/// The runner once the step `name` gave `output`.
pub open spec fn storing(
    r: RunnerView,
    name: Seq<char>,
    output: crate::json::JsonView,
) -> RunnerView {
    RunnerView { context: crate::flow::model::stored(r.context, name, output), ..r }
}

/// An object with one text.
pub open spec fn one_text(key: Seq<char>, value: Seq<char>) -> crate::json::JsonView {
    crate::ai::wire::jo(map![key => crate::ai::wire::js(value)])
}

/// An agent answered the prompt of the step `name`.
pub open spec fn prompted(
    r: RunnerView,
    name: Seq<char>,
    reply: Result<Seq<char>, Seq<char>>,
) -> TurnView {
    match reply {
        Ok(output) => settled(
            storing(r, name, one_text("output"@, output)),
            seq![],
            crate::flow::record::success(name, "prompt"@, crate::ai::wire::js(output)),
            seq![],
        ),
        Err(error) => settled(
            storing(r, name, one_text("status"@, "failed"@)),
            seq![],
            crate::flow::record::failure(name, "prompt"@, error),
            seq![],
        ),
    }
}

/// An agent answered the prompt of the phase `name`.
pub open spec fn phase_prompted(
    r: RunnerView,
    name: Seq<char>,
    steps: Seq<crate::flow::model::StepView>,
    reply: Result<Seq<char>, Seq<char>>,
) -> TurnView {
    let inner = name + ":prompt"@;
    match reply {
        Ok(output) => entered(
            storing(r, inner, one_text("output"@, output)),
            seq![],
            OwnerView::Phase(name),
            steps,
            seq![crate::flow::record::success(inner, "prompt"@, crate::ai::wire::js(output))],
        ),
        Err(error) => settled(
            storing(r, inner, one_text("status"@, "failed"@)),
            seq![],
            crate::flow::record::failure(name, "phase"@, error),
            seq![],
        ),
    }
}

/// The user answered the ask step `name`.
pub open spec fn asked(
    r: RunnerView,
    name: Seq<char>,
    reply: Result<Seq<char>, Seq<char>>,
) -> TurnView {
    match reply {
        Ok(answer) => settled(
            storing(r, name, one_text("answer"@, answer)),
            seq![],
            crate::flow::record::success(name, "ask"@, one_text("answer"@, answer)),
            seq![],
        ),
        Err(error) => settled(
            storing(r, name, one_text("status"@, "rejected"@)),
            seq![],
            crate::flow::record::failure(name, "ask"@, error),
            seq![],
        ),
    }
}

/// What a tool gave, as JSON.
pub open spec fn outcome_json(outcome: crate::agent::call::OutcomeView) -> crate::json::JsonView {
    crate::ai::wire::jo(
        map![
            "content"@ => crate::ai::wire::js(outcome.content),
            "isError"@ => crate::json::JsonView::Bool(outcome.is_error),
        ],
    )
}

/// A record of what came out, a failure where `error` says so.
pub open spec fn outcome_record(
    name: Seq<char>,
    kind: Seq<char>,
    output: crate::json::JsonView,
    error: Option<Seq<char>>,
) -> crate::flow::record::RecordView {
    crate::flow::record::RecordView {
        name,
        step_type: kind,
        status: if error is Some {
            StepStatus::Failed
        } else {
            StepStatus::Succeeded
        },
        output: Some(output),
        error,
    }
}

/// The tool of the tool step `name` was called.
pub open spec fn called(r: RunnerView, name: Seq<char>, reply: ReplyView) -> TurnView {
    match reply {
        ReplyView::Done(outcome) => settled(
            storing(r, name, outcome_json(outcome)),
            seq![],
            outcome_record(
                name,
                "tool"@,
                outcome_json(outcome),
                if outcome.is_error {
                    Some(outcome.content)
                } else {
                    None
                },
            ),
            seq![],
        ),
        ReplyView::Denied(reason) => settled(
            r,
            seq![],
            crate::flow::record::failure(name, "tool"@, "permission denied: "@ + reason),
            seq![],
        ),
        ReplyView::Failed(message) => settled(
            r,
            seq![],
            crate::flow::record::failure(name, "tool"@, message),
            seq![],
        ),
        _ => idle(r),
    }
}

/// Nothing happens.
pub open spec fn idle(r: RunnerView) -> TurnView {
    TurnView { runner: r, notes: seq![], action: ActionView::Idle }
}

/// A delegate answered.
pub open spec fn delegated(
    r: RunnerView,
    name: Seq<char>,
    reply: Result<Seq<char>, Seq<char>>,
) -> TurnView {
    match reply {
        Ok(answer) => match crate::json::parsed_json(answer) {
            Ok(j) => {
                let output = crate::ai::wire::jo(
                    map![
                        "json"@ => j,
                        "content"@ => crate::ai::wire::js(crate::json::json_pretty(j)),
                        "isError"@ => crate::json::JsonView::Bool(false),
                    ],
                );
                settled(
                    storing(r, name, output),
                    seq![],
                    crate::flow::record::success(name, "delegate"@, output),
                    seq![],
                )
            },
            Err(m) => settled(
                storing(r, name, one_text("status"@, "failed"@)),
                seq![],
                crate::flow::record::failure(
                    name,
                    "delegate"@,
                    "delegate `"@ + name + "` did not produce valid JSON: "@ + m,
                ),
                seq![],
            ),
        },
        Err(error) => settled(
            storing(r, name, one_text("status"@, "failed"@)),
            seq![],
            crate::flow::record::failure(name, "delegate"@, error),
            seq![],
        ),
    }
}

/// The result of a verify step, as JSON.
pub open spec fn check_json(
    check: CheckView,
    outcome: crate::agent::call::OutcomeView,
) -> crate::json::JsonView {
    crate::ai::wire::jo(
        map![
            "output"@ => crate::ai::wire::js(outcome.content),
            "isError"@ => crate::json::JsonView::Bool(outcome.is_error),
            "fix_rounds"@ => crate::json::JsonView::Number(
                crate::json::NumberView::Unsigned(check.rounds as u64),
            ),
        ],
    )
}

/// How many fix rounds are left to a verify step.
pub open spec fn rounds_left(check: CheckView, budget: Option<usize>, used: usize) -> int {
    let own = if check.rounds < check.max {
        check.max - check.rounds
    } else {
        0
    };
    match budget {
        Some(b) => if used >= b {
            0
        } else if b - used < own {
            b - used
        } else {
            own
        },
        None => own,
    }
}

/// Why a failing verification is not fixed any further.
pub open spec fn exhausted(
    check: CheckView,
    budget: Option<usize>,
    used: usize,
    failure: Seq<char>,
) -> Seq<char> {
    match budget {
        Some(b) if used >= b => "fix budget exhausted (used "@ + text::spec_decimal(used as nat)
            + " of "@ + text::spec_decimal(b as nat) + " fix rounds); last failure:\n"@ + failure,
        _ => "fix rounds exhausted ("@ + text::spec_decimal(check.rounds as nat) + "/"@
            + text::spec_decimal(check.max as nat) + "); last failure:\n"@ + failure,
    }
}

/// The prompt for a fix.
pub open spec fn fix_prompt_of(command: Seq<char>, failure: Seq<char>, left: nat) -> Seq<char> {
    "The verification command failed. Fix the root cause.\n\nCommand: "@ + command
        + "\n\nOutput:\n"@ + failure + "\n\nFix rounds remaining: "@ + text::spec_decimal(left)
        + "\n\nReply with the fix summary when done."@
}

/// One more, up to the largest number.
pub open spec fn one_more(n: usize) -> usize {
    if n < usize::MAX {
        (n + 1) as usize
    } else {
        n
    }
}

/// The command of a verify step was run.
pub open spec fn checked(
    r: RunnerView,
    check: CheckView,
    outcome: crate::agent::call::OutcomeView,
) -> TurnView {
    let left = rounds_left(check, r.budget, r.fix_rounds);
    if outcome.is_error && left > 0 {
        let next = CheckView { rounds: (check.rounds + 1) as usize, ..check };
        waiting(
            RunnerView { fix_rounds: one_more(r.fix_rounds), ..r },
            seq![],
            DoingView::Fix(next),
            ActionView::Prompt {
                prompt: fix_prompt_of(check.command, outcome.content, (left - 1) as nat),
                mode: Mode::Build,
                model: None,
            },
        )
    } else {
        settled(
            storing(r, check.name, check_json(check, outcome)),
            seq![],
            outcome_record(
                check.name,
                "verify"@,
                check_json(check, outcome),
                if outcome.is_error {
                    Some(exhausted(check, r.budget, r.fix_rounds, outcome.content))
                } else {
                    None
                },
            ),
            seq![],
        )
    }
}

/// The runner takes what came of its action.
pub open spec fn replied(r: RunnerView, reply: ReplyView) -> TurnView {
    match (r.doing, reply) {
        (DoingView::Prompt(name), ReplyView::Text(t)) => prompted(r, name, t),
        (DoingView::Phase(name), ReplyView::Text(t)) => phase_prompted(
            r,
            name,
            r.step()->Phase_steps,
            t,
        ),
        (DoingView::Ask(name), ReplyView::Answer(a)) => asked(r, name, a),
        (DoingView::Tool(name), _) => called(r, name, reply),
        (DoingView::Delegate(name), ReplyView::Text(t)) => delegated(r, name, t),
        (DoingView::Check(check), ReplyView::Done(outcome)) => checked(r, check, outcome),
        (DoingView::Check(check), ReplyView::Denied(reason)) => given_up(
            r,
            seq![],
            "permission denied: "@ + reason,
        ),
        (DoingView::Check(check), ReplyView::Failed(message)) => given_up(r, seq![], message),
        (DoingView::Fix(check), ReplyView::Text(Ok(_))) => waiting(
            r,
            seq![],
            DoingView::Check(check),
            ActionView::Call(
                check_call(check.name, crate::flow::model::expanded(r.context, check.command)),
            ),
        ),
        (DoingView::Fix(check), ReplyView::Text(Err(error))) => settled(
            r,
            seq![],
            crate::flow::record::failure(check.name, "verify"@, error),
            seq![],
        ),
        _ => idle(r),
    }
}

fn single(key: &str, value: &str) -> (r: Json)
    ensures
        r.deep_view() == one_text(key@, value@),
{
    let r = Json::object().with(key, Json::text(value));
    assert(r.deep_view()->Object_0 =~= map![key@ => crate::ai::wire::js(value@)]);
    r
}

fn outcome_to_json(outcome: &ToolOutcome) -> (r: Json)
    ensures
        r.deep_view() == outcome_json(outcome.deep_view()),
{
    let r = Json::object().with("content", Json::text(&outcome.content)).with(
        "isError",
        Json::Bool(outcome.is_error),
    );
    assert(r.deep_view()->Object_0 =~= outcome_json(outcome.deep_view())->Object_0);
    r
}

fn check_to_json(check: &Check, outcome: &ToolOutcome) -> (r: Json)
    ensures
        r.deep_view() == check_json(check.deep_view(), outcome.deep_view()),
{
    let r = Json::object().with("output", Json::text(&outcome.content)).with(
        "isError",
        Json::Bool(outcome.is_error),
    ).with("fix_rounds", Json::number(check.rounds as u64));
    assert(r.deep_view()->Object_0 =~= check_json(
        check.deep_view(),
        outcome.deep_view(),
    )->Object_0);
    r
}

fn to_record(name: &str, kind: &str, output: Json, error: Option<String>) -> (r: StepRecord)
    ensures
        r.deep_view() == outcome_record(name@, kind@, output.deep_view(), error.deep_view()),
{
    let status = if error.is_some() {
        StepStatus::Failed
    } else {
        StepStatus::Succeeded
    };
    StepRecord {
        name: name.to_owned(),
        step_type: kind.to_owned(),
        status,
        output: Some(output),
        error,
    }
}

impl Check {
    fn left(&self, budget: Option<usize>, used: usize) -> (r: usize)
        ensures
            r == rounds_left(self.deep_view(), budget, used),
    {
        let own = if self.rounds < self.max {
            self.max - self.rounds
        } else {
            0
        };
        match budget {
            Some(b) => if used >= b {
                0
            } else if b - used < own {
                b - used
            } else {
                own
            },
            None => own,
        }
    }

    fn why_exhausted(&self, budget: Option<usize>, used: usize, failure: &str) -> (r: String)
        ensures
            r@ == exhausted(self.deep_view(), budget, used, failure@),
    {
        if let Some(b) = budget {
            if used >= b {
                let mut r = text::concat5(
                    "fix budget exhausted (used ",
                    &text::decimal(used as u64),
                    " of ",
                    &text::decimal(b as u64),
                    " fix rounds); last failure:\n",
                );
                r.append(failure);
                return r;
            }
        }
        let mut r = text::concat5(
            "fix rounds exhausted (",
            &text::decimal(self.rounds as u64),
            "/",
            &text::decimal(self.max as u64),
            "); last failure:\n",
        );
        r.append(failure);
        r
    }
}

fn fix_prompt(command: &str, failure: &str, left: usize) -> (r: String)
    ensures
        r@ == fix_prompt_of(command@, failure@, left as nat),
{
    let mut r = text::concat5(
        "The verification command failed. Fix the root cause.\n\nCommand: ",
        command,
        "\n\nOutput:\n",
        failure,
        "\n\nFix rounds remaining: ",
    );
    r.append(&text::decimal(left as u64));
    r.append("\n\nReply with the fix summary when done.");
    r
}

fn no_notes() -> (r: Vec<Note>)
    ensures
        r.deep_view() == Seq::<NoteView>::empty(),
{
    let r: Vec<Note> = Vec::new();
    assert(r.deep_view() =~= seq![]);
    r
}

impl<'a> FlowRunner<'a> {
    /// Whether the runner is in the middle of a step and can keep its output.
    closed spec fn in_step(&self) -> bool {
        &&& self.deep_view().wf()
        &&& self.current.next < self.current.steps@.len()
        &&& crate::flow::model::takes_outputs(self.deep_view().context)
    }

    /// Whether the runner is as it should be behind a move.
    closed spec fn fine(&self) -> bool {
        &&& self.deep_view().wf()
        &&& crate::flow::model::takes_outputs(self.deep_view().context)
    }

    fn store(&mut self, name: &str, output: Json)
        requires
            old(self).in_step(),
        ensures
            final(self).deep_view() == storing(
                old(self).deep_view(),
                name@,
                output.deep_view(),
            ),
            final(self).in_step(),
    {
        set_step_output(&mut self.context, name, output);
    }

    fn take_prompt(&mut self, name: &str, reply: Result<String, String>) -> (t: Turn)
        requires
            old(self).in_step(),
        ensures
            t.is(
                final(self).deep_view(),
                prompted(old(self).deep_view(), name@, result_view(reply)),
            ),
            final(self).fine(),
    {
        match reply {
            Ok(output) => {
                self.store(name, single("output", &output));
                let record = StepRecord::succeeded(name, "prompt", Json::Str(output));
                self.end(no_notes(), record)
            },
            Err(error) => {
                self.store(name, single("status", "failed"));
                self.end(no_notes(), StepRecord::failed(name, "prompt", &error))
            },
        }
    }

    fn take_phase(
        &mut self,
        name: &str,
        steps: &'a [FlowStep],
        reply: Result<String, String>,
    ) -> (t: Turn)
        requires
            old(self).in_step(),
        ensures
            t.is(
                final(self).deep_view(),
                phase_prompted(
                    old(self).deep_view(),
                    name@,
                    crate::flow::model::steps_view(steps@),
                    result_view(reply),
                ),
            ),
            final(self).fine(),
    {
        let inner = text::concat(name, ":prompt");
        match reply {
            Ok(output) => {
                self.store(&inner, single("output", &output));
                let record = StepRecord::succeeded(&inner, "prompt", Json::Str(output));
                let mut records: Vec<StepRecord> = Vec::new();
                let ghost first = record.deep_view();
                text::put(&mut records, record);
                assert(records.deep_view() =~= seq![first]);
                self.enter(no_notes(), Owner::Phase(name.to_owned()), steps, records)
            },
            Err(error) => {
                self.store(&inner, single("status", "failed"));
                self.end(no_notes(), StepRecord::failed(name, "phase", &error))
            },
        }
    }

    fn take_answer(&mut self, name: &str, reply: Result<String, String>) -> (t: Turn)
        requires
            old(self).in_step(),
        ensures
            t.is(
                final(self).deep_view(),
                asked(old(self).deep_view(), name@, result_view(reply)),
            ),
            final(self).fine(),
    {
        match reply {
            Ok(answer) => {
                self.store(name, single("answer", &answer));
                let record = StepRecord::succeeded(name, "ask", single("answer", &answer));
                self.end(no_notes(), record)
            },
            Err(error) => {
                self.store(name, single("status", "rejected"));
                self.end(no_notes(), StepRecord::failed(name, "ask", &error))
            },
        }
    }

    fn take_outcome(&mut self, name: &str, reply: CallReply) -> (t: Turn)
        requires
            old(self).in_step(),
        ensures
            t.is(
                final(self).deep_view(),
                called(old(self).deep_view(), name@, FlowReply::Call(reply).deep_view()),
            ),
            final(self).fine(),
    {
        match reply {
            CallReply::Done(outcome) => {
                self.store(name, outcome_to_json(&outcome));
                let output = outcome_to_json(&outcome);
                let error = if outcome.is_error {
                    Some(outcome.content)
                } else {
                    None
                };
                self.end(no_notes(), to_record(name, "tool", output, error))
            },
            CallReply::Denied(reason) => {
                let message = text::concat("permission denied: ", &reason);
                self.end(no_notes(), StepRecord::failed(name, "tool", &message))
            },
            CallReply::Failed(message) => self.end(
                no_notes(),
                StepRecord::failed(name, "tool", &message),
            ),
        }
    }

    fn take_delegate(&mut self, name: &str, reply: Result<String, String>) -> (t: Turn)
        requires
            old(self).in_step(),
        ensures
            t.is(
                final(self).deep_view(),
                delegated(old(self).deep_view(), name@, result_view(reply)),
            ),
            final(self).fine(),
    {
        match reply {
            Ok(answer) => match crate::json::parse(&answer) {
                Ok(j) => {
                    let content = crate::json::render_pretty(&j);
                    let ghost view = j.deep_view();
                    let output = Json::object().with("json", j).with(
                        "content",
                        Json::Str(content),
                    ).with("isError", Json::Bool(false));
                    assert(output.deep_view()->Object_0 =~= map![
                        "json"@ => view,
                        "content"@ => crate::ai::wire::js(crate::json::json_pretty(view)),
                        "isError"@ => crate::json::JsonView::Bool(false),
                    ]);
                    self.store(name, output.dup());
                    self.end(no_notes(), StepRecord::succeeded(name, "delegate", output))
                },
                Err(m) => {
                    self.store(name, single("status", "failed"));
                    let message = text::concat4(
                        "delegate `",
                        name,
                        "` did not produce valid JSON: ",
                        &m,
                    );
                    self.end(no_notes(), StepRecord::failed(name, "delegate", &message))
                },
            },
            Err(error) => {
                self.store(name, single("status", "failed"));
                self.end(no_notes(), StepRecord::failed(name, "delegate", &error))
            },
        }
    }

    fn take_check(&mut self, check: Check, outcome: ToolOutcome) -> (t: Turn)
        requires
            old(self).in_step(),
            old(self).deep_view().step() is Verify,
            check.rounds <= check.max,
        ensures
            t.is(
                final(self).deep_view(),
                checked(old(self).deep_view(), check.deep_view(), outcome.deep_view()),
            ),
            final(self).fine(),
    {
        let left = check.left(self.flow.error_budget, self.fix_rounds);
        if outcome.is_error && left > 0 {
            let prompt = fix_prompt(&check.command, &outcome.content, left - 1);
            if self.fix_rounds < usize::MAX {
                self.fix_rounds = self.fix_rounds + 1;
            }
            self.doing = Doing::Fix(
                Check {
                    name: check.name,
                    command: check.command,
                    max: check.max,
                    rounds: check.rounds + 1,
                },
            );
            return Turn {
                notes: no_notes(),
                action: Action::Prompt { prompt, mode: Mode::Build, model: None },
            };
        }
        let error = if outcome.is_error {
            Some(
                check.why_exhausted(self.flow.error_budget, self.fix_rounds, &outcome.content),
            )
        } else {
            None
        };
        let output = check_to_json(&check, &outcome);
        self.store(&check.name, output.dup());
        self.end(no_notes(), to_record(&check.name, "verify", output, error))
    }

    fn take_fix(&mut self, check: Check, reply: Result<String, String>) -> (t: Turn)
        requires
            old(self).in_step(),
            old(self).deep_view().doing == DoingView::Fix(check.deep_view()),
        ensures
            t.is(
                final(self).deep_view(),
                replied(old(self).deep_view(), ReplyView::Text(result_view(reply))),
            ),
            final(self).fine(),
    {
        match reply {
            Ok(_) => {
                let command = self.context.expand(&check.command);
                let call = verify_call(&check.name, &command);
                self.doing = Doing::Check(check);
                Turn { notes: no_notes(), action: Action::Call(call) }
            },
            Err(error) => self.end(
                no_notes(),
                StepRecord::failed(&check.name, "verify", &error),
            ),
        }
    }

    /// Takes what came of the action that the runner named last; anything that
    /// it does not wait for changes nothing.
    pub fn reply(&mut self, reply: FlowReply) -> (t: Turn)
        requires
            old(self).deep_view().wf(),
            crate::flow::model::takes_outputs(old(self).deep_view().context),
        ensures
            t.is(
                final(self).deep_view(),
                replied(old(self).deep_view(), reply.deep_view()),
            ),
            final(self).deep_view().wf(),
            crate::flow::model::takes_outputs(final(self).deep_view().context),
    {
        match (self.doing.dup(), reply) {
            (Doing::Prompt(name), FlowReply::Text(t)) => self.take_prompt(&name, t),
            (Doing::Phase(name), FlowReply::Text(t)) => {
                match self.step() {
                    FlowStep::Phase { steps, .. } => self.take_phase(&name, steps.as_slice(), t),
                    _ => {
                        assert(false);
                        Turn { notes: no_notes(), action: Action::Idle }
                    },
                }
            },
            (Doing::Ask(name), FlowReply::Answer(a)) => self.take_answer(&name, a),
            (Doing::Tool(name), FlowReply::Call(c)) => self.take_outcome(&name, c),
            (Doing::Delegate(name), FlowReply::Text(t)) => self.take_delegate(&name, t),
            (Doing::Check(check), FlowReply::Call(CallReply::Done(outcome))) => self.take_check(
                check,
                outcome,
            ),
            (Doing::Check(_), FlowReply::Call(CallReply::Denied(reason))) => {
                let message = text::concat("permission denied: ", &reason);
                self.give_up(no_notes(), message)
            },
            (Doing::Check(_), FlowReply::Call(CallReply::Failed(message))) => self.give_up(
                no_notes(),
                message,
            ),
            (Doing::Fix(check), FlowReply::Text(t)) => self.take_fix(check, t),
            _ => Turn { notes: no_notes(), action: Action::Idle },
        }
    }
}

/// The state in which a flow is about to run.
pub open spec fn at_start(
    name: Seq<char>,
    budget: Option<usize>,
    steps: Seq<crate::flow::model::StepView>,
    context: Map<Seq<char>, crate::json::JsonView>,
    tools: Seq<Seq<char>>,
    can_ask: bool,
) -> RunnerView {
    RunnerView {
        name,
        budget,
        fix_rounds: 0,
        context,
        tools,
        can_ask,
        outer: seq![],
        current: FrameView { owner: OwnerView::Flow, steps, next: 0, records: seq![] },
        doing: DoingView::Ready,
    }
}

/// Sets a flow up to be run with these inputs, where tools of these names can be
/// called and `can_ask` says whether there is somebody to ask.
pub fn run_flow<'a>(
    flow: &'a Flow,
    context: FlowContext,
    tools: Vec<String>,
    can_ask: bool,
) -> (r: FlowRunner<'a>)
    ensures
        r.deep_view() == at_start(
            flow.name@,
            flow.error_budget,
            crate::flow::model::steps_view(flow.steps@),
            context.deep_view(),
            tools.deep_view(),
            can_ask,
        ),
        r.deep_view().wf(),
{
    let outer: Vec<Frame<'a>> = Vec::new();
    assert(outer.deep_view() =~= seq![]);
    let records: Vec<StepRecord> = Vec::new();
    assert(records.deep_view() =~= seq![]);
    let steps: &'a [FlowStep] = flow.steps.as_slice();
    let count = steps.len();
    assert(steps@.len() == count);
    FlowRunner {
        flow,
        fix_rounds: 0,
        context,
        tools,
        can_ask,
        outer,
        current: Frame { owner: Owner::Flow, steps, next: 0, records },
        doing: Doing::Ready,
    }
}

} // verus!
