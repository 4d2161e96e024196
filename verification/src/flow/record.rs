//! What is recorded of the steps of a flow.
use crate::agent::message::SessionMessage;
use crate::ai::types::ContentPart;
use crate::dup::Dup;
use crate::json::Json;
use crate::text;
use vstd::prelude::*;

verus! {

/// How far a step is.
#[derive(Debug, Clone, Copy, PartialEq, Eq, Structural)]
pub enum StepStatus {
    Pending,
    Running,
    Succeeded,
    Failed,
    Skipped,
}

impl StepStatus {
    /// The status in lower case.
    pub open spec fn word(self) -> Seq<char> {
        match self {
            StepStatus::Pending => "pending"@,
            StepStatus::Running => "running"@,
            StepStatus::Succeeded => "succeeded"@,
            StepStatus::Failed => "failed"@,
            StepStatus::Skipped => "skipped"@,
        }
    }

    /// The status in lower case.
    pub fn as_str(&self) -> (r: &'static str)
        ensures
            r@ == self.word(),
    {
        match self {
            StepStatus::Pending => "pending",
            StepStatus::Running => "running",
            StepStatus::Succeeded => "succeeded",
            StepStatus::Failed => "failed",
            StepStatus::Skipped => "skipped",
        }
    }

    /// The status as it is kept in records.
    pub open spec fn tag(self) -> Seq<char> {
        match self {
            StepStatus::Pending => "Pending"@,
            StepStatus::Running => "Running"@,
            StepStatus::Succeeded => "Succeeded"@,
            StepStatus::Failed => "Failed"@,
            StepStatus::Skipped => "Skipped"@,
        }
    }

    fn to_tag(self) -> (r: &'static str)
        ensures
            r@ == self.tag(),
    {
        match self {
            StepStatus::Pending => "Pending",
            StepStatus::Running => "Running",
            StepStatus::Succeeded => "Succeeded",
            StepStatus::Failed => "Failed",
            StepStatus::Skipped => "Skipped",
        }
    }

    /// The mark of the status in the list of steps.
    pub open spec fn mark(self) -> Seq<char> {
        match self {
            StepStatus::Succeeded => "x"@,
            StepStatus::Failed => "!"@,
            StepStatus::Skipped => "~"@,
            _ => " "@,
        }
    }

    fn to_mark(self) -> (r: &'static str)
        ensures
            r@ == self.mark(),
    {
        match self {
            StepStatus::Succeeded => "x",
            StepStatus::Failed => "!",
            StepStatus::Skipped => "~",
            _ => " ",
        }
    }
}

/// What became of a step.
pub struct StepRecord {
    pub name: String,
    pub step_type: String,
    pub status: StepStatus,
    pub output: Option<Json>,
    pub error: Option<String>,
}

/// What a `StepRecord` stands for.
pub ghost struct RecordView {
    pub name: Seq<char>,
    pub step_type: Seq<char>,
    pub status: StepStatus,
    pub output: Option<crate::json::JsonView>,
    pub error: Option<Seq<char>>,
}

impl DeepView for StepRecord {
    type V = RecordView;

    open spec fn deep_view(&self) -> RecordView {
        RecordView {
            name: self.name@,
            step_type: self.step_type@,
            status: self.status,
            output: self.output.deep_view(),
            error: self.error.deep_view(),
        }
    }
}

impl Dup for StepRecord {
    fn dup(&self) -> (r: Self) {
        StepRecord {
            name: self.name.dup(),
            step_type: self.step_type.dup(),
            status: self.status,
            output: self.output.dup(),
            error: self.error.dup(),
        }
    }
}

/// The record of a step that failed.
pub open spec fn failure(name: Seq<char>, kind: Seq<char>, error: Seq<char>) -> RecordView {
    RecordView {
        name,
        step_type: kind,
        status: StepStatus::Failed,
        output: None,
        error: Some(error),
    }
}

/// The record of a step that gave `output`.
pub open spec fn success(
    name: Seq<char>,
    kind: Seq<char>,
    output: crate::json::JsonView,
) -> RecordView {
    RecordView {
        name,
        step_type: kind,
        status: StepStatus::Succeeded,
        output: Some(output),
        error: None,
    }
}

impl StepRecord {
    /// The record of a step that failed.
    pub fn failed(name: &str, kind: &str, error: &str) -> (r: Self)
        ensures
            r.deep_view() == failure(name@, kind@, error@),
    {
        StepRecord {
            name: name.to_owned(),
            step_type: kind.to_owned(),
            status: StepStatus::Failed,
            output: None,
            error: Some(error.to_owned()),
        }
    }

    /// The record of a step that gave `output`.
    pub fn succeeded(name: &str, kind: &str, output: Json) -> (r: Self)
        ensures
            r.deep_view() == success(name@, kind@, output.deep_view()),
    {
        StepRecord {
            name: name.to_owned(),
            step_type: kind.to_owned(),
            status: StepStatus::Succeeded,
            output: Some(output),
            error: None,
        }
    }
}

// --------------------------------------------------------------------- JSON
/// A value that may be missing, as JSON.
pub open spec fn or_null(j: Option<crate::json::JsonView>) -> crate::json::JsonView {
    match j {
        Some(v) => v,
        None => crate::json::JsonView::Null,
    }
}

/// A text that may be missing, as JSON.
pub open spec fn text_or_null(t: Option<Seq<char>>) -> crate::json::JsonView {
    match t {
        Some(v) => crate::json::JsonView::Str(v),
        None => crate::json::JsonView::Null,
    }
}

/// A record as JSON.
pub open spec fn record_json(r: RecordView) -> crate::json::JsonView {
    crate::json::JsonView::Object(
        map![
            "name"@ => crate::json::JsonView::Str(r.name),
            "step_type"@ => crate::json::JsonView::Str(r.step_type),
            "status"@ => crate::json::JsonView::Str(r.status.tag()),
            "output"@ => or_null(r.output),
            "error"@ => text_or_null(r.error),
        ],
    )
}

/// Records as JSON.
pub open spec fn records_json(records: Seq<RecordView>) -> crate::json::JsonView {
    crate::json::JsonView::Array(records.map_values(|r: RecordView| record_json(r)))
}

fn to_json(record: &StepRecord) -> (r: Json)
    ensures
        r.deep_view() == record_json(record.deep_view()),
{
    let output = match &record.output {
        Some(output) => output.dup(),
        None => Json::Null,
    };
    let error = match &record.error {
        Some(error) => Json::text(error),
        None => Json::Null,
    };
    Json::object().with("name", Json::text(&record.name)).with(
        "step_type",
        Json::text(&record.step_type),
    ).with("status", Json::text(record.status.to_tag())).with("output", output).with("error", error)
}

/// Records as JSON.
pub fn all_to_json(records: &[StepRecord]) -> (r: Json)
    ensures
        r.deep_view() == records_json(records.deep_view()),
{
    let mut out: Vec<Json> = Vec::new();
    let mut i: usize = 0;
    while i < records.len()
        invariant
            i <= records.len(),
            out@.len() == i,
            forall|k: int|
                0 <= k < i ==> (#[trigger] out@[k]).deep_view() == record_json(
                    records@[k].deep_view(),
                ),
        decreases records.len() - i,
    {
        out.push(to_json(&records[i]));
        i += 1;
    }
    assert(out.deep_view() =~= records_json(records.deep_view())->Array_0);
    Json::array(out)
}

// ------------------------------------------------------------ the state file
/// The line of a record in the state file.
pub open spec fn record_line(r: RecordView) -> Seq<char> {
    "- ["@ + r.status.mark() + "] **"@ + r.name + "** ("@ + r.step_type + ")\n"@
}

/// The lines of records in the state file.
pub open spec fn record_lines(records: Seq<RecordView>) -> Seq<char>
    decreases records.len(),
{
    if records.len() == 0 {
        seq![]
    } else {
        record_lines(records.drop_last()) + record_line(records.last())
    }
}

/// The text of the state file of the flow `name`.
pub open spec fn state_of(name: Seq<char>, records: Seq<RecordView>) -> Seq<char> {
    "# STATE.md — flow navigation\n\n## Flow: "@ + name + "\n\n"@ + record_lines(records)
}

fn line(record: &StepRecord) -> (r: String)
    ensures
        r@ == record_line(record.deep_view()),
{
    let mut out = text::concat5(
        "- [",
        record.status.to_mark(),
        "] **",
        &record.name,
        "** (",
    );
    out.append(&record.step_type);
    out.append(")\n");
    out
}

/// The text of the state file of the flow `name`.
pub fn state_text(name: &str, records: &[StepRecord]) -> (r: String)
    ensures
        r@ == state_of(name@, records.deep_view()),
{
    let ghost view = records.deep_view();
    let mut lines = String::new();
    let mut i: usize = 0;
    assert(view.take(0) =~= seq![]);
    while i < records.len()
        invariant
            i <= records.len(),
            view == records.deep_view(),
            lines@ == record_lines(view.take(i as int)),
        decreases records.len() - i,
    {
        assert(view.take(i + 1).drop_last() =~= view.take(i as int));
        lines.append(&line(&records[i]));
        i += 1;
    }
    assert(view.take(view.len() as int) =~= view);
    text::concat4("# STATE.md — flow navigation\n\n## Flow: ", name, "\n\n", &lines)
}

// --------------------------------------------------------------- conditions
/// What stands on one side of an operator, without white space and quotes
/// around it.
pub open spec fn operand(s: Seq<char>) -> Seq<char> {
    text::trim_set(text::spec_trim(s), seq!['"'])
}

/// Whether the two sides of the operator at `i` are equal.
pub open spec fn sides_equal(s: Seq<char>, i: int) -> bool {
    operand(s.take(i)) == operand(s.skip(i + 2))
}

/// Whether a condition holds: two sides that differ or are equal, else a bare
/// value that is neither false nor empty.
pub open spec fn holds(condition: Seq<char>) -> bool {
    let s = text::spec_trim(condition);
    match text::spec_find(s, "!="@) {
        Some(i) => !sides_equal(s, i),
        None => match text::spec_find(s, "=="@) {
            Some(i) => sides_equal(s, i),
            None => !(s == "false"@ || s == "no"@ || s == "0"@ || s == ""@ || s == "empty"@),
        },
    }
}

fn equal_around(s: &str, i: usize) -> (r: bool)
    requires
        i + 2 <= s@.len(),
    ensures
        r == sides_equal(s@, i as int),
{
    let n = text::count(s);
    let set: [char; 1] = ['"'];
    assert(set@ =~= seq!['"']);
    let left = text::trim_chars(&text::trim(&text::sub_string(s, 0, i)), &set);
    let right = text::trim_chars(&text::trim(&text::sub_string(s, i + 2, n)), &set);
    assert(s@.subrange(0, i as int) =~= s@.take(i as int));
    assert(s@.subrange(i + 2, n as int) =~= s@.skip(i + 2));
    text::same(&left, &right)
}

/// Whether a condition, its references replaced, holds.
pub fn evaluate_condition(expanded: &str) -> (r: bool)
    ensures
        r == holds(expanded@),
{
    let s = text::trim(expanded);
    proof {
        reveal_strlit("!=");
        reveal_strlit("==");
        text::lemma_find_from(s@, "!="@, 0);
        text::lemma_find_from(s@, "=="@, 0);
    }
    if let Some(i) = text::find(&s, "!=") {
        return !equal_around(&s, i);
    }
    if let Some(i) = text::find(&s, "==") {
        return equal_around(&s, i);
    }
    !(text::same(&s, "false") || text::same(&s, "no") || text::same(&s, "0") || text::same(&s, "")
        || text::same(&s, "empty"))
}

// ---------------------------------------------------------- the final answer
/// The texts among the parts of a message.
pub open spec fn texts_of(parts: Seq<crate::ai::types::ContentView>) -> Seq<Seq<char>>
    decreases parts.len(),
{
    if parts.len() == 0 {
        seq![]
    } else {
        match parts.last() {
            crate::ai::types::ContentView::Text { text } => texts_of(parts.drop_last()).push(text),
            _ => texts_of(parts.drop_last()),
        }
    }
}

/// What an agent answered: the texts of its last message, a line each; what was
/// streamed where it left no message.
pub open spec fn answer_of(
    messages: Seq<crate::agent::message::SessionView>,
    streamed: Seq<char>,
) -> Seq<char>
    decreases messages.len(),
{
    if messages.len() == 0 {
        streamed
    } else {
        match messages.last() {
            crate::agent::message::SessionView::Assistant { content, .. } => text::spec_join(
                texts_of(content),
                "\n"@,
            ),
            _ => answer_of(messages.drop_last(), streamed),
        }
    }
}

fn texts(parts: &[ContentPart]) -> (out: Vec<String>)
    ensures
        out.deep_view() == texts_of(parts.deep_view()),
{
    let ghost view = parts.deep_view();
    let mut out: Vec<String> = Vec::new();
    let mut i: usize = 0;
    assert(view.take(0) =~= seq![]);
    assert(out.deep_view() =~= seq![]);
    while i < parts.len()
        invariant
            i <= parts.len(),
            view == parts.deep_view(),
            out.deep_view() == texts_of(view.take(i as int)),
        decreases parts.len() - i,
    {
        assert(view.take(i + 1).drop_last() =~= view.take(i as int));
        assert(view[i as int] == parts@[i as int].deep_view());
        if let ContentPart::Text { text } = &parts[i] {
            text::put(&mut out, text.dup());
        }
        i += 1;
    }
    assert(view.take(view.len() as int) =~= view);
    out
}

/// What an agent answered, given its messages and what was streamed.
pub fn final_answer(messages: &[SessionMessage], streamed: &str) -> (r: String)
    ensures
        r@ == answer_of(messages.deep_view(), streamed@),
{
    let ghost view = messages.deep_view();
    let mut i: usize = messages.len();
    assert(view.take(view.len() as int) =~= view);
    while i > 0
        invariant
            i <= messages.len(),
            view == messages.deep_view(),
            answer_of(view, streamed@) == answer_of(view.take(i as int), streamed@),
        decreases i,
    {
        i -= 1;
        assert(view.take(i + 1).drop_last() =~= view.take(i as int));
        assert(view[i as int] == messages@[i as int].deep_view());
        if let SessionMessage::Assistant { content, .. } = &messages[i] {
            return text::join(texts(content).as_slice(), "\n");
        }
    }
    streamed.to_owned()
}

// ------------------------------------------------------------------ delegation
/// The tool names, as JSON.
pub open spec fn names_json(names: Seq<Seq<char>>) -> crate::json::JsonView {
    crate::json::JsonView::Array(names.map_values(|n: Seq<char>| crate::json::JsonView::Str(n)))
}

/// The fields that are there only where there is something to say.
pub open spec fn with_some(
    fields: Map<Seq<char>, crate::json::JsonView>,
    key: Seq<char>,
    value: Option<crate::json::JsonView>,
) -> Map<Seq<char>, crate::json::JsonView> {
    match value {
        Some(v) => fields.insert(key, v),
        None => fields,
    }
}

/// What a sub-agent is given for a step: the prompt as it is, the most turns that it
/// may take, and, where there are any, the schema of its answer and its tools.
pub open spec fn arguments_of(
    prompt: Seq<char>,
    schema: Option<crate::json::JsonView>,
    tools: Option<Seq<Seq<char>>>,
    max_turns: usize,
) -> crate::json::JsonView {
    let base = map![
        "prompt"@ => crate::json::JsonView::Str(prompt),
        "max_turns"@ => crate::json::JsonView::Number(
            crate::json::NumberView::Unsigned(max_turns as u64),
        ),
    ];
    let told = with_some(base, "schema"@, schema);
    crate::json::JsonView::Object(
        with_some(
            told,
            "tools"@,
            match tools {
                Some(names) => Some(names_json(names)),
                None => None,
            },
        ),
    )
}

/// The arguments of the call that hands a step to a sub-agent.
pub fn delegate_arguments(
    prompt: &str,
    schema: Option<&Json>,
    tools: Option<&[String]>,
    max_turns: usize,
) -> (r: Json)
    ensures
        r.deep_view() == arguments_of(
            prompt@,
            match schema {
                Some(j) => Some(j.deep_view()),
                None => None,
            },
            match tools {
                Some(names) => Some(names.deep_view()),
                None => None,
            },
            max_turns,
        ),
{
    let mut r = Json::object().with("prompt", Json::text(prompt)).with(
        "max_turns",
        Json::number(max_turns as u64),
    );
    let ghost base = map![
        "prompt"@ => crate::json::JsonView::Str(prompt@),
        "max_turns"@ => crate::json::JsonView::Number(
            crate::json::NumberView::Unsigned(max_turns as u64),
        ),
    ];
    assert(r.deep_view()->Object_0 =~= base);
    if let Some(schema) = schema {
        r = r.with("schema", schema.dup());
    }
    if let Some(names) = tools {
        let mut items: Vec<Json> = Vec::new();
        let mut i: usize = 0;
        while i < names.len()
            invariant
                i <= names.len(),
                items@.len() == i,
                forall|k: int|
                    0 <= k < i ==> (#[trigger] items@[k]).deep_view() == crate::json::JsonView::Str(
                        names@[k]@,
                    ),
            decreases names.len() - i,
        {
            items.push(Json::text(&names[i]));
            i += 1;
        }
        assert(items.deep_view() =~= names_json(names.deep_view())->Array_0);
        r = r.with("tools", Json::array(items));
    }
    r
}

/// What the system prompt of a sub-agent says of the form of its answer.
pub fn answer_format(schema: Option<&Json>) -> (r: String)
    ensures
        r@ == (match schema {
            Some(j) => "\n\nAnswer with one JSON document that matches this schema: "@
                + crate::json::json_text(j.deep_view()),
            None => ""@,
        }),
{
    match schema {
        Some(j) => text::concat(
            "\n\nAnswer with one JSON document that matches this schema: ",
            &crate::json::render(j),
        ),
        None => "".to_owned(),
    }
}

} // verus!
