//! Flows: pipelines of steps, and the context that the steps share.
use crate::dup::Dup;
use crate::json::Json;
use crate::text;
use vstd::prelude::*;

verus! {

// -------------------------------------------------------------------- flows
/// A flow.
pub struct Flow {
    pub name: String,
    pub description: Option<String>,
    /// How many fix rounds the verify steps may take together; without it each
    /// has its own limit alone.
    pub error_budget: Option<usize>,
    pub steps: Vec<FlowStep>,
}

/// One step of a flow.
#[allow(inconsistent_fields)]
pub enum FlowStep {
    /// Prompts a fresh agent, in plan mode or build mode.
    Prompt {
        name: String,
        mode: Option<String>,
        message: Option<String>,
        model: Option<String>,
    },
    /// Asks the user. A rejection aborts the flow unless `on_reject` is
    /// `continue`.
    Ask { name: String, question: String, options: Option<Vec<String>>, on_reject: String },
    /// Runs one tool.
    Tool { name: String, tool: String, arguments: Option<Json> },
    /// Takes one of two branches.
    Condition {
        name: String,
        if_condition: String,
        then: Vec<FlowStep>,
        else_: Option<Vec<FlowStep>>,
    },
    /// A named group of steps, with a prompt before them.
    Phase { name: String, prompt: Option<String>, steps: Vec<FlowStep> },
    /// Runs a command and has it fixed for a bounded number of rounds.
    Verify { name: String, command: Option<String>, max_fix_rounds: usize },
    /// Has a fresh agent answer in JSON. An answer that is no JSON aborts the
    /// flow unless `on_invalid` is `continue`.
    Delegate {
        name: String,
        prompt: String,
        schema: Option<Json>,
        tools: Option<Vec<String>>,
        max_turns: usize,
        on_invalid: String,
    },
}

/// What a `FlowStep` stands for.
#[allow(inconsistent_fields)]
pub ghost enum StepView {
    Prompt {
        name: Seq<char>,
        mode: Option<Seq<char>>,
        message: Option<Seq<char>>,
        model: Option<Seq<char>>,
    },
    Ask {
        name: Seq<char>,
        question: Seq<char>,
        options: Option<Seq<Seq<char>>>,
        on_reject: Seq<char>,
    },
    Tool { name: Seq<char>, tool: Seq<char>, arguments: Option<crate::json::JsonView> },
    Condition {
        name: Seq<char>,
        if_condition: Seq<char>,
        then: Seq<StepView>,
        else_: Option<Seq<StepView>>,
    },
    Phase { name: Seq<char>, prompt: Option<Seq<char>>, steps: Seq<StepView> },
    Verify { name: Seq<char>, command: Option<Seq<char>>, max_fix_rounds: usize },
    Delegate {
        name: Seq<char>,
        prompt: Seq<char>,
        schema: Option<crate::json::JsonView>,
        tools: Option<Seq<Seq<char>>>,
        max_turns: usize,
        on_invalid: Seq<char>,
    },
}

/// What a step stands for.
pub open spec fn step_view(step: FlowStep) -> StepView
    decreases step,
{
    match step {
        FlowStep::Prompt { name, mode, message, model } => StepView::Prompt {
            name: name@,
            mode: mode.deep_view(),
            message: message.deep_view(),
            model: model.deep_view(),
        },
        FlowStep::Ask { name, question, options, on_reject } => StepView::Ask {
            name: name@,
            question: question@,
            options: options.deep_view(),
            on_reject: on_reject@,
        },
        FlowStep::Tool { name, tool, arguments } => StepView::Tool {
            name: name@,
            tool: tool@,
            arguments: arguments.deep_view(),
        },
        FlowStep::Condition { name, if_condition, then, else_ } => StepView::Condition {
            name: name@,
            if_condition: if_condition@,
            then: steps_view(then@),
            else_: match else_ {
                Some(steps) => Some(steps_view(steps@)),
                None => None,
            },
        },
        FlowStep::Phase { name, prompt, steps } => StepView::Phase {
            name: name@,
            prompt: prompt.deep_view(),
            steps: steps_view(steps@),
        },
        FlowStep::Verify { name, command, max_fix_rounds } => StepView::Verify {
            name: name@,
            command: command.deep_view(),
            max_fix_rounds,
        },
        FlowStep::Delegate { name, prompt, schema, tools, max_turns, on_invalid } =>
            StepView::Delegate {
            name: name@,
            prompt: prompt@,
            schema: schema.deep_view(),
            tools: tools.deep_view(),
            max_turns,
            on_invalid: on_invalid@,
        },
    }
}

/// What a list of steps stands for.
pub open spec fn steps_view(steps: Seq<FlowStep>) -> Seq<StepView>
    decreases steps,
{
    Seq::new(
        steps.len(),
        |i: int|
            if 0 <= i < steps.len() {
                step_view(steps[i])
            } else {
                vstd::pervasive::arbitrary()
            },
    )
}

impl DeepView for FlowStep {
    type V = StepView;

    open spec fn deep_view(&self) -> StepView {
        step_view(*self)
    }
}

impl StepView {
    /// The name of the step.
    pub open spec fn name(self) -> Seq<char> {
        match self {
            StepView::Prompt { name, .. } => name,
            StepView::Ask { name, .. } => name,
            StepView::Tool { name, .. } => name,
            StepView::Condition { name, .. } => name,
            StepView::Phase { name, .. } => name,
            StepView::Verify { name, .. } => name,
            StepView::Delegate { name, .. } => name,
        }
    }
}

impl FlowStep {
    /// The name of the step.
    pub fn name(&self) -> (r: &str)
        ensures
            r@ == self.deep_view().name(),
    {
        match self {
            FlowStep::Prompt { name, .. } => name.as_str(),
            FlowStep::Ask { name, .. } => name.as_str(),
            FlowStep::Tool { name, .. } => name.as_str(),
            FlowStep::Condition { name, .. } => name.as_str(),
            FlowStep::Phase { name, .. } => name.as_str(),
            FlowStep::Verify { name, .. } => name.as_str(),
            FlowStep::Delegate { name, .. } => name.as_str(),
        }
    }
}

/// What a step does on a rejection unless the flow says otherwise.
pub fn default_stop() -> (r: String)
    ensures
        r@ == "stop"@,
{
    "stop".to_owned()
}

/// How many fix rounds a verify step has unless the flow says otherwise.
pub fn default_fix_rounds() -> (r: usize)
    ensures
        r == 3,
{
    3
}

// ------------------------------------------------------------------ context
/// What the steps of a flow share: inputs, and under `steps` what each step
/// gave.
pub struct FlowContext {
    pub values: Vec<(String, Json)>,
}

impl DeepView for FlowContext {
    type V = Map<Seq<char>, crate::json::JsonView>;

    open spec fn deep_view(&self) -> Map<Seq<char>, crate::json::JsonView> {
        crate::json::fields_view(self.values@)
    }
}

impl Dup for FlowContext {
    fn dup(&self) -> (r: Self) {
        let mut values: Vec<(String, Json)> = Vec::new();
        let ghost all = self.values@;
        let mut i: usize = 0;
        while i < self.values.len()
            invariant
                all == self.values@,
                i <= all.len(),
                crate::json::fields_view(values@) == crate::json::fields_view(all.take(i as int)),
            decreases all.len() - i,
        {
            let ghost before = values@;
            assert(all.take(i + 1).drop_last() =~= all.take(i as int));
            values.push((self.values[i].0.clone(), self.values[i].1.clone()));
            assert(values@.drop_last() =~= before);
            i += 1;
        }
        assert(all.take(all.len() as int) =~= all);
        FlowContext { values }
    }
}

/// What the segments from `from` on lead to inside `value`.
pub open spec fn walked(
    value: Option<crate::json::JsonView>,
    segments: Seq<Seq<char>>,
    from: int,
) -> Option<crate::json::JsonView>
    decreases segments.len() - from,
{
    if from < 0 || from >= segments.len() {
        value
    } else {
        match value {
            Some(v) => walked(v.field(segments[from]), segments, from + 1),
            None => None,
        }
    }
}

/// What a path leads to: the value under that very key, else what its segments
/// lead to one after the other.
pub open spec fn lookup(
    values: Map<Seq<char>, crate::json::JsonView>,
    key: Seq<char>,
) -> Option<crate::json::JsonView> {
    if values.contains_key(key) {
        Some(values[key])
    } else {
        walked(
            Some(crate::json::JsonView::Object(values)),
            text::spec_split(key, seq!['.']),
            0,
        )
    }
}

/// Whether a character can stand in a reference.
pub open spec fn ref_char(c: char) -> bool {
    text::is_alnum(c) || c == '_' || c == '.' || c == '-'
}

/// Whether a reference with a path of `n` characters begins at `i`.
pub open spec fn ref_at(s: Seq<char>, i: int, n: int) -> bool {
    &&& 0 <= i
    &&& 1 <= n
    &&& i + n + 3 <= s.len()
    &&& s[i] == '$'
    &&& s[i + 1] == '{'
    &&& forall|k: int| i + 2 <= k < i + 2 + n ==> ref_char(#[trigger] s[k])
    &&& s[i + 2 + n] == '}'
}

/// How many characters from `from` on can stand in a reference.
pub open spec fn path_len(s: Seq<char>, from: int) -> nat
    decreases s.len() - from,
{
    if from < 0 || from >= s.len() || !ref_char(s[from]) {
        0
    } else {
        1 + path_len(s, from + 1)
    }
}

/// The first reference that begins at `from` or later: where it begins, and how
/// long its path is.
pub open spec fn first_ref(s: Seq<char>, from: int) -> Option<(int, int)>
    decreases s.len() - from,
{
    if from < 0 || from >= s.len() {
        None
    } else if ref_at(s, from, path_len(s, from + 2) as int) {
        Some((from, path_len(s, from + 2) as int))
    } else {
        first_ref(s, from + 1)
    }
}

/// What a reference to `path` is replaced with: the text of a string, the JSON
/// text of anything else, and the reference itself where nothing is found.
pub open spec fn ref_text(
    values: Map<Seq<char>, crate::json::JsonView>,
    path: Seq<char>,
) -> Seq<char> {
    match lookup(values, path) {
        Some(crate::json::JsonView::Str(t)) => t,
        Some(other) => crate::json::json_text(other),
        None => "${"@ + path + "}"@,
    }
}

/// A template with every reference replaced.
pub open spec fn expanded(
    values: Map<Seq<char>, crate::json::JsonView>,
    s: Seq<char>,
) -> Seq<char>
    decreases s.len(),
{
    match first_ref(s, 0) {
        None => s,
        Some((i, n)) => if 0 <= i && 1 <= n && i + n + 3 <= s.len() {
            s.take(i) + ref_text(values, s.subrange(i + 2, i + 2 + n)) + expanded(
                values,
                s.skip(i + n + 3),
            )
        } else {
            s
        },
    }
}

proof fn lemma_path_len(s: Seq<char>, from: int, n: int)
    requires
        0 <= from,
        0 <= n,
        from + n < s.len(),
        forall|k: int| from <= k < from + n ==> ref_char(#[trigger] s[k]),
        !ref_char(s[from + n]),
    ensures
        path_len(s, from) == n,
    decreases n,
{
    if n > 0 {
        lemma_path_len(s, from + 1, n - 1);
    }
}

proof fn lemma_first_ref_found(s: Seq<char>, from: int, i: int, n: int)
    requires
        0 <= from <= i,
        ref_at(s, i, n),
        forall|j: int, m: int| from <= j < i ==> !#[trigger] ref_at(s, j, m),
    ensures
        first_ref(s, from) == Some((i, n)),
    decreases i - from,
{
    lemma_path_len(s, i + 2, n);
    if from < i {
        lemma_first_ref_found(s, from + 1, i, n);
    }
}

proof fn lemma_first_ref_none(s: Seq<char>, from: int)
    requires
        0 <= from,
        forall|j: int, m: int| from <= j ==> !#[trigger] ref_at(s, j, m),
    ensures
        first_ref(s, from) is None,
    decreases s.len() - from,
{
    if from < s.len() {
        lemma_first_ref_none(s, from + 1);
    }
}

/// `Regex::captures` for the expression of a reference: a dollar sign and a path
/// in braces. Gives the text before the leftmost reference, the path, and the
/// text behind it; `None` where there is no reference.
#[verifier::external_body]
fn capture_reference(pattern: &str, s: &str) -> (r: Option<(String, String, String)>)
    requires
        pattern@ == "\\$\\{([a-zA-Z0-9_.-]+)\\}"@,
    ensures
        match r {
            Some((before, path, after)) => {
                &&& s@ == before@ + "${"@ + path@ + "}"@ + after@
                &&& ref_at(s@, before@.len() as int, path@.len() as int)
                &&& forall|j: int, m: int|
                    0 <= j < before@.len() ==> !#[trigger] ref_at(s@, j, m)
            },
            None => forall|j: int, m: int| 0 <= j ==> !#[trigger] ref_at(s@, j, m),
        },
{
    let re = regex::Regex::new(pattern).ok()?;
    let caps = re.captures(s)?;
    let whole = caps.get(0)?;
    let path = caps.get(1)?.as_str().to_owned();
    Some((s[..whole.start()].to_owned(), path, s[whole.end()..].to_owned()))
}

impl FlowContext {
    /// A context that holds nothing.
    pub fn new() -> (r: Self)
        ensures
            r.deep_view() == Map::<Seq<char>, crate::json::JsonView>::empty(),
    {
        FlowContext { values: Vec::new() }
    }

    /// Puts `value` under `key`.
    pub fn set(&mut self, key: &str, value: Json)
        ensures
            final(self).deep_view() == old(self).deep_view().insert(key@, value.deep_view()),
    {
        let mut values: Vec<(String, Json)> = Vec::new();
        std::mem::swap(&mut values, &mut self.values);
        let whole = Json::Object(values).without(key).with(key, value);
        assert(whole.deep_view()->Object_0 =~= old(self).deep_view().insert(
            key@,
            value.deep_view(),
        ));
        match whole {
            Json::Object(values) => {
                self.values = values;
            },
            _ => {},
        }
    }

    /// What the path `key` leads to.
    pub fn get(&self, key: &str) -> (r: Option<&Json>)
        ensures
            r.deep_view() == lookup(self.deep_view(), key@),
    {
        if let Some(value) = crate::json::find_field(self.values.as_slice(), key) {
            return Some(value);
        }
        let set: [char; 1] = ['.'];
        assert(set@ =~= seq!['.']);
        let segments = text::split(key, &set);
        let ghost view = segments.deep_view();
        let ghost all = Some(crate::json::JsonView::Object(self.deep_view()));
        assert(view[0] == segments@[0]@);
        let mut current = crate::json::find_field(self.values.as_slice(), segments[0].as_str());
        let mut i: usize = 1;
        while i < segments.len()
            invariant
                1 <= i <= segments@.len(),
                view == segments.deep_view(),
                lookup(self.deep_view(), key@) == walked(all, view, 0),
                walked(all, view, 0) == walked(current.deep_view(), view, i as int),
            decreases segments.len() - i,
        {
            assert(view[i as int] == segments@[i as int]@);
            match current {
                Some(value) => {
                    current = value.get(segments[i].as_str());
                },
                None => {
                    return None;
                },
            }
            i += 1;
        }
        current
    }

    /// The template with every `${path}` replaced by what the path leads to: the
    /// text of a string, the JSON text of anything else. A reference that leads
    /// nowhere stays.
    pub fn expand(&self, template: &str) -> (r: String)
        ensures
            r@ == expanded(self.deep_view(), template@),
    {
        let ghost values = self.deep_view();
        let mut out: String = String::new();
        let mut rest: String = template.to_owned();
        assert(out@ + expanded(values, rest@) =~= expanded(values, template@));
        loop
            invariant
                values == self.deep_view(),
                out@ + expanded(values, rest@) == expanded(values, template@),
            decreases rest@.len(),
        {
            match capture_reference("\\$\\{([a-zA-Z0-9_.-]+)\\}", rest.as_str()) {
                Some((before, path, after)) => {
                    let value = self.reference(path.as_str());
                    let ghost s = rest@;
                    let ghost i = before@.len() as int;
                    let ghost n = path@.len() as int;
                    proof {
                        reveal_strlit("${");
                        reveal_strlit("}");
                        lemma_first_ref_found(s, 0, i, n);
                        assert(s.take(i) =~= before@);
                        assert(s.subrange(i + 2, i + 2 + n) =~= path@);
                        assert(s.skip(i + n + 3) =~= after@);
                        assert(out@ + (before@ + value@ + expanded(values, after@)) =~= out@
                            + before@ + value@ + expanded(values, after@));
                    }
                    out.append(before.as_str());
                    out.append(value.as_str());
                    rest = after;
                },
                None => {
                    proof {
                        lemma_first_ref_none(rest@, 0);
                    }
                    out.append(rest.as_str());
                    return out;
                },
            }
        }
    }

    fn reference(&self, path: &str) -> (r: String)
        ensures
            r@ == ref_text(self.deep_view(), path@),
    {
        match self.get(path) {
            Some(Json::Str(t)) => t.clone(),
            Some(other) => crate::json::render(other),
            None => text::concat3("${", path, "}"),
        }
    }
}

/// Where nothing that a template refers to is found, the template stays as it
/// is.
pub proof fn law_missing_references_stay(
    values: Map<Seq<char>, crate::json::JsonView>,
    s: Seq<char>,
)
    requires
        forall|i: int, n: int| #[trigger]
            ref_at(s, i, n) ==> lookup(values, s.subrange(i + 2, i + 2 + n)) is None,
    ensures
        expanded(values, s) == s,
    decreases s.len(),
{
    lemma_first_ref(s, 0);
    match first_ref(s, 0) {
        None => {},
        Some((i, n)) => {
            let tail = s.skip(i + n + 3);
            assert forall|j: int, m: int| #[trigger] ref_at(tail, j, m) implies lookup(
                values,
                tail.subrange(j + 2, j + 2 + m),
            ) is None by {
                let at = i + n + 3 + j;
                assert forall|k: int| at + 2 <= k < at + 2 + m implies ref_char(#[trigger] s[k]) by {
                    assert(s[k] == tail[k - (i + n + 3)]);
                }
                assert(ref_at(s, at, m));
                assert(tail.subrange(j + 2, j + 2 + m) =~= s.subrange(at + 2, at + 2 + m));
            }
            law_missing_references_stay(values, tail);
            reveal_strlit("${");
            reveal_strlit("}");
            let path = s.subrange(i + 2, i + 2 + n);
            assert(s.take(i) + ("${"@ + path + "}"@) + tail =~= s);
        },
    }
}

proof fn lemma_first_ref(s: Seq<char>, from: int)
    ensures
        match first_ref(s, from) {
            Some((i, n)) => ref_at(s, i, n),
            None => true,
        },
    decreases s.len() - from,
{
    if 0 <= from < s.len() && !ref_at(s, from, path_len(s, from + 2) as int) {
        lemma_first_ref(s, from + 1);
    }
}

/// What is put under a key is what the key leads to.
pub proof fn law_set_value_is_found(
    values: Map<Seq<char>, crate::json::JsonView>,
    key: Seq<char>,
    value: crate::json::JsonView,
)
    ensures
        lookup(values.insert(key, value), key) == Some(value),
{
}

// ------------------------------------------------------------- step outputs
/// The entry of a step in the context, once it gave `output`.
pub open spec fn step_entry(
    entry: Option<crate::json::JsonView>,
    output: crate::json::JsonView,
) -> crate::json::JsonView {
    let fields = match entry {
        Some(e) => e.object_fields(),
        None => Map::empty(),
    };
    crate::json::JsonView::Object(
        fields.insert("output"@, output).insert("status"@, crate::json::JsonView::Str("done"@)),
    )
}

/// The context once the step `name` gave `output`.
pub open spec fn stored(
    values: Map<Seq<char>, crate::json::JsonView>,
    name: Seq<char>,
    output: crate::json::JsonView,
) -> Map<Seq<char>, crate::json::JsonView> {
    let steps = if values.contains_key("steps"@) {
        values["steps"@]
    } else {
        crate::json::JsonView::Object(Map::empty())
    };
    values.insert(
        "steps"@,
        crate::json::JsonView::Object(
            steps.object_fields().insert(name, step_entry(steps.field(name), output)),
        ),
    )
}

/// Whether a context takes the output of any step: what it holds under `steps`,
/// and under each name there, is an object.
pub open spec fn takes_outputs(values: Map<Seq<char>, crate::json::JsonView>) -> bool {
    values.contains_key("steps"@) ==> {
        &&& values["steps"@] is Object
        &&& forall|k: Seq<char>| #[trigger]
            values["steps"@].object_fields().contains_key(k)
                ==> values["steps"@].object_fields()[k] is Object
    }
}

/// Stores what the step `name` gave under `steps.<name>.output`.
pub fn set_step_output(context: &mut FlowContext, name: &str, value: Json)
    requires
        takes_outputs(old(context).deep_view()),
    ensures
        final(context).deep_view() == stored(old(context).deep_view(), name@, value.deep_view()),
        takes_outputs(final(context).deep_view()),
{
    let steps = match crate::json::find_field(context.values.as_slice(), "steps") {
        Some(steps) => steps.clone(),
        None => Json::object(),
    };
    let entry = match steps.get(name) {
        Some(entry) => entry.clone(),
        None => Json::object(),
    };
    let entry = entry.with("output", value).with("status", Json::text("done"));
    let steps = steps.without(name).with(name, entry);
    proof {
        let before = crate::json::JsonView::Object(old(context).deep_view()).field("steps"@);
        let first = match before {
            Some(s) => s,
            None => crate::json::JsonView::Object(Map::empty()),
        };
        assert(steps.deep_view().object_fields() =~= first.object_fields().insert(
            name@,
            step_entry(first.field(name@), value.deep_view()),
        ));
    }
    context.set("steps", steps);
}

/// What a step gave is found under `steps.<name>.output`, where the name holds
/// no dot and no input stands under that very key.
pub proof fn law_step_output_is_found(
    values: Map<Seq<char>, crate::json::JsonView>,
    name: Seq<char>,
    output: crate::json::JsonView,
)
    requires
        !name.contains('.'),
        !values.contains_key("steps."@ + name + ".output"@),
    ensures
        lookup(stored(values, name, output), "steps."@ + name + ".output"@) == Some(output),
{
    let key = "steps."@ + name + ".output"@;
    let dot = seq!['.'];
    let after = stored(values, name, output);
    reveal_strlit("steps.");
    reveal_strlit(".output");
    reveal_strlit("steps");
    reveal_strlit("output");
    reveal_strlit("status");
    assert(dot.contains(dot[0]));
    assert forall|c: char| dot.contains(c) implies c == '.' by {}
    assert forall|i: int| 0 <= i < name.len() implies !dot.contains(#[trigger] name[i]) by {
        assert(name.contains(name[i]));
    }
    let tail1 = ".output"@;
    let tail2 = "."@ + name + tail1;
    reveal_strlit(".");
    assert(key =~= "steps"@ + tail2);
    text::lemma_split_piece(seq![], "steps"@, tail2, dot);
    assert(tail2.skip(1) =~= name + tail1);
    text::lemma_split_piece(seq![], name, tail1, dot);
    assert(tail1.skip(1) =~= "output"@ + Seq::<char>::empty());
    text::lemma_split_piece(seq![], "output"@, seq![], dot);
    assert(Seq::<char>::empty() + "steps"@ =~= "steps"@);
    assert(Seq::<char>::empty() + name =~= name);
    assert(Seq::<char>::empty() + "output"@ =~= "output"@);
    let parts = text::spec_split(key, dot);
    assert(parts =~= seq!["steps"@, name, "output"@]);
    assert(key.len() != "steps"@.len());
    assert(!after.contains_key(key));
    assert("output"@[0] != "status"@[0]);
    let whole = Some(crate::json::JsonView::Object(after));
    let steps = Some(after["steps"@]);
    let entry = Some(after["steps"@]->Object_0[name]);
    assert(walked(whole, parts, 0) == walked(steps, parts, 1));
    assert(walked(steps, parts, 1) == walked(entry, parts, 2));
    assert(walked(entry, parts, 2) == walked(Some(output), parts, 3));
}

/// A document with the references in each of its strings replaced.
pub open spec fn expanded_json(
    values: Map<Seq<char>, crate::json::JsonView>,
    j: crate::json::JsonView,
) -> crate::json::JsonView
    decreases j,
{
    match j {
        crate::json::JsonView::Str(s) => crate::json::JsonView::Str(expanded(values, s)),
        crate::json::JsonView::Array(items) => crate::json::JsonView::Array(
            Seq::new(
                items.len(),
                |i: int|
                    if 0 <= i < items.len() {
                        expanded_json(values, items[i])
                    } else {
                        crate::json::JsonView::Null
                    },
            ),
        ),
        crate::json::JsonView::Object(m) => crate::json::JsonView::Object(
            Map::new(
                |k: Seq<char>| m.contains_key(k),
                |k: Seq<char>|
                    if m.contains_key(k) {
                        expanded_json(values, m[k])
                    } else {
                        crate::json::JsonView::Null
                    },
            ),
        ),
        _ => j,
    }
}

/// The document with the references in each of its strings replaced.
pub fn expand_json(value: &Json, context: &FlowContext) -> (r: Json)
    ensures
        r.deep_view() == expanded_json(context.deep_view(), value.deep_view()),
    decreases *value,
{
    let ghost values = context.deep_view();
    match value {
        Json::Str(s) => Json::Str(context.expand(s.as_str())),
        Json::Array(items) => {
            let mut out: Vec<Json> = Vec::new();
            let mut i: usize = 0;
            while i < items.len()
                invariant
                    *value == Json::Array(*items),
                    values == context.deep_view(),
                    i <= items.len(),
                    out@.len() == i,
                    forall|k: int|
                        0 <= k < i ==> crate::json::json_view(#[trigger] out@[k]) == expanded_json(
                            values,
                            crate::json::json_view(items@[k]),
                        ),
                decreases items.len() - i,
            {
                assert(decreases_to!(*value => value->Array_0));
                assert(decreases_to!(items@ => items@[i as int]));
                out.push(expand_json(&items[i], context));
                i += 1;
            }
            assert(value.deep_view() == crate::json::JsonView::Array(
                crate::json::items_view(items@),
            ));
            assert(crate::json::items_view(out@) =~= expanded_json(
                values,
                value.deep_view(),
            )->Array_0);
            Json::Array(out)
        },
        Json::Object(fields) => {
            let mut out: Vec<(String, Json)> = Vec::new();
            let mut i: usize = 0;
            while i < fields.len()
                invariant
                    *value == Json::Object(*fields),
                    values == context.deep_view(),
                    i <= fields.len(),
                    crate::json::fields_view(out@) == expanded_json(
                        values,
                        crate::json::JsonView::Object(
                            crate::json::fields_view(fields@.take(i as int)),
                        ),
                    )->Object_0,
                decreases fields.len() - i,
            {
                let ghost before = out@;
                assert(fields@.take(i + 1).drop_last() =~= fields@.take(i as int));
                assert(decreases_to!(*value => value->Object_0));
                assert(decreases_to!(fields@ => fields@[i as int]));
                assert(decreases_to!(fields@[i as int] => fields@[i as int].1));
                out.push((fields[i].0.clone(), expand_json(&fields[i].1, context)));
                assert(out@.drop_last() =~= before);
                assert(crate::json::fields_view(out@) =~= expanded_json(
                    values,
                    crate::json::JsonView::Object(crate::json::fields_view(fields@.take(i + 1))),
                )->Object_0);
                i += 1;
            }
            assert(fields@.take(fields@.len() as int) =~= fields@);
            assert(value.deep_view() == crate::json::JsonView::Object(
                crate::json::fields_view(fields@),
            ));
            Json::Object(out)
        },
        other => other.clone(),
    }
}

} // verus!
