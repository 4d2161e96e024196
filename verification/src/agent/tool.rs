//! Who decides whether a tool call is made.
use crate::agent::call::ToolCallInfo;
use crate::agent::risk::RiskPolicy;
use crate::ai::types::ToolSpec;
use crate::dup::Dup;
use crate::json::Json;
use crate::sorted::SortedMap;
use crate::text;
use vstd::prelude::*;

verus! {

/// Whether `regex::Regex::new` takes the pattern and the expression matches
/// somewhere in the text.
pub uninterp spec fn regex_matches(pattern: Seq<char>, haystack: Seq<char>) -> bool;

/// `regex::Regex::new` and `Regex::is_match`. The result is named
/// `regex_matches`; a pattern that is not taken matches nothing.
#[verifier::external_body]
fn matches_regex(pattern: &str, haystack: &str) -> (r: bool)
    ensures
        r == regex_matches(pattern@, haystack@),
{
    regex::Regex::new(pattern).is_ok_and(|re| re.is_match(haystack))
}

/// The patterns of shell commands that are not to be made without asking, each
/// with its reason, in the order in which they are tried on the command in lower case.
pub open spec fn dangerous_patterns() -> Seq<(Seq<char>, Seq<char>)> {
    seq![
        ("rm\\s+-[a-zA-Z]*r[a-zA-Z]*f[a-zA-Z]*\\b"@, "recursive force delete (rm -rf)"@),
        ("rm\\s+-[a-zA-Z]*f[a-zA-Z]*r[a-zA-Z]*\\b"@, "recursive force delete (rm -rf)"@),
        (
            "rm\\s+-r\\b[^\\x0a]*\\s-f\\b|rm\\s+-f\\b[^\\x0a]*\\s-r\\b"@,
            "recursive force delete (rm -r -f)"@,
        ),
        (
            "rm\\s+--recursive\\b[^\\x0a]*\\s--force\\b|rm\\s+--force\\b[^\\x0a]*\\s--recursive\\b"@,
            "recursive force delete (rm --recursive --force)"@,
        ),
        ("sudo\\s+rm\\s+"@, "sudo rm"@),
        ("git\\s+checkout\\s+(--force|-f)\\b"@, "git checkout --force"@),
        ("git\\s+reset\\s+--hard"@, "git reset --hard"@),
        ("git\\s+clean\\s+-(f|d|fd|df)\\b"@, "git clean -f"@),
        ("find\\s+([^\\x0a]*\\s+)?-(exec|delete)\\b"@, "find -exec/-delete"@),
        ("\\b(mkfs|fdisk|format|dd)\\b[^\\x0a]*/dev/"@, "device/partition write"@),
        ("chmod\\s+-r\\s+[0-7]{3,4}"@, "recursive chmod"@),
        (">\\s*/dev/(sd|disk|rdisk)"@, "write to a device"@),
    ]
}

/// The reason of the first pattern, from `from` on, that matches.
pub open spec fn first_match(
    patterns: Seq<(Seq<char>, Seq<char>)>,
    haystack: Seq<char>,
    from: int,
) -> Option<Seq<char>>
    decreases patterns.len() - from,
{
    if from < 0 || from >= patterns.len() {
        None
    } else if regex_matches(patterns[from].0, haystack) {
        Some(patterns[from].1)
    } else {
        first_match(patterns, haystack, from + 1)
    }
}

/// Why a call of `bash` is not to be made without asking.
pub open spec fn danger_of(call: crate::agent::call::CallInfoView) -> Option<Seq<char>> {
    if call.name != "bash"@ {
        None
    } else {
        let command = match call.arguments.text_field("command"@) {
            Some(c) => c,
            None => ""@,
        };
        first_match(
            dangerous_patterns(),
            text::lowercased(text::spec_trim_start(command)),
            0,
        )
    }
}

fn patterns() -> (out: Vec<(&'static str, &'static str)>)
    ensures
        out.deep_view() == dangerous_patterns(),
{
    let mut out: Vec<(&'static str, &'static str)> = Vec::new();
    text::put(
        &mut out,
        ("rm\\s+-[a-zA-Z]*r[a-zA-Z]*f[a-zA-Z]*\\b", "recursive force delete (rm -rf)"),
    );
    text::put(
        &mut out,
        ("rm\\s+-[a-zA-Z]*f[a-zA-Z]*r[a-zA-Z]*\\b", "recursive force delete (rm -rf)"),
    );
    text::put(
        &mut out,
        (
            "rm\\s+-r\\b[^\\x0a]*\\s-f\\b|rm\\s+-f\\b[^\\x0a]*\\s-r\\b",
            "recursive force delete (rm -r -f)",
        ),
    );
    text::put(
        &mut out,
        (
            "rm\\s+--recursive\\b[^\\x0a]*\\s--force\\b|rm\\s+--force\\b[^\\x0a]*\\s--recursive\\b",
            "recursive force delete (rm --recursive --force)",
        ),
    );
    text::put(&mut out, ("sudo\\s+rm\\s+", "sudo rm"));
    text::put(&mut out, ("git\\s+checkout\\s+(--force|-f)\\b", "git checkout --force"));
    text::put(&mut out, ("git\\s+reset\\s+--hard", "git reset --hard"));
    text::put(&mut out, ("git\\s+clean\\s+-(f|d|fd|df)\\b", "git clean -f"));
    text::put(&mut out, ("find\\s+([^\\x0a]*\\s+)?-(exec|delete)\\b", "find -exec/-delete"));
    text::put(&mut out, ("\\b(mkfs|fdisk|format|dd)\\b[^\\x0a]*/dev/", "device/partition write"));
    text::put(&mut out, ("chmod\\s+-r\\s+[0-7]{3,4}", "recursive chmod"));
    text::put(&mut out, (">\\s*/dev/(sd|disk|rdisk)", "write to a device"));
    assert(out.deep_view() =~= dangerous_patterns());
    out
}

/// Why a call of `bash` is not to be made without asking.
pub fn dangerous_bash(call: &ToolCallInfo) -> (r: Option<&'static str>)
    ensures
        r.deep_view() == danger_of(call.deep_view()),
{
    if !text::same(&call.name, "bash") {
        return None;
    }
    let command = match call.arguments.get_str("command") {
        Some(c) => c,
        None => "",
    };
    let lower = text::to_lowercase(&text::trim_start(command));
    let list = patterns();
    let ghost view = list.deep_view();
    let mut i: usize = 0;
    while i < list.len()
        invariant
            i <= list.len(),
            view == list.deep_view(),
            view == dangerous_patterns(),
            danger_of(call.deep_view()) == first_match(view, lower@, 0),
            first_match(view, lower@, 0) == first_match(view, lower@, i as int),
        decreases list.len() - i,
    {
        assert(view[i as int] == list@[i as int].deep_view());
        if matches_regex(list[i].0, &lower) {
            return Some(list[i].1);
        }
        i += 1;
    }
    None
}

// -------------------------------------------------------------------- gates
/// Whether a call may be made.
pub enum Permission {
    Allowed,
    Denied(String),
}

/// What a `Permission` stands for.
pub ghost enum PermissionView {
    Allowed,
    Denied(Seq<char>),
}

impl DeepView for Permission {
    type V = PermissionView;

    open spec fn deep_view(&self) -> PermissionView {
        match self {
            Permission::Allowed => PermissionView::Allowed,
            Permission::Denied(m) => PermissionView::Denied(m@),
        }
    }
}

/// Decides whether calls may be made.
pub trait PermissionGate {
    /// Whether this call can be judged here.
    spec fn can_judge(&self, call: ToolCallInfo) -> bool;

    /// Whether this call may be judged so.
    spec fn may_say(&self, call: ToolCallInfo, permission: PermissionView) -> bool;

    /// Whether the call may be made.
    fn authorize(&self, tool_call: &ToolCallInfo) -> (r: Permission)
        requires
            self.can_judge(*tool_call),
        ensures
            self.may_say(*tool_call, r.deep_view()),
    ;
}

/// Allows every call.
pub struct AlwaysAllowGate;

impl PermissionGate for AlwaysAllowGate {
    open spec fn can_judge(&self, call: ToolCallInfo) -> bool {
        true
    }

    open spec fn may_say(&self, call: ToolCallInfo, permission: PermissionView) -> bool {
        permission == PermissionView::Allowed
    }

    fn authorize(&self, tool_call: &ToolCallInfo) -> (r: Permission) {
        Permission::Allowed
    }
}

/// Leaves the decision to a closure.
pub struct ClosureGate<F: Fn(&ToolCallInfo) -> Permission> {
    pub authorize_fn: F,
}

impl<F: Fn(&ToolCallInfo) -> Permission> ClosureGate<F> {
    /// A gate with this closure.
    pub fn new(authorize_fn: F) -> (r: Self)
        ensures
            r.authorize_fn == authorize_fn,
    {
        ClosureGate { authorize_fn }
    }
}

impl<F: Fn(&ToolCallInfo) -> Permission> PermissionGate for ClosureGate<F> {
    open spec fn can_judge(&self, call: ToolCallInfo) -> bool {
        call_requires(self.authorize_fn, (&call,))
    }

    open spec fn may_say(&self, call: ToolCallInfo, permission: PermissionView) -> bool {
        exists|p: Permission|
            #[trigger] call_ensures(self.authorize_fn, (&call,), p) && p.deep_view() == permission
    }

    fn authorize(&self, tool_call: &ToolCallInfo) -> (r: Permission) {
        (self.authorize_fn)(tool_call)
    }
}

/// Leaves the decision to a closure that says yes or no.
pub struct BoolGate<F: Fn(&ToolCallInfo) -> bool> {
    pub allow_fn: F,
}

impl<F: Fn(&ToolCallInfo) -> bool> BoolGate<F> {
    /// A gate with this closure.
    pub fn new(allow_fn: F) -> (r: Self)
        ensures
            r.allow_fn == allow_fn,
    {
        BoolGate { allow_fn }
    }
}

impl<F: Fn(&ToolCallInfo) -> bool> PermissionGate for BoolGate<F> {
    open spec fn can_judge(&self, call: ToolCallInfo) -> bool {
        call_requires(self.allow_fn, (&call,))
    }

    open spec fn may_say(&self, call: ToolCallInfo, permission: PermissionView) -> bool {
        exists|yes: bool|
            #[trigger] call_ensures(self.allow_fn, (&call,), yes) && permission == (if yes {
                PermissionView::Allowed
            } else {
                PermissionView::Denied("blocked by permission gate"@)
            })
    }

    fn authorize(&self, tool_call: &ToolCallInfo) -> (r: Permission) {
        let yes = (self.allow_fn)(tool_call);
        if yes {
            Permission::Allowed
        } else {
            Permission::Denied("blocked by permission gate".to_owned())
        }
    }
}

/// Asks a closure about risky calls and allows all others.
pub struct SelectiveAskGate<F: Fn(&ToolCallInfo) -> Permission> {
    pub policy: RiskPolicy,
    pub ask: F,
}

impl<F: Fn(&ToolCallInfo) -> Permission> SelectiveAskGate<F> {
    /// A gate with this policy and closure.
    pub fn new(policy: RiskPolicy, ask: F) -> (r: Self)
        ensures
            r.policy == policy,
            r.ask == ask,
    {
        SelectiveAskGate { policy, ask }
    }
}

impl<F: Fn(&ToolCallInfo) -> Permission> PermissionGate for SelectiveAskGate<F> {
    open spec fn can_judge(&self, call: ToolCallInfo) -> bool {
        call_requires(self.ask, (&call,))
    }

    open spec fn may_say(&self, call: ToolCallInfo, permission: PermissionView) -> bool {
        if self.policy.deep_view().risk(call.deep_view()) is Some {
            exists|p: Permission|
                #[trigger] call_ensures(self.ask, (&call,), p) && p.deep_view() == permission
        } else {
            permission == PermissionView::Allowed
        }
    }

    fn authorize(&self, tool_call: &ToolCallInfo) -> (r: Permission) {
        if self.policy.risk(tool_call).is_some() {
            (self.ask)(tool_call)
        } else {
            Permission::Allowed
        }
    }
}

/// What becomes of a decision where nobody can be asked: a risky call that
/// would be allowed is denied.
pub open spec fn hardened(
    risk: Option<Seq<char>>,
    permission: PermissionView,
) -> PermissionView {
    match (risk, permission) {
        (Some(reason), PermissionView::Allowed) => PermissionView::Denied(
            "destructive command requires explicit approval: "@ + reason,
        ),
        _ => permission,
    }
}

/// What becomes of a decision where nobody can be asked.
pub fn harden(risk: Option<String>, permission: Permission) -> (r: Permission)
    ensures
        r.deep_view() == hardened(risk.deep_view(), permission.deep_view()),
{
    match (risk, permission) {
        (Some(reason), Permission::Allowed) => Permission::Denied(
            text::concat("destructive command requires explicit approval: ", &reason),
        ),
        (_, permission) => permission,
    }
}

/// Denies risky calls that another gate would allow.
pub struct DangerousCommandGate<G: PermissionGate> {
    pub policy: RiskPolicy,
    pub inner: G,
}

impl<G: PermissionGate> DangerousCommandGate<G> {
    /// A gate with this policy around another.
    pub fn new(policy: RiskPolicy, inner: G) -> (r: Self)
        ensures
            r.policy == policy,
            r.inner == inner,
    {
        DangerousCommandGate { policy, inner }
    }
}

impl<G: PermissionGate> PermissionGate for DangerousCommandGate<G> {
    open spec fn can_judge(&self, call: ToolCallInfo) -> bool {
        self.inner.can_judge(call)
    }

    open spec fn may_say(&self, call: ToolCallInfo, permission: PermissionView) -> bool {
        exists|p: PermissionView|
            #[trigger] self.inner.may_say(call, p) && permission == hardened(
                self.policy.deep_view().risk(call.deep_view()),
                p,
            )
    }

    fn authorize(&self, tool_call: &ToolCallInfo) -> (r: Permission) {
        let risk = self.policy.risk(tool_call);
        let inner = self.inner.authorize(tool_call);
        harden(risk, inner)
    }
}

/// Whether a tool only reads.
pub open spec fn only_reads(name: Seq<char>) -> bool {
    name == "read"@ || name == "ls"@ || name == "grep"@ || name == "find"@ || name
        == "view_outline"@
}

/// Whether a tool only reads.
pub fn is_read_only(name: &str) -> (r: bool)
    ensures
        r == only_reads(name@),
{
    text::same(name, "read") || text::same(name, "ls") || text::same(name, "grep") || text::same(
        name,
        "find",
    ) || text::same(name, "view_outline")
}

/// Allows calls of tools that only read, and leaves all others to another gate.
pub struct ReadOnlyAutoApproveGate<G: PermissionGate> {
    pub inner: G,
}

impl<G: PermissionGate> ReadOnlyAutoApproveGate<G> {
    /// A gate around another.
    pub fn new(inner: G) -> (r: Self)
        ensures
            r.inner == inner,
    {
        ReadOnlyAutoApproveGate { inner }
    }
}

impl<G: PermissionGate> PermissionGate for ReadOnlyAutoApproveGate<G> {
    open spec fn can_judge(&self, call: ToolCallInfo) -> bool {
        self.inner.can_judge(call)
    }

    open spec fn may_say(&self, call: ToolCallInfo, permission: PermissionView) -> bool {
        if only_reads(call.name@) {
            permission == PermissionView::Allowed
        } else {
            self.inner.may_say(call, permission)
        }
    }

    fn authorize(&self, tool_call: &ToolCallInfo) -> (r: Permission) {
        if is_read_only(&tool_call.name) {
            Permission::Allowed
        } else {
            self.inner.authorize(tool_call)
        }
    }
}

/// In a run without a user no risky call is ever allowed.
pub proof fn law_risky_calls_are_not_waved_through<G: PermissionGate>(
    gate: DangerousCommandGate<G>,
    call: ToolCallInfo,
    permission: PermissionView,
)
    requires
        gate.policy.deep_view().risk(call.deep_view()) is Some,
        gate.may_say(call, permission),
    ensures
        permission is Denied,
{
}

// ------------------------------------------------------------------ asking
/// Asks the user a question.
pub trait AskGate {
    /// Whether this question can be put.
    spec fn can_put(&self, question: String, options: Option<Vec<String>>) -> bool;

    /// Whether this may be the answer.
    spec fn may_answer(
        &self,
        question: String,
        options: Option<Vec<String>>,
        answer: Result<String, String>,
    ) -> bool;

    /// Asks the user, who may choose one of the options.
    fn ask(&self, question: String, options: Option<Vec<String>>) -> (r: Result<String, String>)
        requires
            self.can_put(question, options),
        ensures
            self.may_answer(question, options, r),
    ;
}

/// Leaves the question to a closure.
pub struct ClosureAskGate<F: Fn(String, Option<Vec<String>>) -> Result<String, String>> {
    pub f: F,
}

impl<F: Fn(String, Option<Vec<String>>) -> Result<String, String>> ClosureAskGate<F> {
    /// A gate with this closure.
    pub fn new(f: F) -> (r: Self)
        ensures
            r.f == f,
    {
        ClosureAskGate { f }
    }
}

impl<F: Fn(String, Option<Vec<String>>) -> Result<String, String>> AskGate for ClosureAskGate<F> {
    open spec fn can_put(&self, question: String, options: Option<Vec<String>>) -> bool {
        call_requires(self.f, (question, options))
    }

    open spec fn may_answer(
        &self,
        question: String,
        options: Option<Vec<String>>,
        answer: Result<String, String>,
    ) -> bool {
        call_ensures(self.f, (question, options), answer)
    }

    fn ask(&self, question: String, options: Option<Vec<String>>) -> (r: Result<String, String>) {
        (self.f)(question, options)
    }
}

/// There is nobody to ask.
pub struct UnavailableAskGate;

impl AskGate for UnavailableAskGate {
    open spec fn can_put(&self, question: String, options: Option<Vec<String>>) -> bool {
        true
    }

    open spec fn may_answer(
        &self,
        question: String,
        options: Option<Vec<String>>,
        answer: Result<String, String>,
    ) -> bool {
        answer matches Err(m) && m@
            == "the ask tool requires the interactive UI (not available in print mode)"@
    }

    fn ask(&self, question: String, options: Option<Vec<String>>) -> (r: Result<String, String>) {
        Err("the ask tool requires the interactive UI (not available in print mode)".to_owned())
    }
}

// ----------------------------------------------------------------- registry
/// Whether a tool of this name is kept: it is not excluded, and it is allowed,
/// which all are where none is named.
pub open spec fn keeps(name: Seq<char>, allow: Seq<Seq<char>>, exclude: Seq<Seq<char>>) -> bool {
    !exclude.contains(name) && (allow.len() == 0 || allow.contains(name))
}

/// Whether a tool of this name is kept.
pub fn is_kept(name: &str, allow: &[String], exclude: &[String]) -> (r: bool)
    ensures
        r == keeps(name@, allow.deep_view(), exclude.deep_view()),
{
    assert(allow.deep_view().len() == allow@.len());
    !text::contains_text(exclude, name) && (allow.len() == 0 || text::contains_text(allow, name))
}

/// A tool, as the model is told of it.
pub trait Tool: DeepView + Sized {
    /// What the model is told.
    spec fn described(&self) -> crate::ai::types::ToolView;

    /// The name of the tool.
    fn name(&self) -> (r: &str)
        ensures
            r@ == self.described().name,
    ;

    /// What the tool does.
    fn description(&self) -> (r: String)
        ensures
            r@ == self.described().description,
    ;

    /// The JSON schema of the arguments.
    fn parameters(&self) -> (r: Json)
        ensures
            r.deep_view() == self.described().parameters,
    ;
}

/// The tool as the model is told of it.
pub fn tool_spec<T: Tool>(tool: &T) -> (r: ToolSpec)
    ensures
        r.deep_view() == tool.described(),
{
    ToolSpec {
        name: tool.name().to_owned(),
        description: tool.description(),
        parameters: tool.parameters(),
    }
}

/// What a tool works with: its directory, and who can be asked.
pub struct ToolContext<G: AskGate> {
    pub cwd: String,
    pub ask_gate: Option<G>,
}

/// Tools by their names.
pub struct ToolRegistry<T: Tool> {
    tools: SortedMap<T>,
}

impl<T: Tool> View for ToolRegistry<T> {
    type V = Map<Seq<char>, T::V>;

    closed spec fn view(&self) -> Map<Seq<char>, T::V> {
        self.tools@
    }
}

/// The tools among `tools` that are kept.
pub open spec fn kept_tools<V>(
    tools: Map<Seq<char>, V>,
    allow: Seq<Seq<char>>,
    exclude: Seq<Seq<char>>,
) -> Map<Seq<char>, V> {
    tools.restrict(Set::new(|name: Seq<char>| keeps(name, allow, exclude)))
}

impl<T: Tool> ToolRegistry<T> {
    /// No tools.
    pub fn new() -> (r: Self)
        ensures
            r@ == Map::<Seq<char>, T::V>::empty(),
    {
        ToolRegistry { tools: SortedMap::new() }
    }

    /// Adds a tool, in the place of the one of the same name.
    pub fn register(&mut self, tool: T)
        ensures
            final(self)@ == old(self)@.insert(tool.described().name, tool.deep_view()),
    {
        let name = tool.name().to_owned();
        self.tools.insert(&name, tool);
    }

    /// The tool of this name.
    pub fn get(&self, name: &str) -> (r: Option<&T>)
        ensures
            r.deep_view() == if self@.contains_key(name@) {
                Some(self@[name@])
            } else {
                None
            },
    {
        self.tools.get(name)
    }

    /// The names of the tools, in order.
    pub fn names(&self) -> (out: Vec<String>)
        ensures
            crate::sorted::in_order(out.deep_view()),
            forall|k: Seq<char>| #[trigger] out.deep_view().contains(k) <==> self@.contains_key(k),
    {
        self.tools.names()
    }

    /// The tools, in the order of their names.
    pub fn tools(&self) -> (out: Vec<&T>)
        ensures
            exists|names: Seq<Seq<char>>| #[trigger]
                crate::sorted::in_order(names) && crate::sorted::listed(
                    self@,
                    names,
                    out.deep_view(),
                ),
    {
        self.tools.iter()
    }
}

impl<T: Tool + Dup> ToolRegistry<T> {
    /// The tools that are kept.
    pub fn filter(&self, allow: &[String], exclude: &[String]) -> (r: ToolRegistry<T>)
        ensures
            r@ == kept_tools(self@, allow.deep_view(), exclude.deep_view()),
    {
        let names = self.tools.names();
        let ghost view = names.deep_view();
        let mut tools: SortedMap<T> = SortedMap::new();
        let mut i: usize = 0;
        while i < names.len()
            invariant
                i <= names@.len(),
                view == names.deep_view(),
                forall|k: Seq<char>| #[trigger] view.contains(k) <==> self@.contains_key(k),
                forall|k: Seq<char>| #[trigger]
                    tools@.contains_key(k) <==> view.take(i as int).contains(k) && keeps(
                        k,
                        allow.deep_view(),
                        exclude.deep_view(),
                    ),
                forall|k: Seq<char>| #[trigger] tools@.contains_key(k) ==> tools@[k] == self@[k],
            decreases names.len() - i,
        {
            let ghost before = tools@;
            let ghost name = view[i as int];
            assert(name == names@[i as int]@);
            assert(view.contains(name));
            if is_kept(&names[i], allow, exclude) {
                if let Some(tool) = self.tools.get(&names[i]) {
                    tools.insert(&names[i], tool.dup());
                }
            }
            proof {
                assert(view.take(i + 1) =~= view.take(i as int).push(name));
                assert forall|k: Seq<char>| #[trigger]
                    tools@.contains_key(k) <==> view.take(i + 1).contains(k) && keeps(
                        k,
                        allow.deep_view(),
                        exclude.deep_view(),
                    ) by {
                    crate::sorted::lemma_push_contains(view.take(i as int), name, k);
                    assert(before.contains_key(k) <==> view.take(i as int).contains(k) && keeps(
                        k,
                        allow.deep_view(),
                        exclude.deep_view(),
                    ));
                }
                assert forall|k: Seq<char>| #[trigger] tools@.contains_key(k) implies tools@[k]
                    == self@[k] by {
                    if k != name {
                        assert(before.contains_key(k));
                    }
                }
            }
            i += 1;
        }
        assert(view.take(view.len() as int) =~= view);
        assert(tools@ =~= kept_tools(self@, allow.deep_view(), exclude.deep_view())) by {
            assert forall|k: Seq<char>| tools@.contains_key(k) <==> kept_tools(
                self@,
                allow.deep_view(),
                exclude.deep_view(),
            ).contains_key(k) by {
                assert(view.contains(k) <==> self@.contains_key(k));
            }
        }
        ToolRegistry { tools }
    }
}

} // verus!
