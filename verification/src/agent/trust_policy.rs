//! What a reply must say of itself before its tool calls are made.
//!
//! A turn that calls tools has a gap where it brings no trust block, where its
//! confidence is low and a call is risky, or where its evidence does not hold.
use crate::agent::call::ToolCallInfo;
use crate::agent::risk::RiskPolicy;
use crate::ai::trust::TrustData;
use crate::text;
use vstd::prelude::*;

verus! {

/// How strictly gaps are treated.
#[derive(Debug, Clone, Copy, PartialEq, Eq, Structural)]
pub enum TrustMode {
    /// Gaps are not looked for.
    Off,
    /// Each gap is told.
    Warn,
    /// The user is asked before the calls are made.
    Ask,
    /// The calls are not made.
    Block,
}

impl Default for TrustMode {
    fn default() -> (r: Self)
        ensures
            r == TrustMode::Off,
    {
        TrustMode::Off
    }
}

/// How gaps are found and treated.
#[derive(Debug, Clone, Copy, PartialEq, Eq, Structural)]
pub struct TrustPolicy {
    pub mode: TrustMode,
    /// A confidence below this is low.
    pub confidence_threshold: u8,
}

impl Default for TrustPolicy {
    fn default() -> (r: Self)
        ensures
            r == (TrustPolicy { mode: TrustMode::Off, confidence_threshold: 50 }),
    {
        TrustPolicy { mode: TrustMode::Off, confidence_threshold: 50 }
    }
}

/// The gaps of a turn.
pub struct TrustIssues {
    /// The turn calls tools and brings no trust block.
    pub missing_block: bool,
    /// The confidence, where it is too low.
    pub low_confidence: Option<u8>,
    /// What is wrong with the evidence.
    pub bad_evidence: Vec<String>,
}

/// What `TrustIssues` stand for.
pub ghost struct IssuesView {
    pub missing_block: bool,
    pub low_confidence: Option<u8>,
    pub bad_evidence: Seq<Seq<char>>,
}

impl DeepView for TrustIssues {
    type V = IssuesView;

    open spec fn deep_view(&self) -> IssuesView {
        IssuesView {
            missing_block: self.missing_block,
            low_confidence: self.low_confidence,
            bad_evidence: self.bad_evidence.deep_view(),
        }
    }
}

impl IssuesView {
    /// No gap.
    pub open spec fn none() -> IssuesView {
        IssuesView { missing_block: false, low_confidence: None, bad_evidence: seq![] }
    }

    /// Whether there is no gap.
    pub open spec fn is_clean(self) -> bool {
        !self.missing_block && self.low_confidence is None && self.bad_evidence.len() == 0
    }

    /// The gaps in words, one after the other.
    pub open spec fn parts(self, threshold: u8) -> Seq<Seq<char>> {
        (if self.missing_block {
            seq!["no <trust> block explaining the turn"@]
        } else {
            seq![]
        }) + (match self.low_confidence {
            Some(c) => seq![
                "confidence "@ + text::spec_decimal(c as nat) + "/100 is below the "@
                    + text::spec_decimal(threshold as nat) + " threshold"@,
            ],
            None => seq![],
        }) + self.bad_evidence
    }

    /// The gaps in words.
    pub open spec fn summary(self, threshold: u8) -> Seq<char> {
        text::spec_join(self.parts(threshold), "; "@)
    }
}

impl TrustIssues {
    /// Whether there is no gap.
    pub fn is_clean(&self) -> (r: bool)
        ensures
            r == self.deep_view().is_clean(),
    {
        !self.missing_block && self.low_confidence.is_none() && self.bad_evidence.len() == 0
    }

    /// The gaps in words; nothing where there is none.
    pub fn summary(&self, threshold: u8) -> (r: String)
        ensures
            r@ == self.deep_view().summary(threshold),
    {
        let mut parts: Vec<String> = Vec::new();
        assert(parts.deep_view() =~= seq![]);
        if self.missing_block {
            text::put(&mut parts, "no <trust> block explaining the turn".to_owned());
        }
        if let Some(c) = self.low_confidence {
            text::put(
                &mut parts,
                text::concat5(
                    "confidence ",
                    &text::decimal(c as u64),
                    "/100 is below the ",
                    &text::decimal(threshold as u64),
                    " threshold",
                ),
            );
        }
        crate::dup::extend_dup(&mut parts, &self.bad_evidence);
        assert(parts.deep_view() =~= self.deep_view().parts(threshold));
        text::join(&parts, "; ")
    }
}

// ----------------------------------------------------------------- evidence
/// What is known of a file that is cited.
#[derive(Debug, Clone, Copy, PartialEq, Eq, Structural)]
pub struct FileFacts {
    /// Whether the file is there.
    pub is_file: bool,
    /// How many lines it has, where it could be read.
    pub lines: Option<u64>,
}

/// The number of lines of a text.
pub fn count_lines(content: &str) -> (r: u64)
    ensures
        r == text::spec_lines(content@).len() as u64,
{
    text::lines(content).len() as u64
}

/// The place that a piece of evidence cites.
pub open spec fn citation(file: Seq<char>, line: u64) -> Seq<char> {
    "evidence cites `"@ + file + ":"@ + text::spec_decimal(line as nat)
}

/// What is wrong with a piece of evidence.
pub open spec fn evidence_problem(
    item: crate::ai::trust::EvidenceView,
    facts: FileFacts,
) -> Option<Seq<char>> {
    if !facts.is_file {
        Some("evidence cites `"@ + item.file + "`: file not found"@)
    } else {
        match item.line {
            Some(line) => if line == 0 {
                Some(citation(item.file, line) + "`: line 0 is invalid"@)
            } else {
                match facts.lines {
                    Some(total) => if line > total {
                        Some(
                            citation(item.file, line) + "`: file has only "@
                                + text::spec_decimal(total as nat) + " line(s)"@,
                        )
                    } else {
                        None
                    },
                    None => None,
                }
            },
            None => None,
        }
    }
}

/// What is wrong with the evidence, piece by piece.
pub open spec fn evidence_problems(
    items: Seq<crate::ai::trust::EvidenceView>,
    facts: Seq<FileFacts>,
) -> Seq<Seq<char>>
    decreases items.len(),
{
    if items.len() == 0 {
        seq![]
    } else {
        let before = evidence_problems(items.drop_last(), facts);
        match evidence_problem(items.last(), facts[items.len() - 1]) {
            Some(p) => before.push(p),
            None => before,
        }
    }
}

/// What is wrong with the evidence, given what is known of each file that it
/// cites: a file must be there, and a line must be one of its lines.
pub fn check_evidence(trust: &TrustData, facts: &[FileFacts]) -> (out: Vec<String>)
    requires
        facts@.len() == trust.evidence@.len(),
    ensures
        out.deep_view() == evidence_problems(trust.deep_view().evidence, facts@),
{
    let ghost view = trust.evidence.deep_view();
    let mut out: Vec<String> = Vec::new();
    assert(out.deep_view() =~= seq![]);
    let mut i: usize = 0;
    assert(view.take(0) =~= seq![]);
    while i < trust.evidence.len()
        invariant
            i <= trust.evidence.len(),
            facts@.len() == trust.evidence@.len(),
            view == trust.evidence.deep_view(),
            out.deep_view() == evidence_problems(view.take(i as int), facts@),
        decreases trust.evidence.len() - i,
    {
        assert(view.take(i + 1).drop_last() =~= view.take(i as int));
        let item = &trust.evidence[i];
        let known = facts[i];
        assert(view.take(i + 1).last() == item.deep_view());
        if !known.is_file {
            text::put(
                &mut out,
                text::concat3("evidence cites `", &item.file, "`: file not found"),
            );
        } else if let Some(line) = item.line {
            let place = text::concat4("evidence cites `", &item.file, ":", &text::decimal(line));
            if line == 0 {
                text::put(&mut out, text::concat(&place, "`: line 0 is invalid"));
            } else if let Some(total) = known.lines {
                if line > total {
                    text::put(
                        &mut out,
                        text::concat4(
                            &place,
                            "`: file has only ",
                            &text::decimal(total),
                            " line(s)",
                        ),
                    );
                }
            }
        }
        i += 1;
    }
    assert(view.take(view.len() as int) =~= view);
    out
}

/// Where the files that evidence cites are looked for.
pub fn evidence_paths(trust: &TrustData, cwd: &str) -> (out: Vec<String>)
    ensures
        out.deep_view() == trust.deep_view().evidence.map_values(
            |e: crate::ai::trust::EvidenceView| crate::paths::joined(cwd@, e.file),
        ),
{
    let ghost view = trust.evidence.deep_view();
    let mut out: Vec<String> = Vec::new();
    assert(out.deep_view() =~= seq![]);
    let mut i: usize = 0;
    while i < trust.evidence.len()
        invariant
            i <= trust.evidence.len(),
            view == trust.evidence.deep_view(),
            out.deep_view() == view.take(i as int).map_values(
                |e: crate::ai::trust::EvidenceView| crate::paths::joined(cwd@, e.file),
            ),
        decreases trust.evidence.len() - i,
    {
        text::put(&mut out, crate::paths::join(cwd, &trust.evidence[i].file));
        assert(view[i as int] == trust.evidence@[i as int].deep_view());
        assert(out.deep_view() =~= view.take(i + 1).map_values(
            |e: crate::ai::trust::EvidenceView| crate::paths::joined(cwd@, e.file),
        ));
        i += 1;
    }
    assert(view.take(view.len() as int) =~= view);
    out
}

// --------------------------------------------------------------------- gaps
/// Whether a call is risky; where the risk cannot be judged every call is.
pub open spec fn risky(
    calls: Seq<crate::agent::call::CallInfoView>,
    risk: Option<crate::agent::risk::PolicyView>,
) -> bool {
    match risk {
        Some(policy) => exists|i: int|
            0 <= i < calls.len() && policy.risk(#[trigger] calls[i]) is Some,
        None => calls.len() > 0,
    }
}

/// The gaps of a turn; one without calls has none.
pub open spec fn issues_of(
    policy: TrustPolicy,
    trust: crate::ai::trust::TrustView,
    calls: Seq<crate::agent::call::CallInfoView>,
    risk: Option<crate::agent::risk::PolicyView>,
    facts: Seq<FileFacts>,
) -> IssuesView {
    if calls.len() == 0 {
        IssuesView::none()
    } else {
        IssuesView {
            missing_block: trust.is_empty(),
            low_confidence: match trust.confidence {
                Some(c) => if c < policy.confidence_threshold && risky(calls, risk) {
                    Some(c)
                } else {
                    None
                },
                None => None,
            },
            bad_evidence: evidence_problems(trust.evidence, facts),
        }
    }
}

fn calls_are_risky(calls: &[ToolCallInfo], risk: Option<&RiskPolicy>) -> (r: bool)
    ensures
        r == risky(calls.deep_view(), risk.deep_view()),
{
    match risk {
        None => calls.len() > 0,
        Some(policy) => {
            let ghost view = calls.deep_view();
            let mut i: usize = 0;
            while i < calls.len()
                invariant
                    i <= calls.len(),
                    view == calls.deep_view(),
                    risk.deep_view() == Some(policy.deep_view()),
                    forall|k: int|
                        0 <= k < i ==> policy.deep_view().risk(#[trigger] view[k]) is None,
                decreases calls.len() - i,
            {
                assert(view[i as int] == calls@[i as int].deep_view());
                if policy.risk(&calls[i]).is_some() {
                    assert(policy.deep_view().risk(view[i as int]) is Some);
                    return true;
                }
                i += 1;
            }
            false
        },
    }
}

/// The gaps of a turn.
pub fn assess(
    policy: &TrustPolicy,
    trust: &TrustData,
    calls: &[ToolCallInfo],
    risk: Option<&RiskPolicy>,
    facts: &[FileFacts],
) -> (r: TrustIssues)
    requires
        facts@.len() == trust.evidence@.len(),
    ensures
        r.deep_view() == issues_of(
            *policy,
            trust.deep_view(),
            calls.deep_view(),
            risk.deep_view(),
            facts@,
        ),
{
    assert(calls.deep_view().len() == calls@.len());
    if calls.len() == 0 {
        let r = TrustIssues {
            missing_block: false,
            low_confidence: None,
            bad_evidence: Vec::new(),
        };
        assert(r.bad_evidence.deep_view() =~= seq![]);
        return r;
    }
    let low_confidence = match trust.confidence {
        Some(c) => {
            if c < policy.confidence_threshold && calls_are_risky(calls, risk) {
                Some(c)
            } else {
                None
            }
        },
        None => None,
    };
    TrustIssues {
        missing_block: trust.is_empty(),
        low_confidence,
        bad_evidence: check_evidence(trust, facts),
    }
}

// ---------------------------------------------------------------- decisions
/// What is done with the calls of a turn.
pub enum TrustDecision {
    /// There is no gap: they are made.
    Proceed,
    /// Gaps were told: they are made.
    ProceedWarned,
    /// The user wants them made.
    ApprovedByHuman,
    /// They are not made.
    Denied(String),
}

/// What a `TrustDecision` stands for.
pub ghost enum DecisionView {
    Proceed,
    ProceedWarned,
    ApprovedByHuman,
    Denied(Seq<char>),
}

impl DeepView for TrustDecision {
    type V = DecisionView;

    open spec fn deep_view(&self) -> DecisionView {
        match self {
            TrustDecision::Proceed => DecisionView::Proceed,
            TrustDecision::ProceedWarned => DecisionView::ProceedWarned,
            TrustDecision::ApprovedByHuman => DecisionView::ApprovedByHuman,
            TrustDecision::Denied(m) => DecisionView::Denied(m@),
        }
    }
}

/// What comes of looking for gaps: a decision with what is told, or a question
/// to the user.
pub enum Enforcement {
    Decided(TrustDecision, Vec<String>),
    Ask { question: String, options: Vec<String> },
}

/// What an `Enforcement` stands for.
pub ghost enum EnforcementView {
    Decided(DecisionView, Seq<Seq<char>>),
    Ask { question: Seq<char>, options: Seq<Seq<char>> },
}

impl DeepView for Enforcement {
    type V = EnforcementView;

    open spec fn deep_view(&self) -> EnforcementView {
        match self {
            Enforcement::Decided(d, notices) => EnforcementView::Decided(
                d.deep_view(),
                notices.deep_view(),
            ),
            Enforcement::Ask { question, options } => EnforcementView::Ask {
                question: question@,
                options: options.deep_view(),
            },
        }
    }
}

/// What is done about gaps. The user is asked in ask mode, where there is
/// anybody to ask, and may say yes or no.
pub open spec fn enforced(
    policy: TrustPolicy,
    has_calls: bool,
    issues: IssuesView,
    can_ask: bool,
) -> EnforcementView {
    let summary = issues.summary(policy.confidence_threshold);
    if policy.mode == TrustMode::Off || !has_calls || issues.is_clean() {
        EnforcementView::Decided(DecisionView::Proceed, seq![])
    } else if policy.mode == TrustMode::Warn {
        EnforcementView::Decided(DecisionView::ProceedWarned, seq!["trust gap: "@ + summary])
    } else if policy.mode == TrustMode::Block {
        EnforcementView::Decided(
            DecisionView::Denied("blocked by trust policy: "@ + summary),
            seq!["trust gap: "@ + summary],
        )
    } else if can_ask {
        EnforcementView::Ask {
            question: "The agent's turn has a trust gap:\n"@ + summary
                + "\nRun its tool calls anyway?"@,
            options: seq!["yes"@, "no"@],
        }
    } else {
        EnforcementView::Decided(
            DecisionView::Denied("blocked by trust policy (no human to ask): "@ + summary),
            seq!["trust gap: "@ + summary + "; no human to ask"@],
        )
    }
}

/// What is done after the user was asked: only a yes has the calls made.
pub open spec fn settled(
    policy: TrustPolicy,
    issues: IssuesView,
    answer: Option<Seq<char>>,
) -> (DecisionView, Seq<Seq<char>>) {
    let summary = issues.summary(policy.confidence_threshold);
    if answer matches Some(t) && crate::agent::session::is_yes(t) {
        (
            DecisionView::ApprovedByHuman,
            seq!["trust gap: "@ + summary + "; approved by human"@],
        )
    } else {
        (
            DecisionView::Denied(
                "denied over trust gap (human did not approve): "@ + summary,
            ),
            seq!["trust gap: "@ + summary + "; not approved"@],
        )
    }
}

fn one_notice(notice: String) -> (out: Vec<String>)
    ensures
        out.deep_view() == seq![notice@],
{
    let ghost shown = notice@;
    let mut out: Vec<String> = Vec::new();
    text::put(&mut out, notice);
    assert(out.deep_view() =~= seq![shown]);
    out
}

/// What the user may answer where a turn has gaps.
pub fn trust_options() -> (out: Vec<String>)
    ensures
        out.deep_view() == seq!["yes"@, "no"@],
{
    let mut out: Vec<String> = Vec::new();
    text::put(&mut out, "yes".to_owned());
    text::put(&mut out, "no".to_owned());
    assert(out.deep_view() =~= seq!["yes"@, "no"@]);
    out
}

/// What is done about the gaps of a turn.
pub fn enforce(
    policy: &TrustPolicy,
    trust: &TrustData,
    calls: &[ToolCallInfo],
    risk: Option<&RiskPolicy>,
    can_ask: bool,
    facts: &[FileFacts],
) -> (r: Enforcement)
    requires
        facts@.len() == trust.evidence@.len(),
    ensures
        r.deep_view() == enforced(
            *policy,
            calls@.len() > 0,
            issues_of(*policy, trust.deep_view(), calls.deep_view(), risk.deep_view(), facts@),
            can_ask,
        ),
{
    let issues = assess(policy, trust, calls, risk, facts);
    if policy.mode == TrustMode::Off || calls.len() == 0 || issues.is_clean() {
        let notices: Vec<String> = Vec::new();
        assert(notices.deep_view() =~= seq![]);
        return Enforcement::Decided(TrustDecision::Proceed, notices);
    }
    let summary = issues.summary(policy.confidence_threshold);
    if policy.mode == TrustMode::Warn {
        Enforcement::Decided(
            TrustDecision::ProceedWarned,
            one_notice(text::concat("trust gap: ", &summary)),
        )
    } else if policy.mode == TrustMode::Block {
        Enforcement::Decided(
            TrustDecision::Denied(text::concat("blocked by trust policy: ", &summary)),
            one_notice(text::concat("trust gap: ", &summary)),
        )
    } else if can_ask {
        Enforcement::Ask {
            question: text::concat3(
                "The agent's turn has a trust gap:\n",
                &summary,
                "\nRun its tool calls anyway?",
            ),
            options: trust_options(),
        }
    } else {
        Enforcement::Decided(
            TrustDecision::Denied(
                text::concat("blocked by trust policy (no human to ask): ", &summary),
            ),
            one_notice(text::concat3("trust gap: ", &summary, "; no human to ask")),
        )
    }
}

/// What is done after the user was asked; `None` where nobody answered.
pub fn settle(policy: &TrustPolicy, issues: &TrustIssues, answer: Option<String>) -> (r: (
    TrustDecision,
    Vec<String>,
))
    ensures
        (r.0.deep_view(), r.1.deep_view()) == settled(
            *policy,
            issues.deep_view(),
            answer.deep_view(),
        ),
{
    let summary = issues.summary(policy.confidence_threshold);
    let yes = match &answer {
        Some(t) => text::eq_ignore_ascii_case(&text::trim(t), "yes"),
        None => false,
    };
    if yes {
        (
            TrustDecision::ApprovedByHuman,
            one_notice(text::concat3("trust gap: ", &summary, "; approved by human")),
        )
    } else {
        (
            TrustDecision::Denied(
                text::concat("denied over trust gap (human did not approve): ", &summary),
            ),
            one_notice(text::concat3("trust gap: ", &summary, "; not approved")),
        )
    }
}

// --------------------------------------------------------------------- laws
/// A turn without gaps is never asked about, and nothing is told of it.
pub proof fn law_clean_turn_proceeds(policy: TrustPolicy, has_calls: bool, issues: IssuesView, can_ask: bool)
    requires
        issues.is_clean(),
    ensures
        enforced(policy, has_calls, issues, can_ask) == EnforcementView::Decided(
            DecisionView::Proceed,
            seq![],
        ),
{
}

/// Warning never keeps a call from being made.
pub proof fn law_warn_never_blocks(policy: TrustPolicy, has_calls: bool, issues: IssuesView, can_ask: bool)
    requires
        policy.mode == TrustMode::Warn,
    ensures
        enforced(policy, has_calls, issues, can_ask) matches EnforcementView::Decided(d, _) && !(d is Denied),
{
}

/// Where calls are to be blocked, a turn with gaps makes none, and nobody is
/// asked.
pub proof fn law_block_denies_every_gap(policy: TrustPolicy, issues: IssuesView, can_ask: bool)
    requires
        policy.mode == TrustMode::Block,
        !issues.is_clean(),
    ensures
        enforced(policy, true, issues, can_ask) matches EnforcementView::Decided(d, _) && d is Denied,
{
}

/// Without anybody to ask, a turn with gaps makes no calls in ask mode.
pub proof fn law_ask_without_human_denies(policy: TrustPolicy, issues: IssuesView)
    requires
        policy.mode == TrustMode::Ask,
        !issues.is_clean(),
    ensures
        enforced(policy, true, issues, false) matches EnforcementView::Decided(d, _) && d is Denied,
{
}

/// In ask mode a turn with gaps is put to the user with the options yes and no.
/// Its calls are made where the answer is yes, in capitals or not and with spaces
/// around it, and in no other case; one thing is told either way.
pub proof fn law_ask_lets_only_a_yes_through(
    policy: TrustPolicy,
    issues: IssuesView,
    answer: Option<Seq<char>>,
)
    requires
        policy.mode == TrustMode::Ask,
        !issues.is_clean(),
    ensures
        enforced(policy, true, issues, true) matches EnforcementView::Ask { options, .. } && options
            == seq!["yes"@, "no"@],
        settled(policy, issues, answer).0 == DecisionView::ApprovedByHuman <==> (answer matches Some(
            t,
        ) && crate::agent::session::is_yes(t)),
        settled(policy, issues, answer).0 is ApprovedByHuman || settled(
            policy,
            issues,
            answer,
        ).0 is Denied,
        settled(policy, issues, answer).1.len() == 1,
{
}

} // verus!
