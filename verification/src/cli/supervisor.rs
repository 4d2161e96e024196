//! Working on one ticket after the other, or on several at a time.
use crate::cli::pickup::PickedTicket;
use crate::dup::Dup;
use crate::flow::executor::FlowRun;
use crate::text;
use vstd::prelude::*;

verus! {

// ----------------------------------------------------------------- one by one
/// Whether tickets are worked on at the same time: where there is a poll with
/// more than one worker, no ticket is named, and it is no dry run.
pub fn is_parallel(poll: Option<u64>, workers: usize, ticket: Option<&str>, dry_run: bool) -> (r:
    bool)
    ensures
        r == ((poll matches Some(n) && n > 0) && workers > 1 && ticket is None && !dry_run),
{
    let interval = match poll {
        Some(n) => n,
        None => 0,
    };
    interval > 0 && workers > 1 && ticket.is_none() && !dry_run
}

/// How the work on a ticket ended.
#[allow(inconsistent_fields)]
pub enum PickupEnd {
    Ran { key: String, failed: bool },
    /// The plan was printed, and nothing was done.
    DryRun,
    Failed(String),
}

/// What follows.
pub enum PickupNext {
    Return,
    /// Exit with status 1.
    Exit,
    Fail(String),
    /// Wait for the poll interval and start again.
    Again,
}

/// What a `PickupNext` stands for.
pub ghost enum NextView {
    Return,
    Exit,
    Fail(Seq<char>),
    Again,
}

impl DeepView for PickupNext {
    type V = NextView;

    open spec fn deep_view(&self) -> NextView {
        match self {
            PickupNext::Return => NextView::Return,
            PickupNext::Exit => NextView::Exit,
            PickupNext::Fail(e) => NextView::Fail(e@),
            PickupNext::Again => NextView::Again,
        }
    }
}

/// What is said before a wait.
pub open spec fn sleeping(interval: u64) -> Seq<char> {
    "pickup: sleeping "@ + text::spec_decimal(interval as nat)
        + "s before next pick (Ctrl-C to stop)"@
}

/// What is said and what follows when the work on a ticket ended. Without a poll
/// that is the end; with one the next ticket is picked after a wait.
pub open spec fn after_pickup(end: PickupEnd, interval: u64) -> (Seq<Seq<char>>, NextView) {
    match end {
        PickupEnd::DryRun => (seq![], NextView::Return),
        PickupEnd::Ran { key, failed } => if interval == 0 {
            (
                seq![],
                if failed {
                    NextView::Exit
                } else {
                    NextView::Return
                },
            )
        } else if failed {
            (seq!["flow failed for "@ + key@, sleeping(interval)], NextView::Again)
        } else {
            (seq![sleeping(interval)], NextView::Again)
        },
        PickupEnd::Failed(e) => if interval == 0 {
            (seq!["pickup failed: "@ + e@], NextView::Fail(e@))
        } else {
            (seq!["pickup failed: "@ + e@, sleeping(interval)], NextView::Again)
        },
    }
}

fn sleeping_text(interval: u64) -> (r: String)
    ensures
        r@ == sleeping(interval),
{
    text::concat3(
        "pickup: sleeping ",
        &text::decimal(interval),
        "s before next pick (Ctrl-C to stop)",
    )
}

/// What is said and what follows when the work on a ticket ended.
pub fn run_pickup(end: PickupEnd, interval: u64) -> (r: (Vec<String>, PickupNext))
    ensures
        (r.0.deep_view(), r.1.deep_view()) == after_pickup(end, interval),
{
    let mut lines: Vec<String> = Vec::new();
    assert(lines.deep_view() =~= seq![]);
    match end {
        PickupEnd::DryRun => {
            return (lines, PickupNext::Return);
        },
        PickupEnd::Ran { key, failed } => {
            if interval == 0 {
                return (
                    lines,
                    if failed {
                        PickupNext::Exit
                    } else {
                        PickupNext::Return
                    },
                );
            }
            if failed {
                text::put(&mut lines, text::concat("flow failed for ", &key));
            }
        },
        PickupEnd::Failed(e) => {
            text::put(&mut lines, text::concat("pickup failed: ", &e));
            if interval == 0 {
                assert(lines.deep_view() =~= seq!["pickup failed: "@ + e@]);
                return (lines, PickupNext::Fail(e));
            }
        },
    }
    text::put(&mut lines, sleeping_text(interval));
    assert(lines.deep_view() =~= after_pickup(end, interval).0);
    (lines, PickupNext::Again)
}

// ---------------------------------------------------------- several at a time
/// The tickets that are worked on, and how many may be.
pub struct Supervisor {
    workers: usize,
    in_flight: Vec<String>,
    interval: u64,
}

/// What a `Supervisor` stands for.
pub ghost struct SupervisorView {
    pub workers: usize,
    pub in_flight: Seq<Seq<char>>,
    pub interval: u64,
}

impl View for Supervisor {
    type V = SupervisorView;

    closed spec fn view(&self) -> SupervisorView {
        SupervisorView {
            workers: self.workers,
            in_flight: self.in_flight.deep_view(),
            interval: self.interval,
        }
    }
}

impl SupervisorView {
    /// Whether no ticket is worked on twice, and no more than may be.
    pub open spec fn wf(self) -> bool {
        self.in_flight.no_duplicates() && self.in_flight.len() <= self.workers
    }
}

/// What the processes for tickets are started with.
pub struct RunConfig {
    pub flow_path: String,
    pub transition_id: String,
    pub agent_dir: String,
    pub yes: bool,
    pub flow_context: Vec<String>,
}

/// What a `RunConfig` stands for.
pub ghost struct ConfigView {
    pub flow_path: Seq<char>,
    pub transition_id: Seq<char>,
    pub agent_dir: Seq<char>,
    pub yes: bool,
    pub flow_context: Seq<Seq<char>>,
}

impl DeepView for RunConfig {
    type V = ConfigView;

    open spec fn deep_view(&self) -> ConfigView {
        ConfigView {
            flow_path: self.flow_path@,
            transition_id: self.transition_id@,
            agent_dir: self.agent_dir@,
            yes: self.yes,
            flow_context: self.flow_context.deep_view(),
        }
    }
}

/// Each pair behind its option.
pub open spec fn context_args(pairs: Seq<Seq<char>>) -> Seq<Seq<char>>
    decreases pairs.len(),
{
    if pairs.len() == 0 {
        seq![]
    } else {
        context_args(pairs.drop_last()).push("--flow-context"@).push(pairs.last())
    }
}

/// The arguments of the process for a ticket.
pub open spec fn run_args(
    config: ConfigView,
    key: Seq<char>,
    repo: Seq<char>,
) -> Seq<Seq<char>> {
    let fixed = seq![
        "ticket-run"@,
        "--ticket"@,
        key,
        "--repo"@,
        repo,
        "--flow"@,
        config.flow_path,
        "--transition-id"@,
        config.transition_id,
        "--agent-dir"@,
        config.agent_dir,
    ];
    let all = if config.yes {
        fixed.push("--yes"@)
    } else {
        fixed
    };
    all + context_args(config.flow_context)
}

/// The arguments of the process for a ticket.
pub fn ticket_run_args(config: &RunConfig, key: &str, repo: &str) -> (out: Vec<String>)
    ensures
        out.deep_view() == run_args(config.deep_view(), key@, repo@),
{
    let mut out: Vec<String> = Vec::new();
    assert(out.deep_view() =~= seq![]);
    text::put(&mut out, "ticket-run".to_owned());
    text::put(&mut out, "--ticket".to_owned());
    text::put(&mut out, key.to_owned());
    text::put(&mut out, "--repo".to_owned());
    text::put(&mut out, repo.to_owned());
    text::put(&mut out, "--flow".to_owned());
    text::put(&mut out, config.flow_path.dup());
    text::put(&mut out, "--transition-id".to_owned());
    text::put(&mut out, config.transition_id.dup());
    text::put(&mut out, "--agent-dir".to_owned());
    text::put(&mut out, config.agent_dir.dup());
    if config.yes {
        text::put(&mut out, "--yes".to_owned());
    }
    let ghost fixed = out.deep_view();
    let ghost view = config.flow_context.deep_view();
    let mut i: usize = 0;
    assert(view.take(0) =~= seq![]);
    assert(fixed + context_args(seq![]) =~= fixed);
    while i < config.flow_context.len()
        invariant
            i <= config.flow_context@.len(),
            view == config.flow_context.deep_view(),
            out.deep_view() == fixed + context_args(view.take(i as int)),
        decreases config.flow_context.len() - i,
    {
        assert(view.take(i + 1).drop_last() =~= view.take(i as int));
        assert(view[i as int] == config.flow_context@[i as int]@);
        text::put(&mut out, "--flow-context".to_owned());
        text::put(&mut out, config.flow_context[i].dup());
        assert(out.deep_view() =~= fixed + context_args(view.take(i + 1)));
        i += 1;
    }
    assert(view.take(view.len() as int) =~= view);
    assert(out.deep_view() =~= run_args(config.deep_view(), key@, repo@));
    out
}

/// What follows a pick.
pub enum Dispatch {
    /// Wait for the poll interval, after these messages.
    Wait(Vec<String>),
    /// Start the process for this ticket with these arguments.
    Start { key: String, args: Vec<String> },
}

/// What a `Dispatch` stands for.
pub ghost enum DispatchView {
    Wait(Seq<Seq<char>>),
    Start { key: Seq<char>, args: Seq<Seq<char>> },
}

impl DeepView for Dispatch {
    type V = DispatchView;

    open spec fn deep_view(&self) -> DispatchView {
        match self {
            Dispatch::Wait(lines) => DispatchView::Wait(lines.deep_view()),
            Dispatch::Start { key, args } => DispatchView::Start {
                key: key@,
                args: args.deep_view(),
            },
        }
    }
}

/// What follows a pick: a ticket that is not worked on yet is started, and one
/// that is has to wait.
pub open spec fn dispatched(
    s: SupervisorView,
    picked: Result<crate::cli::pickup::PickedView, Seq<char>>,
    config: ConfigView,
) -> (SupervisorView, DispatchView) {
    match picked {
        Err(e) => (
            s,
            DispatchView::Wait(seq!["pickup failed: "@ + e, sleeping(s.interval)]),
        ),
        Ok(t) => if s.in_flight.contains(t.key) {
            (
                s,
                DispatchView::Wait(seq!["pickup: "@ + t.key + " already in flight, waiting"@]),
            )
        } else {
            (
                SupervisorView { in_flight: s.in_flight.push(t.key), ..s },
                DispatchView::Start { key: t.key, args: run_args(config, t.key, t.repo) },
            )
        },
    }
}

/// How a process ended.
pub enum Exit {
    Success,
    /// With this status, or by a signal.
    Code(Option<i32>),
    NotStarted(String),
}

/// What is said of how a process ended; nothing of a success. The status is given
/// in words.
pub open spec fn exit_text(key: Seq<char>, exit: ExitView) -> Option<Seq<char>> {
    match exit {
        ExitView::Success => None,
        ExitView::Status(code) => Some("ticket-run for "@ + key + " exited with "@ + code),
        ExitView::NotStarted(e) => Some("ticket-run for "@ + key + " failed to start: "@ + e),
    }
}

/// What an `Exit` stands for.
pub ghost enum ExitView {
    Success,
    Status(Seq<char>),
    NotStarted(Seq<char>),
}

/// A number in decimal, with its sign.
pub open spec fn signed(n: i32) -> Seq<char> {
    if n < 0 {
        "-"@ + text::spec_decimal((-(n as int)) as nat)
    } else {
        text::spec_decimal(n as nat)
    }
}

impl DeepView for Exit {
    type V = ExitView;

    open spec fn deep_view(&self) -> ExitView {
        match self {
            Exit::Success => ExitView::Success,
            Exit::Code(Some(n)) => ExitView::Status(signed(*n)),
            Exit::Code(None) => ExitView::Status("signal"@),
            Exit::NotStarted(e) => ExitView::NotStarted(e@),
        }
    }
}

fn signed_text(n: i32) -> (r: String)
    ensures
        r@ == signed(n),
{
    if n < 0 {
        text::concat("-", &text::decimal((-(n as i64)) as u64))
    } else {
        text::decimal(n as u64)
    }
}

impl Supervisor {
    /// A supervisor of this many workers, of one at least.
    pub fn new(workers: usize, interval: u64) -> (r: Self)
        ensures
            r@ == (SupervisorView {
                workers: if workers == 0 {
                    1
                } else {
                    workers
                },
                in_flight: seq![],
                interval,
            }),
            r@.wf(),
    {
        let in_flight: Vec<String> = Vec::new();
        assert(in_flight.deep_view() =~= seq![]);
        Supervisor {
            workers: if workers == 0 {
                1
            } else {
                workers
            },
            in_flight,
            interval,
        }
    }

    /// Whether another ticket can be worked on.
    pub fn has_slot(&self) -> (r: bool)
        ensures
            r == (self@.in_flight.len() < self@.workers),
    {
        self.in_flight.len() < self.workers
    }

    /// Takes a pick, and says what follows.
    pub fn dispatch(&mut self, picked: Result<PickedTicket, String>, config: &RunConfig) -> (r:
        Dispatch)
        requires
            old(self)@.wf(),
            old(self)@.in_flight.len() < old(self)@.workers,
        ensures
            final(self)@.wf(),
            (final(self)@, r.deep_view()) == dispatched(
                old(self)@,
                match picked {
                    Ok(t) => Ok(t.deep_view()),
                    Err(e) => Err(e@),
                },
                config.deep_view(),
            ),
    {
        let ghost first = self@;
        let mut lines: Vec<String> = Vec::new();
        assert(lines.deep_view() =~= seq![]);
        match picked {
            Err(e) => {
                text::put(&mut lines, text::concat("pickup failed: ", &e));
                text::put(&mut lines, sleeping_text(self.interval));
                assert(lines.deep_view() =~= seq![
                    "pickup failed: "@ + e@,
                    sleeping(first.interval),
                ]);
                Dispatch::Wait(lines)
            },
            Ok(t) => {
                if text::contains_text(self.in_flight.as_slice(), &t.key) {
                    text::put(
                        &mut lines,
                        text::concat3("pickup: ", &t.key, " already in flight, waiting"),
                    );
                    assert(lines.deep_view() =~= seq![
                        "pickup: "@ + t.key@ + " already in flight, waiting"@,
                    ]);
                    return Dispatch::Wait(lines);
                }
                let args = ticket_run_args(config, &t.key, &t.repo);
                text::put(&mut self.in_flight, t.key.dup());
                proof {
                    let all = self@.in_flight;
                    assert forall|i: int, j: int|
                        0 <= i < all.len() && 0 <= j < all.len() && i != j implies all[i]
                        != all[j] by {
                        if i == first.in_flight.len() {
                            assert(first.in_flight.contains(first.in_flight[j]));
                        } else if j == first.in_flight.len() {
                            assert(first.in_flight.contains(first.in_flight[i]));
                        } else {
                            assert(first.in_flight[i] != first.in_flight[j]);
                        }
                    }
                }
                Dispatch::Start { key: t.key, args }
            },
        }
    }

    /// The work on a ticket ended; gives what is said of it.
    pub fn finished(&mut self, key: &str, exit: &Exit) -> (r: Option<String>)
        requires
            old(self)@.wf(),
        ensures
            final(self)@.wf(),
            final(self)@ == (SupervisorView {
                in_flight: crate::cli::human::without_id(old(self)@.in_flight, key@),
                ..old(self)@
            }),
            r.deep_view() == exit_text(key@, exit.deep_view()),
    {
        let ghost first = self@;
        let ghost view = self.in_flight.deep_view();
        let mut rest: Vec<String> = Vec::new();
        let mut i: usize = 0;
        assert(view.take(0) =~= seq![]);
        assert(rest.deep_view() =~= seq![]);
        while i < self.in_flight.len()
            invariant
                i <= self.in_flight.len(),
                first == self@,
                view == self.in_flight.deep_view(),
                rest.deep_view() == crate::cli::human::without_id(view.take(i as int), key@),
            decreases self.in_flight.len() - i,
        {
            assert(view.take(i + 1).drop_last() =~= view.take(i as int));
            assert(view[i as int] == self.in_flight@[i as int]@);
            if !text::same(&self.in_flight[i], key) {
                text::put(&mut rest, self.in_flight[i].dup());
            }
            i += 1;
        }
        assert(view.take(view.len() as int) =~= view);
        proof {
            crate::cli::human::lemma_without(view, key@);
        }
        self.in_flight = rest;
        match exit {
            Exit::Success => None,
            Exit::Code(code) => {
                let shown = match code {
                    Some(n) => signed_text(*n),
                    None => "signal".to_owned(),
                };
                Some(text::concat4("ticket-run for ", key, " exited with ", &shown))
            },
            Exit::NotStarted(e) => Some(
                text::concat4("ticket-run for ", key, " failed to start: ", e),
            ),
        }
    }
}

/// A ticket that is worked on is not started again, and one whose work ended can
/// be.
pub proof fn law_no_ticket_is_worked_on_twice(
    s: SupervisorView,
    t: crate::cli::pickup::PickedView,
    config: ConfigView,
)
    requires
        s.wf(),
    ensures
        s.in_flight.contains(t.key) ==> dispatched(s, Ok(t), config).1 is Wait,
        dispatched(
            SupervisorView {
                in_flight: crate::cli::human::without_id(s.in_flight, t.key),
                ..s
            },
            Ok(t),
            config,
        ).1 is Start,
{
    crate::cli::human::lemma_without(s.in_flight, t.key);
}

// ------------------------------------------------------------------- one ticket
/// What a dry run prints.
pub open spec fn plan_of(
    picked: crate::cli::pickup::PickedView,
    agent_dir: Seq<char>,
    transition_id: Seq<char>,
    flow_path: Seq<char>,
    flow_name: Seq<char>,
) -> Seq<char> {
    "pickup (dry-run): "@ + picked.key + " — "@ + picked.summary + "\n  repo:       "@
        + picked.repo + "\n  worktree:   agent-m/"@ + picked.key + " in "@ + agent_dir
        + "/worktrees/\n  transition: "@ + picked.key + " → In Progress (transition "@
        + transition_id + ")\n  flow:       "@ + flow_path + " ("@ + flow_name
        + ")\n  context:    ticket="@ + picked.key + " repo="@ + picked.repo
}

/// What a dry run prints.
pub fn dry_run_text(
    picked: &PickedTicket,
    agent_dir: &str,
    transition_id: &str,
    flow_path: &str,
    flow_name: &str,
) -> (r: String)
    ensures
        r@ == plan_of(picked.deep_view(), agent_dir@, transition_id@, flow_path@, flow_name@),
{
    let mut r = text::concat5(
        "pickup (dry-run): ",
        &picked.key,
        " — ",
        &picked.summary,
        "\n  repo:       ",
    );
    r.append(&picked.repo);
    r.append("\n  worktree:   agent-m/");
    r.append(&picked.key);
    r.append(" in ");
    r.append(agent_dir);
    r.append("/worktrees/\n  transition: ");
    r.append(&picked.key);
    r.append(" → In Progress (transition ");
    r.append(transition_id);
    r.append(")\n  flow:       ");
    r.append(flow_path);
    r.append(" (");
    r.append(flow_name);
    r.append(")\n  context:    ticket=");
    r.append(&picked.key);
    r.append(" repo=");
    r.append(&picked.repo);
    r
}

/// What is printed when the work on a ticket starts.
pub open spec fn start_of(picked: crate::cli::pickup::PickedView, transition_id: Seq<char>) -> Seq<
    char,
> {
    "pickup: "@ + picked.key + " — "@ + picked.summary + "\n  repo:       "@ + picked.repo
        + "\n  transition: → In Progress ("@ + transition_id + ")"@
}

/// What is printed when the work on a ticket starts.
pub fn start_text(picked: &PickedTicket, transition_id: &str) -> (r: String)
    ensures
        r@ == start_of(picked.deep_view(), transition_id@),
{
    let mut r = text::concat5(
        "pickup: ",
        &picked.key,
        " — ",
        &picked.summary,
        "\n  repo:       ",
    );
    r.append(&picked.repo);
    r.append("\n  transition: → In Progress (");
    r.append(transition_id);
    r.append(")");
    r
}

/// What is said where the ticket could not be moved on.
pub fn transition_warning(key: &str, error: &str) -> (r: String)
    ensures
        r@ == "warn: could not transition "@ + key@ + ": "@ + error@,
{
    text::concat4("warn: could not transition ", key, ": ", error)
}

/// The line that tells where the work is done.
pub fn worktree_line(dir: &str) -> (r: String)
    ensures
        r@ == "  worktree:   "@ + dir@,
{
    text::concat("  worktree:   ", dir)
}

/// What is posted when work starts that was asked for in a message.
pub const PICKING_UP: &'static str = "🔄 picking it up — I'll report back here.";

/// What is posted at the end of work that was asked for in a message.
pub fn run_pickup_slack(outcome: Result<(String, FlowRun), String>) -> (r: String)
    ensures
        r@ == (match outcome {
            Ok(done) => text::spec_join(
                crate::cli::slack::summary_lines(done.0@, done.1.deep_view()),
                "\n"@,
            ),
            Err(e) => "❌ pickup failed: "@ + e@,
        }),
{
    match outcome {
        Ok((key, run)) => crate::cli::slack::flow_summary(&key, &run),
        Err(e) => text::concat("❌ pickup failed: ", &e),
    }
}

/// The context that the flow for a ticket starts with.
pub fn pick_and_run_context(pairs: &[String], picked: &PickedTicket) -> (out: Vec<String>)
    ensures
        out.deep_view() == pairs.deep_view() + seq![
            "ticket="@ + picked.deep_view().key,
            "repo="@ + picked.deep_view().repo,
            "worktree=true"@,
        ],
{
    let mut out = crate::dup::dup_slice(pairs);
    text::put(&mut out, text::concat("ticket=", &picked.key));
    text::put(&mut out, text::concat("repo=", &picked.repo));
    text::put(&mut out, "worktree=true".to_owned());
    assert(out.deep_view() =~= pairs.deep_view() + seq![
        "ticket="@ + picked.deep_view().key,
        "repo="@ + picked.deep_view().repo,
        "worktree=true"@,
    ]);
    out
}

} // verus!
