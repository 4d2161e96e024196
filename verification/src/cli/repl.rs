//! The interactive session: what is shown of a turn, and what a line means.
use crate::agent::message::SessionMessage;
use crate::agent::session::{AgentEvent, Mode};
use crate::ai::trust::{extract_trust_block, TrustData};
use crate::ai::types::StreamEvent;
use crate::cli::ansi::{cyan, dim, fg_only, green, red, render_inline, yellow, Ansi, Shade};
use crate::cli::section::{render_box, ReplyBox, SectionKind};
use crate::cli::toolout::{humanize, summarize, ToolStore};
use crate::dup::Dup;
use crate::json::Json;
use crate::text;
use vstd::prelude::*;

verus! {

// ------------------------------------------------------------------- filter
/// Holds back what may be the beginning of a trust block.
pub struct StreamFilter {
    buffer: String,
}

impl View for StreamFilter {
    type V = Seq<char>;

    closed spec fn view(&self) -> Seq<char> {
        self.buffer@
    }
}

/// How many characters of a buffer are let through: those before a block, else
/// all but the last twelve bytes.
pub open spec fn let_through(buffer: Seq<char>) -> Seq<char> {
    match text::spec_find(buffer, "<trust>"@) {
        Some(i) => buffer.take(i),
        None => match text::spec_find(buffer, "<confidence>"@) {
            Some(i) => buffer.take(i),
            None => if text::byte_count(buffer) > 12 {
                text::bytes_within(buffer, (text::byte_count(buffer) - 12) as nat)
            } else {
                seq![]
            },
        },
    }
}

impl StreamFilter {
    /// A filter that holds nothing.
    pub fn new() -> (r: Self)
        ensures
            r@ == Seq::<char>::empty(),
    {
        StreamFilter { buffer: String::new() }
    }

    /// Takes a part of a reply, and gives what can be shown. Nothing is lost:
    /// what is not given is held.
    pub fn push(&mut self, delta: &str) -> (out: String)
        ensures
            out@ == let_through(old(self)@ + delta@),
            out@ + final(self)@ == old(self)@ + delta@,
    {
        self.buffer.append(delta);
        let ghost all = self.buffer@;
        let n = text::count(&self.buffer);
        proof {
            reveal_strlit("<trust>");
            reveal_strlit("<confidence>");
            text::lemma_find_from(all, "<trust>"@, 0);
            text::lemma_find_from(all, "<confidence>"@, 0);
        }
        let found = match text::find(&self.buffer, "<trust>") {
            Some(i) => Some(i),
            None => text::find(&self.buffer, "<confidence>"),
        };
        let k = match found {
            Some(i) => i,
            None => {
                let bytes = text::byte_len(&self.buffer);
                if bytes > 12 {
                    let head = text::cut_to_bytes(&self.buffer, bytes - 12);
                    proof {
                        text::lemma_bytes_within_is_beginning(all, (bytes - 12) as nat);
                    }
                    text::count(&head)
                } else {
                    0
                }
            },
        };
        let out = text::sub_string(&self.buffer, 0, k);
        let rest = text::sub_string(&self.buffer, k, n);
        assert(out@ =~= let_through(all));
        assert(out@ + rest@ =~= all);
        self.buffer = rest;
        out
    }

    /// What is left at the end of a reply, without the trust block in it.
    pub fn finish(&mut self) -> (out: String)
        ensures
            final(self)@ == Seq::<char>::empty(),
            out@ == crate::ai::trust::trust_extracted(old(self)@).1,
    {
        let (_, cleaned) = extract_trust_block(&self.buffer);
        self.buffer = String::new();
        cleaned
    }
}

/// Whether no trust block begins in what was shown, whatever follows.
pub open spec fn hides_blocks(shown: Seq<char>, buffer: Seq<char>) -> bool {
    forall|j: int, rest: Seq<char>|
        0 <= j < shown.len() ==> !#[trigger] text::matches_at(shown + buffer + rest, "<trust>"@, j)
}

/// The beginning of a trust block is never shown, however it is cut into parts.
pub proof fn law_trust_block_is_not_shown(shown: Seq<char>, buffer: Seq<char>, delta: Seq<char>)
    requires
        hides_blocks(shown, buffer),
    ensures
        ({
            let out = let_through(buffer + delta);
            hides_blocks(shown + out, (buffer + delta).skip(out.len() as int))
        }),
{
    let all = buffer + delta;
    let out = let_through(all);
    lemma_let_through(all);
    let kept = all.skip(out.len() as int);
    assert(out =~= all.take(out.len() as int));
    assert forall|j: int, rest: Seq<char>|
        0 <= j < (shown + out).len() implies !#[trigger] text::matches_at(
        shown + out + kept + rest,
        "<trust>"@,
        j,
    ) by {
        let whole = shown + out + kept + rest;
        assert(whole =~= shown + buffer + (delta + rest));
        if j >= shown.len() {
            lemma_no_block_in_output(all, rest, j - shown.len());
            assert(all + rest =~= whole.skip(shown.len() as int));
            if text::matches_at(whole, "<trust>"@, j) {
                let k = j - shown.len();
                let n = "<trust>"@.len();
                assert((all + rest).subrange(k, k + n) =~= whole.subrange(j, j + n as int));
            }
        }
    }
}

proof fn lemma_let_through(all: Seq<char>)
    ensures
        let_through(all).len() <= all.len(),
        let_through(all) == all.take(let_through(all).len() as int),
{
    reveal_strlit("<trust>");
    reveal_strlit("<confidence>");
    text::lemma_find_from(all, "<trust>"@, 0);
    text::lemma_find_from(all, "<confidence>"@, 0);
    if text::byte_count(all) > 12 {
        text::lemma_bytes_within_is_beginning(all, (text::byte_count(all) - 12) as nat);
    }
}

proof fn lemma_ascii_bytes(s: Seq<char>)
    requires
        text::is_ascii_text(s),
    ensures
        text::byte_count(s) == s.len(),
    decreases s.len(),
{
    if s.len() > 0 {
        let shorter = s.drop_last();
        assert forall|i: int| 0 <= i < shorter.len() implies (#[trigger] shorter[i] as u32)
            < 128 by {
            assert(shorter[i] == s[i]);
        }
        lemma_ascii_bytes(shorter);
        assert(s[s.len() - 1] == s.last());
    }
}

proof fn lemma_no_block_in_output(all: Seq<char>, rest: Seq<char>, j: int)
    requires
        0 <= j < let_through(all).len(),
    ensures
        !text::matches_at(all + rest, "<trust>"@, j),
{
    reveal_strlit("<trust>");
    reveal_strlit("<confidence>");
    lemma_let_through(all);
    text::lemma_find_from(all, "<trust>"@, 0);
    text::lemma_find_from(all, "<confidence>"@, 0);
    let whole = all + rest;
    let mark = "<trust>"@;
    if text::matches_at(whole, mark, j) {
        if j + 7 <= all.len() {
            assert(whole.subrange(j, j + 7) =~= all.subrange(j, j + 7));
            assert(text::matches_at(all, mark, j));
        } else if text::spec_find(all, mark) is None && text::spec_find(
            all,
            "<confidence>"@,
        ) is None {
            let max = (text::byte_count(all) - 12) as nat;
            let out = let_through(all);
            text::lemma_bytes_within_is_beginning(all, max);
            let tail = all.skip(out.len() as int);
            assert(out + tail =~= all);
            text::lemma_byte_count_add(out, tail);
            assert forall|i: int| 0 <= i < tail.len() implies (#[trigger] tail[i] as u32) < 128 by {
                let at = out.len() + i;
                assert(tail[i] == whole[at]);
                assert(whole[at] == whole.subrange(j, j + 7)[at - j]);
                assert(whole[at] == mark[at - j]);
            }
            lemma_ascii_bytes(tail);
        }
    }
}

// ---------------------------------------------------------------- completion
/// The commands.
pub open spec fn command_names() -> Seq<Seq<char>> {
    seq![
        "/exit"@,
        "/quit"@,
        "/sessions"@,
        "/undo"@,
        "/model"@,
        "/variant"@,
        "/mode"@,
        "/usage"@,
        "/level"@,
        "/harness"@,
        "/refine"@,
        "/todos"@,
        "/worktree"@,
        "/journal"@,
        "/checkpoint"@,
        "/restore"@,
        "/flows"@,
        "/compact"@,
        "/tool-output"@,
        "/tools"@,
        "/color"@,
        "/provider"@,
        "/tasks"@,
        "/help"@,
    ]
}

fn commands() -> (out: Vec<&'static str>)
    ensures
        out.deep_view() == command_names(),
{
    let out: Vec<&'static str> = vec![
        "/exit",
        "/quit",
        "/sessions",
        "/undo",
        "/model",
        "/variant",
        "/mode",
        "/usage",
        "/level",
        "/harness",
        "/refine",
        "/todos",
        "/worktree",
        "/journal",
        "/checkpoint",
        "/restore",
        "/flows",
        "/compact",
        "/tool-output",
        "/tools",
        "/color",
        "/provider",
        "/tasks",
        "/help",
    ];
    assert(out.deep_view() =~= command_names());
    out
}

/// The names that begin with `prefix`.
pub open spec fn beginning_with(names: Seq<Seq<char>>, prefix: Seq<char>) -> Seq<Seq<char>>
    decreases names.len(),
{
    if names.len() == 0 {
        seq![]
    } else if text::begins(names.last(), prefix) {
        beginning_with(names.drop_last(), prefix).push(names.last())
    } else {
        beginning_with(names.drop_last(), prefix)
    }
}

/// The commands that a line can be completed to, given the part of it that
/// stands before the cursor.
pub fn complete(line: &str, prefix: &str) -> (out: Vec<String>)
    ensures
        out.deep_view() == if text::begins(line@, "/"@) {
            beginning_with(command_names(), prefix@)
        } else {
            seq![]
        },
{
    let mut out: Vec<String> = Vec::new();
    assert(out.deep_view() =~= seq![]);
    if !text::starts_with(line, "/") {
        return out;
    }
    let names = commands();
    let ghost view = names.deep_view();
    let mut i: usize = 0;
    assert(view.take(0) =~= seq![]);
    while i < names.len()
        invariant
            i <= names.len(),
            view == names.deep_view(),
            out.deep_view() == beginning_with(view.take(i as int), prefix@),
        decreases names.len() - i,
    {
        assert(view.take(i + 1).drop_last() =~= view.take(i as int));
        assert(view[i as int] == names@[i as int]@);
        if text::starts_with(names[i], prefix) {
            text::put(&mut out, names[i].to_owned());
        }
        i += 1;
    }
    assert(view.take(view.len() as int) =~= view);
    out
}

/// What is left of the first name, from `from` on, that begins with a line.
pub open spec fn hint_from(names: Seq<Seq<char>>, line: Seq<char>, from: int) -> Option<Seq<char>>
    decreases names.len() - from,
{
    if from < 0 || from >= names.len() {
        None
    } else if text::begins(names[from], line) {
        Some(names[from].skip(line.len() as int))
    } else {
        hint_from(names, line, from + 1)
    }
}

/// What would complete a line to a command, where the cursor stands at its end.
pub fn hint(line: &str, at_end: bool) -> (r: Option<String>)
    ensures
        r.deep_view() == if text::begins(line@, "/"@) && at_end {
            hint_from(command_names(), line@, 0)
        } else {
            None
        },
{
    if !text::starts_with(line, "/") || !at_end {
        return None;
    }
    let names = commands();
    let ghost view = names.deep_view();
    let n = text::count(line);
    let mut i: usize = 0;
    while i < names.len()
        invariant
            i <= names.len(),
            n == line@.len(),
            at_end,
            text::begins(line@, "/"@),
            view == names.deep_view(),
            view == command_names(),
            hint_from(view, line@, 0) == hint_from(view, line@, i as int),
        decreases names.len() - i,
    {
        assert(view[i as int] == names@[i as int]@);
        if text::starts_with(names[i], line) {
            let m = text::count(names[i]);
            let rest = text::sub_string(names[i], n, m);
            assert(rest@ =~= names@[i as int]@.skip(n as int));
            return Some(rest);
        }
        i += 1;
    }
    None
}

// -------------------------------------------------------------------- a turn
/// What is to be done for an event of a turn, in order.
pub enum ReplOut {
    /// End the indicator that shows that the model is thinking.
    StopThinking,
    /// Write this.
    Print(String),
    /// Keep a copy of this file, so that its change can be undone.
    Snapshot(String),
}

/// What a `ReplOut` stands for.
pub ghost enum OutView {
    StopThinking,
    Print(Seq<char>),
    Snapshot(Seq<char>),
}

impl DeepView for ReplOut {
    type V = OutView;

    open spec fn deep_view(&self) -> OutView {
        match self {
            ReplOut::StopThinking => OutView::StopThinking,
            ReplOut::Print(s) => OutView::Print(s@),
            ReplOut::Snapshot(s) => OutView::Snapshot(s@),
        }
    }
}

/// What an interactive session holds of its turn.
pub struct Repl {
    filter: StreamFilter,
    reply: ReplyBox,
    store: ToolStore,
    current_tool: Option<(String, Json)>,
    turn_text: String,
    turn_trust: Option<TrustData>,
}

/// What a `Repl` stands for.
pub ghost struct ReplView {
    pub filter: Seq<char>,
    pub reply: crate::cli::section::ReplyBoxView,
    pub store: Seq<crate::cli::toolout::OutputView>,
    pub current_tool: Option<(Seq<char>, crate::json::JsonView)>,
    pub turn_text: Seq<char>,
    pub turn_trust: Option<crate::ai::trust::TrustView>,
}

impl DeepView for Repl {
    type V = ReplView;

    closed spec fn deep_view(&self) -> ReplView {
        ReplView {
            filter: self.filter@,
            reply: self.reply@,
            store: self.store@,
            current_tool: self.current_tool.deep_view(),
            turn_text: self.turn_text@,
            turn_trust: self.turn_trust.deep_view(),
        }
    }
}

/// Something to write, where it is not empty.
pub open spec fn print_of(s: Seq<char>) -> Seq<OutView> {
    if s.len() == 0 {
        seq![]
    } else {
        seq![OutView::Print(s)]
    }
}

/// A part of the reply was streamed.
pub open spec fn on_text(
    a: crate::cli::ansi::AnsiView,
    r: ReplView,
    delta: Seq<char>,
) -> (ReplView, Seq<OutView>) {
    let all = r.filter + delta;
    let out = let_through(all);
    let next = ReplView {
        filter: all.skip(out.len() as int),
        turn_text: r.turn_text + delta,
        ..r
    };
    if out.len() == 0 {
        (next, seq![OutView::StopThinking])
    } else {
        let (reply, shown) = crate::cli::section::box_pushed(a, r.reply, out);
        (ReplView { reply, ..next }, seq![OutView::StopThinking] + print_of(shown))
    }
}

/// What was held back of a reply is shown, and its panel is closed.
pub open spec fn closed_reply(
    a: crate::cli::ansi::AnsiView,
    r: ReplView,
) -> (ReplView, Seq<OutView>) {
    let rest = crate::ai::trust::trust_extracted(r.filter).1;
    let (reply, shown) = if rest.len() == 0 {
        (r.reply, seq![])
    } else {
        crate::cli::section::box_pushed(a, r.reply, rest)
    };
    let (reply, last) = crate::cli::section::box_finished(a, reply);
    (ReplView { filter: seq![], reply, ..r }, print_of(shown) + print_of(last))
}

/// The file that a call is about to change.
pub open spec fn changed_file(name: Seq<char>, arguments: crate::json::JsonView) -> Option<
    Seq<char>,
> {
    if name == "write"@ || name == "edit"@ {
        arguments.text_field("path"@)
    } else {
        None
    }
}

/// A tool starts.
pub open spec fn on_tool_start(
    a: crate::cli::ansi::AnsiView,
    r: ReplView,
    name: Seq<char>,
    arguments: crate::json::JsonView,
) -> (ReplView, Seq<OutView>) {
    let (next, shown) = closed_reply(a, ReplView { current_tool: Some((name, arguments)), ..r });
    let kept = match changed_file(name, arguments) {
        Some(path) => seq![OutView::Snapshot(path)],
        None => seq![],
    };
    (next, kept + shown + seq![OutView::StopThinking])
}

/// The lines of the panel for a tool call.
pub open spec fn tool_lines(
    a: crate::cli::ansi::AnsiView,
    name: Seq<char>,
    arguments: crate::json::JsonView,
    outcome: crate::agent::call::OutcomeView,
) -> Seq<Seq<char>> {
    let summary = crate::cli::toolout::summary_of(outcome.content);
    let extra = crate::cli::toolout::extra_lines(outcome.content);
    let tail = if extra > 0 {
        crate::cli::ansi::in_shade(
            a,
            " … (+"@ + text::spec_decimal(extra) + " lines)"@,
            Shade::Grey,
        )
    } else {
        ""@
    };
    seq![
        crate::cli::ansi::in_shade(
            a,
            crate::cli::toolout::humanized(name, arguments),
            Shade::Cyan,
        ),
        if outcome.is_error {
            crate::cli::ansi::in_shade(a, "✗"@, Shade::Red) + " "@ + summary
        } else {
            "↳ "@ + crate::cli::ansi::in_shade(a, summary, Shade::Grey) + tail
        },
    ]
}

/// A tool ended: its output is kept, and its call is shown.
pub open spec fn on_tool_end(
    a: crate::cli::ansi::AnsiView,
    r: ReplView,
    outcome: crate::agent::call::OutcomeView,
    width: usize,
) -> (ReplView, Seq<OutView>) {
    let (name, arguments) = match r.current_tool {
        Some(call) => call,
        None => ("?"@, crate::json::JsonView::Object(Map::empty())),
    };
    (
        ReplView {
            current_tool: None,
            store: crate::cli::toolout::kept(
                r.store.push(
                    crate::cli::toolout::OutputView { name, full: outcome.content },
                ),
            ),
            ..r
        },
        seq![
            OutView::Print(
                crate::cli::section::box_of(
                    a,
                    "tools"@,
                    tool_lines(a, name, arguments, outcome),
                    crate::cli::section::KindView::Tools,
                    width,
                    a.on,
                ).push('\n'),
            ),
        ],
    )
}

/// An event of the agent.
pub open spec fn on_event_view(
    a: crate::cli::ansi::AnsiView,
    r: ReplView,
    event: crate::agent::session::EventView,
    width: usize,
) -> (ReplView, Seq<OutView>) {
    match event {
        crate::agent::session::EventView::MessageUpdate {
            delta: crate::ai::types::StreamView::TextDelta { delta },
        } => on_text(a, r, delta),
        crate::agent::session::EventView::ToolExecutionStart { name, arguments, .. } =>
            on_tool_start(a, r, name, arguments),
        crate::agent::session::EventView::ToolExecutionEnd { outcome, .. } => on_tool_end(
            a,
            r,
            outcome,
            width,
        ),
        crate::agent::session::EventView::TurnEnd {
            message: crate::agent::message::SessionView::Assistant { trust, .. },
            ..
        } => if trust.is_empty() {
            (r, seq![])
        } else {
            (ReplView { turn_trust: Some(trust), ..r }, seq![])
        },
        crate::agent::session::EventView::Notice { message } => (
            r,
            seq![
                OutView::Print(
                    "\n"@ + crate::cli::ansi::in_shade(a, "[Notice]"@, Shade::Yellow) + " "@
                        + message + "\n"@,
                ),
            ],
        ),
        _ => (r, seq![]),
    }
}

fn push_print(outs: &mut Vec<ReplOut>, s: String)
    ensures
        final(outs).deep_view() == old(outs).deep_view() + print_of(s@),
{
    if text::count(&s) > 0 {
        text::put(outs, ReplOut::Print(s));
    }
    assert(outs.deep_view() =~= old(outs).deep_view() + print_of(s@));
}

fn nothing() -> (outs: Vec<ReplOut>)
    ensures
        outs.deep_view() == Seq::<OutView>::empty(),
{
    let outs: Vec<ReplOut> = Vec::new();
    assert(outs.deep_view() =~= seq![]);
    outs
}

impl Repl {
    /// A session without turns.
    pub fn new(width: usize) -> (r: Self)
        ensures
            r.deep_view() == (ReplView {
                filter: seq![],
                reply: crate::cli::section::ReplyBoxView {
                    active: false,
                    buf: seq![],
                    width: crate::cli::section::bounded(width),
                },
                store: seq![],
                current_tool: None,
                turn_text: seq![],
                turn_trust: None,
            }),
    {
        Repl {
            filter: StreamFilter::new(),
            reply: ReplyBox::new(width),
            store: ToolStore::new(),
            current_tool: None,
            turn_text: String::new(),
            turn_trust: None,
        }
    }

    /// The outputs of tools.
    pub fn store(&self) -> (r: &ToolStore)
        ensures
            r@ == self.deep_view().store,
    {
        &self.store
    }

    /// A turn begins.
    pub fn begin_turn(&mut self, width: usize)
        ensures
            final(self).deep_view() == (ReplView {
                filter: seq![],
                reply: crate::cli::section::ReplyBoxView {
                    active: false,
                    buf: seq![],
                    width: crate::cli::section::bounded(width),
                },
                turn_trust: None,
                ..old(self).deep_view()
            }),
    {
        self.filter = StreamFilter::new();
        self.turn_trust = None;
        self.reply = ReplyBox::new(width);
    }

    fn take_text(&mut self, ansi: &Ansi, delta: &str) -> (outs: Vec<ReplOut>)
        ensures
            (final(self).deep_view(), outs.deep_view()) == on_text(
                ansi.deep_view(),
                old(self).deep_view(),
                delta@,
            ),
    {
        let ghost first = self.deep_view();
        let mut outs = nothing();
        text::put(&mut outs, ReplOut::StopThinking);
        assert(outs.deep_view() =~= seq![OutView::StopThinking]);
        let shown = self.filter.push(delta);
        assert(self.filter@ =~= (first.filter + delta@).skip(shown@.len() as int));
        if text::count(&shown) > 0 {
            let boxed = self.reply.push(ansi, &shown);
            push_print(&mut outs, boxed);
        }
        self.turn_text.append(delta);
        outs
    }

    fn close_reply(&mut self, ansi: &Ansi, outs: &mut Vec<ReplOut>)
        ensures
            ({
                let (next, shown) = closed_reply(ansi.deep_view(), old(self).deep_view());
                &&& final(self).deep_view() == next
                &&& final(outs).deep_view() == old(outs).deep_view() + shown
            }),
    {
        let ghost told = outs.deep_view();
        let rest = self.filter.finish();
        let mut shown = String::new();
        if text::count(&rest) > 0 {
            shown = self.reply.push(ansi, &rest);
        }
        let ghost mid = shown@;
        push_print(outs, shown);
        let last = self.reply.finish(ansi);
        let ghost end = last@;
        push_print(outs, last);
        assert(outs.deep_view() =~= told + (print_of(mid) + print_of(end)));
    }

    fn take_tool_start(&mut self, ansi: &Ansi, name: &str, arguments: &Json) -> (outs: Vec<ReplOut>)
        ensures
            (final(self).deep_view(), outs.deep_view()) == on_tool_start(
                ansi.deep_view(),
                old(self).deep_view(),
                name@,
                arguments.deep_view(),
            ),
    {
        let ghost first = self.deep_view();
        let mut outs = nothing();
        if text::same(name, "write") || text::same(name, "edit") {
            if let Some(path) = arguments.get_str("path") {
                text::put(&mut outs, ReplOut::Snapshot(path.to_owned()));
            }
        }
        let ghost kept = outs.deep_view();
        self.current_tool = Some((name.to_owned(), arguments.dup()));
        assert(self.deep_view() == (ReplView {
            current_tool: Some((name@, arguments.deep_view())),
            ..first
        }));
        let ghost shown = closed_reply(ansi.deep_view(), self.deep_view()).1;
        self.close_reply(ansi, &mut outs);
        text::put(&mut outs, ReplOut::StopThinking);
        assert(outs.deep_view() =~= kept + shown + seq![OutView::StopThinking]);
        assert(kept =~= match changed_file(name@, arguments.deep_view()) {
            Some(path) => seq![OutView::Snapshot(path)],
            None => seq![],
        });
        outs
    }

    fn take_tool_end(
        &mut self,
        ansi: &Ansi,
        content: &str,
        is_error: bool,
        width: usize,
    ) -> (outs: Vec<ReplOut>)
        ensures
            (final(self).deep_view(), outs.deep_view()) == on_tool_end(
                ansi.deep_view(),
                old(self).deep_view(),
                crate::agent::call::OutcomeView { content: content@, is_error },
                width,
            ),
    {
        let ghost a = ansi.deep_view();
        let ghost outcome = crate::agent::call::OutcomeView { content: content@, is_error };
        let mut outs = nothing();
        let (name, arguments) = match self.current_tool.take() {
            Some(call) => call,
            None => ("?".to_owned(), Json::object()),
        };
        self.store.push(&name, content.to_owned());
        let (summary, extra) = summarize(content);
        let tail = if extra > 0 {
            dim(ansi, &text::concat3(" … (+", &text::decimal(extra as u64), " lines)"))
        } else {
            "".to_owned()
        };
        let header = cyan(ansi, &humanize(&name, &arguments));
        let body = if is_error {
            text::concat3(&red(ansi, "✗"), " ", &summary)
        } else {
            text::concat3("↳ ", &dim(ansi, &summary), &tail)
        };
        let mut lines: Vec<String> = Vec::new();
        assert(lines.deep_view() =~= seq![]);
        text::put(&mut lines, header);
        text::put(&mut lines, body);
        assert(lines.deep_view() =~= tool_lines(a, name@, arguments.deep_view(), outcome));
        let mut shown = render_box(ansi, "tools", &lines, SectionKind::Tools, width);
        shown.push('\n');
        let ghost panel = shown@;
        text::put(&mut outs, ReplOut::Print(shown));
        assert(outs.deep_view() =~= seq![OutView::Print(panel)]);
        outs
    }

    /// Takes an event of the agent, and says what is to be done for it.
    pub fn on_event(&mut self, ansi: &Ansi, event: &AgentEvent, width: usize) -> (outs: Vec<
        ReplOut,
    >)
        ensures
            (final(self).deep_view(), outs.deep_view()) == on_event_view(
                ansi.deep_view(),
                old(self).deep_view(),
                event.deep_view(),
                width,
            ),
    {
        match event {
            AgentEvent::MessageUpdate { delta: StreamEvent::TextDelta { delta } } => self.take_text(
                ansi,
                delta,
            ),
            AgentEvent::ToolExecutionStart { name, arguments, .. } => self.take_tool_start(
                ansi,
                name,
                arguments,
            ),
            AgentEvent::ToolExecutionEnd { outcome, .. } => self.take_tool_end(
                ansi,
                &outcome.content,
                outcome.is_error,
                width,
            ),
            AgentEvent::TurnEnd { message: SessionMessage::Assistant { trust, .. }, .. } => {
                if !trust.is_empty() {
                    self.turn_trust = Some(trust.dup());
                }
                nothing()
            },
            AgentEvent::Notice { message } => {
                let shown = text::concat5(
                    "\n",
                    &yellow(ansi, "[Notice]"),
                    " ",
                    message,
                    "\n",
                );
                let ghost said = shown@;
                let mut outs = nothing();
                text::put(&mut outs, ReplOut::Print(shown));
                assert(outs.deep_view() =~= seq![OutView::Print(said)]);
                outs
            },
            _ => nothing(),
        }
    }
}

// ----------------------------------------------------------- the end of a turn
/// What a turn leaves.
pub struct TurnEnd {
    /// What is to be done, in order.
    pub outs: Vec<ReplOut>,
    /// All that the model said in the turn.
    pub full_text: String,
    /// What the reply says of its reliability.
    pub trust: Option<TrustData>,
}

/// A panel with one line.
pub open spec fn one_line_box(
    a: crate::cli::ansi::AnsiView,
    title: Seq<char>,
    line: Seq<char>,
    kind: crate::cli::section::KindView,
    width: usize,
) -> Seq<char> {
    crate::cli::section::box_of(a, title, seq![line], kind, width, a.on)
}

/// What a reply says of its reliability: what the agent read, else what stands in
/// the text.
pub open spec fn trust_of(
    read: Option<crate::ai::trust::TrustView>,
    full_text: Seq<char>,
) -> Option<crate::ai::trust::TrustView> {
    match read {
        Some(t) if !t.is_empty() => Some(t),
        _ => {
            let t = crate::ai::trust::trust_extracted(full_text).0;
            if t.is_empty() {
                None
            } else {
                Some(t)
            }
        },
    }
}

/// What is to be done at the end of a turn.
pub open spec fn end_outs(
    a: crate::cli::ansi::AnsiView,
    r: ReplView,
    error: Option<Seq<char>>,
    width: usize,
) -> Seq<OutView> {
    let failed = match error {
        Some(e) => seq![
            OutView::StopThinking,
            OutView::Print(
                one_line_box(a, "error"@, e, crate::cli::section::KindView::Error, width).push(
                    '\n',
                ),
            ),
        ],
        None => seq![],
    };
    let decision = match trust_of(r.turn_trust, r.turn_text) {
        Some(t) => seq![OutView::Print(crate::cli::section::decision_of(a, t, width).push('\n'))],
        None => seq![],
    };
    failed + closed_reply(a, r).1 + seq![OutView::StopThinking] + decision
}

/// A panel with one line.
pub(crate) fn line_box(ansi: &Ansi, title: &str, line: &str, kind: SectionKind, width: usize) -> (r:
    String)
    ensures
        r@ == one_line_box(ansi.deep_view(), title@, line@, kind.deep_view(), width),
{
    let mut lines: Vec<String> = Vec::new();
    assert(lines.deep_view() =~= seq![]);
    text::put(&mut lines, line.to_owned());
    assert(lines.deep_view() =~= seq![line@]);
    render_box(ansi, title, &lines, kind, width)
}

impl Repl {
    fn take_trust(&mut self, full_text: &str) -> (r: Option<TrustData>)
        ensures
            r.deep_view() == trust_of(old(self).deep_view().turn_trust, full_text@),
            final(self).deep_view() == (ReplView { turn_trust: None, ..old(self).deep_view() }),
    {
        if let Some(t) = self.turn_trust.take() {
            if !t.is_empty() {
                return Some(t);
            }
        }
        let (t, _) = extract_trust_block(full_text);
        if t.is_empty() {
            None
        } else {
            Some(t)
        }
    }

    /// A turn ends, with an error where the agent gave one. What was held back is
    /// shown, and then what the reply says of its reliability.
    pub fn end_turn(&mut self, ansi: &Ansi, error: Option<&str>, width: usize) -> (r: TurnEnd)
        ensures
            r.outs.deep_view() == end_outs(
                ansi.deep_view(),
                old(self).deep_view(),
                error.deep_view(),
                width,
            ),
            r.full_text@ == old(self).deep_view().turn_text,
            r.trust.deep_view() == trust_of(
                old(self).deep_view().turn_trust,
                old(self).deep_view().turn_text,
            ),
            final(self).deep_view() == (ReplView {
                turn_text: seq![],
                turn_trust: None,
                ..closed_reply(ansi.deep_view(), old(self).deep_view()).0
            }),
    {
        let ghost a = ansi.deep_view();
        let ghost first = self.deep_view();
        let mut outs = nothing();
        if let Some(e) = error {
            text::put(&mut outs, ReplOut::StopThinking);
            let mut shown = line_box(ansi, "error", e, SectionKind::Error, width);
            shown.push('\n');
            text::put(&mut outs, ReplOut::Print(shown));
        }
        let ghost failed = outs.deep_view();
        assert(failed =~= match error.deep_view() {
            Some(e) => seq![
                OutView::StopThinking,
                OutView::Print(
                    one_line_box(
                        a,
                        "error"@,
                        e,
                        crate::cli::section::KindView::Error,
                        width,
                    ).push('\n'),
                ),
            ],
            None => seq![],
        });
        let ghost closing = closed_reply(a, first).1;
        self.close_reply(ansi, &mut outs);
        text::put(&mut outs, ReplOut::StopThinking);
        assert(outs.deep_view() =~= failed + closing + seq![OutView::StopThinking]);
        let full_text = self.turn_text.dup();
        self.turn_text = String::new();
        let trust = self.take_trust(&full_text);
        let ghost told = outs.deep_view();
        if let Some(t) = &trust {
            let mut shown = crate::cli::section::print_decision(ansi, t, width);
            shown.push('\n');
            text::put(&mut outs, ReplOut::Print(shown));
            assert(outs.deep_view() =~= told + seq![
                OutView::Print(
                    crate::cli::section::decision_of(a, t.deep_view(), width).push('\n'),
                ),
            ]);
        } else {
            assert(outs.deep_view() =~= told + seq![]);
        }
        TurnEnd { outs, full_text, trust }
    }
}

/// A problem with a piece of evidence, as it is shown.
pub fn evidence_line(ansi: &Ansi, problem: &str) -> (r: String)
    ensures
        r@ == crate::cli::ansi::in_shade(ansi.deep_view(), "[evidence]"@, Shade::Yellow) + " "@
            + problem@,
{
    text::concat3(&yellow(ansi, "[evidence]"), " ", problem)
}

// --------------------------------------------------------------------- input
/// The prompt in front of a line.
pub open spec fn prompt_of(a: crate::cli::ansi::AnsiView, mode: Mode, model: Seq<char>) -> Seq<
    char,
> {
    let tag = match mode {
        Mode::Plan => crate::cli::ansi::in_shade(a, "plan"@, Shade::Yellow),
        Mode::Build => crate::cli::ansi::in_shade(a, "build"@, Shade::Green),
    };
    "agent-m ("@ + tag + " · "@ + crate::cli::ansi::in_shade(a, model, Shade::Cyan) + ") > "@
}

/// The prompt in front of a line.
pub fn prompt_text(ansi: &Ansi, mode: Mode, model: &str) -> (r: String)
    ensures
        r@ == prompt_of(ansi.deep_view(), mode, model@),
{
    let tag = match mode {
        Mode::Plan => yellow(ansi, "plan"),
        Mode::Build => green(ansi, "build"),
    };
    text::concat5("agent-m (", &tag, " · ", &cyan(ansi, model), ") > ")
}

/// What came from the terminal.
pub enum Input {
    Line(String),
    Interrupted,
    Eof,
    Failed(String),
}

/// What a line means.
pub enum Intent {
    /// Nothing.
    Skip,
    /// A command.
    Command(String),
    /// A prompt for the agent.
    Prompt(String),
    /// The end of the session, after this message.
    Stop(String),
}

/// What an `Intent` stands for.
pub ghost enum IntentView {
    Skip,
    Command(Seq<char>),
    Prompt(Seq<char>),
    Stop(Seq<char>),
}

impl DeepView for Intent {
    type V = IntentView;

    open spec fn deep_view(&self) -> IntentView {
        match self {
            Intent::Skip => IntentView::Skip,
            Intent::Command(s) => IntentView::Command(s@),
            Intent::Prompt(s) => IntentView::Prompt(s@),
            Intent::Stop(s) => IntentView::Stop(s@),
        }
    }
}

/// What came from the terminal means.
pub open spec fn intent_of(input: Input) -> IntentView {
    match input {
        Input::Line(line) => {
            let s = text::spec_trim(line@);
            if s.len() == 0 {
                IntentView::Skip
            } else if text::begins(s, "/"@) {
                IntentView::Command(s)
            } else {
                IntentView::Prompt(s)
            }
        },
        Input::Interrupted => IntentView::Stop("CTRL-C"@),
        Input::Eof => IntentView::Stop("CTRL-D"@),
        Input::Failed(e) => IntentView::Stop("Error: "@ + e@),
    }
}

/// Reads what came from the terminal.
pub fn read_input(input: Input) -> (r: Intent)
    ensures
        r.deep_view() == intent_of(input),
{
    match input {
        Input::Line(line) => {
            let s = text::trim(&line);
            if text::count(&s) == 0 {
                Intent::Skip
            } else if text::starts_with(&s, "/") {
                Intent::Command(s)
            } else {
                Intent::Prompt(s)
            }
        },
        Input::Interrupted => Intent::Stop("CTRL-C".to_owned()),
        Input::Eof => Intent::Stop("CTRL-D".to_owned()),
        Input::Failed(e) => Intent::Stop(text::concat("Error: ", &e)),
    }
}

// ---------------------------------------------------------------------- plans
/// A step of a plan.
pub struct TodoItem {
    pub step: usize,
    pub text: String,
    pub completed: bool,
}

/// What a `TodoItem` stands for.
pub ghost struct TodoView {
    pub step: usize,
    pub text: Seq<char>,
    pub completed: bool,
}

impl DeepView for TodoItem {
    type V = TodoView;

    open spec fn deep_view(&self) -> TodoView {
        TodoView { step: self.step, text: self.text@, completed: self.completed }
    }
}

/// How many steps are completed.
pub open spec fn completed_in(todos: Seq<TodoView>) -> nat
    decreases todos.len(),
{
    if todos.len() == 0 {
        0
    } else {
        completed_in(todos.drop_last()) + if todos.last().completed {
            1nat
        } else {
            0
        }
    }
}

/// A step of a plan as it is shown.
pub open spec fn todo_line(a: crate::cli::ansi::AnsiView, item: TodoView) -> Seq<char> {
    let mark = if item.completed {
        crate::cli::ansi::in_foreground(a, "✓"@, Shade::Green)
    } else {
        crate::cli::ansi::in_foreground(a, "○"@, Shade::Grey)
    };
    let step = crate::cli::ansi::in_foreground(
        a,
        text::spec_decimal(item.step as nat),
        Shade::Cyan,
    );
    let shown = crate::cli::ansi::inline_of(a, item.text);
    mark + " "@ + step + ". "@ + if item.completed {
        crate::cli::ansi::in_shade(a, shown, Shade::Grey)
    } else {
        shown
    }
}

/// The panel for a plan.
pub open spec fn plan_of(
    a: crate::cli::ansi::AnsiView,
    todos: Seq<TodoView>,
    in_plan_mode: bool,
    width: usize,
) -> Seq<char> {
    let title = "plan ("@ + text::spec_decimal(completed_in(todos)) + "/"@ + text::spec_decimal(
        todos.len(),
    ) + ")"@;
    crate::cli::section::box_of(
        a,
        if in_plan_mode {
            title + " · read-only"@
        } else {
            title
        },
        todos.map_values(|t: TodoView| todo_line(a, t)),
        crate::cli::section::KindView::Plan,
        width,
        a.on,
    )
}

fn show_todo(ansi: &Ansi, item: &TodoItem) -> (r: String)
    ensures
        r@ == todo_line(ansi.deep_view(), item.deep_view()),
{
    let mark = if item.completed {
        fg_only(ansi, "✓", Shade::Green)
    } else {
        fg_only(ansi, "○", Shade::Grey)
    };
    let step = fg_only(ansi, &text::decimal(item.step as u64), Shade::Cyan);
    let shown = render_inline(ansi, &item.text);
    let shown = if item.completed {
        dim(ansi, &shown)
    } else {
        shown
    };
    text::concat5(&mark, " ", &step, ". ", &shown)
}

/// The panel for a plan: how much of it is completed, and its steps.
pub fn print_plan(ansi: &Ansi, todos: &[TodoItem], in_plan_mode: bool, width: usize) -> (r: String)
    ensures
        r@ == plan_of(ansi.deep_view(), todos.deep_view(), in_plan_mode, width),
{
    let ghost a = ansi.deep_view();
    let ghost view = todos.deep_view();
    let mut lines: Vec<String> = Vec::new();
    let mut completed: usize = 0;
    let mut i: usize = 0;
    assert(view.take(0) =~= seq![]);
    while i < todos.len()
        invariant
            i <= todos.len(),
            a == ansi.deep_view(),
            view == todos.deep_view(),
            completed <= i,
            completed == completed_in(view.take(i as int)),
            lines@.len() == i,
            forall|k: int|
                0 <= k < i ==> (#[trigger] lines@[k])@ == todo_line(a, todos@[k].deep_view()),
        decreases todos.len() - i,
    {
        assert(view.take(i + 1).drop_last() =~= view.take(i as int));
        assert(view[i as int] == todos@[i as int].deep_view());
        if todos[i].completed {
            completed += 1;
        }
        lines.push(show_todo(ansi, &todos[i]));
        i += 1;
    }
    assert(view.take(view.len() as int) =~= view);
    assert(lines.deep_view() =~= view.map_values(|t: TodoView| todo_line(a, t)));
    let mut title = text::concat5(
        "plan (",
        &text::decimal(completed as u64),
        "/",
        &text::decimal(todos.len() as u64),
        ")",
    );
    if in_plan_mode {
        title.append(" · read-only");
    }
    render_box(ansi, &title, &lines, SectionKind::Plan, width)
}

} // verus!
