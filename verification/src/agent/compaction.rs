//! Compacting a conversation: its older messages are replaced by a summary that the
//! model makes of them, in up to three attempts.
use crate::agent::session::{Agent, AgentEvent};
use crate::ai::provider::AiError;
use crate::ai::types::{ChatRequest, StreamEvent};
use vstd::prelude::*;

verus! {

/// The attempts that are made.
pub const ATTEMPTS: usize = 3;

/// A compaction that is under way.
#[derive(Debug, Clone, Copy, PartialEq, Eq, Structural)]
pub struct Compaction {
    /// How many messages are to be replaced.
    pub split: usize,
    /// How many attempts failed.
    pub attempt: usize,
}

/// What is to be done next for a compaction.
pub enum CompactStep {
    /// The model is to be asked; `summary_reply` takes what comes of it.
    Ask(Compaction, ChatRequest),
    /// It is over: the summary, which is empty where nothing was replaced, or the
    /// error of the last attempt, and the events to publish.
    Done(Result<String, AiError>, Vec<AgentEvent>),
}

/// What a `CompactStep` stands for.
pub ghost enum CompactView {
    Ask(Compaction, crate::ai::types::RequestView),
    Done(
        Result<Seq<char>, crate::ai::provider::AiErrorView>,
        Seq<crate::agent::session::EventView>,
    ),
}

/// What a summary, or the error in its place, stands for.
pub open spec fn summary_view(r: Result<String, AiError>) -> Result<
    Seq<char>,
    crate::ai::provider::AiErrorView,
> {
    match r {
        Ok(s) => Ok(s@),
        Err(e) => Err(e.deep_view()),
    }
}

impl DeepView for CompactStep {
    type V = CompactView;

    open spec fn deep_view(&self) -> CompactView {
        match self {
            CompactStep::Ask(c, request) => CompactView::Ask(*c, request.deep_view()),
            CompactStep::Done(r, events) => CompactView::Done(
                summary_view(*r),
                events.deep_view(),
            ),
        }
    }
}

/// The attempt at which a compaction is.
pub open spec fn attempted(a: crate::agent::session::AgentView, c: Compaction) -> CompactView {
    CompactView::Ask(
        c,
        crate::agent::session::summary_request(
            a.options,
            crate::agent::session::attempt_messages(
                a.messages.take(c.split as int),
                c.attempt as nat,
            ),
        ),
    )
}

/// How a compaction that keeps `keep` messages begins. Less than two older messages
/// are not worth it.
pub open spec fn compaction_begun(a: crate::agent::session::AgentView, keep: nat) -> CompactView {
    let split = crate::agent::session::split_of(a.messages, keep);
    if split < 2 {
        CompactView::Done(Ok(seq![]), seq![])
    } else {
        attempted(a, Compaction { split: split as usize, attempt: 0 })
    }
}

/// The agent, and what is to be done, once an attempt gave `reply`. After an error
/// the next attempt is made, as long as there is one.
pub open spec fn compaction_replied(
    a: crate::agent::session::AgentView,
    c: Compaction,
    reply: Result<Seq<char>, crate::ai::provider::AiErrorView>,
) -> (crate::agent::session::AgentView, CompactView) {
    match reply {
        Ok(t) => {
            let (after, events) = crate::agent::session::compacted(a, c.split as int, Some(t));
            let blank = crate::text::spec_trim(t).len() == 0;
            (
                after,
                CompactView::Done(
                    Ok(
                        if blank {
                            seq![]
                        } else {
                            t
                        },
                    ),
                    events,
                ),
            )
        },
        Err(e) => if c.attempt + 1 < ATTEMPTS {
            (a, attempted(a, Compaction { split: c.split, attempt: (c.attempt + 1) as usize }))
        } else {
            (a, CompactView::Done(Err(e), seq![]))
        },
    }
}

impl Agent {
    fn attempt_step(&self, c: Compaction) -> (r: CompactStep)
        requires
            c.split <= self.messages@.len(),
            c.split * 3 <= usize::MAX,
        ensures
            r.deep_view() == attempted(self.deep_view(), c),
    {
        CompactStep::Ask(c, self.summary_attempt(c.split, c.attempt))
    }

    /// Begins to replace all but the last `keep_messages` messages by a summary.
    pub fn summarize_and_compact(&self, keep_messages: usize) -> (r: CompactStep)
        requires
            self.messages@.len() * 3 <= usize::MAX,
        ensures
            r.deep_view() == compaction_begun(self.deep_view(), keep_messages as nat),
            r matches CompactStep::Ask(c, _) ==> c.split <= self.messages@.len(),
    {
        match self.compaction_split(keep_messages) {
            None => {
                let events: Vec<AgentEvent> = Vec::new();
                assert(events.deep_view() =~= seq![]);
                CompactStep::Done(Ok(String::new()), events)
            },
            Some(split) => self.attempt_step(Compaction { split, attempt: 0 }),
        }
    }

    /// Takes what the model made of the messages, or the error that came instead.
    pub fn summary_reply(&mut self, c: Compaction, reply: Result<String, AiError>) -> (r:
        CompactStep)
        requires
            c.split <= old(self).messages@.len(),
            c.split * 3 <= usize::MAX,
        ensures
            (final(self).deep_view(), r.deep_view()) == compaction_replied(
                old(self).deep_view(),
                c,
                summary_view(reply),
            ),
            r matches CompactStep::Ask(next, _) ==> next.split == c.split,
            r is Ask ==> c.split <= final(self).messages@.len(),
    {
        match reply {
            Ok(t) => {
                let shown = if crate::text::count(&crate::text::trim(&t)) == 0 {
                    String::new()
                } else {
                    t.clone()
                };
                let events = self.finish_compaction(c.split, Some(t));
                CompactStep::Done(Ok(shown), events)
            },
            Err(e) => if c.attempt < ATTEMPTS - 1 {
                self.attempt_step(Compaction { split: c.split, attempt: c.attempt + 1 })
            } else {
                let events: Vec<AgentEvent> = Vec::new();
                assert(events.deep_view() =~= seq![]);
                CompactStep::Done(Err(e), events)
            },
        }
    }
}

/// The text that was received, where no error came with it.
pub open spec fn summary_read(events: Seq<crate::ai::types::StreamView>) -> Option<Seq<char>>
    decreases events.len(),
{
    if events.len() == 0 {
        Some(seq![])
    } else {
        match summary_read(events.drop_last()) {
            None => None,
            Some(t) => match events.last() {
                crate::ai::types::StreamView::TextDelta { delta } => Some(t + delta),
                crate::ai::types::StreamView::Error { .. } => None,
                _ => Some(t),
            },
        }
    }
}

proof fn lemma_no_summary_after_an_error(events: Seq<crate::ai::types::StreamView>, i: int)
    requires
        0 <= i < events.len(),
        events[i] is Error,
    ensures
        summary_read(events) is None,
    decreases events.len(),
{
    if i < events.len() - 1 {
        lemma_no_summary_after_an_error(events.drop_last(), i);
    }
}

/// The summary in the events of a reply, or the error that they hold.
pub fn try_summarize(events: &[StreamEvent]) -> (r: Result<String, AiError>)
    ensures
        summary_view(r) == match summary_read(events.deep_view()) {
            Some(t) => Ok(t),
            None => Err(
                crate::ai::provider::AiErrorView::Api("stream error during compaction"@),
            ),
        },
{
    let ghost view = events.deep_view();
    let mut summary = String::new();
    let mut i: usize = 0;
    assert(view.take(0) =~= seq![]);
    while i < events.len()
        invariant
            i <= events.len(),
            view == events.deep_view(),
            summary_read(view.take(i as int)) == Some(summary@),
        decreases events.len() - i,
    {
        assert(view.take(i + 1).drop_last() =~= view.take(i as int));
        assert(view[i as int] == events@[i as int].deep_view());
        match &events[i] {
            StreamEvent::TextDelta { delta } => {
                summary.append(delta);
            },
            StreamEvent::Error { .. } => {
                proof {
                    lemma_no_summary_after_an_error(view, i as int);
                }
                return Err(AiError::Api("stream error during compaction".to_owned()));
            },
            _ => {},
        }
        i += 1;
    }
    assert(view.take(view.len() as int) =~= view);
    Ok(summary)
}

/// A compaction that does not succeed leaves the conversation as it was.
pub proof fn law_failed_compaction_changes_nothing(
    a: crate::agent::session::AgentView,
    c: Compaction,
    reply: Result<Seq<char>, crate::ai::provider::AiErrorView>,
)
    requires
        !(compaction_replied(a, c, reply).1 matches CompactView::Done(
            Ok(t),
            _,
        ) && t.len() > 0),
    ensures
        compaction_replied(a, c, reply).0 == a,
{
    if let Ok(t) = reply {
        if crate::text::spec_trim(t).len() > 0 {
            assert(t.len() > 0);
        }
    }
}

/// No more than three attempts are made.
pub proof fn law_attempts_are_bounded(
    a: crate::agent::session::AgentView,
    c: Compaction,
    reply: Result<Seq<char>, crate::ai::provider::AiErrorView>,
)
    ensures
        compaction_replied(a, c, reply).1 matches CompactView::Ask(next, _) ==> next.attempt
            == c.attempt + 1 && next.attempt < ATTEMPTS,
{
}

/// A summary is all text that was received for it, one piece after the other; where an
/// error came with it there is none.
pub proof fn law_summary_is_all_that_was_said(events: Seq<crate::ai::types::StreamView>)
    ensures
        (forall|i: int| 0 <= i < events.len() ==> !(#[trigger] events[i] is Error)) ==> summary_read(
            events,
        ) == Some(crate::agent::laws::all_said(events)),
        (exists|i: int| 0 <= i < events.len() && #[trigger] events[i] is Error) ==> summary_read(
            events,
        ) is None,
    decreases events.len(),
{
    if events.len() == 0 {
        assert(events.map_values(
            |e: crate::ai::types::StreamView| crate::agent::laws::said_in(e),
        ) =~= seq![]);
    } else {
        let init = events.drop_last();
        law_summary_is_all_that_was_said(init);
        crate::agent::laws::lemma_all_said_of_one_more(events);
        let said = crate::agent::laws::all_said(init);
        assert(said + Seq::<char>::empty() =~= said);
        if forall|i: int| 0 <= i < events.len() ==> !(#[trigger] events[i] is Error) {
            assert forall|i: int| 0 <= i < init.len() implies !(#[trigger] init[i] is Error) by {
                assert(!(events[i] is Error));
            }
            assert(!(events[events.len() - 1] is Error));
        }
        if exists|i: int| 0 <= i < events.len() && #[trigger] events[i] is Error {
            let i = choose|i: int| 0 <= i < events.len() && #[trigger] events[i] is Error;
            lemma_no_summary_after_an_error(events, i);
        }
    }
}

/// The summary of two stretches of a reply is that of the first and then that of the
/// second.
pub proof fn law_summaries_add_up(
    first: Seq<crate::ai::types::StreamView>,
    second: Seq<crate::ai::types::StreamView>,
)
    requires
        summary_read(first) is Some,
        summary_read(second) is Some,
    ensures
        summary_read(first + second) == Some(summary_read(first)->0 + summary_read(second)->0),
    decreases second.len(),
{
    if second.len() == 0 {
        assert(first + second =~= first);
        assert(summary_read(first)->0 + Seq::<char>::empty() =~= summary_read(first)->0);
    } else {
        law_summaries_add_up(first, second.drop_last());
        assert((first + second).drop_last() =~= first + second.drop_last());
        assert(summary_read(first + second)->0 =~= summary_read(first)->0 + summary_read(
            second,
        )->0);
    }
}

/// The first attempt puts every message that is to be replaced to the model, as it was
/// said, and asks for a summary behind them; no tools are offered.
pub proof fn law_first_attempt_shows_all_that_is_replaced(
    a: crate::agent::session::AgentView,
    keep: nat,
)
    requires
        a.messages.len() <= usize::MAX,
    ensures
        compaction_begun(a, keep) matches CompactView::Ask(c, request) ==> c.attempt == 0
            && request.messages.len() == c.split + 1 && c.split <= a.messages.len()
            && request.tools.len() == 0 && request.model == a.options.model && (forall|i: int|
            0 <= i < c.split ==> crate::agent::laws::says(
                #[trigger] request.messages[i],
                a.messages[i],
            )) && request.messages.last() == (crate::ai::types::MessageView::User {
            content: crate::agent::session::SUMMARY_PROMPT@,
            images: seq![],
        }),
{
    crate::agent::session::law_no_orphaned_results(a.messages, keep);
    if let CompactView::Ask(c, request) = compaction_begun(a, keep) {
        let older = a.messages.take(c.split as int);
        assert forall|i: int| 0 <= i < c.split implies crate::agent::laws::says(
            #[trigger] request.messages[i],
            a.messages[i],
        ) by {
            assert(request.messages[i] == older[i].to_llm());
            crate::agent::laws::lemma_says(older[i]);
        }
    }
}

/// The messages that stay are no more than were to be kept, and as many unless those
/// would begin with tool results, which go with their calls.
pub proof fn law_as_many_stay_as_are_kept(
    messages: Seq<crate::agent::message::SessionView>,
    keep: nat,
)
    requires
        1 <= keep <= messages.len(),
    ensures
        ({
            let split = crate::agent::session::split_of(messages, keep);
            &&& messages.len() - keep <= split <= messages.len()
            &&& forall|i: int|
                messages.len() - keep <= i < split ==> #[trigger] messages[i] is ToolResult
            &&& !(messages[messages.len() - keep] is ToolResult) ==> split == messages.len() - keep
        }),
{
    lemma_skipped_are_results(messages, messages.len() - keep);
}

proof fn lemma_skipped_are_results(
    messages: Seq<crate::agent::message::SessionView>,
    from: int,
)
    requires
        0 <= from <= messages.len(),
    ensures
        from <= crate::agent::session::past_results(messages, from) <= messages.len(),
        forall|i: int|
            from <= i < crate::agent::session::past_results(messages, from) ==> #[trigger] messages[i] is ToolResult,
    decreases messages.len() - from,
{
    if from < messages.len() && messages[from] is ToolResult {
        lemma_skipped_are_results(messages, from + 1);
    }
}

/// A summary that says anything stands before the messages that stay, and what it
/// replaces is gone; this is told with the summary and with how many messages it
/// replaces.
pub proof fn law_a_summary_replaces_what_it_sums_up(
    a: crate::agent::session::AgentView,
    c: Compaction,
    summary: Seq<char>,
)
    requires
        c.split <= a.messages.len(),
        crate::text::spec_trim(summary).len() > 0,
    ensures
        ({
            let (after, told) = compaction_replied(a, c, Ok(summary));
            &&& after.messages.len() == a.messages.len() - c.split + 1
            &&& after.messages[0] == (crate::agent::message::SessionView::Summary { text: summary })
            &&& forall|i: int|
                c.split <= i < a.messages.len() ==> after.messages[i - c.split + 1]
                    == #[trigger] a.messages[i]
            &&& after.options == a.options
            &&& told == CompactView::Done(
                Ok(summary),
                seq![
                    crate::agent::session::EventView::Compacted {
                        summary,
                        messages_removed: c.split,
                    },
                ],
            )
        }),
{
}

/// Whether this many characters are the most that fit in what is shown of a result.
pub open spec fn is_cut_at(content: Seq<char>, k: int) -> bool {
    &&& 0 <= k < content.len()
    &&& crate::text::byte_count(content.take(k)) <= 5_000
    &&& crate::text::byte_count(content.take(k + 1)) > 5_000
}

/// Whether a message is shown as it is, or with the beginning of its content where it
/// is a long tool result: whose result it is does not change.
pub open spec fn is_shown(
    shown: crate::agent::message::SessionView,
    message: crate::agent::message::SessionView,
) -> bool {
    let content = message->ToolResult_content;
    if message is ToolResult && crate::text::byte_count(content) > 5_000 {
        &&& shown is ToolResult
        &&& shown->ToolResult_tool_call_id == message->ToolResult_tool_call_id
        &&& shown->ToolResult_name == message->ToolResult_name
        &&& shown->ToolResult_is_error == message->ToolResult_is_error
        &&& exists|k: int|
            #[trigger] is_cut_at(content, k) && shown->ToolResult_content == content.take(k)
                + "\n…[clamped for compaction]"@
    } else {
        shown == message
    }
}

proof fn lemma_clamped_is_shown(message: crate::agent::message::SessionView)
    ensures
        is_shown(crate::agent::session::clamped(message, 5_000), message),
{
    if let crate::agent::message::SessionView::ToolResult { content, .. } = message {
        crate::agent::session::law_clamped_results_are_short(content, 5_000);
        let cut = crate::text::bytes_within(content, 5_000);
        let k = cut.len() as int;
        assert(cut =~= content.take(k));
        assert(content.take(content.len() as int) =~= content);
        if crate::text::byte_count(content) > 5_000 {
            assert(is_cut_at(content, k));
        }
    }
}

/// The second attempt shows the same messages, the third three tenths of them from
/// either end; but of long tool results they show no more than the beginning.
pub proof fn law_later_attempts_only_shorten_results(
    older: Seq<crate::agent::message::SessionView>,
    i: int,
)
    ensures
        ({
            let shown = crate::agent::session::attempt_messages(older, 1);
            shown.len() == older.len() && (0 <= i < older.len() ==> is_shown(shown[i], older[i]))
        }),
        ({
            let shown = crate::agent::session::attempt_messages(older, 2);
            let n = older.len() * 3 / 10;
            &&& shown.len() == 2 * n
            &&& 0 <= i < n ==> is_shown(shown[i], older[i])
            &&& n <= i < 2 * n ==> is_shown(shown[i], older[older.len() - 2 * n + i])
        }),
{
    let n = older.len() * 3 / 10;
    assert(2 * n <= older.len());
    lemma_clamped_is_shown(older[i]);
    lemma_clamped_is_shown(older[older.len() - 2 * n + i]);
}

} // verus!
