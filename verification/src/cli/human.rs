//! Questions that wait for somebody who is not at the terminal.
use crate::dup::Dup;
use crate::text;
use vstd::prelude::*;

verus! {

/// What happens to a question.
#[allow(inconsistent_fields)]
pub enum ChannelEvent {
    Posted { id: String, question: String },
    Answered { id: String, answer: String },
}

/// What a `ChannelEvent` stands for.
#[allow(inconsistent_fields)]
pub ghost enum ChannelEventView {
    Posted { id: Seq<char>, question: Seq<char> },
    Answered { id: Seq<char>, answer: Seq<char> },
}

impl DeepView for ChannelEvent {
    type V = ChannelEventView;

    open spec fn deep_view(&self) -> ChannelEventView {
        match self {
            ChannelEvent::Posted { id, question } => ChannelEventView::Posted {
                id: id@,
                question: question@,
            },
            ChannelEvent::Answered { id, answer } => ChannelEventView::Answered {
                id: id@,
                answer: answer@,
            },
        }
    }
}

/// The questions that are not answered yet, by their ids.
pub struct HumanChannel {
    pending: Vec<String>,
    next_id: u64,
}

/// What a `HumanChannel` stands for.
pub ghost struct ChannelView {
    pub pending: Seq<Seq<char>>,
    pub next_id: u64,
}

impl View for HumanChannel {
    type V = ChannelView;

    closed spec fn view(&self) -> ChannelView {
        ChannelView { pending: self.pending.deep_view(), next_id: self.next_id }
    }
}

/// The id of the question with this number.
pub open spec fn ask_id(n: u64) -> Seq<char> {
    "ask-"@ + text::spec_decimal(n as nat)
}

impl ChannelView {
    /// Whether no question is listed twice, and each has a number that was given.
    pub open spec fn wf(self) -> bool {
        &&& self.pending.no_duplicates()
        &&& forall|i: int|
            0 <= i < self.pending.len() ==> exists|n: u64|
                n < self.next_id && (#[trigger] self.pending[i]) == #[trigger] ask_id(n)
    }
}

/// The options of a question, numbered from one.
pub open spec fn numbered(options: Seq<Seq<char>>, upto: int) -> Seq<char>
    decreases upto,
{
    if upto <= 0 {
        seq![]
    } else {
        numbered(options, upto - 1) + "\n  "@ + text::spec_decimal(upto as nat) + ". "@
            + options[upto - 1]
    }
}

/// A question as it is posted.
pub open spec fn posted_question(
    id: Seq<char>,
    question: Seq<char>,
    options: Option<Seq<Seq<char>>>,
) -> Seq<char> {
    "❓ "@ + question + (match options {
        Some(opts) => numbered(opts, opts.len() as int),
        None => seq![],
    }) + "\nreply with: "@ + id + " <answer>"@
}

/// A question that was put.
pub struct Asked {
    pub id: String,
    /// What is to be posted.
    pub text: String,
    pub event: ChannelEvent,
}

/// The questions without that of this id.
pub open spec fn without_id(pending: Seq<Seq<char>>, id: Seq<char>) -> Seq<Seq<char>>
    decreases pending.len(),
{
    if pending.len() == 0 {
        seq![]
    } else if pending.last() == id {
        without_id(pending.drop_last(), id)
    } else {
        without_id(pending.drop_last(), id).push(pending.last())
    }
}

/// Which questions are left without that of this id.
pub proof fn lemma_without(pending: Seq<Seq<char>>, id: Seq<char>)
    ensures
        forall|x: Seq<char>| #[trigger]
            without_id(pending, id).contains(x) <==> pending.contains(x) && x != id,
        pending.no_duplicates() ==> without_id(pending, id).no_duplicates(),
        pending.no_duplicates() ==> without_id(pending, id).len() == pending.len() - (
        if pending.contains(id) {
            1int
        } else {
            0
        }),
    decreases pending.len(),
{
    if pending.len() > 0 {
        let shorter = pending.drop_last();
        let last = pending.last();
        lemma_without(shorter, id);
        let before = without_id(shorter, id);
        assert forall|x: Seq<char>| #[trigger] without_id(pending, id).contains(x) <==> (
        pending.contains(x) && x != id) by {
            if pending.contains(x) {
                let k = choose|k: int| 0 <= k < pending.len() && pending[k] == x;
                if k < shorter.len() {
                    assert(shorter[k] == x);
                }
            }
            if shorter.contains(x) {
                let k = choose|k: int| 0 <= k < shorter.len() && shorter[k] == x;
                assert(pending[k] == x);
            }
            assert(pending[pending.len() - 1] == last);
            if last != id {
                let all = before.push(last);
                if all.contains(x) {
                    let k = choose|k: int| 0 <= k < all.len() && all[k] == x;
                    if k < before.len() {
                        assert(before[k] == x);
                    }
                }
                if before.contains(x) {
                    let k = choose|k: int| 0 <= k < before.len() && before[k] == x;
                    assert(all[k] == x);
                }
                assert(all[all.len() - 1] == last);
            }
        }
        if pending.no_duplicates() {
            assert forall|i: int, j: int|
                0 <= i < shorter.len() && 0 <= j < shorter.len() && i != j implies shorter[i]
                != shorter[j] by {
                assert(pending[i] != pending[j]);
            }
            assert(!shorter.contains(last)) by {
                if shorter.contains(last) {
                    let k = choose|k: int| 0 <= k < shorter.len() && shorter[k] == last;
                    assert(pending[k] == pending[pending.len() - 1]);
                }
            }
            assert(pending.contains(id) <==> shorter.contains(id) || last == id) by {
                if pending.contains(id) {
                    let k = choose|k: int| 0 <= k < pending.len() && pending[k] == id;
                    if k < shorter.len() {
                        assert(shorter[k] == id);
                    }
                }
                if shorter.contains(id) {
                    let k = choose|k: int| 0 <= k < shorter.len() && shorter[k] == id;
                    assert(pending[k] == id);
                }
                assert(pending[pending.len() - 1] == last);
            }
            if last != id {
                let all = before.push(last);
                assert(!before.contains(last));
                assert forall|i: int, j: int|
                    0 <= i < all.len() && 0 <= j < all.len() && i != j implies all[i] != all[j] by {
                    if i < before.len() && j < before.len() {
                    } else if i < before.len() {
                        assert(before.contains(before[i]));
                    } else {
                        assert(before.contains(before[j]));
                    }
                }
            }
        }
    }
}

proof fn lemma_decimal_differs(m: nat, n: nat)
    requires
        m != n,
    ensures
        text::spec_decimal(m) != text::spec_decimal(n),
    decreases m,
{
    let a = text::spec_decimal(m);
    let b = text::spec_decimal(n);
    if a == b {
        assert(a.last() == text::digit_char(m % 10));
        assert(b.last() == text::digit_char(n % 10));
        assert(m % 10 == n % 10);
        if m < 10 && n < 10 {
        } else if m < 10 {
            lemma_decimal_nonempty(n / 10);
            assert(b.len() >= 2);
        } else if n < 10 {
            lemma_decimal_nonempty(m / 10);
            assert(a.len() >= 2);
        } else {
            assert(a.drop_last() =~= text::spec_decimal(m / 10));
            assert(b.drop_last() =~= text::spec_decimal(n / 10));
            lemma_decimal_differs(m / 10, n / 10);
        }
    }
}

proof fn lemma_decimal_nonempty(n: nat)
    ensures
        text::spec_decimal(n).len() > 0,
    decreases n,
{
}

/// Different questions have different ids.
pub proof fn law_ids_differ(m: u64, n: u64)
    requires
        m != n,
    ensures
        ask_id(m) != ask_id(n),
{
    lemma_decimal_differs(m as nat, n as nat);
    let p = "ask-"@;
    assert(ask_id(m).skip(p.len() as int) =~= text::spec_decimal(m as nat));
    assert(ask_id(n).skip(p.len() as int) =~= text::spec_decimal(n as nat));
}

impl HumanChannel {
    /// A channel without questions.
    pub fn new() -> (r: Self)
        ensures
            r@.pending.len() == 0,
            r@.next_id == 1,
            r@.wf(),
    {
        HumanChannel { pending: Vec::new(), next_id: 1 }
    }

    /// Puts a question: gives its id and what is to be posted.
    pub fn ask(&mut self, question: &str, options: &Option<Vec<String>>) -> (r: Asked)
        requires
            old(self)@.wf(),
            old(self)@.next_id < u64::MAX,
        ensures
            final(self)@.wf(),
            final(self)@ == (ChannelView {
                pending: old(self)@.pending.push(ask_id(old(self)@.next_id)),
                next_id: (old(self)@.next_id + 1) as u64,
            }),
            r.id@ == ask_id(old(self)@.next_id),
            r.text@ == posted_question(r.id@, question@, options.deep_view()),
            r.event.deep_view() == (ChannelEventView::Posted { id: r.id@, question: question@ }),
    {
        let ghost first = self@;
        let n = self.next_id;
        let id = text::concat("ask-", &text::decimal(n));
        self.next_id = n + 1;
        let mut out = text::concat("❓ ", question);
        let ghost head = out@;
        if let Some(opts) = options {
            let ghost view = opts.deep_view();
            let mut i: usize = 0;
            assert(head + numbered(view, 0) =~= head);
            while i < opts.len()
                invariant
                    i <= opts.len(),
                    view == opts.deep_view(),
                    out@ == head + numbered(view, i as int),
                decreases opts.len() - i,
            {
                assert(view[i as int] == opts@[i as int]@);
                out.append("\n  ");
                out.append(&text::decimal((i + 1) as u64));
                out.append(". ");
                out.append(&opts[i]);
                assert(out@ =~= head + numbered(view, i + 1));
                i += 1;
            }
        } else {
            assert(head + Seq::<char>::empty() =~= head);
        }
        out.append("\nreply with: ");
        out.append(&id);
        out.append(" <answer>");
        text::put(&mut self.pending, id.dup());
        proof {
            let after = self@;
            assert forall|i: int, j: int|
                0 <= i < after.pending.len() && 0 <= j < after.pending.len() && i
                    != j implies after.pending[i] != after.pending[j] by {
                let last = first.pending.len() as int;
                if i == last || j == last {
                    let k = if i == last {
                        j
                    } else {
                        i
                    };
                    assert(after.pending[k] == first.pending[k]);
                    let m = choose|m: u64|
                        m < first.next_id && first.pending[k] == #[trigger] ask_id(m);
                    law_ids_differ(m, n);
                } else {
                    assert(first.pending[i] != first.pending[j]);
                }
            }
            assert forall|i: int| 0 <= i < after.pending.len() implies exists|m: u64|
                m < after.next_id && (#[trigger] after.pending[i]) == #[trigger] ask_id(m) by {
                if i < first.pending.len() {
                    assert(after.pending[i] == first.pending[i]);
                    let m = choose|m: u64|
                        m < first.next_id && first.pending[i] == #[trigger] ask_id(m);
                    assert(m < after.next_id && after.pending[i] == ask_id(m));
                } else {
                    assert(n < after.next_id && after.pending[i] == ask_id(n));
                }
            }
        }
        let event = ChannelEvent::Posted { id: id.dup(), question: question.to_owned() };
        Asked { id, text: out, event }
    }

    /// Takes an answer. Gives what happened, or `None` where no question with this
    /// id waits: it was answered or given up.
    pub fn resolve(&mut self, id: &str, answer: &str) -> (r: Option<ChannelEvent>)
        requires
            old(self)@.wf(),
        ensures
            final(self)@.wf(),
            final(self)@ == (ChannelView {
                pending: without_id(old(self)@.pending, id@),
                ..old(self)@
            }),
            r.deep_view() == if old(self)@.pending.contains(id@) {
                Some(ChannelEventView::Answered { id: id@, answer: answer@ })
            } else {
                None
            },
    {
        let known = text::contains_text(self.pending.as_slice(), id);
        self.give_up(id);
        if known {
            Some(ChannelEvent::Answered { id: id.to_owned(), answer: answer.to_owned() })
        } else {
            None
        }
    }

    /// Gives a question up.
    pub fn give_up(&mut self, id: &str)
        requires
            old(self)@.wf(),
        ensures
            final(self)@.wf(),
            final(self)@ == (ChannelView {
                pending: without_id(old(self)@.pending, id@),
                ..old(self)@
            }),
    {
        let ghost first = self@;
        let ghost view = self.pending.deep_view();
        let mut rest: Vec<String> = Vec::new();
        let mut i: usize = 0;
        assert(view.take(0) =~= seq![]);
        assert(rest.deep_view() =~= seq![]);
        while i < self.pending.len()
            invariant
                i <= self.pending.len(),
                first == self@,
                view == self.pending.deep_view(),
                rest.deep_view() == without_id(view.take(i as int), id@),
            decreases self.pending.len() - i,
        {
            assert(view.take(i + 1).drop_last() =~= view.take(i as int));
            assert(view[i as int] == self.pending@[i as int]@);
            if !text::same(&self.pending[i], id) {
                text::put(&mut rest, self.pending[i].dup());
            }
            i += 1;
        }
        assert(view.take(view.len() as int) =~= view);
        self.pending = rest;
        proof {
            lemma_without(first.pending, id@);
            let after = self@;
            assert forall|i: int| 0 <= i < after.pending.len() implies exists|m: u64|
                m < after.next_id && (#[trigger] after.pending[i]) == #[trigger] ask_id(m) by {
                assert(after.pending.contains(after.pending[i]));
                let k = choose|k: int|
                    0 <= k < first.pending.len() && first.pending[k] == after.pending[i];
                let m = choose|m: u64| m < first.next_id && first.pending[k] == #[trigger] ask_id(m);
                assert(m < after.next_id && after.pending[i] == ask_id(m));
            }
        }
    }

    /// Gives a question up that nobody answered in time; gives the error.
    pub fn time_out(&mut self, id: &str) -> (r: String)
        requires
            old(self)@.wf(),
        ensures
            final(self)@.wf(),
            final(self)@ == (ChannelView {
                pending: without_id(old(self)@.pending, id@),
                ..old(self)@
            }),
            r@ == "no answer received before timeout"@,
    {
        self.give_up(id);
        "no answer received before timeout".to_owned()
    }

    /// How many questions are not answered yet.
    pub fn pending_count(&self) -> (r: usize)
        ensures
            r == self@.pending.len(),
    {
        self.pending.len()
    }
}

/// A question is answered once: after an answer its id is unknown, and the other
/// questions still wait.
pub proof fn law_answered_once(c: ChannelView, id: Seq<char>, other: Seq<char>)
    requires
        c.wf(),
        other != id,
    ensures
        !without_id(c.pending, id).contains(id),
        without_id(c.pending, id).contains(other) == c.pending.contains(other),
{
    lemma_without(c.pending, id);
}

} // verus!
