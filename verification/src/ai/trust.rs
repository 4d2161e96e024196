//! Trust metadata of assistant replies.
//!
//! A model ends each reply with a `<trust>` block. The block is read into
//! `TrustData` and taken out of the text, so that it reaches neither the
//! transcript nor the messages that are sent to the model again.
use crate::text;
use vstd::prelude::*;

verus! {

/// One piece of evidence for a claim (`file:line`, and a note).
pub struct Evidence {
    pub file: String,
    pub line: Option<u64>,
    pub note: Option<String>,
}

/// What a reply says of its own reliability. Every field may be missing.
pub struct TrustData {
    /// 0 to 100; higher is more confident.
    pub confidence: Option<u8>,
    /// Why the model chose this action.
    pub reason: Option<String>,
    /// What the model expects to change.
    pub expected_outcome: Option<String>,
    /// Evidence for the claim.
    pub evidence: Vec<Evidence>,
    /// What the model is unsure of.
    pub uncertainty: Option<String>,
    /// The plan, one item per step.
    pub plan: Vec<String>,
    /// How long the plan should take, in words.
    pub estimated_time: Option<String>,
}

/// What an `Evidence` stands for.
pub ghost struct EvidenceView {
    pub file: Seq<char>,
    pub line: Option<u64>,
    pub note: Option<Seq<char>>,
}

/// What a `TrustData` stands for.
pub ghost struct TrustView {
    pub confidence: Option<u8>,
    pub reason: Option<Seq<char>>,
    pub expected_outcome: Option<Seq<char>>,
    pub evidence: Seq<EvidenceView>,
    pub uncertainty: Option<Seq<char>>,
    pub plan: Seq<Seq<char>>,
    pub estimated_time: Option<Seq<char>>,
}

impl DeepView for Evidence {
    type V = EvidenceView;

    open spec fn deep_view(&self) -> EvidenceView {
        EvidenceView { file: self.file@, line: self.line, note: self.note.deep_view() }
    }
}

impl DeepView for TrustData {
    type V = TrustView;

    open spec fn deep_view(&self) -> TrustView {
        TrustView {
            confidence: self.confidence,
            reason: self.reason.deep_view(),
            expected_outcome: self.expected_outcome.deep_view(),
            evidence: self.evidence.deep_view(),
            uncertainty: self.uncertainty.deep_view(),
            plan: self.plan.deep_view(),
            estimated_time: self.estimated_time.deep_view(),
        }
    }
}

impl TrustView {
    /// No field carries a value.
    pub open spec fn is_empty(self) -> bool {
        self.confidence is None && self.reason is None && self.expected_outcome is None
            && self.evidence.len() == 0 && self.uncertainty is None && self.plan.len() == 0
            && self.estimated_time is None
    }

    /// Nothing said at all.
    pub open spec fn nothing() -> TrustView {
        TrustView {
            confidence: None,
            reason: None,
            expected_outcome: None,
            evidence: seq![],
            uncertainty: None,
            plan: seq![],
            estimated_time: None,
        }
    }
}

/// The name of the tier of a confidence: low below 50, medium below 75.
pub open spec fn tier_name(value: u8) -> Seq<char> {
    if value < 50 {
        "low"@
    } else if value < 75 {
        "medium"@
    } else {
        "high"@
    }
}

impl Default for TrustData {
    fn default() -> (r: Self)
        ensures
            r.deep_view() == TrustView::nothing(),
    {
        let r = TrustData {
            confidence: None,
            reason: None,
            expected_outcome: None,
            evidence: Vec::new(),
            uncertainty: None,
            plan: Vec::new(),
            estimated_time: None,
        };
        assert(r.evidence.deep_view() =~= seq![]);
        assert(r.plan.deep_view() =~= seq![]);
        r
    }
}

impl TrustData {
    /// Whether no field carries a value.
    pub fn is_empty(&self) -> (r: bool)
        ensures
            r == self.deep_view().is_empty(),
    {
        self.confidence.is_none() && self.reason.is_none() && self.expected_outcome.is_none()
            && self.evidence.len() == 0 && self.uncertainty.is_none() && self.plan.len() == 0
            && self.estimated_time.is_none()
    }

    /// The confidence with the name of its tier.
    pub fn confidence_tier(&self) -> (r: Option<(&'static str, u8)>)
        ensures
            match self.confidence {
                Some(value) => r matches Some(t) && t.0@ == tier_name(value) && t.1 == value,
                None => r is None,
            },
    {
        match self.confidence {
            Some(value) => {
                if value < 50 {
                    Some(("low", value))
                } else if value < 75 {
                    Some(("medium", value))
                } else {
                    Some(("high", value))
                }
            },
            None => None,
        }
    }
}

/// A `<trust>` block as a model is asked to write it.
pub const TRUST_BLOCK_DOC: &'static str = "<trust>\n<confidence>85</confidence>\n<reason>Expired JWT tokens are not validated.</reason>\n<expected_outcome>Expired sessions will now be rejected.</expected_outcome>\n<evidence><item file=\"auth.ts\" line=\"83\">no expiry check</item><item file=\"login.test.ts\">failing test</item></evidence>\n<uncertainty>Verified against the local tests only; not load-tested.</uncertainty>\n<plan><item>Inspect logs</item><item>Update middleware</item><item>Run tests</item></plan>\n<estimated_time>45 seconds</estimated_time>\n</trust>";

// -------------------------------------------------------------- reading tags
/// What follows the first `<tag` in `block`.
pub open spec fn after_open(block: Seq<char>, tag: Seq<char>) -> Option<Seq<char>> {
    match text::spec_find(block, "<"@ + tag) {
        Some(i) => Some(block.skip(i + ("<"@ + tag).len())),
        None => None,
    }
}

fn find_after_open(block: &str, tag: &str) -> (r: Option<String>)
    ensures
        r.deep_view() == after_open(block@, tag@),
{
    let open = text::concat("<", tag);
    match text::find(block, &open) {
        Some(i) => {
            let rest = text::sub_string(block, i + text::count(&open), text::count(block));
            assert(rest@ =~= block@.skip(i + open@.len()));
            Some(rest)
        },
        None => None,
    }
}

/// The value of `<tag>value</tag>`. Where the closing tag is missing, it is the
/// text that follows the opening mark up to the next `<`, unless that is blank.
pub open spec fn value_of(block: Seq<char>, tag: Seq<char>) -> Option<Seq<char>> {
    match after_open(block, tag) {
        None => None,
        Some(after) => {
            let rest = match text::without_prefix(after, ">"@) {
                Some(r) => r,
                None => after,
            };
            match text::spec_find(rest, "</"@ + tag + ">"@) {
                Some(end) => Some(rest.take(end)),
                None => unclosed_value(rest),
            }
        },
    }
}

/// The value that an opening mark without closing tag is followed by: what
/// stands between the first of `>`, space, `=`, `:` and the next `<`.
pub open spec fn unclosed_value(rest: Seq<char>) -> Option<Seq<char>> {
    let start = match text::find_set_from(rest, seq!['>', ' ', '=', ':'], 0) {
        Some(i) => i + 1,
        None => 0,
    };
    let end = match text::find_set_from(rest, seq!['<'], start) {
        Some(i) => i,
        None => rest.len() as int,
    };
    let value = rest.subrange(start, end);
    if text::spec_trim(value).len() == 0 {
        None
    } else {
        Some(value)
    }
}

/// Reads the value of a tag loosely.
fn loose_value(block: &str, tag: &str) -> (r: Option<String>)
    ensures
        r.deep_view() == value_of(block@, tag@),
{
    let after = match find_after_open(block, tag) {
        Some(a) => a,
        None => return None,
    };
    let rest = match text::strip_prefix(&after, ">") {
        Some(r) => r,
        None => after,
    };
    let close = text::concat3("</", tag, ">");
    match text::find(&rest, &close) {
        Some(end) => {
            let value = text::sub_string(&rest, 0, end);
            assert(value@ =~= rest@.take(end as int));
            Some(value)
        },
        None => {
            let marks: [char; 4] = ['>', ' ', '=', ':'];
            let less: [char; 1] = ['<'];
            assert(marks@ =~= seq!['>', ' ', '=', ':']);
            assert(less@ =~= seq!['<']);
            let start: usize = match text::find_set(&rest, &marks, 0) {
                Some(i) => i + 1,
                None => 0,
            };
            let end: usize = match text::find_set(&rest, &less, start) {
                Some(i) => i,
                None => text::count(&rest),
            };
            let value = text::sub_string(&rest, start, end);
            if text::count(&text::trim(&value)) == 0 {
                None
            } else {
                Some(value)
            }
        },
    }
}

/// What stands between the opening and the closing tag. The `>` of the opening
/// tag may be missing.
pub open spec fn region_of(block: Seq<char>, tag: Seq<char>) -> Option<Seq<char>> {
    match after_open(block, tag) {
        None => None,
        Some(rest) => {
            let start = match text::find_set_from(rest, seq!['>'], 0) {
                Some(i) => i + 1,
                None => 0,
            };
            match text::find_from(rest, "</"@ + tag + ">"@, start) {
                Some(end) => Some(rest.subrange(start, end)),
                None => None,
            }
        },
    }
}

fn loose_block(block: &str, tag: &str) -> (r: Option<String>)
    ensures
        r.deep_view() == region_of(block@, tag@),
{
    let rest = match find_after_open(block, tag) {
        Some(a) => a,
        None => return None,
    };
    let more: [char; 1] = ['>'];
    assert(more@ =~= seq!['>']);
    let start: usize = match text::find_set(&rest, &more, 0) {
        Some(i) => i + 1,
        None => 0,
    };
    let close = text::concat3("</", tag, ">");
    match text::find_at(&rest, &close, start) {
        Some(end) => Some(text::sub_string(&rest, start, end)),
        None => None,
    }
}

/// The value of an attribute in `<item file="..." line="...">`.
pub open spec fn attribute(item: Seq<char>, name: Seq<char>) -> Option<Seq<char>> {
    match text::spec_find(item, name + "=\""@) {
        None => None,
        Some(i) => {
            let rest = item.skip(i + (name + "=\""@).len());
            match text::find_set_from(rest, seq!['"'], 0) {
                Some(end) => Some(rest.take(end)),
                None => None,
            }
        },
    }
}

fn attr_value(item: &str, name: &str) -> (r: Option<String>)
    ensures
        r.deep_view() == attribute(item@, name@),
{
    let needle = text::concat(name, "=\"");
    match text::find(item, &needle) {
        None => None,
        Some(i) => {
            let rest = text::sub_string(item, i + text::count(&needle), text::count(item));
            assert(rest@ =~= item@.skip(i + needle@.len()));
            let quote: [char; 1] = ['"'];
            assert(quote@ =~= seq!['"']);
            match text::find_set(&rest, &quote, 0) {
                Some(end) => {
                    let value = text::sub_string(&rest, 0, end);
                    assert(value@ =~= rest@.take(end as int));
                    Some(value)
                },
                None => None,
            }
        },
    }
}

/// The text inside an `<item>`: what stands between the first `>` and the last
/// closing tag, where there is such a region.
pub open spec fn inside(item: Seq<char>) -> Option<Seq<char>> {
    match (text::find_set_from(item, seq!['>'], 0), text::spec_rfind(item, "</item>"@)) {
        (Some(start), Some(end)) => if start + 1 <= end {
            Some(item.subrange(start + 1, end))
        } else {
            None
        },
        _ => None,
    }
}

fn inner_text(item: &str) -> (r: Option<String>)
    ensures
        r.deep_view() == inside(item@),
{
    let more: [char; 1] = ['>'];
    assert(more@ =~= seq!['>']);
    match (text::find_set(item, &more, 0), text::rfind(item, "</item>")) {
        (Some(start), Some(end)) => {
            if start + 1 <= end {
                Some(text::sub_string(item, start + 1, end))
            } else {
                None
            }
        },
        _ => None,
    }
}

// ---------------------------------------------------------- reading a block
/// The first run of digits in `s`.
pub open spec fn first_digits(s: Seq<char>) -> Seq<char>
    decreases s.len(),
{
    if s.len() == 0 {
        seq![]
    } else if text::is_digit(s[0]) {
        leading_digits(s)
    } else {
        first_digits(s.skip(1))
    }
}

/// The digits that `s` begins with.
pub open spec fn leading_digits(s: Seq<char>) -> Seq<char>
    decreases s.len(),
{
    if s.len() > 0 && text::is_digit(s[0]) {
        seq![s[0]] + leading_digits(s.skip(1))
    } else {
        seq![]
    }
}

fn digit_run(s: &str) -> (r: String)
    ensures
        r@ == first_digits(s@),
{
    let x = text::chars_of(s);
    let mut i: usize = 0;
    assert(s@.skip(0) =~= s@);
    while i < x.len() && !('0' <= x[i] && x[i] <= '9')
        invariant
            x@ == s@,
            i <= x.len(),
            first_digits(s@) == first_digits(s@.skip(i as int)),
        decreases x.len() - i,
    {
        assert(s@.skip(i as int).skip(1) =~= s@.skip(i + 1));
        i += 1;
    }
    let mut r = String::new();
    assert(first_digits(s@) =~= leading_digits(s@.skip(i as int)));
    while i < x.len() && '0' <= x[i] && x[i] <= '9'
        invariant
            x@ == s@,
            i <= x.len(),
            first_digits(s@) == r@ + leading_digits(s@.skip(i as int)),
        decreases x.len() - i,
    {
        assert(s@.skip(i as int).skip(1) =~= s@.skip(i + 1));
        r.push(x[i]);
        i += 1;
    }
    r
}

/// The confidence that a block states: its first run of digits, where that is
/// a number up to 255, and at most 100.
pub open spec fn confidence_of(block: Seq<char>) -> Option<u8> {
    match value_of(block, "confidence"@) {
        Some(value) => match text::spec_parse(first_digits(value), 255) {
            Some(n) => Some(
                if n > 100 {
                    100u8
                } else {
                    n as u8
                },
            ),
            None => None,
        },
        None => None,
    }
}

/// The trimmed value of a tag.
pub open spec fn trimmed_value(block: Seq<char>, tag: Seq<char>) -> Option<Seq<char>> {
    match value_of(block, tag) {
        Some(v) => Some(text::spec_trim(v)),
        None => None,
    }
}

/// The evidence that one item gives: none without a file name.
pub open spec fn evidence_of(item: Seq<char>) -> Seq<EvidenceView> {
    match attribute(item, "file"@) {
        Some(file) if file.len() > 0 => seq![
            EvidenceView {
                file,
                line: match attribute(item, "line"@) {
                    Some(l) => match text::spec_parse(l, u64::MAX as nat) {
                        Some(n) => Some(n as u64),
                        None => None,
                    },
                    None => None,
                },
                note: match inside(item) {
                    Some(n) => Some(text::spec_trim(n)),
                    None => None,
                },
            },
        ],
        _ => seq![],
    }
}

/// The evidence in `rest`, item by item.
pub open spec fn evidence_in(rest: Seq<char>) -> Seq<EvidenceView>
    decreases rest.len(),
{
    match text::spec_find(rest, "<item"@) {
        None => seq![],
        Some(open) => match text::find_from(rest, "</item>"@, open) {
            None => seq![],
            Some(close) => {
                let end = close + "</item>"@.len();
                if 0 <= open < end <= rest.len() {
                    evidence_of(rest.subrange(open, end)) + evidence_in(rest.skip(end))
                } else {
                    seq![]
                }
            },
        },
    }
}

/// The plan items in `rest`, each trimmed.
pub open spec fn plan_in(rest: Seq<char>) -> Seq<Seq<char>>
    decreases rest.len(),
{
    match text::spec_find(rest, "<item>"@) {
        None => seq![],
        Some(open) => match text::find_from(rest, "</item>"@, open) {
            None => seq![],
            Some(close) => {
                let start = open + "<item>"@.len();
                let end = close + "</item>"@.len();
                if 0 <= open < end <= rest.len() {
                    seq![text::spec_trim(rest.subrange(start, close))] + plan_in(rest.skip(end))
                } else {
                    seq![]
                }
            },
        },
    }
}

/// The trimmed pieces that are neither blank nor a dash.
pub open spec fn kept_pieces(pieces: Seq<Seq<char>>) -> Seq<Seq<char>>
    decreases pieces.len(),
{
    if pieces.len() == 0 {
        seq![]
    } else {
        let last = text::spec_trim(pieces.last());
        let rest = kept_pieces(pieces.drop_last());
        if last.len() > 0 && last != "-"@ {
            rest.push(last)
        } else {
            rest
        }
    }
}

/// What separates the steps of a plan that is written as prose.
pub open spec fn plan_marks() -> Seq<char> {
    seq![';', '\n', ',', '→', '-']
}

/// The plan of a block: its items, or the pieces of its text where there are no
/// items.
pub open spec fn plan_of(block: Seq<char>) -> Seq<Seq<char>> {
    let items = match region_of(block, "plan"@) {
        Some(region) => plan_in(region),
        None => seq![],
    };
    if items.len() > 0 {
        items
    } else {
        match value_of(block, "plan"@) {
            Some(raw) => kept_pieces(text::spec_split(text::spec_trim(raw), plan_marks())),
            None => seq![],
        }
    }
}

/// All that a block says.
pub open spec fn block_trust(block: Seq<char>) -> TrustView {
    TrustView {
        confidence: confidence_of(block),
        reason: trimmed_value(block, "reason"@),
        expected_outcome: trimmed_value(block, "expected_outcome"@),
        evidence: evidence_in(block),
        uncertainty: trimmed_value(block, "uncertainty"@),
        plan: plan_of(block),
        estimated_time: trimmed_value(block, "estimated_time"@),
    }
}

fn trimmed_tag(block: &str, tag: &str) -> (r: Option<String>)
    ensures
        r.deep_view() == trimmed_value(block@, tag@),
{
    match loose_value(block, tag) {
        Some(v) => Some(text::trim(&v)),
        None => None,
    }
}

fn read_evidence(item: &str) -> (r: Option<Evidence>)
    ensures
        evidence_of(item@) == (match r {
            Some(e) => seq![e.deep_view()],
            None => seq![],
        }),
{
    let file = match attr_value(item, "file") {
        Some(f) => f,
        None => return None,
    };
    if text::count(&file) == 0 {
        return None;
    }
    let line = match attr_value(item, "line") {
        Some(l) => text::parse_number(&l, u64::MAX),
        None => None,
    };
    let note = match inner_text(item) {
        Some(n) => Some(text::trim(&n)),
        None => None,
    };
    Some(Evidence { file, line, note })
}

fn collect_evidence(block: &str) -> (out: Vec<Evidence>)
    ensures
        out.deep_view() == evidence_in(block@),
{
    let mut out: Vec<Evidence> = Vec::new();
    let mut rest = block.to_owned();
    assert(out.deep_view() =~= seq![]);
    loop
        invariant
            evidence_in(block@) == out.deep_view() + evidence_in(rest@),
        ensures
            evidence_in(block@) == out.deep_view(),
        decreases rest@.len(),
    {
        let open = match text::find(&rest, "<item") {
            Some(i) => i,
            None => break,
        };
        let close = match text::find_at(&rest, "</item>", open) {
            Some(i) => i,
            None => break,
        };
        proof {
            reveal_strlit("</item>");
        }
        let end = close + text::count("</item>");
        let item = text::sub_string(&rest, open, end);
        match read_evidence(&item) {
            Some(e) => text::put(&mut out, e),
            None => {},
        }
        let tail = text::sub_string(&rest, end, text::count(&rest));
        assert(tail@ =~= rest@.skip(end as int));
        rest = tail;
    }
    out
}

fn collect_plan(region: &str) -> (out: Vec<String>)
    ensures
        out.deep_view() == plan_in(region@),
{
    let mut out: Vec<String> = Vec::new();
    let mut rest = region.to_owned();
    assert(out.deep_view() =~= seq![]);
    loop
        invariant
            plan_in(region@) == out.deep_view() + plan_in(rest@),
        ensures
            plan_in(region@) == out.deep_view(),
        decreases rest@.len(),
    {
        let open = match text::find(&rest, "<item>") {
            Some(i) => i,
            None => break,
        };
        let close = match text::find_at(&rest, "</item>", open) {
            Some(i) => i,
            None => break,
        };
        proof {
            reveal_strlit("</item>");
            reveal_strlit("<item>");
            text::lemma_find_from(rest@, "<item>"@, 0);
            text::lemma_find_from(rest@, "</item>"@, open as int);
            lemma_item_tags_apart(rest@, open as int, close as int);
        }
        let start = open + text::count("<item>");
        let end = close + text::count("</item>");
        text::put(&mut out, text::trim(&text::sub_string(&rest, start, close)));
        let tail = text::sub_string(&rest, end, text::count(&rest));
        assert(tail@ =~= rest@.skip(end as int));
        rest = tail;
    }
    out
}

/// A closing tag at or after an opening one begins where that one has ended.
proof fn lemma_item_tags_apart(s: Seq<char>, open: int, close: int)
    requires
        text::matches_at(s, "<item>"@, open),
        text::matches_at(s, "</item>"@, close),
        open <= close,
    ensures
        open + "<item>"@.len() <= close,
{
    reveal_strlit("<item>");
    reveal_strlit("</item>");
    let a = s.subrange(open, open + 6);
    let b = s.subrange(close, close + 7);
    assert(a =~= "<item>"@);
    assert(b =~= "</item>"@);
    if close < open + 6 {
        let d = close - open;
        assert(b[0] == s[close] && a[d] == s[close]);
        assert(b[1] == s[close + 1]);
        if d < 5 {
            assert(a[d + 1] == s[close + 1]);
        }
    }
}

fn read_plan(block: &str) -> (out: Vec<String>)
    ensures
        out.deep_view() == plan_of(block@),
{
    let items = match loose_block(block, "plan") {
        Some(region) => collect_plan(&region),
        None => Vec::new(),
    };
    assert(items.deep_view().len() == items@.len());
    if items.len() > 0 {
        return items;
    }
    let mut out: Vec<String> = Vec::new();
    assert(out.deep_view() =~= seq![]);
    if let Some(raw) = loose_value(block, "plan") {
        let marks: [char; 5] = [';', '\n', ',', '→', '-'];
        assert(marks@ =~= plan_marks());
        let pieces = text::split(&text::trim(&raw), &marks);
        let ghost view = pieces.deep_view();
        let mut i: usize = 0;
        while i < pieces.len()
            invariant
                i <= pieces.len(),
                view == pieces.deep_view(),
                out.deep_view() == kept_pieces(view.take(i as int)),
            decreases pieces.len() - i,
        {
            assert(view.take(i + 1).drop_last() =~= view.take(i as int));
            let piece = text::trim(&pieces[i]);
            if text::count(&piece) > 0 && !text::same(&piece, "-") {
                text::put(&mut out, piece);
            }
            i += 1;
        }
        assert(view.take(view.len() as int) =~= view);
    }
    out
}

/// Reads a block, and gives what it says where it says anything.
fn parse_block(block: &str) -> (r: Option<TrustData>)
    ensures
        r is None == block_trust(block@).is_empty(),
        r matches Some(t) ==> t.deep_view() == block_trust(block@),
{
    let confidence = match loose_value(block, "confidence") {
        Some(value) => match text::parse_number(&digit_run(&value), 255) {
            Some(n) => {
                if n > 100 {
                    Some(100u8)
                } else {
                    Some(n as u8)
                }
            },
            None => None,
        },
        None => None,
    };
    let trust = TrustData {
        confidence,
        reason: trimmed_tag(block, "reason"),
        expected_outcome: trimmed_tag(block, "expected_outcome"),
        evidence: collect_evidence(block),
        uncertainty: trimmed_tag(block, "uncertainty"),
        plan: read_plan(block),
        estimated_time: trimmed_tag(block, "estimated_time"),
    };
    if trust.is_empty() {
        None
    } else {
        Some(trust)
    }
}

// ------------------------------------------------- taking blocks from a text
/// The lesser of two positions, where there are any.
pub open spec fn least(a: Option<int>, b: Option<int>) -> Option<int> {
    match (a, b) {
        (Some(x), Some(y)) => Some(
            if x <= y {
                x
            } else {
                y
            },
        ),
        (Some(x), None) => Some(x),
        (None, b) => b,
    }
}

/// The earliest of the last positions of the known tags in `s`.
pub open spec fn cluster_start(s: Seq<char>) -> Option<int> {
    least(
        least(
            least(
                least(
                    least(
                        least(
                            text::spec_rfind(s, "<confidence"@),
                            text::spec_rfind(s, "<reason"@),
                        ),
                        text::spec_rfind(s, "<expected_outcome"@),
                    ),
                    text::spec_rfind(s, "<evidence"@),
                ),
                text::spec_rfind(s, "<uncertainty"@),
            ),
            text::spec_rfind(s, "<plan"@),
        ),
        text::spec_rfind(s, "<estimated_time"@),
    )
}

/// Where a cluster of tags without `<trust>` around them begins. The cluster
/// stands in the second half of the text (in bytes), or holds a closing tag: an
/// early mention of a tag is prose.
pub open spec fn trailing_start(s: Seq<char>) -> Option<int> {
    match cluster_start(s) {
        Some(cut) => if text::byte_count(s.take(cut)) >= text::byte_count(s) / 2 || text::has(
            s.skip(cut),
            "</"@,
        ) {
            Some(cut)
        } else {
            None
        },
        None => None,
    }
}

fn lesser(a: Option<usize>, b: Option<usize>) -> (r: Option<usize>)
    ensures
        text::at(r) == least(text::at(a), text::at(b)),
        r == a || r == b,
{
    match (a, b) {
        (Some(x), Some(y)) => {
            if x <= y {
                a
            } else {
                b
            }
        },
        (Some(x), None) => a,
        (None, _) => b,
    }
}

/// Where the trailing cluster of tags begins.
fn trailing_trust_start(s: &str) -> (r: Option<usize>)
    ensures
        text::at(r) == trailing_start(s@),
        r matches Some(cut) ==> cut <= s@.len(),
{
    let first = lesser(text::rfind(s, "<confidence"), text::rfind(s, "<reason"));
    let first = lesser(first, text::rfind(s, "<expected_outcome"));
    let first = lesser(first, text::rfind(s, "<evidence"));
    let first = lesser(first, text::rfind(s, "<uncertainty"));
    let first = lesser(first, text::rfind(s, "<plan"));
    let first = lesser(first, text::rfind(s, "<estimated_time"));
    let cut = match first {
        Some(c) => c,
        None => return None,
    };
    let n = text::count(s);
    let head = text::sub_string(s, 0, cut);
    let tail = text::sub_string(s, cut, n);
    assert(head@ =~= s@.take(cut as int));
    assert(tail@ =~= s@.skip(cut as int));
    if text::byte_len(&head) >= text::byte_len(s) / 2 || text::contains(&tail, "</") {
        Some(cut)
    } else {
        None
    }
}

/// Takes the blocks that open at `start` or later out of `s`, one after the
/// other, and keeps what the last one of them that says anything says.
pub open spec fn strip_blocks(s: Seq<char>, start: int, trust: TrustView) -> (TrustView, Seq<char>)
    decreases s.len(),
{
    match text::find_from(s, "<trust>"@, start) {
        None => (trust, s),
        Some(open) => match text::find_from(s, "</trust>"@, open) {
            None => (trust, s),
            Some(close) => {
                let end = close + "</trust>"@.len();
                if 0 <= open < end <= s.len() {
                    let parsed = block_trust(s.subrange(open, end));
                    strip_blocks(
                        s.take(open) + s.skip(end),
                        open,
                        if parsed.is_empty() {
                            trust
                        } else {
                            parsed
                        },
                    )
                } else {
                    (trust, s)
                }
            },
        },
    }
}

/// What a reply says of itself, and the reply without it. Where no `<trust>`
/// block says anything and none is left open, a trailing cluster of bare tags
/// counts as a block.
pub open spec fn trust_extracted(s: Seq<char>) -> (TrustView, Seq<char>) {
    let (trust, cleaned) = strip_blocks(s, 0, TrustView::nothing());
    if trust.is_empty() && !text::has(cleaned, "<trust>"@) {
        match trailing_start(cleaned) {
            Some(cut) => {
                let parsed = block_trust(cleaned.skip(cut));
                (
                    if parsed.is_empty() {
                        trust
                    } else {
                        parsed
                    },
                    text::spec_trim(cleaned.take(cut)),
                )
            },
            None => (trust, text::spec_trim(cleaned)),
        }
    } else {
        (trust, text::spec_trim(cleaned))
    }
}

/// Reads the trust block of a reply, and gives the reply without it. What is
/// recognised as a block is taken out even where nothing in it can be read.
pub fn extract_trust_block(s: &str) -> (r: (TrustData, String))
    ensures
        r.0.deep_view() == trust_extracted(s@).0,
        r.1@ == trust_extracted(s@).1,
{
    let mut cleaned = s.to_owned();
    let mut trust = TrustData::default();
    let mut start: usize = 0;
    loop
        invariant
            strip_blocks(s@, 0, TrustView::nothing()) == strip_blocks(
                cleaned@,
                start as int,
                trust.deep_view(),
            ),
        ensures
            strip_blocks(s@, 0, TrustView::nothing()) == (trust.deep_view(), cleaned@),
        decreases cleaned@.len(),
    {
        let open = match text::find_at(&cleaned, "<trust>", start) {
            Some(i) => i,
            None => break,
        };
        let close = match text::find_at(&cleaned, "</trust>", open) {
            Some(i) => i,
            None => break,
        };
        proof {
            reveal_strlit("</trust>");
        }
        let end = close + text::count("</trust>");
        let block = text::sub_string(&cleaned, open, end);
        match parse_block(&block) {
            Some(parsed) => {
                trust = parsed;
            },
            None => {},
        }
        let mut kept = text::sub_string(&cleaned, 0, open);
        let tail = text::sub_string(&cleaned, end, text::count(&cleaned));
        assert(kept@ =~= cleaned@.take(open as int));
        assert(tail@ =~= cleaned@.skip(end as int));
        kept.append(&tail);
        cleaned = kept;
        start = open;
    }
    if trust.is_empty() && !text::contains(&cleaned, "<trust>") {
        match trailing_trust_start(&cleaned) {
            Some(cut) => {
                let block = text::sub_string(&cleaned, cut, text::count(&cleaned));
                assert(block@ =~= cleaned@.skip(cut as int));
                match parse_block(&block) {
                    Some(parsed) => {
                        trust = parsed;
                    },
                    None => {},
                }
                let kept = text::sub_string(&cleaned, 0, cut);
                assert(kept@ =~= cleaned@.take(cut as int));
                return (trust, text::trim(&kept));
            },
            None => {},
        }
    }
    (trust, text::trim(&cleaned))
}

// --------------------------------------------------------------------- laws
/// A wrapped block that says something is read and taken out: where it is the
/// only one, what is left is the text around it.
pub proof fn law_wrapped_block_is_read_and_stripped(before: Seq<char>, block: Seq<char>, after: Seq<char>)
    requires
        text::begins(block, "<trust>"@),
        text::find_from(before + block + after, "<trust>"@, 0) == Some(before.len() as int),
        text::find_from(before + block + after, "</trust>"@, before.len() as int) == Some(
            before.len() + block.len() - "</trust>"@.len(),
        ),
        block.len() > "</trust>"@.len(),
        text::find_from(before + after, "<trust>"@, before.len() as int) is None,
        !block_trust(block).is_empty(),
    ensures
        trust_extracted(before + block + after) == (
            block_trust(block),
            text::spec_trim(before + after),
        ),
{
    let s = before + block + after;
    let open = before.len() as int;
    let end = open + block.len();
    reveal_strlit("</trust>");
    assert(s.subrange(open, end) =~= block);
    assert(s.take(open) + s.skip(end) =~= before + after);
    reveal_with_fuel(strip_blocks, 3);
}

/// A reply without any of the tags is left as it is, but for the white space
/// around it, and says nothing of itself.
pub proof fn law_plain_reply_is_unchanged(s: Seq<char>)
    requires
        !text::has(s, "<trust>"@),
        cluster_start(s) is None,
    ensures
        trust_extracted(s) == (TrustView::nothing(), text::spec_trim(s)),
{
}

/// A confidence that was read is at most 100.
pub proof fn law_confidence_is_a_percentage(block: Seq<char>)
    ensures
        block_trust(block).confidence matches Some(c) ==> c <= 100,
{
}

/// What an earlier block said is kept exactly where no later one says anything,
/// and does not bear on the text that is left.
pub proof fn law_last_block_wins(s: Seq<char>, start: int, first: TrustView, second: TrustView)
    ensures
        strip_blocks(s, start, first).1 == strip_blocks(s, start, second).1,
        strip_blocks(s, start, first).0 == strip_blocks(s, start, second).0 || (strip_blocks(
            s,
            start,
            first,
        ).0 == first && strip_blocks(s, start, second).0 == second),
    decreases s.len(),
{
    match text::find_from(s, "<trust>"@, start) {
        None => {},
        Some(open) => match text::find_from(s, "</trust>"@, open) {
            None => {},
            Some(close) => {
                let end = close + "</trust>"@.len();
                if 0 <= open < end <= s.len() {
                    let parsed = block_trust(s.subrange(open, end));
                    if parsed.is_empty() {
                        law_last_block_wins(s.take(open) + s.skip(end), open, first, second);
                    }
                }
            },
        },
    }
}

/// Whether no wrapped block is left in a text.
pub open spec fn block_free(s: Seq<char>) -> bool {
    forall|i: int, j: int|
        #![trigger text::matches_at(s, "<trust>"@, i), text::matches_at(s, "</trust>"@, j)]
        text::matches_at(s, "<trust>"@, i) && i <= j ==> !text::matches_at(s, "</trust>"@, j)
}

/// Whether no opening tag comes about where the text on either side of a block is
/// put together.
pub open spec fn joins_cleanly(s: Seq<char>, start: int) -> bool
    decreases s.len(),
{
    match text::find_from(s, "<trust>"@, start) {
        None => true,
        Some(open) => match text::find_from(s, "</trust>"@, open) {
            None => true,
            Some(close) => {
                let end = close + "</trust>"@.len();
                if 0 <= open < end <= s.len() {
                    let rest = s.take(open) + s.skip(end);
                    &&& forall|i: int| #[trigger]
                        text::matches_at(rest, "<trust>"@, i) ==> i >= open
                    &&& joins_cleanly(rest, open)
                } else {
                    true
                }
            },
        },
    }
}

proof fn lemma_part_is_block_free(s: Seq<char>, a: int, b: int)
    requires
        block_free(s),
        0 <= a <= b <= s.len(),
    ensures
        block_free(s.subrange(a, b)),
{
    let part = s.subrange(a, b);
    assert forall|i: int, j: int|
        #![trigger text::matches_at(part, "<trust>"@, i), text::matches_at(part, "</trust>"@, j)]
        text::matches_at(part, "<trust>"@, i) && i <= j implies !text::matches_at(
        part,
        "</trust>"@,
        j,
    ) by {
        let m = "<trust>"@.len();
        let n = "</trust>"@.len();
        assert(part.subrange(i, i + m) =~= s.subrange(a + i, a + i + m));
        assert(text::matches_at(s, "<trust>"@, a + i));
        if text::matches_at(part, "</trust>"@, j) {
            assert(part.subrange(j, j + n) =~= s.subrange(a + j, a + j + n));
            assert(text::matches_at(s, "</trust>"@, a + j));
        }
    }
}

proof fn lemma_trimmed_start_is_block_free(s: Seq<char>)
    requires
        block_free(s),
    ensures
        block_free(text::spec_trim_start(s)),
    decreases s.len(),
{
    if s.len() > 0 && text::is_white(s[0]) {
        assert(s.skip(1) =~= s.subrange(1, s.len() as int));
        lemma_part_is_block_free(s, 1, s.len() as int);
        lemma_trimmed_start_is_block_free(s.skip(1));
    }
}

proof fn lemma_trimmed_end_is_block_free(s: Seq<char>)
    requires
        block_free(s),
    ensures
        block_free(text::spec_trim_end(s)),
    decreases s.len(),
{
    if s.len() > 0 && text::is_white(s.last()) {
        assert(s.drop_last() =~= s.subrange(0, s.len() - 1));
        lemma_part_is_block_free(s, 0, s.len() - 1);
        lemma_trimmed_end_is_block_free(s.drop_last());
    }
}

proof fn lemma_stripped_is_block_free(s: Seq<char>, start: int, trust: TrustView)
    requires
        0 <= start,
        forall|i: int| #[trigger] text::matches_at(s, "<trust>"@, i) ==> i >= start,
        joins_cleanly(s, start),
    ensures
        block_free(strip_blocks(s, start, trust).1),
    decreases s.len(),
{
    text::lemma_find_from(s, "<trust>"@, start);
    match text::find_from(s, "<trust>"@, start) {
        None => {},
        Some(open) => {
            text::lemma_find_from(s, "</trust>"@, open);
            match text::find_from(s, "</trust>"@, open) {
                None => {},
                Some(close) => {
                    reveal_strlit("</trust>");
                    let end = close + "</trust>"@.len();
                    let parsed = block_trust(s.subrange(open, end));
                    lemma_stripped_is_block_free(
                        s.take(open) + s.skip(end),
                        open,
                        if parsed.is_empty() {
                            trust
                        } else {
                            parsed
                        },
                    );
                },
            }
        },
    }
}

proof fn lemma_rfind_is_inside(s: Seq<char>, p: Seq<char>, from: int)
    ensures
        text::rfind_from(s, p, from) matches Some(i) ==> 0 <= i <= s.len(),
    decreases from + 1,
{
    reveal(text::rfind_from);
    if from >= 0 && !text::matches_at(s, p, from) {
        lemma_rfind_is_inside(s, p, from - 1);
    }
}

/// No block is left in a reply, unless its parts come together to one.
pub proof fn law_no_block_is_left(s: Seq<char>)
    requires
        joins_cleanly(s, 0),
    ensures
        block_free(trust_extracted(s).1),
{
    lemma_stripped_is_block_free(s, 0, TrustView::nothing());
    let cleaned = strip_blocks(s, 0, TrustView::nothing()).1;
    lemma_trimmed_start_is_block_free(cleaned);
    lemma_trimmed_end_is_block_free(text::spec_trim_start(cleaned));
    let n = cleaned.len() as int;
    lemma_rfind_is_inside(cleaned, "<confidence"@, n);
    lemma_rfind_is_inside(cleaned, "<reason"@, n);
    lemma_rfind_is_inside(cleaned, "<expected_outcome"@, n);
    lemma_rfind_is_inside(cleaned, "<evidence"@, n);
    lemma_rfind_is_inside(cleaned, "<uncertainty"@, n);
    lemma_rfind_is_inside(cleaned, "<plan"@, n);
    lemma_rfind_is_inside(cleaned, "<estimated_time"@, n);
    if let Some(cut) = trailing_start(cleaned) {
        assert(cleaned.take(cut) =~= cleaned.subrange(0, cut));
        lemma_part_is_block_free(cleaned, 0, cut);
        lemma_trimmed_start_is_block_free(cleaned.take(cut));
        lemma_trimmed_end_is_block_free(text::spec_trim_start(cleaned.take(cut)));
    }
}

} // verus!
