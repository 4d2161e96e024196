//! Panels: boxes that set the parts of a turn apart.
use crate::ai::trust::{Evidence, TrustData};
use crate::cli::ansi::{enabled, fg_only, render_markdown, tint_cell, visible_width, Ansi, Shade};
use crate::cli::wrap::wrap_styled_line;
use crate::dup::Dup;
use crate::text;
use vstd::prelude::*;

verus! {

/// What a panel shows.
#[derive(Debug, Clone, Copy)]
pub enum SectionKind {
    Tools,
    Reply,
    Decision { tier: &'static str, confidence: u8 },
    Plan,
    Notice,
    Error,
}

/// What a `SectionKind` stands for.
pub ghost enum KindView {
    Tools,
    Reply,
    Decision { tier: Seq<char>, confidence: u8 },
    Plan,
    Notice,
    Error,
}

impl DeepView for SectionKind {
    type V = KindView;

    open spec fn deep_view(&self) -> KindView {
        match self {
            SectionKind::Tools => KindView::Tools,
            SectionKind::Reply => KindView::Reply,
            SectionKind::Decision { tier, confidence } => KindView::Decision {
                tier: tier@,
                confidence: *confidence,
            },
            SectionKind::Plan => KindView::Plan,
            SectionKind::Notice => KindView::Notice,
            SectionKind::Error => KindView::Error,
        }
    }
}

impl KindView {
    /// The color of the border.
    pub open spec fn border(self) -> Shade {
        match self {
            KindView::Tools => Shade::Cyan,
            KindView::Reply => Shade::Grey,
            KindView::Decision { tier, .. } => if tier == "low"@ {
                Shade::BrightRed
            } else if tier == "medium"@ {
                Shade::BrightYellow
            } else if tier == "high"@ {
                Shade::BrightGreen
            } else {
                Shade::Grey
            },
            KindView::Plan => Shade::Yellow,
            KindView::Notice => Shade::Yellow,
            KindView::Error => Shade::Red,
        }
    }

    /// What follows the title.
    pub open spec fn suffix(self) -> Seq<char> {
        match self {
            KindView::Decision { tier, confidence } => if confidence > 0 {
                " · "@ + text::spec_decimal(confidence as nat) + "% "@ + tier
            } else {
                ""@
            },
            _ => ""@,
        }
    }
}

impl SectionKind {
    /// The color of the border, and whether the body stands on a background.
    fn style(&self) -> (r: (Shade, bool))
        ensures
            r.0 == self.deep_view().border(),
            r.1 == (self.deep_view() is Plan),
    {
        match self {
            SectionKind::Tools => (Shade::Cyan, false),
            SectionKind::Reply => (Shade::Grey, false),
            SectionKind::Decision { tier, .. } => {
                if text::same(tier, "low") {
                    (Shade::BrightRed, false)
                } else if text::same(tier, "medium") {
                    (Shade::BrightYellow, false)
                } else if text::same(tier, "high") {
                    (Shade::BrightGreen, false)
                } else {
                    (Shade::Grey, false)
                }
            },
            SectionKind::Plan => (Shade::Yellow, true),
            SectionKind::Notice => (Shade::Yellow, false),
            SectionKind::Error => (Shade::Red, false),
        }
    }

    /// What follows the title: the confidence and its tier, of a decision.
    pub fn title_suffix(&self) -> (r: String)
        ensures
            r@ == self.deep_view().suffix(),
    {
        match self {
            SectionKind::Decision { tier, confidence } => {
                if *confidence > 0 {
                    text::concat4(" · ", &text::decimal(*confidence as u64), "% ", tier)
                } else {
                    "".to_owned()
                }
            },
            _ => "".to_owned(),
        }
    }
}

// -------------------------------------------------------------------- width
/// The width of a panel: at least 24 columns and at most 100.
pub open spec fn bounded(width: usize) -> usize {
    if width < 24 {
        24
    } else if width > 100 {
        100
    } else {
        width
    }
}

fn clamp_width(width: usize) -> (r: usize)
    ensures
        r == bounded(width),
{
    if width < 24 {
        24
    } else if width > 100 {
        100
    } else {
        width
    }
}

/// The width for panels, given that of the terminal, where it has one.
pub fn terminal_width(columns: Option<u16>) -> (r: usize)
    ensures
        r == (match columns {
            Some(w) => if w > 0 {
                bounded(w as usize)
            } else {
                80
            },
            None => 80,
        }),
        24 <= r <= 100,
{
    match columns {
        Some(w) => if w > 0 {
            clamp_width(w as usize)
        } else {
            80
        },
        None => 80,
    }
}

/// The text, or its first characters with an ellipsis where it takes more than `max`
/// columns; the ellipsis takes one of them.
pub open spec fn cut(s: Seq<char>, max: nat) -> Seq<char> {
    if crate::cli::ansi::visible(s).len() <= max {
        s
    } else if max == 0 {
        seq![]
    } else {
        s.take(max - 1) + "…"@
    }
}

/// A text with spaces behind it up to a width.
pub open spec fn padded(s: Seq<char>, inner: nat) -> Seq<char> {
    let w = crate::cli::ansi::visible(s).len();
    if w >= inner {
        s
    } else {
        s + text::repeated(' ', (inner - w) as nat)
    }
}

/// No more of a text is visible than it has characters.
pub proof fn lemma_visible_is_shorter(s: Seq<char>, from: int)
    requires
        0 <= from <= s.len(),
    ensures
        crate::cli::ansi::visible_from(s, from).len() <= s.len() - from,
    decreases s.len() - from,
{
    if from < s.len() {
        if s[from] == '\x1b' && from + 1 < s.len() && s[from + 1] == '[' {
            let end = crate::cli::ansi::sequence_end(s, from + 2);
            if from < end <= s.len() {
                lemma_visible_is_shorter(s, end);
            }
        } else {
            lemma_visible_is_shorter(s, from + 1);
        }
    }
}

fn truncate_visible(s: &str, max: usize) -> (r: String)
    ensures
        r@ == cut(s@, max as nat),
{
    proof {
        lemma_visible_is_shorter(s@, 0);
    }
    if visible_width(s) <= max {
        return s.to_owned();
    }
    if max == 0 {
        return String::new();
    }
    let taken = text::sub_string(s, 0, max - 1);
    assert(taken@ =~= s@.take(max - 1));
    text::concat(&taken, "…")
}

fn pad_to_visible(content: &str, inner: usize) -> (r: String)
    ensures
        r@ == padded(content@, inner as nat),
{
    let w = visible_width(content);
    if w >= inner {
        content.to_owned()
    } else {
        text::concat(content, &text::repeat(' ', inner - w))
    }
}

// ------------------------------------------------------------------ borders
/// The upper border, with the title in it.
pub open spec fn top_of(
    a: crate::cli::ansi::AnsiView,
    title: Seq<char>,
    width: usize,
    kind: KindView,
    color: bool,
) -> Seq<char> {
    let full = title + kind.suffix();
    let width = bounded(width);
    let b = kind.border();
    if !color {
        "--- "@ + full + " ---"@
    } else {
        let shown = cut(full, (width - 6) as nat);
        let used = 5 + crate::cli::ansi::visible(shown).len();
        let fill = if used < width {
            (width - used) as nat
        } else {
            1
        };
        crate::cli::ansi::in_foreground(a, "╭─ "@, b) + crate::cli::ansi::in_foreground(a, shown, b)
            + crate::cli::ansi::in_foreground(a, " "@, b) + crate::cli::ansi::in_foreground(
            a,
            text::repeated('─', fill),
            b,
        ) + crate::cli::ansi::in_foreground(a, "╮"@, b)
    }
}

/// The lower border; there is none without color.
pub open spec fn bottom_of(
    a: crate::cli::ansi::AnsiView,
    width: usize,
    kind: KindView,
    color: bool,
) -> Seq<char> {
    let b = kind.border();
    if !color {
        ""@
    } else {
        crate::cli::ansi::in_foreground(a, "╰─"@, b) + crate::cli::ansi::in_foreground(
            a,
            text::repeated('─', (bounded(width) - 3) as nat),
            b,
        ) + crate::cli::ansi::in_foreground(a, "╯"@, b)
    }
}

/// A row of the body between the borders, a space on either side; indented without
/// color.
pub open spec fn body_of(
    a: crate::cli::ansi::AnsiView,
    content: Seq<char>,
    width: usize,
    kind: KindView,
    color: bool,
) -> Seq<char> {
    if !color {
        "  "@ + content
    } else {
        let full = " "@ + padded(content, (bounded(width) - 4) as nat) + " "@;
        let cell = if kind is Plan {
            crate::cli::ansi::on_panel(a, full)
        } else {
            full
        };
        let side = crate::cli::ansi::in_foreground(a, "│"@, kind.border());
        side + cell + side
    }
}

fn draw_top(ansi: &Ansi, title: &str, width: usize, kind: SectionKind, color: bool) -> (r: String)
    ensures
        r@ == top_of(ansi.deep_view(), title@, width, kind.deep_view(), color),
{
    let width = clamp_width(width);
    let (border, _) = kind.style();
    let full = text::concat(title, &kind.title_suffix());
    if !color {
        return text::concat3("--- ", &full, " ---");
    }
    let shown = truncate_visible(&full, width - 6);
    let tv = visible_width(&shown);
    let fill = if tv < width - 5 {
        width - 5 - tv
    } else {
        1
    };
    text::concat5(
        &fg_only(ansi, "╭─ ", border),
        &fg_only(ansi, &shown, border),
        &fg_only(ansi, " ", border),
        &fg_only(ansi, &text::repeat('─', fill), border),
        &fg_only(ansi, "╮", border),
    )
}

fn draw_bottom(ansi: &Ansi, width: usize, kind: SectionKind, color: bool) -> (r: String)
    ensures
        r@ == bottom_of(ansi.deep_view(), width, kind.deep_view(), color),
{
    let width = clamp_width(width);
    if !color {
        return "".to_owned();
    }
    let (border, _) = kind.style();
    text::concat3(
        &fg_only(ansi, "╰─", border),
        &fg_only(ansi, &text::repeat('─', width - 3), border),
        &fg_only(ansi, "╯", border),
    )
}

fn draw_body(ansi: &Ansi, content: &str, width: usize, kind: SectionKind, color: bool) -> (r:
    String)
    ensures
        r@ == body_of(ansi.deep_view(), content@, width, kind.deep_view(), color),
{
    let width = clamp_width(width);
    if !color {
        return text::concat("  ", content);
    }
    let (border, tinted) = kind.style();
    let full = text::concat3(" ", &pad_to_visible(content, width - 4), " ");
    let cell = if tinted {
        tint_cell(ansi, &full)
    } else {
        full
    };
    let side = fg_only(ansi, "│", border);
    text::concat3(&side, &cell, &side)
}

// --------------------------------------------------------------------- boxes
/// The rows that a line takes in a panel.
pub open spec fn rows_in(line: Seq<char>, width: usize) -> Seq<Seq<char>> {
    crate::cli::wrap::row_texts(
        crate::cli::wrap::rows_of(
            crate::cli::wrap::toks_from(line, 0),
            (bounded(width) - 4) as nat,
        ),
    )
}

/// Rows of the body, a line feed behind each.
pub open spec fn drawn(
    a: crate::cli::ansi::AnsiView,
    rows: Seq<Seq<char>>,
    width: usize,
    kind: KindView,
    color: bool,
) -> Seq<char>
    decreases rows.len(),
{
    if rows.len() == 0 {
        seq![]
    } else {
        (drawn(a, rows.drop_last(), width, kind, color) + body_of(
            a,
            rows.last(),
            width,
            kind,
            color,
        )).push('\n')
    }
}

/// The body of a panel with these lines.
pub open spec fn body_lines(
    a: crate::cli::ansi::AnsiView,
    lines: Seq<Seq<char>>,
    width: usize,
    kind: KindView,
    color: bool,
) -> Seq<char>
    decreases lines.len(),
{
    if lines.len() == 0 {
        seq![]
    } else {
        body_lines(a, lines.drop_last(), width, kind, color) + drawn(
            a,
            rows_in(lines.last(), width),
            width,
            kind,
            color,
        )
    }
}

/// A panel.
pub open spec fn box_of(
    a: crate::cli::ansi::AnsiView,
    title: Seq<char>,
    lines: Seq<Seq<char>>,
    kind: KindView,
    width: usize,
    color: bool,
) -> Seq<char> {
    top_of(a, title, width, kind, color).push('\n') + body_lines(a, lines, width, kind, color)
        + bottom_of(a, width, kind, color)
}

fn draw_line(ansi: &Ansi, line: &str, width: usize, kind: SectionKind, color: bool) -> (out:
    String)
    ensures
        out@ == drawn(ansi.deep_view(), rows_in(line@, width), width, kind.deep_view(), color),
{
    let ghost a = ansi.deep_view();
    let rows = wrap_styled_line(line, clamp_width(width) - 4);
    let ghost view = rows.deep_view();
    let mut out = String::new();
    let mut i: usize = 0;
    assert(view.take(0) =~= seq![]);
    while i < rows.len()
        invariant
            i <= rows.len(),
            a == ansi.deep_view(),
            view == rows.deep_view(),
            out@ == drawn(a, view.take(i as int), width, kind.deep_view(), color),
        decreases rows.len() - i,
    {
        assert(view.take(i + 1).drop_last() =~= view.take(i as int));
        assert(view[i as int] == rows@[i as int]@);
        out.append(&draw_body(ansi, &rows[i], width, kind, color));
        out.push('\n');
        i += 1;
    }
    assert(view.take(view.len() as int) =~= view);
    out
}

/// A panel: its title in the upper border, its lines broken to its width.
pub fn render_box(ansi: &Ansi, title: &str, lines: &[String], kind: SectionKind, width: usize) -> (r:
    String)
    ensures
        r@ == box_of(
            ansi.deep_view(),
            title@,
            lines.deep_view(),
            kind.deep_view(),
            width,
            ansi.deep_view().on,
        ),
{
    render_box_inner(ansi, title, lines, kind, width, enabled(ansi))
}

/// A panel, with or without color.
pub fn render_box_inner(
    ansi: &Ansi,
    title: &str,
    lines: &[String],
    kind: SectionKind,
    width: usize,
    color: bool,
) -> (out: String)
    ensures
        out@ == box_of(ansi.deep_view(), title@, lines.deep_view(), kind.deep_view(), width, color),
{
    let ghost a = ansi.deep_view();
    let ghost view = lines.deep_view();
    let mut out = draw_top(ansi, title, width, kind, color);
    out.push('\n');
    let ghost head = out@;
    let mut i: usize = 0;
    assert(view.take(0) =~= seq![]);
    assert(head + body_lines(a, seq![], width, kind.deep_view(), color) =~= head);
    while i < lines.len()
        invariant
            i <= lines.len(),
            a == ansi.deep_view(),
            view == lines.deep_view(),
            out@ == head + body_lines(a, view.take(i as int), width, kind.deep_view(), color),
        decreases lines.len() - i,
    {
        assert(view.take(i + 1).drop_last() =~= view.take(i as int));
        assert(view[i as int] == lines@[i as int]@);
        out.append(&draw_line(ansi, &lines[i], width, kind, color));
        assert(out@ =~= head + body_lines(a, view.take(i + 1), width, kind.deep_view(), color));
        i += 1;
    }
    assert(view.take(view.len() as int) =~= view);
    out.append(&draw_bottom(ansi, width, kind, color));
    out
}

// ------------------------------------------------------------------ decisions
/// A label and a value.
pub open spec fn labelled(
    a: crate::cli::ansi::AnsiView,
    label: Seq<char>,
    value: Seq<char>,
) -> Seq<char> {
    crate::cli::ansi::in_foreground(a, label, Shade::Grey) + ": "@ + value
}

/// A label and a value, where there is one.
pub open spec fn maybe_labelled(
    a: crate::cli::ansi::AnsiView,
    label: Seq<char>,
    value: Option<Seq<char>>,
) -> Seq<Seq<char>> {
    match value {
        Some(v) => seq![labelled(a, label, v)],
        None => seq![],
    }
}

/// A piece of evidence in words.
pub open spec fn evidence_text(e: crate::ai::trust::EvidenceView) -> Seq<char> {
    let place = match e.line {
        Some(n) => e.file + ":"@ + text::spec_decimal(n as nat),
        None => e.file,
    };
    let note = match e.note {
        Some(n) => n,
        None => ""@,
    };
    place + " — "@ + note
}

/// The lines of a panel for what a reply says of its reliability.
pub open spec fn decision_lines(
    a: crate::cli::ansi::AnsiView,
    trust: crate::ai::trust::TrustView,
) -> Seq<Seq<char>> {
    maybe_labelled(a, "reason"@, trust.reason) + maybe_labelled(
        a,
        "expected"@,
        trust.expected_outcome,
    ) + maybe_labelled(a, "uncertainty"@, trust.uncertainty) + trust.evidence.map_values(
        |e: crate::ai::trust::EvidenceView| labelled(a, "evidence"@, evidence_text(e)),
    ) + maybe_labelled(a, "eta"@, trust.estimated_time)
}

/// The kind of the panel for a confidence.
pub open spec fn decision_kind(confidence: Option<u8>) -> KindView {
    match confidence {
        Some(value) => KindView::Decision {
            tier: crate::ai::trust::tier_name(value),
            confidence: value,
        },
        None => KindView::Decision { tier: ""@, confidence: 0 },
    }
}

/// The panel for what a reply says of its reliability.
pub open spec fn decision_of(
    a: crate::cli::ansi::AnsiView,
    trust: crate::ai::trust::TrustView,
    width: usize,
) -> Seq<char> {
    if trust.is_empty() {
        ""@
    } else {
        box_of(
            a,
            "decision"@,
            decision_lines(a, trust),
            decision_kind(trust.confidence),
            width,
            a.on,
        )
    }
}

fn push_labelled(ansi: &Ansi, lines: &mut Vec<String>, label: &str, value: &Option<String>)
    ensures
        final(lines).deep_view() == old(lines).deep_view() + maybe_labelled(
            ansi.deep_view(),
            label@,
            value.deep_view(),
        ),
{
    if let Some(value) = value {
        text::put(lines, text::concat3(&fg_only(ansi, label, Shade::Grey), ": ", value));
    }
    assert(lines.deep_view() =~= old(lines).deep_view() + maybe_labelled(
        ansi.deep_view(),
        label@,
        value.deep_view(),
    ));
}

fn describe(e: &Evidence) -> (r: String)
    ensures
        r@ == evidence_text(e.deep_view()),
{
    let place = match e.line {
        Some(n) => text::concat3(&e.file, ":", &text::decimal(n)),
        None => e.file.dup(),
    };
    let note = match &e.note {
        Some(n) => n.as_str(),
        None => "",
    };
    text::concat3(&place, " — ", note)
}

fn push_evidence(ansi: &Ansi, lines: &mut Vec<String>, evidence: &[Evidence])
    ensures
        final(lines).deep_view() == old(lines).deep_view() + evidence.deep_view().map_values(
            |e: crate::ai::trust::EvidenceView|
                labelled(ansi.deep_view(), "evidence"@, evidence_text(e)),
        ),
{
    let ghost a = ansi.deep_view();
    let ghost first = lines.deep_view();
    let ghost said = evidence.deep_view().map_values(
        |e: crate::ai::trust::EvidenceView| labelled(a, "evidence"@, evidence_text(e)),
    );
    let mut i: usize = 0;
    assert(first + said.take(0) =~= first);
    while i < evidence.len()
        invariant
            i <= evidence.len(),
            a == ansi.deep_view(),
            said == evidence.deep_view().map_values(
                |e: crate::ai::trust::EvidenceView| labelled(a, "evidence"@, evidence_text(e)),
            ),
            lines.deep_view() == first + said.take(i as int),
        decreases evidence.len() - i,
    {
        text::put(
            lines,
            text::concat3(
                &fg_only(ansi, "evidence", Shade::Grey),
                ": ",
                &describe(&evidence[i]),
            ),
        );
        assert(first + said.take(i + 1) =~= (first + said.take(i as int)).push(said[i as int]));
        i += 1;
    }
    assert(said.take(said.len() as int) =~= said);
}

/// The panel for what a reply says of its reliability; nothing where it says
/// nothing.
pub fn print_decision(ansi: &Ansi, trust: &TrustData, width: usize) -> (r: String)
    ensures
        r@ == decision_of(ansi.deep_view(), trust.deep_view(), width),
{
    if trust.is_empty() {
        return "".to_owned();
    }
    let (tier, confidence) = match trust.confidence_tier() {
        Some((tier, confidence)) => (tier, confidence),
        None => ("", 0),
    };
    let kind = SectionKind::Decision { tier, confidence };
    let mut lines: Vec<String> = Vec::new();
    assert(lines.deep_view() =~= seq![]);
    push_labelled(ansi, &mut lines, "reason", &trust.reason);
    push_labelled(ansi, &mut lines, "expected", &trust.expected_outcome);
    push_labelled(ansi, &mut lines, "uncertainty", &trust.uncertainty);
    push_evidence(ansi, &mut lines, &trust.evidence);
    push_labelled(ansi, &mut lines, "eta", &trust.estimated_time);
    assert(lines.deep_view() =~= decision_lines(ansi.deep_view(), trust.deep_view()));
    assert(kind.deep_view() == decision_kind(trust.deep_view().confidence));
    render_box(ansi, "decision", &lines, kind, width)
}

// ------------------------------------------------------------------- replies
/// A panel that fills up while a reply is streamed.
pub struct ReplyBox {
    active: bool,
    line_buf: String,
    width: usize,
}

/// What a `ReplyBox` stands for.
pub ghost struct ReplyBoxView {
    pub active: bool,
    pub buf: Seq<char>,
    pub width: usize,
}

impl View for ReplyBox {
    type V = ReplyBoxView;

    closed spec fn view(&self) -> ReplyBoxView {
        ReplyBoxView { active: self.active, buf: self.line_buf@, width: self.width }
    }
}

/// A line of a reply as it is shown.
pub open spec fn reply_line(
    a: crate::cli::ansi::AnsiView,
    line: Seq<char>,
    width: usize,
) -> Seq<char> {
    let shown = text::trim_end_set(
        crate::cli::ansi::markdown_of(a, text::spec_trim_end(line)),
        seq!['\n'],
    );
    drawn(a, rows_in(shown, width), width, KindView::Reply, a.on)
}

/// What is shown of the full lines in a buffer.
pub open spec fn shown_lines(
    a: crate::cli::ansi::AnsiView,
    buf: Seq<char>,
    width: usize,
) -> Seq<char>
    decreases buf.len(),
{
    match text::spec_find(buf, "\n"@) {
        Some(i) => if 0 <= i < buf.len() {
            reply_line(a, buf.take(i), width) + shown_lines(a, buf.skip(i + 1), width)
        } else {
            seq![]
        },
        None => seq![],
    }
}

/// What the full lines leave of a buffer.
pub open spec fn unfinished(buf: Seq<char>) -> Seq<char>
    decreases buf.len(),
{
    match text::spec_find(buf, "\n"@) {
        Some(i) => if 0 <= i < buf.len() {
            unfinished(buf.skip(i + 1))
        } else {
            buf
        },
        None => buf,
    }
}

/// Whether an unfinished line is shown because it does not fit into a row.
pub open spec fn overflows(line: Seq<char>, width: usize) -> bool {
    crate::cli::ansi::visible(line).len() > bounded(width) - 4 && text::spec_trim(line).len() > 0
}

/// The panel and what it shows once it took a delta.
pub open spec fn box_pushed(
    a: crate::cli::ansi::AnsiView,
    b: ReplyBoxView,
    delta: Seq<char>,
) -> (ReplyBoxView, Seq<char>) {
    let head = if b.active {
        seq![]
    } else {
        top_of(a, "reply"@, b.width, KindView::Reply, a.on).push('\n')
    };
    let buf = b.buf + delta;
    let rest = unfinished(buf);
    let out = head + shown_lines(a, buf, b.width);
    if overflows(rest, b.width) {
        (
            ReplyBoxView { active: true, buf: seq![], width: b.width },
            out + reply_line(a, rest, b.width),
        )
    } else {
        (ReplyBoxView { active: true, buf: rest, width: b.width }, out)
    }
}

/// The panel and what it shows at the end of a reply.
pub open spec fn box_finished(
    a: crate::cli::ansi::AnsiView,
    b: ReplyBoxView,
) -> (ReplyBoxView, Seq<char>) {
    if !b.active {
        (b, seq![])
    } else {
        let last = if b.buf.len() > 0 {
            reply_line(a, b.buf, b.width)
        } else {
            seq![]
        };
        (
            ReplyBoxView { active: false, buf: seq![], width: b.width },
            last + bottom_of(a, b.width, KindView::Reply, a.on).push('\n'),
        )
    }
}

fn show_line(ansi: &Ansi, line: &str, width: usize) -> (r: String)
    ensures
        r@ == reply_line(ansi.deep_view(), line@, width),
{
    let set: [char; 1] = ['\n'];
    assert(set@ =~= seq!['\n']);
    let shown = text::trim_end_chars(&render_markdown(ansi, &text::trim_end(line)), &set);
    draw_line(ansi, &shown, width, SectionKind::Reply, enabled(ansi))
}

impl ReplyBox {
    /// A panel of this width that shows nothing.
    pub fn new(width: usize) -> (r: Self)
        ensures
            r@ == (ReplyBoxView { active: false, buf: seq![], width: bounded(width) }),
    {
        ReplyBox { active: false, line_buf: String::new(), width: clamp_width(width) }
    }

    /// Takes a part of the reply, and gives what is to be shown: the upper border
    /// first, then each line once it is full.
    pub fn push(&mut self, ansi: &Ansi, delta: &str) -> (out: String)
        ensures
            (final(self)@, out@) == box_pushed(ansi.deep_view(), old(self)@, delta@),
    {
        let ghost a = ansi.deep_view();
        let mut out = String::new();
        if !self.active {
            out.append(&draw_top(ansi, "reply", self.width, SectionKind::Reply, enabled(ansi)));
            out.push('\n');
            self.active = true;
        }
        let ghost head = out@;
        self.line_buf.append(delta);
        let ghost buf = self.line_buf@;
        let ghost width = self.width;
        assert(out@ + shown_lines(a, buf, width) =~= head + shown_lines(a, buf, width));
        proof {
            reveal_strlit("\n");
        }
        loop
            invariant
                a == ansi.deep_view(),
                self.active,
                self.width == width,
                "\n"@.len() == 1,
                out@ + shown_lines(a, self.line_buf@, width) == head + shown_lines(a, buf, width),
                unfinished(self.line_buf@) == unfinished(buf),
            ensures
                self.active,
                self.width == width,
                out@ == head + shown_lines(a, buf, width),
                self.line_buf@ == unfinished(buf),
            decreases self.line_buf@.len(),
        {
            proof {
                text::lemma_find_from(self.line_buf@, "\n"@, 0);
            }
            match text::find(&self.line_buf, "\n") {
                Some(i) => {
                    let n = text::count(&self.line_buf);
                    let line = text::sub_string(&self.line_buf, 0, i);
                    let rest = text::sub_string(&self.line_buf, i + 1, n);
                    assert(line@ =~= self.line_buf@.take(i as int));
                    assert(rest@ =~= self.line_buf@.skip(i + 1));
                    let shown = show_line(ansi, &line, self.width);
                    assert(out@ + (shown@ + shown_lines(a, rest@, width)) =~= out@ + shown@
                        + shown_lines(a, rest@, width));
                    out.append(&shown);
                    self.line_buf = rest;
                },
                None => {
                    assert(out@ + shown_lines(a, self.line_buf@, width) =~= out@);
                    break;
                },
            }
        }
        let inner = clamp_width(self.width) - 4;
        if visible_width(&self.line_buf) > inner && text::count(&text::trim(&self.line_buf)) > 0 {
            out.append(&show_line(ansi, &self.line_buf, self.width));
            self.line_buf = String::new();
        }
        out
    }

    /// Ends the panel, and gives what is to be shown: the rest of the reply and
    /// the lower border.
    pub fn finish(&mut self, ansi: &Ansi) -> (out: String)
        ensures
            (final(self)@, out@) == box_finished(ansi.deep_view(), old(self)@),
    {
        let mut out = String::new();
        if self.active {
            if text::count(&self.line_buf) > 0 {
                out.append(&show_line(ansi, &self.line_buf, self.width));
            }
            self.line_buf = String::new();
            out.append(&draw_bottom(ansi, self.width, SectionKind::Reply, enabled(ansi)));
            out.push('\n');
            self.active = false;
            assert(out@ =~= box_finished(ansi.deep_view(), old(self)@).1);
        }
        out
    }
}

} // verus!
