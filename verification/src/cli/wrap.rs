//! Breaking styled lines into rows of a bounded width.
use crate::cli::ansi::is_full_reset;
use crate::text;
use vstd::prelude::*;

verus! {

/// A piece of a styled line.
enum Tok {
    /// A control sequence.
    Ctrl(String),
    /// A visible character.
    Ch(char),
}

/// What a piece of a styled line is: its text, and whether that is visible.
pub ghost struct TokView {
    pub visible: bool,
    pub text: Seq<char>,
}

/// A control sequence.
pub open spec fn ctrl(s: Seq<char>) -> TokView {
    TokView { visible: false, text: s }
}

/// A visible character.
pub open spec fn cell(c: char) -> TokView {
    TokView { visible: true, text: seq![c] }
}

impl DeepView for Tok {
    type V = TokView;

    closed spec fn deep_view(&self) -> TokView {
        match self {
            Tok::Ctrl(s) => ctrl(s@),
            Tok::Ch(c) => cell(*c),
        }
    }
}

/// The position behind the control sequence whose parameters begin at `from`.
pub open spec fn control_end(s: Seq<char>, from: int) -> int
    decreases s.len() - from,
{
    if from < 0 || from >= s.len() {
        s.len() as int
    } else if 0x40 <= s[from] as u32 <= 0x7e {
        from + 1
    } else {
        control_end(s, from + 1)
    }
}

/// The pieces of a line from `from` on.
pub open spec fn toks_from(s: Seq<char>, from: int) -> Seq<TokView>
    decreases s.len() - from,
{
    if from < 0 || from >= s.len() {
        seq![]
    } else if s[from] != '\x1b' {
        seq![cell(s[from])] + toks_from(s, from + 1)
    } else if from + 1 < s.len() && s[from + 1] == '[' {
        let end = control_end(s, from + 2);
        if from < end <= s.len() {
            seq![ctrl(s.subrange(from, end))] + toks_from(s, end)
        } else {
            seq![]
        }
    } else {
        seq![ctrl(seq!['\x1b'])] + toks_from(s, from + 1)
    }
}

fn end_of_control(s: &[char], from: usize) -> (r: usize)
    requires
        from <= s@.len(),
    ensures
        r == control_end(s@, from as int),
        from <= r <= s@.len(),
{
    let mut i: usize = from;
    while i < s.len()
        invariant
            from <= i <= s@.len(),
            control_end(s@, from as int) == control_end(s@, i as int),
        decreases s.len() - i,
    {
        let c = s[i] as u32;
        if 0x40 <= c && c <= 0x7e {
            return i + 1;
        }
        i += 1;
    }
    i
}

fn tokenize(line: &str) -> (out: Vec<Tok>)
    ensures
        out.deep_view() == toks_from(line@, 0),
{
    let x = text::chars_of(line);
    let mut out: Vec<Tok> = Vec::new();
    let mut i: usize = 0;
    assert(out.deep_view() + toks_from(line@, 0) =~= toks_from(line@, 0));
    while i < x.len()
        invariant
            x@ == line@,
            i <= x@.len(),
            out.deep_view() + toks_from(line@, i as int) == toks_from(line@, 0),
        decreases x.len() - i,
    {
        let ghost before = out.deep_view();
        let ghost at = i as int;
        if x[i] == '\x1b' {
            if i + 1 < x.len() && x[i + 1] == '[' {
                let end = end_of_control(&x, i + 2);
                text::put(&mut out, Tok::Ctrl(text::slice_string(&x, i, end)));
                i = end;
            } else {
                let escape = text::slice_string(&x, i, i + 1);
                assert(escape@ =~= seq!['\x1b']);
                text::put(&mut out, Tok::Ctrl(escape));
                i += 1;
            }
        } else {
            text::put(&mut out, Tok::Ch(x[i]));
            i += 1;
        }
        assert(out.deep_view().drop_last() =~= before);
        assert(toks_from(line@, at) == seq![out.deep_view().last()] + toks_from(line@, i as int));
        assert(before + toks_from(line@, at) =~= out.deep_view() + toks_from(line@, i as int));
    }
    assert(out.deep_view() + toks_from(line@, i as int) =~= out.deep_view());
    out
}

// --------------------------------------------------------------------- rows
/// The text of pieces.
pub open spec fn written(toks: Seq<TokView>) -> Seq<char>
    decreases toks.len(),
{
    if toks.len() == 0 {
        seq![]
    } else {
        written(toks.drop_last()) + toks.last().text
    }
}

/// How many of the pieces are visible.
pub open spec fn cells(toks: Seq<TokView>) -> nat
    decreases toks.len(),
{
    if toks.len() == 0 {
        0
    } else {
        cells(toks.drop_last()) + if toks.last().visible {
            1nat
        } else {
            0
        }
    }
}

/// The position of the last space.
pub open spec fn last_space(toks: Seq<TokView>) -> Option<int>
    decreases toks.len(),
{
    if toks.len() == 0 {
        None
    } else if toks.last() == cell(' ') {
        Some(toks.len() - 1)
    } else {
        last_space(toks.drop_last())
    }
}

/// A row: the style that is taken up from the row before, and its pieces.
pub ghost struct RowView {
    pub style: Seq<char>,
    pub toks: Seq<TokView>,
}

impl RowView {
    /// The text of the row.
    pub open spec fn text(self) -> Seq<char> {
        self.style + written(self.toks)
    }
}

/// The style that is selected behind these pieces, where `style` is selected before
/// them: a full reset ends what was selected, and other sequences add to it.
pub open spec fn style_behind(style: Seq<char>, toks: Seq<TokView>) -> Seq<char>
    decreases toks.len(),
{
    if toks.len() == 0 {
        style
    } else {
        let before = style_behind(style, toks.drop_last());
        let last = toks.last();
        if last.visible {
            before
        } else if last.text == "\x1b[0m"@ {
            seq![]
        } else {
            before + last.text
        }
    }
}

/// What has been made of a line: full rows, the style that the row under way takes
/// up, and its pieces.
pub ghost struct WrapView {
    pub rows: Seq<RowView>,
    pub style: Seq<char>,
    pub cur: Seq<TokView>,
}

/// The pieces as the next row.
pub open spec fn row_of(w: WrapView, toks: Seq<TokView>) -> RowView {
    RowView { style: w.style, toks }
}

/// The row under way is broken before its piece `at`. The next row takes up the style
/// that is selected there.
pub open spec fn broken_at(w: WrapView, at: int) -> WrapView {
    WrapView {
        rows: w.rows.push(row_of(w, w.cur.take(at))),
        style: style_behind(w.style, w.cur.take(at)),
        cur: w.cur.skip(at),
    }
}

/// Room is made for one more visible piece: a full row is broken behind its last
/// space, and at its end where it has none.
pub open spec fn broken(w: WrapView, inner: nat) -> WrapView {
    if cells(w.cur) + 1 > inner && w.cur.len() > 0 {
        match last_space(w.cur) {
            Some(i) => broken_at(w, i + 1),
            None => broken_at(w, w.cur.len() as int),
        }
    } else {
        w
    }
}

/// One more piece is taken.
pub open spec fn taken(w: WrapView, tok: TokView, inner: nat) -> WrapView {
    let w = if tok.visible {
        broken(w, inner)
    } else {
        w
    };
    WrapView { cur: w.cur.push(tok), ..w }
}

/// What is made of these pieces.
pub open spec fn wrapping(toks: Seq<TokView>, inner: nat) -> WrapView
    decreases toks.len(),
{
    if toks.len() == 0 {
        WrapView { rows: seq![], cur: seq![], style: seq![] }
    } else {
        taken(wrapping(toks.drop_last(), inner), toks.last(), inner)
    }
}

/// The rows of a line of these pieces.
pub open spec fn rows_of(toks: Seq<TokView>, inner: nat) -> Seq<RowView> {
    let w = wrapping(toks, inner);
    let rows = if w.cur.len() > 0 {
        w.rows.push(row_of(w, w.cur))
    } else {
        w.rows
    };
    if rows.len() == 0 || inner == 0 {
        seq![RowView { style: seq![], toks: seq![] }]
    } else {
        rows
    }
}

/// The texts of rows.
pub open spec fn row_texts(rows: Seq<RowView>) -> Seq<Seq<char>> {
    rows.map_values(|r: RowView| r.text())
}

/// The style that is selected behind pieces of a row that takes up `style`.
fn style_at(toks: &[Tok], from: usize, to: usize, style: &str) -> (out: String)
    requires
        from <= to <= toks@.len(),
    ensures
        out@ == style_behind(style@, toks.deep_view().subrange(from as int, to as int)),
{
    let ghost view = toks.deep_view();
    let mut out = style.to_owned();
    let mut i: usize = from;
    assert(view.subrange(from as int, from as int) =~= seq![]);
    while i < to
        invariant
            from <= i <= to <= toks@.len(),
            view == toks.deep_view(),
            out@ == style_behind(style@, view.subrange(from as int, i as int)),
        decreases to - i,
    {
        assert(view.subrange(from as int, i + 1).drop_last() =~= view.subrange(
            from as int,
            i as int,
        ));
        assert(view[i as int] == toks@[i as int].deep_view());
        if let Tok::Ctrl(s) = &toks[i] {
            if is_full_reset(s) {
                out = String::new();
            } else {
                out.append(s);
            }
        }
        i += 1;
    }
    out
}

fn write(toks: &[Tok], from: usize, to: usize, style: &str) -> (r: String)
    requires
        from <= to <= toks@.len(),
    ensures
        r@ == (RowView {
            style: style@,
            toks: toks.deep_view().subrange(from as int, to as int),
        }).text(),
{
    let ghost view = toks.deep_view();
    let mut out = style.to_owned();
    let ghost style = out@;
    let mut i: usize = from;
    assert(view.subrange(from as int, from as int) =~= seq![]);
    assert(style + written(seq![]) =~= style);
    while i < to
        invariant
            from <= i <= to <= toks@.len(),
            view == toks.deep_view(),
            out@ == style + written(view.subrange(from as int, i as int)),
        decreases to - i,
    {
        let ghost longer = view.subrange(from as int, i + 1);
        assert(longer.drop_last() =~= view.subrange(from as int, i as int));
        assert(view[i as int] == toks@[i as int].deep_view());
        match &toks[i] {
            Tok::Ctrl(s) => {
                out.append(s);
                assert(out@ =~= style + written(longer));
            },
            Tok::Ch(c) => {
                out.push(*c);
                assert(out@ =~= style + written(longer));
            },
        }
        i += 1;
    }
    out
}

fn visible_of(toks: &[Tok], from: usize, to: usize) -> (r: usize)
    requires
        from <= to <= toks@.len(),
    ensures
        r == cells(toks.deep_view().subrange(from as int, to as int)),
        r <= to - from,
{
    let ghost view = toks.deep_view();
    let mut n: usize = 0;
    let mut i: usize = from;
    assert(view.subrange(from as int, from as int) =~= seq![]);
    while i < to
        invariant
            from <= i <= to <= toks@.len(),
            view == toks.deep_view(),
            n == cells(view.subrange(from as int, i as int)),
            n <= i - from,
        decreases to - i,
    {
        assert(view.subrange(from as int, i + 1).drop_last() =~= view.subrange(
            from as int,
            i as int,
        ));
        assert(view[i as int] == toks@[i as int].deep_view());
        if let Tok::Ch(_) = &toks[i] {
            n += 1;
        }
        i += 1;
    }
    n
}

fn find_last_space(toks: &[Tok], from: usize, to: usize) -> (r: Option<usize>)
    requires
        from <= to <= toks@.len(),
    ensures
        text::at(r) == last_space(toks.deep_view().subrange(from as int, to as int)),
        r matches Some(i) ==> i < to - from,
{
    let ghost view = toks.deep_view();
    let mut i: usize = to;
    while i > from
        invariant
            from <= i <= to <= toks@.len(),
            view == toks.deep_view(),
            last_space(view.subrange(from as int, to as int)) == last_space(
                view.subrange(from as int, i as int),
            ),
        decreases i,
    {
        i -= 1;
        let ghost longer = view.subrange(from as int, i + 1);
        assert(longer.drop_last() =~= view.subrange(from as int, i as int));
        assert(view[i as int] == toks@[i as int].deep_view());
        if let Tok::Ch(c) = &toks[i] {
            if *c == ' ' {
                return Some(i - from);
            }
            assert(cell(*c).text[0] != cell(' ').text[0]);
        }
    }
    assert(view.subrange(from as int, from as int) =~= seq![]);
    None
}

/// Breaks a line into rows of at most `inner` visible characters, at spaces where
/// there are any. A style that is selected at a break is selected again in the
/// next row.
pub fn wrap_styled_line(line: &str, inner: usize) -> (out: Vec<String>)
    ensures
        out.deep_view() == row_texts(rows_of(toks_from(line@, 0), inner as nat)),
{
    let mut out: Vec<String> = Vec::new();
    assert(out.deep_view() =~= seq![]);
    if inner == 0 {
        text::put(&mut out, String::new());
        assert(out.deep_view() =~= row_texts(seq![RowView { style: seq![], toks: seq![] }])) by {
            assert((RowView { style: seq![], toks: seq![] }).text() =~= seq![]);
        }
        return out;
    }
    let toks = tokenize(line);
    let ghost view = toks.deep_view();
    let ghost n = inner as nat;
    let mut start: usize = 0;
    let mut style = String::new();
    let mut i: usize = 0;
    assert(view.take(0) =~= seq![]);
    assert(view.subrange(0, 0) =~= seq![]);
    assert(out.deep_view() =~= row_texts(wrapping(view.take(0), n).rows));
    while i < toks.len()
        invariant
            start <= i <= toks@.len(),
            view == toks.deep_view(),
            n == inner as nat,
            out.deep_view() == row_texts(wrapping(view.take(i as int), n).rows),
            view.subrange(start as int, i as int) == wrapping(view.take(i as int), n).cur,
            style@ == wrapping(view.take(i as int), n).style,
        decreases toks.len() - i,
    {
        let ghost before = wrapping(view.take(i as int), n);
        let ghost cur = view.subrange(start as int, i as int);
        assert(view.take(i + 1).drop_last() =~= view.take(i as int));
        assert(view[i as int] == toks@[i as int].deep_view());
        if let Tok::Ch(_) = &toks[i] {
            let visible = visible_of(&toks, start, i);
            if visible >= inner && start < i {
                let at = match find_last_space(&toks, start, i) {
                    Some(space) => start + space + 1,
                    None => i,
                };
                let ghost behind = at - start;
                assert(view.subrange(start as int, at as int) =~= cur.take(behind));
                assert(view.subrange(at as int, i as int) =~= cur.skip(behind));
                text::put(&mut out, write(&toks, start, at, &style));
                style = style_at(&toks, start, at, &style);
                start = at;
                assert(broken(before, n) == broken_at(before, behind));
                assert(out.deep_view() =~= row_texts(broken(before, n).rows));
            }
        }
        assert(view.subrange(start as int, i + 1) =~= view.subrange(start as int, i as int).push(
            view[i as int],
        ));
        i += 1;
    }
    assert(view.take(view.len() as int) =~= view);
    let ghost w = wrapping(view, n);
    if start < i {
        text::put(&mut out, write(&toks, start, i, &style));
        assert(out.deep_view() =~= row_texts(w.rows.push(row_of(w, w.cur))));
    }
    if out.len() == 0 {
        text::put(&mut out, String::new());
        assert((RowView { style: seq![], toks: seq![] }).text() =~= seq![]);
        assert(out.deep_view() =~= row_texts(seq![RowView { style: seq![], toks: seq![] }]));
    }
    out
}

// --------------------------------------------------------------------- laws
proof fn lemma_cells_add(a: Seq<TokView>, b: Seq<TokView>)
    ensures
        cells(a + b) == cells(a) + cells(b),
    decreases b.len(),
{
    if b.len() == 0 {
        assert(a + b =~= a);
    } else {
        assert((a + b).drop_last() =~= a + b.drop_last());
        lemma_cells_add(a, b.drop_last());
    }
}

pub proof fn lemma_last_space(toks: Seq<TokView>)
    ensures
        last_space(toks) matches Some(i) ==> 0 <= i < toks.len() && toks[i] == cell(' '),
    decreases toks.len(),
{
    if toks.len() > 0 && toks.last() != cell(' ') {
        lemma_last_space(toks.drop_last());
    }
}

proof fn lemma_broken(w: WrapView, inner: nat)
    requires
        inner > 0,
        cells(w.cur) <= inner,
        forall|i: int| 0 <= i < w.rows.len() ==> cells((#[trigger] w.rows[i]).toks) <= inner,
    ensures
        cells(broken(w, inner).cur) < inner || (broken(w, inner).cur.len() == 0),
        forall|i: int|
            0 <= i < broken(w, inner).rows.len() ==> cells(
                (#[trigger] broken(w, inner).rows[i]).toks,
            ) <= inner,
        all_toks(broken(w, inner)) == all_toks(w),
{
    let b = broken(w, inner);
    if cells(w.cur) + 1 > inner && w.cur.len() > 0 {
        lemma_last_space(w.cur);
        let at = match last_space(w.cur) {
            Some(i) => i + 1,
            None => w.cur.len() as int,
        };
        let kept = w.cur.take(at);
        let moved = w.cur.skip(at);
        assert(w.cur =~= kept + moved);
        lemma_cells_add(kept, moved);
        assert(b.rows.drop_last() =~= w.rows);
        assert(all_toks(b) =~= all_toks(w));
        if last_space(w.cur) is Some {
            assert(kept.last() == cell(' '));
        }
    }
}

/// The pieces of rows, one after the other.
pub open spec fn toks_in(rows: Seq<RowView>) -> Seq<TokView>
    decreases rows.len(),
{
    if rows.len() == 0 {
        seq![]
    } else {
        toks_in(rows.drop_last()) + rows.last().toks
    }
}

/// All pieces that have been taken.
pub open spec fn all_toks(w: WrapView) -> Seq<TokView> {
    toks_in(w.rows) + w.cur
}

proof fn lemma_wrapping(toks: Seq<TokView>, inner: nat)
    requires
        inner > 0,
    ensures
        ({
            let w = wrapping(toks, inner);
            &&& cells(w.cur) <= inner
            &&& forall|i: int| 0 <= i < w.rows.len() ==> cells((#[trigger] w.rows[i]).toks) <= inner
            &&& all_toks(w) == toks
        }),
    decreases toks.len(),
{
    if toks.len() == 0 {
        assert(all_toks(wrapping(toks, inner)) =~= toks);
    } else {
        lemma_wrapping(toks.drop_last(), inner);
        let before = wrapping(toks.drop_last(), inner);
        let w = wrapping(toks, inner);
        lemma_broken(before, inner);
        if toks.last().visible {
            assert(w.cur.drop_last() =~= broken(before, inner).cur);
        } else {
            assert(w.cur.drop_last() =~= before.cur);
        }
        assert(toks =~= toks.drop_last().push(toks.last()));
        assert(all_toks(w) =~= toks);
    }
}

/// No row has more visible characters than it may have.
pub proof fn law_rows_fit(line: Seq<char>, inner: nat, i: int)
    requires
        0 <= i < rows_of(toks_from(line, 0), inner).len(),
    ensures
        cells(rows_of(toks_from(line, 0), inner)[i].toks) <= inner,
{
    if inner > 0 {
        lemma_wrapping(toks_from(line, 0), inner);
    }
}

/// Breaking a line loses nothing of it and adds nothing but styles.
pub proof fn law_wrapping_keeps_everything(line: Seq<char>, inner: nat)
    requires
        inner > 0,
    ensures
        toks_in(rows_of(toks_from(line, 0), inner)) == toks_from(line, 0),
{
    let toks = toks_from(line, 0);
    lemma_wrapping(toks, inner);
    let w = wrapping(toks, inner);
    let rows = rows_of(toks, inner);
    if w.cur.len() > 0 {
        assert(rows.drop_last() =~= w.rows);
    } else if w.rows.len() == 0 {
        assert(rows.drop_last() =~= seq![]);
        assert(toks_in(rows.drop_last()) =~= seq![]);
        assert(toks_in(rows) =~= toks);
    } else {
        assert(toks_in(w.rows) + w.cur =~= toks_in(w.rows));
    }
}

/// The pieces of a line are the line.
pub proof fn law_toks_are_the_line(line: Seq<char>)
    ensures
        written(toks_from(line, 0)) == line,
{
    lemma_written_from(line, 0);
    assert(line.skip(0) =~= line);
}

pub proof fn lemma_written_add(a: Seq<TokView>, b: Seq<TokView>)
    ensures
        written(a + b) == written(a) + written(b),
    decreases b.len(),
{
    if b.len() == 0 {
        assert(a + b =~= a);
        assert(written(a) + written(b) =~= written(a));
    } else {
        assert((a + b).drop_last() =~= a + b.drop_last());
        lemma_written_add(a, b.drop_last());
        assert(written(a + b) =~= written(a) + written(b));
    }
}

proof fn lemma_control_end(s: Seq<char>, from: int)
    requires
        0 <= from <= s.len(),
    ensures
        from <= control_end(s, from) <= s.len(),
    decreases s.len() - from,
{
    if from < s.len() && !(0x40 <= s[from] as u32 <= 0x7e) {
        lemma_control_end(s, from + 1);
    }
}

proof fn lemma_written_from(s: Seq<char>, from: int)
    requires
        0 <= from <= s.len(),
    ensures
        written(toks_from(s, from)) == s.skip(from),
    decreases s.len() - from,
{
    if from < s.len() {
        let (tok, end) = if s[from] != '\x1b' {
            (cell(s[from]), from + 1)
        } else if from + 1 < s.len() && s[from + 1] == '[' {
            lemma_control_end(s, from + 2);
            (
                ctrl(s.subrange(from, control_end(s, from + 2))),
                control_end(s, from + 2),
            )
        } else {
            (ctrl(seq!['\x1b']), from + 1)
        };
        lemma_written_from(s, end);
        lemma_written_add(seq![tok], toks_from(s, end));
        assert(seq![tok].drop_last() =~= seq![]);
        assert(written(seq![tok].drop_last()) =~= seq![]);
        assert(written(seq![tok]) =~= s.subrange(from, end));
        assert(s.skip(from) =~= s.subrange(from, end) + s.skip(end));
    } else {
        assert(s.skip(from) =~= seq![]);
    }
}

} // verus!
