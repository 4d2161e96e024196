//! How wide styled lines and panels are.
use crate::cli::ansi::{Color, Shade};
use crate::text;
use vstd::prelude::*;

verus! {

// ------------------------------------------------------------- control sequences
/// Whether a text is one whole control sequence.
pub open spec fn whole_sequence(s: Seq<char>) -> bool {
    &&& s.len() >= 3
    &&& s[0] == '\x1b'
    &&& s[1] == '['
    &&& crate::cli::ansi::ends_sequence(s.last())
    &&& forall|i: int| 2 <= i < s.len() - 1 ==> !crate::cli::ansi::ends_sequence(#[trigger] s[i])
}

/// Whether a text is not seen, whatever follows it.
pub open spec fn unseen(p: Seq<char>) -> bool {
    forall|s: Seq<char>| #[trigger]
        crate::cli::ansi::visible(p + s) == crate::cli::ansi::visible(s)
}

proof fn lemma_sequence_end_shift(p: Seq<char>, s: Seq<char>, from: int)
    requires
        0 <= from,
    ensures
        crate::cli::ansi::sequence_end(p + s, p.len() + from) == p.len()
            + crate::cli::ansi::sequence_end(s, from) || from > s.len(),
    decreases s.len() - from,
{
    if from < s.len() {
        assert((p + s)[p.len() + from] == s[from]);
        lemma_sequence_end_shift(p, s, from + 1);
    }
}

proof fn lemma_visible_shift(p: Seq<char>, s: Seq<char>, from: int)
    requires
        0 <= from,
    ensures
        crate::cli::ansi::visible_from(p + s, p.len() + from) == crate::cli::ansi::visible_from(
            s,
            from,
        ),
    decreases s.len() - from,
{
    if from < s.len() {
        let whole = p + s;
        let at = p.len() + from;
        assert(whole[at] == s[from]);
        if s[from] != '\x1b' {
            lemma_visible_shift(p, s, from + 1);
        } else if from + 1 < s.len() && s[from + 1] == '[' {
            assert(whole[at + 1] == s[from + 1]);
            lemma_sequence_end_shift(p, s, from + 2);
            let end = crate::cli::ansi::sequence_end(s, from + 2);
            if from < end <= s.len() {
                lemma_visible_shift(p, s, end);
            }
        } else {
            if from + 1 < s.len() {
                assert(whole[at + 1] == s[from + 1]);
            }
            lemma_visible_shift(p, s, from + 1);
        }
    }
}

proof fn lemma_sequence_end_at(s: Seq<char>, rest: Seq<char>, from: int)
    requires
        whole_sequence(s),
        2 <= from < s.len(),
    ensures
        crate::cli::ansi::sequence_end(s + rest, from) == s.len(),
    decreases s.len() - from,
{
    assert((s + rest)[from] == s[from]);
    if from < s.len() - 1 {
        lemma_sequence_end_at(s, rest, from + 1);
    }
}

/// A whole control sequence is not seen.
pub proof fn law_sequences_are_unseen(p: Seq<char>)
    requires
        whole_sequence(p),
    ensures
        unseen(p),
{
    assert forall|s: Seq<char>| #[trigger]
        crate::cli::ansi::visible(p + s) == crate::cli::ansi::visible(s) by {
        assert((p + s)[0] == '\x1b');
        assert((p + s)[1] == '[');
        lemma_sequence_end_at(p, s, 2);
        lemma_visible_shift(p, s, 0);
    }
}

proof fn lemma_unseen_add(p: Seq<char>, q: Seq<char>)
    requires
        unseen(p),
        unseen(q),
    ensures
        unseen(p + q),
{
    assert forall|s: Seq<char>| #[trigger]
        crate::cli::ansi::visible((p + q) + s) == crate::cli::ansi::visible(s) by {
        assert((p + q) + s =~= p + (q + s));
    }
}

proof fn lemma_unseen_empty()
    ensures
        unseen(seq![]),
{
    assert forall|s: Seq<char>| #[trigger]
        crate::cli::ansi::visible(Seq::<char>::empty() + s) == crate::cli::ansi::visible(s) by {
        assert(Seq::<char>::empty() + s =~= s);
    }
}

proof fn lemma_plain_before(p: Seq<char>, s: Seq<char>)
    requires
        forall|i: int| 0 <= i < p.len() ==> #[trigger] p[i] != '\x1b',
    ensures
        crate::cli::ansi::visible(p + s) == p + crate::cli::ansi::visible(s),
    decreases p.len(),
{
    if p.len() == 0 {
        assert(p + s =~= s);
        assert(p + crate::cli::ansi::visible(s) =~= crate::cli::ansi::visible(s));
    } else {
        let rest = p.skip(1);
        assert forall|i: int| 0 <= i < rest.len() implies #[trigger] rest[i] != '\x1b' by {
            assert(rest[i] == p[i + 1]);
        }
        lemma_plain_before(rest, s);
        let one = seq![p[0]];
        assert(p + s =~= one + (rest + s));
        lemma_visible_shift(one, rest + s, 0);
        assert((p + s)[0] == p[0]);
        assert(crate::cli::ansi::visible(p + s) =~= one + crate::cli::ansi::visible(rest + s));
        assert(p + crate::cli::ansi::visible(s) =~= one + (rest + crate::cli::ansi::visible(s)));
    }
}

// -------------------------------------------------------------------------- rows
/// Whether a piece of a line is a character other than an escape, or a whole
/// control sequence.
pub open spec fn whole_piece(t: crate::cli::wrap::TokView) -> bool {
    if t.visible {
        t.text.len() == 1 && t.text[0] != '\x1b'
    } else {
        whole_sequence(t.text)
    }
}

/// Whether all pieces are whole.
pub open spec fn whole_pieces(toks: Seq<crate::cli::wrap::TokView>) -> bool {
    forall|i: int| 0 <= i < toks.len() ==> whole_piece(#[trigger] toks[i])
}

/// Whether every escape in a line begins a whole control sequence.
pub open spec fn well_styled(line: Seq<char>) -> bool {
    whole_pieces(crate::cli::wrap::toks_from(line, 0))
}

/// The visible pieces, written.
pub open spec fn shown(toks: Seq<crate::cli::wrap::TokView>) -> Seq<char>
    decreases toks.len(),
{
    if toks.len() == 0 {
        seq![]
    } else if toks.last().visible {
        shown(toks.drop_last()) + toks.last().text
    } else {
        shown(toks.drop_last())
    }
}

proof fn lemma_shorter_is_whole(toks: Seq<crate::cli::wrap::TokView>)
    requires
        whole_pieces(toks),
        toks.len() > 0,
    ensures
        whole_pieces(toks.drop_last()),
        whole_piece(toks.last()),
{
    assert(whole_piece(toks[toks.len() - 1]));
    let shorter = toks.drop_last();
    assert forall|i: int| 0 <= i < shorter.len() implies whole_piece(#[trigger] shorter[i]) by {
        assert(shorter[i] == toks[i]);
    }
}

proof fn lemma_written_is_shown(toks: Seq<crate::cli::wrap::TokView>, s: Seq<char>)
    requires
        whole_pieces(toks),
    ensures
        crate::cli::ansi::visible(crate::cli::wrap::written(toks) + s) == shown(toks)
            + crate::cli::ansi::visible(s),
        shown(toks).len() == crate::cli::wrap::cells(toks),
    decreases toks.len(),
{
    if toks.len() == 0 {
        assert(crate::cli::wrap::written(toks) + s =~= s);
        assert(shown(toks) + crate::cli::ansi::visible(s) =~= crate::cli::ansi::visible(s));
    } else {
        let shorter = toks.drop_last();
        let last = toks.last();
        lemma_shorter_is_whole(toks);
        lemma_written_is_shown(shorter, last.text + s);
        assert(crate::cli::wrap::written(toks) + s =~= crate::cli::wrap::written(shorter) + (
        last.text + s));
        if last.visible {
            lemma_plain_before(last.text, s);
            assert(shown(toks) + crate::cli::ansi::visible(s) =~= shown(shorter) + (last.text
                + crate::cli::ansi::visible(s)));
        } else {
            law_sequences_are_unseen(last.text);
        }
    }
}

proof fn lemma_written_width(toks: Seq<crate::cli::wrap::TokView>, s: Seq<char>)
    requires
        whole_pieces(toks),
    ensures
        crate::cli::ansi::visible(crate::cli::wrap::written(toks) + s).len()
            == crate::cli::wrap::cells(toks) + crate::cli::ansi::visible(s).len(),
{
    lemma_written_is_shown(toks, s);
}

proof fn lemma_style_is_unseen(style: Seq<char>, toks: Seq<crate::cli::wrap::TokView>)
    requires
        unseen(style),
        whole_pieces(toks),
    ensures
        unseen(crate::cli::wrap::style_behind(style, toks)),
    decreases toks.len(),
{
    lemma_unseen_empty();
    if toks.len() > 0 {
        lemma_shorter_is_whole(toks);
        lemma_style_is_unseen(style, toks.drop_last());
        if !toks.last().visible {
            law_sequences_are_unseen(toks.last().text);
            lemma_unseen_add(
                crate::cli::wrap::style_behind(style, toks.drop_last()),
                toks.last().text,
            );
        }
    }
}

spec fn whole_rows(w: crate::cli::wrap::WrapView) -> bool {
    &&& whole_pieces(w.cur)
    &&& unseen(w.style)
    &&& forall|i: int| #![trigger w.rows[i]]
        0 <= i < w.rows.len() ==> whole_pieces(w.rows[i].toks) && unseen(w.rows[i].style)
}

proof fn lemma_broken_is_whole(w: crate::cli::wrap::WrapView, inner: nat)
    requires
        whole_rows(w),
    ensures
        whole_rows(crate::cli::wrap::broken(w, inner)),
{
    lemma_unseen_empty();
    let b = crate::cli::wrap::broken(w, inner);
    if crate::cli::wrap::cells(w.cur) + 1 > inner && w.cur.len() > 0 {
        crate::cli::wrap::lemma_last_space(w.cur);
        let at = match crate::cli::wrap::last_space(w.cur) {
            Some(i) => i + 1,
            None => w.cur.len() as int,
        };
        let kept = w.cur.take(at);
        let moved = w.cur.skip(at);
        assert forall|k: int| 0 <= k < kept.len() implies whole_piece(#[trigger] kept[k]) by {
            assert(kept[k] == w.cur[k]);
        }
        assert forall|k: int| 0 <= k < moved.len() implies whole_piece(#[trigger] moved[k]) by {
            assert(moved[k] == w.cur[k + at]);
        }
        lemma_style_is_unseen(w.style, kept);
        assert(b.rows == w.rows.push(crate::cli::wrap::row_of(w, kept)));
        assert(whole_pieces(kept) && whole_pieces(moved));
    }
}

proof fn lemma_wrapping_is_whole(toks: Seq<crate::cli::wrap::TokView>, inner: nat)
    requires
        whole_pieces(toks),
    ensures
        whole_rows(crate::cli::wrap::wrapping(toks, inner)),
    decreases toks.len(),
{
    lemma_unseen_empty();
    if toks.len() > 0 {
        let shorter = toks.drop_last();
        let last = toks.last();
        assert(whole_piece(toks[toks.len() - 1]));
        assert forall|i: int| 0 <= i < shorter.len() implies whole_piece(#[trigger] shorter[i]) by {
            assert(shorter[i] == toks[i]);
        }
        lemma_wrapping_is_whole(shorter, inner);
        let before = crate::cli::wrap::wrapping(shorter, inner);
        lemma_broken_is_whole(before, inner);
        let w = crate::cli::wrap::wrapping(toks, inner);
        assert forall|i: int| 0 <= i < w.cur.len() implies whole_piece(#[trigger] w.cur[i]) by {
            let grown = if last.visible {
                crate::cli::wrap::broken(before, inner).cur
            } else {
                before.cur
            };
            assert(w.cur == grown.push(last));
            if i < grown.len() {
                assert(w.cur[i] == grown[i]);
            }
        }
    }
}

/// No row of a line is wider than it may be.
pub proof fn law_rows_are_not_wider(line: Seq<char>, inner: nat, i: int)
    requires
        well_styled(line),
        0 <= i < crate::cli::wrap::rows_of(crate::cli::wrap::toks_from(line, 0), inner).len(),
    ensures
        crate::cli::ansi::visible(
            crate::cli::wrap::rows_of(crate::cli::wrap::toks_from(line, 0), inner)[i].text(),
        ).len() <= inner,
{
    let toks = crate::cli::wrap::toks_from(line, 0);
    let row = crate::cli::wrap::rows_of(toks, inner)[i];
    lemma_unseen_empty();
    lemma_wrapping_is_whole(toks, inner);
    crate::cli::wrap::law_rows_fit(line, inner, i);
    assert(whole_pieces(row.toks) && unseen(row.style));
    let written = crate::cli::wrap::written(row.toks);
    lemma_written_width(row.toks, seq![]);
    assert(written + Seq::<char>::empty() =~= written);
    assert(crate::cli::ansi::visible(row.style + written) == crate::cli::ansi::visible(written));
    assert(crate::cli::ansi::visible(Seq::<char>::empty()).len() == 0);
}

/// Texts, one after the other.
pub open spec fn put_together(texts: Seq<Seq<char>>) -> Seq<char>
    decreases texts.len(),
{
    if texts.len() == 0 {
        seq![]
    } else {
        put_together(texts.drop_last()) + texts.last()
    }
}

proof fn lemma_shown_add(a: Seq<crate::cli::wrap::TokView>, b: Seq<crate::cli::wrap::TokView>)
    ensures
        shown(a + b) == shown(a) + shown(b),
    decreases b.len(),
{
    if b.len() == 0 {
        assert(a + b =~= a);
        assert(shown(a) + shown(b) =~= shown(a));
    } else {
        assert((a + b).drop_last() =~= a + b.drop_last());
        lemma_shown_add(a, b.drop_last());
        assert(shown(a + b) =~= shown(a) + shown(b));
    }
}

spec fn stripped(rows: Seq<crate::cli::wrap::RowView>) -> Seq<Seq<char>> {
    crate::cli::wrap::row_texts(rows).map_values(|t: Seq<char>| crate::cli::ansi::visible(t))
}

proof fn lemma_stripped_rows(rows: Seq<crate::cli::wrap::RowView>)
    requires
        forall|i: int|
            #![trigger rows[i]]
            0 <= i < rows.len() ==> whole_pieces(rows[i].toks) && unseen(rows[i].style),
    ensures
        put_together(stripped(rows)) == shown(crate::cli::wrap::toks_in(rows)),
    decreases rows.len(),
{
    if rows.len() > 0 {
        let shorter = rows.drop_last();
        assert forall|i: int| #![trigger shorter[i]] 0 <= i < shorter.len() implies whole_pieces(
            shorter[i].toks,
        ) && unseen(shorter[i].style) by {
            assert(shorter[i] == rows[i]);
        }
        lemma_stripped_rows(shorter);
        assert(stripped(rows).drop_last() =~= stripped(shorter));
        let last = rows[rows.len() - 1];
        let written = crate::cli::wrap::written(last.toks);
        lemma_written_is_shown(last.toks, seq![]);
        assert(written + Seq::<char>::empty() =~= written);
        assert(shown(last.toks) + crate::cli::ansi::visible(seq![]) =~= shown(last.toks));
        assert(crate::cli::ansi::visible(last.style + written) == crate::cli::ansi::visible(
            written,
        ));
        assert(stripped(rows).last() == shown(last.toks));
        lemma_shown_add(crate::cli::wrap::toks_in(shorter), last.toks);
    }
}

/// The rows of a line without their control sequences, one after the other, are the
/// line without its control sequences: nothing visible is lost, added or moved.
pub proof fn law_stripped_rows_are_the_stripped_line(line: Seq<char>, inner: nat)
    requires
        inner > 0,
        well_styled(line),
    ensures
        put_together(
            crate::cli::wrap::row_texts(
                crate::cli::wrap::rows_of(crate::cli::wrap::toks_from(line, 0), inner),
            ).map_values(|t: Seq<char>| crate::cli::ansi::visible(t)),
        ) == crate::cli::ansi::visible(line),
{
    let toks = crate::cli::wrap::toks_from(line, 0);
    let rows = crate::cli::wrap::rows_of(toks, inner);
    lemma_unseen_empty();
    lemma_wrapping_is_whole(toks, inner);
    lemma_stripped_rows(rows);
    crate::cli::wrap::law_wrapping_keeps_everything(line, inner);
    crate::cli::wrap::law_toks_are_the_line(line);
    lemma_written_is_shown(toks, seq![]);
    assert(line + Seq::<char>::empty() =~= line);
    assert(shown(toks) + crate::cli::ansi::visible(seq![]) =~= shown(toks));
    assert(crate::cli::wrap::row_texts(rows).map_values(
        |t: Seq<char>| crate::cli::ansi::visible(t),
    ) =~= stripped(rows));
}

spec fn unstyled(w: crate::cli::wrap::WrapView) -> bool {
    &&& w.style.len() == 0
    &&& forall|i: int| 0 <= i < w.cur.len() ==> (#[trigger] w.cur[i]).visible
    &&& forall|i: int| 0 <= i < w.rows.len() ==> (#[trigger] w.rows[i]).style.len() == 0
}

proof fn lemma_no_style(toks: Seq<crate::cli::wrap::TokView>)
    requires
        forall|i: int| 0 <= i < toks.len() ==> (#[trigger] toks[i]).visible,
    ensures
        crate::cli::wrap::style_behind(seq![], toks).len() == 0,
    decreases toks.len(),
{
    if toks.len() > 0 {
        assert(toks[toks.len() - 1].visible);
        lemma_no_style(toks.drop_last());
    }
}

proof fn lemma_wrapping_is_unstyled(toks: Seq<crate::cli::wrap::TokView>, inner: nat)
    requires
        forall|i: int| 0 <= i < toks.len() ==> (#[trigger] toks[i]).visible,
    ensures
        unstyled(crate::cli::wrap::wrapping(toks, inner)),
    decreases toks.len(),
{
    if toks.len() > 0 {
        assert(toks[toks.len() - 1].visible);
        lemma_wrapping_is_unstyled(toks.drop_last(), inner);
        let w = crate::cli::wrap::wrapping(toks.drop_last(), inner);
        crate::cli::wrap::lemma_last_space(w.cur);
        let at = match crate::cli::wrap::last_space(w.cur) {
            Some(i) => i + 1,
            None => w.cur.len() as int,
        };
        if crate::cli::wrap::cells(w.cur) + 1 > inner && w.cur.len() > 0 {
            assert(w.style =~= seq![]);
            lemma_no_style(w.cur.take(at));
        }
    }
}

proof fn lemma_plain_toks(line: Seq<char>, from: int)
    requires
        0 <= from,
        forall|i: int| 0 <= i < line.len() ==> #[trigger] line[i] != '\x1b',
    ensures
        forall|i: int|
            0 <= i < crate::cli::wrap::toks_from(line, from).len() ==> (
            #[trigger] crate::cli::wrap::toks_from(line, from)[i]).visible,
    decreases line.len() - from,
{
    if from < line.len() {
        lemma_plain_toks(line, from + 1);
        let rest = crate::cli::wrap::toks_from(line, from + 1);
        let all = crate::cli::wrap::toks_from(line, from);
        assert(all == seq![crate::cli::wrap::cell(line[from])] + rest);
        assert forall|i: int| 0 <= i < all.len() implies (#[trigger] all[i]).visible by {
            if i > 0 {
                assert(all[i] == rest[i - 1]);
            }
        }
    }
}

proof fn lemma_unstyled_rows(rows: Seq<crate::cli::wrap::RowView>)
    requires
        forall|i: int| 0 <= i < rows.len() ==> (#[trigger] rows[i]).style.len() == 0,
    ensures
        put_together(crate::cli::wrap::row_texts(rows)) == crate::cli::wrap::written(
            crate::cli::wrap::toks_in(rows),
        ),
    decreases rows.len(),
{
    if rows.len() > 0 {
        let shorter = rows.drop_last();
        assert forall|i: int| 0 <= i < shorter.len() implies (#[trigger] shorter[i]).style.len()
            == 0 by {
            assert(shorter[i] == rows[i]);
        }
        lemma_unstyled_rows(shorter);
        let texts = crate::cli::wrap::row_texts(rows);
        assert(texts.drop_last() =~= crate::cli::wrap::row_texts(shorter));
        let last = rows[rows.len() - 1];
        assert(last.text() =~= crate::cli::wrap::written(last.toks));
        crate::cli::wrap::lemma_written_add(crate::cli::wrap::toks_in(shorter), last.toks);
    }
}

/// The rows of a line without escapes, one after the other, are the line.
pub proof fn law_plain_rows_are_the_line(line: Seq<char>, inner: nat)
    requires
        inner > 0,
        forall|i: int| 0 <= i < line.len() ==> #[trigger] line[i] != '\x1b',
    ensures
        put_together(
            crate::cli::wrap::row_texts(
                crate::cli::wrap::rows_of(crate::cli::wrap::toks_from(line, 0), inner),
            ),
        ) == line,
{
    let toks = crate::cli::wrap::toks_from(line, 0);
    let rows = crate::cli::wrap::rows_of(toks, inner);
    lemma_plain_toks(line, 0);
    lemma_wrapping_is_unstyled(toks, inner);
    lemma_unstyled_rows(rows);
    crate::cli::wrap::law_wrapping_keeps_everything(line, inner);
    crate::cli::wrap::law_toks_are_the_line(line);
}

proof fn lemma_plain_pieces(line: Seq<char>, from: int)
    requires
        0 <= from,
        forall|i: int| 0 <= i < line.len() ==> #[trigger] line[i] != '\x1b',
    ensures
        whole_pieces(crate::cli::wrap::toks_from(line, from)),
    decreases line.len() - from,
{
    if from < line.len() {
        lemma_plain_pieces(line, from + 1);
        let rest = crate::cli::wrap::toks_from(line, from + 1);
        let all = crate::cli::wrap::toks_from(line, from);
        assert(all == seq![crate::cli::wrap::cell(line[from])] + rest);
        assert forall|i: int| 0 <= i < all.len() implies whole_piece(#[trigger] all[i]) by {
            if i > 0 {
                assert(all[i] == rest[i - 1]);
            }
        }
    }
}

/// A line without escapes is well styled.
pub proof fn law_plain_lines_are_well_styled(line: Seq<char>)
    requires
        forall|i: int| 0 <= i < line.len() ==> #[trigger] line[i] != '\x1b',
    ensures
        well_styled(line),
{
    lemma_plain_pieces(line, 0);
}

// ------------------------------------------------------------------------ panels
proof fn lemma_decimal_has_no_end(n: nat)
    ensures
        forall|i: int|
            0 <= i < text::spec_decimal(n).len() ==> !crate::cli::ansi::ends_sequence(
                #[trigger] text::spec_decimal(n)[i],
            ),
    decreases n,
{
    let d = n % 10;
    assert(text::digit_char(d) as u32 == 48 + d);
    if n >= 10 {
        lemma_decimal_has_no_end(n / 10);
        let all = text::spec_decimal(n);
        assert forall|i: int| 0 <= i < all.len() implies !crate::cli::ansi::ends_sequence(
            #[trigger] all[i],
        ) by {
            if i < all.len() - 1 {
                assert(all[i] == text::spec_decimal(n / 10)[i]);
            }
        }
    }
}

proof fn lemma_selection_is_whole(code: Seq<char>, layer: Seq<char>, color: Color)
    requires
        crate::cli::ansi::selects(code, layer, color),
        layer == "\x1b[38;"@ || layer == "\x1b[48;"@,
    ensures
        whole_sequence(code),
{
    reveal_strlit("\x1b[38;");
    reveal_strlit("\x1b[48;");
    reveal_strlit("\x1b[m");
    reveal_strlit("m");
    reveal_strlit("5;");
    reveal_strlit("5;9");
    reveal_strlit("5;10");
    reveal_strlit("5;11");
    if code == layer + color.code() + "m"@ {
        let parameters = color.code();
        if let Color::AnsiValue(n) = color {
            lemma_decimal_has_no_end(n as nat);
        }
        assert forall|i: int| 0 <= i < parameters.len() implies !crate::cli::ansi::ends_sequence(
            #[trigger] parameters[i],
        ) by {
            if let Color::AnsiValue(n) = color {
                if i >= 2 {
                    assert(parameters[i] == text::spec_decimal(n as nat)[i - 2]);
                }
            }
        }
        assert forall|i: int| 2 <= i < code.len() - 1 implies !crate::cli::ansi::ends_sequence(
            #[trigger] code[i],
        ) by {
            if i >= layer.len() {
                assert(code[i] == parameters[i - layer.len()]);
            } else {
                assert(code[i] == layer[i]);
            }
        }
        assert(code.last() == 'm');
    }
}

proof fn lemma_framed_width(a: crate::cli::ansi::AnsiView, s: Seq<char>, shade: Shade, rest: Seq<char>)
    requires
        a.wf(),
        forall|i: int| 0 <= i < s.len() ==> #[trigger] s[i] != '\x1b',
    ensures
        crate::cli::ansi::visible(crate::cli::ansi::in_foreground(a, s, shade) + rest).len()
            == s.len() + crate::cli::ansi::visible(rest).len(),
{
    if a.on {
        let code = a.select(shade);
        lemma_selection_is_whole(code, "\x1b[38;"@, shade.color());
        law_sequences_are_unseen(code);
        reveal_strlit("\x1b[39m");
        law_sequences_are_unseen("\x1b[39m"@);
        assert(code + s + "\x1b[39m"@ + rest =~= code + (s + ("\x1b[39m"@ + rest)));
        lemma_plain_before(s, "\x1b[39m"@ + rest);
    } else {
        lemma_plain_before(s, rest);
    }
}

proof fn lemma_panel_width(a: crate::cli::ansi::AnsiView, s: Seq<char>, rest: Seq<char>)
    requires
        a.wf(),
    ensures
        a.on ==> crate::cli::ansi::visible(crate::cli::ansi::on_panel(a, s) + rest)
            == crate::cli::ansi::visible(s + ("\x1b[0m"@ + rest)),
        unseen("\x1b[0m"@),
{
    reveal_strlit("\x1b[0m");
    law_sequences_are_unseen("\x1b[0m"@);
    lemma_selection_is_whole(a.panel, "\x1b[48;"@, Color::AnsiValue(crate::cli::ansi::BG_PANEL));
    law_sequences_are_unseen(a.panel);
    if a.on {
        assert(a.panel + s + "\x1b[0m"@ + rest =~= a.panel + (s + ("\x1b[0m"@ + rest)));
    }
}

proof fn lemma_row_before(line: Seq<char>, inner: nat, i: int, rest: Seq<char>)
    requires
        well_styled(line),
        0 <= i < crate::cli::wrap::rows_of(crate::cli::wrap::toks_from(line, 0), inner).len(),
    ensures
        ({
            let row = crate::cli::wrap::rows_of(crate::cli::wrap::toks_from(line, 0), inner)[i];
            crate::cli::ansi::visible(row.text() + rest).len() == crate::cli::ansi::visible(
                row.text(),
            ).len() + crate::cli::ansi::visible(rest).len()
        }),
{
    let toks = crate::cli::wrap::toks_from(line, 0);
    let row = crate::cli::wrap::rows_of(toks, inner)[i];
    lemma_unseen_empty();
    lemma_wrapping_is_whole(toks, inner);
    assert(whole_pieces(row.toks) && unseen(row.style));
    let written = crate::cli::wrap::written(row.toks);
    lemma_written_width(row.toks, rest);
    lemma_written_width(row.toks, seq![]);
    assert(written + Seq::<char>::empty() =~= written);
    assert(row.text() + rest =~= row.style + (written + rest));
    assert(crate::cli::ansi::visible(row.style + written) == crate::cli::ansi::visible(written));
    assert(crate::cli::ansi::visible(Seq::<char>::empty()).len() == 0);
}

/// Every row in a panel is as wide as the panel.
pub proof fn law_panel_rows_fit(
    a: crate::cli::ansi::AnsiView,
    line: Seq<char>,
    width: usize,
    kind: crate::cli::section::KindView,
    i: int,
)
    requires
        a.wf(),
        well_styled(line),
        0 <= i < crate::cli::section::rows_in(line, width).len(),
    ensures
        crate::cli::ansi::visible(
            crate::cli::section::body_of(
                a,
                crate::cli::section::rows_in(line, width)[i],
                width,
                kind,
                true,
            ),
        ).len() == crate::cli::section::bounded(width),
{
    let inner = (crate::cli::section::bounded(width) - 4) as nat;
    let content = crate::cli::section::rows_in(line, width)[i];
    law_rows_are_not_wider(line, inner, i);
    let w = crate::cli::ansi::visible(content).len();
    let spaces = text::repeated(' ', (inner - w) as nat);
    let middle = crate::cli::section::padded(content, inner);
    let full = " "@ + middle + " "@;
    reveal_strlit("│");
    reveal_strlit(" ");
    let side = crate::cli::ansi::in_foreground(a, "│"@, kind.border());
    let none = Seq::<char>::empty();
    assert(crate::cli::ansi::visible(none).len() == 0);
    lemma_framed_width(a, "│"@, kind.border(), none);
    assert(side + none =~= side);
    let behind = if kind is Plan && a.on {
        "\x1b[0m"@ + side
    } else {
        side
    };
    lemma_panel_width(a, full, side);
    assert(crate::cli::ansi::visible(behind).len() == 1);
    let end = " "@ + behind;
    lemma_plain_before(" "@, behind);
    lemma_row_before(line, inner, i, spaces + end);
    lemma_plain_before(spaces, end);
    lemma_row_before(line, inner, i, end);
    assert(middle + end =~= if w >= inner {
        content + end
    } else {
        content + (spaces + end)
    });
    assert(crate::cli::ansi::visible(middle + end).len() == inner + 2);
    lemma_plain_before(" "@, middle + end);
    assert(full + behind =~= " "@ + (middle + end));
    assert(crate::cli::ansi::visible(full + behind).len() == inner + 3);
    let cell = if kind is Plan {
        crate::cli::ansi::on_panel(a, full)
    } else {
        full
    };
    assert(crate::cli::ansi::visible(cell + side).len() == inner + 3);
    lemma_framed_width(a, "│"@, kind.border(), cell + side);
    assert(side + cell + side =~= side + (cell + side));
}

/// A text that is cut takes no more columns than it may.
pub proof fn law_cut_texts_fit(s: Seq<char>, max: nat)
    ensures
        crate::cli::ansi::visible(crate::cli::section::cut(s, max)).len() <= max,
{
    if crate::cli::ansi::visible(s).len() > max && max > 0 {
        reveal_strlit("…");
        crate::cli::section::lemma_visible_is_shorter(s, 0);
        crate::cli::section::lemma_visible_is_shorter(crate::cli::section::cut(s, max), 0);
    }
}

proof fn lemma_cut_is_plain(s: Seq<char>, max: nat)
    requires
        max > 0,
        forall|i: int| 0 <= i < s.len() ==> #[trigger] s[i] != '\x1b',
    ensures
        forall|i: int|
            0 <= i < crate::cli::section::cut(s, max).len() ==> #[trigger] crate::cli::section::cut(
                s,
                max,
            )[i] != '\x1b',
        crate::cli::ansi::visible(crate::cli::section::cut(s, max))
            == crate::cli::section::cut(s, max),
{
    let shown = crate::cli::section::cut(s, max);
    reveal_strlit("…");
    lemma_plain_before(s, seq![]);
    assert(s + Seq::<char>::empty() =~= s);
    assert(s + crate::cli::ansi::visible(seq![]) =~= s);
    assert forall|i: int| 0 <= i < shown.len() implies #[trigger] shown[i] != '\x1b' by {
        if shown != s && i < max - 1 {
            assert(shown[i] == s[i]);
        }
    }
    lemma_plain_before(shown, seq![]);
    assert(shown + Seq::<char>::empty() =~= shown);
    assert(shown + crate::cli::ansi::visible(seq![]) =~= shown);
}

proof fn lemma_upper_border_width(
    a: crate::cli::ansi::AnsiView,
    shown: Seq<char>,
    fill: nat,
    b: Shade,
)
    requires
        a.wf(),
        forall|i: int| 0 <= i < shown.len() ==> #[trigger] shown[i] != '\x1b',
    ensures
        crate::cli::ansi::visible(
            crate::cli::ansi::in_foreground(a, "╭─ "@, b) + crate::cli::ansi::in_foreground(
                a,
                shown,
                b,
            ) + crate::cli::ansi::in_foreground(a, " "@, b) + crate::cli::ansi::in_foreground(
                a,
                text::repeated('─', fill),
                b,
            ) + crate::cli::ansi::in_foreground(a, "╮"@, b),
        ).len() == 5 + shown.len() + fill,
{
    let none = Seq::<char>::empty();
    assert(crate::cli::ansi::visible(none).len() == 0);
    reveal_strlit("╭─ ");
    reveal_strlit(" ");
    reveal_strlit("╮");
    let corner = crate::cli::ansi::in_foreground(a, "╮"@, b);
    let line = crate::cli::ansi::in_foreground(a, text::repeated('─', fill), b);
    let gap = crate::cli::ansi::in_foreground(a, " "@, b);
    let title = crate::cli::ansi::in_foreground(a, shown, b);
    let start = crate::cli::ansi::in_foreground(a, "╭─ "@, b);
    lemma_framed_width(a, "╮"@, b, none);
    assert(corner + none =~= corner);
    lemma_framed_width(a, text::repeated('─', fill), b, corner);
    lemma_framed_width(a, " "@, b, line + corner);
    lemma_framed_width(a, shown, b, gap + (line + corner));
    lemma_framed_width(a, "╭─ "@, b, title + (gap + (line + corner)));
    assert(start + title + gap + line + corner =~= start + (title + (gap + (line + corner))));
}

/// The borders of a panel are as wide as the panel, where the title is plain.
pub proof fn law_panel_borders_fit(
    a: crate::cli::ansi::AnsiView,
    title: Seq<char>,
    width: usize,
    kind: crate::cli::section::KindView,
)
    requires
        a.wf(),
        forall|i: int|
            0 <= i < (title + kind.suffix()).len() ==> #[trigger] (title + kind.suffix())[i]
                != '\x1b',
    ensures
        crate::cli::ansi::visible(crate::cli::section::top_of(a, title, width, kind, true)).len()
            == crate::cli::section::bounded(width),
        crate::cli::ansi::visible(crate::cli::section::bottom_of(a, width, kind, true)).len()
            == crate::cli::section::bounded(width),
{
    let w = crate::cli::section::bounded(width);
    let b = kind.border();
    let room = (w - 6) as nat;
    let whole = title + kind.suffix();
    let shown = crate::cli::section::cut(whole, room);
    law_cut_texts_fit(whole, room);
    lemma_cut_is_plain(whole, room);
    lemma_upper_border_width(a, shown, (w - 5 - shown.len()) as nat, b);
    lemma_lower_border_width(a, (w - 3) as nat, b);
}

proof fn lemma_lower_border_width(a: crate::cli::ansi::AnsiView, fill: nat, b: Shade)
    requires
        a.wf(),
    ensures
        crate::cli::ansi::visible(
            crate::cli::ansi::in_foreground(a, "╰─"@, b) + crate::cli::ansi::in_foreground(
                a,
                text::repeated('─', fill),
                b,
            ) + crate::cli::ansi::in_foreground(a, "╯"@, b),
        ).len() == 3 + fill,
{
    let none = Seq::<char>::empty();
    assert(crate::cli::ansi::visible(none).len() == 0);
    reveal_strlit("╰─");
    reveal_strlit("╯");
    let end = crate::cli::ansi::in_foreground(a, "╯"@, b);
    let bar = crate::cli::ansi::in_foreground(a, text::repeated('─', fill), b);
    let first = crate::cli::ansi::in_foreground(a, "╰─"@, b);
    lemma_framed_width(a, "╯"@, b, none);
    assert(end + none =~= end);
    lemma_framed_width(a, text::repeated('─', fill), b, end);
    lemma_framed_width(a, "╰─"@, b, bar + end);
    assert(first + bar + end =~= first + (bar + end));
}

} // verus!
