//! What holds of the functions on text.
use vstd::prelude::*;

verus! {

/// Trimming takes white space away from both ends, and nothing else: what is left is a
/// stretch of the text with nothing but white space around it, and begins and ends with
/// something else.
pub proof fn law_trimming_takes_white_space_only(s: Seq<char>)
    ensures
        ({
            let t = crate::text::spec_trim(s);
            &&& t.len() > 0 ==> !crate::text::is_white(t[0]) && !crate::text::is_white(t.last())
            &&& exists|i: int| #[trigger] is_trimmed_at(s, t, i)
        }),
{
    lemma_trim_start(s);
    let u = crate::text::spec_trim_start(s);
    lemma_trim_end(u);
    let i = s.len() - u.len();
    let t = crate::text::spec_trim(s);
    assert forall|k: int| 0 <= k < t.len() implies #[trigger] t[k] == s[i + k] by {
        assert(t[k] == u[k]);
    }
    assert forall|k: int|
        0 <= k < s.len() && (k < i || k >= i + t.len()) implies crate::text::is_white(
        #[trigger] s[k],
    ) by {
        if k >= i {
            assert(u[k - i] == s[i + (k - i)]);
        }
    }
    assert(t.len() > 0 ==> t[0] == u[0]);
    assert(is_trimmed_at(s, t, i));
}

/// Whether `t` stands in `s` from `i` on, with white space alone around it.
pub open spec fn is_trimmed_at(s: Seq<char>, t: Seq<char>, i: int) -> bool {
    &&& 0 <= i
    &&& i + t.len() <= s.len()
    &&& forall|k: int| 0 <= k < t.len() ==> #[trigger] t[k] == s[i + k]
    &&& forall|k: int|
        0 <= k < s.len() && (k < i || k >= i + t.len()) ==> crate::text::is_white(#[trigger] s[k])
}

proof fn lemma_trim_start(s: Seq<char>)
    ensures
        ({
            let t = crate::text::spec_trim_start(s);
            let i = s.len() - t.len();
            &&& 0 <= i
            &&& forall|k: int| 0 <= k < t.len() ==> #[trigger] t[k] == s[i + k]
            &&& forall|k: int| 0 <= k < i ==> crate::text::is_white(#[trigger] s[k])
            &&& t.len() > 0 ==> !crate::text::is_white(t[0])
        }),
    decreases s.len(),
{
    if s.len() > 0 && crate::text::is_white(s[0]) {
        let rest = s.skip(1);
        lemma_trim_start(rest);
        let t = crate::text::spec_trim_start(s);
        let i = s.len() - t.len();
        assert forall|k: int| 0 <= k < i implies crate::text::is_white(#[trigger] s[k]) by {
            if k > 0 {
                assert(rest[k - 1] == s[k]);
            }
        }
    }
}

proof fn lemma_trim_end(s: Seq<char>)
    ensures
        ({
            let t = crate::text::spec_trim_end(s);
            &&& t.len() <= s.len()
            &&& forall|k: int| 0 <= k < t.len() ==> #[trigger] t[k] == s[k]
            &&& forall|k: int| t.len() <= k < s.len() ==> crate::text::is_white(#[trigger] s[k])
            &&& t.len() > 0 ==> !crate::text::is_white(t.last())
        }),
    decreases s.len(),
{
    if s.len() > 0 && crate::text::is_white(s.last()) {
        let init = s.drop_last();
        lemma_trim_end(init);
        let t = crate::text::spec_trim_end(s);
        assert forall|k: int| t.len() <= k < s.len() implies crate::text::is_white(
            #[trigger] s[k],
        ) by {
            if k < init.len() {
                assert(init[k] == s[k]);
            }
        }
    }
}

/// Splitting at a character and joining with it gives the text back, and no piece holds
/// the character.
pub proof fn law_splitting_and_joining_undo(s: Seq<char>, c: char)
    ensures
        crate::text::spec_join(crate::text::spec_split(s, seq![c]), seq![c]) == s,
        forall|i: int|
            0 <= i < crate::text::spec_split(s, seq![c]).len()
                ==> !(#[trigger] crate::text::spec_split(s, seq![c])[i]).contains(c),
{
    lemma_split(seq![], s, c);
    assert(Seq::<char>::empty() + s =~= s);
}

proof fn lemma_join_behind(first: Seq<char>, parts: Seq<Seq<char>>, sep: Seq<char>)
    requires
        parts.len() > 0,
    ensures
        crate::text::spec_join(seq![first] + parts, sep) == first + sep + crate::text::spec_join(
            parts,
            sep,
        ),
    decreases parts.len(),
{
    let all = seq![first] + parts;
    if parts.len() == 1 {
        assert(all.drop_last() =~= seq![first]);
        assert(crate::text::spec_join(seq![first], sep) == first);
    } else {
        lemma_join_behind(first, parts.drop_last(), sep);
        assert(all.drop_last() =~= seq![first] + parts.drop_last());
        assert(crate::text::spec_join(all, sep) =~= first + sep + crate::text::spec_join(
            parts,
            sep,
        ));
    }
}

proof fn lemma_split(cur: Seq<char>, rest: Seq<char>, c: char)
    requires
        !cur.contains(c),
    ensures
        ({
            let pieces = crate::text::split_go(cur, rest, seq![c]);
            &&& pieces.len() > 0
            &&& crate::text::spec_join(pieces, seq![c]) == cur + rest
            &&& forall|i: int| 0 <= i < pieces.len() ==> !(#[trigger] pieces[i]).contains(c)
        }),
    decreases rest.len(),
{
    let set = seq![c];
    assert(set.contains(set[0]));
    assert forall|x: char| set.contains(x) implies x == c by {}
    let pieces = crate::text::split_go(cur, rest, set);
    if rest.len() == 0 {
        assert(cur + rest =~= cur);
    } else if rest[0] == c {
        let tail = crate::text::split_go(seq![], rest.skip(1), set);
        lemma_split(seq![], rest.skip(1), c);
        lemma_join_behind(cur, tail, set);
        assert(cur + rest =~= cur + set + (Seq::<char>::empty() + rest.skip(1)));
        assert forall|i: int| 0 <= i < pieces.len() implies !(#[trigger] pieces[i]).contains(c) by {
            if i > 0 {
                assert(pieces[i] == tail[i - 1]);
            }
        }
    } else {
        crate::sorted::lemma_push_contains(cur, rest[0], c);
        lemma_split(cur.push(rest[0]), rest.skip(1), c);
        assert(cur.push(rest[0]) + rest.skip(1) =~= cur + rest);
    }
}

/// The words of a text are all of it but the white space, in order; none is empty, and
/// none holds white space.
pub proof fn law_words_are_all_but_white_space(s: Seq<char>)
    ensures
        crate::text::spec_words(s).flatten() == s.filter(|c: char| !crate::text::is_white(c)),
        forall|i: int|
            0 <= i < crate::text::spec_words(s).len() ==> is_word(
                #[trigger] crate::text::spec_words(s)[i],
            ),
{
    lemma_words(seq![], s);
    let dense = s.filter(|c: char| !crate::text::is_white(c));
    assert(Seq::<char>::empty() + dense =~= dense);
}

/// Whether a text is a word.
pub open spec fn is_word(s: Seq<char>) -> bool {
    s.len() > 0 && forall|i: int| 0 <= i < s.len() ==> !crate::text::is_white(#[trigger] s[i])
}

proof fn lemma_words(cur: Seq<char>, rest: Seq<char>)
    requires
        forall|i: int| 0 <= i < cur.len() ==> !crate::text::is_white(#[trigger] cur[i]),
    ensures
        crate::text::words_go(cur, rest).flatten() == cur + rest.filter(
            |c: char| !crate::text::is_white(c),
        ),
        forall|i: int|
            0 <= i < crate::text::words_go(cur, rest).len() ==> is_word(
                #[trigger] crate::text::words_go(cur, rest)[i],
            ),
    decreases rest.len(),
{
    reveal(Seq::filter);
    let dense = |c: char| !crate::text::is_white(c);
    let words = crate::text::words_go(cur, rest);
    let first = crate::text::word_or_none(cur);
    assert(first.flatten() =~= cur) by {
        if cur.len() > 0 {
            assert(first.drop_first() =~= seq![]);
            assert(first.drop_first().flatten() =~= seq![]);
        }
    }
    if rest.len() == 0 {
        assert(rest.filter(dense) =~= seq![]);
        assert(cur + rest.filter(dense) =~= cur);
    } else {
        let tail = rest.skip(1);
        assert(rest =~= seq![rest[0]] + tail);
        Seq::filter_distributes_over_add(seq![rest[0]], tail, dense);
        let one = seq![rest[0]];
        assert(one.drop_last() =~= seq![]);
        assert(one.drop_last().filter(dense) =~= seq![]);
        assert(one.filter(dense) =~= if crate::text::is_white(rest[0]) {
            seq![]
        } else {
            one
        });
        if crate::text::is_white(rest[0]) {
            lemma_words(seq![], tail);
            let more = crate::text::words_go(seq![], tail);
            vstd::seq_lib::lemma_flatten_concat(first, more);
            assert(words.flatten() =~= cur + rest.filter(dense));
            assert forall|i: int| 0 <= i < words.len() implies is_word(#[trigger] words[i]) by {
                if i >= first.len() {
                    assert(words[i] == more[i - first.len()]);
                }
            }
        } else {
            lemma_words(cur.push(rest[0]), tail);
            assert(cur.push(rest[0]) + tail.filter(dense) =~= cur + rest.filter(dense));
        }
    }
}

/// A line ends at its line feed: what stands before it is a line, without the carriage
/// return at its end, and the rest gives the other lines.
pub proof fn law_lines_end_at_line_feeds(line: Seq<char>, rest: Seq<char>)
    requires
        !line.contains('\n'),
    ensures
        crate::text::spec_lines(line.push('\n') + rest) == seq![crate::text::without_cr(line)]
            + crate::text::spec_lines(rest),
        line.len() > 0 ==> crate::text::spec_lines(line) == seq![line],
        crate::text::spec_lines(seq![]).len() == 0,
{
    lemma_line(seq![], line, rest);
    assert(Seq::<char>::empty() + line =~= line);
}

proof fn lemma_line(cur: Seq<char>, line: Seq<char>, rest: Seq<char>)
    requires
        !line.contains('\n'),
    ensures
        crate::text::lines_go(cur, line.push('\n') + rest) == seq![
            crate::text::without_cr(cur + line),
        ] + crate::text::spec_lines(rest),
        crate::text::lines_go(cur, line) == crate::text::word_or_none(cur + line),
    decreases line.len(),
{
    let all = line.push('\n') + rest;
    if line.len() == 0 {
        assert(cur + line =~= cur);
        assert(all.skip(1) =~= rest);
    } else {
        let more = line.skip(1);
        assert(line.contains(line[0]));
        assert(!more.contains('\n')) by {
            if more.contains('\n') {
                let i = choose|i: int| 0 <= i < more.len() && more[i] == '\n';
                assert(line[i + 1] == '\n');
            }
        }
        lemma_line(cur.push(line[0]), more, rest);
        assert(all.skip(1) =~= more.push('\n') + rest);
        assert(cur.push(line[0]) + more =~= cur + line);
    }
}

/// A number in decimal is digits, and they have its value: what is written is read back.
pub proof fn law_decimals_are_read_back(n: nat)
    ensures
        crate::text::is_digits(crate::text::spec_decimal(n)),
        crate::text::digits_value(crate::text::spec_decimal(n)) == n,
        forall|max: nat|
            n <= max ==> #[trigger] crate::text::spec_parse(crate::text::spec_decimal(n), max)
                == Some(n),
    decreases n,
{
    let s = crate::text::spec_decimal(n);
    if n < 10 {
        assert(s.drop_last() =~= seq![]);
        assert(crate::text::digits_value(s.drop_last()) == 0);
    } else {
        law_decimals_are_read_back(n / 10);
        assert(s.drop_last() =~= crate::text::spec_decimal(n / 10));
        assert forall|i: int| 0 <= i < s.len() implies crate::text::is_digit(#[trigger] s[i]) by {
            if i < s.len() - 1 {
                assert(s[i] == crate::text::spec_decimal(n / 10)[i]);
            }
        }
    }
    assert(crate::text::is_digit(s[0]));
}

/// Replacing changes what is to be replaced and leaves the rest: where it stands it gives
/// way, a character at which it does not begin stays, and a text without it stays whole.
pub proof fn law_replacing_leaves_the_rest(
    s: Seq<char>,
    from: Seq<char>,
    to: Seq<char>,
    rest: Seq<char>,
)
    requires
        from.len() > 0,
    ensures
        crate::text::spec_replace(from + rest, from, to) == to + crate::text::spec_replace(
            rest,
            from,
            to,
        ),
        s.len() > 0 && !crate::text::begins(s, from) ==> crate::text::spec_replace(s, from, to)
            == seq![s[0]] + crate::text::spec_replace(s.skip(1), from, to),
        (forall|i: int| !#[trigger] crate::text::matches_at(s, from, i))
            ==> crate::text::spec_replace(s, from, to) == s,
    decreases s.len(),
{
    let all = from + rest;
    assert(all.subrange(0, from.len() as int) =~= from);
    assert(all.skip(from.len() as int) =~= rest);
    if forall|i: int| !#[trigger] crate::text::matches_at(s, from, i) {
        if s.len() > 0 {
            let tail = s.skip(1);
            assert forall|i: int| !#[trigger] crate::text::matches_at(tail, from, i) by {
                if crate::text::matches_at(tail, from, i) {
                    assert(s.subrange(i + 1, i + 1 + from.len()) =~= tail.subrange(
                        i,
                        i + from.len(),
                    ));
                    assert(crate::text::matches_at(s, from, i + 1));
                }
            }
            law_replacing_leaves_the_rest(tail, from, to, rest);
            assert(!crate::text::matches_at(s, from, 0));
            assert(seq![s[0]] + tail =~= s);
        }
    }
}

/// Texts that are joined stand in the result one after the other: joining two lists is
/// joining each and then the two.
pub proof fn law_joins_add_up(first: Seq<Seq<char>>, second: Seq<Seq<char>>, sep: Seq<char>)
    requires
        first.len() > 0,
        second.len() > 0,
    ensures
        crate::text::spec_join(first + second, sep) == crate::text::spec_join(first, sep) + sep
            + crate::text::spec_join(second, sep),
        first.len() == 1 ==> crate::text::spec_join(first, sep) == first[0],
    decreases second.len(),
{
    let all = first + second;
    assert(all.drop_last() =~= first + second.drop_last());
    if second.len() == 1 {
        assert(all.drop_last() =~= first);
    } else {
        law_joins_add_up(first, second.drop_last(), sep);
        assert(crate::text::spec_join(all, sep) =~= crate::text::spec_join(first, sep) + sep
            + crate::text::spec_join(second, sep));
    }
}

/// The components of a path under a directory are those of the directory and then those
/// of the path; an absolute path stands for itself.
pub proof fn law_joined_paths_are_under_their_base(base: Seq<char>, path: Seq<char>)
    ensures
        crate::paths::absolute(path) ==> crate::paths::joined(base, path) == path,
        !crate::paths::absolute(path) && base.len() > 0 ==> base.is_prefix_of(
            crate::paths::joined(base, path),
        ) && path.is_suffix_of(crate::paths::joined(base, path))
            && crate::paths::joined(base, path).len() <= base.len() + 1 + path.len(),
{
    reveal_strlit("/");
    let whole = crate::paths::joined(base, path);
    if !crate::paths::absolute(path) && base.len() > 0 {
        assert(base =~= whole.subrange(0, base.len() as int));
        assert(path =~= whole.subrange(whole.len() - path.len(), whole.len() as int));
    }
}

} // verus!
