//! Text as sequences of characters.
//!
//! Everything the crate reads or writes is text: model replies, terminal
//! lines, command lines, paths. The functions here work on Unicode scalar
//! values, and each states its result as a function of the characters of its
//! arguments.
use std::collections::VecDeque;
use vstd::prelude::*;

verus! {

/// `String::push` of std: appends one character to the end.
pub assume_specification[ String::push ](s: &mut String, ch: char)
    ensures
        final(s)@ == old(s)@.push(ch),
;

/// What `str::to_lowercase` of std returns: the lowercase mapping of Unicode,
/// taken as a function of the characters.
pub uninterp spec fn lowercased(s: Seq<char>) -> Seq<char>;

/// `str::to_lowercase` of std. The result is named `lowercased`; for text that
/// is all ASCII it is the ASCII lowercase mapping, character by character.
#[verifier::external_body]
pub(crate) fn to_lowercase(s: &str) -> (r: String)
    ensures
        r@ == lowercased(s@),
        is_ascii_text(s@) ==> r@ == ascii_lowered(s@),
{
    s.to_lowercase()
}

/// What `str::to_uppercase` of std returns: the uppercase mapping of Unicode,
/// taken as a function of the characters.
pub uninterp spec fn uppercased(s: Seq<char>) -> Seq<char>;

/// `str::to_uppercase` of std. The result is named `uppercased`; for text that
/// is all ASCII it is the ASCII uppercase mapping, character by character.
#[verifier::external_body]
pub(crate) fn to_uppercase(s: &str) -> (r: String)
    ensures
        r@ == uppercased(s@),
        is_ascii_text(s@) ==> r@ == ascii_raised(s@),
{
    s.to_uppercase()
}

// ---------------------------------------------------------------- characters
/// The white space of Unicode (the property `White_Space`).
pub open spec fn is_white(c: char) -> bool {
    let u = c as u32;
    ||| 0x09 <= u <= 0x0d
    ||| u == 0x20
    ||| u == 0x85
    ||| u == 0xa0
    ||| u == 0x1680
    ||| 0x2000 <= u <= 0x200a
    ||| u == 0x2028
    ||| u == 0x2029
    ||| u == 0x202f
    ||| u == 0x205f
    ||| u == 0x3000
}

/// Whether `c` is white space.
pub fn is_whitespace(c: char) -> (b: bool)
    ensures
        b == is_white(c),
{
    let u: u32 = c as u32;
    (0x09 <= u && u <= 0x0d) || u == 0x20 || u == 0x85 || u == 0xa0 || u == 0x1680 || (0x2000 <= u
        && u <= 0x200a) || u == 0x2028 || u == 0x2029 || u == 0x202f || u == 0x205f || u == 0x3000
}

/// Whether every character of `s` is ASCII.
pub open spec fn is_ascii_text(s: Seq<char>) -> bool {
    forall|i: int| 0 <= i < s.len() ==> (#[trigger] s[i] as u32) < 0x80
}

/// Whether `c` is an ASCII digit.
pub open spec fn is_digit(c: char) -> bool {
    '0' <= c && c <= '9'
}

/// Whether `c` is an ASCII letter or digit.
pub open spec fn is_alnum(c: char) -> bool {
    is_digit(c) || ('a' <= c && c <= 'z') || ('A' <= c && c <= 'Z')
}

/// Whether `c` is an ASCII letter or digit.
pub fn is_ascii_alphanumeric(c: char) -> (b: bool)
    ensures
        b == is_alnum(c),
{
    ('0' <= c && c <= '9') || ('a' <= c && c <= 'z') || ('A' <= c && c <= 'Z')
}

/// The ASCII lowercase of one character.
pub open spec fn lower_char(c: char) -> char {
    if 'A' <= c && c <= 'Z' {
        (c as u32 + 32) as char
    } else {
        c
    }
}

/// The ASCII uppercase of one character.
pub open spec fn upper_char(c: char) -> char {
    if 'a' <= c && c <= 'z' {
        (c as u32 - 32) as char
    } else {
        c
    }
}

/// `s` with every ASCII letter in lower case.
pub open spec fn ascii_lowered(s: Seq<char>) -> Seq<char> {
    s.map_values(|c: char| lower_char(c))
}

/// `s` with every ASCII letter in upper case.
pub open spec fn ascii_raised(s: Seq<char>) -> Seq<char> {
    s.map_values(|c: char| upper_char(c))
}

/// The ASCII lowercase of one character.
pub fn to_lower_char(c: char) -> (r: char)
    ensures
        r == lower_char(c),
{
    if 'A' <= c && c <= 'Z' {
        (c as u8 + 32) as char
    } else {
        c
    }
}

/// `s` with every ASCII letter in lower case.
pub fn to_ascii_lowercase(s: &str) -> (r: String)
    ensures
        r@ == ascii_lowered(s@),
{
    let mut r = String::new();
    for c in it: s.chars()
        invariant
            it.seq() == s@,
            r@ == ascii_lowered(s@.take(it.index() as int)),
    {
        r.push(to_lower_char(c));
    }
    assert(s@.take(s@.len() as int) =~= s@);
    r
}

// ------------------------------------------------------------- construction
/// The characters of `s`, in order.
pub fn chars_of(s: &str) -> (out: Vec<char>)
    ensures
        out@ == s@,
{
    let mut out: Vec<char> = Vec::new();
    for c in it: s.chars()
        invariant
            it.seq() == s@,
            out@ == s@.take(it.index() as int),
    {
        out.push(c);
    }
    out
}

/// The string made of `chars`.
pub fn string_of(chars: &[char]) -> (s: String)
    ensures
        s@ == chars@,
{
    let mut s = String::new();
    let mut i: usize = 0;
    while i < chars.len()
        invariant
            i <= chars.len(),
            s@ == chars@.take(i as int),
        decreases chars.len() - i,
    {
        s.push(chars[i]);
        i += 1;
    }
    s
}

/// The characters of `chars` from `from` up to, not including, `to`.
pub fn slice_string(chars: &[char], from: usize, to: usize) -> (s: String)
    requires
        from <= to <= chars@.len(),
    ensures
        s@ == chars@.subrange(from as int, to as int),
{
    let mut s = String::new();
    let mut i: usize = from;
    while i < to
        invariant
            from <= i <= to <= chars@.len(),
            s@ == chars@.subrange(from as int, i as int),
        decreases to - i,
    {
        s.push(chars[i]);
        i += 1;
    }
    s
}

/// The number of characters of `s`.
pub fn count(s: &str) -> (n: usize)
    ensures
        n == s@.len(),
{
    chars_of(s).len()
}

/// The characters of `s` from `from` up to, not including, `to`.
pub fn sub_string(s: &str, from: usize, to: usize) -> (r: String)
    requires
        from <= to <= s@.len(),
    ensures
        r@ == s@.subrange(from as int, to as int),
{
    let chars = chars_of(s);
    slice_string(&chars, from, to)
}

/// `first` followed by `second`.
pub fn concat(first: &str, second: &str) -> (r: String)
    ensures
        r@ == first@ + second@,
{
    let mut r = first.to_owned();
    r.append(second);
    r
}

/// `first`, `second` and `third` in one string.
pub fn concat3(first: &str, second: &str, third: &str) -> (r: String)
    ensures
        r@ == first@ + second@ + third@,
{
    let mut r = first.to_owned();
    r.append(second);
    r.append(third);
    r
}

/// Four strings in one.
pub fn concat4(first: &str, second: &str, third: &str, fourth: &str) -> (r: String)
    ensures
        r@ == first@ + second@ + third@ + fourth@,
{
    let mut r = first.to_owned();
    r.append(second);
    r.append(third);
    r.append(fourth);
    r
}

/// Five strings in one.
pub fn concat5(first: &str, second: &str, third: &str, fourth: &str, fifth: &str) -> (r: String)
    ensures
        r@ == first@ + second@ + third@ + fourth@ + fifth@,
{
    let mut r = first.to_owned();
    r.append(second);
    r.append(third);
    r.append(fourth);
    r.append(fifth);
    r
}

/// `n` copies of `c`.
pub open spec fn repeated(c: char, n: nat) -> Seq<char> {
    Seq::new(n, |i: int| c)
}

/// `n` copies of `c`.
pub fn repeat(c: char, n: usize) -> (r: String)
    ensures
        r@ == repeated(c, n as nat),
{
    let mut r = String::new();
    let mut i: usize = 0;
    while i < n
        invariant
            i <= n,
            r@ == repeated(c, i as nat),
        decreases n - i,
    {
        r.push(c);
        i += 1;
    }
    r
}

/// Appends `x` to `v`, in terms of what the elements stand for.
pub fn put<T: DeepView>(v: &mut Vec<T>, x: T)
    ensures
        final(v)@ == old(v)@.push(x),
        final(v).deep_view() == old(v).deep_view().push(x.deep_view()),
{
    v.push(x);
    assert(v.deep_view() =~= old(v).deep_view().push(x.deep_view()));
}

/// Appends `x` to the end of `v`, in terms of what the elements stand for.
pub fn put_back<T: DeepView>(v: &mut VecDeque<T>, x: T)
    ensures
        final(v)@ == old(v)@.push(x),
        final(v).deep_view() == old(v).deep_view().push(x.deep_view()),
{
    v.push_back(x);
    assert(v.deep_view() =~= old(v).deep_view().push(x.deep_view()));
}

// --------------------------------------------------------------- comparison
/// Whether two strings hold the same characters.
pub fn same(a: &str, b: &str) -> (r: bool)
    ensures
        r == (a@ == b@),
{
    let x = chars_of(a);
    let y = chars_of(b);
    same_chars(&x, &y)
}

/// Whether two slices hold the same characters.
pub fn same_chars(x: &[char], y: &[char]) -> (r: bool)
    ensures
        r == (x@ == y@),
{
    if x.len() != y.len() {
        return false;
    }
    let mut i: usize = 0;
    while i < x.len()
        invariant
            i <= x.len(),
            x@.len() == y@.len(),
            forall|j: int| 0 <= j < i ==> x@[j] == y@[j],
        decreases x.len() - i,
    {
        if x[i] != y[i] {
            return false;
        }
        i += 1;
    }
    assert(x@ =~= y@);
    true
}

/// Whether two strings are equal when ASCII case is ignored.
pub fn eq_ignore_ascii_case(a: &str, b: &str) -> (r: bool)
    ensures
        r == (ascii_lowered(a@) == ascii_lowered(b@)),
{
    same(&to_ascii_lowercase(a), &to_ascii_lowercase(b))
}

/// Whether `list` holds a string with the characters of `s`.
pub fn contains_text(list: &[String], s: &str) -> (r: bool)
    ensures
        r == list.deep_view().contains(s@),
{
    let ghost view = list.deep_view();
    let mut i: usize = 0;
    while i < list.len()
        invariant
            i <= list.len(),
            view == list.deep_view(),
            forall|j: int| 0 <= j < i ==> #[trigger] view[j] != s@,
        decreases list.len() - i,
    {
        assert(view[i as int] == list@[i as int]@);
        if same(&list[i], s) {
            return true;
        }
        i += 1;
    }
    false
}

/// Whether `set` holds `c`.
pub fn in_set(set: &[char], c: char) -> (r: bool)
    ensures
        r == set@.contains(c),
{
    let mut i: usize = 0;
    while i < set.len()
        invariant
            i <= set.len(),
            forall|j: int| 0 <= j < i ==> set@[j] != c,
        decreases set.len() - i,
    {
        if set[i] == c {
            assert(set@[i as int] == c);
            return true;
        }
        i += 1;
    }
    false
}

// ---------------------------------------------------------------- searching
/// Whether `p` stands in `s` at position `i`.
pub open spec fn matches_at(s: Seq<char>, p: Seq<char>, i: int) -> bool {
    0 <= i && i + p.len() <= s.len() && s.subrange(i, i + p.len()) =~= p
}

/// A position, as an integer.
pub open spec fn at(i: Option<usize>) -> Option<int> {
    match i {
        Some(k) => Some(k as int),
        None => None,
    }
}

/// The first position, from `from` on, at which `p` stands in `s`.
#[verifier::opaque]
pub open spec fn find_from(s: Seq<char>, p: Seq<char>, from: int) -> Option<int>
    decreases s.len() - from + 1,
{
    if from < 0 || from + p.len() > s.len() {
        None
    } else if matches_at(s, p, from) {
        Some(from)
    } else {
        find_from(s, p, from + 1)
    }
}

/// The first position at which `p` stands in `s`.
pub open spec fn spec_find(s: Seq<char>, p: Seq<char>) -> Option<int> {
    find_from(s, p, 0)
}

/// The last position, not above `from`, at which `p` stands in `s`.
#[verifier::opaque]
pub open spec fn rfind_from(s: Seq<char>, p: Seq<char>, from: int) -> Option<int>
    decreases from + 1,
{
    if from < 0 {
        None
    } else if matches_at(s, p, from) {
        Some(from)
    } else {
        rfind_from(s, p, from - 1)
    }
}

/// The last position at which `p` stands in `s`.
pub open spec fn spec_rfind(s: Seq<char>, p: Seq<char>) -> Option<int> {
    rfind_from(s, p, s.len() as int)
}

/// Whether `p` stands anywhere in `s`.
pub open spec fn has(s: Seq<char>, p: Seq<char>) -> bool {
    spec_find(s, p) is Some
}

/// Whether `s` begins with `p`.
pub open spec fn begins(s: Seq<char>, p: Seq<char>) -> bool {
    matches_at(s, p, 0)
}

/// Whether `s` ends with `p`.
pub open spec fn ends(s: Seq<char>, p: Seq<char>) -> bool {
    matches_at(s, p, s.len() - p.len())
}

/// `find_from` gives the least match, and `None` only where there is no match.
pub proof fn lemma_find_from(s: Seq<char>, p: Seq<char>, from: int)
    requires
        0 <= from,
    ensures
        match find_from(s, p, from) {
            Some(k) => from <= k && matches_at(s, p, k) && forall|j: int|
                from <= j < k ==> !#[trigger] matches_at(s, p, j),
            None => forall|j: int| from <= j ==> !#[trigger] matches_at(s, p, j),
        },
    decreases s.len() - from + 1,
{
    reveal(find_from);
    if from + p.len() > s.len() || matches_at(s, p, from) {
    } else {
        lemma_find_from(s, p, from + 1);
    }
}

/// The first position of `p` in `s` is the least at which it stands there, and
/// there is none exactly where `p` stands nowhere in `s`.
pub proof fn law_find_is_first(s: Seq<char>, p: Seq<char>)
    ensures
        match spec_find(s, p) {
            Some(k) => matches_at(s, p, k) && forall|j: int| 0 <= j < k ==> !#[trigger] matches_at(s, p, j),
            None => forall|j: int| !#[trigger] matches_at(s, p, j),
        },
{
    lemma_find_from(s, p, 0);
}

/// Whether `p` stands in `s` at position `i`.
pub fn match_at(s: &[char], p: &[char], i: usize) -> (r: bool)
    ensures
        r == matches_at(s@, p@, i as int),
{
    if p.len() > s.len() || i > s.len() - p.len() {
        return false;
    }
    let mut j: usize = 0;
    while j < p.len()
        invariant
            j <= p.len(),
            i + p.len() <= s.len(),
            forall|k: int| 0 <= k < j ==> s@[i + k] == p@[k],
        decreases p.len() - j,
    {
        if s[i + j] != p[j] {
            assert(s@.subrange(i as int, i + p@.len())[j as int] != p@[j as int]);
            return false;
        }
        j += 1;
    }
    true
}

/// The first position, from `from` on, at which `p` stands in `s`.
pub fn find_chars(s: &[char], p: &[char], from: usize) -> (r: Option<usize>)
    ensures
        at(r) == find_from(s@, p@, from as int),
{
    reveal(find_from);
    if p.len() > s.len() {
        return None;
    }
    let last: usize = s.len() - p.len();
    let mut i: usize = from;
    while i <= last
        invariant
            from <= i,
            last + p@.len() == s@.len(),
            find_from(s@, p@, from as int) == find_from(s@, p@, i as int),
        decreases last + 1 - i,
    {
        reveal(find_from);
        if match_at(s, p, i) {
            return Some(i);
        }
        if i == last {
            assert(find_from(s@, p@, i + 1) is None);
            return None;
        }
        i += 1;
    }
    None
}

/// The first position of `p` in `s`, in characters.
pub fn find(s: &str, p: &str) -> (r: Option<usize>)
    ensures
        at(r) == spec_find(s@, p@),
        r matches Some(k) ==> k + p@.len() <= s@.len() && k + p@.len() <= usize::MAX,
{
    find_at(s, p, 0)
}

/// The last position of `p` in `s`.
pub fn rfind_chars(s: &[char], p: &[char]) -> (r: Option<usize>)
    ensures
        at(r) == spec_rfind(s@, p@),
        r matches Some(k) ==> k + p@.len() <= s@.len() && k + p@.len() <= usize::MAX,
{
    let mut i: usize = s.len();
    loop
        invariant
            i <= s.len(),
            spec_rfind(s@, p@) == rfind_from(s@, p@, i as int),
        decreases i,
    {
        reveal(rfind_from);
        if match_at(s, p, i) {
            return Some(i);
        }
        if i == 0 {
            assert(rfind_from(s@, p@, -1) is None);
            return None;
        }
        i -= 1;
    }
}

/// The last position of `p` in `s`, in characters.
pub fn rfind(s: &str, p: &str) -> (r: Option<usize>)
    ensures
        at(r) == spec_rfind(s@, p@),
        r matches Some(k) ==> k + p@.len() <= s@.len() && k + p@.len() <= usize::MAX,
{
    let x = chars_of(s);
    let y = chars_of(p);
    rfind_chars(&x, &y)
}

/// Whether `p` stands anywhere in `s`.
pub fn contains(s: &str, p: &str) -> (r: bool)
    ensures
        r == has(s@, p@),
{
    find(s, p).is_some()
}

/// Whether `s` begins with `p`.
pub fn starts_with(s: &str, p: &str) -> (r: bool)
    ensures
        r == begins(s@, p@),
{
    let x = chars_of(s);
    let y = chars_of(p);
    match_at(&x, &y, 0)
}

/// Whether `s` ends with `p`.
pub fn ends_with(s: &str, p: &str) -> (r: bool)
    ensures
        r == ends(s@, p@),
{
    let x = chars_of(s);
    let y = chars_of(p);
    if y.len() > x.len() {
        false
    } else {
        match_at(&x, &y, x.len() - y.len())
    }
}

/// The first position, from `from` on, of a character from `set` in `s`.
pub open spec fn find_set_from(s: Seq<char>, set: Seq<char>, from: int) -> Option<int>
    decreases s.len() - from,
{
    if from < 0 || from >= s.len() {
        None
    } else if set.contains(s[from]) {
        Some(from)
    } else {
        find_set_from(s, set, from + 1)
    }
}

/// The first position, from `from` on, of a character from `set` in `s`.
pub fn find_set(s: &str, set: &[char], from: usize) -> (r: Option<usize>)
    ensures
        at(r) == find_set_from(s@, set@, from as int),
        r matches Some(k) ==> from <= k < s@.len() && k < usize::MAX,
{
    let x = chars_of(s);
    let mut i: usize = from;
    while i < x.len()
        invariant
            x@ == s@,
            from <= i,
            find_set_from(s@, set@, from as int) == find_set_from(s@, set@, i as int),
        decreases x.len() - i,
    {
        if in_set(set, x[i]) {
            return Some(i);
        }
        i += 1;
    }
    None
}

/// The first position of `p` in `s` at or after `from`, in characters.
pub fn find_at(s: &str, p: &str, from: usize) -> (r: Option<usize>)
    ensures
        at(r) == find_from(s@, p@, from as int),
        r matches Some(k) ==> from <= k && k + p@.len() <= s@.len() && k + p@.len() <= usize::MAX,
{
    let x = chars_of(s);
    let y = chars_of(p);
    proof {
        lemma_find_from(s@, p@, from as int);
    }
    assert(x.len() <= usize::MAX);
    find_chars(&x, &y, from)
}

/// `s` without the leading `p`, where it begins with it.
pub open spec fn without_prefix(s: Seq<char>, p: Seq<char>) -> Option<Seq<char>> {
    if begins(s, p) {
        Some(s.skip(p.len() as int))
    } else {
        None
    }
}

/// `s` without the leading `p`, or `None` where `s` does not begin with `p`.
pub fn strip_prefix(s: &str, p: &str) -> (r: Option<String>)
    ensures
        r.deep_view() == without_prefix(s@, p@),
{
    let x = chars_of(s);
    let y = chars_of(p);
    if match_at(&x, &y, 0) {
        let rest = slice_string(&x, y.len(), x.len());
        assert(rest@ =~= s@.skip(p@.len() as int));
        Some(rest)
    } else {
        None
    }
}

/// `s` without the trailing `p`, where it ends with it.
pub open spec fn without_suffix(s: Seq<char>, p: Seq<char>) -> Option<Seq<char>> {
    if ends(s, p) {
        Some(s.take(s.len() - p.len()))
    } else {
        None
    }
}

/// `s` without the trailing `p`, or `None` where `s` does not end with `p`.
pub fn strip_suffix(s: &str, p: &str) -> (r: Option<String>)
    ensures
        r.deep_view() == without_suffix(s@, p@),
{
    if ends_with(s, p) {
        let x = chars_of(s);
        let n = x.len() - count(p);
        let rest = slice_string(&x, 0, n);
        assert(rest@ =~= s@.take(s@.len() - p@.len()));
        Some(rest)
    } else {
        None
    }
}

// ----------------------------------------------------------------- trimming
/// `s` without its leading white space.
pub open spec fn spec_trim_start(s: Seq<char>) -> Seq<char>
    decreases s.len(),
{
    if s.len() > 0 && is_white(s[0]) {
        spec_trim_start(s.skip(1))
    } else {
        s
    }
}

/// `s` without its trailing white space.
pub open spec fn spec_trim_end(s: Seq<char>) -> Seq<char>
    decreases s.len(),
{
    if s.len() > 0 && is_white(s.last()) {
        spec_trim_end(s.drop_last())
    } else {
        s
    }
}

/// `s` without the white space around it.
pub open spec fn spec_trim(s: Seq<char>) -> Seq<char> {
    spec_trim_end(spec_trim_start(s))
}

/// `s` without its leading characters from `set`.
pub open spec fn trim_start_set(s: Seq<char>, set: Seq<char>) -> Seq<char>
    decreases s.len(),
{
    if s.len() > 0 && set.contains(s[0]) {
        trim_start_set(s.skip(1), set)
    } else {
        s
    }
}

/// `s` without its trailing characters from `set`.
pub open spec fn trim_end_set(s: Seq<char>, set: Seq<char>) -> Seq<char>
    decreases s.len(),
{
    if s.len() > 0 && set.contains(s.last()) {
        trim_end_set(s.drop_last(), set)
    } else {
        s
    }
}

/// `s` without the characters from `set` around it.
pub open spec fn trim_set(s: Seq<char>, set: Seq<char>) -> Seq<char> {
    trim_end_set(trim_start_set(s, set), set)
}

/// `s` without its leading white space.
pub fn trim_start(s: &str) -> (r: String)
    ensures
        r@ == spec_trim_start(s@),
{
    let x = chars_of(s);
    let mut i: usize = 0;
    assert(s@.skip(0) =~= s@);
    while i < x.len() && is_whitespace(x[i])
        invariant
            x@ == s@,
            i <= x.len(),
            spec_trim_start(s@) == spec_trim_start(s@.skip(i as int)),
        decreases x.len() - i,
    {
        assert(s@.skip(i as int).skip(1) =~= s@.skip(i + 1));
        i += 1;
    }
    let r = slice_string(&x, i, x.len());
    assert(r@ =~= s@.skip(i as int));
    r
}

/// `s` without its trailing white space.
pub fn trim_end(s: &str) -> (r: String)
    ensures
        r@ == spec_trim_end(s@),
{
    let x = chars_of(s);
    let mut j: usize = x.len();
    assert(s@.take(s@.len() as int) =~= s@);
    while j > 0 && is_whitespace(x[j - 1])
        invariant
            x@ == s@,
            j <= x.len(),
            spec_trim_end(s@) == spec_trim_end(s@.take(j as int)),
        decreases j,
    {
        assert(s@.take(j as int).drop_last() =~= s@.take(j - 1));
        j -= 1;
    }
    let r = slice_string(&x, 0, j);
    assert(r@ =~= s@.take(j as int));
    r
}

/// `s` without the white space around it.
pub fn trim(s: &str) -> (r: String)
    ensures
        r@ == spec_trim(s@),
{
    trim_end(&trim_start(s))
}

/// `s` without its leading characters from `set`.
pub fn trim_start_chars(s: &str, set: &[char]) -> (r: String)
    ensures
        r@ == trim_start_set(s@, set@),
{
    let x = chars_of(s);
    let mut i: usize = 0;
    assert(s@.skip(0) =~= s@);
    while i < x.len() && in_set(set, x[i])
        invariant
            x@ == s@,
            i <= x.len(),
            trim_start_set(s@, set@) == trim_start_set(s@.skip(i as int), set@),
        decreases x.len() - i,
    {
        assert(s@.skip(i as int).skip(1) =~= s@.skip(i + 1));
        i += 1;
    }
    let r = slice_string(&x, i, x.len());
    assert(r@ =~= s@.skip(i as int));
    r
}

/// `s` without its trailing characters from `set`.
pub fn trim_end_chars(s: &str, set: &[char]) -> (r: String)
    ensures
        r@ == trim_end_set(s@, set@),
{
    let x = chars_of(s);
    let mut j: usize = x.len();
    assert(s@.take(s@.len() as int) =~= s@);
    while j > 0 && in_set(set, x[j - 1])
        invariant
            x@ == s@,
            j <= x.len(),
            trim_end_set(s@, set@) == trim_end_set(s@.take(j as int), set@),
        decreases j,
    {
        assert(s@.take(j as int).drop_last() =~= s@.take(j - 1));
        j -= 1;
    }
    let r = slice_string(&x, 0, j);
    assert(r@ =~= s@.take(j as int));
    r
}

/// `s` without the characters from `set` around it.
pub fn trim_chars(s: &str, set: &[char]) -> (r: String)
    ensures
        r@ == trim_set(s@, set@),
{
    trim_end_chars(&trim_start_chars(s, set), set)
}

// ---------------------------------------------------------------- splitting
/// The pieces of `rest` between separators from `set`; `cur` is what has been
/// read of the piece that `rest` goes on with.
pub open spec fn split_go(cur: Seq<char>, rest: Seq<char>, set: Seq<char>) -> Seq<Seq<char>>
    decreases rest.len(),
{
    if rest.len() == 0 {
        seq![cur]
    } else if set.contains(rest[0]) {
        seq![cur] + split_go(seq![], rest.skip(1), set)
    } else {
        split_go(cur.push(rest[0]), rest.skip(1), set)
    }
}

/// The pieces of `s` between separators from `set`: one more than there are
/// separators.
pub open spec fn spec_split(s: Seq<char>, set: Seq<char>) -> Seq<Seq<char>> {
    split_go(seq![], s, set)
}

/// The pieces of `s` between separators from `set`.
pub fn split(s: &str, set: &[char]) -> (out: Vec<String>)
    ensures
        out.deep_view() == spec_split(s@, set@),
        out@.len() > 0,
{
    let x = chars_of(s);
    let mut out: Vec<String> = Vec::new();
    let mut cur = String::new();
    let mut i: usize = 0;
    assert(s@.skip(0) =~= s@);
    while i < x.len()
        invariant
            x@ == s@,
            i <= x.len(),
            spec_split(s@, set@) == out.deep_view() + split_go(cur@, s@.skip(i as int), set@),
        decreases x.len() - i,
    {
        assert(s@.skip(i as int).skip(1) =~= s@.skip(i + 1));
        if in_set(set, x[i]) {
            put(&mut out, cur);
            cur = String::new();
        } else {
            cur.push(x[i]);
        }
        i += 1;
    }
    put(&mut out, cur);
    out
}

/// Text without separators is one piece, up to the separator that follows it.
pub proof fn lemma_split_piece(cur: Seq<char>, piece: Seq<char>, tail: Seq<char>, set: Seq<char>)
    requires
        forall|i: int| 0 <= i < piece.len() ==> !set.contains(#[trigger] piece[i]),
        tail.len() > 0 ==> set.contains(tail[0]),
    ensures
        split_go(cur, piece + tail, set) == (if tail.len() == 0 {
            seq![cur + piece]
        } else {
            seq![cur + piece] + split_go(seq![], tail.skip(1), set)
        }),
    decreases piece.len(),
{
    let rest = piece + tail;
    if piece.len() == 0 {
        assert(rest =~= tail);
        assert(cur + piece =~= cur);
    } else {
        assert(rest[0] == piece[0]);
        assert(rest.skip(1) =~= piece.skip(1) + tail);
        assert forall|i: int| 0 <= i < piece.skip(1).len() implies !set.contains(
            #[trigger] piece.skip(1)[i],
        ) by {
            assert(piece.skip(1)[i] == piece[i + 1]);
        }
        lemma_split_piece(cur.push(piece[0]), piece.skip(1), tail, set);
        assert(cur.push(piece[0]) + piece.skip(1) =~= cur + piece);
    }
}

/// The words of `rest`; `cur` is what has been read of the current word.
pub open spec fn words_go(cur: Seq<char>, rest: Seq<char>) -> Seq<Seq<char>>
    decreases rest.len(),
{
    if rest.len() == 0 {
        word_or_none(cur)
    } else if is_white(rest[0]) {
        word_or_none(cur) + words_go(seq![], rest.skip(1))
    } else {
        words_go(cur.push(rest[0]), rest.skip(1))
    }
}

/// The word `cur`, unless it is empty.
pub open spec fn word_or_none(cur: Seq<char>) -> Seq<Seq<char>> {
    if cur.len() == 0 {
        seq![]
    } else {
        seq![cur]
    }
}

/// The words of `s`: its longest runs of characters other than white space.
pub open spec fn spec_words(s: Seq<char>) -> Seq<Seq<char>> {
    words_go(seq![], s)
}

/// The words of `s`.
pub fn words(s: &str) -> (out: Vec<String>)
    ensures
        out.deep_view() == spec_words(s@),
{
    let x = chars_of(s);
    let mut out: Vec<String> = Vec::new();
    let mut cur: Vec<char> = Vec::new();
    let mut i: usize = 0;
    assert(s@.skip(0) =~= s@);
    while i < x.len()
        invariant
            x@ == s@,
            i <= x.len(),
            spec_words(s@) == out.deep_view() + words_go(cur@, s@.skip(i as int)),
        decreases x.len() - i,
    {
        assert(s@.skip(i as int).skip(1) =~= s@.skip(i + 1));
        if is_whitespace(x[i]) {
            if cur.len() > 0 {
                put(&mut out, string_of(&cur));
            }
            cur = Vec::new();
        } else {
            cur.push(x[i]);
        }
        i += 1;
    }
    if cur.len() > 0 {
        put(&mut out, string_of(&cur));
    }
    out
}

/// A line without the carriage return that its line feed ended.
pub open spec fn without_cr(line: Seq<char>) -> Seq<char> {
    if line.len() > 0 && line.last() == '\r' {
        line.drop_last()
    } else {
        line
    }
}

/// The lines of `rest`; `cur` is what has been read of the current line.
pub open spec fn lines_go(cur: Seq<char>, rest: Seq<char>) -> Seq<Seq<char>>
    decreases rest.len(),
{
    if rest.len() == 0 {
        word_or_none(cur)
    } else if rest[0] == '\n' {
        seq![without_cr(cur)] + lines_go(seq![], rest.skip(1))
    } else {
        lines_go(cur.push(rest[0]), rest.skip(1))
    }
}

/// The lines of `s`: what stands before each line feed (without the carriage
/// return next to it), and what stands after the last one if that is not empty.
pub open spec fn spec_lines(s: Seq<char>) -> Seq<Seq<char>> {
    lines_go(seq![], s)
}

/// The lines of a text hold no character that the text does not hold.
pub proof fn lemma_lines_are_parts(s: Seq<char>, i: int, c: char)
    requires
        0 <= i < spec_lines(s).len(),
        spec_lines(s)[i].contains(c),
    ensures
        s.contains(c),
{
    lemma_lines_go_parts(seq![], s, i, c);
}

proof fn lemma_lines_go_parts(cur: Seq<char>, rest: Seq<char>, i: int, c: char)
    requires
        0 <= i < lines_go(cur, rest).len(),
        lines_go(cur, rest)[i].contains(c),
    ensures
        cur.contains(c) || rest.contains(c),
    decreases rest.len(),
{
    let line = lines_go(cur, rest)[i];
    if rest.len() == 0 {
        assert(line == cur);
    } else {
        let tail = rest.skip(1);
        if rest[0] == '\n' {
            if i == 0 {
                let k = choose|k: int| 0 <= k < line.len() && line[k] == c;
                assert(cur[k] == c);
            } else {
                assert(line == lines_go(seq![], tail)[i - 1]);
                lemma_lines_go_parts(seq![], tail, i - 1, c);
                let k = choose|k: int| 0 <= k < tail.len() && tail[k] == c;
                assert(rest[k + 1] == c);
            }
        } else {
            lemma_lines_go_parts(cur.push(rest[0]), tail, i, c);
            if tail.contains(c) {
                let k = choose|k: int| 0 <= k < tail.len() && tail[k] == c;
                assert(rest[k + 1] == c);
            } else {
                let longer = cur.push(rest[0]);
                let k = choose|k: int| 0 <= k < longer.len() && longer[k] == c;
                if k < cur.len() {
                    assert(cur[k] == c);
                } else {
                    assert(rest[0] == c);
                }
            }
        }
    }
}

/// The lines of `s`.
pub fn lines(s: &str) -> (out: Vec<String>)
    ensures
        out.deep_view() == spec_lines(s@),
{
    let x = chars_of(s);
    let mut out: Vec<String> = Vec::new();
    let mut cur: Vec<char> = Vec::new();
    let mut i: usize = 0;
    assert(s@.skip(0) =~= s@);
    while i < x.len()
        invariant
            x@ == s@,
            i <= x.len(),
            spec_lines(s@) == out.deep_view() + lines_go(cur@, s@.skip(i as int)),
        decreases x.len() - i,
    {
        assert(s@.skip(i as int).skip(1) =~= s@.skip(i + 1));
        if x[i] == '\n' {
            let n = cur.len();
            let line = if n > 0 && cur[n - 1] == '\r' {
                slice_string(&cur, 0, n - 1)
            } else {
                string_of(&cur)
            };
            assert(line@ =~= without_cr(cur@));
            put(&mut out, line);
            cur = Vec::new();
        } else {
            cur.push(x[i]);
        }
        i += 1;
    }
    if cur.len() > 0 {
        put(&mut out, string_of(&cur));
    }
    out
}

// ------------------------------------------------------- joining, replacing
/// `parts` one after the other with `sep` between them.
pub open spec fn spec_join(parts: Seq<Seq<char>>, sep: Seq<char>) -> Seq<char>
    decreases parts.len(),
{
    if parts.len() == 0 {
        seq![]
    } else if parts.len() == 1 {
        parts[0]
    } else {
        spec_join(parts.drop_last(), sep) + sep + parts.last()
    }
}

/// `parts` one after the other with `sep` between them.
pub fn join(parts: &[String], sep: &str) -> (r: String)
    ensures
        r@ == spec_join(parts.deep_view(), sep@),
{
    let mut r = String::new();
    let mut i: usize = 0;
    let ghost view = parts.deep_view();
    while i < parts.len()
        invariant
            i <= parts.len(),
            view == parts.deep_view(),
            r@ == spec_join(view.take(i as int), sep@),
        decreases parts.len() - i,
    {
        assert(view.take(i + 1).drop_last() =~= view.take(i as int));
        if i > 0 {
            r.append(sep);
        }
        r.append(&parts[i]);
        i += 1;
    }
    assert(view.take(view.len() as int) =~= view);
    r
}

/// `s` with each occurrence of `from`, taken from left to right without
/// overlap, replaced by `to`.
pub open spec fn spec_replace(s: Seq<char>, from: Seq<char>, to: Seq<char>) -> Seq<char>
    decreases s.len(),
{
    if s.len() == 0 || from.len() == 0 {
        s
    } else if matches_at(s, from, 0) {
        to + spec_replace(s.skip(from.len() as int), from, to)
    } else {
        seq![s[0]] + spec_replace(s.skip(1), from, to)
    }
}

/// `s` with each occurrence of `from` replaced by `to`.
pub fn replace(s: &str, from: &str, to: &str) -> (r: String)
    requires
        from@.len() > 0,
    ensures
        r@ == spec_replace(s@, from@, to@),
{
    let x = chars_of(s);
    let p = chars_of(from);
    let mut r = String::new();
    let mut i: usize = 0;
    assert(s@.skip(0) =~= s@);
    while i < x.len()
        invariant
            x@ == s@,
            p@ == from@,
            p@.len() > 0,
            i <= x.len(),
            spec_replace(s@, from@, to@) == r@ + spec_replace(s@.skip(i as int), from@, to@),
        decreases x.len() - i,
    {
        let ghost rest = s@.skip(i as int);
        if match_at(&x, &p, i) {
            assert(rest.subrange(0, p@.len() as int) =~= s@.subrange(i as int, i + p@.len()));
            assert(rest.skip(p@.len() as int) =~= s@.skip(i + p@.len()));
            r.append(to);
            i += p.len();
        } else {
            assert(matches_at(rest, p@, 0) ==> matches_at(s@, p@, i as int)) by {
                if matches_at(rest, p@, 0) {
                    assert(rest.subrange(0, p@.len() as int) =~= s@.subrange(i as int, i + p@.len()));
                }
            }
            assert(rest.skip(1) =~= s@.skip(i + 1));
            r.push(x[i]);
            i += 1;
        }
    }
    r
}

// ------------------------------------------------------------------ numbers
/// The character of a decimal digit.
pub open spec fn digit_char(d: nat) -> char {
    (48 + d) as char
}

/// `n` in decimal.
pub open spec fn spec_decimal(n: nat) -> Seq<char>
    decreases n,
{
    if n < 10 {
        seq![digit_char(n)]
    } else {
        spec_decimal(n / 10).push(digit_char(n % 10))
    }
}

/// `n` in decimal.
pub fn decimal(n: u64) -> (r: String)
    ensures
        r@ == spec_decimal(n as nat),
    decreases n,
{
    let mut r = if n < 10 {
        String::new()
    } else {
        decimal(n / 10)
    };
    let d: u8 = (n % 10) as u8;
    r.push((48 + d) as char);
    r
}

/// The value of a sequence of decimal digits.
pub open spec fn digits_value(s: Seq<char>) -> nat
    decreases s.len(),
{
    if s.len() == 0 {
        0
    } else {
        (digits_value(s.drop_last()) * 10 + (s.last() as u32 - 48)) as nat
    }
}

/// Whether `s` is one or more decimal digits.
pub open spec fn is_digits(s: Seq<char>) -> bool {
    s.len() > 0 && forall|i: int| 0 <= i < s.len() ==> is_digit(#[trigger] s[i])
}

/// The number that `s` writes: decimal digits, with or without a leading `+`,
/// of a value that `max` allows.
pub open spec fn spec_parse(s: Seq<char>, max: nat) -> Option<nat> {
    let body = if s.len() > 0 && s[0] == '+' {
        s.skip(1)
    } else {
        s
    };
    if is_digits(body) && digits_value(body) <= max {
        Some(digits_value(body))
    } else {
        None
    }
}

proof fn lemma_value_grows(s: Seq<char>, k: int)
    requires
        0 <= k <= s.len(),
        forall|i: int| 0 <= i < s.len() ==> is_digit(#[trigger] s[i]),
    ensures
        digits_value(s.take(k)) <= digits_value(s),
    decreases s.len() - k,
{
    if k < s.len() {
        lemma_value_grows(s, k + 1);
        assert(s.take(k + 1).drop_last() =~= s.take(k));
        assert(is_digit(s[k]));
    } else {
        assert(s.take(k) =~= s);
    }
}

/// The number that `s` writes, if it is at most `max`.
pub fn parse_number(s: &str, max: u64) -> (r: Option<u64>)
    ensures
        match r {
            Some(n) => spec_parse(s@, max as nat) == Some(n as nat),
            None => spec_parse(s@, max as nat) is None,
        },
{
    let x = chars_of(s);
    let start: usize = if x.len() > 0 && x[0] == '+' {
        1
    } else {
        0
    };
    let ghost body = if s@.len() > 0 && s@[0] == '+' {
        s@.skip(1)
    } else {
        s@
    };
    assert(body =~= s@.skip(start as int));
    if x.len() == start {
        return None;
    }
    let mut acc: u128 = 0;
    let mut i: usize = start;
    while i < x.len()
        invariant
            x@ == s@,
            start <= i <= x.len(),
            body == s@.skip(start as int),
            spec_parse(s@, max as nat) == (if is_digits(body) && digits_value(body) <= max {
                Some(digits_value(body))
            } else {
                None
            }),
            forall|j: int| 0 <= j < i - start ==> is_digit(#[trigger] body[j]),
            acc == digits_value(body.take(i - start)),
            acc <= max,
        decreases x.len() - i,
    {
        let c = x[i];
        assert(c == body[i - start]);
        if !('0' <= c && c <= '9') {
            return None;
        }
        acc = acc * 10 + (c as u32 - 48) as u128;
        assert(body.take(i - start + 1).drop_last() =~= body.take(i - start));
        if acc > max as u128 {
            proof {
                if is_digits(body) {
                    lemma_value_grows(body, i - start + 1);
                }
            }
            return None;
        }
        i += 1;
    }
    assert(body.take(body.len() as int) =~= body);
    Some(acc as u64)
}

// -------------------------------------------------------------------- bytes
/// The length of `c` in UTF-8, in bytes.
pub open spec fn char_width(c: char) -> nat {
    let u = c as u32;
    if u < 0x80 {
        1
    } else if u < 0x800 {
        2
    } else if u < 0x10000 {
        3
    } else {
        4
    }
}

/// The length of `s` in UTF-8, in bytes.
pub open spec fn byte_count(s: Seq<char>) -> nat
    decreases s.len(),
{
    if s.len() == 0 {
        0
    } else {
        byte_count(s.drop_last()) + char_width(s.last())
    }
}

/// The length of `c` in UTF-8, in bytes.
pub fn width_of(c: char) -> (n: usize)
    ensures
        n == char_width(c),
{
    let u: u32 = c as u32;
    if u < 0x80 {
        1
    } else if u < 0x800 {
        2
    } else if u < 0x10000 {
        3
    } else {
        4
    }
}

/// Byte lengths add up.
pub proof fn lemma_byte_count_add(a: Seq<char>, b: Seq<char>)
    ensures
        byte_count(a + b) == byte_count(a) + byte_count(b),
    decreases b.len(),
{
    if b.len() == 0 {
        assert(a + b =~= a);
    } else {
        assert((a + b).drop_last() =~= a + b.drop_last());
        lemma_byte_count_add(a, b.drop_last());
    }
}

/// A shorter beginning is no longer in bytes.
pub proof fn lemma_byte_count_take(s: Seq<char>, i: int, j: int)
    requires
        0 <= i <= j <= s.len(),
    ensures
        byte_count(s.take(i)) <= byte_count(s.take(j)),
        i < j ==> byte_count(s.take(i)) < byte_count(s.take(j)),
{
    assert(s.take(j) =~= s.take(i) + s.subrange(i, j));
    lemma_byte_count_add(s.take(i), s.subrange(i, j));
    if i < j {
        let rest = s.subrange(i, j);
        assert(byte_count(rest) >= char_width(rest.last()));
    }
}

/// The longest beginning of `s` that is no longer than `max` bytes.
pub open spec fn bytes_within(s: Seq<char>, max: nat) -> Seq<char>
    decreases s.len(),
{
    if s.len() == 0 || byte_count(s) <= max {
        s
    } else {
        bytes_within(s.drop_last(), max)
    }
}

proof fn lemma_bytes_within(s: Seq<char>, max: nat, k: int)
    requires
        0 <= k <= s.len(),
        byte_count(s.take(k)) <= max,
        k < s.len() ==> byte_count(s.take(k + 1)) > max,
    ensures
        bytes_within(s, max) == s.take(k),
    decreases s.len(),
{
    if k == s.len() {
        assert(s.take(k) =~= s);
    } else {
        lemma_byte_count_take(s, k + 1, s.len() as int);
        assert(s.take(s.len() as int) =~= s);
        let shorter = s.drop_last();
        assert(shorter.take(k) =~= s.take(k));
        if k < shorter.len() {
            assert(shorter.take(k + 1) =~= s.take(k + 1));
        }
        lemma_bytes_within(shorter, max, k);
    }
}

/// What is within a number of bytes is a beginning, and no longer than that.
pub proof fn lemma_bytes_within_is_beginning(s: Seq<char>, max: nat)
    ensures
        bytes_within(s, max).len() <= s.len(),
        bytes_within(s, max) == s.take(bytes_within(s, max).len() as int),
        byte_count(bytes_within(s, max)) <= max,
    decreases s.len(),
{
    if s.len() == 0 || byte_count(s) <= max {
        assert(s.take(s.len() as int) =~= s);
    } else {
        let shorter = s.drop_last();
        lemma_bytes_within_is_beginning(shorter, max);
        let n = bytes_within(shorter, max).len() as int;
        assert(shorter.take(n) =~= s.take(n));
    }
}

/// The longest beginning of `s` that is no longer than `max` bytes.
pub fn cut_to_bytes(s: &str, max: usize) -> (r: String)
    ensures
        r@ == bytes_within(s@, max as nat),
{
    let x = chars_of(s);
    let mut used: usize = 0;
    let mut i: usize = 0;
    assert(s@.take(0) =~= seq![]);
    while i < x.len()
        invariant
            x@ == s@,
            i <= x.len(),
            used == byte_count(s@.take(i as int)),
            used <= max,
        decreases x.len() - i,
    {
        let w = width_of(x[i]);
        assert(s@.take(i + 1).drop_last() =~= s@.take(i as int));
        if w > max - used {
            proof {
                lemma_bytes_within(s@, max as nat, i as int);
            }
            let r = slice_string(&x, 0, i);
            assert(r@ =~= s@.take(i as int));
            return r;
        }
        used += w;
        i += 1;
    }
    proof {
        lemma_bytes_within(s@, max as nat, s@.len() as int);
        assert(s@.take(s@.len() as int) =~= s@);
    }
    s.to_owned()
}

/// `byte_count` is the length of the UTF-8 encoding.
pub proof fn lemma_byte_count_is_encoded_len(s: Seq<char>)
    ensures
        byte_count(s) == vstd::utf8::encode_utf8(s).len(),
    decreases s.len(),
{
    if s.len() > 0 {
        let first = seq![s[0]];
        let rest = s.drop_first();
        assert(s =~= first + rest);
        lemma_byte_count_add(first, rest);
        lemma_byte_count_is_encoded_len(rest);
        assert(first.drop_last() =~= seq![]);
        assert(byte_count(first) == char_width(s[0])) by {
            assert(byte_count(first.drop_last()) == 0);
        }
        vstd::utf8::char_is_scalar(s[0]);
    }
}

/// The length of `s` in bytes.
pub fn byte_len(s: &str) -> (n: usize)
    ensures
        n == byte_count(s@),
{
    proof {
        lemma_byte_count_is_encoded_len(s@);
    }
    s.as_bytes().len()
}

/// `std::str::from_utf8`, as an owned string: the text that the bytes encode, and
/// `None` where they are not UTF-8.
#[verifier::external_body]
pub(crate) fn decode_utf8(bytes: &[u8]) -> (r: Option<String>)
    ensures
        match r {
            Some(s) => vstd::utf8::valid_utf8(bytes@) && s@ == vstd::utf8::decode_utf8(bytes@),
            None => !vstd::utf8::valid_utf8(bytes@),
        },
{
    std::str::from_utf8(bytes).ok().map(|s| s.to_owned())
}

} // verus!
