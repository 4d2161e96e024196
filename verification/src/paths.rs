//! Paths, as they are written on Unix.
use crate::text;
use vstd::prelude::*;

verus! {

/// The parts among `pieces` that count: empty ones do not, nor does `.`, except
/// at the beginning of a relative path.
pub open spec fn kept_parts(pieces: Seq<Seq<char>>, absolute: bool) -> Seq<Seq<char>>
    decreases pieces.len(),
{
    if pieces.len() == 0 {
        seq![]
    } else {
        let before = kept_parts(pieces.drop_last(), absolute);
        let last = pieces.last();
        if last.len() == 0 || (last == "."@ && (absolute || pieces.len() > 1)) {
            before
        } else {
            before.push(last)
        }
    }
}

/// Whether a path begins at the root.
pub open spec fn absolute(path: Seq<char>) -> bool {
    path.len() > 0 && path[0] == '/'
}

/// The components of a path; the root is `/`.
pub open spec fn components(path: Seq<char>) -> Seq<Seq<char>> {
    let parts = kept_parts(text::spec_split(path, seq!['/']), absolute(path));
    if absolute(path) {
        seq!["/"@] + parts
    } else {
        parts
    }
}

/// Whether a path begins at the root.
pub fn is_absolute(path: &str) -> (r: bool)
    ensures
        r == absolute(path@),
{
    let chars = text::chars_of(path);
    chars.len() > 0 && chars[0] == '/'
}

/// The components of a path.
pub fn components_of(path: &str) -> (out: Vec<String>)
    ensures
        out.deep_view() == components(path@),
{
    let at_root = is_absolute(path);
    let slash: [char; 1] = ['/'];
    assert(slash@ =~= seq!['/']);
    let pieces = text::split(path, &slash);
    let ghost view = pieces.deep_view();
    let mut out: Vec<String> = Vec::new();
    assert(out.deep_view() =~= seq![]);
    if at_root {
        text::put(&mut out, "/".to_owned());
    }
    let ghost first = out.deep_view();
    let mut i: usize = 0;
    assert(view.take(0) =~= seq![]);
    while i < pieces.len()
        invariant
            i <= pieces.len(),
            view == pieces.deep_view(),
            out.deep_view() == first + kept_parts(view.take(i as int), at_root),
        decreases pieces.len() - i,
    {
        assert(view.take(i + 1).drop_last() =~= view.take(i as int));
        assert(view.take(i + 1).last() == pieces@[i as int]@);
        let piece = &pieces[i];
        if text::count(piece) == 0 || (text::same(piece, ".") && (at_root || i > 0)) {
        } else {
            text::put(&mut out, piece.clone());
        }
        i += 1;
    }
    assert(view.take(view.len() as int) =~= view);
    out
}

/// A path under `base`; an absolute path stands for itself.
pub open spec fn joined(base: Seq<char>, path: Seq<char>) -> Seq<char> {
    if absolute(path) || base.len() == 0 {
        path
    } else if base.last() == '/' {
        base + path
    } else {
        base + "/"@ + path
    }
}

/// A path under `base`.
pub fn join(base: &str, path: &str) -> (r: String)
    ensures
        r@ == joined(base@, path@),
{
    let n = text::count(base);
    if is_absolute(path) || n == 0 {
        path.to_owned()
    } else {
        let chars = text::chars_of(base);
        if chars[n - 1] == '/' {
            text::concat(base, path)
        } else {
            text::concat3(base, "/", path)
        }
    }
}

/// The components left when `.` is left out and `..` takes away what stands
/// before it; the root stays.
pub open spec fn resolved(parts: Seq<Seq<char>>) -> Seq<Seq<char>>
    decreases parts.len(),
{
    if parts.len() == 0 {
        seq![]
    } else {
        let before = resolved(parts.drop_last());
        let last = parts.last();
        if last == "."@ {
            before
        } else if last == ".."@ {
            if before.len() > 0 && before.last() != "/"@ {
                before.drop_last()
            } else {
                before
            }
        } else {
            before.push(last)
        }
    }
}

/// The components of a path without `.` and `..`.
pub fn resolve(path: &str) -> (out: Vec<String>)
    ensures
        out.deep_view() == resolved(components(path@)),
{
    let parts = components_of(path);
    let ghost view = parts.deep_view();
    let mut out: Vec<String> = Vec::new();
    assert(out.deep_view() =~= seq![]);
    let mut i: usize = 0;
    assert(view.take(0) =~= seq![]);
    while i < parts.len()
        invariant
            i <= parts.len(),
            view == parts.deep_view(),
            out.deep_view() == resolved(view.take(i as int)),
        decreases parts.len() - i,
    {
        assert(view.take(i + 1).drop_last() =~= view.take(i as int));
        assert(view.take(i + 1).last() == parts@[i as int]@);
        let part = &parts[i];
        if text::same(part, ".") {
        } else if text::same(part, "..") {
            let n = out.len();
            assert(n > 0 ==> out.deep_view().last() == out@[n - 1]@);
            if n > 0 && !text::same(&out[n - 1], "/") {
                let ghost before = out.deep_view();
                out.pop();
                assert(out.deep_view() =~= before.drop_last());
            }
        } else {
            text::put(&mut out, part.clone());
        }
        i += 1;
    }
    assert(view.take(view.len() as int) =~= view);
    out
}

/// The path that components write.
pub open spec fn written(parts: Seq<Seq<char>>) -> Seq<char> {
    if parts.len() > 0 && parts[0] == "/"@ {
        "/"@ + text::spec_join(parts.skip(1), "/"@)
    } else {
        text::spec_join(parts, "/"@)
    }
}

/// The path that components write.
pub fn write(parts: &[String]) -> (r: String)
    ensures
        r@ == written(parts.deep_view()),
{
    let ghost view = parts.deep_view();
    assert(parts@.len() > 0 ==> view[0] == parts@[0]@);
    if parts.len() > 0 && text::same(&parts[0], "/") {
        let rest = vstd::slice::slice_subrange(parts, 1, parts.len());
        assert(rest.deep_view() =~= view.skip(1));
        text::concat("/", &text::join(rest, "/"))
    } else {
        text::join(parts, "/")
    }
}

/// Whether the components `parts` begin with those of `base`.
pub fn is_under(parts: &[String], base: &[String]) -> (r: bool)
    ensures
        r == base.deep_view().is_prefix_of(parts.deep_view()),
{
    if base.len() > parts.len() {
        return false;
    }
    let mut i: usize = 0;
    while i < base.len()
        invariant
            i <= base@.len() <= parts@.len(),
            forall|k: int| 0 <= k < i ==> base.deep_view()[k] == parts.deep_view()[k],
        decreases base.len() - i,
    {
        assert(base.deep_view()[i as int] == base@[i as int]@);
        assert(parts.deep_view()[i as int] == parts@[i as int]@);
        if !text::same(&base[i], &parts[i]) {
            assert(parts.deep_view().subrange(0, base@.len() as int)[i as int]
                != base.deep_view()[i as int]);
            return false;
        }
        i += 1;
    }
    assert(base.deep_view() =~= parts.deep_view().subrange(0, base@.len() as int));
    true
}

/// A resolved path holds no `..`, and `.` not either.
pub proof fn law_resolved_has_no_dots(parts: Seq<Seq<char>>)
    ensures
        !resolved(parts).contains(".."@),
        !resolved(parts).contains("."@),
    decreases parts.len(),
{
    if parts.len() > 0 {
        law_resolved_has_no_dots(parts.drop_last());
        let before = resolved(parts.drop_last());
        let after = resolved(parts);
        assert forall|k: int| 0 <= k < after.len() implies #[trigger] after[k] != ".."@ && after[k]
            != "."@ by {
            if k < before.len() {
                assert(before.contains(before[k]));
            }
        }
    }
}

} // verus!
