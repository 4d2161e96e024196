//! Sessions in git worktrees of their own.
use crate::paths;
use crate::text;
use vstd::prelude::*;

verus! {

/// A character of a slug: letters, digits, `-` and `_` stay, all else is `-`.
pub open spec fn slug_char(c: char) -> char {
    if text::is_alnum(c) || c == '-' || c == '_' {
        c
    } else {
        '-'
    }
}

/// A name that can stand in a branch and a directory.
pub open spec fn slug_of(name: Seq<char>) -> Seq<char> {
    name.map_values(|c: char| slug_char(c))
}

/// A name that can stand in a branch and a directory.
pub fn sanitize_slug(name: &str) -> (r: String)
    ensures
        r@ == slug_of(name@),
{
    let mut r = String::new();
    for c in it: name.chars()
        invariant
            it.seq() == name@,
            r@ == slug_of(name@.take(it.index() as int)),
    {
        if text::is_ascii_alphanumeric(c) || c == '-' || c == '_' {
            r.push(c);
        } else {
            r.push('-');
        }
    }
    assert(name@.take(name@.len() as int) =~= name@);
    r
}

/// The last part of the repository's path, or `repo`.
pub open spec fn repo_name(top: Seq<char>) -> Seq<char> {
    let name = crate::agent::risk::base_name(text::spec_trim(top));
    if name.len() > 0 {
        name
    } else {
        "repo"@
    }
}

/// The name of the repository, given what git says of its top directory.
pub fn repo_slug(top: &str) -> (r: String)
    ensures
        r@ == repo_name(top@),
{
    let trimmed = text::trim(top);
    proof {
        reveal_strlit("/");
    }
    let name = match text::rfind(&trimmed, "/") {
        Some(i) => {
            let rest = text::sub_string(&trimmed, i + 1, text::count(&trimmed));
            assert(rest@ =~= trimmed@.skip(i + 1));
            rest
        },
        None => trimmed,
    };
    if text::count(&name) > 0 {
        name
    } else {
        "repo".to_owned()
    }
}

/// The slug of a session: its name, or that of the repository where it has
/// none.
pub open spec fn session_slug(name: Option<Seq<char>>, top: Seq<char>) -> Seq<char> {
    match name {
        Some(n) => if n.len() > 0 {
            slug_of(n)
        } else {
            repo_name(top)
        },
        None => repo_name(top),
    }
}

/// Where a session works: its branch and its directory.
pub struct WorktreePlan {
    pub branch: String,
    pub dir: String,
}

/// Where a new session works, or why it cannot: outside a repository there are
/// no worktrees.
pub fn create_worktree(
    is_repo: bool,
    name: Option<&str>,
    top: &str,
    agent_dir: &str,
    timestamp: &str,
) -> (r: Result<WorktreePlan, String>)
    ensures
        ({
            let slug = session_slug(
                match name {
                    Some(n) => Some(n@),
                    None => None,
                },
                top@,
            ) + "-"@ + timestamp@;
            if is_repo {
                r matches Ok(plan) && plan.branch@ == "agent-m/"@ + slug && plan.dir@
                    == paths::joined(paths::joined(agent_dir@, "worktrees"@), slug)
            } else {
                r matches Err(m) && m@ == "--worktree requires a git repository"@
            }
        }),
{
    if !is_repo {
        return Err("--worktree requires a git repository".to_owned());
    }
    let base = match name {
        Some(n) => {
            let s = sanitize_slug(n);
            if text::count(&s) > 0 {
                s
            } else {
                repo_slug(top)
            }
        },
        None => repo_slug(top),
    };
    let slug = text::concat3(&base, "-", timestamp);
    let branch = text::concat("agent-m/", &slug);
    let dir = paths::join(&paths::join(agent_dir, "worktrees"), &slug);
    Ok(WorktreePlan { branch, dir })
}

/// What follows the word `worktree` and a space, however often that stands
/// there.
pub open spec fn after_word(line: Seq<char>) -> Seq<char>
    decreases line.len(),
{
    match text::without_prefix(line, "worktree "@) {
        Some(rest) => if rest.len() < line.len() {
            after_word(rest)
        } else {
            rest
        },
        None => line,
    }
}

/// The paths in the lines that name a worktree.
pub open spec fn worktree_paths(lines: Seq<Seq<char>>) -> Seq<Seq<char>>
    decreases lines.len(),
{
    if lines.len() == 0 {
        seq![]
    } else {
        let before = worktree_paths(lines.drop_last());
        if text::begins(lines.last(), "worktree "@) {
            before.push(after_word(lines.last()))
        } else {
            before
        }
    }
}

fn strip_word(line: &str) -> (r: String)
    ensures
        r@ == after_word(line@),
{
    let mut rest = line.to_owned();
    loop
        invariant
            after_word(line@) == after_word(rest@),
        decreases rest@.len(),
    {
        match text::strip_prefix(&rest, "worktree ") {
            Some(r) => {
                proof {
                    reveal_strlit("worktree ");
                }
                rest = r;
            },
            None => return rest,
        }
    }
}

/// The paths of the worktrees, from what `git worktree list --porcelain` says.
pub fn list_worktrees(output: &str) -> (out: Vec<String>)
    ensures
        out.deep_view() == worktree_paths(text::spec_lines(output@)),
{
    let lines = text::lines(output);
    let ghost view = lines.deep_view();
    let mut out: Vec<String> = Vec::new();
    assert(out.deep_view() =~= seq![]);
    let mut i: usize = 0;
    assert(view.take(0) =~= seq![]);
    while i < lines.len()
        invariant
            i <= lines.len(),
            view == lines.deep_view(),
            out.deep_view() == worktree_paths(view.take(i as int)),
        decreases lines.len() - i,
    {
        assert(view.take(i + 1).drop_last() =~= view.take(i as int));
        assert(view.take(i + 1).last() == lines@[i as int]@);
        if text::starts_with(&lines[i], "worktree ") {
            text::put(&mut out, strip_word(&lines[i]));
        }
        i += 1;
    }
    assert(view.take(view.len() as int) =~= view);
    out
}

/// The worktree to remove, given where the session is and all worktrees, or why
/// it is not removed: the main checkout stays.
pub fn remove_worktree(top: &str, worktrees: &[String]) -> (r: Result<String, String>)
    ensures
        ({
            let here = text::spec_trim(top@);
            let list = worktrees.deep_view();
            if list.len() == 1 || (list.len() > 0 && list[0] == here) {
                r matches Err(m) && m@
                    == "cannot remove the main worktree — use `/sessions` or plain git instead"@
            } else {
                r matches Ok(path) && path@ == here
            }
        }),
{
    let here = text::trim(top);
    assert(worktrees@.len() > 0 ==> worktrees.deep_view()[0] == worktrees@[0]@);
    if worktrees.len() == 1 || (worktrees.len() > 0 && text::same(&worktrees[0], &here)) {
        return Err(
            "cannot remove the main worktree — use `/sessions` or plain git instead".to_owned(),
        );
    }
    Ok(here)
}

/// A slug holds nothing but letters, digits, `-` and `_`.
pub proof fn law_slug_is_plain(name: Seq<char>, i: int)
    requires
        0 <= i < name.len(),
    ensures
        text::is_alnum(slug_of(name)[i]) || slug_of(name)[i] == '-' || slug_of(name)[i] == '_',
{
}

} // verus!
