//! Tool calls that a person should look at.
//!
//! These are hints for a model that means well, not a boundary: a shell
//! command can hide anything.
use crate::agent::call::ToolCallInfo;
use crate::paths;
use crate::text;
use vstd::prelude::*;

verus! {

/// What is known of the risk of calls.
pub struct RiskPolicy {
    /// The working directory; writes outside it are flagged.
    pub cwd: String,
    /// The tools of which nothing is known. Their calls are always flagged.
    pub opaque_tools: Vec<String>,
}

/// What a `RiskPolicy` stands for.
pub ghost struct PolicyView {
    pub cwd: Seq<char>,
    pub opaque_tools: Seq<Seq<char>>,
}

impl DeepView for RiskPolicy {
    type V = PolicyView;

    open spec fn deep_view(&self) -> PolicyView {
        PolicyView { cwd: self.cwd@, opaque_tools: self.opaque_tools.deep_view() }
    }
}

// ----------------------------------------------------------------- commands
/// What separates the commands of a line.
pub open spec fn separators() -> Seq<char> {
    seq!['\n', ';', '|', '&', '(', ')', '`']
}

/// The commands of a line, roughly: quoting is not minded.
pub open spec fn segments_of(command: Seq<char>) -> Seq<Seq<char>> {
    text::spec_split(command, separators()).map_values(|s: Seq<char>| text::spec_trim(s))
}

/// What follows the last slash.
pub open spec fn base_name(word: Seq<char>) -> Seq<char> {
    match text::spec_rfind(word, "/"@) {
        Some(i) => word.skip(i + 1),
        None => word,
    }
}

/// The command that a segment begins with.
pub open spec fn head_of(segment: Seq<char>) -> Option<Seq<char>> {
    let words = text::spec_words(segment);
    if words.len() > 0 {
        Some(base_name(words[0]))
    } else {
        None
    }
}

/// Whether a command fetches or decodes what a shell could run.
pub open spec fn is_fetch(head: Seq<char>) -> bool {
    head == "curl"@ || head == "wget"@ || head == "base64"@
}

/// Whether a command is a shell.
pub open spec fn is_shell(head: Seq<char>) -> bool {
    head == "sh"@ || head == "bash"@ || head == "zsh"@ || head == "dash"@
}

/// Whether a segment begins with a command that fetches.
pub open spec fn fetches(segment: Seq<char>) -> bool {
    head_of(segment) matches Some(h) && is_fetch(h)
}

/// Whether a segment begins with a shell.
pub open spec fn runs_shell(segment: Seq<char>) -> bool {
    head_of(segment) matches Some(h) && is_shell(h)
}

/// The words without the variable assignments in front.
pub open spec fn skip_assignments(words: Seq<Seq<char>>) -> Seq<Seq<char>>
    decreases words.len(),
{
    if words.len() > 0 && text::has(words[0], "="@) && !text::begins(words[0], "-"@) {
        skip_assignments(words.skip(1))
    } else {
        words
    }
}

/// Whether a word is this flag, or a bundle of short flags that holds it.
pub open spec fn is_flag(word: Seq<char>, long: Seq<char>, short: Seq<char>) -> bool {
    word == long || (text::begins(word, "-"@) && !text::begins(word, "--"@) && text::has(
        word,
        short,
    ))
}

/// Whether a flag is among the words.
pub open spec fn has_flag(words: Seq<Seq<char>>, long: Seq<char>, short: Seq<char>) -> bool {
    exists|i: int| 0 <= i < words.len() && is_flag(#[trigger] words[i], long, short)
}

/// Whether a word with this beginning is among the words.
pub open spec fn has_prefix(words: Seq<Seq<char>>, prefix: Seq<char>) -> bool {
    exists|i: int| 0 <= i < words.len() && text::begins(#[trigger] words[i], prefix)
}

/// The risk of a git command.
pub open spec fn git_risk(rest: Seq<Seq<char>>) -> Option<Seq<char>> {
    if rest.contains("reset"@) && rest.contains("--hard"@) {
        Some("git reset --hard (discards uncommitted work)"@)
    } else if rest.contains("clean"@) && (has_flag(rest, "--force"@, "f"@) || has_flag(
        rest,
        "--force"@,
        "d"@,
    )) {
        Some("git clean -f (deletes untracked files)"@)
    } else if rest.contains("checkout"@) && has_flag(rest, "--force"@, "f"@) {
        Some("git checkout --force (discards local changes)"@)
    } else if rest.contains("push"@) && (has_flag(rest, "--force"@, "f"@) || has_prefix(
        rest,
        "--force"@,
    )) {
        Some("git push --force (rewrites remote history)"@)
    } else {
        None
    }
}

/// The risk of a command with these arguments.
pub open spec fn head_risk(head: Seq<char>, rest: Seq<Seq<char>>) -> Option<Seq<char>> {
    if head == "sudo"@ || head == "doas"@ {
        Some("runs as another user (sudo)"@)
    } else if head == "eval"@ {
        Some("eval: the command cannot be inspected"@)
    } else if head == "rm"@ && (has_flag(rest, "--recursive"@, "r"@) || has_flag(
        rest,
        "--recursive"@,
        "R"@,
    )) {
        Some("recursive delete"@)
    } else if head == "git"@ {
        git_risk(rest)
    } else if (head == "chmod"@ || head == "chown"@) && has_flag(rest, "--recursive"@, "R"@) {
        Some("recursive permission change"@)
    } else if head == "find"@ && (has_prefix(rest, "-exec"@) || rest.contains("-delete"@)) {
        Some("find -exec/-delete"@)
    } else if head == "mkfs"@ || head == "fdisk"@ || head == "dd"@ || head == "shred"@ || head
        == "diskutil"@ {
        Some("disk/device level command"@)
    } else if head == "crontab"@ || head == "launchctl"@ || head == "systemctl"@ {
        Some("installs or changes a background job"@)
    } else {
        None
    }
}

/// Whether a word names a device that matters.
pub open spec fn is_device(word: Seq<char>) -> bool {
    text::begins(word, "/dev/"@) && word != "/dev/null"@ && word != "/dev/stdout"@ && word
        != "/dev/stderr"@ && word != "/dev/tty"@ && word != "/dev/urandom"@ && word != "/dev/random"@
        && word != "/dev/zero"@
}

/// Whether `c` ends a word of a segment.
pub open spec fn ends_target(c: char) -> bool {
    text::is_white(c) || c == '>' || c == '<'
}

/// Whether a device is among the words of `rest`, where words end at white
/// space, `<` and `>`; `cur` is what has been read of the current word.
pub open spec fn device_go(cur: Seq<char>, rest: Seq<char>) -> bool
    decreases rest.len(),
{
    if rest.len() == 0 {
        is_device(cur)
    } else if ends_target(rest[0]) {
        is_device(cur) || device_go(seq![], rest.skip(1))
    } else {
        device_go(cur.push(rest[0]), rest.skip(1))
    }
}

/// The risk of one command of a line.
pub open spec fn segment_risk(segment: Seq<char>) -> Option<Seq<char>> {
    let words = skip_assignments(text::spec_words(segment));
    if words.len() == 0 {
        None
    } else if text::has(words[0], "$"@) {
        Some("the command name is built from a shell expansion"@)
    } else {
        match head_risk(base_name(words[0]), words.skip(1)) {
            Some(reason) => Some(reason),
            None => if device_go(seq![], segment) {
                Some("writes to a device file"@)
            } else {
                None
            },
        }
    }
}

/// The risk of the first command, from `from` on, that has one.
pub open spec fn segments_risk(segments: Seq<Seq<char>>, from: int) -> Option<Seq<char>>
    decreases segments.len() - from,
{
    if from < 0 || from >= segments.len() {
        None
    } else {
        match segment_risk(segments[from]) {
            Some(reason) => Some(reason),
            None => segments_risk(segments, from + 1),
        }
    }
}

/// The risk of a command line. One that fetches and runs a shell, in whatever
/// order, is flagged for that first.
pub open spec fn line_risk(command: Seq<char>) -> Option<Seq<char>> {
    let segments = segments_of(command);
    if (exists|i: int| 0 <= i < segments.len() && fetches(#[trigger] segments[i])) && (exists|
        i: int,
    |
        0 <= i < segments.len() && runs_shell(#[trigger] segments[i])) {
        Some("pipes downloaded content into a shell"@)
    } else {
        segments_risk(segments, 0)
    }
}

fn segments(command: &str) -> (out: Vec<String>)
    ensures
        out.deep_view() == segments_of(command@),
{
    let marks: [char; 7] = ['\n', ';', '|', '&', '(', ')', '`'];
    assert(marks@ =~= separators());
    let pieces = text::split(command, &marks);
    let ghost view = pieces.deep_view();
    let mut out: Vec<String> = Vec::new();
    assert(out.deep_view() =~= seq![]);
    let mut i: usize = 0;
    while i < pieces.len()
        invariant
            i <= pieces.len(),
            view == pieces.deep_view(),
            out.deep_view() == view.take(i as int).map_values(|s: Seq<char>| text::spec_trim(s)),
        decreases pieces.len() - i,
    {
        text::put(&mut out, text::trim(&pieces[i]));
        assert(out.deep_view() =~= view.take(i + 1).map_values(
            |s: Seq<char>| text::spec_trim(s),
        ));
        i += 1;
    }
    assert(view.take(view.len() as int) =~= view);
    out
}

fn last_part(word: &str) -> (r: String)
    ensures
        r@ == base_name(word@),
{
    proof {
        reveal_strlit("/");
    }
    match text::rfind(word, "/") {
        Some(i) => {
            let r = text::sub_string(word, i + 1, text::count(word));
            assert(r@ =~= word@.skip(i + 1));
            r
        },
        None => word.to_owned(),
    }
}

fn head(segment: &str) -> (r: Option<String>)
    ensures
        r.deep_view() == head_of(segment@),
{
    let words = text::words(segment);
    assert(words@.len() > 0 ==> words.deep_view()[0] == words@[0]@);
    if words.len() > 0 {
        Some(last_part(&words[0]))
    } else {
        None
    }
}

fn any_flag(words: &[String], long: &str, short: &str) -> (r: bool)
    ensures
        r == has_flag(words.deep_view(), long@, short@),
{
    let ghost view = words.deep_view();
    let mut i: usize = 0;
    while i < words.len()
        invariant
            i <= words.len(),
            view == words.deep_view(),
            forall|k: int| 0 <= k < i ==> !is_flag(#[trigger] view[k], long@, short@),
        decreases words.len() - i,
    {
        let word = &words[i];
        assert(view[i as int] == word@);
        if text::same(word, long) || (text::starts_with(word, "-") && !text::starts_with(word, "--")
            && text::contains(word, short)) {
            return true;
        }
        i += 1;
    }
    false
}

fn any_prefix(words: &[String], prefix: &str) -> (r: bool)
    ensures
        r == has_prefix(words.deep_view(), prefix@),
{
    let ghost view = words.deep_view();
    let mut i: usize = 0;
    while i < words.len()
        invariant
            i <= words.len(),
            view == words.deep_view(),
            forall|k: int| 0 <= k < i ==> !text::begins(#[trigger] view[k], prefix@),
        decreases words.len() - i,
    {
        assert(view[i as int] == words@[i as int]@);
        if text::starts_with(&words[i], prefix) {
            return true;
        }
        i += 1;
    }
    false
}

fn risk_of_git(rest: &[String]) -> (r: Option<&'static str>)
    ensures
        r.deep_view() == git_risk(rest.deep_view()),
{
    if text::contains_text(rest, "reset") && text::contains_text(rest, "--hard") {
        Some("git reset --hard (discards uncommitted work)")
    } else if text::contains_text(rest, "clean") && (any_flag(rest, "--force", "f") || any_flag(
        rest,
        "--force",
        "d",
    )) {
        Some("git clean -f (deletes untracked files)")
    } else if text::contains_text(rest, "checkout") && any_flag(rest, "--force", "f") {
        Some("git checkout --force (discards local changes)")
    } else if text::contains_text(rest, "push") && (any_flag(rest, "--force", "f") || any_prefix(
        rest,
        "--force",
    )) {
        Some("git push --force (rewrites remote history)")
    } else {
        None
    }
}

fn risk_of_head(head: &str, rest: &[String]) -> (r: Option<&'static str>)
    ensures
        r.deep_view() == head_risk(head@, rest.deep_view()),
{
    if text::same(head, "sudo") || text::same(head, "doas") {
        Some("runs as another user (sudo)")
    } else if text::same(head, "eval") {
        Some("eval: the command cannot be inspected")
    } else if text::same(head, "rm") && (any_flag(rest, "--recursive", "r") || any_flag(
        rest,
        "--recursive",
        "R",
    )) {
        Some("recursive delete")
    } else if text::same(head, "git") {
        risk_of_git(rest)
    } else if (text::same(head, "chmod") || text::same(head, "chown")) && any_flag(
        rest,
        "--recursive",
        "R",
    ) {
        Some("recursive permission change")
    } else if text::same(head, "find") && (any_prefix(rest, "-exec") || text::contains_text(
        rest,
        "-delete",
    )) {
        Some("find -exec/-delete")
    } else if text::same(head, "mkfs") || text::same(head, "fdisk") || text::same(head, "dd")
        || text::same(head, "shred") || text::same(head, "diskutil") {
        Some("disk/device level command")
    } else if text::same(head, "crontab") || text::same(head, "launchctl") || text::same(
        head,
        "systemctl",
    ) {
        Some("installs or changes a background job")
    } else {
        None
    }
}

fn names_device(word: &str) -> (r: bool)
    ensures
        r == is_device(word@),
{
    text::starts_with(word, "/dev/") && !text::same(word, "/dev/null") && !text::same(
        word,
        "/dev/stdout",
    ) && !text::same(word, "/dev/stderr") && !text::same(word, "/dev/tty") && !text::same(
        word,
        "/dev/urandom",
    ) && !text::same(word, "/dev/random") && !text::same(word, "/dev/zero")
}

fn targets_device(segment: &str) -> (r: bool)
    ensures
        r == device_go(seq![], segment@),
{
    let x = text::chars_of(segment);
    let mut cur = String::new();
    let mut i: usize = 0;
    assert(segment@.skip(0) =~= segment@);
    assert(cur@ =~= seq![]);
    while i < x.len()
        invariant
            x@ == segment@,
            i <= x.len(),
            device_go(seq![], segment@) == device_go(cur@, segment@.skip(i as int)),
        decreases x.len() - i,
    {
        assert(segment@.skip(i as int).skip(1) =~= segment@.skip(i + 1));
        let c = x[i];
        if text::is_whitespace(c) || c == '>' || c == '<' {
            if names_device(&cur) {
                return true;
            }
            cur = String::new();
            assert(cur@ =~= seq![]);
        } else {
            cur.push(c);
        }
        i += 1;
    }
    names_device(&cur)
}

fn risk_of_segment(segment: &str) -> (r: Option<&'static str>)
    ensures
        r.deep_view() == segment_risk(segment@),
{
    let words = text::words(segment);
    let ghost view = words.deep_view();
    let mut i: usize = 0;
    assert(view.skip(0) =~= view);
    loop
        invariant
            i <= words.len(),
            view == words.deep_view(),
            skip_assignments(view) == skip_assignments(view.skip(i as int)),
        ensures
            i <= words.len(),
            skip_assignments(view) == view.skip(i as int),
        decreases words.len() - i,
    {
        if i >= words.len() {
            break;
        }
        assert(view.skip(i as int)[0] == words@[i as int]@);
        if !(text::contains(&words[i], "=") && !text::starts_with(&words[i], "-")) {
            break;
        }
        assert(view.skip(i as int).skip(1) =~= view.skip(i + 1));
        i += 1;
    }
    if i >= words.len() {
        return None;
    }
    assert(view.skip(i as int)[0] == words@[i as int]@);
    let raw_head = &words[i];
    if text::contains(raw_head, "$") {
        return Some("the command name is built from a shell expansion");
    }
    let rest = vstd::slice::slice_subrange(words.as_slice(), i + 1, words.len());
    assert(rest.deep_view() =~= view.skip(i as int).skip(1));
    match risk_of_head(&last_part(raw_head), rest) {
        Some(reason) => Some(reason),
        None => {
            if targets_device(segment) {
                Some("writes to a device file")
            } else {
                None
            }
        },
    }
}

/// The risk of a command line.
pub fn command_risk(command: &str) -> (r: Option<&'static str>)
    ensures
        r.deep_view() == line_risk(command@),
{
    let parts = segments(command);
    let ghost view = parts.deep_view();
    let mut fetch = false;
    let mut shell = false;
    let mut i: usize = 0;
    while i < parts.len()
        invariant
            i <= parts.len(),
            view == parts.deep_view(),
            fetch == exists|k: int| 0 <= k < i && fetches(#[trigger] view[k]),
            shell == exists|k: int| 0 <= k < i && runs_shell(#[trigger] view[k]),
        decreases parts.len() - i,
    {
        assert(view[i as int] == parts@[i as int]@);
        if let Some(h) = head(&parts[i]) {
            if text::same(&h, "curl") || text::same(&h, "wget") || text::same(&h, "base64") {
                fetch = true;
                assert(fetches(view[i as int]));
            }
            if text::same(&h, "sh") || text::same(&h, "bash") || text::same(&h, "zsh")
                || text::same(&h, "dash") {
                shell = true;
                assert(runs_shell(view[i as int]));
            }
        }
        i += 1;
    }
    if fetch && shell {
        return Some("pipes downloaded content into a shell");
    }
    let mut k: usize = 0;
    while k < parts.len()
        invariant
            k <= parts.len(),
            view == parts.deep_view(),
            segments_risk(view, 0) == segments_risk(view, k as int),
            line_risk(command@) == segments_risk(view, 0),
        decreases parts.len() - k,
    {
        assert(view[k as int] == parts@[k as int]@);
        match risk_of_segment(&parts[k]) {
            Some(reason) => return Some(reason),
            None => {},
        }
        k += 1;
    }
    None
}

// ------------------------------------------------------------------ policy
impl PolicyView {
    /// The risk of writing to a path: outside the working directory, or among
    /// what git keeps.
    pub open spec fn path_risk(self, path: Seq<char>) -> Option<Seq<char>> {
        let target = paths::resolved(paths::components(paths::joined(self.cwd, path)));
        if !paths::components(self.cwd).is_prefix_of(target) {
            Some("writes outside the workspace: "@ + paths::written(target))
        } else if target.contains(".git"@) {
            Some("writes inside .git (hooks/config run on your next command)"@)
        } else {
            None
        }
    }

    /// The risk of a call.
    pub open spec fn risk(self, call: crate::agent::call::CallInfoView) -> Option<Seq<char>> {
        let by_command = match call.arguments.text_field("command"@) {
            Some(command) => line_risk(command),
            None => None,
        };
        if self.opaque_tools.contains(call.name) {
            Some(
                "plugin tool `"@ + call.name + "` — the host cannot inspect what it does"@,
            )
        } else if by_command is Some {
            by_command
        } else if call.name == "write"@ || call.name == "edit"@ {
            match call.arguments.text_field("path"@) {
                Some(path) => self.path_risk(path),
                None => None,
            }
        } else {
            None
        }
    }
}

impl RiskPolicy {
    /// The risk of a call, in words. A tool with a command is a shell, whatever
    /// its name.
    pub fn risk(&self, call: &ToolCallInfo) -> (r: Option<String>)
        ensures
            r.deep_view() == self.deep_view().risk(call.deep_view()),
    {
        if text::contains_text(&self.opaque_tools, &call.name) {
            return Some(
                text::concat3(
                    "plugin tool `",
                    &call.name,
                    "` — the host cannot inspect what it does",
                ),
            );
        }
        if let Some(command) = call.arguments.get_str("command") {
            if let Some(reason) = command_risk(command) {
                return Some(reason.to_owned());
            }
        }
        if text::same(&call.name, "write") || text::same(&call.name, "edit") {
            if let Some(path) = call.arguments.get_str("path") {
                return self.path_risk(path);
            }
        }
        None
    }

    fn path_risk(&self, path: &str) -> (r: Option<String>)
        ensures
            r.deep_view() == self.deep_view().path_risk(path@),
    {
        let target = paths::resolve(&paths::join(&self.cwd, path));
        let base = paths::components_of(&self.cwd);
        if !paths::is_under(&target, &base) {
            return Some(text::concat("writes outside the workspace: ", &paths::write(&target)));
        }
        if text::contains_text(&target, ".git") {
            return Some("writes inside .git (hooks/config run on your next command)".to_owned());
        }
        None
    }
}

// --------------------------------------------------------------------- laws
/// A call of a tool of which nothing is known is always flagged.
pub proof fn law_opaque_tools_are_flagged(
    policy: PolicyView,
    call: crate::agent::call::CallInfoView,
)
    requires
        policy.opaque_tools.contains(call.name),
    ensures
        policy.risk(call) is Some,
{
}

/// What is flagged does not depend on the name of a tool that takes a command.
pub proof fn law_command_is_judged_whatever_the_name(
    policy: PolicyView,
    call: crate::agent::call::CallInfoView,
    command: Seq<char>,
)
    requires
        call.arguments.text_field("command"@) == Some(command),
        line_risk(command) is Some,
    ensures
        policy.risk(call) is Some,
{
}

/// A write that is not flagged ends up under the working directory, and not
/// among what git keeps.
pub proof fn law_unflagged_writes_stay_inside(policy: PolicyView, path: Seq<char>)
    requires
        policy.path_risk(path) is None,
    ensures
        ({
            let target = paths::resolved(paths::components(paths::joined(policy.cwd, path)));
            paths::components(policy.cwd).is_prefix_of(target) && !target.contains(".git"@)
                && !target.contains(".."@)
        }),
{
    paths::law_resolved_has_no_dots(paths::components(paths::joined(policy.cwd, path)));
}

} // verus!
