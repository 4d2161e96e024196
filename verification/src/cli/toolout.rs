//! Tool outputs: what is kept of them, and how calls are shown.
use crate::dup::Dup;
use crate::json::{self, Json};
use crate::text;
use vstd::prelude::*;

verus! {

/// The output of a tool.
pub struct StoredOutput {
    pub name: String,
    pub full: String,
}

/// What a `StoredOutput` stands for.
pub ghost struct OutputView {
    pub name: Seq<char>,
    pub full: Seq<char>,
}

impl DeepView for StoredOutput {
    type V = OutputView;

    open spec fn deep_view(&self) -> OutputView {
        OutputView { name: self.name@, full: self.full@ }
    }
}

impl Dup for StoredOutput {
    fn dup(&self) -> (r: Self) {
        StoredOutput { name: self.name.dup(), full: self.full.dup() }
    }
}

/// The last outputs of tools.
pub struct ToolStore {
    entries: Vec<StoredOutput>,
}

/// How many outputs are kept.
pub const MAX_STORED: usize = 20;

/// How long a summary may be.
pub const MAX_SUMMARY_CHARS: usize = 120;

/// How long the description of a call may be.
pub const MAX_HUMANIZE_CHARS: usize = 80;

impl View for ToolStore {
    type V = Seq<OutputView>;

    closed spec fn view(&self) -> Seq<OutputView> {
        self.entries.deep_view()
    }
}

/// The outputs that are kept of these.
pub open spec fn kept(entries: Seq<OutputView>) -> Seq<OutputView> {
    if entries.len() > MAX_STORED {
        entries.skip(entries.len() - MAX_STORED)
    } else {
        entries
    }
}

/// The output that a selector names: the last one, or the one so many from the
/// end.
pub open spec fn selected(entries: Seq<OutputView>, selector: Seq<char>) -> Option<OutputView> {
    let s = text::spec_trim(selector);
    if s == ""@ || s == "last"@ || s == "latest"@ {
        if entries.len() > 0 {
            Some(entries.last())
        } else {
            None
        }
    } else {
        match text::spec_parse(s, usize::MAX as nat) {
            Some(n) => if 0 < n <= entries.len() {
                Some(entries[entries.len() - n])
            } else {
                None
            },
            None => None,
        }
    }
}

/// The lines of a list, the number of each counted from the end.
pub open spec fn list_lines(entries: Seq<OutputView>, upto: int) -> Seq<char>
    decreases upto,
{
    if upto <= 0 {
        seq![]
    } else {
        list_lines(entries, upto - 1) + "  "@ + text::spec_decimal(
            (entries.len() - (upto - 1)) as nat,
        ) + ". ["@ + entries[upto - 1].name + "]\n"@
    }
}

/// The list of the outputs.
pub open spec fn list_of(entries: Seq<OutputView>) -> Seq<char> {
    if entries.len() == 0 {
        "No tool outputs recorded this session."@
    } else {
        list_lines(entries, entries.len() as int)
    }
}

impl ToolStore {
    /// A store without outputs.
    pub fn new() -> (r: Self)
        ensures
            r@ == Seq::<OutputView>::empty(),
    {
        let entries: Vec<StoredOutput> = Vec::new();
        assert(entries.deep_view() =~= seq![]);
        ToolStore { entries }
    }

    /// Keeps an output; the oldest goes where there are too many.
    pub fn push(&mut self, name: &str, full: String)
        ensures
            final(self)@ == kept(old(self)@.push(OutputView { name: name@, full: full@ })),
    {
        let ghost all = self@.push(OutputView { name: name@, full: full@ });
        text::put(&mut self.entries, StoredOutput { name: name.to_owned(), full });
        let n = self.entries.len();
        if n > MAX_STORED {
            let rest = self.entries.split_off(n - MAX_STORED);
            assert(rest.deep_view() =~= all.skip(n - MAX_STORED));
            self.entries = rest;
        }
    }

    /// The output that a selector names: `last`, `latest`, or a number by which
    /// the most recent one is 1.
    pub fn get(&self, selector: &str) -> (r: Option<StoredOutput>)
        ensures
            r.deep_view() == selected(self@, selector@),
    {
        let s = text::trim(selector);
        let n = self.entries.len();
        if text::same(&s, "") || text::same(&s, "last") || text::same(&s, "latest") {
            return if n > 0 {
                Some(self.entries[n - 1].dup())
            } else {
                None
            };
        }
        match text::parse_number(&s, usize::MAX as u64) {
            Some(k) => {
                if k == 0 || k > n as u64 {
                    None
                } else {
                    Some(self.entries[n - k as usize].dup())
                }
            },
            None => None,
        }
    }

    /// The list of the outputs, the oldest first.
    pub fn list(&self) -> (out: String)
        ensures
            out@ == list_of(self@),
    {
        let n = self.entries.len();
        if n == 0 {
            return "No tool outputs recorded this session.".to_owned();
        }
        let ghost view = self@;
        let mut out = String::new();
        let mut i: usize = 0;
        while i < n
            invariant
                i <= n,
                n == self.entries@.len(),
                view == self@,
                out@ == list_lines(view, i as int),
            decreases n - i,
        {
            assert(view[i as int] == self.entries@[i as int].deep_view());
            out.append("  ");
            out.append(&text::decimal((n - i) as u64));
            out.append(". [");
            out.append(&self.entries[i].name);
            out.append("]\n");
            i += 1;
        }
        out
    }
}

/// No more outputs are kept than may be, and the newest is always kept.
pub proof fn law_store_is_bounded(entries: Seq<OutputView>, new: OutputView)
    ensures
        kept(entries.push(new)).len() <= MAX_STORED,
        kept(entries.push(new)).len() > 0,
        kept(entries.push(new)).last() == new,
{
}

/// What was kept last is what `last` names.
pub proof fn law_last_is_newest(entries: Seq<OutputView>, new: OutputView)
    ensures
        selected(kept(entries.push(new)), "last"@) == Some(new),
{
    reveal_strlit("last");
    assert(text::spec_trim("last"@) == "last"@);
}

// ------------------------------------------------------------------ summaries
/// The lines that are not empty, without the white space behind them.
pub open spec fn full_lines(lines: Seq<Seq<char>>) -> Seq<Seq<char>>
    decreases lines.len(),
{
    if lines.len() == 0 {
        seq![]
    } else {
        let line = text::spec_trim_end(lines.last());
        if line.len() == 0 {
            full_lines(lines.drop_last())
        } else {
            full_lines(lines.drop_last()).push(line)
        }
    }
}

/// The first `n` characters, with an ellipsis where that is not all.
pub open spec fn shortened(s: Seq<char>, n: nat) -> Seq<char> {
    if s.len() > n {
        s.take(n as int) + "…"@
    } else {
        s
    }
}

/// A summary of a text: its first and its last line that is not empty.
pub open spec fn summary_of(content: Seq<char>) -> Seq<char> {
    let lines = full_lines(text::spec_lines(content));
    if lines.len() == 0 {
        ""@
    } else if lines.len() == 1 {
        shortened(lines[0], MAX_SUMMARY_CHARS as nat)
    } else {
        shortened(lines[0], MAX_SUMMARY_CHARS as nat / 2) + " … "@ + shortened(
            lines.last(),
            MAX_SUMMARY_CHARS as nat / 2,
        )
    }
}

/// How many lines a summary leaves out.
pub open spec fn extra_lines(content: Seq<char>) -> nat {
    let lines = text::spec_lines(content);
    if full_lines(lines).len() == 0 || lines.len() == 0 {
        0
    } else {
        (lines.len() - 1) as nat
    }
}

fn shorten(s: &str, n: usize) -> (r: String)
    ensures
        r@ == shortened(s@, n as nat),
{
    if text::count(s) > n {
        let head = text::sub_string(s, 0, n);
        assert(head@ =~= s@.take(n as int));
        text::concat(&head, "…")
    } else {
        s.to_owned()
    }
}

/// A summary of a tool's output in one line, and how many lines it leaves out.
pub fn summarize(content: &str) -> (r: (String, usize))
    ensures
        r.0@ == summary_of(content@),
        r.1 == extra_lines(content@),
{
    let lines = text::lines(content);
    let ghost view = lines.deep_view();
    let mut full: Vec<String> = Vec::new();
    let mut i: usize = 0;
    assert(view.take(0) =~= seq![]);
    assert(full.deep_view() =~= seq![]);
    while i < lines.len()
        invariant
            i <= lines.len(),
            view == lines.deep_view(),
            full.deep_view() == full_lines(view.take(i as int)),
        decreases lines.len() - i,
    {
        assert(view.take(i + 1).drop_last() =~= view.take(i as int));
        assert(view[i as int] == lines@[i as int]@);
        let line = text::trim_end(&lines[i]);
        if text::count(&line) > 0 {
            text::put(&mut full, line);
        }
        i += 1;
    }
    assert(view.take(view.len() as int) =~= view);
    let n = full.len();
    if n == 0 {
        return ("".to_owned(), 0);
    }
    assert(full.deep_view()[0] == full@[0]@);
    assert(full.deep_view()[n - 1] == full@[n - 1]@);
    let shown = if n == 1 {
        shorten(&full[0], MAX_SUMMARY_CHARS)
    } else {
        text::concat3(
            &shorten(&full[0], MAX_SUMMARY_CHARS / 2),
            " … ",
            &shorten(&full[n - 1], MAX_SUMMARY_CHARS / 2),
        )
    };
    proof {
        if view.len() == 0 {
            assert(view =~= seq![]);
        }
    }
    (shown, lines.len() - 1)
}

// --------------------------------------------------------------------- calls
/// A text in quotes.
pub open spec fn quoted_of(value: Seq<char>) -> Seq<char> {
    "\""@ + text::spec_replace(
        text::spec_replace(value, "\\"@, "\\\\"@),
        "\""@,
        "\\\""@,
    ) + "\""@
}

/// A verb with the argument under `key`, or with all arguments where that is
/// missing or empty; cut to length.
pub open spec fn rendered(verb: Seq<char>, key: Seq<char>, args: json::JsonView) -> Seq<char> {
    let value = match args.text_field(key) {
        Some(v) => v,
        None => ""@,
    };
    let all = if value.len() == 0 {
        verb + " "@ + json::json_text(args)
    } else {
        verb + " "@ + quoted_of(value)
    };
    if all.len() > MAX_HUMANIZE_CHARS {
        all.take(MAX_HUMANIZE_CHARS as int)
    } else {
        all
    }
}

/// The verb and the main argument of the tools that are known.
pub open spec fn known_tool(name: Seq<char>) -> Option<(Seq<char>, Seq<char>)> {
    if name == "read"@ {
        Some(("reading"@, "path"@))
    } else if name == "outline"@ {
        Some(("outlining"@, "path"@))
    } else if name == "write"@ {
        Some(("writing"@, "path"@))
    } else if name == "edit"@ {
        Some(("editing"@, "path"@))
    } else if name == "ls"@ {
        Some(("listing"@, "path"@))
    } else if name == "find"@ {
        Some(("finding"@, "pattern"@))
    } else if name == "grep"@ {
        Some(("searching for"@, "pattern"@))
    } else if name == "bash"@ {
        Some(("running"@, "command"@))
    } else if name == "search"@ {
        Some(("searching"@, "query"@))
    } else if name == "web_search"@ {
        Some(("searching the web for"@, "query"@))
    } else if name == "web_fetch"@ {
        Some(("fetching"@, "url"@))
    } else if name == "ask"@ {
        Some(("asking"@, "question"@))
    } else if name == "delegate"@ {
        Some(("delegating a task"@, "prompt"@))
    } else {
        None
    }
}

/// The argument by which the call of another tool is shown.
pub open spec fn generic_key(args: json::JsonView) -> Option<Seq<char>> {
    if args.text_field("query"@) is Some {
        Some("query"@)
    } else if args.text_field("url"@) is Some {
        Some("url"@)
    } else if args.text_field("path"@) is Some {
        Some("path"@)
    } else if args.text_field("command"@) is Some {
        Some("command"@)
    } else {
        None
    }
}

/// The name of a tool without that of its server.
pub open spec fn bare(name: Seq<char>) -> Seq<char> {
    match text::spec_rfind(name, "__"@) {
        Some(i) => name.skip(i + 2),
        None => name,
    }
}

/// A call in words.
pub open spec fn humanized(name: Seq<char>, args: json::JsonView) -> Seq<char> {
    match known_tool(name) {
        Some((verb, key)) => rendered(verb, key, args),
        None => match generic_key(args) {
            Some(key) => rendered(bare(name), key, args),
            None => {
                let all = json::json_text(args);
                let shown = if all.len() > MAX_HUMANIZE_CHARS * 2 {
                    all.take(MAX_HUMANIZE_CHARS * 2)
                } else {
                    all
                };
                name + " "@ + shown
            },
        },
    }
}

fn quoted(value: &str) -> (r: String)
    ensures
        r@ == quoted_of(value@),
{
    proof {
        reveal_strlit("\\");
        reveal_strlit("\"");
    }
    let escaped = text::replace(&text::replace(value, "\\", "\\\\"), "\"", "\\\"");
    text::concat3("\"", &escaped, "\"")
}

fn at_most(s: String, n: usize) -> (r: String)
    ensures
        r@ == if s@.len() > n {
            s@.take(n as int)
        } else {
            s@
        },
{
    if text::count(&s) > n {
        let head = text::sub_string(&s, 0, n);
        assert(head@ =~= s@.take(n as int));
        head
    } else {
        s
    }
}

fn render(verb: &str, key: &str, args: &Json) -> (r: String)
    ensures
        r@ == rendered(verb@, key@, args.deep_view()),
{
    let value = match args.get_str(key) {
        Some(v) => v,
        None => "",
    };
    proof {
        reveal_strlit("");
    }
    let all = if text::count(value) == 0 {
        text::concat3(verb, " ", &json::render(args))
    } else {
        text::concat3(verb, " ", &quoted(value))
    };
    at_most(all, MAX_HUMANIZE_CHARS)
}

fn find_known(name: &str) -> (r: Option<(&'static str, &'static str)>)
    ensures
        r.deep_view() == known_tool(name@),
{
    if text::same(name, "read") {
        Some(("reading", "path"))
    } else if text::same(name, "outline") {
        Some(("outlining", "path"))
    } else if text::same(name, "write") {
        Some(("writing", "path"))
    } else if text::same(name, "edit") {
        Some(("editing", "path"))
    } else if text::same(name, "ls") {
        Some(("listing", "path"))
    } else if text::same(name, "find") {
        Some(("finding", "pattern"))
    } else if text::same(name, "grep") {
        Some(("searching for", "pattern"))
    } else if text::same(name, "bash") {
        Some(("running", "command"))
    } else if text::same(name, "search") {
        Some(("searching", "query"))
    } else if text::same(name, "web_search") {
        Some(("searching the web for", "query"))
    } else if text::same(name, "web_fetch") {
        Some(("fetching", "url"))
    } else if text::same(name, "ask") {
        Some(("asking", "question"))
    } else if text::same(name, "delegate") {
        Some(("delegating a task", "prompt"))
    } else {
        None
    }
}

fn find_generic(args: &Json) -> (r: Option<&'static str>)
    ensures
        r.deep_view() == generic_key(args.deep_view()),
{
    if args.get_str("query").is_some() {
        Some("query")
    } else if args.get_str("url").is_some() {
        Some("url")
    } else if args.get_str("path").is_some() {
        Some("path")
    } else if args.get_str("command").is_some() {
        Some("command")
    } else {
        None
    }
}

fn bare_name(name: &str) -> (r: String)
    ensures
        r@ == bare(name@),
{
    proof {
        reveal_strlit("__");
    }
    match text::rfind(name, "__") {
        Some(i) => {
            let n = text::count(name);
            let r = text::sub_string(name, i + 2, n);
            assert(r@ =~= name@.skip(i + 2));
            r
        },
        None => name.to_owned(),
    }
}

/// A call in words, such as `reading "src/main.rs"`.
pub fn humanize(name: &str, args: &Json) -> (r: String)
    ensures
        r@ == humanized(name@, args.deep_view()),
{
    match find_known(name) {
        Some((verb, key)) => render(verb, key, args),
        None => match find_generic(args) {
            Some(key) => render(&bare_name(name), key, args),
            None => text::concat3(
                name,
                " ",
                &at_most(json::render(args), MAX_HUMANIZE_CHARS * 2),
            ),
        },
    }
}

// ------------------------------------------------------------------- progress
/// The message of a spinner while a tool runs.
pub fn progress_message(name: &str, args_summary: &str) -> (r: String)
    ensures
        r@ == "Tool: "@ + name@ + " "@ + (if args_summary@.len() > 80 {
            args_summary@.take(80)
        } else {
            args_summary@
        }),
{
    text::concat4("Tool: ", name, " ", &at_most(args_summary.to_owned(), 80))
}

/// The message of a spinner when a tool failed, given what it said; none is left
/// of one that succeeded.
pub open spec fn finish_of(is_error: bool, summary: Seq<char>) -> Option<Seq<char>> {
    if !is_error {
        None
    } else {
        let lines = text::spec_lines(summary);
        let first = if lines.len() > 0 {
            lines[0]
        } else {
            summary
        };
        Some(
            "✖ [Tool Error] "@ + (if first.len() > 80 {
                first.take(80)
            } else {
                first
            }),
        )
    }
}

/// The message that a spinner leaves.
pub fn finish_message(is_error: bool, summary: &str) -> (r: Option<String>)
    ensures
        r.deep_view() == finish_of(is_error, summary@),
{
    if !is_error {
        return None;
    }
    let lines = text::lines(summary);
    let first = if lines.len() > 0 {
        assert(lines.deep_view()[0] == lines@[0]@);
        lines[0].dup()
    } else {
        summary.to_owned()
    };
    Some(text::concat("✖ [Tool Error] ", &at_most(first, 80)))
}

} // verus!
