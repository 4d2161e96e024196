//! Project instructions that go into the system prompt.
use crate::paths;
use crate::text;
use vstd::prelude::*;

verus! {

/// A file with instructions.
pub struct InstructionFile {
    pub path: String,
    pub content: String,
}

/// What an `InstructionFile` stands for.
pub ghost struct InstructionView {
    pub path: Seq<char>,
    pub content: Seq<char>,
}

impl DeepView for InstructionFile {
    type V = InstructionView;

    open spec fn deep_view(&self) -> InstructionView {
        InstructionView { path: self.path@, content: self.content@ }
    }
}

/// How much of one file is taken, in characters.
pub const PER_FILE_CAP: usize = 12_000;

/// How much is taken of all files, in characters.
pub const TOTAL_CAP: usize = 60_000;

// ---------------------------------------------------------------- discovery
/// The names of instruction files, in the order in which they count.
pub open spec fn file_names(anthropic: Option<Seq<char>>) -> Seq<Seq<char>> {
    match anthropic {
        Some(name) => seq!["AGENTS.md"@, name, ".cursorrules"@, "GEMINI.md"@],
        None => seq!["AGENTS.md"@, ".cursorrules"@, "GEMINI.md"@],
    }
}

/// The names of the instruction files that are honored in a directory, in the order
/// in which they count: the agent's own first, and then those of other agents. The
/// name that Anthropic's agent uses is given, and comes second.
pub fn instruction_files(anthropic: Option<&str>) -> (r: Vec<String>)
    ensures
        r.deep_view() == (match anthropic {
            Some(name) => seq!["AGENTS.md"@, name@, ".cursorrules"@, "GEMINI.md"@],
            None => seq!["AGENTS.md"@, ".cursorrules"@, "GEMINI.md"@],
        }),
{
    let mut r: Vec<String> = Vec::new();
    assert(r.deep_view() =~= seq![]);
    text::put(&mut r, "AGENTS.md".to_owned());
    if let Some(name) = anthropic {
        text::put(&mut r, name.to_owned());
    }
    text::put(&mut r, ".cursorrules".to_owned());
    text::put(&mut r, "GEMINI.md".to_owned());
    assert(r.deep_view() =~= file_names(
        match anthropic {
            Some(name) => Some(name@),
            None => None,
        },
    ));
    r
}

/// The directories from `dir` up to the home directory or the root, nearest
/// first, as components.
pub open spec fn dirs_up(dir: Seq<Seq<char>>, home: Seq<Seq<char>>) -> Seq<Seq<Seq<char>>>
    decreases dir.len(),
{
    if dir == home || dir.len() == 0 || dir == seq!["/"@] {
        seq![dir]
    } else {
        seq![dir] + dirs_up(dir.drop_last(), home)
    }
}

/// The paths of the files of these names in a directory.
pub open spec fn files_in(dir: Seq<Seq<char>>, names: Seq<Seq<char>>) -> Seq<Seq<char>> {
    names.map_values(|name: Seq<char>| paths::joined(paths::written(dir), name))
}

/// The paths of the files of these names in these directories.
pub open spec fn files_in_all(dirs: Seq<Seq<Seq<char>>>, names: Seq<Seq<char>>) -> Seq<Seq<char>>
    decreases dirs.len(),
{
    if dirs.len() == 0 {
        seq![]
    } else {
        files_in_all(dirs.drop_last(), names) + files_in(dirs.last(), names)
    }
}

/// Where instructions for `cwd` are looked for: under each name in each directory
/// from there up to the home directory or the root, and then in the agent's own
/// directory.
pub open spec fn candidates(
    cwd: Seq<char>,
    home: Seq<char>,
    agent_dir: Option<Seq<char>>,
    names: Seq<Seq<char>>,
) -> Seq<Seq<char>> {
    files_in_all(dirs_up(paths::components(cwd), paths::components(home)), names) + (match agent_dir {
        Some(dir) => seq![paths::joined(paths::joined(dir, "agent"@), "AGENTS.md"@)],
        None => seq![],
    })
}

fn same_parts(a: &[String], b: &[String]) -> (r: bool)
    ensures
        r == (a.deep_view() == b.deep_view()),
{
    let r = a.len() == b.len() && paths::is_under(a, b);
    assert(r == (a.deep_view() == b.deep_view())) by {
        if r {
            assert(a.deep_view() =~= a.deep_view().subrange(0, b@.len() as int));
        }
        if a.deep_view() == b.deep_view() {
            assert(a.deep_view().len() == b.deep_view().len());
        }
    }
    r
}

fn put_files(out: &mut Vec<String>, dir: &[String], names: &[String])
    ensures
        final(out).deep_view() == old(out).deep_view() + files_in(
            dir.deep_view(),
            names.deep_view(),
        ),
{
    let ghost first = out.deep_view();
    let ghost view = names.deep_view();
    let ghost all = files_in(dir.deep_view(), view);
    let base = paths::write(dir);
    let mut i: usize = 0;
    assert(first + all.take(0) =~= first);
    while i < names.len()
        invariant
            i <= names@.len(),
            view == names.deep_view(),
            base@ == paths::written(dir.deep_view()),
            all == files_in(dir.deep_view(), view),
            out.deep_view() == first + all.take(i as int),
        decreases names.len() - i,
    {
        assert(view[i as int] == names@[i as int]@);
        text::put(out, paths::join(&base, &names[i]));
        assert(out.deep_view() =~= first + all.take(i + 1));
        i += 1;
    }
    assert(all.take(all.len() as int) =~= all);
}

proof fn lemma_files_in_all_front(
    dir: Seq<Seq<char>>,
    rest: Seq<Seq<Seq<char>>>,
    names: Seq<Seq<char>>,
)
    ensures
        files_in_all(seq![dir] + rest, names) == files_in(dir, names) + files_in_all(rest, names),
    decreases rest.len(),
{
    if rest.len() == 0 {
        assert(seq![dir] + rest =~= seq![dir]);
        assert(seq![dir].drop_last() =~= seq![]);
        assert(files_in_all(seq![dir].drop_last(), names) =~= seq![]);
        assert(files_in_all(seq![dir], names) =~= files_in(dir, names));
    } else {
        assert((seq![dir] + rest).drop_last() =~= seq![dir] + rest.drop_last());
        lemma_files_in_all_front(dir, rest.drop_last(), names);
    }
}

/// Where instructions for `cwd` are looked for, given the name of the file that
/// Anthropic's agent uses.
pub fn instruction_candidates(
    cwd: &str,
    home: &str,
    agent_dir: Option<&str>,
    anthropic: Option<&str>,
) -> (out: Vec<String>)
    ensures
        out.deep_view() == candidates(
            cwd@,
            home@,
            match agent_dir {
                Some(d) => Some(d@),
                None => None,
            },
            file_names(
                match anthropic {
                    Some(name) => Some(name@),
                    None => None,
                },
            ),
        ),
{
    let names = instruction_files(anthropic);
    let stop = paths::components_of(home);
    let mut dir = paths::components_of(cwd);
    let mut out: Vec<String> = Vec::new();
    assert(out.deep_view() =~= seq![]);
    let ghost view_names = names.deep_view();
    let ghost all = files_in_all(
        dirs_up(paths::components(cwd@), paths::components(home@)),
        view_names,
    );
    let ghost goal = stop.deep_view();
    loop
        invariant_except_break
            goal == stop.deep_view(),
            view_names == names.deep_view(),
            all == out.deep_view() + files_in_all(dirs_up(dir.deep_view(), goal), view_names),
        ensures
            all == out.deep_view(),
        decreases dir@.len(),
    {
        let ghost view = dir.deep_view();
        let last = same_parts(&dir, &stop) || dir.len() == 0 || (dir.len() == 1 && text::same(
            &dir[0],
            "/",
        ));
        assert(last == (view == goal || view.len() == 0 || view == seq!["/"@])) by {
            if dir@.len() == 1 {
                assert(view =~= seq![dir@[0]@]);
                assert(view[0] == dir@[0]@);
            }
        }
        put_files(&mut out, &dir, &names);
        if last {
            proof {
                lemma_files_in_all_front(view, seq![], view_names);
                assert(seq![view] + seq![] =~= seq![view]);
                assert(files_in_all(seq![], view_names) =~= seq![]);
            }
            break;
        }
        proof {
            lemma_files_in_all_front(view, dirs_up(view.drop_last(), goal), view_names);
        }
        dir.pop();
        assert(dir.deep_view() =~= view.drop_last());
    }
    if let Some(d) = agent_dir {
        text::put(&mut out, paths::join(&paths::join(d, "agent"), "AGENTS.md"));
    }
    out
}

/// The files among the candidates that could be read.
pub open spec fn found_files(
    paths: Seq<Seq<char>>,
    contents: Seq<Option<Seq<char>>>,
) -> Seq<InstructionView>
    decreases paths.len(),
{
    if paths.len() == 0 {
        seq![]
    } else {
        let before = found_files(paths.drop_last(), contents);
        match contents[paths.len() - 1] {
            Some(content) => before.push(InstructionView { path: paths.last(), content }),
            None => before,
        }
    }
}

/// The instructions that were found, given what each candidate holds, where it
/// could be read.
pub fn discover_instructions(paths: &[String], contents: &[Option<String>]) -> (out: Vec<
    InstructionFile,
>)
    requires
        paths@.len() == contents@.len(),
    ensures
        out.deep_view() == found_files(paths.deep_view(), contents.deep_view()),
{
    let ghost view = paths.deep_view();
    let ghost held = contents.deep_view();
    let mut out: Vec<InstructionFile> = Vec::new();
    assert(out.deep_view() =~= seq![]);
    let mut i: usize = 0;
    while i < paths.len()
        invariant
            i <= paths.len(),
            paths@.len() == contents@.len(),
            view == paths.deep_view(),
            held == contents.deep_view(),
            out.deep_view() == found_files(view.take(i as int), held),
        decreases paths.len() - i,
    {
        assert(view.take(i + 1).drop_last() =~= view.take(i as int));
        assert(held[i as int] == contents@[i as int].deep_view());
        if let Some(content) = &contents[i] {
            text::put(
                &mut out,
                InstructionFile { path: paths[i].clone(), content: content.clone() },
            );
        }
        i += 1;
    }
    assert(view.take(view.len() as int) =~= view);
    out
}

// ---------------------------------------------------------------- rendering
/// The text, or its first three quarters and its last quarter with a note of
/// what was left out between, where it has more than `cap` characters.
pub open spec fn head_and_tail(content: Seq<char>, cap: nat) -> Seq<char> {
    if content.len() <= cap {
        content
    } else {
        let head = cap * 3 / 4;
        let tail = cap - head;
        content.take(head as int) + "\n…["@ + text::spec_decimal(
            (content.len() - cap) as nat,
        ) + " chars omitted]…\n"@ + content.skip(content.len() - tail)
    }
}

/// Trims `content` to `cap` characters: three quarters from its head, one quarter
/// from its tail, and a note between.
pub fn head_tail_split(content: &str, cap: usize) -> (r: String)
    requires
        cap * 3 <= usize::MAX,
    ensures
        r@ == head_and_tail(content@, cap as nat),
{
    let chars = text::chars_of(content);
    let n = chars.len();
    if n <= cap {
        return content.to_owned();
    }
    let head_chars: usize = cap * 3 / 4;
    let tail_chars: usize = cap - head_chars;
    let head = text::slice_string(&chars, 0, head_chars);
    let tail = text::slice_string(&chars, n - tail_chars, n);
    assert(head@ =~= content@.take(head_chars as int));
    assert(tail@ =~= content@.skip(n - tail_chars));
    let omitted = text::decimal((n - cap) as u64);
    text::concat5(&head, "\n…[", &omitted, " chars omitted]…\n", &tail)
}

/// `s` with the characters that mean something in XML written as entities.
pub open spec fn xml_escaped(s: Seq<char>) -> Seq<char> {
    text::spec_replace(
        text::spec_replace(
            text::spec_replace(text::spec_replace(s, "&"@, "&amp;"@), "<"@, "&lt;"@),
            ">"@,
            "&gt;"@,
        ),
        "\""@,
        "&quot;"@,
    )
}

/// `s` with the characters that mean something in XML written as entities.
pub fn escape_xml(s: &str) -> (r: String)
    ensures
        r@ == xml_escaped(s@),
{
    proof {
        reveal_strlit("&");
        reveal_strlit("<");
        reveal_strlit(">");
        reveal_strlit("\"");
    }
    let r = text::replace(s, "&", "&amp;");
    let r = text::replace(&r, "<", "&lt;");
    let r = text::replace(&r, ">", "&gt;");
    text::replace(&r, "\"", "&quot;")
}

/// How much of a file is taken when there are `used` characters already: what is left
/// of the total, and no more than of any file.
pub open spec fn cap_after(used: nat) -> nat {
    let remaining = (TOTAL_CAP - used) as nat;
    if PER_FILE_CAP <= remaining {
        PER_FILE_CAP as nat
    } else {
        remaining
    }
}

/// The block of one file.
pub open spec fn file_block(path: Seq<char>, content: Seq<char>) -> Seq<char> {
    "<project_instructions path=\""@ + xml_escaped(path) + "\">\n"@ + xml_escaped(content)
        + "\n</project_instructions>\n"@
}

/// The blocks of `files`, with `used` characters there already.
pub open spec fn blocks_from(files: Seq<InstructionView>, used: nat) -> Seq<char>
    decreases files.len(),
{
    if files.len() == 0 || used >= TOTAL_CAP {
        seq![]
    } else {
        let content = head_and_tail(files[0].content, cap_after(used));
        file_block(files[0].path, content) + blocks_from(
            files.skip(1),
            used + content.len(),
        )
    }
}

/// The instructions as they go into the system prompt.
pub open spec fn instructions_text(files: Seq<InstructionView>) -> Seq<char> {
    if files.len() == 0 {
        seq![]
    } else {
        "\n\nProject instructions:\n"@ + blocks_from(files, 0)
    }
}

/// The instructions as they go into the system prompt: each file in a block of
/// its own, none longer than the cap, and none more once the total is reached.
pub fn render_instructions(files: &[InstructionFile]) -> (r: String)
    ensures
        r@ == instructions_text(files.deep_view()),
{
    if files.len() == 0 {
        return String::new();
    }
    let ghost view = files.deep_view();
    let mut out = "\n\nProject instructions:\n".to_owned();
    let mut total: u128 = 0;
    let mut i: usize = 0;
    assert(view.skip(0) =~= view);
    while i < files.len() && total < TOTAL_CAP as u128
        invariant
            i <= files.len(),
            view == files.deep_view(),
            total <= 60_000 + usize::MAX,
            "\n\nProject instructions:\n"@ + blocks_from(view, 0) == out@ + blocks_from(
                view.skip(i as int),
                total as nat,
            ),
        decreases files.len() - i,
    {
        let remaining: usize = TOTAL_CAP - total as usize;
        let cap: usize = if PER_FILE_CAP <= remaining {
            PER_FILE_CAP
        } else {
            remaining
        };
        assert(view.skip(i as int)[0] == files@[i as int].deep_view());
        assert(view.skip(i as int).skip(1) =~= view.skip(i + 1));
        let content = head_tail_split(&files[i].content, cap);
        let mut block = text::concat3(
            "<project_instructions path=\"",
            &escape_xml(&files[i].path),
            "\">\n",
        );
        block.append(&escape_xml(&content));
        block.append("\n</project_instructions>\n");
        out.append(&block);
        total = total + text::count(&content) as u128;
        i += 1;
    }
    assert(blocks_from(view.skip(i as int), total as nat) =~= seq![]);
    out
}

// --------------------------------------------------------------------- laws
/// How many characters of a text are left when it is trimmed to `cap`.
pub open spec fn left_of(content: Seq<char>, cap: nat) -> nat {
    if content.len() <= cap {
        content.len()
    } else {
        cap
    }
}

/// How many characters of `files` go into their blocks, with `used` there already.
pub open spec fn left_of_all(files: Seq<InstructionView>, used: nat) -> nat
    decreases files.len(),
{
    if files.len() == 0 || used >= TOTAL_CAP {
        0
    } else {
        let cap = cap_after(used);
        left_of(files[0].content, cap) + left_of_all(
            files.skip(1),
            used + head_and_tail(files[0].content, cap).len(),
        )
    }
}

proof fn lemma_left_of_all(files: Seq<InstructionView>, used: nat)
    ensures
        used <= TOTAL_CAP ==> left_of_all(files, used) <= TOTAL_CAP - used,
        used > TOTAL_CAP ==> left_of_all(files, used) == 0,
    decreases files.len(),
{
    if files.len() > 0 && used < TOTAL_CAP {
        let cap = cap_after(used);
        let content = files[0].content;
        let trimmed = head_and_tail(content, cap);
        assert(trimmed.len() >= left_of(content, cap));
        lemma_left_of_all(files.skip(1), used + trimmed.len());
    }
}

/// A trimmed text keeps all of a text that is short enough, and else as much as it
/// may, from both ends.
pub proof fn law_trimmed_text_is_head_and_tail(content: Seq<char>, cap: nat)
    ensures
        content.len() <= cap ==> head_and_tail(content, cap) == content,
        content.len() > cap ==> exists|head: int|
            0 <= head <= cap && #[trigger] content.take(head).is_prefix_of(
                head_and_tail(content, cap),
            ) && content.skip(content.len() - (cap - head)).is_suffix_of(
                head_and_tail(content, cap),
            ),
        left_of(content, cap) <= cap,
{
    if content.len() > cap {
        let head = cap * 3 / 4;
        let out = head_and_tail(content, cap);
        let tail = content.skip(content.len() - (cap - head));
        assert(content.take(head as int) =~= out.take(head as int));
        assert(tail =~= out.skip(out.len() - (cap - head)));
        assert(content.take(head as int).is_prefix_of(out) && tail.is_suffix_of(out));
    }
}

/// No more characters of the instructions go into the system prompt than the total,
/// and of no file more than its share.
pub proof fn law_instructions_stay_within_the_cap(files: Seq<InstructionView>)
    ensures
        left_of_all(files, 0) <= TOTAL_CAP,
        forall|used: nat| used <= TOTAL_CAP ==> #[trigger] cap_after(used) <= PER_FILE_CAP,
{
    lemma_left_of_all(files, 0);
}

proof fn lemma_replace_one(s: Seq<char>, from: Seq<char>, to: Seq<char>, c: char)
    requires
        from.len() == 1,
        !to.contains(c),
        from[0] == c || !s.contains(c),
    ensures
        !text::spec_replace(s, from, to).contains(c),
    decreases s.len(),
{
    if s.len() > 0 {
        let rest = s.skip(1);
        assert(!(from[0] == c) ==> !rest.contains(c)) by {
            if rest.contains(c) {
                let k = choose|k: int| 0 <= k < rest.len() && rest[k] == c;
                assert(s[k + 1] == c);
            }
        }
        lemma_replace_one(rest, from, to, c);
        let out = text::spec_replace(s, from, to);
        assert(s.subrange(0, 1) =~= seq![s[0]]);
        if text::matches_at(s, from, 0) {
            assert(out == to + text::spec_replace(rest, from, to));
        } else {
            assert(s[0] != c) by {
                if s[0] == c && from[0] == c {
                    assert(s.subrange(0, 1) =~= from);
                }
                if from[0] != c && s[0] == c {
                    assert(s.contains(c));
                }
            }
            assert(out == seq![s[0]] + text::spec_replace(rest, from, to));
        }
        assert forall|k: int| 0 <= k < out.len() implies #[trigger] out[k] != c by {
            let tail = text::spec_replace(rest, from, to);
            let head_len = out.len() - tail.len();
            if k >= head_len {
                assert(tail[k - head_len] == out[k]);
            } else if text::matches_at(s, from, 0) {
                assert(to[k] == out[k]);
            }
        }
    }
}

/// What is escaped holds no `<`, no `>` and no quote, so it neither ends the
/// block nor the attribute that it stands in.
pub proof fn law_escaped_text_cannot_break_out(s: Seq<char>)
    ensures
        !xml_escaped(s).contains('<'),
        !xml_escaped(s).contains('>'),
        !xml_escaped(s).contains('"'),
{
    reveal_strlit("&");
    reveal_strlit("<");
    reveal_strlit(">");
    reveal_strlit("\"");
    reveal_strlit("&amp;");
    reveal_strlit("&lt;");
    reveal_strlit("&gt;");
    reveal_strlit("&quot;");
    let a = text::spec_replace(s, "&"@, "&amp;"@);
    let b = text::spec_replace(a, "<"@, "&lt;"@);
    let c = text::spec_replace(b, ">"@, "&gt;"@);
    lemma_replace_one(a, "<"@, "&lt;"@, '<');
    lemma_replace_one(b, ">"@, "&gt;"@, '<');
    lemma_replace_one(c, "\""@, "&quot;"@, '<');
    lemma_replace_one(b, ">"@, "&gt;"@, '>');
    lemma_replace_one(c, "\""@, "&quot;"@, '>');
    lemma_replace_one(c, "\""@, "&quot;"@, '"');
}

} // verus!
