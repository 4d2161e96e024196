//! What holds of what is judged: what replies say of themselves, risks, evidence,
//! snapshots and instructions.
use vstd::prelude::*;

verus! {

/// The text of a tag is what stands between its opening and its closing mark.
pub proof fn law_tags_are_read(
    before: Seq<char>,
    tag: Seq<char>,
    value: Seq<char>,
    after: Seq<char>,
    block: Seq<char>,
)
    requires
        block == before + (seq!['<'] + tag + seq!['>']) + value + (seq!['<', '/'] + tag + seq!['>'])
            + after,
        crate::text::spec_find(block, seq!['<'] + tag) == Some(before.len() as int),
        !value.contains('<'),
    ensures
        crate::ai::trust::value_of(block, tag) == Some(value),
{
    reveal_strlit("<");
    reveal_strlit(">");
    reveal_strlit("</");
    assert("<"@ =~= seq!['<']);
    assert(">"@ =~= seq!['>']);
    assert("</"@ =~= seq!['<', '/']);
    let close = "</"@ + tag + ">"@;
    let rest = value + close + after;
    let open = "<"@ + tag;
    let tail = block.skip(before.len() as int + open.len());
    assert(tail =~= ">"@ + rest);
    assert(tail.subrange(0, 1) =~= ">"@);
    assert(tail.skip(1) =~= rest);
    let n = value.len() as int;
    crate::text::law_find_is_first(rest, close);
    assert(rest.subrange(n, n + close.len()) =~= close);
    assert(crate::text::matches_at(rest, close, n));
    assert forall|j: int| 0 <= j < n implies !#[trigger] crate::text::matches_at(rest, close, j) by {
        if crate::text::matches_at(rest, close, j) {
            assert(rest.subrange(j, j + close.len())[0] == close[0]);
            assert(rest[j] == value[j]);
        }
    }
    assert(rest.take(n) =~= value);
}

/// What a block says under a tag is what is read of it: the reason is the reason, and
/// a confidence that is written in decimal is that number, a hundred at most.
pub proof fn law_blocks_say_what_their_tags_say(
    before: Seq<char>,
    tag: Seq<char>,
    value: Seq<char>,
    after: Seq<char>,
    block: Seq<char>,
    n: nat,
)
    requires
        block == before + (seq!['<'] + tag + seq!['>']) + value + (seq!['<', '/'] + tag + seq!['>'])
            + after,
        crate::text::spec_find(block, seq!['<'] + tag) == Some(before.len() as int),
        !value.contains('<'),
    ensures
        tag == "reason"@ ==> crate::ai::trust::block_trust(block).reason == Some(
            crate::text::spec_trim(value),
        ),
        tag == "expected_outcome"@ ==> crate::ai::trust::block_trust(block).expected_outcome
            == Some(crate::text::spec_trim(value)),
        tag == "uncertainty"@ ==> crate::ai::trust::block_trust(block).uncertainty == Some(
            crate::text::spec_trim(value),
        ),
        tag == "estimated_time"@ ==> crate::ai::trust::block_trust(block).estimated_time == Some(
            crate::text::spec_trim(value),
        ),
        tag == "confidence"@ && value == crate::text::spec_decimal(n) && n <= 100
            ==> crate::ai::trust::block_trust(block).confidence == Some(n as u8),
        tag == "confidence"@ && value == crate::text::spec_decimal(n) && 100 < n <= 255
            ==> crate::ai::trust::block_trust(block).confidence == Some(100u8),
{
    law_tags_are_read(before, tag, value, after, block);
    crate::texts::law_decimals_are_read_back(n);
    lemma_all_digits(crate::text::spec_decimal(n));
}

proof fn lemma_all_digits(s: Seq<char>)
    requires
        forall|i: int| 0 <= i < s.len() ==> crate::text::is_digit(#[trigger] s[i]),
    ensures
        crate::ai::trust::leading_digits(s) == s,
        crate::ai::trust::first_digits(s) == s,
    decreases s.len(),
{
    if s.len() > 0 {
        assert(crate::text::is_digit(s[0]));
        lemma_all_digits(s.skip(1));
        assert(seq![s[0]] + s.skip(1) =~= s);
    }
}

/// The value of an attribute is what stands between its quotes.
pub proof fn law_attributes_are_read(
    before: Seq<char>,
    name: Seq<char>,
    value: Seq<char>,
    after: Seq<char>,
    item: Seq<char>,
)
    requires
        item == before + (name + seq!['=', '"']) + value + seq!['"'] + after,
        crate::text::spec_find(item, name + seq!['=', '"']) == Some(before.len() as int),
        !value.contains('"'),
    ensures
        crate::ai::trust::attribute(item, name) == Some(value),
{
    reveal_strlit("=\"");
    assert("=\""@ =~= seq!['=', '"']);
    let mark = name + "=\""@;
    let rest = item.skip(before.len() as int + mark.len());
    assert(rest =~= value + seq!['"'] + after);
    let n = value.len() as int;
    assert forall|k: int| 0 <= k < n implies #[trigger] rest[k] != '"' by {
        assert(rest[k] == value[k]);
    }
    assert(rest[n] == '"');
    lemma_quote(rest, 0, n);
    assert(rest.take(n) =~= value);
}

proof fn lemma_quote(s: Seq<char>, from: int, n: int)
    requires
        0 <= from <= n < s.len(),
        forall|k: int| from <= k < n ==> #[trigger] s[k] != '"',
        s[n] == '"',
    ensures
        crate::text::find_set_from(s, seq!['"'], from) == Some(n),
    decreases n - from,
{
    let set = seq!['"'];
    assert(set[0] == '"');
    if from < n {
        assert(!set.contains(s[from]));
        lemma_quote(s, from + 1, n);
    } else {
        assert(set.contains(s[from]));
    }
}

/// A piece of evidence cites the file and the line that its attributes name.
pub proof fn law_evidence_cites_its_place(item: Seq<char>, file: Seq<char>, line: u64)
    requires
        crate::ai::trust::attribute(item, "file"@) == Some(file),
        crate::ai::trust::attribute(item, "line"@) == Some(crate::text::spec_decimal(line as nat)),
        file.len() > 0,
    ensures
        crate::ai::trust::evidence_of(item).len() == 1,
        crate::ai::trust::evidence_of(item)[0].file == file,
        crate::ai::trust::evidence_of(item)[0].line == Some(line),
{
    crate::texts::law_decimals_are_read_back(line as nat);
}

/// Evidence is sound exactly where its file is there and its line, counted from one,
/// is one of the file's; what is wrong with it names the file.
pub proof fn law_evidence_is_held_to_the_files(
    item: crate::ai::trust::EvidenceView,
    facts: crate::agent::trust_policy::FileFacts,
)
    ensures
        crate::agent::trust_policy::evidence_problem(item, facts) is None <==> facts.is_file && (
        item.line matches Some(line) ==> line > 0 && (facts.lines matches Some(total) ==> line
            <= total)),
        crate::agent::trust_policy::evidence_problem(item, facts) matches Some(said)
            ==> crate::cli::laws::within(item.file, said),
{
    if let Some(said) = crate::agent::trust_policy::evidence_problem(item, facts) {
        let i = "evidence cites `"@.len() as int;
        assert(said.subrange(i, i + item.file.len()) =~= item.file);
        assert(crate::text::matches_at(said, item.file, i));
    }
}

/// Every piece of evidence is held to the facts of its own file: one more piece adds
/// what is wrong with it behind the others, and a sound one adds nothing.
pub proof fn law_all_evidence_is_held_to_the_files(
    items: Seq<crate::ai::trust::EvidenceView>,
    item: crate::ai::trust::EvidenceView,
    facts: Seq<crate::agent::trust_policy::FileFacts>,
    fact: crate::agent::trust_policy::FileFacts,
)
    requires
        facts.len() == items.len(),
    ensures
        ({
            let before = crate::agent::trust_policy::evidence_problems(items, facts);
            let all = crate::agent::trust_policy::evidence_problems(
                items.push(item),
                facts.push(fact),
            );
            match crate::agent::trust_policy::evidence_problem(item, fact) {
                Some(said) => all == before.push(said),
                None => all == before,
            }
        }),
{
    lemma_facts_behind(items, facts, fact);
    assert(items.push(item).drop_last() =~= items);
}

proof fn lemma_facts_behind(
    items: Seq<crate::ai::trust::EvidenceView>,
    facts: Seq<crate::agent::trust_policy::FileFacts>,
    fact: crate::agent::trust_policy::FileFacts,
)
    requires
        items.len() <= facts.len(),
    ensures
        crate::agent::trust_policy::evidence_problems(items, facts.push(fact))
            == crate::agent::trust_policy::evidence_problems(items, facts),
    decreases items.len(),
{
    if items.len() > 0 {
        lemma_facts_behind(items.drop_last(), facts, fact);
    }
}

/// A turn is low in confidence exactly where it makes a risky call and is less sure
/// than it has to be; it lacks its block exactly where it says nothing of itself.
pub proof fn law_gaps_are_what_is_missing(
    policy: crate::agent::trust_policy::TrustPolicy,
    trust: crate::ai::trust::TrustView,
    calls: Seq<crate::agent::call::CallInfoView>,
    risk: crate::agent::risk::PolicyView,
    facts: Seq<crate::agent::trust_policy::FileFacts>,
    i: int,
)
    requires
        0 <= i < calls.len(),
    ensures
        ({
            let issues = crate::agent::trust_policy::issues_of(
                policy,
                trust,
                calls,
                Some(risk),
                facts,
            );
            &&& issues.missing_block == trust.is_empty()
            &&& trust.confidence is None ==> issues.low_confidence is None
            &&& trust.confidence matches Some(c) ==> {
                &&& c >= policy.confidence_threshold ==> issues.low_confidence is None
                &&& c < policy.confidence_threshold && risk.risk(calls[i]) is Some
                    ==> issues.low_confidence == Some(c)
                &&& (forall|k: int| 0 <= k < calls.len() ==> risk.risk(#[trigger] calls[k]) is None)
                    ==> issues.low_confidence is None
            }
        }),
{
}

/// A line is as risky as any command in it: one that is not flagged holds no command
/// that is, and one that is flagged holds such a command, or fetches and runs a shell.
pub proof fn law_every_command_is_judged(command: Seq<char>, i: int)
    requires
        0 <= i < crate::agent::risk::segments_of(command).len(),
    ensures
        ({
            let segments = crate::agent::risk::segments_of(command);
            &&& crate::agent::risk::segment_risk(segments[i]) is Some
                ==> crate::agent::risk::line_risk(command) is Some
            &&& (forall|k: int|
                0 <= k < segments.len() ==> crate::agent::risk::segment_risk(
                    #[trigger] segments[k],
                ) is None && !crate::agent::risk::fetches(segments[k]))
                ==> crate::agent::risk::line_risk(command) is None
        }),
{
    lemma_segments_risk(crate::agent::risk::segments_of(command), 0, i);
}

proof fn lemma_segments_risk(segments: Seq<Seq<char>>, from: int, i: int)
    requires
        0 <= from,
    ensures
        from <= i < segments.len() && crate::agent::risk::segment_risk(segments[i]) is Some
            ==> crate::agent::risk::segments_risk(segments, from) is Some,
        (forall|k: int|
            from <= k < segments.len() ==> crate::agent::risk::segment_risk(
                #[trigger] segments[k],
            ) is None) ==> crate::agent::risk::segments_risk(segments, from) is None,
    decreases segments.len() - from,
{
    if from < segments.len() {
        lemma_segments_risk(segments, from + 1, i);
    }
}

/// Whether a command is one that may not be run unasked, whatever its arguments.
pub open spec fn is_powerful(name: Seq<char>) -> bool {
    ||| name == "sudo"@
    ||| name == "doas"@
    ||| name == "eval"@
    ||| name == "mkfs"@
    ||| name == "fdisk"@
    ||| name == "dd"@
    ||| name == "shred"@
    ||| name == "crontab"@
    ||| name == "systemctl"@
}

/// A powerful command is flagged wherever it stands in a line, by whatever path it is
/// called and whatever is assigned before it.
pub proof fn law_powerful_commands_are_flagged(command: Seq<char>, i: int, n: int)
    requires
        0 <= i < crate::agent::risk::segments_of(command).len(),
        ({
            let words = crate::text::spec_words(crate::agent::risk::segments_of(command)[i]);
            &&& 0 <= n < words.len()
            &&& is_powerful(crate::agent::risk::base_name(words[n]))
            &&& forall|k: int|
                0 <= k < n ==> crate::text::has(#[trigger] words[k], "="@) && !crate::text::begins(
                    words[k],
                    "-"@,
                )
            &&& !crate::text::has(words[n], "="@)
        }),
    ensures
        crate::agent::risk::line_risk(command) is Some,
{
    let segment = crate::agent::risk::segments_of(command)[i];
    let words = crate::text::spec_words(segment);
    lemma_assignments(words, n);
    lemma_powerful(crate::agent::risk::base_name(words[n]), words.skip(n).skip(1));
    assert(words.skip(n)[0] == words[n]);
    assert(crate::agent::risk::segment_risk(segment) is Some);
    law_every_command_is_judged(command, i);
}

proof fn lemma_assignments(words: Seq<Seq<char>>, n: int)
    requires
        0 <= n < words.len(),
        forall|k: int|
            0 <= k < n ==> crate::text::has(#[trigger] words[k], "="@) && !crate::text::begins(
                words[k],
                "-"@,
            ),
        !crate::text::has(words[n], "="@),
    ensures
        crate::agent::risk::skip_assignments(words) == words.skip(n),
    decreases n,
{
    if n > 0 {
        let rest = words.skip(1);
        assert(crate::text::has(words[0], "="@));
        assert forall|k: int| 0 <= k < n - 1 implies crate::text::has(#[trigger] rest[k], "="@)
            && !crate::text::begins(rest[k], "-"@) by {
            assert(rest[k] == words[k + 1]);
        }
        lemma_assignments(rest, n - 1);
        assert(rest.skip(n - 1) =~= words.skip(n));
    } else {
        assert(words.skip(0) =~= words);
    }
}

proof fn lemma_powerful(name: Seq<char>, rest: Seq<Seq<char>>)
    requires
        is_powerful(name),
    ensures
        crate::agent::risk::head_risk(name, rest) is Some,
{
    reveal_strlit("rm");
    reveal_strlit("git");
    reveal_strlit("chmod");
    reveal_strlit("chown");
    reveal_strlit("find");
    reveal_strlit("sudo");
    reveal_strlit("doas");
    reveal_strlit("eval");
    reveal_strlit("mkfs");
    reveal_strlit("fdisk");
    reveal_strlit("dd");
    reveal_strlit("shred");
    reveal_strlit("crontab");
    reveal_strlit("systemctl");
    assert("git"@.len() == 3);
    assert("rm"@[0] != "dd"@[0]);
    assert("rm"@.len() == 2);
    assert("find"@[0] != "mkfs"@[0]);
    assert("find"@.len() == 4);
    assert("chmod"@[0] != "fdisk"@[0] && "chmod"@[0] != "shred"@[0]);
    assert("chown"@[0] != "fdisk"@[0] && "chown"@[0] != "shred"@[0]);
    assert("chmod"@.len() == 5 && "chown"@.len() == 5);
    assert("mkfs"@.len() == 4 && "fdisk"@.len() == 5 && "dd"@.len() == 2 && "shred"@.len() == 5);
    assert("crontab"@.len() == 7 && "systemctl"@.len() == 9);
}

/// A delete that goes down into directories is flagged, by whichever of its flags.
pub proof fn law_recursive_deletes_are_flagged(rest: Seq<Seq<char>>, i: int)
    requires
        0 <= i < rest.len(),
        rest[i] == "--recursive"@ || (crate::text::begins(rest[i], "-"@) && !crate::text::begins(
            rest[i],
            "--"@,
        ) && (rest[i].contains('r') || rest[i].contains('R'))),
    ensures
        crate::agent::risk::head_risk("rm"@, rest) is Some,
{
    reveal_strlit("r");
    reveal_strlit("R");
    let word = rest[i];
    if word.contains('r') {
        let k = choose|k: int| 0 <= k < word.len() && word[k] == 'r';
        assert(word.subrange(k, k + 1) =~= "r"@);
        assert(crate::text::matches_at(word, "r"@, k));
        crate::text::law_find_is_first(word, "r"@);
        assert(crate::agent::risk::is_flag(word, "--recursive"@, "r"@) || word == "--recursive"@
            || !crate::text::begins(word, "-"@) || crate::text::begins(word, "--"@));
    }
    if word.contains('R') {
        let k = choose|k: int| 0 <= k < word.len() && word[k] == 'R';
        assert(word.subrange(k, k + 1) =~= "R"@);
        assert(crate::text::matches_at(word, "R"@, k));
        crate::text::law_find_is_first(word, "R"@);
    }
    assert(crate::agent::risk::is_flag(rest[i], "--recursive"@, "r"@)
        || crate::agent::risk::is_flag(rest[i], "--recursive"@, "R"@));
}

/// The files that could be read are found with what stands in them, in the order of
/// their paths, and no others are.
pub proof fn law_instructions_are_read_as_they_stand(
    paths: Seq<Seq<char>>,
    contents: Seq<Option<Seq<char>>>,
    path: Seq<char>,
    content: Seq<char>,
)
    requires
        paths.len() == contents.len(),
    ensures
        ({
            let before = crate::agent::context::found_files(paths, contents);
            &&& crate::agent::context::found_files(paths.push(path), contents.push(None)) == before
            &&& crate::agent::context::found_files(paths.push(path), contents.push(Some(content)))
                == before.push(crate::agent::context::InstructionView { path, content })
        }),
{
    lemma_contents_behind(paths, contents, None);
    lemma_contents_behind(paths, contents, Some(content));
    assert(paths.push(path).drop_last() =~= paths);
}

proof fn lemma_contents_behind(
    paths: Seq<Seq<char>>,
    contents: Seq<Option<Seq<char>>>,
    more: Option<Seq<char>>,
)
    requires
        paths.len() <= contents.len(),
    ensures
        crate::agent::context::found_files(paths, contents.push(more))
            == crate::agent::context::found_files(paths, contents),
    decreases paths.len(),
{
    if paths.len() > 0 {
        lemma_contents_behind(paths.drop_last(), contents, more);
    }
}

/// Instructions are looked for in the working directory first, and then in each
/// directory above it.
pub proof fn law_instructions_are_looked_for_upwards(
    dir: Seq<Seq<char>>,
    home: Seq<Seq<char>>,
    i: int,
)
    requires
        0 <= i < crate::agent::context::dirs_up(dir, home).len(),
    ensures
        crate::agent::context::dirs_up(dir, home)[0] == dir,
        i <= dir.len(),
        crate::agent::context::dirs_up(dir, home)[i] == dir.take(dir.len() - i),
    decreases dir.len(),
{
    let all = crate::agent::context::dirs_up(dir, home);
    assert(dir.take(dir.len() as int) =~= dir);
    if !(dir == home || dir.len() == 0 || dir == seq!["/"@]) {
        let rest = crate::agent::context::dirs_up(dir.drop_last(), home);
        assert(all =~= seq![dir] + rest);
        if i > 0 {
            law_instructions_are_looked_for_upwards(dir.drop_last(), home, i - 1);
            assert(dir.drop_last().take(dir.len() - i) =~= dir.take(dir.len() - i));
        }
    }
}

/// A short file stands in its block with its path and all its text, and those of the
/// files behind it follow.
pub proof fn law_instructions_are_given_whole(
    file: crate::agent::context::InstructionView,
    rest: Seq<crate::agent::context::InstructionView>,
)
    requires
        file.content.len() <= crate::agent::context::cap_after(0),
    ensures
        ({
            let all = crate::agent::context::instructions_text(seq![file] + rest);
            &&& crate::cli::laws::within(crate::agent::context::xml_escaped(file.path), all)
            &&& crate::cli::laws::within(crate::agent::context::xml_escaped(file.content), all)
            &&& crate::agent::context::blocks_from(rest, file.content.len()).is_suffix_of(all)
        }),
{
    let files = seq![file] + rest;
    let all = crate::agent::context::instructions_text(files);
    assert(files[0] == file);
    assert(files.skip(1) =~= rest);
    let tail = crate::agent::context::blocks_from(rest, file.content.len());
    let path = crate::agent::context::xml_escaped(file.path);
    let content = crate::agent::context::xml_escaped(file.content);
    let head = "\n\nProject instructions:\n"@;
    let open = "<project_instructions path=\""@;
    let end = "\n</project_instructions>\n"@;
    assert(all =~= head + (open + path + "\">\n"@ + content + end) + tail);
    assert(tail =~= all.subrange(all.len() - tail.len(), all.len() as int));
    let i = head.len() as int + open.len();
    assert(all.subrange(i, i + path.len()) =~= path);
    assert(crate::text::matches_at(all, path, i));
    let j = i + path.len() + "\">\n"@.len();
    assert(all.subrange(j, j + content.len()) =~= content);
    assert(crate::text::matches_at(all, content, j));
}

/// A snapshot is stored under its label, and it is the one that was stored that is
/// told of and that the working tree is brought back to.
pub proof fn law_snapshots_are_stored_and_told(
    label: Seq<char>,
    made: crate::agent::checkpoint::OutputView,
    stored: crate::agent::checkpoint::OutputView,
)
    requires
        made.success,
        stored.success,
    ensures
        crate::agent::checkpoint::said(made.stdout).len() > 0 ==> {
            let sha = crate::agent::checkpoint::said(made.stdout);
            let c = crate::agent::checkpoint::CheckpointView {
                label,
                stage: crate::agent::checkpoint::StageView::Creating,
            };
            let (stage, step) = crate::agent::checkpoint::checkpoint_step(c, Ok(made));
            &&& step matches crate::agent::checkpoint::CheckpointStepView::Run(args) && args.len()
                == 5 && args[4] == sha && label.is_suffix_of(args[3])
            &&& crate::agent::checkpoint::checkpoint_step(
                crate::agent::checkpoint::CheckpointView { label, stage },
                Ok(stored),
            ).1 == crate::agent::checkpoint::CheckpointStepView::Done(Ok(Some(sha)))
            &&& crate::agent::checkpoint::restore_of(sha).contains(sha)
        },
{
    let sha = crate::agent::checkpoint::said(made.stdout);
    let name = "agent-m: "@ + label;
    assert(label =~= name.subrange(name.len() - label.len(), name.len() as int));
    assert(crate::agent::checkpoint::restore_of(sha)[2] == sha);
}

/// A name that can stand in a branch is its own slug, and no character is lost.
pub proof fn law_plain_names_are_their_slug(name: Seq<char>)
    ensures
        crate::agent::worktree::slug_of(name).len() == name.len(),
        (forall|i: int|
            0 <= i < name.len() ==> crate::text::is_alnum(#[trigger] name[i]) || name[i] == '-'
                || name[i] == '_') ==> crate::agent::worktree::slug_of(name) == name,
        name.len() > 0 ==> crate::agent::worktree::session_slug(Some(name), seq![])
            == crate::agent::worktree::slug_of(name),
{
    if forall|i: int|
        0 <= i < name.len() ==> crate::text::is_alnum(#[trigger] name[i]) || name[i] == '-'
            || name[i] == '_' {
        assert(crate::agent::worktree::slug_of(name) =~= name);
    }
}

} // verus!
