//! Reports of tickets, one JSON document to a line.
use crate::cli::pickup::PickedTicket;
use crate::flow::executor::{FlowProgress, FlowRun};
use crate::json::{self, Json};
use crate::text;
use vstd::prelude::*;

verus! {

/// Where the report of a ticket is.
pub fn report_path(agent_dir: &str, key: &str) -> (r: String)
    ensures
        r@ == crate::paths::joined(
            crate::paths::joined(agent_dir@, "tickets"@),
            key@ + ".jsonl"@,
        ),
{
    let dir = crate::paths::join(agent_dir, "tickets");
    crate::paths::join(&dir, &text::concat(key, ".jsonl"))
}

/// Whether a file can be appended to: it is empty or ends with a line feed.
pub open spec fn whole_lines(contents: Seq<char>) -> bool {
    contents.len() == 0 || contents.last() == '\n'
}

proof fn lemma_lines_go_append(cur: Seq<char>, rest: Seq<char>, line: Seq<char>)
    requires
        whole_lines(rest),
        rest.len() == 0 ==> cur.len() == 0,
        forall|i: int| 0 <= i < line.len() ==> #[trigger] line[i] != '\n',
        line.len() > 0,
        line.last() != '\r',
    ensures
        text::lines_go(cur, rest + line.push('\n')) == text::lines_go(cur, rest).push(line),
    decreases rest.len(),
{
    let all = rest + line.push('\n');
    if rest.len() == 0 {
        assert(all =~= line.push('\n'));
        assert(cur =~= seq![]);
        lemma_one_line(seq![], line);
        assert(text::lines_go(cur, rest) =~= seq![]);
        assert(text::lines_go(cur, all) =~= seq![line]);
    } else {
        assert(all.skip(1) =~= rest.skip(1) + line.push('\n'));
        if rest.len() > 1 {
            assert(rest.skip(1).last() == rest.last());
        }
        if rest[0] == '\n' {
            lemma_lines_go_append(seq![], rest.skip(1), line);
            assert(text::lines_go(cur, all) =~= text::lines_go(cur, rest).push(line));
        } else {
            assert(rest.len() > 1);
            lemma_lines_go_append(cur.push(rest[0]), rest.skip(1), line);
        }
    }
}

proof fn lemma_one_line(cur: Seq<char>, rest: Seq<char>)
    requires
        forall|i: int| 0 <= i < rest.len() ==> #[trigger] rest[i] != '\n',
        (cur + rest).len() > 0,
        (cur + rest).last() != '\r',
    ensures
        text::lines_go(cur, rest.push('\n')) == seq![cur + rest],
    decreases rest.len(),
{
    let all = rest.push('\n');
    if rest.len() == 0 {
        assert(cur + rest =~= cur);
        assert(all.skip(1) =~= seq![]);
        assert(text::lines_go(seq![], all.skip(1)) =~= seq![]);
        assert(text::lines_go(cur, all) =~= seq![cur]);
    } else {
        assert(all.skip(1) =~= rest.skip(1).push('\n'));
        assert(cur.push(rest[0]) + rest.skip(1) =~= cur + rest);
        assert forall|i: int| 0 <= i < rest.skip(1).len() implies #[trigger] rest.skip(1)[i]
            != '\n' by {
            assert(rest.skip(1)[i] == rest[i + 1]);
        }
        lemma_one_line(cur.push(rest[0]), rest.skip(1));
    }
}

/// What is appended to a report for a document. It is the last line then, and the
/// lines before it stay as they are. Reading that line gives the document back.
pub fn append(value: &Json) -> (r: String)
    ensures
        r@ == json::json_text(value.deep_view()).push('\n'),
        whole_lines(r@),
        forall|before: Seq<char>|
            whole_lines(before) ==> #[trigger] text::spec_lines(before + r@) == text::spec_lines(
                before,
            ).push(json::json_text(value.deep_view())),
        value.deep_view().canonical() && value.deep_view().no_reals()
            && value.deep_view().within_depth(127) ==> json::reads_as(
            json::json_text(value.deep_view()),
            value.deep_view(),
        ),
{
    let mut line = json::render(value);
    let ghost t = line@;
    line.push('\n');
    proof {
        assert forall|before: Seq<char>| whole_lines(before) implies #[trigger] text::spec_lines(
            before + line@,
        ) == text::spec_lines(before).push(t) by {
            lemma_lines_go_append(seq![], before, t);
        }
    }
    line
}

/// The lines of a report, given its contents where there is one.
pub fn read_lines(path: &str, contents: Option<&str>) -> (r: Result<Vec<String>, String>)
    ensures
        match contents {
            Some(c) => r matches Ok(lines) && lines.deep_view() == text::spec_lines(c@),
            None => r matches Err(e) && e@ == "no ticket report at "@ + path@,
        },
{
    match contents {
        Some(c) => Ok(text::lines(c)),
        None => Err(text::concat("no ticket report at ", path)),
    }
}

/// A text, or another where it is missing.
pub open spec fn text_or(j: json::JsonView, key: Seq<char>, other: Seq<char>) -> Seq<char> {
    match j.text_field(key) {
        Some(t) => t,
        None => other,
    }
}

/// A verdict in words.
pub open spec fn verdict_line(j: json::JsonView) -> Seq<char> {
    let rounds = match j.field("fix_rounds"@) {
        Some(n) => match n.unsigned() {
            Some(n) => n,
            None => 0,
        },
        None => 0,
    };
    let head = text_or(j, "ts"@, ""@) + " verdict "@ + text_or(j, "status"@, ""@)
        + " (fix rounds: "@ + text::spec_decimal(rounds as nat) + ")"@;
    match j.text_field("pr"@) {
        Some(pr) if pr.len() > 0 => head + " 🔗 "@ + pr,
        _ => head,
    }
}

/// A line of a report in words; one that is not understood stays as it is.
pub open spec fn line_text(line: Seq<char>) -> Seq<char> {
    match json::parsed_json(line) {
        Err(_) => line,
        Ok(j) => {
            let ts = text_or(j, "ts"@, ""@);
            let kind = text_or(j, "kind"@, "?"@);
            if kind == "pickup"@ {
                ts + " pickup "@ + text_or(j, "ticket"@, ""@) + " — "@ + text_or(
                    j,
                    "summary"@,
                    ""@,
                )
            } else if kind == "step"@ {
                ts + " ["@ + text_or(j, "status"@, ""@) + "] "@ + text_or(j, "step"@, ""@)
            } else if kind == "verdict"@ {
                verdict_line(j)
            } else {
                line
            }
        },
    }
}

fn get_or(j: &Json, key: &str, other: &str) -> (r: String)
    ensures
        r@ == text_or(j.deep_view(), key@, other@),
{
    match j.get_str(key) {
        Some(t) => t.to_owned(),
        None => other.to_owned(),
    }
}

fn verdict_text(j: &Json) -> (r: String)
    ensures
        r@ == verdict_line(j.deep_view()),
{
    let rounds: u64 = match j.get("fix_rounds") {
        Some(n) => match n.as_u64() {
            Some(n) => n,
            None => 0,
        },
        None => 0,
    };
    let mut r = text::concat5(
        &get_or(j, "ts", ""),
        " verdict ",
        &get_or(j, "status", ""),
        " (fix rounds: ",
        &text::decimal(rounds),
    );
    r.append(")");
    if let Some(pr) = j.get_str("pr") {
        if text::count(pr) > 0 {
            r.append(" 🔗 ");
            r.append(pr);
        }
    }
    r
}

/// A line of a report in words; one that is not understood stays as it is.
pub fn render_line(line: &str) -> (r: String)
    ensures
        r@ == line_text(line@),
{
    let j = match json::parse(line) {
        Ok(j) => j,
        Err(_) => {
            return line.to_owned();
        },
    };
    let ts = get_or(&j, "ts", "");
    let kind = get_or(&j, "kind", "?");
    if text::same(&kind, "pickup") {
        text::concat5(
            &ts,
            " pickup ",
            &get_or(&j, "ticket", ""),
            " — ",
            &get_or(&j, "summary", ""),
        )
    } else if text::same(&kind, "step") {
        text::concat5(&ts, " [", &get_or(&j, "status", ""), "] ", &get_or(&j, "step", ""))
    } else if text::same(&kind, "verdict") {
        verdict_text(&j)
    } else {
        line.to_owned()
    }
}

/// The lines of a report that were not printed yet, in words.
pub fn new_lines(lines: &[String], printed: usize) -> (out: Vec<String>)
    requires
        printed <= lines@.len(),
    ensures
        out.deep_view() == lines.deep_view().skip(printed as int).map_values(
            |l: Seq<char>| line_text(l),
        ),
{
    let ghost rest = lines.deep_view().skip(printed as int);
    let mut out: Vec<String> = Vec::new();
    let mut i: usize = printed;
    while i < lines.len()
        invariant
            printed <= i <= lines@.len(),
            out@.len() == i - printed,
            forall|k: int|
                0 <= k < out@.len() ==> (#[trigger] out@[k])@ == line_text(
                    lines@[printed + k]@,
                ),
        decreases lines.len() - i,
    {
        out.push(render_line(&lines[i]));
        i += 1;
    }
    assert(out.deep_view() =~= rest.map_values(|l: Seq<char>| line_text(l)));
    out
}

/// What is said of a ticket that has no report.
pub fn no_report(path: &str, ticket: &str) -> (r: String)
    ensures
        r@ == "no ticket report for `"@ + ticket@ + "` at "@ + path@
            + " (run `agent-m pickup --poll --workers N` or `agent-m ticket-run --ticket "@
            + ticket@ + "` first)"@,
{
    let mut r = text::concat5(
        "no ticket report for `",
        ticket,
        "` at ",
        path,
        " (run `agent-m pickup --poll --workers N` or `agent-m ticket-run --ticket ",
    );
    r.append(ticket);
    r.append("` first)");
    r
}

// --------------------------------------------------------------------- reports
/// The report that a ticket was picked up.
pub fn pickup_report(ts: &str, picked: &PickedTicket) -> (r: Json)
    ensures
        r.deep_view() == crate::ai::wire::jo(
            map![
                "ts"@ => crate::ai::wire::js(ts@),
                "kind"@ => crate::ai::wire::js("pickup"@),
                "ticket"@ => crate::ai::wire::js(picked.deep_view().key),
                "summary"@ => crate::ai::wire::js(picked.deep_view().summary),
                "repo"@ => crate::ai::wire::js(picked.deep_view().repo),
            ],
        ),
{
    let r = Json::object().with("ts", Json::text(ts)).with("kind", Json::text("pickup")).with(
        "ticket",
        Json::text(&picked.key),
    ).with("summary", Json::text(&picked.summary)).with("repo", Json::text(&picked.repo));
    assert(r.deep_view()->Object_0 =~= map![
        "ts"@ => crate::ai::wire::js(ts@),
        "kind"@ => crate::ai::wire::js("pickup"@),
        "ticket"@ => crate::ai::wire::js(picked.deep_view().key),
        "summary"@ => crate::ai::wire::js(picked.deep_view().summary),
        "repo"@ => crate::ai::wire::js(picked.deep_view().repo),
    ]);
    r
}

/// The report of the progress of a step.
pub fn step_report(ts: &str, progress: &FlowProgress) -> (r: Json)
    ensures
        r.deep_view() == crate::ai::wire::jo(
            map![
                "ts"@ => crate::ai::wire::js(ts@),
                "kind"@ => crate::ai::wire::js("step"@),
                "step"@ => crate::ai::wire::js(progress.deep_view().step_name),
                "status"@ => crate::ai::wire::js(progress.status.word()),
            ],
        ),
{
    let r = Json::object().with("ts", Json::text(ts)).with("kind", Json::text("step")).with(
        "step",
        Json::text(&progress.step_name),
    ).with("status", Json::text(progress.status.as_str()));
    assert(r.deep_view()->Object_0 =~= map![
        "ts"@ => crate::ai::wire::js(ts@),
        "kind"@ => crate::ai::wire::js("step"@),
        "step"@ => crate::ai::wire::js(progress.deep_view().step_name),
        "status"@ => crate::ai::wire::js(progress.status.word()),
    ]);
    r
}

/// The report of how a flow ended.
pub open spec fn verdict_of(ts: Seq<char>, run: crate::flow::executor::RunView) -> json::JsonView {
    crate::ai::wire::jo(
        map![
            "ts"@ => crate::ai::wire::js(ts),
            "kind"@ => crate::ai::wire::js("verdict"@),
            "status"@ => crate::ai::wire::js(
                if crate::cli::slack::any_failed(run.steps) {
                    "FAILED"@
                } else {
                    "OK"@
                },
            ),
            "fix_rounds"@ => json::JsonView::Number(
                json::NumberView::Unsigned(run.fix_rounds as u64),
            ),
            "pr"@ => crate::ai::wire::js(
                match crate::cli::slack::pr_link(run.steps) {
                    Some(link) => link,
                    None => ""@,
                },
            ),
        ],
    )
}

/// The report of how a flow ended, and whether it failed.
pub fn verdict_report(ts: &str, run: &FlowRun) -> (r: (Json, bool))
    ensures
        r.0.deep_view() == verdict_of(ts@, run.deep_view()),
        r.1 == crate::cli::slack::any_failed(run.deep_view().steps),
{
    let failed = crate::cli::slack::has_failed(run.steps.as_slice());
    let link = match crate::cli::slack::find_link(run.steps.as_slice()) {
        Some(link) => link,
        None => "".to_owned(),
    };
    let status = if failed {
        "FAILED"
    } else {
        "OK"
    };
    let j = Json::object().with("ts", Json::text(ts)).with("kind", Json::text("verdict")).with(
        "status",
        Json::text(status),
    ).with("fix_rounds", Json::number(run.fix_rounds as u64)).with("pr", Json::Str(link));
    assert(j.deep_view()->Object_0 =~= verdict_of(ts@, run.deep_view())->Object_0);
    (j, failed)
}

} // verus!
