//! Questions to the user at the terminal.
use crate::agent::call::ToolCallInfo;
use crate::agent::risk::RiskPolicy;
use crate::agent::tool::Permission;
use crate::dup::Dup;
use crate::text;
use vstd::prelude::*;

verus! {

/// The lines of the options, numbered from one.
pub open spec fn option_lines(options: Seq<Seq<char>>, multi_select: bool, upto: int) -> Seq<char>
    decreases upto,
{
    if upto <= 0 {
        seq![]
    } else {
        option_lines(options, multi_select, upto - 1) + (if multi_select {
            "  [ ] "@
        } else {
            "  "@
        }) + text::spec_decimal(upto as nat) + ". "@ + options[upto - 1] + "\n"@
    }
}

/// A question as it is put at the terminal.
pub open spec fn question_of(
    question: Seq<char>,
    options: Option<Seq<Seq<char>>>,
    multi_select: bool,
) -> Seq<char> {
    let head = "\n\x1b[36m❓ "@ + question + "\x1b[0m\n"@;
    match options {
        Some(opts) => head + option_lines(opts, multi_select, opts.len() as int) + (
        if multi_select {
            "  Enter numbers separated by spaces (blank = cancel):\n"@
        } else {
            "  Enter number or type your answer (blank = cancel):\n"@
        }),
        None => head + "  > "@,
    }
}

/// A question as it is put at the terminal.
pub fn question_text(question: &str, options: &Option<Vec<String>>, multi_select: bool) -> (out:
    String)
    ensures
        out@ == question_of(question@, options.deep_view(), multi_select),
{
    let mut out = text::concat3("\n\x1b[36m❓ ", question, "\x1b[0m\n");
    match options {
        Some(opts) => {
            let ghost view = opts.deep_view();
            let ghost head = out@;
            let mut i: usize = 0;
            assert(head + option_lines(view, multi_select, 0) =~= head);
            while i < opts.len()
                invariant
                    i <= opts.len(),
                    view == opts.deep_view(),
                    out@ == head + option_lines(view, multi_select, i as int),
                decreases opts.len() - i,
            {
                assert(view[i as int] == opts@[i as int]@);
                out.append(
                    if multi_select {
                        "  [ ] "
                    } else {
                        "  "
                    },
                );
                out.append(&text::decimal((i + 1) as u64));
                out.append(". ");
                out.append(&opts[i]);
                out.append("\n");
                assert(out@ =~= head + option_lines(view, multi_select, i + 1));
                i += 1;
            }
            if multi_select {
                out.append("  Enter numbers separated by spaces (blank = cancel):\n");
            } else {
                out.append("  Enter number or type your answer (blank = cancel):\n");
            }
        },
        None => {
            out.append("  > ");
        },
    }
    out
}

/// The option that a number names.
pub open spec fn option_at(options: Seq<Seq<char>>, token: Seq<char>) -> Option<Seq<char>> {
    match text::spec_parse(token, usize::MAX as nat) {
        Some(n) => if 1 <= n <= options.len() {
            Some(options[n - 1])
        } else {
            None
        },
        None => None,
    }
}

/// The options that the numbers among the tokens name.
pub open spec fn options_at(options: Seq<Seq<char>>, tokens: Seq<Seq<char>>) -> Seq<Seq<char>>
    decreases tokens.len(),
{
    if tokens.len() == 0 {
        seq![]
    } else {
        match option_at(options, tokens.last()) {
            Some(o) => options_at(options, tokens.drop_last()).push(o),
            None => options_at(options, tokens.drop_last()),
        }
    }
}

/// What a line answers: the option that its number names, else the line itself;
/// where several can be chosen, those that its numbers name. A blank line
/// cancels.
pub open spec fn answer_of(
    line: Option<Seq<char>>,
    options: Option<Seq<Seq<char>>>,
    multi_select: bool,
) -> Result<Seq<char>, Seq<char>> {
    let s = match line {
        Some(line) => text::spec_trim(line),
        None => seq![],
    };
    if s.len() == 0 {
        Err("cancelled"@)
    } else {
        match options {
            Some(opts) => if multi_select {
                let chosen = options_at(opts, text::spec_words(s));
                if chosen.len() == 0 {
                    Err("cancelled"@)
                } else {
                    Ok(text::spec_join(chosen, ", "@))
                }
            } else {
                match option_at(opts, s) {
                    Some(o) => Ok(o),
                    None => Ok(s),
                }
            },
            None => Ok(s),
        }
    }
}

fn pick(options: &[String], token: &str) -> (r: Option<String>)
    ensures
        r.deep_view() == option_at(options.deep_view(), token@),
{
    match text::parse_number(token, usize::MAX as u64) {
        Some(n) => {
            if n >= 1 && n <= options.len() as u64 {
                let i = (n - 1) as usize;
                assert(options.deep_view()[i as int] == options@[i as int]@);
                Some(options[i].dup())
            } else {
                None
            }
        },
        None => None,
    }
}

fn pick_all(options: &[String], tokens: &[String]) -> (out: Vec<String>)
    ensures
        out.deep_view() == options_at(options.deep_view(), tokens.deep_view()),
{
    let ghost view = tokens.deep_view();
    let mut out: Vec<String> = Vec::new();
    let mut i: usize = 0;
    assert(view.take(0) =~= seq![]);
    assert(out.deep_view() =~= seq![]);
    while i < tokens.len()
        invariant
            i <= tokens.len(),
            view == tokens.deep_view(),
            out.deep_view() == options_at(options.deep_view(), view.take(i as int)),
        decreases tokens.len() - i,
    {
        assert(view.take(i + 1).drop_last() =~= view.take(i as int));
        assert(view[i as int] == tokens@[i as int]@);
        if let Some(o) = pick(options, &tokens[i]) {
            text::put(&mut out, o);
        }
        i += 1;
    }
    assert(view.take(view.len() as int) =~= view);
    out
}

/// What a line answers; `None` stands for a line that could not be read.
pub fn resolve_answer(line: Option<&str>, options: &Option<Vec<String>>, multi_select: bool) -> (r:
    Result<String, String>)
    ensures
        crate::flow::executor::result_view(r) == answer_of(
            line.deep_view(),
            options.deep_view(),
            multi_select,
        ),
{
    let s = match line {
        Some(line) => text::trim(line),
        None => String::new(),
    };
    if text::count(&s) == 0 {
        return Err("cancelled".to_owned());
    }
    if let Some(opts) = options {
        if multi_select {
            let chosen = pick_all(opts.as_slice(), text::words(&s).as_slice());
            return if chosen.len() == 0 {
                Err("cancelled".to_owned())
            } else {
                Ok(text::join(chosen.as_slice(), ", "))
            };
        }
        if let Some(o) = pick(opts.as_slice(), &s) {
            return Ok(o);
        }
    }
    Ok(s)
}

// ------------------------------------------------------------------ approvals
/// The question whether a risky call may be made.
pub open spec fn approval_of(
    call: crate::agent::call::CallInfoView,
    risk: Option<Seq<char>>,
    consequence: Seq<char>,
) -> Seq<char> {
    "\n⚠️  [Security Gate] Tool Execution Requested:\n    Tool: "@ + call.name + "\n    Args: "@
        + crate::json::json_text(call.arguments) + "\n    Risk Level: "@ + (match risk {
        Some(r) => r,
        None => "High"@,
    }) + "\n    Consequence: "@ + consequence + "\n\n[y] Approve  [n] Deny > "@
}

/// The question whether a risky call may be made, with what it would bring about.
pub fn approval_text(policy: &RiskPolicy, call: &ToolCallInfo, consequence: &str) -> (r: String)
    ensures
        r@ == approval_of(
            call.deep_view(),
            policy.deep_view().risk(call.deep_view()),
            consequence@,
        ),
{
    let risk = match policy.risk(call) {
        Some(risk) => risk,
        None => "High".to_owned(),
    };
    let mut r = text::concat5(
        "\n⚠️  [Security Gate] Tool Execution Requested:\n    Tool: ",
        &call.name,
        "\n    Args: ",
        &crate::json::render(&call.arguments),
        "\n    Risk Level: ",
    );
    r.append(&risk);
    r.append("\n    Consequence: ");
    r.append(consequence);
    r.append("\n\n[y] Approve  [n] Deny > ");
    r
}

/// Whether a reply approves.
pub open spec fn approves(response: Option<Seq<char>>) -> bool {
    match response {
        Some(r) => {
            let s = text::lowercased(text::spec_trim(r));
            s == "y"@ || s == "yes"@
        },
        None => false,
    }
}

/// What a reply to the question permits; without a reply the call is denied.
pub fn ask_human(response: Option<&str>) -> (r: Permission)
    ensures
        r.deep_view() == if approves(response.deep_view()) {
            crate::agent::tool::PermissionView::Allowed
        } else {
            crate::agent::tool::PermissionView::Denied(
                "User denied execution via security gate."@,
            )
        },
{
    if let Some(response) = response {
        let s = text::to_lowercase(&text::trim(response));
        if text::same(&s, "y") || text::same(&s, "yes") {
            return Permission::Allowed;
        }
    }
    Permission::Denied("User denied execution via security gate.".to_owned())
}

} // verus!
