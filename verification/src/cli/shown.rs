//! What holds of what a user sees: replies, outputs of tools, files and commands.
use vstd::prelude::*;

verus! {

/// What is let through of a reply is its beginning, and what is held back is the rest:
/// nothing is lost, repeated or put in another order. Where a block begins, all that
/// stands before it is let through.
pub proof fn law_replies_are_shown_in_order(
    a: crate::cli::ansi::AnsiView,
    r: crate::cli::repl::ReplView,
    delta: Seq<char>,
)
    ensures
        ({
            let all = r.filter + delta;
            let out = crate::cli::repl::let_through(all);
            let next = crate::cli::repl::on_text(a, r, delta).0;
            &&& out + next.filter == r.filter + delta
            &&& next.turn_text == r.turn_text + delta
            &&& crate::text::has(all, "<trust>"@) ==> crate::text::begins(next.filter, "<trust>"@)
        }),
        crate::cli::print::printed(
            r.filter,
            crate::agent::session::EventView::MessageUpdate {
                delta: crate::ai::types::StreamView::TextDelta { delta },
            },
        ).out.is_prefix_of(r.filter + delta),
{
    let all = r.filter + delta;
    let out = crate::cli::repl::let_through(all);
    crate::text::law_find_is_first(all, "<trust>"@);
    crate::text::law_find_is_first(all, "<confidence>"@);
    if crate::text::byte_count(all) > 12 {
        crate::text::lemma_bytes_within_is_beginning(
            all,
            (crate::text::byte_count(all) - 12) as nat,
        );
    }
    assert(out.len() <= all.len());
    assert(out =~= all.take(out.len() as int));
    assert(all.take(out.len() as int) + all.skip(out.len() as int) =~= all);
    assert(out =~= all.subrange(0, out.len() as int));
    if crate::text::has(all, "<trust>"@) {
        let i = crate::text::spec_find(all, "<trust>"@)->0;
        let n = "<trust>"@.len() as int;
        assert(out.len() == i);
        assert(all.skip(i).subrange(0, n) =~= all.subrange(i, i + n));
    }
}

/// A tool call is printed with the name of the tool and its arguments, and a notice
/// with what it says.
pub proof fn law_tools_and_notices_are_printed(
    held: Seq<char>,
    id: Seq<char>,
    name: Seq<char>,
    arguments: crate::json::JsonView,
    message: Seq<char>,
)
    ensures
        crate::cli::print::printed(
            held,
            crate::agent::session::EventView::ToolExecutionStart {
                tool_call_id: id,
                name,
                arguments,
            },
        ).err matches Some(line) && crate::cli::laws::within(name, line)
            && crate::json::json_text(arguments).is_suffix_of(line),
        crate::cli::print::printed(
            held,
            crate::agent::session::EventView::Notice { message },
        ).err matches Some(line) && message.is_suffix_of(line),
{
    let args = crate::json::json_text(arguments);
    let line = "[tool] "@ + name + " "@ + args;
    let i = "[tool] "@.len() as int;
    assert(line.subrange(i, i + name.len()) =~= name);
    assert(crate::text::matches_at(line, name, i));
    assert(args =~= line.subrange(line.len() - args.len(), line.len() as int));
    let said = "[notice] "@ + message;
    assert(message =~= said.subrange(said.len() - message.len(), said.len() as int));
}

/// What is written of a tool is what the tool was called with, and what it gave.
pub proof fn law_tool_events_are_written_whole(
    id: Seq<char>,
    name: Seq<char>,
    arguments: crate::json::JsonView,
    outcome: crate::agent::call::OutcomeView,
    message: Seq<char>,
    delta: Seq<char>,
    turn: usize,
)
    ensures
        ({
            let data = crate::cli::print::event_json(
                crate::agent::session::EventView::ToolExecutionStart {
                    tool_call_id: id,
                    name,
                    arguments,
                },
                message,
            ).field("data"@);
            &&& data is Some
            &&& crate::ai::sent::holds_text(data->0, "name"@, name)
            &&& data->0.field("arguments"@) == Some(arguments)
        }),
        ({
            let data = crate::cli::print::event_json(
                crate::agent::session::EventView::ToolExecutionEnd { tool_call_id: id, outcome },
                message,
            ).field("data"@);
            &&& data is Some
            &&& crate::ai::sent::holds_text(data->0, "content"@, outcome.content)
            &&& data->0.field("is_error"@) == Some(crate::json::JsonView::Bool(outcome.is_error))
        }),
        ({
            let data = crate::cli::print::event_json(
                crate::agent::session::EventView::MessageUpdate {
                    delta: crate::ai::types::StreamView::TextDelta { delta },
                },
                message,
            ).field("data"@);
            data is Some && crate::ai::sent::holds_text(data->0, "delta"@, delta)
        }),
        ({
            let data = crate::cli::print::event_json(
                crate::agent::session::EventView::TurnStart { turn },
                message,
            ).field("data"@);
            data is Some && data->0.field("turn"@) == Some(
                crate::json::JsonView::Number(crate::json::NumberView::Unsigned(turn as u64)),
            )
        }),
{
    reveal_strlit("event");
    reveal_strlit("data");
    reveal_strlit("name");
    reveal_strlit("arguments");
    reveal_strlit("is_error");
    reveal_strlit("content");
    assert("event"@.len() == 5);
    assert("data"@.len() == 4);
    assert("name"@.len() == 4);
    assert("arguments"@.len() == 9);
    assert("is_error"@.len() == 8);
    assert("content"@.len() == 7);
}

/// The output of a tool is kept whole under the tool's name, as the newest, and the
/// others stay as they are, but for the oldest where there are too many.
pub proof fn law_outputs_are_kept_whole(
    a: crate::cli::ansi::AnsiView,
    r: crate::cli::repl::ReplView,
    name: Seq<char>,
    arguments: crate::json::JsonView,
    outcome: crate::agent::call::OutcomeView,
    width: usize,
)
    requires
        r.current_tool == Some((name, arguments)),
    ensures
        ({
            let store = crate::cli::repl::on_tool_end(a, r, outcome, width).0.store;
            &&& store.len() > 0
            &&& store.last().name == name
            &&& store.last().full == outcome.content
            &&& store.drop_last().is_suffix_of(r.store)
            &&& r.store.len() < crate::cli::toolout::MAX_STORED ==> store.drop_last() == r.store
        }),
{
    let all = r.store.push(crate::cli::toolout::OutputView { name, full: outcome.content });
    let store = crate::cli::toolout::kept(all);
    assert(all.last().name == name);
    let init = store.drop_last();
    assert(all.drop_last() =~= r.store);
    assert(init =~= r.store.subrange(r.store.len() - init.len(), r.store.len() as int));
    assert(r.store.subrange(0, r.store.len() as int) =~= r.store);
}

/// A tool that changes a file has the file kept first, under the path that the call
/// names; another tool keeps nothing.
pub proof fn law_changed_files_are_kept_first(
    a: crate::cli::ansi::AnsiView,
    r: crate::cli::repl::ReplView,
    name: Seq<char>,
    arguments: crate::json::JsonView,
    path: Seq<char>,
)
    ensures
        ({
            let (next, outs) = crate::cli::repl::on_tool_start(a, r, name, arguments);
            &&& next.current_tool == Some((name, arguments))
            &&& (name == "write"@ || name == "edit"@) && crate::ai::sent::holds_text(
                arguments,
                "path"@,
                path,
            ) ==> outs.len() > 0 && outs[0] == crate::cli::repl::OutView::Snapshot(path)
            &&& name != "write"@ && name != "edit"@ ==> outs
                == crate::cli::repl::closed_reply(a, r).1.push(
                crate::cli::repl::OutView::StopThinking,
            )
        }),
{
    let with = crate::cli::repl::ReplView { current_tool: Some((name, arguments)), ..r };
    let shown = crate::cli::repl::closed_reply(a, r).1;
    assert(crate::cli::repl::closed_reply(a, with).1 == shown);
    assert(Seq::<crate::cli::repl::OutView>::empty() + shown + seq![
        crate::cli::repl::OutView::StopThinking,
    ] =~= shown.push(crate::cli::repl::OutView::StopThinking));
}

/// The number of an output counts from the newest, and its whole text is shown.
pub proof fn law_outputs_are_found_by_their_number(
    store: Seq<crate::cli::toolout::OutputView>,
    n: nat,
    rest: Seq<Seq<char>>,
)
    requires
        1 <= n <= store.len() <= usize::MAX,
    ensures
        crate::cli::toolout::selected(store, crate::text::spec_decimal(n)) == Some(
            store[store.len() - n],
        ),
        store[store.len() - n].full.is_suffix_of(
            crate::cli::commands::tool_output_of(store, seq![crate::text::spec_decimal(n)] + rest),
        ),
        store.last().full.is_suffix_of(crate::cli::commands::tool_output_of(store, seq![])),
{
    let s = crate::text::spec_decimal(n);
    crate::texts::law_decimals_are_read_back(n);
    reveal_strlit("");
    reveal_strlit("last");
    reveal_strlit("latest");
    assert(crate::text::is_digit(s[0]));
    assert(crate::text::is_digit(s[s.len() - 1]));
    assert("last"@[0] == 'l');
    assert("latest"@[0] == 'l');
    assert("last"@[3] == 't');
    assert("latest"@.len() == 6);
    assert(s != ""@ && s != "last"@ && s != "latest"@);
    assert(crate::text::spec_trim(s) == s);
    let found = store[store.len() - n];
    let shown = "[Tool Output: "@ + found.name + "]\n"@ + found.full;
    assert((seq![s] + rest)[0] == s);
    assert(found.full =~= shown.subrange(shown.len() - found.full.len(), shown.len() as int));
    assert(crate::text::spec_trim("last"@) == "last"@);
    let last = store.last();
    let newest = "[Tool Output: "@ + last.name + "]\n"@ + last.full;
    assert(last.full =~= newest.subrange(newest.len() - last.full.len(), newest.len() as int));
}

/// A file that a word mentions is shown under its path with its text, whole where it
/// is short enough, in the place of the word.
pub proof fn law_mentioned_files_are_shown(
    done: crate::cli::files::Inlined,
    cwd: Seq<char>,
    canonical_cwd: Option<Seq<char>>,
    word: Seq<char>,
    path: Seq<char>,
    fact: crate::cli::files::FactView,
)
    requires
        crate::cli::files::is_taken(cwd, canonical_cwd, path, fact),
        crate::cli::files::image_type(
            crate::cli::files::extension(crate::paths::joined(cwd, path)),
        ) is None,
    ensures
        ({
            let all = crate::cli::files::with_mention(done, cwd, canonical_cwd, word, path, fact);
            let content = crate::cli::files::content_of(fact.bytes);
            &&& all.images == done.images
            &&& all.words.len() == done.words.len() + 1
            &&& all.words.drop_last() == done.words
            &&& crate::cli::laws::within(path, all.words.last())
            &&& content.len() <= crate::cli::files::MAX_FILE_CHARS ==> crate::cli::laws::within(
                content,
                all.words.last(),
            )
        }),
{
    let content = crate::cli::files::content_of(fact.bytes);
    let block = crate::cli::files::file_block(path, content);
    let all = done.words.push(block);
    assert(all.drop_last() =~= done.words);
    let i = "<file name=\""@.len() as int;
    assert(block.subrange(i, i + path.len()) =~= path);
    assert(crate::text::matches_at(block, path, i));
    if content.len() <= crate::cli::files::MAX_FILE_CHARS {
        let j = i + path.len() + "\">\n"@.len();
        assert(block.subrange(j, j + content.len()) =~= content);
        assert(crate::text::matches_at(block, content, j));
    }
}

/// An image that a word mentions is attached with its type, and what is attached
/// gives back the bytes of the file; the word is left out.
pub proof fn law_mentioned_images_are_attached(
    done: crate::cli::files::Inlined,
    cwd: Seq<char>,
    canonical_cwd: Option<Seq<char>>,
    word: Seq<char>,
    path: Seq<char>,
    fact: crate::cli::files::FactView,
    mime: Seq<char>,
)
    requires
        crate::cli::files::is_taken(cwd, canonical_cwd, path, fact),
        crate::cli::files::image_type(
            crate::cli::files::extension(crate::paths::joined(cwd, path)),
        ) == Some(mime),
    ensures
        ({
            let all = crate::cli::files::with_mention(done, cwd, canonical_cwd, word, path, fact);
            let head = "data:"@ + mime + ";base64,"@;
            &&& all.words == done.words
            &&& all.images.len() == done.images.len() + 1
            &&& all.images.drop_last() == done.images
            &&& head.is_prefix_of(all.images.last())
            &&& fact.bytes == Some(
                crate::cli::files::base64_bytes(all.images.last().skip(head.len() as int)),
            )
        }),
{
    let bytes = fact.bytes->0;
    let head = "data:"@ + mime + ";base64,"@;
    let image = head + crate::cli::files::base64(bytes);
    crate::cli::files::law_base64_is_read_back(bytes);
    assert(image =~= "data:"@ + mime + ";base64,"@ + crate::cli::files::base64(bytes));
    assert(image.skip(head.len() as int) =~= crate::cli::files::base64(bytes));
    assert(head =~= image.subrange(0, head.len() as int));
    assert(done.images.push(image).drop_last() =~= done.images);
}

/// A model that the provider offers is switched to when it is named, and nothing else
/// of the agent changes.
pub proof fn law_offered_models_are_switched_to(
    agent: crate::agent::session::AgentView,
    models: Seq<crate::ai::models::ModelView>,
    i: int,
    rest: Seq<Seq<char>>,
)
    requires
        0 <= i < models.len(),
    ensures
        ({
            let after = crate::cli::commands::model_command(
                agent,
                models,
                seq![models[i].id] + rest,
            ).0;
            &&& after.options.model == models[i].id
            &&& after.messages == agent.messages
            &&& after.options.mode == agent.options.mode
            &&& after.options.system_prompt == agent.options.system_prompt
        }),
        crate::cli::commands::model_command(agent, models, seq![]).0 == agent,
{
    lemma_model_from(models, models[i].id, i, 0);
    assert((seq![models[i].id] + rest)[0] == models[i].id);
}

proof fn lemma_model_from(
    models: Seq<crate::ai::models::ModelView>,
    id: Seq<char>,
    i: int,
    from: int,
)
    requires
        0 <= from <= i < models.len(),
        models[i].id == id,
    ensures
        crate::ai::models::model_from(models, id, from) matches Some(k) && from <= k <= i
            && models[k].id == id,
    decreases i - from,
{
    if models[from].id != id {
        lemma_model_from(models, id, i, from + 1);
    }
}

/// A variant of the model in use is set when it is named, `none` takes it away, and
/// one that the model lacks changes nothing.
pub proof fn law_variants_are_set(
    agent: crate::agent::session::AgentView,
    models: Seq<crate::ai::models::ModelView>,
    variant: Seq<char>,
    i: int,
)
    requires
        crate::ai::models::model_from(models, agent.options.model, 0) == Some(i),
        variant != "none"@,
        variant != "default"@,
    ensures
        models[i].variants.contains(variant) ==> crate::cli::commands::variant_command(
            agent,
            models,
            seq![variant],
        ).0.options.variant == Some(variant),
        !models[i].variants.contains(variant) ==> crate::cli::commands::variant_command(
            agent,
            models,
            seq![variant],
        ).0 == agent,
        crate::cli::commands::variant_command(
            agent,
            models,
            seq!["none"@],
        ).0.options.variant is None,
{
}

/// A plan shows every step, in order: one more step is one more line behind the others,
/// with its number and its text.
pub proof fn law_plans_show_every_step(
    todos: Seq<crate::cli::repl::TodoView>,
    todo: crate::cli::repl::TodoView,
)
    ensures
        ({
            let before = crate::cli::commands::todos_of(todos);
            let all = crate::cli::commands::todos_of(todos.push(todo));
            before.is_prefix_of(all) && (todo.text + seq!['\n']).is_suffix_of(
                all.skip(before.len() as int),
            ) && crate::cli::laws::within(
                crate::text::spec_decimal(todo.step as nat) + ". "@ + todo.text,
                all.skip(before.len() as int),
            )
        }),
{
    reveal_strlit("\n");
    assert("\n"@ =~= seq!['\n']);
    let before = crate::cli::commands::todos_of(todos);
    let all = crate::cli::commands::todos_of(todos.push(todo));
    assert(todos.push(todo).drop_last() =~= todos);
    let mark = if todo.completed {
        "✓"@
    } else {
        "○"@
    };
    let text = crate::text::spec_decimal(todo.step as nat) + ". "@ + todo.text;
    let front = "  "@ + mark + " "@;
    let line = front + text + "\n"@;
    assert(all =~= before + line);
    assert(all.skip(before.len() as int) =~= line);
    assert(before =~= all.subrange(0, before.len() as int));
    let end = todo.text + seq!['\n'];
    assert(end =~= line.subrange(line.len() - end.len(), line.len() as int));
    assert(line.subrange(front.len() as int, front.len() as int + text.len()) =~= text);
    assert(crate::text::matches_at(line, text, front.len() as int));
}

/// The journal shows every row, in order: one more row is one more line behind the others,
/// with its time, its kind and its text.
pub proof fn law_journals_show_every_row(
    rows: Seq<crate::cli::commands::JournalView>,
    row: crate::cli::commands::JournalView,
)
    ensures
        ({
            let before = crate::cli::commands::journal_of(rows);
            let all = crate::cli::commands::journal_of(rows.push(row));
            let line = all.skip(before.len() as int);
            before.is_prefix_of(all) && (row.text + seq!['\n']).is_suffix_of(line)
                && crate::cli::laws::within(row.time, line) && crate::cli::laws::within(
                row.kind,
                line,
            )
        }),
{
    reveal_strlit("\n");
    assert("\n"@ =~= seq!['\n']);
    let before = crate::cli::commands::journal_of(rows);
    let all = crate::cli::commands::journal_of(rows.push(row));
    assert(rows.push(row).drop_last() =~= rows);
    let line = "["@ + row.time + "] "@ + row.kind + " "@ + row.text + "\n"@;
    assert(all =~= before + line);
    assert(all.skip(before.len() as int) =~= line);
    assert(before =~= all.subrange(0, before.len() as int));
    let end = row.text + seq!['\n'];
    assert(end =~= line.subrange(line.len() - end.len(), line.len() as int));
    let i = "["@.len() as int;
    assert(line.subrange(i, i + row.time.len()) =~= row.time);
    assert(crate::text::matches_at(line, row.time, i));
    let j = i + row.time.len() + "] "@.len();
    assert(line.subrange(j, j + row.kind.len()) =~= row.kind);
    assert(crate::text::matches_at(line, row.kind, j));
}

/// Every refinement that is proposed is shown, in order: one more is one more line behind
/// the others, with all that it says.
pub proof fn law_refinements_are_all_shown(
    ops: Seq<crate::cli::commands::RefineView>,
    op: crate::cli::commands::RefineView,
)
    ensures
        ({
            let before = crate::cli::commands::refinements_of(ops);
            let all = crate::cli::commands::refinements_of(ops.push(op));
            let line = all.skip(before.len() as int);
            before.is_prefix_of(all) && (op.text + seq!['\n']).is_suffix_of(line)
                && crate::cli::laws::within(op.action, line) && crate::cli::laws::within(
                op.kind,
                line,
            ) && crate::cli::laws::within(op.reason, line)
        }),
{
    reveal_strlit("\n");
    assert("\n"@ =~= seq!['\n']);
    let before = crate::cli::commands::refinements_of(ops);
    let all = crate::cli::commands::refinements_of(ops.push(op));
    assert(ops.push(op).drop_last() =~= ops);
    let line = "  ["@ + op.action + " "@ + op.kind + "] "@ + op.reason + ": "@ + op.text
        + "\n"@;
    assert(all =~= before + line);
    assert(all.skip(before.len() as int) =~= line);
    assert(before =~= all.subrange(0, before.len() as int));
    let end = op.text + seq!['\n'];
    assert(end =~= line.subrange(line.len() - end.len(), line.len() as int));
    let i = "  ["@.len() as int;
    assert(line.subrange(i, i + op.action.len()) =~= op.action);
    assert(crate::text::matches_at(line, op.action, i));
    let j = i + op.action.len() + " "@.len();
    assert(line.subrange(j, j + op.kind.len()) =~= op.kind);
    assert(crate::text::matches_at(line, op.kind, j));
    let k = j + op.kind.len() + "] "@.len();
    assert(line.subrange(k, k + op.reason.len()) =~= op.reason);
    assert(crate::text::matches_at(line, op.reason, k));
}

} // verus!
