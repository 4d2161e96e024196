//! What holds of the values of a flow: templates, conditions, answers and records.
use vstd::prelude::*;

verus! {

/// A reference is replaced with what its path leads to: a string as it is, anything
/// else as JSON. What stands before it stays, and what stands behind it is replaced on
/// its own.
pub proof fn law_references_are_replaced(
    values: Map<Seq<char>, crate::json::JsonView>,
    before: Seq<char>,
    path: Seq<char>,
    after: Seq<char>,
)
    requires
        !before.contains('$'),
        path.len() > 0,
        forall|i: int| 0 <= i < path.len() ==> crate::flow::model::ref_char(#[trigger] path[i]),
    ensures
        ({
            let all = crate::flow::model::expanded(
                values,
                before + seq!['$', '{'] + path + seq!['}'] + after,
            );
            let rest = crate::flow::model::expanded(values, after);
            match crate::flow::model::lookup(values, path) {
                Some(crate::json::JsonView::Str(t)) => all == before + t + rest,
                Some(other) => all == before + crate::json::json_text(other) + rest,
                None => all == before + seq!['$', '{'] + path + seq!['}'] + rest,
            }
        }),
{
    reveal_strlit("${");
    reveal_strlit("}");
    let s = before + seq!['$', '{'] + path + seq!['}'] + after;
    let i = before.len() as int;
    let n = path.len() as int;
    assert forall|k: int| i + 2 <= k < i + 2 + n implies crate::flow::model::ref_char(
        #[trigger] s[k],
    ) by {
        assert(s[k] == path[k - (i + 2)]);
    }
    assert(s[i + 2 + n] == '}');
    lemma_path_ends(s, i + 2, n);
    assert(crate::flow::model::ref_at(s, i, n));
    assert forall|k: int| 0 <= k < i implies #[trigger] s[k] != '$' by {
        assert(s[k] == before[k]);
    }
    lemma_first_reference(s, 0, i, n);
    assert(s.take(i) =~= before);
    assert(s.subrange(i + 2, i + 2 + n) =~= path);
    assert(s.skip(i + n + 3) =~= after);
    assert("${"@ =~= seq!['$', '{']);
    assert("}"@ =~= seq!['}']);
    assert(before + ("${"@ + path + "}"@) =~= before + seq!['$', '{'] + path + seq!['}']);
}

proof fn lemma_path_ends(s: Seq<char>, from: int, n: int)
    requires
        0 <= from,
        0 <= n,
        from + n < s.len(),
        forall|k: int| from <= k < from + n ==> crate::flow::model::ref_char(#[trigger] s[k]),
        s[from + n] == '}',
    ensures
        crate::flow::model::path_len(s, from) == n,
    decreases n,
{
    if n > 0 {
        lemma_path_ends(s, from + 1, n - 1);
    }
}

proof fn lemma_first_reference(s: Seq<char>, from: int, i: int, n: int)
    requires
        0 <= from <= i,
        crate::flow::model::ref_at(s, i, n),
        crate::flow::model::path_len(s, i + 2) == n,
        forall|k: int| from <= k < i ==> #[trigger] s[k] != '$',
    ensures
        crate::flow::model::first_ref(s, from) == Some((i, n)),
    decreases i - from,
{
    if from < i {
        assert(s[from] != '$');
        lemma_first_reference(s, from + 1, i, n);
    }
}

/// A text without a dollar sign holds no reference: it stays as it is.
pub proof fn law_plain_templates_stay(values: Map<Seq<char>, crate::json::JsonView>, s: Seq<char>)
    requires
        !s.contains('$'),
    ensures
        crate::flow::model::expanded(values, s) == s,
{
    assert forall|i: int, n: int| #[trigger] crate::flow::model::ref_at(s, i, n) implies false by {
        assert(s[i] == '$');
    }
    crate::flow::model::law_missing_references_stay(values, s);
}

/// In a document the strings are templates, wherever they stand; its shape, its keys
/// and everything else stay.
pub proof fn law_documents_keep_their_shape(
    values: Map<Seq<char>, crate::json::JsonView>,
    items: Seq<crate::json::JsonView>,
    fields: Map<Seq<char>, crate::json::JsonView>,
    s: Seq<char>,
    b: bool,
    n: crate::json::NumberView,
    i: int,
    key: Seq<char>,
)
    requires
        0 <= i < items.len(),
        fields.contains_key(key),
    ensures
        crate::flow::model::expanded_json(values, crate::json::JsonView::Str(s))
            == crate::json::JsonView::Str(crate::flow::model::expanded(values, s)),
        crate::flow::model::expanded_json(values, crate::json::JsonView::Bool(b))
            == crate::json::JsonView::Bool(b),
        crate::flow::model::expanded_json(values, crate::json::JsonView::Number(n))
            == crate::json::JsonView::Number(n),
        crate::flow::model::expanded_json(values, crate::json::JsonView::Null)
            == crate::json::JsonView::Null,
        crate::flow::model::expanded_json(values, crate::json::JsonView::Array(items)) matches crate::json::JsonView::Array(
            all,
        ) && all.len() == items.len() && all[i] == crate::flow::model::expanded_json(
            values,
            items[i],
        ),
        crate::flow::model::expanded_json(values, crate::json::JsonView::Object(fields)) matches crate::json::JsonView::Object(
            all,
        ) && all.dom() =~= fields.dom() && all[key] == crate::flow::model::expanded_json(
            values,
            fields[key],
        ),
{
    reveal_with_fuel(crate::flow::model::expanded_json, 2);
}

/// A path of two segments leads to what the first one leads to, and from there on.
pub proof fn law_paths_lead_inside(
    values: Map<Seq<char>, crate::json::JsonView>,
    outer: Seq<char>,
    inner: Seq<char>,
)
    requires
        !outer.contains('.'),
        !inner.contains('.'),
        !values.contains_key(outer + seq!['.'] + inner),
    ensures
        crate::flow::model::lookup(values, outer + seq!['.'] + inner) == if values.contains_key(
            outer,
        ) {
            values[outer].field(inner)
        } else {
            None
        },
{
    let dot = seq!['.'];
    let whole = outer + dot + inner;
    let nothing = Seq::<char>::empty();
    assert(dot[0] == '.');
    assert forall|i: int| 0 <= i < outer.len() implies !dot.contains(#[trigger] outer[i]) by {
        assert(outer.contains(outer[i]));
    }
    assert forall|i: int| 0 <= i < inner.len() implies !dot.contains(#[trigger] inner[i]) by {
        assert(inner.contains(inner[i]));
    }
    crate::text::lemma_split_piece(nothing, outer, dot + inner, dot);
    crate::text::lemma_split_piece(nothing, inner, nothing, dot);
    assert(outer + (dot + inner) =~= whole);
    assert(inner + nothing =~= inner);
    assert(nothing + outer =~= outer);
    assert(nothing + inner =~= inner);
    assert((dot + inner).skip(1) =~= inner);
    assert(dot.contains((dot + inner)[0]));
    let pieces = crate::text::spec_split(whole, dot);
    assert(pieces =~= seq![outer, inner]);
    reveal_with_fuel(crate::flow::model::walked, 3);
}

/// Whether a text is one word, without the characters of which operators and quotes
/// are made.
pub open spec fn is_plain_word(s: Seq<char>) -> bool {
    forall|i: int|
        0 <= i < s.len() ==> !crate::text::is_white(#[trigger] s[i]) && s[i] != '=' && s[i] != '!'
            && s[i] != '"'
}

/// Two words are equal where they are the same, and differ where they are not.
pub proof fn law_words_are_compared(a: Seq<char>, b: Seq<char>)
    requires
        is_plain_word(a),
        is_plain_word(b),
    ensures
        crate::flow::record::holds(a + seq!['=', '='] + b) == (a == b),
        crate::flow::record::holds(a + seq!['!', '='] + b) == (a != b),
{
    reveal_strlit("==");
    reveal_strlit("!=");
    assert("=="@ =~= seq!['=', '=']);
    assert("!="@ =~= seq!['!', '=']);
    lemma_compared(a, b, '=');
    lemma_compared(a, b, '!');
}

proof fn lemma_compared(a: Seq<char>, b: Seq<char>, c: char)
    requires
        is_plain_word(a),
        is_plain_word(b),
        c == '=' || c == '!',
    ensures
        ({
            let s = a + seq![c, '='] + b;
            let n = a.len() as int;
            &&& crate::text::spec_trim(s) == s
            &&& crate::text::spec_find(s, seq!['!', '=']) == if c == '!' {
                Some(n)
            } else {
                None
            }
            &&& c == '=' ==> crate::text::spec_find(s, seq!['=', '=']) == Some(n)
            &&& crate::flow::record::sides_equal(s, n) == (a == b)
        }),
{
    let s = a + seq![c, '='] + b;
    let n = a.len() as int;
    assert forall|k: int| 0 <= k < s.len() implies !crate::text::is_white(#[trigger] s[k]) by {
        if k < n {
            assert(s[k] == a[k]);
        } else if k >= n + 2 {
            assert(s[k] == b[k - (n + 2)]);
        }
    }
    assert forall|k: int| 0 <= k < s.len() && k != n && k != n + 1 implies #[trigger] s[k] != '='
        && s[k] != '!' by {
        if k < n {
            assert(s[k] == a[k]);
        } else {
            assert(s[k] == b[k - (n + 2)]);
        }
    }
    assert(s[n] == c && s[n + 1] == '=');
    let op = seq![c, '='];
    crate::text::law_find_is_first(s, op);
    assert(s.subrange(n, n + 2) =~= op);
    assert(crate::text::matches_at(s, op, n));
    assert forall|j: int| 0 <= j < n implies !#[trigger] crate::text::matches_at(s, op, j) by {
        if crate::text::matches_at(s, op, j) {
            assert(s.subrange(j, j + 2)[0] == s[j]);
        }
    }
    if c == '=' {
        let other = seq!['!', '='];
        crate::text::law_find_is_first(s, other);
        assert forall|j: int| !#[trigger] crate::text::matches_at(s, other, j) by {
            if crate::text::matches_at(s, other, j) {
                assert(s.subrange(j, j + 2)[0] == s[j]);
                assert(s[j] == '!');
            }
        }
    }
    assert(s.take(n) =~= a);
    assert(s.skip(n + 2) =~= b);
    lemma_plain_operand(a);
    lemma_plain_operand(b);
}

proof fn lemma_plain_operand(a: Seq<char>)
    requires
        is_plain_word(a),
    ensures
        crate::flow::record::operand(a) == a,
{
    let quote = seq!['"'];
    assert(crate::text::spec_trim(a) == a);
    if a.len() > 0 {
        assert(a[0] != '"' && a.last() != '"');
        assert(!quote.contains(a[0]));
        assert(!quote.contains(a.last()));
    }
}

/// A bare word holds unless it stands for nothing.
pub proof fn law_bare_words_hold(a: Seq<char>)
    requires
        is_plain_word(a),
    ensures
        crate::flow::record::holds(a) == (a != "false"@ && a != "no"@ && a != "0"@ && a.len() != 0
            && a != "empty"@),
{
    reveal_strlit("==");
    reveal_strlit("!=");
    reveal_strlit("");
    assert(crate::text::spec_trim(a) == a);
    crate::text::law_find_is_first(a, "!="@);
    crate::text::law_find_is_first(a, "=="@);
    assert forall|j: int| !#[trigger] crate::text::matches_at(a, "!="@, j) by {
        if crate::text::matches_at(a, "!="@, j) {
            assert(a.subrange(j, j + 2)[0] == a[j]);
        }
    }
    assert forall|j: int| !#[trigger] crate::text::matches_at(a, "=="@, j) by {
        if crate::text::matches_at(a, "=="@, j) {
            assert(a.subrange(j, j + 2)[0] == a[j]);
        }
    }
    assert(a.len() == 0 ==> a =~= ""@);
}

/// Whether a part of a message is text.
pub open spec fn is_text(part: crate::ai::types::ContentView) -> bool {
    part is Text
}

/// The answer of an agent is all the text of its last message, in order, a line each;
/// what follows that message does not count.
pub proof fn law_answers_are_the_last_message(
    before: Seq<crate::agent::message::SessionView>,
    message: crate::agent::message::SessionView,
    after: Seq<crate::agent::message::SessionView>,
    streamed: Seq<char>,
)
    requires
        message is Assistant,
        forall|i: int| 0 <= i < after.len() ==> !(#[trigger] after[i] is Assistant),
    ensures
        ({
            let parts = message->Assistant_content.filter(|p: crate::ai::types::ContentView| is_text(p));
            crate::flow::record::answer_of(before.push(message) + after, streamed)
                == crate::text::spec_join(
                parts.map_values(|p: crate::ai::types::ContentView| p->Text_text),
                "\n"@,
            )
        }),
        crate::flow::record::answer_of(after, streamed) == streamed,
    decreases after.len(),
{
    let all = before.push(message) + after;
    if after.len() == 0 {
        assert(all =~= before.push(message));
        assert(all.last() == message);
        lemma_texts_of(message->Assistant_content);
    } else {
        law_answers_are_the_last_message(before, message, after.drop_last(), streamed);
        assert(all.drop_last() =~= before.push(message) + after.drop_last());
        assert(all.last() == after.last());
        assert(!(after[after.len() - 1] is Assistant));
    }
}

proof fn lemma_texts_of(parts: Seq<crate::ai::types::ContentView>)
    ensures
        crate::flow::record::texts_of(parts) == parts.filter(
            |p: crate::ai::types::ContentView| is_text(p),
        ).map_values(|p: crate::ai::types::ContentView| p->Text_text),
    decreases parts.len(),
{
    reveal(Seq::filter);
    let f = |p: crate::ai::types::ContentView| is_text(p);
    let g = |p: crate::ai::types::ContentView| p->Text_text;
    if parts.len() == 0 {
        assert(crate::flow::record::texts_of(parts) =~= parts.filter(f).map_values(g));
    } else {
        let init = parts.drop_last();
        lemma_texts_of(init);
        if is_text(parts.last()) {
            assert(init.filter(f).push(parts.last()).map_values(g) =~= init.filter(f).map_values(
                g,
            ).push(g(parts.last())));
        }
    }
}

/// The state file tells of every record, in order, a line each, with its name, its
/// kind and how it ended.
pub proof fn law_the_state_tells_of_every_record(
    name: Seq<char>,
    records: Seq<crate::flow::record::RecordView>,
    more: Seq<crate::flow::record::RecordView>,
    record: crate::flow::record::RecordView,
)
    ensures
        crate::flow::record::state_of(name, records + more) == crate::flow::record::state_of(
            name,
            records,
        ) + crate::flow::record::record_lines(more),
        ({
            let line = crate::flow::record::record_lines(seq![record]);
            &&& exists|i: int| #[trigger] crate::text::matches_at(line, record.name, i)
            &&& exists|i: int| #[trigger] crate::text::matches_at(line, record.step_type, i)
            &&& exists|i: int| #[trigger] crate::text::matches_at(line, record.status.mark(), i)
            &&& line.last() == '\n'
        }),
        exists|i: int|
            #[trigger] crate::text::matches_at(
                crate::flow::record::state_of(name, records),
                name,
                i,
            ),
{
    lemma_record_lines(records, more);
    let head = "# STATE.md — flow navigation\n\n## Flow: "@;
    let s = crate::flow::record::state_of(name, records);
    assert(s.subrange(head.len() as int, head.len() as int + name.len()) =~= name);
    assert(crate::text::matches_at(s, name, head.len() as int));
    assert(crate::flow::record::state_of(name, records + more) =~= s
        + crate::flow::record::record_lines(more));
    reveal_strlit(")\n");
    let one = seq![record];
    let line = crate::flow::record::record_line(record);
    assert(one.drop_last() =~= Seq::empty());
    assert(crate::flow::record::record_lines(one.drop_last()).len() == 0);
    assert(crate::flow::record::record_lines(one) =~= line);
    let a = "- ["@.len() as int;
    let m = record.status.mark();
    assert(line.subrange(a, a + m.len()) =~= m);
    assert(crate::text::matches_at(line, m, a));
    let b = a + m.len() + "] **"@.len();
    assert(line.subrange(b, b + record.name.len()) =~= record.name);
    assert(crate::text::matches_at(line, record.name, b));
    let c = b + record.name.len() + "** ("@.len();
    assert(line.subrange(c, c + record.step_type.len()) =~= record.step_type);
    assert(crate::text::matches_at(line, record.step_type, c));
}

proof fn lemma_record_lines(
    records: Seq<crate::flow::record::RecordView>,
    more: Seq<crate::flow::record::RecordView>,
)
    ensures
        crate::flow::record::record_lines(records + more) == crate::flow::record::record_lines(
            records,
        ) + crate::flow::record::record_lines(more),
    decreases more.len(),
{
    let all = records + more;
    if more.len() == 0 {
        assert(all =~= records);
        assert(crate::flow::record::record_lines(all) =~= crate::flow::record::record_lines(records)
            + crate::flow::record::record_lines(more));
    } else {
        lemma_record_lines(records, more.drop_last());
        assert(all.drop_last() =~= records + more.drop_last());
        assert(all.last() == more.last());
        assert(crate::flow::record::record_lines(all) =~= crate::flow::record::record_lines(records)
            + crate::flow::record::record_lines(more));
    }
}

/// The words for how a step stands tell one status from another.
pub proof fn law_statuses_are_told_apart(
    a: crate::flow::record::StepStatus,
    b: crate::flow::record::StepStatus,
)
    ensures
        a.tag() == b.tag() ==> a == b,
        a.word() == b.word() ==> a == b,
        a.mark() == b.mark() ==> a == b || ((a is Pending || a is Running) && (b is Pending || b
            is Running)),
        a.word().skip(1) == a.tag().skip(1),
{
    reveal_strlit("Pending");
    reveal_strlit("Running");
    reveal_strlit("Succeeded");
    reveal_strlit("Failed");
    reveal_strlit("Skipped");
    reveal_strlit("pending");
    reveal_strlit("running");
    reveal_strlit("succeeded");
    reveal_strlit("failed");
    reveal_strlit("skipped");
    reveal_strlit("x");
    reveal_strlit("!");
    reveal_strlit("~");
    reveal_strlit(" ");
    assert(a.tag()[0] == b.tag()[0] && a.tag().len() == b.tag().len() ==> a == b);
    assert(a.word()[0] == b.word()[0] && a.word().len() == b.word().len() ==> a == b);
    assert(a.mark()[0] == b.mark()[0] ==> a == b || ((a is Pending || a is Running) && (b is Pending
        || b is Running)));
    assert(a.word().skip(1) =~= a.tag().skip(1));
}

proof fn lemma_record_keys_differ()
    ensures
        "name"@ != "step_type"@,
        "name"@ != "status"@,
        "name"@ != "output"@,
        "name"@ != "error"@,
        "step_type"@ != "status"@,
        "step_type"@ != "output"@,
        "step_type"@ != "error"@,
        "status"@ != "output"@,
        "status"@ != "error"@,
        "output"@ != "error"@,
        "prompt"@ != "max_turns"@,
        "prompt"@ != "schema"@,
        "prompt"@ != "tools"@,
        "max_turns"@ != "schema"@,
        "max_turns"@ != "tools"@,
        "schema"@ != "tools"@,
{
    reveal_strlit("name");
    reveal_strlit("step_type");
    reveal_strlit("status");
    reveal_strlit("output");
    reveal_strlit("error");
    reveal_strlit("prompt");
    reveal_strlit("max_turns");
    reveal_strlit("schema");
    reveal_strlit("tools");
    assert("name"@.len() == 4);
    assert("step_type"@.len() == 9);
    assert("status"@[0] != "output"@[0]);
    assert("status"@.len() == 6);
    assert("output"@.len() == 6);
    assert("error"@.len() == 5);
    assert("prompt"@[0] != "schema"@[0]);
    assert("prompt"@.len() == 6);
    assert("schema"@.len() == 6);
    assert("max_turns"@.len() == 9);
    assert("tools"@.len() == 5);
}

/// A run is written with all its records, in order, each under its own fields.
pub proof fn law_records_are_written_whole(
    records: Seq<crate::flow::record::RecordView>,
    i: int,
)
    requires
        0 <= i < records.len(),
    ensures
        crate::flow::record::records_json(records) is Array,
        ({
            let items = crate::flow::record::records_json(records)->Array_0;
            let r = records[i];
            &&& items.len() == records.len()
            &&& crate::ai::sent::holds_text(items[i], "name"@, r.name)
            &&& crate::ai::sent::holds_text(items[i], "step_type"@, r.step_type)
            &&& crate::ai::sent::holds_text(items[i], "status"@, r.status.tag())
            &&& r.output is Some ==> items[i].field("output"@) == r.output
            &&& r.output is None ==> items[i].field("output"@) == Some(crate::json::JsonView::Null)
            &&& r.error is Some ==> crate::ai::sent::holds_text(items[i], "error"@, r.error->0)
            &&& r.error is None ==> items[i].field("error"@) == Some(crate::json::JsonView::Null)
        }),
{
    lemma_record_keys_differ();
}

/// A sub-agent is given its prompt, its turns, its schema and its tools.
pub proof fn law_sub_agents_are_given_their_task(
    prompt: Seq<char>,
    schema: Option<crate::json::JsonView>,
    tools: Option<Seq<Seq<char>>>,
    max_turns: usize,
    i: int,
)
    ensures
        ({
            let given = crate::flow::record::arguments_of(prompt, schema, tools, max_turns);
            &&& crate::ai::sent::holds_text(given, "prompt"@, prompt)
            &&& given.field("max_turns"@) == Some(
                crate::json::JsonView::Number(crate::json::NumberView::Unsigned(max_turns as u64)),
            )
            &&& given.field("schema"@) == schema
            &&& tools is None ==> given.field("tools"@) is None
            &&& tools matches Some(names) ==> given.field("tools"@) is Some && given.field(
                "tools"@,
            )->0 is Array && given.field("tools"@)->0->Array_0.len() == names.len() && (0 <= i
                < names.len() ==> given.field("tools"@)->0->Array_0[i]
                == crate::json::JsonView::Str(names[i]))
        }),
{
    lemma_record_keys_differ();
}

} // verus!
