//! What holds of what a session is made of: keys, providers, tools, plugins, and the
//! panels in which replies stand.
use vstd::prelude::*;

verus! {

/// Each request adds what its cache served to the hits, what had to be read to the
/// misses, and one to the requests.
pub proof fn law_requests_are_counted(
    stats: crate::ai::cache::CacheStats,
    usage: crate::ai::types::Usage,
)
    requires
        stats.has_room(usage),
    ensures
        stats.recorded(usage).hit_tokens - stats.hit_tokens == usage.cache_read_tokens,
        stats.recorded(usage).miss_tokens - stats.miss_tokens == usage.cache_creation_tokens,
        stats.recorded(usage).requests - stats.requests == 1,
{
}

/// A line of a key file names what stands before its first sign of equality, and gives
/// it what stands behind.
pub proof fn law_assignments_are_read(name: Seq<char>, value: Seq<char>)
    requires
        forall|i: int|
            0 <= i < name.len() ==> !crate::text::is_white(#[trigger] name[i]) && name[i] != '=',
        forall|i: int| 0 <= i < value.len() ==> !crate::text::is_white(#[trigger] value[i]),
    ensures
        crate::ai::keys::assignment(name + seq!['='] + value) == Some((name, value)),
        crate::ai::keys::assignment("export "@ + (name + seq!['='] + value)) == Some((name, value)),
{
    let line = name + seq!['='] + value;
    reveal_strlit("export ");
    let word = "export "@;
    assert(word[6] == ' ' && word[0] == 'e');
    assert forall|i: int| 0 <= i < line.len() implies !crate::text::is_white(#[trigger] line[i]) by {
        if i < name.len() {
            assert(line[i] == name[i]);
        } else if i > name.len() {
            assert(line[i] == value[i - name.len() - 1]);
        }
    }
    assert(crate::text::spec_trim(line) == line);
    if crate::text::begins(line, word) {
        assert(line.subrange(0, 7)[6] == ' ');
        assert(line[6] == ' ');
    }
    let n = name.len() as int;
    assert forall|k: int| 0 <= k < n implies #[trigger] line[k] != '=' by {
        assert(line[k] == name[k]);
    }
    assert(line[n] == '=');
    lemma_equals(line, 0, n);
    assert(line.take(n) =~= name);
    assert(line.skip(n + 1) =~= value);
    assert(crate::text::spec_trim(name) == name);
    assert(crate::text::spec_trim(value) == value);
    let whole = word + line;
    assert(whole[0] == 'e');
    assert(whole.last() == line.last());
    assert(!crate::text::is_white(line[line.len() - 1]));
    assert(crate::text::spec_trim(whole) == whole);
    assert(whole.subrange(0, 7) =~= word);
    assert(whole.skip(7) =~= line);
}

proof fn lemma_equals(s: Seq<char>, from: int, n: int)
    requires
        0 <= from <= n < s.len(),
        forall|k: int| from <= k < n ==> #[trigger] s[k] != '=',
        s[n] == '=',
    ensures
        crate::text::find_set_from(s, seq!['='], from) == Some(n),
    decreases n - from,
{
    let set = seq!['='];
    assert(set[0] == '=');
    if from < n {
        assert(!set.contains(s[from]));
        lemma_equals(s, from + 1, n);
    } else {
        assert(set.contains(s[from]));
    }
}

/// The key of a provider in a document is the one that stands under its own id.
pub proof fn law_keys_stand_under_their_provider(
    root: crate::json::JsonView,
    providers: crate::json::JsonView,
    provider: crate::json::JsonView,
    id: Seq<char>,
    key: Seq<char>,
)
    requires
        key.len() > 0,
    ensures
        root.field("providers"@) == Some(providers) && providers.field(id) == Some(provider)
            && crate::ai::sent::holds_text(provider, "apiKey"@, key)
            ==> crate::ai::keys::document_key(root, id) == Some(key),
        root.field("providers"@) is None && crate::ai::sent::holds_text(root, id, key)
            ==> crate::ai::keys::document_key(root, id) == Some(key),
        root.field("providers"@) is None && root.text_field(id) is None
            ==> crate::ai::keys::document_key(root, id) is None,
{
}

/// The providers that can be used are offered as they were read, in order, and those
/// that cannot are left out.
pub proof fn law_usable_providers_are_offered(
    entries: Seq<Option<crate::ai::providers::ConfigView>>,
    config: crate::ai::providers::ConfigView,
)
    ensures
        config.usable() ==> crate::ai::providers::usable_configs(entries.push(Some(config)))
            == crate::ai::providers::usable_configs(entries).push(config),
        !config.usable() ==> crate::ai::providers::usable_configs(entries.push(Some(config)))
            == crate::ai::providers::usable_configs(entries),
        crate::ai::providers::usable_configs(entries.push(None))
            == crate::ai::providers::usable_configs(entries),
        config.usable() ==> config.id.len() > 0 && config.base_url.len() > 0 && config.model.len()
            > 0,
{
    assert(entries.push(Some(config)).drop_last() =~= entries);
    assert(entries.push(None).drop_last() =~= entries);
}

/// The models that a provider lists are offered, its own first and none twice for it,
/// and each with the limits of the provider.
pub proof fn law_listed_models_are_offered(
    config: crate::ai::providers::ConfigView,
    ids: Seq<Seq<char>>,
    i: int,
)
    requires
        config.models == Some(ids),
    ensures
        crate::ai::providers::model_ids(config, seq![]) == seq![config.model] + ids.filter(
            |m: Seq<char>| m != config.model,
        ),
        ({
            let models = crate::ai::providers::models_view(config, seq![]);
            0 <= i < models.len() ==> models[i].context_window == Some(config.context_window)
                && models[i].supports_images == config.supports_images && models[i].id
                == crate::ai::providers::model_ids(config, seq![])[i] && (config.reasoning
                ==> models[i].reasoning)
        }),
{
    lemma_others(ids, config.model);
}

proof fn lemma_others(ids: Seq<Seq<char>>, first: Seq<char>)
    ensures
        crate::ai::providers::others(ids, first) == ids.filter(|m: Seq<char>| m != first),
    decreases ids.len(),
{
    reveal(Seq::filter);
    let f = |m: Seq<char>| m != first;
    if ids.len() == 0 {
        assert(crate::ai::providers::others(ids, first) =~= ids.filter(f));
    } else {
        lemma_others(ids.drop_last(), first);
        assert(f(ids.last()) == (ids.last() != first));
    }
}

/// What is given goes before what the task asks for, and that before the default; for
/// the provider as for the model.
pub proof fn law_what_is_given_goes_first(
    given: Seq<char>,
    task: Seq<char>,
    usual: Seq<char>,
    other: Option<Seq<char>>,
    another: Option<Seq<char>>,
    configs: Seq<crate::ai::providers::ConfigView>,
    models: Seq<crate::ai::models::ModelView>,
)
    ensures
        crate::cli::startup::provider_id_of(Some(given), other, another, configs) == given,
        crate::cli::startup::provider_id_of(None, Some(task), another, configs) == task,
        crate::cli::startup::provider_id_of(None, None, Some(usual), configs) == usual,
        configs.len() > 0 ==> crate::cli::startup::provider_id_of(None, None, None, configs)
            == configs[0].id,
        crate::cli::startup::model_of(Some(given), other, another, models) == given,
        crate::cli::startup::model_of(None, Some(task), another, models) == task,
        crate::cli::startup::model_of(None, None, Some(usual), models) == usual,
        models.len() > 0 ==> crate::cli::startup::model_of(None, None, None, models)
            == models[0].id,
{
}

/// The tools of a session are those that are named, or the usual ones where none is,
/// but for those that are excluded, in the order of all tools.
pub proof fn law_wanted_tools_are_active(
    all: Seq<Seq<char>>,
    usual: Seq<Seq<char>>,
    named: Seq<Seq<char>>,
    excluded: Seq<Seq<char>>,
)
    ensures
        named.len() > 0 ==> crate::cli::startup::built(all, usual, named, excluded) == all.filter(
            |t: Seq<char>| named.contains(t) && !excluded.contains(t),
        ),
        named.len() == 0 ==> crate::cli::startup::built(all, usual, named, excluded) == all.filter(
            |t: Seq<char>| usual.contains(t) && !excluded.contains(t),
        ),
    decreases all.len(),
{
    reveal(Seq::filter);
    let f = |t: Seq<char>| named.contains(t) && !excluded.contains(t);
    let g = |t: Seq<char>| usual.contains(t) && !excluded.contains(t);
    if all.len() > 0 {
        law_wanted_tools_are_active(all.drop_last(), usual, named, excluded);
        assert(f(all.last()) == (named.contains(all.last()) && !excluded.contains(all.last())));
        assert(g(all.last()) == (usual.contains(all.last()) && !excluded.contains(all.last())));
    }
}

/// Tools may touch the paths that are given and, behind those, the paths of the
/// settings, in order.
pub proof fn law_allowed_paths_add_up(
    given: Seq<Seq<char>>,
    settings: crate::json::JsonView,
    items: Seq<crate::json::JsonView>,
    paths: Seq<Seq<char>>,
)
    requires
        items == paths.map_values(|p: Seq<char>| crate::json::JsonView::Str(p)),
    ensures
        settings.field("allowedPaths"@) == Some(crate::json::JsonView::Array(items))
            ==> crate::cli::startup::allowed_of(given, settings) == given + paths,
        settings.field("allowedPaths"@) is None ==> crate::cli::startup::allowed_of(given, settings)
            == given,
{
    lemma_strings_in(paths);
}

proof fn lemma_strings_in(paths: Seq<Seq<char>>)
    ensures
        crate::cli::startup::strings_in(
            paths.map_values(|p: Seq<char>| crate::json::JsonView::Str(p)),
        ) == paths,
    decreases paths.len(),
{
    let f = |p: Seq<char>| crate::json::JsonView::Str(p);
    let items = paths.map_values(f);
    if paths.len() > 0 {
        lemma_strings_in(paths.drop_last());
        assert(items.drop_last() =~= paths.drop_last().map_values(f));
        assert(items.last() == f(paths.last()));
        assert(paths.drop_last().push(paths.last()) =~= paths);
    } else {
        assert(crate::cli::startup::strings_in(items) =~= paths);
    }
}

/// The prompt of the system begins with the base that is given, ends with what the user
/// prefers, and holds the instructions between.
pub proof fn law_system_prompts_hold_their_parts(
    base: Seq<char>,
    files: Seq<crate::agent::context::InstructionView>,
    preferences: Seq<char>,
)
    ensures
        ({
            let all = crate::cli::startup::system_prompt_of(Some(base), files, preferences);
            let instructions = crate::agent::context::instructions_text(files);
            &&& base.is_prefix_of(all)
            &&& preferences.is_suffix_of(all)
            &&& crate::text::matches_at(all, instructions, base.len() as int)
            &&& all.len() == base.len() + instructions.len() + preferences.len()
        }),
{
    let all = crate::cli::startup::system_prompt_of(Some(base), files, preferences);
    let instructions = crate::agent::context::instructions_text(files);
    let n = base.len() as int;
    assert(base =~= all.subrange(0, n));
    assert(all.subrange(n, n + instructions.len()) =~= instructions);
    assert(preferences =~= all.subrange(all.len() - preferences.len(), all.len() as int));
}

/// A plugin is cloned from its source, at its revision where one is given, to the place
/// where it is built.
pub proof fn law_plugins_are_cloned_from_their_source(
    source: Seq<char>,
    rev: Seq<char>,
    staging: Seq<char>,
)
    ensures
        ({
            let args = crate::cli::plugins::clone_of(source, Some(rev), staging);
            &&& args.len() == 7
            &&& args[0] == "clone"@
            &&& args[3] == "--branch"@ && args[4] == rev
            &&& args[5] == source && args[6] == staging
        }),
        ({
            let args = crate::cli::plugins::clone_of(source, None, staging);
            args.len() == 5 && args[3] == source && args[4] == staging
        }),
{
}

/// A plugin that is read, built and found is installed: the library of its manifest,
/// from where it was built, under its own name in the directory of the plugins.
pub proof fn law_plugins_are_installed_under_their_name(
    s: crate::cli::plugins::InstallView,
    dir: Seq<char>,
    name: Seq<char>,
    entry: Seq<char>,
    release: Seq<char>,
    are_dirs: Seq<bool>,
    files: Seq<Seq<char>>,
)
    requires
        s.stage == (crate::cli::plugins::StageView::Building { dir, name, entry }),
        crate::cli::plugins::first_dir(
            crate::cli::plugins::release_dirs(crate::paths::components(dir)),
            are_dirs,
            0,
        ) == Some(release),
    ensures
        ({
            let built = crate::cli::plugins::install_step(
                s,
                crate::cli::plugins::InstallEventView::Ran(Some(true)),
            ).0;
            let found = crate::cli::plugins::install_step(
                crate::cli::plugins::InstallView { stage: built, ..s },
                crate::cli::plugins::InstallEventView::AreDirs(are_dirs),
            ).0;
            let chosen = crate::cli::plugins::install_step(
                crate::cli::plugins::InstallView { stage: found, ..s },
                crate::cli::plugins::InstallEventView::Listing { found: true, files },
            );
            let last = crate::cli::plugins::install_step(
                crate::cli::plugins::InstallView { stage: chosen.0, ..s },
                crate::cli::plugins::InstallEventView::Exists(false),
            ).1;
            let place = crate::paths::joined(crate::paths::joined(s.agent_dir, "plugins"@), name);
            &&& chosen.1 == crate::cli::plugins::InstallActionView::CheckFree(place)
            &&& last matches crate::cli::plugins::InstallActionView::Install {
                artifact,
                dir: d,
                entry: e,
                ..
            } && artifact == crate::paths::joined(release, entry) && d == place && e
                == crate::paths::joined(place, entry)
        }),
{
}

/// The first of the places that is there is taken, and the first of the files that is
/// a library.
pub proof fn law_the_first_place_is_taken(
    dirs: Seq<Seq<char>>,
    are_dirs: Seq<bool>,
    files: Seq<Seq<char>>,
    i: int,
)
    requires
        dirs.len() == are_dirs.len(),
        0 <= i,
    ensures
        i < dirs.len() && are_dirs[i] && (forall|k: int| 0 <= k < i ==> !(#[trigger] are_dirs[k]))
            ==> crate::cli::plugins::first_dir(dirs, are_dirs, 0) == Some(dirs[i]),
        i < files.len() && crate::cli::plugins::is_library(files[i]) && (forall|k: int|
            0 <= k < i ==> !crate::cli::plugins::is_library(#[trigger] files[k]))
            ==> crate::cli::plugins::first_library(files, 0) == Some(files[i]),
{
    lemma_first_dir(dirs, are_dirs, i, 0);
    lemma_first_library(files, i, 0);
}

proof fn lemma_first_dir(dirs: Seq<Seq<char>>, are_dirs: Seq<bool>, i: int, from: int)
    requires
        dirs.len() == are_dirs.len(),
        0 <= from <= i,
    ensures
        i < dirs.len() && are_dirs[i] && (forall|k: int|
            from <= k < i ==> !(#[trigger] are_dirs[k])) ==> crate::cli::plugins::first_dir(
            dirs,
            are_dirs,
            from,
        ) == Some(dirs[i]),
    decreases i - from,
{
    if from < i {
        lemma_first_dir(dirs, are_dirs, i, from + 1);
    }
}

proof fn lemma_first_library(files: Seq<Seq<char>>, i: int, from: int)
    requires
        0 <= from <= i,
    ensures
        i < files.len() && crate::cli::plugins::is_library(files[i]) && (forall|k: int|
            from <= k < i ==> !crate::cli::plugins::is_library(#[trigger] files[k]))
            ==> crate::cli::plugins::first_library(files, from) == Some(files[i]),
    decreases i - from,
{
    if from < i {
        lemma_first_library(files, i, from + 1);
    }
}

/// A line of a reply is shown when its line feed comes, and what follows waits for its
/// own: the lines are shown one by one, in order, and none twice.
pub proof fn law_lines_are_shown_when_they_end(
    a: crate::cli::ansi::AnsiView,
    line: Seq<char>,
    rest: Seq<char>,
    width: usize,
)
    requires
        !line.contains('\n'),
    ensures
        ({
            let buf = line + seq!['\n'] + rest;
            &&& crate::cli::section::shown_lines(a, buf, width)
                == crate::cli::section::reply_line(a, line, width)
                + crate::cli::section::shown_lines(a, rest, width)
            &&& crate::cli::section::unfinished(buf) == crate::cli::section::unfinished(rest)
            &&& crate::cli::section::shown_lines(a, line, width).len() == 0
            &&& crate::cli::section::unfinished(line) == line
        }),
{
    reveal_strlit("\n");
    let feed = "\n"@;
    let buf = line + seq!['\n'] + rest;
    let n = line.len() as int;
    crate::text::law_find_is_first(buf, feed);
    crate::text::law_find_is_first(line, feed);
    assert(buf.subrange(n, n + 1) =~= feed);
    assert(crate::text::matches_at(buf, feed, n));
    assert forall|j: int| 0 <= j < n implies !#[trigger] crate::text::matches_at(buf, feed, j) by {
        if crate::text::matches_at(buf, feed, j) {
            assert(buf.subrange(j, j + 1)[0] == '\n');
            assert(line[j] == '\n');
        }
    }
    assert forall|j: int| !#[trigger] crate::text::matches_at(line, feed, j) by {
        if crate::text::matches_at(line, feed, j) {
            assert(line.subrange(j, j + 1)[0] == '\n');
            assert(line[j] == '\n');
        }
    }
    assert(buf.take(n) =~= line);
    assert(buf.skip(n + 1) =~= rest);
}

/// The line of a reply that did not end is kept until more comes, or shown at the end.
pub proof fn law_unfinished_lines_are_kept(
    a: crate::cli::ansi::AnsiView,
    b: crate::cli::section::ReplyBoxView,
    delta: Seq<char>,
)
    requires
        !b.buf.contains('\n'),
        !delta.contains('\n'),
        !crate::cli::section::overflows(b.buf + delta, b.width),
    ensures
        crate::cli::section::box_pushed(a, b, delta).0.buf == b.buf + delta,
        b.active ==> crate::cli::section::box_pushed(a, b, delta).1.len() == 0,
        b.active && b.buf.len() > 0 ==> crate::cli::section::reply_line(
            a,
            b.buf,
            b.width,
        ).is_prefix_of(crate::cli::section::box_finished(a, b).1),
{
    let buf = b.buf + delta;
    assert(!buf.contains('\n')) by {
        if buf.contains('\n') {
            let i = choose|i: int| 0 <= i < buf.len() && buf[i] == '\n';
            if i < b.buf.len() {
                assert(b.buf[i] == '\n');
            } else {
                assert(delta[i - b.buf.len()] == '\n');
            }
        }
    }
    law_lines_are_shown_when_they_end(a, buf, seq![], b.width);
    let shown = crate::cli::section::shown_lines(a, buf, b.width);
    assert(Seq::<char>::empty() + shown =~= Seq::<char>::empty());
    let line = crate::cli::section::reply_line(a, b.buf, b.width);
    let all = crate::cli::section::box_finished(a, b).1;
    if b.active && b.buf.len() > 0 {
        assert(line =~= all.subrange(0, line.len() as int));
    }
}

/// Text without the marks of code and of bold type is shown as it is.
pub proof fn law_plain_lines_stay(a: crate::cli::ansi::AnsiView, s: Seq<char>)
    requires
        !s.contains('`'),
        !s.contains('*'),
    ensures
        crate::cli::ansi::inline_of(a, s) == s,
    decreases s.len(),
{
    if s.len() > 0 {
        reveal_strlit("**");
        let rest = s.skip(1);
        assert(s[0] != '`' && s[0] != '*') by {
            assert(s.contains(s[0]));
        }
        if crate::text::begins(s, "**"@) {
            assert(s.subrange(0, 2)[0] == '*');
        }
        assert(!rest.contains('`') && !rest.contains('*')) by {
            if rest.contains('`') {
                let i = choose|i: int| 0 <= i < rest.len() && rest[i] == '`';
                assert(s[i + 1] == '`');
            }
            if rest.contains('*') {
                let i = choose|i: int| 0 <= i < rest.len() && rest[i] == '*';
                assert(s[i + 1] == '*');
            }
        }
        law_plain_lines_stay(a, rest);
        assert(seq![s[0]] + rest =~= s);
    }
}

/// What a reply says of its reliability is shown in full: its reason, its outcome, and
/// each piece of evidence with its place and its note.
pub proof fn law_decisions_show_everything(
    a: crate::cli::ansi::AnsiView,
    trust: crate::ai::trust::TrustView,
    i: int,
)
    requires
        0 <= i < trust.evidence.len(),
    ensures
        ({
            let lines = crate::cli::section::decision_lines(a, trust);
            &&& trust.reason matches Some(t) ==> lines.len() > 0 && t.is_suffix_of(lines[0])
            &&& trust.estimated_time matches Some(t) ==> t.is_suffix_of(lines.last())
            &&& exists|k: int|
                0 <= k < lines.len() && crate::cli::laws::within(
                    trust.evidence[i].file,
                    #[trigger] lines[k],
                ) && (trust.evidence[i].note matches Some(n) ==> n.is_suffix_of(lines[k]))
        }),
{
    let lines = crate::cli::section::decision_lines(a, trust);
    let first = crate::cli::section::maybe_labelled(a, "reason"@, trust.reason)
        + crate::cli::section::maybe_labelled(a, "expected"@, trust.expected_outcome)
        + crate::cli::section::maybe_labelled(a, "uncertainty"@, trust.uncertainty);
    let e = trust.evidence[i];
    let k = first.len() as int + i;
    let text = crate::cli::section::evidence_text(e);
    let line = crate::cli::section::labelled(a, "evidence"@, text);
    assert(lines[k] == line);
    let label = crate::cli::ansi::in_foreground(a, "evidence"@, crate::cli::ansi::Shade::Grey)
        + ": "@;
    assert(line =~= label + text);
    let j = label.len() as int;
    assert(line.subrange(j, j + e.file.len()) =~= e.file);
    assert(crate::text::matches_at(line, e.file, j));
    if let Some(n) = e.note {
        assert(n =~= line.subrange(line.len() - n.len(), line.len() as int));
    }
    if let Some(t) = trust.reason {
        let said = crate::cli::section::labelled(a, "reason"@, t);
        assert(lines[0] == said);
        assert(t =~= said.subrange(said.len() - t.len(), said.len() as int));
    }
    if let Some(t) = trust.estimated_time {
        let said = crate::cli::section::labelled(a, "eta"@, t);
        assert(lines.last() == said);
        assert(t =~= said.subrange(said.len() - t.len(), said.len() as int));
    }
}

} // verus!
