//! Which servers are configured.
use crate::dup::Dup;
use crate::json::{self, Json};
use crate::sorted::SortedMap;
use crate::text;
use vstd::prelude::*;

verus! {

/// Whether a pattern, a name or one with a `*` in it, matches a tool name.
pub open spec fn pattern_matches(name: Seq<char>, pattern: Seq<char>) -> bool {
    match text::spec_find(pattern, "*"@) {
        None => pattern == name,
        Some(i) => {
            &&& name.len() >= pattern.len() - 1
            &&& text::begins(name, pattern.take(i))
            &&& text::ends(name, pattern.skip(i + 1))
        },
    }
}

fn matches_pattern(name: &str, pattern: &str) -> (r: bool)
    ensures
        r == pattern_matches(name@, pattern@),
{
    match text::find(pattern, "*") {
        None => text::same(pattern, name),
        Some(i) => {
            proof {
                reveal_strlit("*");
                text::lemma_find_from(pattern@, "*"@, 0);
            }
            let n = text::count(pattern);
            let prefix = text::sub_string(pattern, 0, i);
            let suffix = text::sub_string(pattern, i + 1, n);
            assert(prefix@ =~= pattern@.take(i as int));
            assert(suffix@ =~= pattern@.skip(i + 1));
            text::count(name) >= n - 1 && text::starts_with(name, &prefix) && text::ends_with(
                name,
                &suffix,
            )
        },
    }
}

/// Whether one of the patterns matches a tool name.
pub fn matches_patterns(name: &str, patterns: &[String]) -> (r: bool)
    ensures
        r == exists|i: int|
            0 <= i < patterns@.len() && pattern_matches(name@, #[trigger] patterns.deep_view()[i]),
{
    let ghost view = patterns.deep_view();
    let mut i: usize = 0;
    while i < patterns.len()
        invariant
            i <= patterns.len(),
            view == patterns.deep_view(),
            forall|k: int| 0 <= k < i ==> !pattern_matches(name@, #[trigger] view[k]),
        decreases patterns.len() - i,
    {
        assert(view[i as int] == patterns@[i as int]@);
        if matches_pattern(name, &patterns[i]) {
            return true;
        }
        i += 1;
    }
    false
}

/// A pattern of one `*` matches everything.
pub proof fn law_star_matches_everything(name: Seq<char>)
    ensures
        pattern_matches(name, "*"@),
{
    reveal_strlit("*");
    reveal_with_fuel(text::find_from, 2);
    assert("*"@.take(0) =~= seq![]);
    assert("*"@.skip(1) =~= seq![]);
    assert(text::matches_at("*"@, "*"@, 0));
    assert(text::begins(name, seq![]));
    assert(name.subrange(name.len() as int, name.len() as int) =~= seq![]);
}

// ------------------------------------------------------------------ servers
/// How a server is reached: by a command that is run, or by its URL.
pub struct McpServerConfig {
    pub command: Option<String>,
    pub args: Vec<String>,
    pub env: Vec<(String, String)>,
    pub url: Option<String>,
    /// Patterns of tools that change nothing.
    pub read_only_tools: Vec<String>,
}

/// What a `McpServerConfig` stands for.
pub ghost struct ServerView {
    pub command: Option<Seq<char>>,
    pub args: Seq<Seq<char>>,
    pub env: Map<Seq<char>, Seq<char>>,
    pub url: Option<Seq<char>>,
    pub read_only_tools: Seq<Seq<char>>,
}

/// What variables with their values stand for.
pub open spec fn env_view(env: Seq<(String, String)>) -> Map<Seq<char>, Seq<char>>
    decreases env.len(),
{
    if env.len() == 0 {
        Map::empty()
    } else {
        env_view(env.drop_last()).insert(env.last().0@, env.last().1@)
    }
}

impl DeepView for McpServerConfig {
    type V = ServerView;

    open spec fn deep_view(&self) -> ServerView {
        ServerView {
            command: self.command.deep_view(),
            args: self.args.deep_view(),
            env: env_view(self.env@),
            url: self.url.deep_view(),
            read_only_tools: self.read_only_tools.deep_view(),
        }
    }
}

/// The part of a configuration under `key`, or at `index` where it is a list.
pub open spec fn part(config: json::JsonView, key: Seq<char>, index: int) -> Option<
    json::JsonView,
> {
    match config {
        json::JsonView::Array(items) => if 0 <= index < items.len() {
            Some(items[index])
        } else {
            None
        },
        _ => config.field(key),
    }
}

/// A text that may be missing or null; `None` where it is neither that nor a
/// text.
pub open spec fn optional_text(j: Option<json::JsonView>) -> Option<Option<Seq<char>>> {
    match j {
        None => Some(None),
        Some(json::JsonView::Null) => Some(None),
        Some(json::JsonView::Str(s)) => Some(Some(s)),
        _ => None,
    }
}

/// The texts of a list, if it is one of texts alone.
pub open spec fn all_texts(items: Seq<json::JsonView>) -> Option<Seq<Seq<char>>>
    decreases items.len(),
{
    if items.len() == 0 {
        Some(seq![])
    } else {
        match (all_texts(items.drop_last()), items.last()) {
            (Some(before), json::JsonView::Str(s)) => Some(before.push(s)),
            _ => None,
        }
    }
}

/// A list of texts that may be missing; `None` where it is neither that nor a
/// list of texts.
pub open spec fn optional_texts(j: Option<json::JsonView>) -> Option<Seq<Seq<char>>> {
    match j {
        None => Some(seq![]),
        Some(json::JsonView::Array(items)) => all_texts(items),
        _ => None,
    }
}

/// Variables that may be missing; `None` where they are neither that nor an
/// object of texts.
pub open spec fn optional_env(j: Option<json::JsonView>) -> Option<Map<Seq<char>, Seq<char>>> {
    match j {
        None => Some(Map::empty()),
        Some(json::JsonView::Object(m)) => if forall|k: Seq<char>| #[trigger]
            m.contains_key(k) ==> m[k] is Str {
            Some(Map::new(|k: Seq<char>| m.contains_key(k), |k: Seq<char>| m[k]->Str_0))
        } else {
            None
        },
        _ => None,
    }
}

/// The patterns of read-only tools in a configuration.
pub open spec fn read_only_part(config: json::JsonView) -> Option<json::JsonView> {
    match part(config, "readOnlyTools"@, 4) {
        Some(patterns) => Some(patterns),
        None => part(config, "read_only_tools"@, 4),
    }
}

/// The configuration of a server that a document writes, if it writes one.
pub open spec fn server_of(config: json::JsonView) -> Option<ServerView> {
    let shaped = match config {
        json::JsonView::Object(_) => true,
        json::JsonView::Array(items) => items.len() <= 5,
        _ => false,
    };
    let command = optional_text(part(config, "command"@, 0));
    let args = optional_texts(part(config, "args"@, 1));
    let env = optional_env(part(config, "env"@, 2));
    let url = optional_text(part(config, "url"@, 3));
    let patterns = optional_texts(read_only_part(config));
    if shaped && command is Some && args is Some && env is Some && url is Some && patterns is Some {
        Some(
            ServerView {
                command: command->0,
                args: args->0,
                env: env->0,
                url: url->0,
                read_only_tools: patterns->0,
            },
        )
    } else {
        None
    }
}

/// All configured servers, in the order of their names.
pub struct McpServers {
    servers: SortedMap<McpServerConfig>,
}

impl View for McpServers {
    type V = Map<Seq<char>, ServerView>;

    closed spec fn view(&self) -> Map<Seq<char>, ServerView> {
        self.servers@
    }
}

impl McpServers {
    /// The names of the servers, in order.
    pub fn names(&self) -> (out: Vec<String>)
        ensures
            crate::sorted::in_order(out.deep_view()),
            forall|k: Seq<char>| #[trigger] out.deep_view().contains(k) <==> self@.contains_key(k),
    {
        self.servers.names()
    }

    /// The server of this name.
    pub fn get(&self, name: &str) -> (r: Option<&McpServerConfig>)
        ensures
            r.deep_view() == if self@.contains_key(name@) {
                Some(self@[name@])
            } else {
                None
            },
    {
        self.servers.get(name)
    }

    /// The servers, in the order of their names.
    pub fn iter(&self) -> (out: Vec<&McpServerConfig>)
        ensures
            exists|names: Seq<Seq<char>>| #[trigger]
                crate::sorted::in_order(names) && crate::sorted::listed(
                    self@,
                    names,
                    out.deep_view(),
                ),
    {
        self.servers.iter()
    }

    /// Whether there are none.
    pub fn is_empty(&self) -> (r: bool)
        ensures
            r == (self@ == Map::<Seq<char>, ServerView>::empty()),
    {
        let names = self.servers.names();
        assert(names.deep_view().len() == names@.len());
        if names.len() > 0 {
            assert(names.deep_view().contains(names.deep_view()[0]));
            false
        } else {
            assert forall|k: Seq<char>| !(#[trigger] self@.contains_key(k)) by {
                assert(!names.deep_view().contains(k));
            }
            assert(self@ =~= Map::<Seq<char>, ServerView>::empty());
            true
        }
    }
}

/// The servers that a file configures under `mcpServers`, without those whose
/// configuration cannot be read.
pub open spec fn servers_in(file: Option<Seq<char>>) -> Map<Seq<char>, ServerView> {
    match file {
        None => Map::empty(),
        Some(contents) => match json::parsed_json(contents) {
            Ok(j) => match j.field("mcpServers"@) {
                Some(json::JsonView::Object(m)) => readable(m),
                _ => Map::empty(),
            },
            Err(_) => Map::empty(),
        },
    }
}

/// The servers among the entries whose configuration can be read.
pub open spec fn readable(m: Map<Seq<char>, json::JsonView>) -> Map<Seq<char>, ServerView> {
    Map::new(
        |k: Seq<char>| m.contains_key(k) && server_of(m[k]) is Some,
        |k: Seq<char>| server_of(m[k])->0,
    )
}

// The parts of a configuration.
fn find_part<'a>(config: &'a Json, key: &str, index: usize) -> (r: Option<&'a Json>)
    ensures
        r.deep_view() == part(config.deep_view(), key@, index as int),
{
    match config {
        Json::Array(items) => {
            assert(config.deep_view() == json::JsonView::Array(json::items_view(items@)));
            if index < items.len() {
                Some(&items[index])
            } else {
                None
            }
        },
        _ => config.get(key),
    }
}

fn read_text(j: Option<&Json>) -> (r: Option<Option<String>>)
    ensures
        r.deep_view() == optional_text(j.deep_view()),
{
    match j {
        None => Some(None),
        Some(Json::Null) => Some(None),
        Some(Json::Str(s)) => Some(Some(s.dup())),
        _ => None,
    }
}

proof fn lemma_all_texts_none(items: Seq<json::JsonView>, n: int)
    requires
        0 <= n <= items.len(),
        all_texts(items.take(n)) is None,
    ensures
        all_texts(items) is None,
    decreases items.len() - n,
{
    if n < items.len() {
        assert(items.take(n + 1).drop_last() =~= items.take(n));
        lemma_all_texts_none(items, n + 1);
    } else {
        assert(items.take(n) =~= items);
    }
}

fn read_texts(j: Option<&Json>) -> (r: Option<Vec<String>>)
    ensures
        r.deep_view() == optional_texts(j.deep_view()),
{
    let mut out: Vec<String> = Vec::new();
    assert(out.deep_view() =~= seq![]);
    match j {
        None => Some(out),
        Some(Json::Array(items)) => {
            let ghost view = json::items_view(items@);
            let mut i: usize = 0;
            assert(view.take(0) =~= seq![]);
            while i < items.len()
                invariant
                    i <= items.len(),
                    view == json::items_view(items@),
                    j.deep_view() == Some(json::JsonView::Array(view)),
                    all_texts(view.take(i as int)) == Some(out.deep_view()),
                decreases items.len() - i,
            {
                assert(view.take(i + 1).drop_last() =~= view.take(i as int));
                match &items[i] {
                    Json::Str(s) => {
                        text::put(&mut out, s.dup());
                    },
                    _ => {
                        proof {
                            lemma_all_texts_none(view, i + 1);
                        }
                        return None;
                    },
                }
                i += 1;
            }
            assert(view.take(view.len() as int) =~= view);
            Some(out)
        },
        _ => None,
    }
}

pub(crate) fn read_env(j: Option<&Json>) -> (r: Option<Vec<(String, String)>>)
    ensures
        r is Some == optional_env(j.deep_view()) is Some,
        r matches Some(env) ==> Some(env_view(env@)) == optional_env(j.deep_view()),
{
    let mut out: Vec<(String, String)> = Vec::new();
    match j {
        None => Some(out),
        Some(Json::Object(fields)) => {
            let ghost m = json::fields_view(fields@);
            let mut i: usize = 0;
            while i < fields.len()
                invariant
                    i <= fields.len(),
                    m == json::fields_view(fields@),
                    j.deep_view() == Some(json::JsonView::Object(m)),
                    forall|k: Seq<char>| #[trigger]
                        env_view(out@).contains_key(k) ==> m.contains_key(k) && m[k]
                            == json::JsonView::Str(env_view(out@)[k]),
                    forall|n: int|
                        0 <= n < i ==> env_view(out@).contains_key(#[trigger] fields@[n].0@),
                decreases fields.len() - i,
            {
                proof {
                    json::lemma_fields_view_keys(fields@, fields@[i as int].0@);
                }
                let value = json::find_field(fields.as_slice(), &fields[i].0);
                match value {
                    Some(Json::Str(s)) => {
                        let ghost before = out@;
                        assert(m.contains_key(fields@[i as int].0@));
                        assert(m[fields@[i as int].0@] == json::JsonView::Str(s@));
                        out.push((fields[i].0.dup(), s.dup()));
                        assert(out@.drop_last() =~= before);
                        assert(env_view(out@) == env_view(before).insert(
                            fields@[i as int].0@,
                            s@,
                        ));
                    },
                    _ => {
                        assert(m.contains_key(fields@[i as int].0@));
                        return None;
                    },
                }
                i += 1;
            }
            proof {
                assert forall|k: Seq<char>| #[trigger] m.contains_key(k) implies env_view(
                    out@,
                ).contains_key(k) by {
                    json::lemma_fields_view_keys(fields@, k);
                    let n = choose|n: int| 0 <= n < fields@.len() && #[trigger] fields@[n].0@ == k;
                }
                assert(env_view(out@) =~= Map::new(
                    |k: Seq<char>| m.contains_key(k),
                    |k: Seq<char>| m[k]->Str_0,
                ));
            }
            Some(out)
        },
        _ => None,
    }
}

fn read_server(config: &Json) -> (r: Option<McpServerConfig>)
    ensures
        r.deep_view() == server_of(config.deep_view()),
{
    match config {
        Json::Object(_) => {},
        Json::Array(items) => {
            assert(config.deep_view() == json::JsonView::Array(json::items_view(items@)));
            if items.len() > 5 {
                return None;
            }
        },
        _ => {
            return None;
        },
    }
    let patterns = match find_part(config, "readOnlyTools", 4) {
        Some(patterns) => Some(patterns),
        None => find_part(config, "read_only_tools", 4),
    };
    let command = read_text(find_part(config, "command", 0))?;
    let args = read_texts(find_part(config, "args", 1))?;
    let env = read_env(find_part(config, "env", 2))?;
    let url = read_text(find_part(config, "url", 3))?;
    let read_only_tools = read_texts(patterns)?;
    Some(McpServerConfig { command, args, env, url, read_only_tools })
}

fn read_servers(fields: &[(String, Json)]) -> (r: McpServers)
    ensures
        r@ == readable(json::fields_view(fields@)),
{
    let ghost m = json::fields_view(fields@);
    let mut out: SortedMap<McpServerConfig> = SortedMap::new();
    let mut i: usize = 0;
    while i < fields.len()
        invariant
            i <= fields.len(),
            m == json::fields_view(fields@),
            forall|k: Seq<char>| #[trigger]
                out@.contains_key(k) ==> m.contains_key(k) && server_of(m[k]) == Some(out@[k]),
            forall|n: int|
                0 <= n < i ==> out@.contains_key(#[trigger] fields@[n].0@) || server_of(
                    m[fields@[n].0@],
                ) is None,
        decreases fields.len() - i,
    {
        proof {
            json::lemma_fields_view_keys(fields@, fields@[i as int].0@);
        }
        if let Some(value) = json::find_field(fields, &fields[i].0) {
            if let Some(config) = read_server(value) {
                assert(m.contains_key(fields@[i as int].0@));
                assert(server_of(m[fields@[i as int].0@]) == Some(config.deep_view()));
                out.insert(&fields[i].0, config);
            }
        }
        i += 1;
    }
    proof {
        assert forall|k: Seq<char>| m.contains_key(k) && server_of(m[k]) is Some implies
            #[trigger] out@.contains_key(k) by {
            json::lemma_fields_view_keys(fields@, k);
            let n = choose|n: int| 0 <= n < fields@.len() && #[trigger] fields@[n].0@ == k;
        }
        assert(out@ =~= readable(m));
    }
    McpServers { servers: out }
}

fn servers_of_file(file: Option<&str>) -> (r: McpServers)
    ensures
        r@ == servers_in(
            match file {
                Some(contents) => Some(contents@),
                None => None,
            },
        ),
{
    if let Some(contents) = file {
        if let Ok(j) = json::parse(contents) {
            if let Some(Json::Object(fields)) = j.get("mcpServers") {
                return read_servers(fields.as_slice());
            }
        }
    }
    McpServers { servers: SortedMap::new() }
}

/// The servers that `mcp.json` configures; those that `settings.json` configures
/// where it configures none. A file that is not there is `None`.
pub fn load_servers(mcp: Option<&str>, settings: Option<&str>) -> (r: McpServers)
    ensures
        ({
            let first = servers_in(
                match mcp {
                    Some(contents) => Some(contents@),
                    None => None,
                },
            );
            let second = servers_in(
                match settings {
                    Some(contents) => Some(contents@),
                    None => None,
                },
            );
            r@ == if first != Map::<Seq<char>, ServerView>::empty() {
                first
            } else {
                second
            }
        }),
{
    let first = servers_of_file(mcp);
    if first.is_empty() {
        servers_of_file(settings)
    } else {
        first
    }
}

// ----------------------------------------------------------------- defaults
/// Where a program is looked for, the first place first.
pub open spec fn candidates_of(cargo_home: Seq<char>, name: Seq<char>) -> Seq<Seq<char>> {
    seq![
        crate::paths::joined(crate::paths::joined(cargo_home, "bin"@), name),
        crate::paths::joined("/opt/homebrew/bin"@, name),
        crate::paths::joined("/usr/local/bin"@, name),
    ]
}

/// Where a program is looked for, the first place first.
pub fn bin_candidates(cargo_home: &str, name: &str) -> (out: Vec<String>)
    ensures
        out.deep_view() == candidates_of(cargo_home@, name@),
{
    let mut out: Vec<String> = Vec::new();
    assert(out.deep_view() =~= seq![]);
    let bin = crate::paths::join(cargo_home, "bin");
    text::put(&mut out, crate::paths::join(&bin, name));
    text::put(&mut out, crate::paths::join("/opt/homebrew/bin", name));
    text::put(&mut out, crate::paths::join("/usr/local/bin", name));
    assert(out.deep_view() =~= candidates_of(cargo_home@, name@));
    out
}

/// The first candidate from `from` on that is a file, else the bare name.
pub open spec fn found_from(
    candidates: Seq<Seq<char>>,
    are_files: Seq<bool>,
    name: Seq<char>,
    from: int,
) -> Seq<char>
    decreases candidates.len() - from,
{
    if from < 0 || from >= candidates.len() {
        name
    } else if from < are_files.len() && are_files[from] {
        candidates[from]
    } else {
        found_from(candidates, are_files, name, from + 1)
    }
}

/// The program to run, given which of its candidates are files.
pub fn find_bin(name: &str, candidates: &[String], are_files: &[bool]) -> (r: String)
    ensures
        r@ == found_from(candidates.deep_view(), are_files@, name@, 0),
{
    let ghost view = candidates.deep_view();
    let mut i: usize = 0;
    while i < candidates.len()
        invariant
            i <= candidates.len(),
            view == candidates.deep_view(),
            found_from(view, are_files@, name@, 0) == found_from(
                view,
                are_files@,
                name@,
                i as int,
            ),
        decreases candidates.len() - i,
    {
        assert(view[i as int] == candidates@[i as int]@);
        if i < are_files.len() && are_files[i] {
            return candidates[i].dup();
        }
        i += 1;
    }
    name.to_owned()
}

/// A list of texts, as JSON.
pub open spec fn text_array(texts: Seq<Seq<char>>) -> json::JsonView {
    crate::ai::wire::ja(texts.map_values(|t: Seq<char>| crate::ai::wire::js(t)))
}

/// The configuration that a first start writes, given the programs.
pub open spec fn default_of(
    github: Seq<char>,
    filesystem: Seq<char>,
    jira: Seq<char>,
    postgres: Seq<char>,
) -> json::JsonView {
    crate::ai::wire::jo(
        map![
            "mcpServers"@ => crate::ai::wire::jo(
                map![
                    "github"@ => github_of(github),
                    "filesystem"@ => filesystem_of(filesystem),
                    "jira"@ => jira_of(jira),
                    "postgres"@ => postgres_of(postgres),
                ],
            ),
        ],
    )
}

/// The default entry for GitHub.
pub open spec fn github_of(command: Seq<char>) -> json::JsonView {
    crate::ai::wire::jo(
        map![
            "command"@ => crate::ai::wire::js(command),
            "args"@ => text_array(seq!["stdio"@]),
            "env"@ => crate::ai::wire::jo(
                map!["GITHUB_PERSONAL_ACCESS_TOKEN"@ => crate::ai::wire::js(""@)],
            ),
            "readOnlyTools"@ => text_array(seq!["get-*"@, "search-*"@, "list-*"@]),
        ],
    )
}

/// The default entry for the file system.
pub open spec fn filesystem_of(command: Seq<char>) -> json::JsonView {
    crate::ai::wire::jo(
        map![
            "command"@ => crate::ai::wire::js(command),
            "args"@ => text_array(seq!["."@]),
            "readOnlyTools"@ => text_array(seq!["read-*"@, "list-*"@]),
        ],
    )
}

/// The default entry for Jira.
pub open spec fn jira_of(command: Seq<char>) -> json::JsonView {
    crate::ai::wire::jo(
        map![
            "command"@ => crate::ai::wire::js(command),
            "args"@ => text_array(seq![]),
            "env"@ => crate::ai::wire::jo(
                map![
                    "JIRA_BASE_URL"@ => crate::ai::wire::js(""@),
                    "JIRA_EMAIL"@ => crate::ai::wire::js(""@),
                    "JIRA_API_TOKEN"@ => crate::ai::wire::js(""@),
                ],
            ),
            "readOnlyTools"@ => text_array(seq!["get-*"@, "search-*"@]),
        ],
    )
}

/// The default entry for PostgreSQL.
pub open spec fn postgres_of(command: Seq<char>) -> json::JsonView {
    crate::ai::wire::jo(
        map![
            "command"@ => crate::ai::wire::js(command),
            "args"@ => text_array(seq![]),
            "env"@ => crate::ai::wire::jo(map!["DATABASE_URL"@ => crate::ai::wire::js(""@)]),
        ],
    )
}

fn texts_json(texts: &[&str]) -> (r: Json)
    ensures
        r.deep_view() == text_array(texts.deep_view()),
{
    let mut out: Vec<Json> = Vec::new();
    let mut i: usize = 0;
    while i < texts.len()
        invariant
            i <= texts.len(),
            out@.len() == i,
            forall|k: int|
                0 <= k < i ==> (#[trigger] out@[k]).deep_view() == json::JsonView::Str(texts@[k]@),
        decreases texts.len() - i,
    {
        out.push(Json::text(texts[i]));
        i += 1;
    }
    assert(out.deep_view() =~= text_array(texts.deep_view())->Array_0);
    Json::array(out)
}

fn github_entry(command: &str) -> (r: Json)
    ensures
        r.deep_view() == github_of(command@),
{
    let args: [&str; 1] = ["stdio"];
    assert(args.deep_view() =~= seq!["stdio"@]);
    let patterns: [&str; 3] = ["get-*", "search-*", "list-*"];
    assert(patterns.deep_view() =~= seq!["get-*"@, "search-*"@, "list-*"@]);
    let env = Json::object().with("GITHUB_PERSONAL_ACCESS_TOKEN", Json::text(""));
    assert(env.deep_view()->Object_0 =~= map![
        "GITHUB_PERSONAL_ACCESS_TOKEN"@ => crate::ai::wire::js(""@)
    ]);
    let r = Json::object().with("command", Json::text(command)).with(
        "args",
        texts_json(&args),
    ).with("env", env).with("readOnlyTools", texts_json(&patterns));
    assert(r.deep_view()->Object_0 =~= github_of(command@)->Object_0);
    r
}

fn filesystem_entry(command: &str) -> (r: Json)
    ensures
        r.deep_view() == filesystem_of(command@),
{
    let args: [&str; 1] = ["."];
    assert(args.deep_view() =~= seq!["."@]);
    let patterns: [&str; 2] = ["read-*", "list-*"];
    assert(patterns.deep_view() =~= seq!["read-*"@, "list-*"@]);
    let r = Json::object().with("command", Json::text(command)).with(
        "args",
        texts_json(&args),
    ).with("readOnlyTools", texts_json(&patterns));
    assert(r.deep_view()->Object_0 =~= filesystem_of(command@)->Object_0);
    r
}

fn jira_entry(command: &str) -> (r: Json)
    ensures
        r.deep_view() == jira_of(command@),
{
    let args: [&str; 0] = [];
    assert(args.deep_view() =~= seq![]);
    let patterns: [&str; 2] = ["get-*", "search-*"];
    assert(patterns.deep_view() =~= seq!["get-*"@, "search-*"@]);
    let env = Json::object().with("JIRA_BASE_URL", Json::text("")).with(
        "JIRA_EMAIL",
        Json::text(""),
    ).with("JIRA_API_TOKEN", Json::text(""));
    assert(env.deep_view()->Object_0 =~= map![
        "JIRA_BASE_URL"@ => crate::ai::wire::js(""@),
        "JIRA_EMAIL"@ => crate::ai::wire::js(""@),
        "JIRA_API_TOKEN"@ => crate::ai::wire::js(""@),
    ]);
    let r = Json::object().with("command", Json::text(command)).with(
        "args",
        texts_json(&args),
    ).with("env", env).with("readOnlyTools", texts_json(&patterns));
    assert(r.deep_view()->Object_0 =~= jira_of(command@)->Object_0);
    r
}

fn postgres_entry(command: &str) -> (r: Json)
    ensures
        r.deep_view() == postgres_of(command@),
{
    let args: [&str; 0] = [];
    assert(args.deep_view() =~= seq![]);
    let env = Json::object().with("DATABASE_URL", Json::text(""));
    assert(env.deep_view()->Object_0 =~= map!["DATABASE_URL"@ => crate::ai::wire::js(""@)]);
    let r = Json::object().with("command", Json::text(command)).with(
        "args",
        texts_json(&args),
    ).with("env", env);
    assert(r.deep_view()->Object_0 =~= postgres_of(command@)->Object_0);
    r
}

/// The text of the `mcp.json` that a first start writes, given the programs.
pub fn ensure_default_mcp(
    github: &str,
    filesystem: &str,
    jira: &str,
    postgres: &str,
) -> (r: String)
    ensures
        r@ == json::json_pretty(default_of(github@, filesystem@, jira@, postgres@)) + "\n"@,
{
    let servers = Json::object().with("github", github_entry(github)).with(
        "filesystem",
        filesystem_entry(filesystem),
    ).with("jira", jira_entry(jira)).with("postgres", postgres_entry(postgres));
    assert(servers.deep_view()->Object_0 =~= map![
        "github"@ => github_of(github@),
        "filesystem"@ => filesystem_of(filesystem@),
        "jira"@ => jira_of(jira@),
        "postgres"@ => postgres_of(postgres@),
    ]);
    let whole = Json::object().with("mcpServers", servers);
    assert(whole.deep_view()->Object_0 =~= default_of(
        github@,
        filesystem@,
        jira@,
        postgres@,
    )->Object_0);
    text::concat(&json::render_pretty(&whole), "\n")
}

} // verus!
