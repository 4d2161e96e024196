//! Picking up tickets.
use crate::dup::Dup;
use crate::json::{self, Json};
use crate::text;
use vstd::prelude::*;

verus! {

/// The file that maps projects to repositories.
pub const REPOS_FILE: &'static str = "repos.json";

/// Which repository belongs to which project.
pub struct RepoMap {
    entries: Vec<(String, String)>,
}

impl View for RepoMap {
    type V = Map<Seq<char>, Seq<char>>;

    closed spec fn view(&self) -> Map<Seq<char>, Seq<char>> {
        crate::mcp::registry::env_view(self.entries@)
    }
}

proof fn lemma_env_last(entries: Seq<(String, String)>, n: int, key: Seq<char>)
    requires
        0 <= n <= entries.len(),
        forall|k: int| n <= k < entries.len() ==> (#[trigger] entries[k]).0@ != key,
    ensures
        crate::mcp::registry::env_view(entries).contains_key(key)
            == crate::mcp::registry::env_view(entries.take(n)).contains_key(key),
        crate::mcp::registry::env_view(entries).contains_key(key)
            ==> crate::mcp::registry::env_view(entries)[key] == crate::mcp::registry::env_view(
            entries.take(n),
        )[key],
    decreases entries.len() - n,
{
    if n < entries.len() {
        lemma_env_last(entries, n + 1, key);
        assert(entries.take(n + 1).drop_last() =~= entries.take(n));
        assert(entries[n].0@ != key);
    } else {
        assert(entries.take(n) =~= entries);
    }
}

impl RepoMap {
    /// A map without entries.
    pub fn new() -> (r: Self)
        ensures
            r@ == Map::<Seq<char>, Seq<char>>::empty(),
    {
        RepoMap { entries: Vec::new() }
    }

    /// Maps a project to a repository.
    pub fn insert(&mut self, project: String, repo: String)
        ensures
            final(self)@ == old(self)@.insert(project@, repo@),
    {
        let ghost before = self.entries@;
        self.entries.push((project, repo));
        assert(self.entries@.drop_last() =~= before);
    }

    /// The repository of a project.
    pub fn get(&self, project: &str) -> (r: Option<&String>)
        ensures
            r.deep_view() == if self@.contains_key(project@) {
                Some(self@[project@])
            } else {
                None
            },
    {
        let mut i: usize = self.entries.len();
        while i > 0
            invariant
                i <= self.entries@.len(),
                forall|k: int|
                    i <= k < self.entries@.len() ==> (#[trigger] self.entries@[k]).0@ != project@,
            decreases i,
        {
            i -= 1;
            if text::same(&self.entries[i].0, project) {
                proof {
                    lemma_env_last(self.entries@, i + 1, project@);
                    assert(self.entries@.take(i + 1).drop_last() =~= self.entries@.take(
                        i as int,
                    ));
                }
                return Some(&self.entries[i].1);
            }
        }
        proof {
            lemma_env_last(self.entries@, 0, project@);
            assert(self.entries@.take(0) =~= seq![]);
        }
        None
    }

    /// Whether no project is mapped.
    pub fn is_empty(&self) -> (r: bool)
        ensures
            r == (self@ == Map::<Seq<char>, Seq<char>>::empty()),
    {
        proof {
            if self.entries@.len() > 0 {
                assert(self@.contains_key(self.entries@.last().0@));
            }
        }
        self.entries.len() == 0
    }
}

/// Where the map is kept.
pub fn repos_path(agent_dir: &str) -> (r: String)
    ensures
        r@ == crate::paths::joined(agent_dir@, REPOS_FILE@),
{
    crate::paths::join(agent_dir, REPOS_FILE)
}

/// The map that a file holds: none where it is missing or is not an object of
/// texts.
pub open spec fn repos_in(file: Option<Seq<char>>) -> Map<Seq<char>, Seq<char>> {
    match file {
        None => Map::empty(),
        Some(contents) => match json::parsed_json(contents) {
            Ok(j) => match crate::mcp::registry::optional_env(Some(j)) {
                Some(m) => m,
                None => Map::empty(),
            },
            Err(_) => Map::empty(),
        },
    }
}

/// Reads the map from the contents of its file, `None` where it is missing.
pub fn load_repo_map(file: Option<&str>) -> (r: RepoMap)
    ensures
        r@ == repos_in(file.deep_view()),
{
    if let Some(contents) = file {
        if let Ok(j) = json::parse(contents) {
            if let Some(entries) = crate::mcp::registry::read_env(Some(&j)) {
                return RepoMap { entries };
            }
        }
    }
    RepoMap::new()
}

/// The project of a ticket: what stands before its first dash.
pub open spec fn project_of(ticket: Seq<char>) -> Seq<char> {
    match text::spec_find(ticket, "-"@) {
        Some(i) => ticket.take(i),
        None => ticket,
    }
}

/// The project of a ticket: what stands before its first dash.
pub fn project_key(ticket: &str) -> (r: String)
    ensures
        r@ == project_of(ticket@),
{
    proof {
        reveal_strlit("-");
        text::lemma_find_from(ticket@, "-"@, 0);
    }
    match text::find(ticket, "-") {
        Some(i) => {
            let r = text::sub_string(ticket, 0, i);
            assert(r@ =~= ticket@.take(i as int));
            r
        },
        None => ticket.to_owned(),
    }
}

/// The repository for a ticket: the one that is named, else that of its project.
pub open spec fn repo_for(
    ticket: Seq<char>,
    repos: Map<Seq<char>, Seq<char>>,
    named: Option<Seq<char>>,
) -> Result<Seq<char>, Seq<char>> {
    let project = project_of(ticket);
    if named matches Some(repo) && repo.len() > 0 {
        Ok(named->0)
    } else if repos.contains_key(project) {
        Ok(repos[project])
    } else {
        Err(
            "no repo mapping for project `"@ + project + "` (ticket "@ + ticket + "); add it to "@
                + REPOS_FILE@ + " or pass --repo"@,
        )
    }
}

/// The repository for a ticket: the one that is named, else that of its project.
pub fn resolve_repo(ticket: &str, repos: &RepoMap, override_repo: Option<&str>) -> (r: Result<
    String,
    String,
>)
    ensures
        crate::flow::executor::result_view(r) == repo_for(
            ticket@,
            repos@,
            override_repo.deep_view(),
        ),
{
    if let Some(repo) = override_repo {
        if text::count(repo) > 0 {
            return Ok(repo.to_owned());
        }
    }
    let project = project_key(ticket);
    match repos.get(&project) {
        Some(repo) => Ok(repo.dup()),
        None => {
            let mut e = text::concat5(
                "no repo mapping for project `",
                &project,
                "` (ticket ",
                ticket,
                "); add it to ",
            );
            e.append(REPOS_FILE);
            e.append(" or pass --repo");
            Err(e)
        },
    }
}

/// The query that is used unless another is given: the user's open tickets that
/// nobody works on, the last changed first.
pub fn default_jql() -> (r: String)
    ensures
        r@
            == "assignee = currentUser() AND status not in (Done, Closed, Canceled, In Progress) ORDER BY updated DESC"@,
{
    "assignee = currentUser() AND status not in (Done, Closed, Canceled, In Progress) ORDER BY updated DESC".to_owned()
}

// ------------------------------------------------------------------------ Jira
/// The first ticket that a search found.
pub open spec fn first_issue(body: json::JsonView) -> Option<(Seq<char>, Seq<char>)> {
    match body.field("issues"@) {
        Some(json::JsonView::Array(issues)) => if issues.len() > 0 {
            Some(
                (
                    crate::cli::slack::text_or_empty(issues[0], "key"@),
                    match issues[0].field("fields"@) {
                        Some(fields) => crate::cli::slack::text_or_empty(fields, "summary"@),
                        None => ""@,
                    },
                ),
            )
        } else {
            None
        },
        _ => None,
    }
}

/// What a search gave, given whether it went through, its status and its body.
pub open spec fn search_of(ok: bool, status: Seq<char>, body: json::JsonView) -> Result<
    Option<(Seq<char>, Seq<char>)>,
    Seq<char>,
> {
    if !ok {
        Err("jira search HTTP "@ + status + ": "@ + json::json_text(body))
    } else {
        Ok(first_issue(body))
    }
}

/// What the result of a search stands for.
pub open spec fn search_view(r: Result<Option<(String, String)>, String>) -> Result<
    Option<(Seq<char>, Seq<char>)>,
    Seq<char>,
> {
    match r {
        Ok(found) => Ok(found.deep_view()),
        Err(e) => Err(e@),
    }
}

fn text_of(j: &Json, key: &str) -> (r: String)
    ensures
        r@ == crate::cli::slack::text_or_empty(j.deep_view(), key@),
{
    match j.get_str(key) {
        Some(t) => t.to_owned(),
        None => "".to_owned(),
    }
}

/// The first ticket that a search found, with its summary, given whether the
/// search went through, its status and its body.
pub fn query_ticket(ok: bool, status: &str, body: &Json) -> (r: Result<
    Option<(String, String)>,
    String,
>)
    ensures
        search_view(r) == search_of(ok, status@, body.deep_view()),
{
    if !ok {
        return Err(text::concat4("jira search HTTP ", status, ": ", &json::render(body)));
    }
    if let Some(list) = body.get("issues") {
        if let Some(issues) = list.as_array() {
            if issues.len() > 0 {
                assert(issues.deep_view()[0] == issues@[0].deep_view());
                let key = text_of(&issues[0], "key");
                let summary = match issues[0].get("fields") {
                    Some(fields) => text_of(fields, "summary"),
                    None => "".to_owned(),
                };
                return Ok(Some((key, summary)));
            }
        }
    }
    Ok(None)
}

/// What is sent to move a ticket to another status.
pub fn transition_body(transition_id: &str) -> (r: Json)
    ensures
        r.deep_view() == crate::ai::wire::jo(
            map![
                "transition"@ => crate::ai::wire::jo(
                    map!["id"@ => crate::ai::wire::js(transition_id@)],
                ),
            ],
        ),
{
    let inner = Json::object().with("id", Json::text(transition_id));
    assert(inner.deep_view()->Object_0 =~= map!["id"@ => crate::ai::wire::js(transition_id@)]);
    let ghost view = inner.deep_view();
    let r = Json::object().with("transition", inner);
    assert(r.deep_view()->Object_0 =~= map!["transition"@ => view]);
    r
}

/// Whether a ticket was moved, given whether the request went through, its status
/// and its body.
pub fn transition_ticket(ok: bool, status: &str, body: &Json) -> (r: Result<(), String>)
    ensures
        ok ==> r is Ok,
        !ok ==> (r matches Err(e) && e@ == "jira transition HTTP "@ + status@ + ": "@
            + json::json_text(body.deep_view())),
{
    if ok {
        Ok(())
    } else {
        Err(text::concat4("jira transition HTTP ", status, ": ", &json::render(body)))
    }
}

// ---------------------------------------------------------------------- picking
/// The ticket to work on.
pub struct PickedTicket {
    pub key: String,
    pub summary: String,
    /// The URL or the path of the repository.
    pub repo: String,
}

/// What a `PickedTicket` stands for.
pub ghost struct PickedView {
    pub key: Seq<char>,
    pub summary: Seq<char>,
    pub repo: Seq<char>,
}

impl DeepView for PickedTicket {
    type V = PickedView;

    open spec fn deep_view(&self) -> PickedView {
        PickedView { key: self.key@, summary: self.summary@, repo: self.repo@ }
    }
}

/// What a choice goes by.
pub struct PickInputs<'a> {
    /// The ticket, where one is named.
    pub ticket: Option<&'a str>,
    /// The repository, where one is named.
    pub repo: Option<&'a str>,
    /// The query, where one is given.
    pub jql: Option<&'a str>,
    /// Where Jira is, and the token for it.
    pub jira_url: Option<&'a str>,
    pub jira_token: Option<&'a str>,
}

/// What a choice comes to, or what it needs.
#[allow(inconsistent_fields)]
pub enum Pick {
    Picked(PickedTicket),
    /// The first ticket of this search is to be looked up.
    Query { base: String, token: String, jql: String },
    Failed(String),
}

/// What a `Pick` stands for.
#[allow(inconsistent_fields)]
pub ghost enum PickView {
    Picked(PickedView),
    Query { base: Seq<char>, token: Seq<char>, jql: Seq<char> },
    Failed(Seq<char>),
}

impl DeepView for Pick {
    type V = PickView;

    open spec fn deep_view(&self) -> PickView {
        match self {
            Pick::Picked(t) => PickView::Picked(t.deep_view()),
            Pick::Query { base, token, jql } => PickView::Query {
                base: base@,
                token: token@,
                jql: jql@,
            },
            Pick::Failed(e) => PickView::Failed(e@),
        }
    }
}

/// The ticket with its repository.
pub open spec fn with_repo(
    key: Seq<char>,
    summary: Seq<char>,
    repos: Map<Seq<char>, Seq<char>>,
    named: Option<Seq<char>>,
) -> PickView {
    match repo_for(key, repos, named) {
        Ok(repo) => PickView::Picked(PickedView { key, summary, repo }),
        Err(e) => PickView::Failed(e),
    }
}

/// What is worked on: a ticket that is named, else the first of a search.
pub open spec fn pick_of(
    ticket: Option<Seq<char>>,
    repo: Option<Seq<char>>,
    jql: Option<Seq<char>>,
    jira_url: Option<Seq<char>>,
    jira_token: Option<Seq<char>>,
    repos: Map<Seq<char>, Seq<char>>,
) -> PickView {
    if ticket matches Some(key) && key.len() > 0 {
        with_repo(ticket->0, "(explicit --ticket)"@, repos, repo)
    } else if jira_url is None {
        PickView::Failed("pickup needs JIRA_URL (e.g. https://your.atlassian.net)"@)
    } else if jira_token is None {
        PickView::Failed("pickup needs JIRA_TOKEN (same env as the jira plugin)"@)
    } else {
        PickView::Query {
            base: jira_url->0,
            token: jira_token->0,
            jql: match jql {
                Some(q) if q.len() > 0 => q,
                _ =>
                    "assignee = currentUser() AND status not in (Done, Closed, Canceled, In Progress) ORDER BY updated DESC"@,
            },
        }
    }
}

fn pick_with(key: &str, summary: &str, repos: &RepoMap, repo: Option<&str>) -> (r: Pick)
    ensures
        r.deep_view() == with_repo(key@, summary@, repos@, repo.deep_view()),
{
    match resolve_repo(key, repos, repo) {
        Ok(repo) => Pick::Picked(
            PickedTicket { key: key.to_owned(), summary: summary.to_owned(), repo },
        ),
        Err(e) => Pick::Failed(e),
    }
}

/// What is worked on: a ticket that is named, else the first of a search.
pub fn pick(inputs: &PickInputs, repos: &RepoMap) -> (r: Pick)
    ensures
        r.deep_view() == pick_of(
            inputs.ticket.deep_view(),
            inputs.repo.deep_view(),
            inputs.jql.deep_view(),
            inputs.jira_url.deep_view(),
            inputs.jira_token.deep_view(),
            repos@,
        ),
{
    if let Some(key) = inputs.ticket {
        if text::count(key) > 0 {
            return pick_with(key, "(explicit --ticket)", repos, inputs.repo);
        }
    }
    let base = match inputs.jira_url {
        Some(base) => base.to_owned(),
        None => {
            return Pick::Failed(
                "pickup needs JIRA_URL (e.g. https://your.atlassian.net)".to_owned(),
            );
        },
    };
    let token = match inputs.jira_token {
        Some(token) => token.to_owned(),
        None => {
            return Pick::Failed(
                "pickup needs JIRA_TOKEN (same env as the jira plugin)".to_owned(),
            );
        },
    };
    let jql = match inputs.jql {
        Some(q) => if text::count(q) > 0 {
            q.to_owned()
        } else {
            default_jql()
        },
        None => default_jql(),
    };
    Pick::Query { base, token, jql }
}

/// What is worked on once a search gave a ticket, or none.
pub open spec fn found_of(
    found: Option<(Seq<char>, Seq<char>)>,
    jql: Seq<char>,
    repos: Map<Seq<char>, Seq<char>>,
    repo: Option<Seq<char>>,
) -> PickView {
    match found {
        Some((key, summary)) => with_repo(key, summary, repos, repo),
        None => PickView::Failed("no open tickets assigned to you (JQL: "@ + jql + ")"@),
    }
}

/// What is worked on once a search gave a ticket, or none.
pub fn pick_found(
    found: &Option<(String, String)>,
    jql: &str,
    repos: &RepoMap,
    repo: Option<&str>,
) -> (r: Pick)
    ensures
        r.deep_view() == found_of(found.deep_view(), jql@, repos@, repo.deep_view()),
{
    match found {
        Some((key, summary)) => pick_with(key, summary, repos, repo),
        None => Pick::Failed(
            text::concat3("no open tickets assigned to you (JQL: ", jql, ")"),
        ),
    }
}

/// A repository that is named is used whatever the map says.
pub proof fn law_named_repo_wins(
    ticket: Seq<char>,
    repos: Map<Seq<char>, Seq<char>>,
    repo: Seq<char>,
)
    requires
        repo.len() > 0,
    ensures
        repo_for(ticket, repos, Some(repo)) == Ok::<Seq<char>, Seq<char>>(repo),
{
}

} // verus!
