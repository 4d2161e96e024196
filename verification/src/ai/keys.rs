//! Where the key of a provider is kept.
//!
//! The key is looked for in the text of `auth.json`, then in that of
//! `settings.json`. Environment variables are not asked.
use crate::json;
use crate::text;
use vstd::prelude::*;

verus! {

/// A text, unless it is empty.
pub open spec fn not_empty(s: Option<Seq<char>>) -> Option<Seq<char>> {
    match s {
        Some(t) => if t.len() > 0 {
            Some(t)
        } else {
            None
        },
        None => None,
    }
}

/// The key in `{"providers": {"<id>": {"apiKey": "..."}}}`.
pub open spec fn nested_key(root: json::JsonView, id: Seq<char>) -> Option<Seq<char>> {
    match root.field("providers"@) {
        Some(providers) => match providers.field(id) {
            Some(provider) => provider.text_field("apiKey"@),
            None => None,
        },
        None => None,
    }
}

/// The key in a document: the nested shape first, then `{"<id>": "..."}`.
pub open spec fn document_key(root: json::JsonView, id: Seq<char>) -> Option<Seq<char>> {
    match not_empty(nested_key(root, id)) {
        Some(key) => Some(key),
        None => not_empty(root.text_field(id)),
    }
}

/// The name and the value of a `KEY=value` line, with or without `export`.
pub open spec fn assignment(line: Seq<char>) -> Option<(Seq<char>, Seq<char>)> {
    let trimmed = text::spec_trim(line);
    let body = match text::without_prefix(trimmed, "export "@) {
        Some(rest) => rest,
        None => trimmed,
    };
    match text::find_set_from(body, seq!['='], 0) {
        Some(i) => Some((text::spec_trim(body.take(i)), text::spec_trim(body.skip(i + 1)))),
        None => None,
    }
}

/// Whether a name is that of the provider's key: its id, or its id in capitals
/// with or without `_API_KEY`.
pub open spec fn names_provider(name: Seq<char>, id: Seq<char>) -> bool {
    let upper = text::uppercased(name);
    let bare = match text::without_suffix(upper, "_API_KEY"@) {
        Some(b) => b,
        None => upper,
    };
    text::ascii_lowered(name) == text::ascii_lowered(id) || bare == text::uppercased(id)
}

/// The value that a line gives the provider.
pub open spec fn line_key(line: Seq<char>, id: Seq<char>) -> Option<Seq<char>> {
    match assignment(line) {
        Some(pair) => if pair.1.len() > 0 && names_provider(pair.0, id) {
            Some(pair.1)
        } else {
            None
        },
        None => None,
    }
}

/// The value of the first line, from `from` on, that gives the provider one.
pub open spec fn lines_key(lines: Seq<Seq<char>>, id: Seq<char>, from: int) -> Option<Seq<char>>
    decreases lines.len() - from,
{
    if from < 0 || from >= lines.len() {
        None
    } else {
        match line_key(lines[from], id) {
            Some(key) => Some(key),
            None => lines_key(lines, id, from + 1),
        }
    }
}

/// The key in the text of a file: a document that has it, or else a line.
pub open spec fn file_key(contents: Seq<char>, id: Seq<char>) -> Option<Seq<char>> {
    let found = match json::parsed_json(contents) {
        Ok(root) => document_key(root, id),
        Err(_) => None,
    };
    match found {
        Some(key) => Some(key),
        None => lines_key(text::spec_lines(contents), id, 0),
    }
}

/// The key in the text of a file, where there is one.
pub open spec fn optional_file_key(contents: Option<Seq<char>>, id: Seq<char>) -> Option<Seq<char>> {
    match contents {
        Some(c) => file_key(c, id),
        None => None,
    }
}

fn read_dotenv_line(contents: &str, provider_id: &str) -> (r: Option<String>)
    ensures
        r.deep_view() == lines_key(text::spec_lines(contents@), provider_id@, 0),
{
    let env_provider = text::to_uppercase(provider_id);
    let lines = text::lines(contents);
    let ghost view = lines.deep_view();
    let mut i: usize = 0;
    while i < lines.len()
        invariant
            i <= lines.len(),
            view == lines.deep_view(),
            view == text::spec_lines(contents@),
            env_provider@ == text::uppercased(provider_id@),
            lines_key(view, provider_id@, 0) == lines_key(view, provider_id@, i as int),
        decreases lines.len() - i,
    {
        assert(view[i as int] == lines@[i as int]@);
        let trimmed = text::trim(&lines[i]);
        let body = match text::strip_prefix(&trimmed, "export ") {
            Some(rest) => rest,
            None => trimmed,
        };
        let equals: [char; 1] = ['='];
        assert(equals@ =~= seq!['=']);
        if let Some(k) = text::find_set(&body, &equals, 0) {
            let left = text::sub_string(&body, 0, k);
            let right = text::sub_string(&body, k + 1, text::count(&body));
            assert(left@ =~= body@.take(k as int));
            assert(right@ =~= body@.skip(k + 1));
            let name = text::trim(&left);
            let value = text::trim(&right);
            if text::count(&value) > 0 {
                if text::eq_ignore_ascii_case(&name, provider_id) {
                    return Some(value);
                }
                let upper = text::to_uppercase(&name);
                let bare = match text::strip_suffix(&upper, "_API_KEY") {
                    Some(b) => b,
                    None => upper,
                };
                if text::same(&bare, &env_provider) {
                    return Some(value);
                }
            }
        }
        i += 1;
    }
    None
}

/// The key of the provider in the text of a file.
pub fn key_in_file(contents: &str, provider_id: &str) -> (r: Option<String>)
    ensures
        r.deep_view() == file_key(contents@, provider_id@),
{
    if let Ok(root) = json::parse(contents) {
        if let Some(providers) = root.get("providers") {
            if let Some(provider) = providers.get(provider_id) {
                if let Some(key) = provider.get_str("apiKey") {
                    if text::count(key) > 0 {
                        return Some(key.to_owned());
                    }
                }
            }
        }
        if let Some(key) = root.get_str(provider_id) {
            if text::count(key) > 0 {
                return Some(key.to_owned());
            }
        }
    }
    read_dotenv_line(contents, provider_id)
}

fn optional_key(contents: Option<&str>, provider_id: &str) -> (r: Option<String>)
    ensures
        r.deep_view() == optional_file_key(
            match contents {
                Some(c) => Some(c@),
                None => None,
            },
            provider_id@,
        ),
{
    match contents {
        Some(c) => key_in_file(c, provider_id),
        None => None,
    }
}

/// The key of the provider: from the text of `auth.json`, or else from that of
/// `settings.json`. The environment variable is not asked.
pub fn resolve_api_key(
    _env_var: &str,
    provider_id: &str,
    auth: Option<&str>,
    settings: Option<&str>,
) -> (r: Option<String>)
    ensures
        r.deep_view() == resolved_key(
            provider_id@,
            match auth {
                Some(c) => Some(c@),
                None => None,
            },
            match settings {
                Some(c) => Some(c@),
                None => None,
            },
        ),
{
    match optional_key(auth, provider_id) {
        Some(key) => Some(key),
        None => optional_key(settings, provider_id),
    }
}

/// The key of the provider, given the texts of the two files.
pub open spec fn resolved_key(
    id: Seq<char>,
    auth: Option<Seq<char>>,
    settings: Option<Seq<char>>,
) -> Option<Seq<char>> {
    match optional_file_key(auth, id) {
        Some(key) => Some(key),
        None => optional_file_key(settings, id),
    }
}

/// What is said where the key comes from `settings.json`.
pub open spec fn warning_of(
    id: Seq<char>,
    auth: Option<Seq<char>>,
    settings: Option<Seq<char>>,
) -> Option<Seq<char>> {
    if optional_file_key(auth, id) is None && optional_file_key(settings, id) is Some {
        Some(
            "API key for "@ + id
                + " found in settings.json! This file is world-readable (0644). Please move it to auth.json immediately."@,
        )
    } else {
        None
    }
}

/// A warning where the key of the provider comes from the text of `settings.json`.
pub fn key_warning(provider_id: &str, auth: Option<&str>, settings: Option<&str>) -> (r: Option<
    String,
>)
    ensures
        r.deep_view() == warning_of(
            provider_id@,
            match auth {
                Some(c) => Some(c@),
                None => None,
            },
            match settings {
                Some(c) => Some(c@),
                None => None,
            },
        ),
{
    if optional_key(auth, provider_id).is_none() && optional_key(settings, provider_id).is_some() {
        Some(
            text::concat3(
                "API key for ",
                provider_id,
                " found in settings.json! This file is world-readable (0644). Please move it to auth.json immediately.",
            ),
        )
    } else {
        None
    }
}

/// What `auth.json` says goes before what `settings.json` says.
pub proof fn law_auth_file_wins(id: Seq<char>, auth: Seq<char>, settings: Option<Seq<char>>)
    requires
        file_key(auth, id) is Some,
    ensures
        resolved_key(id, Some(auth), settings) == file_key(auth, id),
{
}

/// A key is never empty.
pub proof fn law_key_is_not_empty(id: Seq<char>, auth: Option<Seq<char>>, settings: Option<Seq<char>>)
    ensures
        resolved_key(id, auth, settings) matches Some(key) ==> key.len() > 0,
{
    if let Some(c) = auth {
        lemma_lines_key_not_empty(text::spec_lines(c), id, 0);
    }
    if let Some(c) = settings {
        lemma_lines_key_not_empty(text::spec_lines(c), id, 0);
    }
}

proof fn lemma_lines_key_not_empty(lines: Seq<Seq<char>>, id: Seq<char>, from: int)
    ensures
        lines_key(lines, id, from) matches Some(key) ==> key.len() > 0,
    decreases lines.len() - from,
{
    if 0 <= from < lines.len() {
        lemma_lines_key_not_empty(lines, id, from + 1);
    }
}

} // verus!
