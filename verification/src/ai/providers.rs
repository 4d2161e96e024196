//! Providers that the settings define.
use crate::ai::keys;
use crate::ai::models::ModelSpec;
use crate::dup::Dup;
use crate::json::{self, Json};
use crate::text;
use vstd::prelude::*;

verus! {

/// The context window of a provider that states none.
pub const DEFAULT_CONTEXT_WINDOW: u64 = 128_000;

/// One configured provider.
pub struct ProviderConfig {
    /// The id, of lower-case letters, digits, `-` and `_`.
    pub id: String,
    /// A name for people; the id where there is none.
    pub name: Option<String>,
    /// The base URL.
    pub base_url: String,
    /// The model that is used first.
    pub model: String,
    /// Whether the model sends its reasoning.
    pub reasoning: bool,
    /// Whether the model takes images.
    pub supports_images: bool,
    /// The context window in tokens.
    pub context_window: u64,
    /// The name under which the key is kept, where it is not `<ID>_API_KEY`.
    pub api_key_env: Option<String>,
    /// The protocol: `anthropic`, or else that of OpenAI.
    pub protocol: Option<String>,
    /// More models to offer.
    pub models: Option<Vec<String>>,
}

/// What a `ProviderConfig` stands for.
pub ghost struct ConfigView {
    pub id: Seq<char>,
    pub name: Option<Seq<char>>,
    pub base_url: Seq<char>,
    pub model: Seq<char>,
    pub reasoning: bool,
    pub supports_images: bool,
    pub context_window: u64,
    pub api_key_env: Option<Seq<char>>,
    pub protocol: Option<Seq<char>>,
    pub models: Option<Seq<Seq<char>>>,
}

impl DeepView for ProviderConfig {
    type V = ConfigView;

    open spec fn deep_view(&self) -> ConfigView {
        ConfigView {
            id: self.id@,
            name: self.name.deep_view(),
            base_url: self.base_url@,
            model: self.model@,
            reasoning: self.reasoning,
            supports_images: self.supports_images,
            context_window: self.context_window,
            api_key_env: self.api_key_env.deep_view(),
            protocol: self.protocol.deep_view(),
            models: self.models.deep_view(),
        }
    }
}

/// The context window of a provider that states none.
pub fn default_context_window() -> (r: u64)
    ensures
        r == 128_000,
{
    DEFAULT_CONTEXT_WINDOW
}

/// Whether `c` may stand in an id.
pub open spec fn id_char(c: char) -> bool {
    ('a' <= c && c <= 'z') || text::is_digit(c) || c == '-' || c == '_'
}

/// Whether `id` can be the id of a provider.
pub open spec fn valid_id(id: Seq<char>) -> bool {
    id.len() > 0 && forall|i: int| 0 <= i < id.len() ==> id_char(#[trigger] id[i])
}

impl ConfigView {
    /// The name for people.
    pub open spec fn display_name(self) -> Seq<char> {
        match self.name {
            Some(n) => n,
            None => self.id,
        }
    }

    /// The name under which the key is kept.
    pub open spec fn key_name(self) -> Seq<char> {
        match self.api_key_env {
            Some(n) => n,
            None => text::uppercased(self.id) + "_API_KEY"@,
        }
    }

    /// Whether the provider can be used.
    pub open spec fn usable(self) -> bool {
        valid_id(self.id) && self.base_url.len() > 0 && self.model.len() > 0
    }
}

impl ProviderConfig {
    /// The name under which the key is kept.
    pub fn key_env(&self) -> (r: String)
        ensures
            r@ == self.deep_view().key_name(),
    {
        match &self.api_key_env {
            Some(n) => n.clone(),
            None => text::concat(&text::to_uppercase(&self.id), "_API_KEY"),
        }
    }

    /// Whether `id` can be the id of a provider.
    pub fn is_valid_id(id: &str) -> (r: bool)
        ensures
            r == valid_id(id@),
    {
        let chars = text::chars_of(id);
        if chars.len() == 0 {
            return false;
        }
        let mut i: usize = 0;
        while i < chars.len()
            invariant
                i <= chars.len(),
                chars@ == id@,
                forall|k: int| 0 <= k < i ==> id_char(#[trigger] id@[k]),
            decreases chars.len() - i,
        {
            let c = chars[i];
            if !(('a' <= c && c <= 'z') || ('0' <= c && c <= '9') || c == '-' || c == '_') {
                assert(!id_char(id@[i as int]));
                return false;
            }
            i += 1;
        }
        true
    }

    /// Whether the provider can be used.
    pub fn is_usable(&self) -> (r: bool)
        ensures
            r == self.deep_view().usable(),
    {
        Self::is_valid_id(&self.id) && text::count(&self.base_url) > 0 && text::count(&self.model)
            > 0
    }

    /// The name for people.
    pub fn display_name(&self) -> (r: String)
        ensures
            r@ == self.deep_view().display_name(),
    {
        match &self.name {
            Some(n) => n.clone(),
            None => self.id.clone(),
        }
    }
}

/// The texts of the entries of `providers` in the settings; none where the
/// settings cannot be read or hold no such array.
pub open spec fn entries_of(settings: Seq<char>) -> Seq<Seq<char>> {
    match json::parsed_json(settings) {
        Ok(root) => match root.field("providers"@) {
            Some(json::JsonView::Array(items)) => items.map_values(
                |j: json::JsonView| json::json_text(j),
            ),
            _ => seq![],
        },
        Err(_) => seq![],
    }
}

/// The texts of the entries of `providers` in the settings.
pub fn provider_entries(settings: &str) -> (out: Vec<String>)
    ensures
        out.deep_view() == entries_of(settings@),
{
    let mut out: Vec<String> = Vec::new();
    assert(out.deep_view() =~= seq![]);
    let root = match json::parse(settings) {
        Ok(root) => root,
        Err(_) => return out,
    };
    if let Some(providers) = root.get("providers") {
        if let Some(items) = providers.as_array() {
            let ghost view = items.deep_view();
            let mut i: usize = 0;
            while i < items.len()
                invariant
                    i <= items.len(),
                    view == items.deep_view(),
                    out.deep_view() == view.take(i as int).map_values(
                        |j: json::JsonView| json::json_text(j),
                    ),
                decreases items.len() - i,
            {
                text::put(&mut out, json::render(&items[i]));
                assert(out.deep_view() =~= view.take(i + 1).map_values(
                    |j: json::JsonView| json::json_text(j),
                ));
                i += 1;
            }
            assert(view.take(view.len() as int) =~= view);
        }
    }
    out
}

/// The entries that were read and can be used.
pub open spec fn usable_configs(entries: Seq<Option<ConfigView>>) -> Seq<ConfigView>
    decreases entries.len(),
{
    if entries.len() == 0 {
        seq![]
    } else {
        let before = usable_configs(entries.drop_last());
        match entries.last() {
            Some(config) => if config.usable() {
                before.push(config)
            } else {
                before
            },
            None => before,
        }
    }
}

/// The providers of the settings, given what was read of each entry. A bad
/// entry is left out and does no further harm.
pub fn load_provider_configs(entries: Vec<Option<ProviderConfig>>) -> (out: Vec<ProviderConfig>)
    ensures
        out.deep_view() == usable_configs(entries.deep_view()),
{
    let ghost view = entries.deep_view();
    let ghost all = entries@;
    let mut out: Vec<ProviderConfig> = Vec::new();
    assert(out.deep_view() =~= seq![]);
    assert(view.take(0) =~= seq![]);
    for entry in it: entries
        invariant
            it.seq() == all,
            view.len() == all.len(),
            forall|k: int| 0 <= k < all.len() ==> view[k] == (#[trigger] all[k]).deep_view(),
            out.deep_view() == usable_configs(view.take(it.index() as int)),
    {
        let ghost i = it.index() as int;
        assert(view.take(i + 1).drop_last() =~= view.take(i));
        assert(view.take(i + 1).last() == entry.deep_view());
        if let Some(config) = entry {
            if config.is_usable() {
                text::put(&mut out, config);
            }
        }
    }
    assert(view.take(view.len() as int) =~= view);
    out
}

/// The settings with other providers; every other key stays.
pub fn merge_providers(root: Json, providers: Json) -> (r: Json)
    requires
        root is Object || root is Null,
    ensures
        r.deep_view() == json::JsonView::Object(
            root.deep_view().object_fields().insert("providers"@, providers.deep_view()),
        ),
{
    root.with("providers", providers)
}

/// The settings that are there: an empty object where the text is missing or
/// cannot be read.
pub open spec fn settings_root(existing: Option<Seq<char>>) -> json::JsonView {
    match existing {
        Some(t) => match json::parsed_json(t) {
            Ok(root) => root,
            Err(_) => json::JsonView::Object(Map::empty()),
        },
        None => json::JsonView::Object(Map::empty()),
    }
}

/// The text of the settings with other providers, or `None` where the settings
/// that are there are neither an object nor null.
pub fn save_provider_configs(existing: Option<&str>, providers: Json) -> (r: Option<String>)
    ensures
        ({
            let root = settings_root(
                match existing {
                    Some(t) => Some(t@),
                    None => None,
                },
            );
            if root is Object || root is Null {
                r matches Some(t) && t@ == json::json_pretty(
                    json::JsonView::Object(
                        root.object_fields().insert("providers"@, providers.deep_view()),
                    ),
                ) + "\n"@
            } else {
                r is None
            }
        }),
{
    let root = match existing {
        Some(t) => match json::parse(t) {
            Ok(root) => root,
            Err(_) => Json::object(),
        },
        None => Json::object(),
    };
    match &root {
        Json::Object(_) => {},
        Json::Null => {},
        _ => return None,
    }
    let merged = merge_providers(root, providers);
    Some(text::concat(&json::render_pretty(&merged), "\n"))
}

/// Other keys of the settings are kept when the providers change.
pub proof fn law_other_settings_are_kept(
    fields: Map<Seq<char>, json::JsonView>,
    providers: json::JsonView,
    key: Seq<char>,
)
    requires
        key != "providers"@,
    ensures
        ({
            let merged = json::JsonView::Object(fields.insert("providers"@, providers));
            merged.field(key) == json::JsonView::Object(fields).field(key) && merged.field(
                "providers"@,
            ) == Some(providers)
        }),
{
}

// ------------------------------------------------------------------- models
/// The models that are suggested for a well-known provider where nothing else is,
/// given those of Anthropic.
pub open spec fn known_view(id: Seq<char>, anthropic: Seq<Seq<char>>) -> Seq<Seq<char>> {
    if id == "openai"@ {
        seq!["gpt-4o"@, "gpt-4o-mini"@, "gpt-4.1"@, "gpt-4.1-mini"@, "o3-mini"@, "gpt-5"@]
    } else if id == "anthropic"@ {
        anthropic
    } else if id == "groq"@ {
        seq!["llama-3.3-70b-versatile"@, "llama-3.1-8b-instant"@]
    } else if id == "openrouter"@ {
        if anthropic.len() > 0 {
            seq!["anthropic/"@ + anthropic[0], "openai/gpt-5"@]
        } else {
            seq!["openai/gpt-5"@]
        }
    } else {
        seq![]
    }
}

/// The models that are suggested for a well-known provider where nothing else is,
/// given those of Anthropic.
pub fn known_models(id: &str, anthropic: &[String]) -> (out: Vec<String>)
    ensures
        out.deep_view() == known_view(id@, anthropic.deep_view()),
{
    let mut out: Vec<String> = Vec::new();
    assert(out.deep_view() =~= seq![]);
    if text::same(id, "openai") {
        text::put(&mut out, "gpt-4o".to_owned());
        text::put(&mut out, "gpt-4o-mini".to_owned());
        text::put(&mut out, "gpt-4.1".to_owned());
        text::put(&mut out, "gpt-4.1-mini".to_owned());
        text::put(&mut out, "o3-mini".to_owned());
        text::put(&mut out, "gpt-5".to_owned());
    } else if text::same(id, "anthropic") {
        return crate::dup::dup_slice(anthropic);
    } else if text::same(id, "groq") {
        text::put(&mut out, "llama-3.3-70b-versatile".to_owned());
        text::put(&mut out, "llama-3.1-8b-instant".to_owned());
    } else if text::same(id, "openrouter") {
        if anthropic.len() > 0 {
            assert(anthropic.deep_view()[0] == anthropic@[0]@);
            text::put(&mut out, text::concat("anthropic/", &anthropic[0]));
        }
        text::put(&mut out, "openai/gpt-5".to_owned());
    }
    assert(out.deep_view() =~= known_view(id@, anthropic.deep_view()));
    out
}

/// `ids` without `first`.
pub open spec fn others(ids: Seq<Seq<char>>, first: Seq<char>) -> Seq<Seq<char>>
    decreases ids.len(),
{
    if ids.len() == 0 {
        seq![]
    } else if ids.last() != first {
        others(ids.drop_last(), first).push(ids.last())
    } else {
        others(ids.drop_last(), first)
    }
}

/// The ids of the models that a provider offers: its own first, and then those
/// it lists, or those that are known of it where it lists none.
pub open spec fn model_ids(config: ConfigView, anthropic: Seq<Seq<char>>) -> Seq<Seq<char>> {
    seq![config.model] + others(
        match config.models {
            Some(ids) => ids,
            None => known_view(config.id, anthropic),
        },
        config.model,
    )
}

/// The efforts that a reasoning model can be asked for.
pub open spec fn effort_variants() -> Seq<Seq<char>> {
    seq!["default"@, "low"@, "high"@, "max"@]
}

/// What is known of a model of the provider.
pub open spec fn model_of(config: ConfigView, id: Seq<char>) -> crate::ai::models::ModelView {
    let reasoning = config.reasoning || text::has(id, "reason"@) || text::begins(id, "o"@);
    let effort = reasoning && config.id != "deepseek"@;
    crate::ai::models::ModelView {
        id,
        name: if id == config.model {
            Some(config.display_name())
        } else {
            None
        },
        reasoning,
        context_window: Some(config.context_window),
        supports_images: config.supports_images,
        supports_effort: effort,
        variants: if effort {
            effort_variants()
        } else {
            seq![]
        },
    }
}

/// The models that a provider offers.
pub open spec fn models_view(
    config: ConfigView,
    anthropic: Seq<Seq<char>>,
) -> Seq<crate::ai::models::ModelView> {
    model_ids(config, anthropic).map_values(|id: Seq<char>| model_of(config, id))
}

fn variants() -> (out: Vec<String>)
    ensures
        out.deep_view() == effort_variants(),
{
    let mut out: Vec<String> = Vec::new();
    assert(out.deep_view() =~= seq![]);
    text::put(&mut out, "default".to_owned());
    text::put(&mut out, "low".to_owned());
    text::put(&mut out, "high".to_owned());
    text::put(&mut out, "max".to_owned());
    assert(out.deep_view() =~= effort_variants());
    out
}

fn model_spec(config: &ProviderConfig, id: &str) -> (r: ModelSpec)
    ensures
        r.deep_view() == model_of(config.deep_view(), id@),
{
    let reasoning = config.reasoning || text::contains(id, "reason") || text::starts_with(id, "o");
    let spec_ = ModelSpec::new(id).reasoning(reasoning).context_window(config.context_window);
    let spec_ = if text::same(id, &config.model) {
        spec_.name(&config.display_name())
    } else {
        spec_
    };
    let spec_ = if config.supports_images {
        spec_.supports_images(true)
    } else {
        spec_
    };
    if reasoning && !text::same(&config.id, "deepseek") {
        spec_.effort(variants())
    } else {
        spec_
    }
}

/// The models that a provider offers, its own first, given those of Anthropic.
pub fn config_models(config: &ProviderConfig, anthropic: &[String]) -> (out: Vec<ModelSpec>)
    ensures
        out.deep_view() == models_view(config.deep_view(), anthropic.deep_view()),
{
    let ghost view = config.deep_view();
    let listed = match &config.models {
        Some(ids) => ids.dup(),
        None => known_models(&config.id, anthropic),
    };
    let ghost ids = listed.deep_view();
    let mut out: Vec<ModelSpec> = Vec::new();
    assert(out.deep_view() =~= seq![]);
    text::put(&mut out, model_spec(config, &config.model));
    let mut i: usize = 0;
    assert(ids.take(0) =~= seq![]);
    assert(out.deep_view() =~= (seq![view.model] + others(ids.take(0), view.model)).map_values(
        |id: Seq<char>| model_of(view, id),
    ));
    while i < listed.len()
        invariant
            i <= listed.len(),
            ids == listed.deep_view(),
            view == config.deep_view(),
            out.deep_view() == (seq![view.model] + others(
                ids.take(i as int),
                view.model,
            )).map_values(|id: Seq<char>| model_of(view, id)),
        decreases listed.len() - i,
    {
        assert(ids.take(i + 1).drop_last() =~= ids.take(i as int));
        assert(ids[i as int] == listed@[i as int]@);
        if !text::same(&listed[i], &config.model) {
            text::put(&mut out, model_spec(config, &listed[i]));
        }
        assert(out.deep_view() =~= (seq![view.model] + others(
            ids.take(i + 1),
            view.model,
        )).map_values(|id: Seq<char>| model_of(view, id)));
        i += 1;
    }
    assert(ids.take(ids.len() as int) =~= ids);
    out
}

/// A provider, as far as it is known without a connection.
pub struct ProviderPlan {
    pub id: String,
    pub display_name: String,
    pub base_url: String,
    pub api_key: Option<String>,
    pub models: Vec<ModelSpec>,
    /// Whether it speaks the protocol of Anthropic.
    pub anthropic: bool,
}

/// What a `ProviderPlan` stands for.
pub ghost struct PlanView {
    pub id: Seq<char>,
    pub display_name: Seq<char>,
    pub base_url: Seq<char>,
    pub api_key: Option<Seq<char>>,
    pub models: Seq<crate::ai::models::ModelView>,
    pub anthropic: bool,
}

impl DeepView for ProviderPlan {
    type V = PlanView;

    open spec fn deep_view(&self) -> PlanView {
        PlanView {
            id: self.id@,
            display_name: self.display_name@,
            base_url: self.base_url@,
            api_key: self.api_key.deep_view(),
            models: self.models.deep_view(),
            anthropic: self.anthropic,
        }
    }
}

/// The provider that a configuration defines, given the texts of the files that
/// may hold its key, and the models of Anthropic. A key on the command line goes before
/// these.
pub fn provider_from_config(
    config: &ProviderConfig,
    api_key_override: Option<String>,
    auth: Option<&str>,
    settings: Option<&str>,
    anthropic_models: &[String],
) -> (r: ProviderPlan)
    ensures
        r.id@ == config.id@,
        r.display_name@ == config.deep_view().display_name(),
        r.base_url@ == config.base_url@,
        r.api_key.deep_view() == (match api_key_override {
            Some(key) => Some(key@),
            None => keys::resolved_key(
                config.id@,
                match auth {
                    Some(c) => Some(c@),
                    None => None,
                },
                match settings {
                    Some(c) => Some(c@),
                    None => None,
                },
            ),
        }),
        r.models.deep_view() == models_view(config.deep_view(), anthropic_models.deep_view()),
        r.anthropic == (config.deep_view().protocol == Some("anthropic"@)),
{
    let api_key = match api_key_override {
        Some(key) => Some(key),
        None => keys::resolve_api_key(&config.key_env(), &config.id, auth, settings),
    };
    let anthropic = match &config.protocol {
        Some(p) => text::same(p, "anthropic"),
        None => false,
    };
    ProviderPlan {
        id: config.id.clone(),
        display_name: config.display_name(),
        base_url: config.base_url.clone(),
        api_key,
        models: config_models(config, anthropic_models),
        anthropic,
    }
}

/// The first model that a provider offers is its own.
pub proof fn law_own_model_comes_first(config: ConfigView, anthropic: Seq<Seq<char>>)
    ensures
        models_view(config, anthropic).len() > 0,
        models_view(config, anthropic)[0].id == config.model,
{
}

} // verus!
