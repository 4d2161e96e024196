//! Providers of models, and what can go wrong with them.
use crate::ai::models::ModelSpec;
use crate::ai::providers::ProviderPlan;
use crate::sorted::SortedMap;
use crate::text;
use vstd::prelude::*;

verus! {

/// What went wrong with a provider.
pub enum AiError {
    ProviderNotFound(String),
    /// There is no key for the provider; the key could be set in a variable of
    /// this name.
    MissingApiKey { provider: String, env_var: String },
    /// The provider could not be reached.
    Http(String),
    /// The provider does not take the request, or has refused it.
    Api(String),
    /// What came back is not a stream of events.
    Sse(String),
}

/// What an `AiError` stands for.
pub ghost enum AiErrorView {
    ProviderNotFound(Seq<char>),
    MissingApiKey { provider: Seq<char>, env_var: Seq<char> },
    Http(Seq<char>),
    Api(Seq<char>),
    Sse(Seq<char>),
}

impl DeepView for AiError {
    type V = AiErrorView;

    open spec fn deep_view(&self) -> AiErrorView {
        match self {
            AiError::ProviderNotFound(id) => AiErrorView::ProviderNotFound(id@),
            AiError::MissingApiKey { provider, env_var } => AiErrorView::MissingApiKey {
                provider: provider@,
                env_var: env_var@,
            },
            AiError::Http(m) => AiErrorView::Http(m@),
            AiError::Api(m) => AiErrorView::Api(m@),
            AiError::Sse(m) => AiErrorView::Sse(m@),
        }
    }
}

impl AiErrorView {
    /// The error in words.
    pub open spec fn message(self) -> Seq<char> {
        match self {
            AiErrorView::ProviderNotFound(id) => "provider `"@ + id + "` is not registered"@,
            AiErrorView::MissingApiKey { provider, env_var } => "no API key for provider `"@
                + provider + "`; set "@ + env_var + " or add it to auth.json"@,
            AiErrorView::Http(m) => "HTTP request to provider failed: "@ + m,
            AiErrorView::Api(m) => "provider returned an error: "@ + m,
            AiErrorView::Sse(m) => "malformed streaming response: "@ + m,
        }
    }
}

impl AiError {
    /// The error in words.
    pub fn message(&self) -> (r: String)
        ensures
            r@ == self.deep_view().message(),
    {
        match self {
            AiError::ProviderNotFound(id) => text::concat3("provider `", id, "` is not registered"),
            AiError::MissingApiKey { provider, env_var } => text::concat5(
                "no API key for provider `",
                provider,
                "`; set ",
                env_var,
                " or add it to auth.json",
            ),
            AiError::Http(m) => text::concat("HTTP request to provider failed: ", m),
            AiError::Api(m) => text::concat("provider returned an error: ", m),
            AiError::Sse(m) => text::concat("malformed streaming response: ", m),
        }
    }
}

/// A provider of models, as far as it is known without a connection.
pub trait Provider: DeepView + Sized {
    /// The id of the provider.
    spec fn id_view(&self) -> Seq<char>;

    /// The name of the provider.
    spec fn display_name_view(&self) -> Seq<char>;

    /// The key, if there is one.
    spec fn key_view(&self) -> Option<Seq<char>>;

    /// The models.
    spec fn models_view(&self) -> Seq<crate::ai::models::ModelView>;

    /// The id of the provider.
    fn id(&self) -> (r: &str)
        ensures
            r@ == self.id_view(),
    ;

    /// The name of the provider.
    fn display_name(&self) -> (r: &str)
        ensures
            r@ == self.display_name_view(),
    ;

    /// The key, if there is one.
    fn api_key(&self) -> (r: Option<&str>)
        ensures
            r.deep_view() == self.key_view(),
    ;

    /// Takes another key.
    fn set_api_key(&mut self, key: String)
        ensures
            final(self).key_view() == Some(key@),
            final(self).id_view() == old(self).id_view(),
            final(self).display_name_view() == old(self).display_name_view(),
            final(self).models_view() == old(self).models_view(),
    ;

    /// The models.
    fn models(&self) -> (r: &[ModelSpec])
        ensures
            r.deep_view() == self.models_view(),
    ;
}

impl Provider for ProviderPlan {
    open spec fn id_view(&self) -> Seq<char> {
        self.id@
    }

    open spec fn display_name_view(&self) -> Seq<char> {
        self.display_name@
    }

    open spec fn key_view(&self) -> Option<Seq<char>> {
        self.api_key.deep_view()
    }

    open spec fn models_view(&self) -> Seq<crate::ai::models::ModelView> {
        self.models.deep_view()
    }

    fn id(&self) -> (r: &str) {
        self.id.as_str()
    }

    fn display_name(&self) -> (r: &str) {
        self.display_name.as_str()
    }

    fn api_key(&self) -> (r: Option<&str>) {
        match &self.api_key {
            Some(key) => Some(key.as_str()),
            None => None,
        }
    }

    fn set_api_key(&mut self, key: String) {
        self.api_key = Some(key);
    }

    fn models(&self) -> (r: &[ModelSpec]) {
        self.models.as_slice()
    }
}

/// Providers by their ids.
pub struct ProviderRegistry<P: Provider> {
    providers: SortedMap<P>,
}

impl<P: Provider> View for ProviderRegistry<P> {
    type V = Map<Seq<char>, P::V>;

    closed spec fn view(&self) -> Map<Seq<char>, P::V> {
        self.providers@
    }
}

impl<P: Provider> ProviderRegistry<P> {
    /// No providers.
    pub fn new() -> (r: Self)
        ensures
            r@ == Map::<Seq<char>, P::V>::empty(),
    {
        ProviderRegistry { providers: SortedMap::new() }
    }

    /// Adds a provider, in the place of the one with the same id.
    pub fn register(&mut self, provider: P)
        ensures
            final(self)@ == old(self)@.insert(provider.id_view(), provider.deep_view()),
    {
        let id = provider.id().to_owned();
        self.providers.insert(&id, provider);
    }

    /// The provider of this id.
    pub fn get(&self, id: &str) -> (r: Option<&P>)
        ensures
            r.deep_view() == if self@.contains_key(id@) {
                Some(self@[id@])
            } else {
                None
            },
    {
        self.providers.get(id)
    }

    /// The ids of the providers, in order.
    pub fn ids(&self) -> (out: Vec<String>)
        ensures
            crate::sorted::in_order(out.deep_view()),
            forall|k: Seq<char>| #[trigger] out.deep_view().contains(k) <==> self@.contains_key(k),
    {
        self.providers.names()
    }

    /// The providers, in the order of their ids.
    pub fn iter(&self) -> (out: Vec<&P>)
        ensures
            exists|ids: Seq<Seq<char>>| #[trigger]
                crate::sorted::in_order(ids) && crate::sorted::listed(self@, ids, out.deep_view()),
    {
        self.providers.iter()
    }
}

} // verus!
