//! The models that a provider serves.
use crate::ai::types::Usage;
use crate::dup::Dup;
use crate::text;
use vstd::prelude::*;

verus! {

/// A model.
pub struct ModelSpec {
    /// The id that is sent, such as `deepseek-chat`.
    pub id: String,
    /// A name for people.
    pub name: Option<String>,
    /// Whether the model sends its reasoning.
    pub reasoning: bool,
    /// The context window in tokens, where it is known.
    pub context_window: Option<u64>,
    /// Whether the model takes images.
    pub supports_images: bool,
    /// Whether the model takes a reasoning effort.
    pub supports_effort: bool,
    /// The efforts that can be chosen.
    pub variants: Vec<String>,
}

/// What a `ModelSpec` stands for.
pub ghost struct ModelView {
    pub id: Seq<char>,
    pub name: Option<Seq<char>>,
    pub reasoning: bool,
    pub context_window: Option<u64>,
    pub supports_images: bool,
    pub supports_effort: bool,
    pub variants: Seq<Seq<char>>,
}

impl DeepView for ModelSpec {
    type V = ModelView;

    open spec fn deep_view(&self) -> ModelView {
        ModelView {
            id: self.id@,
            name: self.name.deep_view(),
            reasoning: self.reasoning,
            context_window: self.context_window,
            supports_images: self.supports_images,
            supports_effort: self.supports_effort,
            variants: self.variants.deep_view(),
        }
    }
}

impl Dup for ModelSpec {
    fn dup(&self) -> (r: Self) {
        ModelSpec {
            id: self.id.dup(),
            name: self.name.dup(),
            reasoning: self.reasoning,
            context_window: self.context_window,
            supports_images: self.supports_images,
            supports_effort: self.supports_effort,
            variants: self.variants.dup(),
        }
    }
}

impl ModelView {
    /// A model of which only the id is known.
    pub open spec fn plain(id: Seq<char>) -> ModelView {
        ModelView {
            id,
            name: None,
            reasoning: false,
            context_window: None,
            supports_images: false,
            supports_effort: false,
            variants: seq![],
        }
    }
}

impl ModelSpec {
    /// A model of which only the id is known.
    pub fn new(id: &str) -> (r: Self)
        ensures
            r.deep_view() == ModelView::plain(id@),
    {
        let r = ModelSpec {
            id: id.to_owned(),
            name: None,
            reasoning: false,
            context_window: None,
            supports_images: false,
            supports_effort: false,
            variants: Vec::new(),
        };
        assert(r.variants.deep_view() =~= seq![]);
        r
    }

    /// This model, sending its reasoning or not.
    pub fn reasoning(self, reasoning: bool) -> (r: Self)
        ensures
            r.deep_view() == (ModelView { reasoning, ..self.deep_view() }),
    {
        let mut r = self;
        r.reasoning = reasoning;
        r
    }

    /// This model with a name.
    pub fn name(self, name: &str) -> (r: Self)
        ensures
            r.deep_view() == (ModelView { name: Some(name@), ..self.deep_view() }),
    {
        let mut r = self;
        r.name = Some(name.to_owned());
        r
    }

    /// This model with a context window.
    pub fn context_window(self, context_window: u64) -> (r: Self)
        ensures
            r.deep_view() == (ModelView {
                context_window: Some(context_window),
                ..self.deep_view()
            }),
    {
        let mut r = self;
        r.context_window = Some(context_window);
        r
    }

    /// This model, taking images or not.
    pub fn supports_images(self, supports_images: bool) -> (r: Self)
        ensures
            r.deep_view() == (ModelView { supports_images, ..self.deep_view() }),
    {
        let mut r = self;
        r.supports_images = supports_images;
        r
    }

    /// This model with the efforts that can be chosen.
    pub fn effort(self, variants: Vec<String>) -> (r: Self)
        ensures
            r.deep_view() == (ModelView {
                supports_effort: true,
                variants: variants.deep_view(),
                ..self.deep_view()
            }),
    {
        let mut r = self;
        r.supports_effort = true;
        r.variants = variants;
        r
    }

    /// The tokens of a request by price: read from the cache, processed, and
    /// written. What was processed is what was stored in the cache and what
    /// the cache had no part in.
    pub fn billed_tokens(usage: &Usage) -> (r: (u64, u64, u64, u64))
        requires
            usage.cache_read_tokens + usage.cache_creation_tokens <= u64::MAX,
        ensures
            r.0 == usage.cache_read_tokens,
            r.1 == usage.cache_creation_tokens,
            r.2 == (if usage.input_tokens >= usage.cache_read_tokens
                + usage.cache_creation_tokens {
                usage.input_tokens - usage.cache_read_tokens - usage.cache_creation_tokens
            } else {
                0
            }),
            r.3 == usage.output_tokens,
    {
        let cached: u64 = usage.cache_read_tokens + usage.cache_creation_tokens;
        let fresh: u64 = if usage.input_tokens >= cached {
            usage.input_tokens - cached
        } else {
            0
        };
        (usage.cache_read_tokens, usage.cache_creation_tokens, fresh, usage.output_tokens)
    }
}

/// The position of the first model with this id, from `from` on.
pub open spec fn model_from(models: Seq<ModelView>, id: Seq<char>, from: int) -> Option<int>
    decreases models.len() - from,
{
    if from < 0 || from >= models.len() {
        None
    } else if models[from].id == id {
        Some(from)
    } else {
        model_from(models, id, from + 1)
    }
}

/// The position of the first model with this id.
pub fn find_model(models: &[ModelSpec], id: &str) -> (r: Option<usize>)
    ensures
        text::at(r) == model_from(models.deep_view(), id@, 0),
        r matches Some(i) ==> i < models@.len() && models@[i as int].id@ == id@,
{
    let mut i: usize = 0;
    while i < models.len()
        invariant
            i <= models.len(),
            model_from(models.deep_view(), id@, 0) == model_from(
                models.deep_view(),
                id@,
                i as int,
            ),
        decreases models.len() - i,
    {
        if text::same(&models[i].id, id) {
            return Some(i);
        }
        i += 1;
    }
    None
}

} // verus!
