//! JSON values.
//!
//! `Json` holds a JSON document as plain values. Text is read and written by
//! serde_json; what a document means to the rest of the crate is `JsonView`.
use vstd::prelude::*;

verus! {

/// A JSON number.
pub enum Number {
    /// A non-negative integer.
    Unsigned(u64),
    /// A negative integer.
    Negative(i64),
    /// Any other number, by its text.
    Real(String),
}

/// A JSON document. Where an object holds a key twice, the later field counts.
pub enum Json {
    Null,
    Bool(bool),
    Number(Number),
    Str(String),
    Array(Vec<Json>),
    Object(Vec<(String, Json)>),
}

/// What a `Number` stands for.
pub ghost enum NumberView {
    Unsigned(u64),
    Negative(i64),
    Real(Seq<char>),
}

/// What a `Json` stands for.
pub ghost enum JsonView {
    Null,
    Bool(bool),
    Number(NumberView),
    Str(Seq<char>),
    Array(Seq<JsonView>),
    Object(Map<Seq<char>, JsonView>),
}

impl DeepView for Number {
    type V = NumberView;

    open spec fn deep_view(&self) -> NumberView {
        match self {
            Number::Unsigned(n) => NumberView::Unsigned(*n),
            Number::Negative(n) => NumberView::Negative(*n),
            Number::Real(t) => NumberView::Real(t@),
        }
    }
}

/// What a document stands for.
pub open spec fn json_view(j: Json) -> JsonView
    decreases j,
{
    match j {
        Json::Null => JsonView::Null,
        Json::Bool(b) => JsonView::Bool(b),
        Json::Number(n) => JsonView::Number(n.deep_view()),
        Json::Str(s) => JsonView::Str(s@),
        Json::Array(items) => JsonView::Array(items_view(items@)),
        Json::Object(fields) => JsonView::Object(fields_view(fields@)),
    }
}

/// What the items of an array stand for.
pub open spec fn items_view(items: Seq<Json>) -> Seq<JsonView>
    decreases items,
{
    Seq::new(
        items.len(),
        |i: int|
            if 0 <= i < items.len() {
                json_view(items[i])
            } else {
                JsonView::Null
            },
    )
}

/// What the fields of an object stand for.
pub open spec fn fields_view(fields: Seq<(String, Json)>) -> Map<Seq<char>, JsonView>
    decreases fields,
{
    if fields.len() == 0 {
        Map::empty()
    } else {
        fields_view(fields.drop_last()).insert(fields.last().0@, json_view(fields.last().1))
    }
}

impl DeepView for Json {
    type V = JsonView;

    open spec fn deep_view(&self) -> JsonView {
        json_view(*self)
    }
}

impl JsonView {
    /// The value under `key`, where this is an object that has it.
    pub open spec fn field(self, key: Seq<char>) -> Option<JsonView> {
        match self {
            JsonView::Object(m) => if m.contains_key(key) {
                Some(m[key])
            } else {
                None
            },
            _ => None,
        }
    }

    /// The text, where this is a string.
    pub open spec fn str(self) -> Option<Seq<char>> {
        match self {
            JsonView::Str(s) => Some(s),
            _ => None,
        }
    }

    /// The number, where this is a non-negative integer.
    pub open spec fn unsigned(self) -> Option<u64> {
        match self {
            JsonView::Number(NumberView::Unsigned(n)) => Some(n),
            _ => None,
        }
    }

    /// The flag, where this is a boolean.
    pub open spec fn bool(self) -> Option<bool> {
        match self {
            JsonView::Bool(b) => Some(b),
            _ => None,
        }
    }

    /// The items, where this is an array.
    pub open spec fn items(self) -> Option<Seq<JsonView>> {
        match self {
            JsonView::Array(items) => Some(items),
            _ => None,
        }
    }

    /// The text under `key`.
    pub open spec fn text_field(self, key: Seq<char>) -> Option<Seq<char>> {
        match self.field(key) {
            Some(v) => v.str(),
            None => None,
        }
    }

    /// Whether no number in the document is a `Real`.
    pub open spec fn no_reals(self) -> bool
        decreases self,
    {
        match self {
            JsonView::Number(n) => !(n is Real),
            JsonView::Array(items) => forall|i: int|
                0 <= i < items.len() ==> (#[trigger] items[i]).no_reals(),
            JsonView::Object(m) => forall|k: Seq<char>| #[trigger]
                m.contains_key(k) ==> m[k].no_reals(),
            _ => true,
        }
    }

    /// Whether every number is held as serde_json holds it: a `Real` by the text
    /// that serde_json writes, a `Negative` below zero.
    pub open spec fn canonical(self) -> bool
        decreases self,
    {
        match self {
            JsonView::Number(NumberView::Real(t)) => canonical_real(t) == Some(t),
            JsonView::Number(NumberView::Negative(n)) => n < 0,
            JsonView::Array(items) => forall|i: int|
                0 <= i < items.len() ==> (#[trigger] items[i]).canonical(),
            JsonView::Object(m) => forall|k: Seq<char>| #[trigger]
                m.contains_key(k) ==> m[k].canonical(),
            _ => true,
        }
    }

    /// Whether arrays and objects are nested at most `n` deep.
    pub open spec fn within_depth(self, n: nat) -> bool
        decreases self,
    {
        match self {
            JsonView::Array(items) => n > 0 && forall|i: int|
                0 <= i < items.len() ==> (#[trigger] items[i]).within_depth((n - 1) as nat),
            JsonView::Object(m) => n > 0 && forall|k: Seq<char>| #[trigger]
                m.contains_key(k) ==> m[k].within_depth((n - 1) as nat),
            _ => true,
        }
    }
}

/// How serde_json holds a number: a `Negative` that is not below zero is an
/// `Unsigned`, a `Real` has the text that serde_json writes, and what is not a
/// finite number becomes null.
pub open spec fn number_normal(n: NumberView) -> JsonView {
    match n {
        NumberView::Unsigned(u) => JsonView::Number(n),
        NumberView::Negative(i) => if i < 0 {
            JsonView::Number(n)
        } else {
            JsonView::Number(NumberView::Unsigned(i as u64))
        },
        NumberView::Real(t) => match canonical_real(t) {
            Some(c) => JsonView::Number(NumberView::Real(c)),
            None => JsonView::Null,
        },
    }
}

/// A document with each number as serde_json holds it.
pub open spec fn normalized(j: JsonView) -> JsonView
    decreases j,
{
    match j {
        JsonView::Number(n) => number_normal(n),
        JsonView::Array(items) => JsonView::Array(
            Seq::new(
                items.len(),
                |i: int|
                    if 0 <= i < items.len() {
                        normalized(items[i])
                    } else {
                        JsonView::Null
                    },
            ),
        ),
        JsonView::Object(m) => JsonView::Object(
            Map::new(
                |k: Seq<char>| m.contains_key(k),
                |k: Seq<char>|
                    if m.contains_key(k) {
                        normalized(m[k])
                    } else {
                        JsonView::Null
                    },
            ),
        ),
        _ => j,
    }
}

/// Nothing changes in a document whose numbers are held as serde_json does.
pub proof fn law_canonical_is_normal(j: JsonView)
    requires
        j.canonical(),
    ensures
        normalized(j) == j,
    decreases j,
{
    match j {
        JsonView::Array(items) => {
            assert forall|i: int| 0 <= i < items.len() implies normalized(#[trigger] items[i])
                == items[i] by {
                law_canonical_is_normal(items[i]);
            }
            assert(normalized(j)->Array_0 =~= items);
        },
        JsonView::Object(m) => {
            assert forall|k: Seq<char>| #[trigger] m.contains_key(k) implies normalized(m[k])
                == m[k] by {
                law_canonical_is_normal(m[k]);
            }
            assert(normalized(j)->Object_0 =~= m);
        },
        _ => {},
    }
}

/// The compact text of a document.
pub open spec fn json_text(j: JsonView) -> Seq<char> {
    rendered(normalized(j))
}

/// The text of a document with line breaks and indentation.
pub open spec fn json_pretty(j: JsonView) -> Seq<char> {
    pretty_text(normalized(j))
}

// --------------------------------------------------------------- serde_json
/// A JSON value of serde_json.
#[verifier::external_type_specification]
#[verifier::external_body]
pub struct ExValue(serde_json::Value);

/// What a value of serde_json holds.
pub uninterp spec fn value_view(value: serde_json::Value) -> JsonView;

/// What `serde_json::from_str` makes of a text: the document, or the message of
/// its error.
pub uninterp spec fn parsed_json(text: Seq<char>) -> Result<JsonView, Seq<char>>;

/// Whether `text` reads as the document `j`.
pub open spec fn reads_as(text: Seq<char>, j: JsonView) -> bool {
    parsed_json(text) matches Ok(d) && d == j
}

/// The text that `serde_json::Number` writes for the finite floating-point
/// number that `text` writes, if it writes one.
pub uninterp spec fn canonical_real(text: Seq<char>) -> Option<Seq<char>>;

/// The text that `serde_json::to_string` writes for a document other than an
/// array.
pub uninterp spec fn compact_text(j: JsonView) -> Seq<char>;

/// The text that `serde_json::to_string_pretty` writes for a document.
pub uninterp spec fn pretty_text(j: JsonView) -> Seq<char>;

/// The compact text of a document: an array is its items between brackets with
/// commas between them.
pub open spec fn rendered(j: JsonView) -> Seq<char>
    decreases j,
{
    match j {
        JsonView::Array(items) => seq!['['] + crate::text::spec_join(rendered_items(items), seq![','])
            + seq![']'],
        _ => compact_text(j),
    }
}

/// The compact texts of the items of an array.
pub open spec fn rendered_items(items: Seq<JsonView>) -> Seq<Seq<char>>
    decreases items,
{
    Seq::new(
        items.len(),
        |i: int|
            if 0 <= i < items.len() {
                rendered(items[i])
            } else {
                seq![]
            },
    )
}

/// A value of serde_json taken apart, one level deep.
pub(crate) enum Node {
    Null,
    Bool(bool),
    Unsigned(u64),
    Negative(i64),
    Real(String),
    Str(String),
    Array(Vec<serde_json::Value>),
    Object(Vec<(String, serde_json::Value)>),
}

/// What a sequence of fields holds; the later of two fields with one key counts.
pub(crate) open spec fn values_view(fields: Seq<(String, serde_json::Value)>) -> Map<
    Seq<char>,
    JsonView,
>
    decreases fields.len(),
{
    if fields.len() == 0 {
        Map::empty()
    } else {
        values_view(fields.drop_last()).insert(fields.last().0@, value_view(fields.last().1))
    }
}

impl Node {
    pub(crate) open spec fn view(self) -> JsonView {
        match self {
            Node::Null => JsonView::Null,
            Node::Bool(b) => JsonView::Bool(b),
            Node::Unsigned(n) => JsonView::Number(NumberView::Unsigned(n)),
            Node::Negative(n) => JsonView::Number(NumberView::Negative(n)),
            Node::Real(t) => JsonView::Number(NumberView::Real(t@)),
            Node::Str(s) => JsonView::Str(s@),
            Node::Array(items) => JsonView::Array(items@.map_values(|v| value_view(v))),
            Node::Object(fields) => JsonView::Object(values_view(fields@)),
        }
    }
}

/// Takes a `serde_json::Value` apart by its variants. A number that is neither
/// an unsigned nor a signed integer is handed out as the text that
/// `serde_json::Number` writes for it; the keys of an object differ.
#[verifier::external_body]
fn open_value(v: serde_json::Value) -> (node: Node)
    ensures
        node.view() == value_view(v),
        node matches Node::Real(t) ==> canonical_real(t@) == Some(t@),
        node matches Node::Negative(n) ==> n < 0,
        node matches Node::Object(fields) ==> forall|i: int, j: int|
            0 <= i < j < fields@.len() ==> #[trigger] fields@[i].0@ != #[trigger] fields@[j].0@,
{
    match v {
        serde_json::Value::Null => Node::Null,
        serde_json::Value::Bool(b) => Node::Bool(b),
        serde_json::Value::Number(n) => match (n.as_u64(), n.as_i64()) {
            (Some(u), _) => Node::Unsigned(u),
            (None, Some(i)) => Node::Negative(i),
            (None, None) => Node::Real(n.to_string()),
        },
        serde_json::Value::String(s) => Node::Str(s),
        serde_json::Value::Array(items) => Node::Array(items),
        serde_json::Value::Object(fields) => Node::Object(fields.into_iter().collect()),
    }
}

/// Puts a `serde_json::Value` together. A real number is read from its text and
/// held as a floating-point number; what is not a finite number becomes null.
/// The later of two fields with one key is kept.
#[verifier::external_body]
fn close_value(node: Node) -> (v: serde_json::Value)
    ensures
        value_view(v) == (match node.view() {
            JsonView::Number(n) => number_normal(n),
            other => other,
        }),
{
    match node {
        Node::Null => serde_json::Value::Null,
        Node::Bool(b) => serde_json::Value::Bool(b),
        Node::Unsigned(n) => serde_json::Value::from(n),
        Node::Negative(n) => serde_json::Value::from(n),
        Node::Real(t) => t.parse().ok().and_then(serde_json::Number::from_f64).into(),
        Node::Str(s) => serde_json::Value::String(s),
        Node::Array(items) => serde_json::Value::Array(items),
        Node::Object(fields) => serde_json::Value::Object(fields.into_iter().collect()),
    }
}

/// `serde_json::from_str`, reading any document. The result is named
/// `parsed_json`.
#[verifier::external_body]
fn read_value(text: &str) -> (r: Result<serde_json::Value, String>)
    ensures
        match r {
            Ok(v) => parsed_json(text@) matches Ok(d) && d == value_view(v),
            Err(e) => parsed_json(text@) matches Err(m) && m == e@,
        },
{
    serde_json::from_str::<serde_json::Value>(text).map_err(|e| e.to_string())
}

/// `Display` of `serde_json::Value`, which writes what `serde_json::to_string`
/// writes of it. Arrays are written as `rendered` says. The text holds no line feed
/// and neither begins nor ends with white space. Reading it gives the document back,
/// where that holds no real number and is nested no deeper than serde_json reads.
#[verifier::external_body]
fn write_value(v: &serde_json::Value) -> (r: String)
    ensures
        !(value_view(*v) is Array) ==> r@ == compact_text(value_view(*v)),
        value_view(*v) is Array ==> r@ == rendered(value_view(*v)),
        forall|i: int| 0 <= i < r@.len() ==> #[trigger] r@[i] != '\n',
        r@.len() > 0,
        !crate::text::is_white(r@[0]),
        !crate::text::is_white(r@.last()),
        value_view(*v).no_reals() && value_view(*v).within_depth(127) ==> reads_as(r@, value_view(*v)),
{
    v.to_string()
}

/// `serde_json::to_string_pretty` of a document; the result is named
/// `pretty_text`. Writing a `Value` to a string does not fail.
#[verifier::external_body]
fn write_pretty(v: &serde_json::Value) -> (r: String)
    ensures
        r@ == pretty_text(value_view(*v)),
{
    serde_json::to_string_pretty(v).unwrap_or_default()
}

proof fn lemma_values_view_key(fields: Seq<(String, serde_json::Value)>, i: int)
    requires
        0 <= i < fields.len(),
        forall|a: int, b: int|
            0 <= a < b < fields.len() ==> #[trigger] fields[a].0@ != #[trigger] fields[b].0@,
    ensures
        values_view(fields).contains_key(fields[i].0@),
        values_view(fields)[fields[i].0@] == value_view(fields[i].1),
    decreases fields.len(),
{
    if i < fields.len() - 1 {
        let shorter = fields.drop_last();
        assert forall|a: int, b: int| 0 <= a < b < shorter.len() implies #[trigger] shorter[a].0@
            != #[trigger] shorter[b].0@ by {
            assert(fields[a].0@ != fields[b].0@);
        }
        lemma_values_view_key(shorter, i);
        assert(fields[i].0@ != fields.last().0@);
    }
}

/// The document that a value of serde_json holds.
fn from_value(v: serde_json::Value) -> (j: Json)
    ensures
        j.deep_view() == value_view(v),
        j.deep_view().canonical(),
    decreases value_view(v),
{
    let ghost view = value_view(v);
    match open_value(v) {
        Node::Null => Json::Null,
        Node::Bool(b) => Json::Bool(b),
        Node::Unsigned(n) => Json::Number(Number::Unsigned(n)),
        Node::Negative(n) => Json::Number(Number::Negative(n)),
        Node::Real(t) => Json::Number(Number::Real(t)),
        Node::Str(s) => Json::Str(s),
        Node::Array(items) => {
            let ghost all = items@;
            let mut out: Vec<Json> = Vec::new();
            for item in it: items
                invariant
                    it.seq() == all,
                    view == value_view(v),
                    view == JsonView::Array(all.map_values(|v| value_view(v))),
                    out@.len() == it.index(),
                    forall|k: int|
                        0 <= k < out@.len() ==> json_view(#[trigger] out@[k]) == value_view(all[k])
                            && json_view(out@[k]).canonical(),
            {
                assert(view->Array_0[it.index() as int] == value_view(item));
                assert(decreases_to!(view => view->Array_0));
                assert(decreases_to!(view->Array_0 => view->Array_0[it.index() as int]));
                out.push(from_value(item));
            }
            assert(items_view(out@) =~= view->Array_0);
            Json::Array(out)
        },
        Node::Object(fields) => {
            let ghost all = fields@;
            let mut out: Vec<(String, Json)> = Vec::new();
            for field in it: fields
                invariant
                    it.seq() == all,
                    view == value_view(v),
                    view == JsonView::Object(values_view(all)),
                    forall|a: int, b: int|
                        0 <= a < b < all.len() ==> #[trigger] all[a].0@ != #[trigger] all[b].0@,
                    fields_view(out@) == values_view(all.take(it.index() as int)),
                    forall|k: Seq<char>| #[trigger]
                        fields_view(out@).contains_key(k) ==> fields_view(out@)[k].canonical(),
            {
                let ghost i = it.index() as int;
                proof {
                    lemma_values_view_key(all, i);
                    assert(all.take(i + 1).drop_last() =~= all.take(i));
                }
                assert(view->Object_0[field.0@] == value_view(field.1));
                assert(decreases_to!(view => view->Object_0));
                proof {
                    vstd::map::axiom_map_index_decreases_infinite(view->Object_0, field.0@);
                }
                let ghost before = out@;
                let value = from_value(field.1);
                out.push((field.0, value));
                assert(out@.drop_last() =~= before);
            }
            assert(all.take(all.len() as int) =~= all);
            Json::Object(out)
        },
    }
}

/// The value of serde_json that holds a document.
fn to_value(j: &Json) -> (v: serde_json::Value)
    ensures
        value_view(v) == normalized(j.deep_view()),
    decreases *j,
{
    let node = match j {
        Json::Null => Node::Null,
        Json::Bool(b) => Node::Bool(*b),
        Json::Number(Number::Unsigned(n)) => Node::Unsigned(*n),
        Json::Number(Number::Negative(n)) => Node::Negative(*n),
        Json::Number(Number::Real(t)) => Node::Real(t.clone()),
        Json::Str(s) => Node::Str(s.clone()),
        Json::Array(items) => {
            let mut out: Vec<serde_json::Value> = Vec::new();
            let mut i: usize = 0;
            while i < items.len()
                invariant
                    *j == Json::Array(*items),
                    i <= items.len(),
                    out@.len() == i,
                    forall|k: int|
                        0 <= k < i ==> value_view(#[trigger] out@[k]) == normalized(
                            json_view(items@[k]),
                        ),
                decreases items.len() - i,
            {
                assert(decreases_to!(*j => j->Array_0));
                assert(decreases_to!(items@ => items@[i as int]));
                out.push(to_value(&items[i]));
                i += 1;
            }
            assert(j.deep_view() == JsonView::Array(items_view(items@)));
            assert(out@.map_values(|v| value_view(v)) =~= normalized(j.deep_view())->Array_0);
            Node::Array(out)
        },
        Json::Object(fields) => {
            let mut out: Vec<(String, serde_json::Value)> = Vec::new();
            let mut i: usize = 0;
            while i < fields.len()
                invariant
                    *j == Json::Object(*fields),
                    i <= fields.len(),
                    values_view(out@) == normalized(
                        JsonView::Object(fields_view(fields@.take(i as int))),
                    )->Object_0,
                decreases fields.len() - i,
            {
                let ghost before = out@;
                assert(fields@.take(i + 1).drop_last() =~= fields@.take(i as int));
                assert(decreases_to!(*j => j->Object_0));
                assert(decreases_to!(fields@ => fields@[i as int]));
                assert(decreases_to!(fields@[i as int] => fields@[i as int].1));
                out.push((fields[i].0.clone(), to_value(&fields[i].1)));
                assert(out@.drop_last() =~= before);
                assert(values_view(out@) =~= normalized(
                    JsonView::Object(fields_view(fields@.take(i + 1))),
                )->Object_0);
                i += 1;
            }
            assert(fields@.take(fields@.len() as int) =~= fields@);
            assert(j.deep_view() == JsonView::Object(fields_view(fields@)));
            Node::Object(out)
        },
    };
    close_value(node)
}

/// Reads a document; the error is serde_json's message.
pub fn parse(text: &str) -> (r: Result<Json, String>)
    ensures
        match r {
            Ok(j) => parsed_json(text@) matches Ok(d) && d == j.deep_view() && d.canonical(),
            Err(e) => parsed_json(text@) matches Err(m) && m == e@,
        },
{
    match read_value(text) {
        Ok(v) => Ok(from_value(v)),
        Err(e) => Err(e),
    }
}

/// Writes a document in its compact form.
pub fn render(j: &Json) -> (r: String)
    ensures
        r@ == json_text(j.deep_view()),
        forall|i: int| 0 <= i < r@.len() ==> #[trigger] r@[i] != '\n',
        r@.len() > 0,
        !crate::text::is_white(r@[0]),
        !crate::text::is_white(r@.last()),
        j.deep_view().canonical() && j.deep_view().no_reals() && j.deep_view().within_depth(127)
            ==> reads_as(r@, j.deep_view()),
{
    proof {
        if j.deep_view().canonical() {
            law_canonical_is_normal(j.deep_view());
        }
    }
    write_value(&to_value(j))
}

/// Writes a document with line breaks and indentation.
pub fn render_pretty(j: &Json) -> (r: String)
    ensures
        r@ == json_pretty(j.deep_view()),
{
    write_pretty(&to_value(j))
}

// ------------------------------------------------------- reading, building
proof fn lemma_fields_view_last(fields: Seq<(String, Json)>, n: int, key: Seq<char>)
    requires
        0 <= n <= fields.len(),
        forall|k: int| n <= k < fields.len() ==> (#[trigger] fields[k]).0@ != key,
    ensures
        fields_view(fields).contains_key(key) == fields_view(fields.take(n)).contains_key(key),
        fields_view(fields).contains_key(key) ==> fields_view(fields)[key] == fields_view(
            fields.take(n),
        )[key],
    decreases fields.len() - n,
{
    if n < fields.len() {
        lemma_fields_view_last(fields, n + 1, key);
        assert(fields.take(n + 1).drop_last() =~= fields.take(n));
        assert(fields[n].0@ != key);
    } else {
        assert(fields.take(n) =~= fields);
    }
}

/// Which keys the fields of an object have.
pub proof fn lemma_fields_view_keys(fields: Seq<(String, Json)>, key: Seq<char>)
    ensures
        fields_view(fields).contains_key(key) <==> exists|i: int|
            0 <= i < fields.len() && #[trigger] fields[i].0@ == key,
    decreases fields.len(),
{
    if fields.len() > 0 {
        let shorter = fields.drop_last();
        lemma_fields_view_keys(shorter, key);
        if fields_view(shorter).contains_key(key) {
            let i = choose|i: int| 0 <= i < shorter.len() && #[trigger] shorter[i].0@ == key;
            assert(fields[i].0@ == key);
        }
        if exists|i: int| 0 <= i < fields.len() && #[trigger] fields[i].0@ == key {
            let i = choose|i: int| 0 <= i < fields.len() && #[trigger] fields[i].0@ == key;
            if i < shorter.len() {
                assert(shorter[i].0@ == key);
            }
        }
        assert(fields[fields.len() - 1] == fields.last());
    }
}

/// The value that counts under `key` among the fields of an object.
pub fn find_field<'a>(fields: &'a [(String, Json)], key: &str) -> (r: Option<&'a Json>)
    ensures
        r.deep_view() == JsonView::Object(fields_view(fields@)).field(key@),
{
    let mut i: usize = fields.len();
    while i > 0
        invariant
            i <= fields@.len(),
            forall|k: int| i <= k < fields@.len() ==> (#[trigger] fields@[k]).0@ != key@,
        decreases i,
    {
        i -= 1;
        if crate::text::same(&fields[i].0, key) {
            proof {
                lemma_fields_view_last(fields@, i + 1, key@);
                assert(fields@.take(i + 1).drop_last() =~= fields@.take(i as int));
            }
            return Some(&fields[i].1);
        }
    }
    proof {
        lemma_fields_view_last(fields@, 0, key@);
        assert(fields@.take(0) =~= seq![]);
    }
    None
}

impl Json {
    /// The value under `key`, where this is an object that has it.
    pub fn get(&self, key: &str) -> (r: Option<&Json>)
        ensures
            r.deep_view() == self.deep_view().field(key@),
    {
        match self {
            Json::Object(fields) => find_field(fields.as_slice(), key),
            _ => None,
        }
    }

    /// The text, where this is a string.
    pub fn as_str(&self) -> (r: Option<&str>)
        ensures
            r is Some == self.deep_view().str() is Some,
            r matches Some(t) ==> self.deep_view() == JsonView::Str(t@),
    {
        match self {
            Json::Str(s) => Some(s.as_str()),
            _ => None,
        }
    }

    /// The number, where this is a non-negative integer.
    pub fn as_u64(&self) -> (r: Option<u64>)
        ensures
            r == self.deep_view().unsigned(),
    {
        match self {
            Json::Number(Number::Unsigned(n)) => Some(*n),
            _ => None,
        }
    }

    /// The flag, where this is a boolean.
    pub fn as_bool(&self) -> (r: Option<bool>)
        ensures
            r == self.deep_view().bool(),
    {
        match self {
            Json::Bool(b) => Some(*b),
            _ => None,
        }
    }

    /// The items, where this is an array.
    pub fn as_array(&self) -> (r: Option<&Vec<Json>>)
        ensures
            r is Some == self.deep_view().items() is Some,
            r matches Some(items) ==> self.deep_view() == JsonView::Array(items.deep_view()),
    {
        match self {
            Json::Array(items) => {
                assert(items_view(items@) =~= items.deep_view());
                Some(items)
            },
            _ => None,
        }
    }

    /// The text under `key`.
    pub fn get_str(&self, key: &str) -> (r: Option<&str>)
        ensures
            r is Some == self.deep_view().text_field(key@) is Some,
            r matches Some(t) ==> self.deep_view().text_field(key@) == Some(t@),
    {
        match self.get(key) {
            Some(v) => v.as_str(),
            None => None,
        }
    }

    /// An object without fields.
    pub fn object() -> (j: Json)
        ensures
            j.deep_view() == JsonView::Object(Map::empty()),
    {
        Json::Object(Vec::new())
    }

    /// This object with `value` under `key`. Anything but an object is
    /// replaced by one that has this field alone.
    pub fn with(self, key: &str, value: Json) -> (j: Json)
        ensures
            j.deep_view() == JsonView::Object(
                self.deep_view().object_fields().insert(key@, value.deep_view()),
            ),
    {
        match self {
            Json::Object(mut fields) => {
                let ghost before = fields@;
                assert(self.deep_view() == JsonView::Object(fields_view(before)));
                fields.push((key.to_owned(), value));
                assert(fields@.drop_last() =~= before);
                Json::Object(fields)
            },
            _ => {
                let mut fields: Vec<(String, Json)> = Vec::new();
                fields.push((key.to_owned(), value));
                assert(fields@.drop_last() =~= seq![]);
                assert(fields_view(seq![]) == Map::<Seq<char>, JsonView>::empty());
                Json::Object(fields)
            },
        }
    }

    /// This object without a value under `key`; anything but an object stays as
    /// it is.
    pub fn without(self, key: &str) -> (j: Json)
        ensures
            j.deep_view() == (match self.deep_view() {
                JsonView::Object(m) => JsonView::Object(m.remove(key@)),
                other => other,
            }),
    {
        match self {
            Json::Object(fields) => {
                let ghost all = fields@;
                let mut out: Vec<(String, Json)> = Vec::new();
                assert(fields_view(all.take(0)).remove(key@) =~= Map::empty());
                for field in it: fields
                    invariant
                        it.seq() == all,
                        fields_view(out@) == fields_view(all.take(it.index() as int)).remove(key@),
                {
                    let ghost before = out@;
                    let ghost i = it.index() as int;
                    assert(all.take(i + 1).drop_last() =~= all.take(i));
                    if !crate::text::same(&field.0, key) {
                        out.push(field);
                        assert(out@.drop_last() =~= before);
                    }
                    assert(fields_view(out@) =~= fields_view(all.take(i + 1)).remove(key@));
                }
                assert(all.take(all.len() as int) =~= all);
                Json::Object(out)
            },
            other => other,
        }
    }

    /// A string.
    pub fn text(s: &str) -> (j: Json)
        ensures
            j.deep_view() == JsonView::Str(s@),
    {
        Json::Str(s.to_owned())
    }

    /// A non-negative integer.
    pub fn number(n: u64) -> (j: Json)
        ensures
            j.deep_view() == JsonView::Number(NumberView::Unsigned(n)),
    {
        Json::Number(Number::Unsigned(n))
    }

    /// An array.
    pub fn array(items: Vec<Json>) -> (j: Json)
        ensures
            j.deep_view() == JsonView::Array(items.deep_view()),
    {
        assert(items_view(items@) =~= items.deep_view());
        Json::Array(items)
    }
}

impl JsonView {
    /// The fields, none where this is not an object.
    pub open spec fn object_fields(self) -> Map<Seq<char>, JsonView> {
        match self {
            JsonView::Object(m) => m,
            _ => Map::empty(),
        }
    }
}

impl Clone for Number {
    fn clone(&self) -> (r: Self)
        ensures
            r.deep_view() == self.deep_view(),
    {
        match self {
            Number::Unsigned(n) => Number::Unsigned(*n),
            Number::Negative(n) => Number::Negative(*n),
            Number::Real(t) => Number::Real(t.clone()),
        }
    }
}

impl Clone for Json {
    fn clone(&self) -> (r: Self)
        ensures
            r.deep_view() == self.deep_view(),
        decreases self,
    {
        match self {
            Json::Null => Json::Null,
            Json::Bool(b) => Json::Bool(*b),
            Json::Number(n) => Json::Number(n.clone()),
            Json::Str(s) => Json::Str(s.clone()),
            Json::Array(items) => {
                let mut out: Vec<Json> = Vec::new();
                let mut i: usize = 0;
                while i < items.len()
                    invariant
                        *self == Json::Array(*items),
                        i <= items.len(),
                        out@.len() == i,
                        forall|k: int|
                            0 <= k < i ==> json_view(#[trigger] out@[k]) == json_view(items@[k]),
                    decreases items.len() - i,
                {
                    assert(decreases_to!(*self => self->Array_0));
                    assert(decreases_to!(items@ => items@[i as int]));
                    out.push(items[i].clone());
                    i += 1;
                }
                assert(items_view(out@) =~= items_view(items@));
                Json::Array(out)
            },
            Json::Object(fields) => {
                let mut out: Vec<(String, Json)> = Vec::new();
                let mut i: usize = 0;
                while i < fields.len()
                    invariant
                        *self == Json::Object(*fields),
                        i <= fields.len(),
                        fields_view(out@) == fields_view(fields@.take(i as int)),
                    decreases fields.len() - i,
                {
                    let ghost before = out@;
                    assert(fields@.take(i + 1).drop_last() =~= fields@.take(i as int));
                    assert(decreases_to!(*self => self->Object_0));
                    assert(decreases_to!(fields@ => fields@[i as int]));
                    assert(decreases_to!(fields@[i as int] => fields@[i as int].1));
                    out.push((fields[i].0.clone(), fields[i].1.clone()));
                    assert(out@.drop_last() =~= before);
                    i += 1;
                }
                assert(fields@.take(fields@.len() as int) =~= fields@);
                Json::Object(out)
            },
        }
    }
}

} // verus!
