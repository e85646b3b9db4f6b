//! JSON values, as the messages between agents carry them.

use vstd::prelude::*;

use crate::text;

verus! {

/// A JSON number: a natural number or a negative integer of 64 bits, or the
/// text of any other number.
#[derive(Debug, PartialEq, Eq)]
#[verifier::ext_equal]
pub enum JsonNumber<S = String> {
    Natural(u64),
    Negative(i64),
    Decimal(S),
}

/// A JSON value. An object holds its fields in a row; where a name occurs
/// twice, the first field counts.
#[derive(Debug, PartialEq, Eq)]
pub enum Json {
    Null,
    Bool(bool),
    Number(JsonNumber),
    Text(String),
    Array(Vec<Json>),
    Object(Vec<(String, Json)>),
}

/// The mathematical value of a `Json`.
#[verifier::ext_equal]
pub enum JsonView {
    Null,
    Bool(bool),
    Number(JsonNumber<Seq<char>>),
    Text(Seq<char>),
    Array(Seq<JsonView>),
    Object(Seq<(Seq<char>, JsonView)>),
}

impl DeepView for JsonNumber {
    type V = JsonNumber<Seq<char>>;

    open spec fn deep_view(&self) -> JsonNumber<Seq<char>> {
        match *self {
            JsonNumber::Natural(n) => JsonNumber::Natural(n),
            JsonNumber::Negative(n) => JsonNumber::Negative(n),
            JsonNumber::Decimal(s) => JsonNumber::Decimal(s@),
        }
    }
}

/// The mathematical value of `json`.
pub open spec fn json_view(json: Json) -> JsonView
    decreases json,
{
    match json {
        Json::Null => JsonView::Null,
        Json::Bool(b) => JsonView::Bool(b),
        Json::Number(n) => JsonView::Number(n.deep_view()),
        Json::Text(s) => JsonView::Text(s@),
        Json::Array(items) => JsonView::Array(
            Seq::new(
                items@.len(),
                |i: int|
                    if 0 <= i < items@.len() {
                        json_view(items@[i])
                    } else {
                        JsonView::Null
                    },
            ),
        ),
        Json::Object(fields) => JsonView::Object(
            Seq::new(
                fields@.len(),
                |i: int|
                    if 0 <= i < fields@.len() {
                        (fields@[i].0@, json_view(fields@[i].1))
                    } else {
                        (Seq::<char>::empty(), JsonView::Null)
                    },
            ),
        ),
    }
}

impl DeepView for Json {
    type V = JsonView;

    open spec fn deep_view(&self) -> JsonView {
        json_view(*self)
    }
}

/// The value of the first field named `key`.
pub open spec fn field_among(
    fields: Seq<(Seq<char>, JsonView)>,
    key: Seq<char>,
) -> Option<JsonView>
    decreases fields.len(),
{
    if fields.len() == 0 {
        None
    } else if fields[0].0 == key {
        Some(fields[0].1)
    } else {
        field_among(fields.subrange(1, fields.len() as int), key)
    }
}

impl JsonView {
    pub open spec fn text(self) -> Option<Seq<char>> {
        match self {
            JsonView::Text(s) => Some(s),
            _ => None,
        }
    }

    pub open spec fn natural(self) -> Option<u64> {
        match self {
            JsonView::Number(JsonNumber::Natural(n)) => Some(n),
            _ => None,
        }
    }

    pub open spec fn array(self) -> Option<Seq<JsonView>> {
        match self {
            JsonView::Array(items) => Some(items),
            _ => None,
        }
    }

    /// The field named `key`, where the value is an object that has one.
    pub open spec fn field(self, key: Seq<char>) -> Option<JsonView> {
        match self {
            JsonView::Object(fields) => field_among(fields, key),
            _ => None,
        }
    }

    /// The text in the field named `key`.
    pub open spec fn text_field(self, key: Seq<char>) -> Option<Seq<char>> {
        match self.field(key) {
            Some(value) => value.text(),
            None => None,
        }
    }

    /// The trimmed text in the field named `key`, if it is not blank.
    pub open spec fn present_field(self, key: Seq<char>) -> Option<Seq<char>> {
        text::present(self.text_field(key))
    }

    /// The natural number in the field named `key`.
    pub open spec fn natural_field(self, key: Seq<char>) -> Option<u64> {
        match self.field(key) {
            Some(value) => value.natural(),
            None => None,
        }
    }

    /// The object in the field named `key`.
    pub open spec fn object_field(self, key: Seq<char>) -> Option<JsonView> {
        match self.field(key) {
            Some(value) => if value is Object { Some(value) } else { None },
            None => None,
        }
    }

    /// The items of the array in the field named `key`.
    pub open spec fn array_field(self, key: Seq<char>) -> Option<Seq<JsonView>> {
        match self.field(key) {
            Some(value) => value.array(),
            None => None,
        }
    }
}

/// The first field of a name is the one that is found.
pub proof fn lemma_field_among_at(fields: Seq<(Seq<char>, JsonView)>, key: Seq<char>, n: int)
    requires
        0 <= n <= fields.len(),
        forall|i: int| 0 <= i < n ==> (#[trigger] fields[i]).0 != key,
        n < fields.len() ==> fields[n].0 == key,
    ensures
        field_among(fields, key) == (if n < fields.len() { Some(fields[n].1) } else { None }),
    decreases fields.len(),
{
    if n > 0 {
        let rest = fields.subrange(1, fields.len() as int);
        assert forall|i: int| 0 <= i < n - 1 implies (#[trigger] rest[i]).0 != key by {
            assert(rest[i] == fields[i + 1]);
        }
        lemma_field_among_at(rest, key, n - 1);
        assert(fields[0].0 != key);
    }
}

impl Json {
    /// A JSON text with the characters of `s`.
    pub fn from_text(s: &str) -> (r: Json)
        ensures
            r.deep_view() == JsonView::Text(s@),
    {
        Json::Text(s.to_owned())
    }

    /// The text of a JSON text.
    pub fn as_text(&self) -> (r: Option<&str>)
        ensures
            r.deep_view() == self.deep_view().text(),
    {
        match self {
            Json::Text(s) => Some(s.as_str()),
            _ => None,
        }
    }

    /// The value of a natural number.
    pub fn as_natural(&self) -> (r: Option<u64>)
        ensures
            r == self.deep_view().natural(),
    {
        match self {
            Json::Number(JsonNumber::Natural(n)) => Some(*n),
            _ => None,
        }
    }

    /// Whether this is an object.
    pub fn is_object(&self) -> (r: bool)
        ensures
            r == (self.deep_view() is Object),
    {
        match self {
            Json::Object(_) => true,
            _ => false,
        }
    }

    /// The field named `key`, where this is an object that has one.
    pub fn get(&self, key: &str) -> (r: Option<&Json>)
        ensures
            r.deep_view() == self.deep_view().field(key@),
    {
        match self {
            Json::Object(fields) => {
                let ghost all = self.deep_view()->Object_0;
                for i in 0..fields.len()
                    invariant
                        *self == Json::Object(*fields),
                        all == self.deep_view()->Object_0,
                        all.len() == fields@.len(),
                        forall|j: int|
                            0 <= j < fields@.len() ==> #[trigger] all[j] == (
                                fields@[j].0@,
                                fields@[j].1.deep_view(),
                            ),
                        forall|j: int| 0 <= j < i ==> (#[trigger] all[j]).0 != key@,
                {
                    proof {
                        assert(all[i as int] == (
                            fields@[i as int].0@,
                            fields@[i as int].1.deep_view(),
                        ));
                    }
                    if text::same(fields[i].0.as_str(), key) {
                        proof {
                            lemma_field_among_at(all, key@, i as int);
                        }
                        return Some(&fields[i].1);
                    }
                }
                proof {
                    lemma_field_among_at(all, key@, all.len() as int);
                }
                None
            },
            _ => None,
        }
    }

    /// The text in the field named `key`.
    pub fn get_text(&self, key: &str) -> (r: Option<&str>)
        ensures
            r.deep_view() == self.deep_view().text_field(key@),
    {
        match self.get(key) {
            Some(value) => value.as_text(),
            None => None,
        }
    }

    /// The trimmed text in the field named `key`, if it is not blank.
    pub fn get_present(&self, key: &str) -> (r: Option<&str>)
        ensures
            r.deep_view() == self.deep_view().present_field(key@),
    {
        match self.get_text(key) {
            Some(s) => {
                let t = text::trim(s);
                if t.is_empty() {
                    None
                } else {
                    Some(t)
                }
            },
            None => None,
        }
    }

    /// The natural number in the field named `key`.
    pub fn get_natural(&self, key: &str) -> (r: Option<u64>)
        ensures
            r == self.deep_view().natural_field(key@),
    {
        match self.get(key) {
            Some(value) => value.as_natural(),
            None => None,
        }
    }

    /// The object in the field named `key`.
    pub fn get_object(&self, key: &str) -> (r: Option<&Json>)
        ensures
            r.deep_view() == self.deep_view().object_field(key@),
    {
        match self.get(key) {
            Some(value) => if value.is_object() {
                Some(value)
            } else {
                None
            },
            None => None,
        }
    }

    /// The items of the array in the field named `key`.
    pub fn get_array(&self, key: &str) -> (r: Option<&Vec<Json>>)
        ensures
            match r {
                Some(items) => self.deep_view().array_field(key@) == Some(items.deep_view()),
                None => self.deep_view().array_field(key@) is None,
            },
    {
        match self.get(key) {
            Some(Json::Array(items)) => {
                proof {
                    assert(Json::Array(*items).deep_view()->Array_0 =~= items.deep_view());
                }
                Some(items)
            },
            _ => None,
        }
    }

    /// A copy of this value.
    pub fn copy(&self) -> (r: Json)
        ensures
            r.deep_view() == self.deep_view(),
        decreases self,
    {
        match self {
            Json::Null => Json::Null,
            Json::Bool(b) => Json::Bool(*b),
            Json::Number(n) => match n {
                JsonNumber::Natural(n) => Json::Number(JsonNumber::Natural(*n)),
                JsonNumber::Negative(n) => Json::Number(JsonNumber::Negative(*n)),
                JsonNumber::Decimal(s) => Json::Number(JsonNumber::Decimal(s.clone())),
            },
            Json::Text(s) => Json::Text(s.clone()),
            Json::Array(items) => {
                let mut copies: Vec<Json> = Vec::new();
                for i in 0..items.len()
                    invariant
                        *self == Json::Array(*items),
                        copies@.len() == i,
                        forall|j: int|
                            0 <= j < i ==> #[trigger] copies@[j].deep_view()
                                == items@[j].deep_view(),
                {
                    proof {
                        assert(decreases_to!(*self => self->Array_0));
                        assert(decreases_to!(self->Array_0 => items@));
                        assert(decreases_to!(items@ => items@[i as int]));
                    }
                    copies.push(items[i].copy());
                }
                let r = Json::Array(copies);
                proof {
                    let ours = json_view(*self)->Array_0;
                    let theirs = json_view(r)->Array_0;
                    assert forall|j: int| 0 <= j < items@.len() implies #[trigger] ours[j]
                        == theirs[j] by {
                        assert(copies@[j].deep_view() == items@[j].deep_view());
                        assert(ours[j] == json_view(items@[j]));
                        assert(theirs[j] == json_view(copies@[j]));
                    }
                    assert(ours =~= theirs);
                }
                r
            },
            Json::Object(fields) => {
                let mut copies: Vec<(String, Json)> = Vec::new();
                for i in 0..fields.len()
                    invariant
                        *self == Json::Object(*fields),
                        copies@.len() == i,
                        forall|j: int|
                            0 <= j < i ==> (#[trigger] copies@[j]).0@ == fields@[j].0@
                                && copies@[j].1.deep_view() == fields@[j].1.deep_view(),
                {
                    proof {
                        assert(decreases_to!(*self => self->Object_0));
                        assert(decreases_to!(self->Object_0 => fields@));
                        assert(decreases_to!(fields@ => fields@[i as int]));
                        assert(decreases_to!(fields@[i as int] => fields@[i as int].1));
                    }
                    copies.push((fields[i].0.clone(), fields[i].1.copy()));
                }
                let r = Json::Object(copies);
                proof {
                    assert(r.deep_view()->Object_0 =~= self.deep_view()->Object_0);
                }
                r
            },
        }
    }
}

impl Clone for Json {
    fn clone(&self) -> (r: Json)
        ensures
            r.deep_view() == self.deep_view(),
    {
        self.copy()
    }
}

/// A copy of an optional value.
pub fn copy_option(value: &Option<Json>) -> (r: Option<Json>)
    ensures
        r.deep_view() == value.deep_view(),
{
    match value {
        Some(value) => Some(value.copy()),
        None => None,
    }
}

/// The fields of an object that is being built.
pub struct Fields {
    fields: Vec<(String, Json)>,
}

impl View for Fields {
    type V = Seq<(Seq<char>, JsonView)>;

    closed spec fn view(&self) -> Seq<(Seq<char>, JsonView)> {
        Seq::new(
            self.fields@.len(),
            |i: int| (self.fields@[i].0@, self.fields@[i].1.deep_view()),
        )
    }
}

impl Fields {
    /// No fields.
    pub fn new() -> (r: Fields)
        ensures
            r@ == Seq::<(Seq<char>, JsonView)>::empty(),
    {
        let r = Fields { fields: Vec::new() };
        proof {
            assert(r@ =~= Seq::<(Seq<char>, JsonView)>::empty());
        }
        r
    }

    /// Adds a field at the end.
    pub fn put(&mut self, key: &str, value: Json)
        ensures
            final(self)@ == old(self)@.push((key@, value.deep_view())),
    {
        self.fields.push((key.to_owned(), value));
        proof {
            assert(self@ =~= old(self)@.push((key@, value.deep_view())));
        }
    }

    /// Adds a text field at the end.
    pub fn put_text(&mut self, key: &str, value: &str)
        ensures
            final(self)@ == old(self)@.push((key@, JsonView::Text(value@))),
    {
        self.put(key, Json::from_text(value));
    }

    /// Adds a text field at the end where there is a text.
    pub fn put_option(&mut self, key: &str, value: Option<&str>)
        ensures
            final(self)@ == with_option(old(self)@, key@, value.deep_view()),
    {
        match value {
            Some(value) => self.put_text(key, value),
            None => {},
        }
    }

    /// Whether there are no fields.
    pub fn is_empty(&self) -> (r: bool)
        ensures
            r == (self@.len() == 0),
    {
        self.fields.len() == 0
    }

    /// The object with these fields.
    pub fn object(self) -> (r: Json)
        ensures
            r.deep_view() == JsonView::Object(self@),
    {
        let r = Json::Object(self.fields);
        proof {
            assert(r.deep_view()->Object_0 =~= self@);
        }
        r
    }
}

/// `fields`, and behind them a text field where there is a text.
pub open spec fn with_option(
    fields: Seq<(Seq<char>, JsonView)>,
    key: Seq<char>,
    value: Option<Seq<char>>,
) -> Seq<(Seq<char>, JsonView)> {
    match value {
        Some(value) => fields.push((key, JsonView::Text(value))),
        None => fields,
    }
}

/// A field that is there is found, and one that was left out is not; the others are found
/// as before.
pub proof fn law_an_option_is_found_again(
    fields: Seq<(Seq<char>, JsonView)>,
    key: Seq<char>,
    value: Option<Seq<char>>,
)
    requires
        forall|i: int| 0 <= i < fields.len() ==> (#[trigger] fields[i]).0 != key,
    ensures
        JsonView::Object(with_option(fields, key, value)).text_field(key) == value,
        forall|i: int|
            0 <= i < fields.len() ==> with_option(fields, key, value)[i] == #[trigger] fields[i],
        with_option(fields, key, value).len() == fields.len() + (if value is Some {
            1int
        } else {
            0int
        }),
{
    lemma_field_among_at(with_option(fields, key, value), key, fields.len() as int);
}

} // verus!
