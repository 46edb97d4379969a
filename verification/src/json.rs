use vstd::prelude::*;

verus! {

/// A JSON number: the text it was written with, and its value where that is
/// an unsigned integer that fits in 64 bits.
#[derive(Debug, PartialEq)]
pub struct JsonNumber {
    pub unsigned: Option<u64>,
    pub text: String,
}

/// A JSON document as the server sends it: the free-form parts of messages,
/// tool states and plugin configuration are held this way.
#[derive(Debug, PartialEq)]
pub enum JsonValue {
    Null,
    Bool(bool),
    Number(JsonNumber),
    String(String),
    Array(Vec<JsonValue>),
    Object(Vec<(String, JsonValue)>),
}

/// The mathematical form of a JSON document, strings taken as characters.
pub enum JsonModel {
    Null,
    Bool(bool),
    Number(Option<u64>, Seq<char>),
    String(Seq<char>),
    Array(Seq<JsonModel>),
    Object(Seq<(Seq<char>, JsonModel)>),
}

impl View for JsonValue {
    type V = JsonModel;

    open spec fn view(&self) -> JsonModel
        decreases self, 0nat,
    {
        match self {
            JsonValue::Null => JsonModel::Null,
            JsonValue::Bool(b) => JsonModel::Bool(*b),
            JsonValue::Number(n) => JsonModel::Number(n.unsigned, n.text@),
            JsonValue::String(s) => JsonModel::String(s@),
            JsonValue::Array(items) => JsonModel::Array(items_view(items@)),
            JsonValue::Object(entries) => JsonModel::Object(fields_view(entries@)),
        }
    }
}

/// The models of a list of JSON values.
pub open spec fn items_view(items: Seq<JsonValue>) -> Seq<JsonModel>
    decreases items, 1nat,
{
    if items.len() == 0 {
        Seq::empty()
    } else {
        items_view(items.drop_last()).push(items.last().view())
    }
}

/// The models of the fields of a JSON object.
pub open spec fn fields_view(entries: Seq<(String, JsonValue)>) -> Seq<(Seq<char>, JsonModel)>
    decreases entries, 1nat,
{
    if entries.len() == 0 {
        Seq::empty()
    } else {
        fields_view(entries.drop_last()).push((entries.last().0@, entries.last().1.view()))
    }
}

pub proof fn lemma_items_view(items: Seq<JsonValue>)
    ensures
        items_view(items).len() == items.len(),
        forall|i: int| 0 <= i < items.len() ==> #[trigger] items_view(items)[i] == items[i]@,
    decreases items.len(),
{
    reveal_with_fuel(items_view, 1);
    if items.len() > 0 {
        lemma_items_view(items.drop_last());
        assert(items_view(items) == items_view(items.drop_last()).push(items.last().view()));
        assert(items_view(items).len() == items.len());
    } else {
        assert(items_view(items) == Seq::<JsonModel>::empty());
    }
}

pub proof fn lemma_fields_view(entries: Seq<(String, JsonValue)>)
    ensures
        fields_view(entries).len() == entries.len(),
        forall|i: int|
            0 <= i < entries.len() ==> #[trigger] fields_view(entries)[i] == (
                entries[i].0@,
                entries[i].1@,
            ),
    decreases entries.len(),
{
    if entries.len() > 0 {
        lemma_fields_view(entries.drop_last());
        assert(fields_view(entries) == fields_view(entries.drop_last()).push(
            (entries.last().0@, entries.last().1.view()),
        ));
    } else {
        assert(fields_view(entries) == Seq::<(Seq<char>, JsonModel)>::empty());
    }
}

/// The value of the first field named `key`.
pub open spec fn model_field(entries: Seq<(Seq<char>, JsonModel)>, key: Seq<char>) -> Option<
    JsonModel,
>
    decreases entries.len(),
{
    if entries.len() == 0 {
        None
    } else if entries[0].0 == key {
        Some(entries[0].1)
    } else {
        model_field(entries.drop_first(), key)
    }
}

/// Index of the first field named `key`, or the number of fields.
pub open spec fn model_field_index(entries: Seq<(Seq<char>, JsonModel)>, key: Seq<char>) -> int
    decreases entries.len(),
{
    if entries.len() == 0 {
        0
    } else if entries[0].0 == key {
        0
    } else {
        1 + model_field_index(entries.drop_first(), key)
    }
}

/// The object after setting field `key` to `value`: the first field of that
/// name takes the value, or the field is appended.
pub open spec fn model_with_field(
    entries: Seq<(Seq<char>, JsonModel)>,
    key: Seq<char>,
    value: JsonModel,
) -> Seq<(Seq<char>, JsonModel)> {
    let i = model_field_index(entries, key);
    if i < entries.len() {
        entries.update(i, (key, value))
    } else {
        entries.push((key, value))
    }
}

impl JsonModel {
    pub open spec fn get(self, key: Seq<char>) -> Option<JsonModel> {
        match self {
            JsonModel::Object(entries) => model_field(entries, key),
            _ => None,
        }
    }

    pub open spec fn as_str(self) -> Option<Seq<char>> {
        match self {
            JsonModel::String(s) => Some(s),
            _ => None,
        }
    }

    pub open spec fn as_bool(self) -> Option<bool> {
        match self {
            JsonModel::Bool(b) => Some(b),
            _ => None,
        }
    }

    pub open spec fn as_u64(self) -> Option<u64> {
        match self {
            JsonModel::Number(n, _) => n,
            _ => None,
        }
    }
}

/// A string field read as text: nothing when absent or not a string.
pub open spec fn str_field(entries: Seq<(Seq<char>, JsonModel)>, key: Seq<char>) -> Option<
    Seq<char>,
> {
    match model_field(entries, key) {
        Some(v) => v.as_str(),
        None => None,
    }
}

/// A boolean field that counts as `false` when absent or not a boolean.
pub open spec fn flag_field(entries: Seq<(Seq<char>, JsonModel)>, key: Seq<char>) -> bool {
    match model_field(entries, key) {
        Some(JsonModel::Bool(b)) => b,
        _ => false,
    }
}

pub proof fn lemma_field_agrees(entries: Seq<(String, JsonValue)>, key: Seq<char>)
    ensures
        field_index(entries, key) == model_field_index(fields_view(entries), key),
        match field(entries, key) {
            Some(v) => model_field(fields_view(entries), key) == Some(v@),
            None => model_field(fields_view(entries), key).is_none(),
        },
    decreases entries.len(),
{
    lemma_fields_view(entries);
    if entries.len() > 0 {
        let rest = entries.drop_first();
        lemma_fields_view(rest);
        assert(fields_view(rest) =~= fields_view(entries).drop_first());
        lemma_field_agrees(rest, key);
    }
}

/// Reading a field of a document agrees with reading it in the document's model.
pub proof fn lemma_view_get(v: JsonValue, key: Seq<char>)
    ensures
        match v.spec_get(key) {
            Some(x) => v@.get(key) == Some(x@),
            None => v@.get(key).is_none(),
        },
{
    if let JsonValue::Object(entries) = v {
        lemma_field_agrees(entries@, key);
    }
}

/// Setting a field of an object agrees with setting it in the object's model.
pub proof fn lemma_view_with_field(entries: Seq<(String, JsonValue)>, key: String, value: JsonValue)
    ensures
        fields_view(with_field(entries, key, value)) =~= model_with_field(
            fields_view(entries),
            key@,
            value@,
        ),
{
    lemma_field_agrees(entries, key@);
    lemma_field_index(entries, key@);
    lemma_fields_view(entries);
    lemma_fields_view(with_field(entries, key, value));
}

/// The fields of a JSON object, in order.
pub type JsonObject = Vec<(String, JsonValue)>;

/// The value of the first field named `key`.
pub open spec fn field(entries: Seq<(String, JsonValue)>, key: Seq<char>) -> Option<JsonValue>
    decreases entries.len(),
{
    if entries.len() == 0 {
        None
    } else if entries[0].0@ == key {
        Some(entries[0].1)
    } else {
        field(entries.drop_first(), key)
    }
}

/// Index of the first field named `key`, or the number of fields.
pub open spec fn field_index(entries: Seq<(String, JsonValue)>, key: Seq<char>) -> int
    decreases entries.len(),
{
    if entries.len() == 0 {
        0
    } else if entries[0].0@ == key {
        0
    } else {
        1 + field_index(entries.drop_first(), key)
    }
}

/// The object after setting field `key` to `value`: the first field of that
/// name takes the value, or the field is appended.
pub open spec fn with_field(entries: Seq<(String, JsonValue)>, key: String, value: JsonValue) -> Seq<
    (String, JsonValue),
> {
    let i = field_index(entries, key@);
    if i < entries.len() {
        entries.update(i, (entries[i].0, value))
    } else {
        entries.push((key, value))
    }
}

pub proof fn lemma_field_index(entries: Seq<(String, JsonValue)>, key: Seq<char>)
    ensures
        0 <= field_index(entries, key) <= entries.len(),
        field_index(entries, key) < entries.len() ==> entries[field_index(entries, key)].0@ == key
            && field(entries, key) == Some(entries[field_index(entries, key)].1),
        field_index(entries, key) == entries.len() ==> field(entries, key).is_none(),
        forall|j: int| 0 <= j < field_index(entries, key) ==> entries[j].0@ != key,
    decreases entries.len(),
{
    if entries.len() > 0 && entries[0].0@ != key {
        lemma_field_index(entries.drop_first(), key);
        assert forall|j: int| 0 <= j < field_index(entries, key) implies entries[j].0@ != key by {
            if j > 0 {
                assert(entries.drop_first()[j - 1] == entries[j]);
            }
        }
    }
}

/// Reading a field back gives what was set, and other fields are unchanged.
pub proof fn lemma_with_field(
    entries: Seq<(String, JsonValue)>,
    key: String,
    value: JsonValue,
    other: Seq<char>,
)
    ensures
        field(with_field(entries, key, value), key@) == Some(value),
        other != key@ ==> field(with_field(entries, key, value), other) == field(entries, other),
    decreases entries.len(),
{
    lemma_field_index(entries, key@);
    let next = with_field(entries, key, value);
    if entries.len() == 0 {
        assert(next.drop_first() =~= Seq::<(String, JsonValue)>::empty());
        assert(field(next.drop_first(), other) == None::<JsonValue>);
    } else if entries[0].0@ == key@ {
        assert(next.drop_first() =~= entries.drop_first());
        assert(next[0].0@ == key@);
    } else {
        lemma_field_index(entries.drop_first(), key@);
        lemma_with_field(entries.drop_first(), key, value, other);
        assert(next.drop_first() =~= with_field(entries.drop_first(), key, value));
    }
}

impl JsonValue {
    pub open spec fn spec_get(self, key: Seq<char>) -> Option<JsonValue> {
        match self {
            JsonValue::Object(entries) => field(entries@, key),
            _ => None,
        }
    }

    pub open spec fn spec_as_str(self) -> Option<Seq<char>> {
        match self {
            JsonValue::String(s) => Some(s@),
            _ => None,
        }
    }

    pub open spec fn spec_as_bool(self) -> Option<bool> {
        match self {
            JsonValue::Bool(b) => Some(b),
            _ => None,
        }
    }

    pub open spec fn spec_as_u64(self) -> Option<u64> {
        match self {
            JsonValue::Number(n) => n.unsigned,
            _ => None,
        }
    }

    /// The field `key` of an object; nothing for any other value.
    pub fn get(&self, key: &str) -> (r: Option<&JsonValue>)
        ensures
            r == match self.spec_get(key@) {
                Some(v) => Some(&v),
                None => None::<&JsonValue>,
            },
    {
        match self {
            JsonValue::Object(entries) => object_get(entries, key),
            _ => None,
        }
    }

    pub fn as_str(&self) -> (r: Option<&str>)
        ensures
            match r {
                Some(s) => self.spec_as_str() == Some(s@),
                None => self.spec_as_str().is_none(),
            },
    {
        match self {
            JsonValue::String(s) => Some(s.as_str()),
            _ => None,
        }
    }

    pub fn as_bool(&self) -> (r: Option<bool>)
        ensures
            r == self.spec_as_bool(),
    {
        match self {
            JsonValue::Bool(b) => Some(*b),
            _ => None,
        }
    }

    pub fn as_u64(&self) -> (r: Option<u64>)
        ensures
            r == self.spec_as_u64(),
    {
        match self {
            JsonValue::Number(n) => n.unsigned,
            _ => None,
        }
    }

    pub fn as_array(&self) -> (r: Option<&Vec<JsonValue>>)
        ensures
            match self {
                JsonValue::Array(items) => r == Some(items),
                _ => r.is_none(),
            },
    {
        match self {
            JsonValue::Array(items) => Some(items),
            _ => None,
        }
    }
}

/// The first field named `key`.
pub fn object_get<'a>(entries: &'a Vec<(String, JsonValue)>, key: &str) -> (r: Option<
    &'a JsonValue,
>)
    ensures
        r == match field(entries@, key@) {
            Some(v) => Some(&v),
            None => None::<&JsonValue>,
        },
{
    let i = object_position(entries, key);
    proof {
        lemma_field_index(entries@, key@);
    }
    if i < entries.len() {
        Some(&entries[i].1)
    } else {
        None
    }
}

fn object_position(entries: &Vec<(String, JsonValue)>, key: &str) -> (r: usize)
    ensures
        r == field_index(entries@, key@),
{
    proof {
        lemma_field_index(entries@, key@);
    }
    let mut i: usize = 0;
    while i < entries.len()
        invariant
            i <= entries@.len(),
            forall|j: int| 0 <= j < i ==> entries@[j].0@ != key@,
            0 <= field_index(entries@, key@) <= entries@.len(),
            forall|j: int| 0 <= j < field_index(entries@, key@) ==> entries@[j].0@ != key@,
            field_index(entries@, key@) < entries@.len() ==> entries@[field_index(
                entries@,
                key@,
            )].0@ == key@,
        decreases entries@.len() - i,
    {
        if crate::assoc::str_eq(entries[i].0.as_str(), key) {
            return i;
        }
        i += 1;
    }
    i
}

/// Sets field `key` of the object to `value`.
pub fn object_insert(entries: &mut Vec<(String, JsonValue)>, key: String, value: JsonValue)
    ensures
        final(entries)@ == with_field(old(entries)@, key, value),
{
    let i = object_position(entries, key.as_str());
    if i < entries.len() {
        let k = entries[i].0.clone();
        entries[i] = (k, value);
    } else {
        entries.push((key, value));
    }
}

impl Clone for JsonNumber {
    fn clone(&self) -> (r: Self)
        ensures
            r.unsigned == self.unsigned,
            r.text@ == self.text@,
    {
        JsonNumber { unsigned: self.unsigned, text: self.text.clone() }
    }
}

impl Clone for JsonValue {
    fn clone(&self) -> (r: Self)
        ensures
            r@ == self@,
        decreases self,
    {
        match self {
            JsonValue::Null => JsonValue::Null,
            JsonValue::Bool(b) => JsonValue::Bool(*b),
            JsonValue::Number(n) => JsonValue::Number(n.clone()),
            JsonValue::String(s) => JsonValue::String(s.clone()),
            JsonValue::Array(items) => {
                proof {
                    assert(decreases_to!(*self => self->Array_0));
                }
                let mut out: Vec<JsonValue> = Vec::new();
                let mut i: usize = 0;
                while i < items.len()
                    invariant
                        i <= items@.len(),
                        *self == JsonValue::Array(*items),
                        decreases_to!(*self => *items),
                        out@.len() == i,
                        forall|j: int| 0 <= j < i ==> (#[trigger] out@[j])@ == items@[j]@,
                    decreases items@.len() - i,
                {
                    proof {
                        assert(decreases_to!(*items => items[i as int]));
                    }
                    out.push(items[i].clone());
                    i += 1;
                }
                let r = JsonValue::Array(out);
                proof {
                    lemma_items_view(out@);
                    lemma_items_view(items@);
                    assert(items_view(out@) =~= items_view(items@));
                }
                r
            },
            JsonValue::Object(entries) => {
                proof {
                    assert(decreases_to!(*self => self->Object_0));
                }
                let mut out: Vec<(String, JsonValue)> = Vec::new();
                let mut i: usize = 0;
                while i < entries.len()
                    invariant
                        i <= entries@.len(),
                        *self == JsonValue::Object(*entries),
                        decreases_to!(*self => *entries),
                        out@.len() == i,
                        forall|j: int|
                            0 <= j < i ==> (#[trigger] out@[j]).0@ == entries@[j].0@ && out@[j].1@
                                == entries@[j].1@,
                    decreases entries@.len() - i,
                {
                    proof {
                        assert(decreases_to!(*entries => entries[i as int]));
                        assert(decreases_to!(entries[i as int] => entries[i as int].1));
                    }
                    let value = entries[i].1.clone();
                    out.push((entries[i].0.clone(), value));
                    i += 1;
                }
                let r = JsonValue::Object(out);
                proof {
                    lemma_fields_view(out@);
                    lemma_fields_view(entries@);
                    assert(fields_view(out@) =~= fields_view(entries@));
                }
                r
            },
        }
    }
}

} // verus!

verus! {

pub proof fn lemma_model_field_index(entries: Seq<(Seq<char>, JsonModel)>, key: Seq<char>)
    ensures
        0 <= model_field_index(entries, key) <= entries.len(),
        model_field_index(entries, key) < entries.len() ==> entries[model_field_index(entries, key)].0 == key
            && model_field(entries, key) == Some(entries[model_field_index(entries, key)].1),
        model_field_index(entries, key) == entries.len() ==> model_field(entries, key).is_none(),
        forall|j: int| 0 <= j < model_field_index(entries, key) ==> entries[j].0 != key,
    decreases entries.len(),
{
    if entries.len() > 0 && entries[0].0 != key {
        lemma_model_field_index(entries.drop_first(), key);
        assert forall|j: int| 0 <= j < model_field_index(entries, key) implies entries[j].0 != key by {
            if j > 0 {
                assert(entries.drop_first()[j - 1] == entries[j]);
            }
        }
    }
}

/// Reading back a field that was just set gives its new value; other fields
/// are unchanged.
pub proof fn lemma_model_with_field(
    entries: Seq<(Seq<char>, JsonModel)>,
    key: Seq<char>,
    value: JsonModel,
    other: Seq<char>,
)
    ensures
        model_field(model_with_field(entries, key, value), key) == Some(value),
        other != key ==> model_field(model_with_field(entries, key, value), other) == model_field(
            entries,
            other,
        ),
    decreases entries.len(),
{
    let next = model_with_field(entries, key, value);
    lemma_model_field_index(entries, key);
    if entries.len() == 0 {
        assert(next.drop_first() =~= Seq::<(Seq<char>, JsonModel)>::empty());
        assert(model_field(next.drop_first(), other) == None::<JsonModel>);
    } else if entries[0].0 == key {
        assert(next.drop_first() =~= entries.drop_first());
        assert(next[0].0 == key);
    } else {
        lemma_model_field_index(entries.drop_first(), key);
        lemma_model_with_field(entries.drop_first(), key, value, other);
        assert(next.drop_first() =~= model_with_field(entries.drop_first(), key, value));
    }
}

} // verus!

verus! {

/// Whether two documents are the same (their models are equal).
pub fn json_eq(a: &JsonValue, b: &JsonValue) -> (r: bool)
    ensures
        r == (a@ == b@),
    decreases a,
{
    match (a, b) {
        (JsonValue::Null, JsonValue::Null) => true,
        (JsonValue::Bool(x), JsonValue::Bool(y)) => *x == *y,
        (JsonValue::Number(x), JsonValue::Number(y)) => x.unsigned == y.unsigned
            && crate::assoc::str_eq(x.text.as_str(), y.text.as_str()),
        (JsonValue::String(x), JsonValue::String(y)) => crate::assoc::str_eq(x.as_str(), y.as_str()),
        (JsonValue::Array(xs), JsonValue::Array(ys)) => {
            proof {
                lemma_items_view(xs@);
                lemma_items_view(ys@);
            }
            if xs.len() != ys.len() {
                return false;
            }
            let mut i: usize = 0;
            while i < xs.len()
                invariant
                    *a == JsonValue::Array(*xs),
                    *b == JsonValue::Array(*ys),
                    decreases_to!(*a => *xs),
                    xs@.len() == ys@.len(),
                    i <= xs@.len(),
                    forall|j: int| 0 <= j < i ==> xs@[j]@ == ys@[j]@,
                decreases xs@.len() - i,
            {
                proof {
                    assert(decreases_to!(*xs => xs[i as int]));
                }
                if !json_eq(&xs[i], &ys[i]) {
                    proof {
                        lemma_items_view(xs@);
                        lemma_items_view(ys@);
                    }
                    assert(items_view(xs@)[i as int] != items_view(ys@)[i as int]);
                    return false;
                }
                i += 1;
            }
            assert(items_view(xs@) =~= items_view(ys@));
            true
        },
        (JsonValue::Object(xs), JsonValue::Object(ys)) => {
            proof {
                lemma_fields_view(xs@);
                lemma_fields_view(ys@);
                assert(decreases_to!(*a => a->Object_0));
            }
            if xs.len() != ys.len() {
                return false;
            }
            let mut i: usize = 0;
            while i < xs.len()
                invariant
                    *a == JsonValue::Object(*xs),
                    *b == JsonValue::Object(*ys),
                    decreases_to!(*a => *xs),
                    xs@.len() == ys@.len(),
                    i <= xs@.len(),
                    forall|j: int| 0 <= j < i ==> xs@[j].0@ == ys@[j].0@ && xs@[j].1@ == ys@[j].1@,
                decreases xs@.len() - i,
            {
                proof {
                    assert(decreases_to!(*xs => xs[i as int]));
                    assert(decreases_to!(xs[i as int] => xs[i as int].1));
                }
                if !crate::assoc::str_eq(xs[i].0.as_str(), ys[i].0.as_str()) || !json_eq(&xs[i].1, &ys[i].1) {
                    proof {
                        lemma_fields_view(xs@);
                        lemma_fields_view(ys@);
                    }
                    assert(fields_view(xs@)[i as int] != fields_view(ys@)[i as int]);
                    return false;
                }
                i += 1;
            }
            assert(fields_view(xs@) =~= fields_view(ys@));
            true
        },
        _ => false,
    }
}

} // verus!
