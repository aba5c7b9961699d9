//! JSON values and the walks over them: field lookup, redaction of inline image
//! data and counting of string payloads.

use vstd::prelude::*;

use crate::text::{decimal, decimal_text, same_text};

verus! {

/// A JSON number. A number that is neither an unsigned nor a negative 64-bit
/// integer is kept as its numeral.
#[derive(Debug)]
pub enum JsonNumber {
    Unsigned(u64),
    Negative(i64),
    Decimal(String),
}

/// One member of a JSON object.
#[derive(Debug)]
pub struct JsonField {
    pub key: String,
    pub value: JsonValue,
}

/// A JSON value. The members of an object stand in ascending order of their
/// keys.
#[derive(Debug)]
pub enum JsonValue {
    Null,
    Bool(bool),
    Number(JsonNumber),
    Text(String),
    Array(Vec<JsonValue>),
    Object(Vec<JsonField>),
}

/// What a [`JsonNumber`] denotes.
pub enum NumberModel {
    Unsigned(u64),
    Negative(i64),
    Decimal(Seq<char>),
}

/// What a [`JsonValue`] denotes.
pub enum JsonModel {
    Null,
    Bool(bool),
    Number(NumberModel),
    Text(Seq<char>),
    Array(Seq<JsonModel>),
    Object(Seq<(Seq<char>, JsonModel)>),
}

impl View for JsonNumber {
    type V = NumberModel;

    open spec fn view(&self) -> NumberModel {
        match self {
            JsonNumber::Unsigned(n) => NumberModel::Unsigned(*n),
            JsonNumber::Negative(n) => NumberModel::Negative(*n),
            JsonNumber::Decimal(s) => NumberModel::Decimal(s@),
        }
    }
}

/// The model of a value.
pub open spec fn json_model(v: JsonValue) -> JsonModel
    decreases v,
{
    match v {
        JsonValue::Null => JsonModel::Null,
        JsonValue::Bool(b) => JsonModel::Bool(b),
        JsonValue::Number(n) => JsonModel::Number(n@),
        JsonValue::Text(s) => JsonModel::Text(s@),
        JsonValue::Array(items) => JsonModel::Array(
            Seq::new(
                items@.len(),
                |i: int|
                    if 0 <= i < items@.len() {
                        json_model(items@[i])
                    } else {
                        JsonModel::Null
                    },
            ),
        ),
        JsonValue::Object(fields) => JsonModel::Object(
            Seq::new(
                fields@.len(),
                |i: int|
                    if 0 <= i < fields@.len() {
                        (fields@[i].key@, json_model(fields@[i].value))
                    } else {
                        (Seq::empty(), JsonModel::Null)
                    },
            ),
        ),
    }
}

impl View for JsonValue {
    type V = JsonModel;

    open spec fn view(&self) -> JsonModel {
        json_model(*self)
    }
}

/// The models of the items of an array.
pub open spec fn item_models(items: Seq<JsonValue>) -> Seq<JsonModel> {
    Seq::new(items.len(), |i: int| items[i]@)
}

/// The models of the members of an object.
pub open spec fn field_models(fields: Seq<JsonField>) -> Seq<(Seq<char>, JsonModel)> {
    Seq::new(fields.len(), |i: int| (fields[i].key@, fields[i].value@))
}

/// How an array and an object are modelled.
pub proof fn lemma_json_model(v: JsonValue)
    ensures
        v matches JsonValue::Array(items) ==> v@ == JsonModel::Array(item_models(items@)),
        v matches JsonValue::Object(fields) ==> v@ == JsonModel::Object(field_models(fields@)),
{
    match v {
        JsonValue::Array(items) => {
            assert(v@->Array_0 =~= item_models(items@));
        },
        JsonValue::Object(fields) => {
            assert(v@->Object_0 =~= field_models(fields@));
        },
        _ => {},
    }
}

/// The position of the first member with this key at or behind `from`, or the
/// number of members.
pub open spec fn field_position(
    fields: Seq<(Seq<char>, JsonModel)>,
    key: Seq<char>,
    from: int,
) -> int
    decreases fields.len() - from,
{
    if from < 0 || from >= fields.len() {
        fields.len() as int
    } else if fields[from].0 == key {
        from
    } else {
        field_position(fields, key, from + 1)
    }
}

/// Whether an object has a member with this key.
pub open spec fn has_field(fields: Seq<(Seq<char>, JsonModel)>, key: Seq<char>) -> bool {
    field_position(fields, key, 0) < fields.len()
}

/// The value of the member with this key.
pub open spec fn field_value(
    fields: Seq<(Seq<char>, JsonModel)>,
    key: Seq<char>,
) -> Option<JsonModel> {
    if has_field(fields, key) {
        Some(fields[field_position(fields, key, 0)].1)
    } else {
        None
    }
}

/// What [`field_position`] finds.
pub proof fn lemma_field_position(fields: Seq<(Seq<char>, JsonModel)>, key: Seq<char>, from: int)
    requires
        0 <= from <= fields.len(),
    ensures
        from <= field_position(fields, key, from) <= fields.len(),
        field_position(fields, key, from) < fields.len() ==> fields[field_position(
            fields,
            key,
            from,
        )].0 == key,
        forall|i: int| from <= i < field_position(fields, key, from) ==> fields[i].0 != key,
    decreases fields.len() - from,
{
    if from < fields.len() && fields[from].0 != key {
        lemma_field_position(fields, key, from + 1);
    }
}

/// Finds [`field_position`] from the start.
pub fn find_field(fields: &Vec<JsonField>, key: &str) -> (r: usize)
    ensures
        r == field_position(field_models(fields@), key@, 0),
        r <= fields@.len(),
{
    let mut i: usize = 0;
    while i < fields.len()
        invariant
            i <= fields@.len(),
            field_position(field_models(fields@), key@, 0) == field_position(
                field_models(fields@),
                key@,
                i as int,
            ),
        decreases fields@.len() - i,
    {
        if same_text(fields[i].key.as_str(), key) {
            return i;
        }
        i += 1;
    }
    i
}

/// The order of keys: by the first character in which they differ, a prefix
/// first.
pub open spec fn key_less(a: Seq<char>, b: Seq<char>) -> bool
    decreases a.len(),
{
    if b.len() == 0 {
        false
    } else if a.len() == 0 {
        true
    } else if a[0] != b[0] {
        a[0] < b[0]
    } else {
        key_less(a.drop_first(), b.drop_first())
    }
}

/// Decides [`key_less`].
fn is_key_less(a: &str, b: &str) -> (r: bool)
    ensures
        r == key_less(a@, b@),
{
    let left = crate::text::chars_of(a);
    let right = crate::text::chars_of(b);
    let mut i: usize = 0;
    assert(a@.skip(0) == a@ && b@.skip(0) == b@);
    while i < left.len() && i < right.len()
        invariant
            left@ == a@,
            right@ == b@,
            i <= left@.len(),
            i <= right@.len(),
            key_less(a@, b@) == key_less(a@.skip(i as int), b@.skip(i as int)),
        decreases left@.len() - i,
    {
        if left[i] != right[i] {
            return left[i] < right[i];
        }
        assert(a@.skip(i as int).drop_first() == a@.skip(i + 1));
        assert(b@.skip(i as int).drop_first() == b@.skip(i + 1));
        i += 1;
    }
    i < right.len()
}

/// Whether every object in a value has its members in strictly ascending order
/// of their keys.
pub open spec fn json_ordered(v: JsonModel) -> bool
    decreases v,
{
    match v {
        JsonModel::Array(items) => forall|i: int| 0 <= i < items.len() ==> json_ordered(items[i]),
        JsonModel::Object(fields) => {
            &&& fields_ordered(fields)
            &&& forall|i: int| 0 <= i < fields.len() ==> json_ordered(fields[i].1)
        },
        _ => true,
    }
}

/// Whether members stand in strictly ascending order of their keys.
pub open spec fn fields_ordered(fields: Seq<(Seq<char>, JsonModel)>) -> bool {
    forall|i: int, j: int|
        0 <= i < j < fields.len() ==> key_less(#[trigger] fields[i].0, #[trigger] fields[j].0)
}

/// Where a new member with this key belongs among ordered members.
pub open spec fn insert_position(
    fields: Seq<(Seq<char>, JsonModel)>,
    key: Seq<char>,
    from: int,
) -> int
    decreases fields.len() - from,
{
    if from < 0 || from >= fields.len() {
        fields.len() as int
    } else if key_less(key, fields[from].0) {
        from
    } else {
        insert_position(fields, key, from + 1)
    }
}

/// Members after a value is stored under a key: an existing member is given the
/// value, a new one is put in its place in the order.
pub open spec fn with_field(
    fields: Seq<(Seq<char>, JsonModel)>,
    key: Seq<char>,
    value: JsonModel,
) -> Seq<(Seq<char>, JsonModel)> {
    if has_field(fields, key) {
        fields.update(field_position(fields, key, 0), (key, value))
    } else {
        fields.insert(insert_position(fields, key, 0), (key, value))
    }
}

/// Members after the one with this key is taken out.
pub open spec fn without_field(
    fields: Seq<(Seq<char>, JsonModel)>,
    key: Seq<char>,
) -> Seq<(Seq<char>, JsonModel)> {
    if has_field(fields, key) {
        fields.remove(field_position(fields, key, 0))
    } else {
        fields
    }
}

/// Keys are ordered totally, and no key precedes itself.
pub proof fn lemma_key_less_total(a: Seq<char>, b: Seq<char>)
    ensures
        !(key_less(a, b) && key_less(b, a)),
        a == b <==> !key_less(a, b) && !key_less(b, a),
    decreases a.len(),
{
    if a.len() > 0 && b.len() > 0 && a[0] == b[0] {
        lemma_key_less_total(a.drop_first(), b.drop_first());
        if a.drop_first() == b.drop_first() {
            assert(a =~= seq![a[0]] + a.drop_first());
            assert(b =~= seq![b[0]] + b.drop_first());
        }
    } else if a.len() > 0 && b.len() > 0 {
        assert(a[0] < b[0] || b[0] < a[0]);
    } else {
        assert(a.len() == 0 && b.len() == 0 ==> a =~= b);
    }
}

/// The order of keys is transitive.
pub proof fn lemma_key_less_transitive(a: Seq<char>, b: Seq<char>, c: Seq<char>)
    requires
        key_less(a, b),
        key_less(b, c),
    ensures
        key_less(a, c),
    decreases a.len(),
{
    if a.len() > 0 && b.len() > 0 && c.len() > 0 && a[0] == b[0] && b[0] == c[0] {
        lemma_key_less_transitive(a.drop_first(), b.drop_first(), c.drop_first());
    }
}

proof fn lemma_insert_position(fields: Seq<(Seq<char>, JsonModel)>, key: Seq<char>, from: int)
    requires
        0 <= from <= fields.len(),
    ensures
        from <= insert_position(fields, key, from) <= fields.len(),
        insert_position(fields, key, from) < fields.len() ==> key_less(
            key,
            fields[insert_position(fields, key, from)].0,
        ),
        forall|i: int|
            from <= i < insert_position(fields, key, from) ==> !key_less(key, fields[i].0),
    decreases fields.len() - from,
{
    if from < fields.len() && !key_less(key, fields[from].0) {
        lemma_insert_position(fields, key, from + 1);
    }
}

/// Storing a member keeps the order of keys.
pub proof fn lemma_with_field_ordered(
    fields: Seq<(Seq<char>, JsonModel)>,
    key: Seq<char>,
    value: JsonModel,
)
    requires
        fields_ordered(fields),
    ensures
        fields_ordered(with_field(fields, key, value)),
{
    lemma_field_position(fields, key, 0);
    let r = with_field(fields, key, value);
    if !has_field(fields, key) {
        lemma_insert_position(fields, key, 0);
        let at = insert_position(fields, key, 0);
        assert forall|i: int, j: int| 0 <= i < j < r.len() implies key_less(
            #[trigger] r[i].0,
            #[trigger] r[j].0,
        ) by {
            if i == at {
                let first = fields[at].0;
                if j - 1 > at {
                    lemma_key_less_transitive(key, first, fields[j - 1].0);
                }
            } else if j == at {
                lemma_key_less_total(fields[i].0, key);
            }
        }
    }
}

/// Inserts a member the way [`with_field`] describes.
pub fn put_field(fields: &mut Vec<JsonField>, key: &str, value: JsonValue)
    ensures
        field_models(final(fields)@) == with_field(field_models(old(fields)@), key@, value@),
{
    let ghost before = field_models(fields@);
    let at = find_field(fields, key);
    let entry = JsonField { key: key.to_owned(), value };
    if at < fields.len() {
        fields.set(at, entry);
        assert(field_models(fields@) =~= before.update(at as int, (key@, value@)));
    } else {
        let mut i: usize = 0;
        while i < fields.len() && !is_key_less(key, fields[i].key.as_str())
            invariant
                i <= fields@.len(),
                before == field_models(fields@),
                insert_position(before, key@, 0) == insert_position(before, key@, i as int),
            decreases fields@.len() - i,
        {
            i += 1;
        }
        fields.insert(i, entry);
        assert(field_models(fields@) =~= before.insert(i as int, (key@, value@)));
    }
}

/// Takes out the member with this key; says whether there was one.
pub fn take_field(fields: &mut Vec<JsonField>, key: &str) -> (r: bool)
    ensures
        r == has_field(field_models(old(fields)@), key@),
        field_models(final(fields)@) == without_field(field_models(old(fields)@), key@),
{
    let ghost before = field_models(fields@);
    let at = find_field(fields, key);
    if at < fields.len() {
        fields.remove(at);
        assert(field_models(fields@) =~= before.remove(at as int));
        true
    } else {
        false
    }
}

impl JsonValue {
    /// The value of a member of an object.
    pub open spec fn member_model(v: JsonModel, key: Seq<char>) -> Option<JsonModel> {
        match v {
            JsonModel::Object(fields) => field_value(fields, key),
            _ => None,
        }
    }

    /// The text in a text value.
    pub open spec fn text_model(v: JsonModel) -> Option<Seq<char>> {
        match v {
            JsonModel::Text(s) => Some(s),
            _ => None,
        }
    }

    /// The value of a member, when this is an object that has it.
    pub fn get(&self, key: &str) -> (r: Option<&JsonValue>)
        ensures
            r is Some == JsonValue::member_model(self@, key@) is Some,
            r matches Some(v) ==> JsonValue::member_model(self@, key@) == Some(v@),
    {
        proof {
            lemma_json_model(*self);
        }
        match self {
            JsonValue::Object(fields) => {
                let at = find_field(fields, key);
                if at < fields.len() {
                    Some(&fields[at].value)
                } else {
                    None
                }
            },
            _ => None,
        }
    }

    /// The text, when this is a text value.
    pub fn as_str(&self) -> (r: Option<&str>)
        ensures
            r is Some == (self@ is Text),
            r matches Some(s) ==> self@ == JsonModel::Text(s@),
    {
        match self {
            JsonValue::Text(s) => Some(s.as_str()),
            _ => None,
        }
    }

    /// The number, when this is an unsigned 64-bit integer.
    pub fn as_u64(&self) -> (r: Option<u64>)
        ensures
            r == match self@ {
                JsonModel::Number(NumberModel::Unsigned(n)) => Some(n),
                _ => None::<u64>,
            },
    {
        match self {
            JsonValue::Number(JsonNumber::Unsigned(n)) => Some(*n),
            _ => None,
        }
    }

    /// A copy of this value.
    pub fn duplicate(&self) -> (r: JsonValue)
        ensures
            r@ == self@,
        decreases self,
    {
        proof {
            lemma_json_model(*self);
        }
        match self {
            JsonValue::Null => JsonValue::Null,
            JsonValue::Bool(b) => JsonValue::Bool(*b),
            JsonValue::Number(n) => JsonValue::Number(
                match n {
                    JsonNumber::Unsigned(n) => JsonNumber::Unsigned(*n),
                    JsonNumber::Negative(n) => JsonNumber::Negative(*n),
                    JsonNumber::Decimal(s) => JsonNumber::Decimal(s.clone()),
                },
            ),
            JsonValue::Text(s) => JsonValue::Text(s.clone()),
            JsonValue::Array(items) => {
                let mut copy: Vec<JsonValue> = Vec::new();
                let mut i: usize = 0;
                while i < items.len()
                    invariant
                        i <= items@.len(),
                        *self == JsonValue::Array(*items),
                        item_models(copy@) == item_models(items@).take(i as int),
                    decreases items@.len() - i,
                {
                    let item: &JsonValue = &items[i];
                    assert(*items == self->Array_0);
                    assert(decreases_to!(*items => items@[i as int]));
                    let item_copy = item.duplicate();
                    let ghost before = copy@;
                    copy.push(item_copy);
                    i += 1;
                    assert(item_models(copy@) =~= item_models(before).push(item_copy@));
                    assert(item_models(items@).take(i as int) =~= item_models(items@).take(
                        i - 1,
                    ).push(item_copy@));
                }
                assert(item_models(copy@) =~= item_models(items@));
                let r = JsonValue::Array(copy);
                proof {
                    lemma_json_model(r);
                }
                r
            },
            JsonValue::Object(fields) => {
                let mut copy: Vec<JsonField> = Vec::new();
                let mut i: usize = 0;
                while i < fields.len()
                    invariant
                        i <= fields@.len(),
                        *self == JsonValue::Object(*fields),
                        field_models(copy@) == field_models(fields@).take(i as int),
                    decreases fields@.len() - i,
                {
                    let field: &JsonField = &fields[i];
                    assert(*fields == self->Object_0);
                    assert(decreases_to!(*fields => fields@[i as int]));
                    let field_copy = JsonField {
                        key: field.key.clone(),
                        value: field.value.duplicate(),
                    };
                    let ghost before = copy@;
                    copy.push(field_copy);
                    i += 1;
                    let ghost pair = (field_copy.key@, field_copy.value@);
                    assert(field_models(copy@) =~= field_models(before).push(pair));
                    assert(field_models(fields@).take(i as int) =~= field_models(fields@).take(
                        i - 1,
                    ).push(pair));
                }
                assert(field_models(copy@) =~= field_models(fields@));
                let r = JsonValue::Object(copy);
                proof {
                    lemma_json_model(r);
                }
                r
            },
        }
    }
}

/// Whether some object in a value has a member named `data_url`.
pub open spec fn contains_data_url(v: JsonModel) -> bool
    decreases v,
{
    match v {
        JsonModel::Array(items) => exists|i: int|
            0 <= i < items.len() && contains_data_url(#[trigger] items[i]),
        JsonModel::Object(fields) => {
            ||| has_field(fields, "data_url"@)
            ||| exists|i: int| 0 <= i < fields.len() && contains_data_url((#[trigger] fields[i]).1)
        },
        _ => false,
    }
}

/// Members with `data_url` taken out and, when it was there, `has_data_url` set.
pub open spec fn marked_fields(fields: Seq<(Seq<char>, JsonModel)>) -> Seq<
    (Seq<char>, JsonModel),
> {
    if has_field(fields, "data_url"@) {
        with_field(
            without_field(fields, "data_url"@),
            "has_data_url"@,
            JsonModel::Bool(true),
        )
    } else {
        fields
    }
}

/// A value with every `data_url` member replaced by the mark `has_data_url`.
pub open spec fn redacted(v: JsonModel) -> JsonModel
    decreases v,
{
    match v {
        JsonModel::Array(items) => JsonModel::Array(redacted_items(items)),
        JsonModel::Object(fields) => JsonModel::Object(marked_fields(redacted_fields(fields))),
        _ => v,
    }
}

/// The items of an array, each redacted.
pub open spec fn redacted_items(items: Seq<JsonModel>) -> Seq<JsonModel>
    decreases items,
{
    Seq::new(
        items.len(),
        |i: int|
            if 0 <= i < items.len() {
                redacted(items[i])
            } else {
                JsonModel::Null
            },
    )
}

/// The members of an object, each value redacted.
pub open spec fn redacted_fields(fields: Seq<(Seq<char>, JsonModel)>) -> Seq<
    (Seq<char>, JsonModel),
>
    decreases fields,
{
    Seq::new(
        fields.len(),
        |i: int|
            if 0 <= i < fields.len() {
                (fields[i].0, redacted(fields[i].1))
            } else {
                (Seq::empty(), JsonModel::Null)
            },
    )
}

/// Whether some object in `value` has a member named `data_url`.
pub fn json_contains_data_url(value: &JsonValue) -> (r: bool)
    ensures
        r == contains_data_url(value@),
    decreases value,
{
    proof {
        lemma_json_model(*value);
    }
    match value {
        JsonValue::Object(fields) => {
            if find_field(fields, "data_url") < fields.len() {
                return true;
            }
            let mut i: usize = 0;
            while i < fields.len()
                invariant
                    i <= fields@.len(),
                    *value == JsonValue::Object(*fields),
                    value@ == JsonModel::Object(field_models(fields@)),
                    forall|j: int|
                        0 <= j < i ==> !contains_data_url((#[trigger] fields@[j]).value@),
                decreases fields@.len() - i,
            {
                let field: &JsonField = &fields[i];
                assert(*fields == value->Object_0);
                assert(decreases_to!(*fields => fields@[i as int]));
                if json_contains_data_url(&field.value) {
                    assert(contains_data_url(field_models(fields@)[i as int].1));
                    return true;
                }
                i += 1;
            }
            assert forall|j: int| 0 <= j < fields@.len() implies !contains_data_url(
                (#[trigger] field_models(fields@)[j]).1,
            ) by {
                assert(!contains_data_url(fields@[j].value@));
            }
            false
        },
        JsonValue::Array(items) => {
            let mut i: usize = 0;
            while i < items.len()
                invariant
                    i <= items@.len(),
                    *value == JsonValue::Array(*items),
                    value@ == JsonModel::Array(item_models(items@)),
                    forall|j: int| 0 <= j < i ==> !contains_data_url((#[trigger] items@[j])@),
                decreases items@.len() - i,
            {
                let item: &JsonValue = &items[i];
                assert(*items == value->Array_0);
                assert(decreases_to!(*items => items@[i as int]));
                if json_contains_data_url(item) {
                    let ghost models = item_models(items@);
                    assert(0 <= i < models.len() && contains_data_url(models[i as int]));
                    assert(value@->Array_0 == models);
                    return true;
                }
                i += 1;
            }
            assert forall|j: int| 0 <= j < items@.len() implies !contains_data_url(
                #[trigger] item_models(items@)[j],
            ) by {
                assert(!contains_data_url(items@[j]@));
            }
            false
        },
        _ => false,
    }
}

/// Replaces every `data_url` member in `value` by the mark `has_data_url`.
pub fn redact_data_url_in_json(value: &mut JsonValue)
    ensures
        final(value)@ == redacted(old(value)@),
    decreases *old(value),
{
    let ghost before = *value;
    proof {
        lemma_json_model(before);
    }
    match value {
        JsonValue::Object(fields) => {
            let n: usize = fields.len();
            let ghost start = fields@;
            let ghost start_fields = *fields;
            let mut i: usize = 0;
            while i < n
                invariant
                    before == *old(value),
                    before == JsonValue::Object(start_fields),
                    start == start_fields@,
                    i <= n == fields@.len() == start.len(),
                    forall|j: int| i <= j < n ==> fields@[j] == #[trigger] start[j],
                    forall|j: int|
                        0 <= j < i ==> fields@[j].key == (#[trigger] start[j]).key
                            && fields@[j].value@ == redacted(start[j].value@),
                decreases n - i,
            {
                assert(start_fields == before->Object_0);
                assert(decreases_to!(start_fields => start[i as int]));
                redact_data_url_in_json(&mut fields[i].value);
                i += 1;
            }
            assert(field_models(fields@) =~= redacted_fields(field_models(start)));
            if take_field(fields, "data_url") {
                put_field(fields, "has_data_url", JsonValue::Bool(true));
            }
        },
        JsonValue::Array(items) => {
            let n: usize = items.len();
            let ghost start = items@;
            let ghost start_items = *items;
            let mut i: usize = 0;
            while i < n
                invariant
                    before == *old(value),
                    before == JsonValue::Array(start_items),
                    start == start_items@,
                    i <= n == items@.len() == start.len(),
                    forall|j: int| i <= j < n ==> items@[j] == #[trigger] start[j],
                    forall|j: int| 0 <= j < i ==> items@[j]@ == redacted((#[trigger] start[j])@),
                decreases n - i,
            {
                assert(start_items == before->Array_0);
                assert(decreases_to!(start_items => start[i as int]));
                redact_data_url_in_json(&mut items[i]);
                i += 1;
            }
            assert(item_models(items@) =~= redacted_items(item_models(start)));
        },
        _ => {},
    }
    proof {
        lemma_json_model(*value);
    }
}

proof fn lemma_no_field(fields: Seq<(Seq<char>, JsonModel)>, key: Seq<char>)
    requires
        forall|i: int| 0 <= i < fields.len() ==> (#[trigger] fields[i]).0 != key,
    ensures
        !has_field(fields, key),
{
    lemma_field_position(fields, key, 0);
}

proof fn lemma_ordered_keys_distinct(fields: Seq<(Seq<char>, JsonModel)>, i: int, j: int)
    requires
        fields_ordered(fields),
        0 <= i < fields.len(),
        0 <= j < fields.len(),
        i != j,
    ensures
        fields[i].0 != fields[j].0,
{
    if i < j {
        lemma_key_less_total(fields[i].0, fields[j].0);
    } else {
        lemma_key_less_total(fields[j].0, fields[i].0);
    }
}

/// Every member of a marked object is not `data_url`, and its value is one of
/// the object's own or the mark.
proof fn lemma_marked_members(fields: Seq<(Seq<char>, JsonModel)>)
    requires
        fields_ordered(fields),
    ensures
        fields_ordered(marked_fields(fields)),
        forall|i: int|
            0 <= i < marked_fields(fields).len() ==> {
                &&& (#[trigger] marked_fields(fields)[i]).0 != "data_url"@
                &&& marked_fields(fields)[i].1 == JsonModel::Bool(true) || exists|j: int|
                    0 <= j < fields.len() && marked_fields(fields)[i].1 == (
                    #[trigger] fields[j]).1
            },
{
    reveal_strlit("data_url");
    reveal_strlit("has_data_url");
    let key = "data_url"@;
    let mark = "has_data_url"@;
    lemma_field_position(fields, key, 0);
    let r = marked_fields(fields);
    if has_field(fields, key) {
        let at = field_position(fields, key, 0);
        let rest = without_field(fields, key);
        assert(fields_ordered(rest));
        lemma_with_field_ordered(rest, mark, JsonModel::Bool(true));
        lemma_field_position(rest, mark, 0);
        lemma_insert_position(rest, mark, 0);
        assert forall|i: int| 0 <= i < rest.len() implies (#[trigger] rest[i]).0 != key
            && exists|j: int| 0 <= j < fields.len() && rest[i].1 == (#[trigger] fields[j]).1 by {
            let j = if i < at {
                i
            } else {
                i + 1
            };
            assert(rest[i] == fields[j]);
            lemma_ordered_keys_distinct(fields, j, at);
        }
        let spot = if has_field(rest, mark) {
            field_position(rest, mark, 0)
        } else {
            insert_position(rest, mark, 0)
        };
        assert forall|i: int| 0 <= i < r.len() implies {
            &&& (#[trigger] r[i]).0 != key
            &&& r[i].1 == JsonModel::Bool(true) || exists|j: int|
                0 <= j < fields.len() && r[i].1 == (#[trigger] fields[j]).1
        } by {
            if i == spot {
                assert(r[i] == (mark, JsonModel::Bool(true)));
            } else if has_field(rest, mark) || i < spot {
                assert(r[i] == rest[i]);
            } else {
                assert(r[i] == rest[i - 1]);
            }
        }
    } else {
        assert forall|i: int| 0 <= i < r.len() implies {
            &&& (#[trigger] r[i]).0 != key
            &&& exists|j: int| 0 <= j < fields.len() && r[i].1 == (#[trigger] fields[j]).1
        } by {
            assert(r[i] == fields[i]);
        }
    }
}

proof fn lemma_clean_array(items: Seq<JsonModel>)
    requires
        forall|i: int|
            0 <= i < items.len() ==> !contains_data_url(#[trigger] items[i]) && json_ordered(
                items[i],
            ),
    ensures
        !contains_data_url(JsonModel::Array(items)),
        json_ordered(JsonModel::Array(items)),
{
}

proof fn lemma_clean_object(fields: Seq<(Seq<char>, JsonModel)>)
    requires
        fields_ordered(fields),
        !has_field(fields, "data_url"@),
        forall|i: int|
            0 <= i < fields.len() ==> !contains_data_url((#[trigger] fields[i]).1)
                && json_ordered(fields[i].1),
    ensures
        !contains_data_url(JsonModel::Object(fields)),
        json_ordered(JsonModel::Object(fields)),
{
}

proof fn lemma_redacted_keys(fields: Seq<(Seq<char>, JsonModel)>)
    requires
        fields_ordered(fields),
    ensures
        fields_ordered(redacted_fields(fields)),
{
    let inner = redacted_fields(fields);
    assert forall|i: int, j: int| 0 <= i < j < inner.len() implies key_less(
        #[trigger] inner[i].0,
        #[trigger] inner[j].0,
    ) by {
        assert(inner[i].0 == fields[i].0 && inner[j].0 == fields[j].0);
    }
}

/// A redacted value holds no `data_url` member at any depth, and stays in order.
pub proof fn redaction_removes_every_data_url(v: JsonModel)
    requires
        json_ordered(v),
    ensures
        !contains_data_url(redacted(v)),
        json_ordered(redacted(v)),
    decreases v,
{
    match v {
        JsonModel::Array(items) => {
            let r = redacted_items(items);
            assert forall|i: int| 0 <= i < r.len() implies !contains_data_url(#[trigger] r[i])
                && json_ordered(r[i]) by {
                assert(json_ordered(items[i]));
                redaction_removes_every_data_url(items[i]);
            }
            lemma_clean_array(r);
        },
        JsonModel::Object(fields) => {
            let inner = redacted_fields(fields);
            lemma_redacted_keys(fields);
            lemma_marked_members(inner);
            let r = marked_fields(inner);
            lemma_no_field(r, "data_url"@);
            assert forall|j: int| 0 <= j < inner.len() implies !contains_data_url(
                (#[trigger] inner[j]).1,
            ) && json_ordered(inner[j].1) by {
                assert(json_ordered(fields[j].1));
                redaction_removes_every_data_url(fields[j].1);
            }
            assert forall|i: int| 0 <= i < r.len() implies !contains_data_url(
                (#[trigger] r[i]).1,
            ) && json_ordered(r[i].1) by {
                if r[i].1 != JsonModel::Bool(true) {
                    let j = choose|j: int|
                        0 <= j < inner.len() && r[i].1 == (#[trigger] inner[j]).1;
                    assert(!contains_data_url(inner[j].1));
                }
            }
            lemma_clean_object(r);
        },
        _ => {},
    }
}

/// A value without a `data_url` member is left as it is.
pub proof fn redaction_keeps_clean_values(v: JsonModel)
    requires
        !contains_data_url(v),
    ensures
        redacted(v) == v,
    decreases v,
{
    match v {
        JsonModel::Array(items) => {
            assert forall|i: int| 0 <= i < items.len() implies redacted(#[trigger] items[i])
                == items[i] by {
                redaction_keeps_clean_values(items[i]);
            }
            assert(redacted_items(items) =~= items);
        },
        JsonModel::Object(fields) => {
            assert forall|i: int| 0 <= i < fields.len() implies redacted(
                (#[trigger] fields[i]).1,
            ) == fields[i].1 by {
                redaction_keeps_clean_values(fields[i].1);
            }
            assert(redacted_fields(fields) =~= fields);
        },
        _ => {},
    }
}

/// Redacting twice is redacting once.
pub proof fn redaction_is_idempotent(v: JsonModel)
    requires
        json_ordered(v),
    ensures
        redacted(redacted(v)) == redacted(v),
{
    redaction_removes_every_data_url(v);
    redaction_keeps_clean_values(redacted(v));
}

/// A text inside a value: its length and the path that leads to it.
pub struct TextLeaf {
    pub chars: nat,
    pub path: Seq<char>,
}

/// The path of an array item.
pub open spec fn item_path(path: Seq<char>, index: nat) -> Seq<char> {
    path + "["@ + decimal(index) + "]"@
}

/// The path of an object member.
pub open spec fn member_path(path: Seq<char>, key: Seq<char>) -> Seq<char> {
    if path.len() == 0 {
        key
    } else {
        path + "."@ + key
    }
}

/// The texts inside a value, in the order in which they stand.
pub open spec fn text_leaves(v: JsonModel, path: Seq<char>) -> Seq<TextLeaf>
    decreases v, 0nat,
{
    match v {
        JsonModel::Text(s) => seq![TextLeaf { chars: s.len(), path }],
        JsonModel::Array(items) => item_leaves(items, path, items.len()),
        JsonModel::Object(fields) => member_leaves(fields, path, fields.len()),
        _ => Seq::empty(),
    }
}

/// The texts inside the first `n` items of an array.
pub open spec fn item_leaves(items: Seq<JsonModel>, path: Seq<char>, n: nat) -> Seq<TextLeaf>
    decreases items, n,
{
    if n == 0 || n > items.len() {
        Seq::empty()
    } else {
        item_leaves(items, path, (n - 1) as nat) + text_leaves(
            items[n - 1],
            item_path(path, (n - 1) as nat),
        )
    }
}

/// The texts inside the first `n` members of an object.
pub open spec fn member_leaves(
    fields: Seq<(Seq<char>, JsonModel)>,
    path: Seq<char>,
    n: nat,
) -> Seq<TextLeaf>
    decreases fields, n,
{
    if n == 0 || n > fields.len() {
        Seq::empty()
    } else {
        member_leaves(fields, path, (n - 1) as nat) + text_leaves(
            fields[n - 1].1,
            member_path(path, fields[n - 1].0),
        )
    }
}

/// The number of characters in all of these texts.
pub open spec fn total_chars(leaves: Seq<TextLeaf>) -> nat
    decreases leaves.len(),
{
    if leaves.len() == 0 {
        0
    } else {
        total_chars(leaves.drop_last()) + leaves.last().chars
    }
}

/// The first of the longest among `best` and then these texts.
pub open spec fn longest_text(best: TextLeaf, leaves: Seq<TextLeaf>) -> TextLeaf
    decreases leaves.len(),
{
    if leaves.len() == 0 {
        best
    } else {
        let earlier = longest_text(best, leaves.drop_last());
        if leaves.last().chars > earlier.chars {
            leaves.last()
        } else {
            earlier
        }
    }
}

/// Counting and choosing go on over consecutive runs of texts.
pub proof fn lemma_leaves_append(best: TextLeaf, a: Seq<TextLeaf>, b: Seq<TextLeaf>)
    ensures
        total_chars(a + b) == total_chars(a) + total_chars(b),
        longest_text(best, a + b) == longest_text(longest_text(best, a), b),
    decreases b.len(),
{
    if b.len() == 0 {
        assert(a + b =~= a);
    } else {
        lemma_leaves_append(best, a, b.drop_last());
        assert((a + b).drop_last() =~= a + b.drop_last());
        assert((a + b).last() == b.last());
    }
}

proof fn lemma_item_leaves_grow(items: Seq<JsonModel>, path: Seq<char>, n: nat, m: nat)
    requires
        n <= m <= items.len(),
    ensures
        total_chars(item_leaves(items, path, n)) <= total_chars(item_leaves(items, path, m)),
    decreases m,
{
    if n < m {
        lemma_item_leaves_grow(items, path, n, (m - 1) as nat);
        lemma_leaves_append(
            TextLeaf { chars: 0, path },
            item_leaves(items, path, (m - 1) as nat),
            text_leaves(items[m - 1], item_path(path, (m - 1) as nat)),
        );
    }
}

proof fn lemma_member_leaves_grow(
    fields: Seq<(Seq<char>, JsonModel)>,
    path: Seq<char>,
    n: nat,
    m: nat,
)
    requires
        n <= m <= fields.len(),
    ensures
        total_chars(member_leaves(fields, path, n)) <= total_chars(
            member_leaves(fields, path, m),
        ),
    decreases m,
{
    if n < m {
        lemma_member_leaves_grow(fields, path, n, (m - 1) as nat);
        lemma_leaves_append(
            TextLeaf { chars: 0, path },
            member_leaves(fields, path, (m - 1) as nat),
            text_leaves(fields[m - 1].1, member_path(path, fields[m - 1].0)),
        );
    }
}

/// The model of a longest text so far.
pub open spec fn leaf_model(largest: (usize, String)) -> TextLeaf {
    TextLeaf { chars: largest.0 as nat, path: largest.1@ }
}

/// Adds the characters of every text in `value` to `total` and keeps in
/// `largest` the first longest text met so far.
pub fn collect_json_string_stats(
    value: &JsonValue,
    path: &str,
    total: &mut usize,
    largest: &mut (usize, String),
)
    requires
        *old(total) + total_chars(text_leaves(value@, path@)) <= usize::MAX,
    ensures
        *final(total) == *old(total) + total_chars(text_leaves(value@, path@)),
        leaf_model(*final(largest)) == longest_text(
            leaf_model(*old(largest)),
            text_leaves(value@, path@),
        ),
    decreases value,
{
    let ghost total_before = *total as nat;
    let ghost best = leaf_model(*largest);
    proof {
        lemma_json_model(*value);
    }
    match value {
        JsonValue::Text(text) => {
            let char_count: usize = text.as_str().unicode_len();
            proof {
                let leaf = TextLeaf { chars: char_count as nat, path: path@ };
                assert(seq![leaf].drop_last() =~= Seq::<TextLeaf>::empty());
                assert(total_chars(Seq::<TextLeaf>::empty()) == 0);
                assert(longest_text(best, Seq::<TextLeaf>::empty()) == best);
                assert(total_chars(seq![leaf]) == char_count);
            }
            *total = *total + char_count;
            if char_count > largest.0 {
                *largest = (char_count, path.to_owned());
            }
        },
        JsonValue::Array(items) => {
            let ghost models = item_models(items@);
            let mut i: usize = 0;
            assert(longest_text(best, item_leaves(models, path@, 0)) == best);
            while i < items.len()
                invariant
                    i <= items@.len(),
                    *value == JsonValue::Array(*items),
                    models == item_models(items@),
                    total_before + total_chars(item_leaves(models, path@, models.len()))
                        <= usize::MAX,
                    *total == total_before + total_chars(item_leaves(models, path@, i as nat)),
                    leaf_model(*largest) == longest_text(
                        best,
                        item_leaves(models, path@, i as nat),
                    ),
                decreases items@.len() - i,
            {
                let item: &JsonValue = &items[i];
                assert(*items == value->Array_0);
                assert(decreases_to!(*items => items@[i as int]));
                let next_path: String = joined_item_path(path, i);
                proof {
                    lemma_leaves_append(
                        best,
                        item_leaves(models, path@, i as nat),
                        text_leaves(models[i as int], item_path(path@, i as nat)),
                    );
                    lemma_item_leaves_grow(models, path@, (i + 1) as nat, models.len());
                }
                collect_json_string_stats(item, next_path.as_str(), total, largest);
                i += 1;
            }
        },
        JsonValue::Object(fields) => {
            let ghost models = field_models(fields@);
            let mut i: usize = 0;
            assert(longest_text(best, member_leaves(models, path@, 0)) == best);
            while i < fields.len()
                invariant
                    i <= fields@.len(),
                    *value == JsonValue::Object(*fields),
                    models == field_models(fields@),
                    total_before + total_chars(member_leaves(models, path@, models.len()))
                        <= usize::MAX,
                    *total == total_before + total_chars(member_leaves(models, path@, i as nat)),
                    leaf_model(*largest) == longest_text(
                        best,
                        member_leaves(models, path@, i as nat),
                    ),
                decreases fields@.len() - i,
            {
                let field: &JsonField = &fields[i];
                assert(*fields == value->Object_0);
                assert(decreases_to!(*fields => fields@[i as int]));
                let mut next_path: String = path.to_owned();
                if path.is_empty() {
                    next_path = field.key.clone();
                } else {
                    next_path.append(".");
                    next_path.append(field.key.as_str());
                }
                proof {
                    lemma_leaves_append(
                        best,
                        member_leaves(models, path@, i as nat),
                        text_leaves(
                            models[i as int].1,
                            member_path(path@, models[i as int].0),
                        ),
                    );
                    lemma_member_leaves_grow(models, path@, (i + 1) as nat, models.len());
                }
                collect_json_string_stats(&field.value, next_path.as_str(), total, largest);
                i += 1;
            }
        },
        _ => {
            assert(total_chars(Seq::<TextLeaf>::empty()) == 0);
            assert(longest_text(best, Seq::<TextLeaf>::empty()) == best);
        },
    }
}

/// Writes [`item_path`].
fn joined_item_path(path: &str, index: usize) -> (r: String)
    ensures
        r@ == item_path(path@, index as nat),
{
    let mut r: String = path.to_owned();
    r.append("[");
    r.append(decimal_text(index as u64).as_str());
    r.append("]");
    r
}

/// Storing a value under a key gives that member the value and leaves every other
/// as it was.
pub proof fn storing_a_member_changes_only_that(
    fields: Seq<(Seq<char>, JsonModel)>,
    key: Seq<char>,
    value: JsonModel,
    other: Seq<char>,
)
    ensures
        field_value(with_field(fields, key, value), key) == Some(value),
        other != key ==> field_value(with_field(fields, key, value), other) == field_value(
            fields,
            other,
        ),
{
    let r = with_field(fields, key, value);
    lemma_field_position(fields, key, 0);
    lemma_field_position(fields, other, 0);
    lemma_field_position(r, key, 0);
    lemma_field_position(r, other, 0);
    lemma_insert_position_in_range(fields, key, 0);
    let at = if has_field(fields, key) {
        field_position(fields, key, 0)
    } else {
        insert_position(fields, key, 0)
    };
    assert(r[at] == (key, value));
    let p = field_position(r, key, 0);
    if p < at {
        assert(r[p] == fields[p]);
        if !has_field(fields, key) {
            assert(fields[p].0 != key);
        }
    }
    if other != key {
        let q = field_position(fields, other, 0);
        let s = field_position(r, other, 0);
        if has_field(fields, key) {
            if q < fields.len() {
                assert(r[q] == fields[q]);
            }
            if s < r.len() {
                assert(r[s] == fields[s]);
            }
        } else {
            let back = |i: int| if i < at {
                i
            } else {
                i - 1
            };
            let forth = |i: int| if i < at {
                i
            } else {
                i + 1
            };
            if q < fields.len() {
                assert(r[forth(q)] == fields[q]);
            }
            if s < r.len() {
                assert(s != at);
                assert(r[s] == fields[back(s)]);
            }
        }
    }
}

proof fn lemma_insert_position_in_range(
    fields: Seq<(Seq<char>, JsonModel)>,
    key: Seq<char>,
    from: int,
)
    requires
        0 <= from <= fields.len(),
    ensures
        from <= insert_position(fields, key, from) <= fields.len(),
    decreases fields.len() - from,
{
    if from < fields.len() {
        lemma_insert_position_in_range(fields, key, from + 1);
    }
}

/// Taking out a member leaves every other as it was, and none under its key where
/// keys are distinct.
pub proof fn taking_a_member_out_changes_only_that(
    fields: Seq<(Seq<char>, JsonModel)>,
    key: Seq<char>,
    other: Seq<char>,
)
    ensures
        other != key ==> field_value(without_field(fields, key), other) == field_value(
            fields,
            other,
        ),
        (forall|i: int, j: int|
            0 <= i < j < fields.len() ==> (#[trigger] fields[i]).0 != (#[trigger] fields[j]).0)
            ==> field_value(without_field(fields, key), key) is None,
{
    let r = without_field(fields, key);
    let at = field_position(fields, key, 0);
    lemma_field_position(fields, key, 0);
    lemma_field_position(fields, other, 0);
    lemma_field_position(r, key, 0);
    lemma_field_position(r, other, 0);
    if has_field(fields, key) {
        let p = field_position(r, key, 0);
        if p < r.len() {
            if p < at {
                assert(r[p] == fields[p]);
            } else {
                assert(r[p] == fields[p + 1]);
                assert(fields[at].0 == fields[p + 1].0);
            }
        }
        if other != key {
            let q = field_position(fields, other, 0);
            let s = field_position(r, other, 0);
            if q < fields.len() {
                if q < at {
                    assert(r[q] == fields[q]);
                } else {
                    assert(r[q - 1] == fields[q]);
                }
            }
            if s < r.len() {
                if s < at {
                    assert(r[s] == fields[s]);
                } else {
                    assert(r[s] == fields[s + 1]);
                }
            }
        }
    }
}

/// The longest text is at least as long as every other and is one of them, and
/// none before it is as long: a later text takes its place only by being longer.
pub proof fn the_longest_text_is_the_first_of_its_length(best: TextLeaf, leaves: Seq<TextLeaf>)
    ensures
        longest_text(best, leaves).chars >= best.chars,
        forall|i: int|
            0 <= i < leaves.len() ==> (#[trigger] leaves[i]).chars <= longest_text(
                best,
                leaves,
            ).chars,
        longest_text(best, leaves) == best || exists|k: int|
            0 <= k < leaves.len() && #[trigger] leaves[k] == longest_text(best, leaves)
                && best.chars < leaves[k].chars && forall|i: int|
                0 <= i < k ==> (#[trigger] leaves[i]).chars < leaves[k].chars,
    decreases leaves.len(),
{
    if leaves.len() > 0 {
        let front = leaves.drop_last();
        the_longest_text_is_the_first_of_its_length(best, front);
        let earlier = longest_text(best, front);
        assert forall|i: int| 0 <= i < leaves.len() implies (#[trigger] leaves[i]).chars
            <= longest_text(best, leaves).chars by {
            if i < front.len() {
                assert(front[i] == leaves[i]);
            }
        }
        if leaves.last().chars > earlier.chars {
            let k = leaves.len() - 1;
            assert(leaves[k] == longest_text(best, leaves));
            assert forall|i: int| 0 <= i < k implies (#[trigger] leaves[i]).chars
                < leaves[k].chars by {
                assert(front[i] == leaves[i]);
            }
        } else if earlier != best {
            let k = choose|k: int|
                0 <= k < front.len() && #[trigger] front[k] == earlier && best.chars
                    < front[k].chars && forall|i: int|
                    0 <= i < k ==> (#[trigger] front[i]).chars < front[k].chars;
            assert(leaves[k] == earlier);
            assert forall|i: int| 0 <= i < k implies (#[trigger] leaves[i]).chars
                < leaves[k].chars by {
                assert(front[i] == leaves[i]);
            }
        }
    }
}

/// Keys stand in the order of the first character in which they differ, the
/// smaller one first, and a key stands before all that it is the beginning of.
pub proof fn keys_stand_in_the_order_of_their_characters(
    common: Seq<char>,
    a: char,
    b: char,
    rest_a: Seq<char>,
    rest_b: Seq<char>,
)
    ensures
        a < b ==> key_less(common + seq![a] + rest_a, common + seq![b] + rest_b),
        key_less(common, common + seq![a] + rest_a),
        !key_less(common, common),
    decreases common.len(),
{
    let x = common + seq![a] + rest_a;
    let y = common + seq![b] + rest_b;
    if common.len() > 0 {
        let c = common.drop_first();
        keys_stand_in_the_order_of_their_characters(c, a, b, rest_a, rest_b);
        assert(x.drop_first() =~= c + seq![a] + rest_a);
        assert(y.drop_first() =~= c + seq![b] + rest_b);
    } else {
        assert(x[0] == a);
        assert(y[0] == b);
    }
}

/// A value holds inline data exactly when it is an object with a member named
/// `data_url`, or one of its items or members does.
pub proof fn inline_data_is_a_member_at_any_depth(
    items: Seq<JsonModel>,
    fields: Seq<(Seq<char>, JsonModel)>,
    i: int,
)
    ensures
        0 <= i < items.len() && contains_data_url(items[i]) ==> contains_data_url(
            JsonModel::Array(items),
        ),
        (forall|k: int| 0 <= k < items.len() ==> !contains_data_url(#[trigger] items[k]))
            ==> !contains_data_url(JsonModel::Array(items)),
        0 <= i < fields.len() && fields[i].0 == "data_url"@ ==> contains_data_url(
            JsonModel::Object(fields),
        ),
        0 <= i < fields.len() && contains_data_url(fields[i].1) ==> contains_data_url(
            JsonModel::Object(fields),
        ),
        (forall|k: int|
            0 <= k < fields.len() ==> (#[trigger] fields[k]).0 != "data_url"@ && !contains_data_url(
                fields[k].1,
            )) ==> !contains_data_url(JsonModel::Object(fields)),
        !contains_data_url(JsonModel::Text(Seq::empty())),
{
    lemma_field_position(fields, "data_url"@, 0);
    if 0 <= i < items.len() && contains_data_url(items[i]) {
        lemma_item_in_array(items, i);
    }
    if 0 <= i < fields.len() && contains_data_url(fields[i].1) {
        lemma_member_in_object(fields, i);
    }
}

proof fn lemma_item_in_array(items: Seq<JsonModel>, i: int)
    requires
        0 <= i < items.len(),
        contains_data_url(items[i]),
    ensures
        contains_data_url(JsonModel::Array(items)),
{
    let v = JsonModel::Array(items);
    assert(v->Array_0[i] == items[i]);
}

proof fn lemma_member_in_object(fields: Seq<(Seq<char>, JsonModel)>, i: int)
    requires
        0 <= i < fields.len(),
        contains_data_url(fields[i].1),
    ensures
        contains_data_url(JsonModel::Object(fields)),
{
    let v = JsonModel::Object(fields);
    assert(v->Object_0[i] == fields[i]);
}

/// Redacting keeps every item of an array in its place and every other member of
/// an object under its key, each redacted; a member `data_url` is gone, and
/// instead the object says that it had one. Nothing else changes.
pub proof fn redaction_replaces_only_the_data(
    v: JsonModel,
    items: Seq<JsonModel>,
    fields: Seq<(Seq<char>, JsonModel)>,
    i: int,
    key: Seq<char>,
)
    requires
        fields_ordered(fields),
    ensures
        v is Null || v is Bool || v is Number || v is Text ==> redacted(v) == v,
        redacted(JsonModel::Array(items)) is Array,
        redacted(JsonModel::Array(items))->Array_0.len() == items.len(),
        0 <= i < items.len() ==> redacted(JsonModel::Array(items))->Array_0[i] == redacted(items[i]),
        redacted(JsonModel::Object(fields)) is Object,
        ({
            let kept = redacted(JsonModel::Object(fields))->Object_0;
            &&& field_value(kept, "data_url"@) is None
            &&& has_field(fields, "data_url"@) ==> field_value(kept, "has_data_url"@) == Some(
                JsonModel::Bool(true),
            )
            &&& (key != "data_url"@ && (key != "has_data_url"@ || !has_field(fields, "data_url"@)))
                ==> field_value(kept, key) == (match field_value(fields, key) {
                Some(value) => Some(redacted(value)),
                None => None,
            })
        }),
{
    reveal_strlit("data_url");
    reveal_strlit("has_data_url");
    let inner = redacted_fields(fields);
    lemma_redacted_keys(fields);
    lemma_redacted_values(fields, key);
    lemma_redacted_values(fields, "data_url"@);
    lemma_redacted_values(fields, "has_data_url"@);
    assert forall|a: int, b: int| 0 <= a < b < inner.len() implies (#[trigger] inner[a]).0 != (
    #[trigger] inner[b]).0 by {
        lemma_ordered_keys_distinct(fields, a, b);
    }
    if has_field(inner, "data_url"@) {
        let cut = without_field(inner, "data_url"@);
        taking_a_member_out_changes_only_that(inner, "data_url"@, key);
        storing_a_member_changes_only_that(
            cut,
            "has_data_url"@,
            JsonModel::Bool(true),
            key,
        );
        storing_a_member_changes_only_that(
            cut,
            "has_data_url"@,
            JsonModel::Bool(true),
            "data_url"@,
        );
        assert("data_url"@.len() != "has_data_url"@.len());
    }
}

/// Redacting the members of an object redacts the value under each key.
proof fn lemma_redacted_values(fields: Seq<(Seq<char>, JsonModel)>, key: Seq<char>)
    ensures
        field_value(redacted_fields(fields), key) == (match field_value(fields, key) {
            Some(value) => Some(redacted(value)),
            None => None,
        }),
{
    let inner = redacted_fields(fields);
    lemma_field_position(fields, key, 0);
    lemma_field_position(inner, key, 0);
    let p = field_position(fields, key, 0);
    let q = field_position(inner, key, 0);
    if p < fields.len() {
        assert(inner[p].0 == key);
    }
    if q < inner.len() {
        assert(fields[q].0 == key);
    }
    assert(p == q) by {
        if p < q {
            assert(inner[p].0 == fields[p].0);
        } else if q < p {
            assert(inner[q].0 == fields[q].0);
        }
    }
}

/// A text counts once with all of its characters, under the path that leads to
/// it: the index of an item in brackets, the key of a member behind a point. The
/// texts of an array or object are those of its parts, one after the other;
/// other values have none.
pub proof fn every_text_counts_under_its_path(
    text: Seq<char>,
    path: Seq<char>,
    items: Seq<JsonModel>,
    item: JsonModel,
    fields: Seq<(Seq<char>, JsonModel)>,
    field: (Seq<char>, JsonModel),
)
    ensures
        text_leaves(JsonModel::Text(text), path) == seq![TextLeaf { chars: text.len(), path }],
        text_leaves(JsonModel::Array(Seq::empty()), path).len() == 0,
        text_leaves(JsonModel::Object(Seq::empty()), path).len() == 0,
        text_leaves(JsonModel::Array(items.push(item)), path) == text_leaves(
            JsonModel::Array(items),
            path,
        ) + text_leaves(item, path + seq!['['] + decimal(items.len()) + seq![']']),
        text_leaves(JsonModel::Object(fields.push(field)), path) == text_leaves(
            JsonModel::Object(fields),
            path,
        ) + text_leaves(
            field.1,
            if path.len() == 0 {
                field.0
            } else {
                path + seq!['.'] + field.0
            },
        ),
        text_leaves(JsonModel::Null, path).len() == 0,
{
    reveal_strlit("[");
    reveal_strlit("]");
    reveal_strlit(".");
    assert("["@ =~= seq!['[']);
    assert("]"@ =~= seq![']']);
    assert("."@ =~= seq!['.']);
    lemma_item_leaves_same(items, items.push(item), path, items.len());
    assert(items.push(item)[items.len() as int] == item);
    lemma_member_leaves_same(fields, fields.push(field), path, fields.len());
    assert(fields.push(field)[fields.len() as int] == field);
}

proof fn lemma_item_leaves_same(
    a: Seq<JsonModel>,
    b: Seq<JsonModel>,
    path: Seq<char>,
    n: nat,
)
    requires
        n <= a.len(),
        n <= b.len(),
        forall|i: int| 0 <= i < n ==> a[i] == b[i],
    ensures
        item_leaves(a, path, n) == item_leaves(b, path, n),
    decreases n,
{
    if n > 0 {
        lemma_item_leaves_same(a, b, path, (n - 1) as nat);
    }
}

proof fn lemma_member_leaves_same(
    a: Seq<(Seq<char>, JsonModel)>,
    b: Seq<(Seq<char>, JsonModel)>,
    path: Seq<char>,
    n: nat,
)
    requires
        n <= a.len(),
        n <= b.len(),
        forall|i: int| 0 <= i < n ==> a[i] == b[i],
    ensures
        member_leaves(a, path, n) == member_leaves(b, path, n),
    decreases n,
{
    if n > 0 {
        lemma_member_leaves_same(a, b, path, (n - 1) as nat);
    }
}

/// The characters of texts add up, text by text.
pub proof fn characters_add_up(leaves: Seq<TextLeaf>, leaf: TextLeaf)
    ensures
        total_chars(leaves.push(leaf)) == total_chars(leaves) + leaf.chars,
        total_chars(Seq::<TextLeaf>::empty()) == 0,
{
    assert(leaves.push(leaf).drop_last() =~= leaves);
}

} // verus!
