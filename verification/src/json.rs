//! JSON values: the data that Kubernetes resources and Zigbee2MQTT messages carry.

use vstd::arithmetic::power2::*;
use vstd::prelude::*;

use crate::double;
use crate::double::Double;
use crate::text;

verus! {

/// A double-precision number together with its notations.
#[derive(Debug)]
pub struct Real {
    /// The number.
    pub value: Double,
    /// How the number reads in a message.
    pub display: String,
    /// How the number reads in a JSON document.
    pub json: String,
}

/// A number of a JSON document.
#[derive(Debug)]
pub enum Number {
    /// An integer that isn't negative.
    PosInt(u64),
    /// A negative integer.
    NegInt(i64),
    /// Any other number.
    Float(Real),
}

/// A JSON value.
#[derive(Debug)]
pub enum JsonValue {
    /// The null value.
    Null,
    /// A boolean.
    Bool(bool),
    /// A number.
    Number(Number),
    /// A string.
    Text(String),
    /// A list of values.
    Array(Vec<JsonValue>),
    /// Values by name.
    Object(JsonObject),
}

/// The contents of a JSON object. The entries are ordered by their key, and a key occurs once.
#[derive(Debug)]
pub struct JsonObject {
    entries: Vec<(String, JsonValue)>,
}

/// The model of a number: whole numbers by their value, other numbers by their scaled value and
/// their notation in a document.
#[verifier::ext_equal]
pub enum NumberModel {
    /// An integer that isn't negative.
    PosInt(u64),
    /// A negative integer.
    NegInt(i64),
    /// Any other number.
    Float {
        /// The number, as [`Double::scaled`].
        scaled: int,
        /// How the number reads in a JSON document.
        json: Seq<char>,
    },
}

/// The model of a JSON value.
#[verifier::ext_equal]
pub enum Json {
    /// The null value.
    Null,
    /// A boolean.
    Bool(bool),
    /// A number.
    Number(NumberModel),
    /// A string.
    Text(Seq<char>),
    /// A list of values.
    Array(Seq<Json>),
    /// Entries, ordered by their key.
    Object(Seq<(Seq<char>, Json)>),
}

impl View for Number {
    type V = NumberModel;

    open spec fn view(&self) -> NumberModel {
        match *self {
            Number::PosInt(n) => NumberModel::PosInt(n),
            Number::NegInt(n) => NumberModel::NegInt(n),
            Number::Float(x) => NumberModel::Float { scaled: x.value.scaled(), json: x.json@ },
        }
    }
}

/// The model of a value.
pub open spec fn model(value: JsonValue) -> Json
    decreases value,
{
    match value {
        JsonValue::Null => Json::Null,
        JsonValue::Bool(b) => Json::Bool(b),
        JsonValue::Number(n) => Json::Number(n@),
        JsonValue::Text(s) => Json::Text(s@),
        JsonValue::Array(items) => Json::Array(
            Seq::new(
                items@.len(),
                |i: int|
                    if 0 <= i < items@.len() {
                        model(items@[i])
                    } else {
                        Json::Null
                    },
            ),
        ),
        JsonValue::Object(object) => Json::Object(entries_model(object)),
    }
}

/// The model of the entries of an object.
pub closed spec fn entries_model(object: JsonObject) -> Seq<(Seq<char>, Json)>
    decreases object,
{
    Seq::new(
        object.entries@.len(),
        |i: int|
            if 0 <= i < object.entries@.len() {
                (object.entries@[i].0@, model(object.entries@[i].1))
            } else {
                (Seq::empty(), Json::Null)
            },
    )
}

impl View for JsonValue {
    type V = Json;

    open spec fn view(&self) -> Json {
        model(*self)
    }
}

impl View for JsonObject {
    type V = Seq<(Seq<char>, Json)>;

    open spec fn view(&self) -> Seq<(Seq<char>, Json)> {
        entries_model(*self)
    }
}

/// Whether the keys of entries are in strictly increasing order.
pub open spec fn keys_increase(entries: Seq<(Seq<char>, Json)>) -> bool {
    forall|i: int, j: int|
        0 <= i < j < entries.len() ==> text::precedes(
            (#[trigger] entries[i]).0,
            (#[trigger] entries[j]).0,
        )
}

/// The index of the entry with the given key.
pub open spec fn position(entries: Seq<(Seq<char>, Json)>, key: Seq<char>) -> Option<int>
    decreases entries.len(),
{
    if entries.len() == 0 {
        None
    } else {
        match position(entries.drop_last(), key) {
            Some(i) => Some(i),
            None => if entries.last().0 == key {
                Some(entries.len() - 1)
            } else {
                None
            },
        }
    }
}

/// The value with the given key.
pub open spec fn lookup(entries: Seq<(Seq<char>, Json)>, key: Seq<char>) -> Option<Json> {
    match position(entries, key) {
        Some(i) => Some(entries[i].1),
        None => None,
    }
}

/// How many leading entries have a key that precedes the given one.
pub open spec fn rank(entries: Seq<(Seq<char>, Json)>, key: Seq<char>) -> nat
    decreases entries.len(),
{
    if entries.len() == 0 || !text::precedes(entries[0].0, key) {
        0
    } else {
        1 + rank(entries.drop_first(), key)
    }
}

/// Entries after setting the value of a key.
pub open spec fn inserted(
    entries: Seq<(Seq<char>, Json)>,
    key: Seq<char>,
    value: Json,
) -> Seq<(Seq<char>, Json)> {
    match position(entries, key) {
        Some(i) => entries.update(i, (key, value)),
        None => entries.insert(rank(entries, key) as int, (key, value)),
    }
}

/// What [`position`] returns is where the key is.
pub proof fn position_finds(entries: Seq<(Seq<char>, Json)>, key: Seq<char>)
    ensures
        match position(entries, key) {
            Some(i) => 0 <= i < entries.len() && entries[i].0 == key,
            None => forall|i: int| 0 <= i < entries.len() ==> (#[trigger] entries[i]).0 != key,
        },
    decreases entries.len(),
{
    if entries.len() > 0 {
        position_finds(entries.drop_last(), key);
        assert forall|i: int|
            position(entries, key) is None && 0 <= i < entries.len() implies (
        #[trigger] entries[i]).0 != key by {
            if i < entries.len() - 1 {
                assert(entries.drop_last()[i] == entries[i]);
            }
        }
    }
}

/// Where keys are ordered, a key has one position.
pub proof fn position_unique(entries: Seq<(Seq<char>, Json)>, key: Seq<char>, i: int)
    requires
        keys_increase(entries),
        0 <= i < entries.len(),
        entries[i].0 == key,
    ensures
        position(entries, key) == Some(i),
{
    position_finds(entries, key);
    let j = position(entries, key)->0;
    assert(entries[i].0 == key);
    text::precedes_irreflexive(key);
}

proof fn rank_splits(entries: Seq<(Seq<char>, Json)>, key: Seq<char>)
    ensures
        rank(entries, key) <= entries.len(),
        forall|i: int|
            0 <= i < rank(entries, key) ==> text::precedes((#[trigger] entries[i]).0, key),
        rank(entries, key) < entries.len() ==> !text::precedes(
            entries[rank(entries, key) as int].0,
            key,
        ),
    decreases entries.len(),
{
    if entries.len() > 0 && text::precedes(entries[0].0, key) {
        rank_splits(entries.drop_first(), key);
        let k = rank(entries.drop_first(), key);
        assert forall|i: int| 0 <= i < rank(entries, key) implies text::precedes(
            (#[trigger] entries[i]).0,
            key,
        ) by {
            if i > 0 {
                assert(entries.drop_first()[i - 1] == entries[i]);
            }
        }
        if k < entries.drop_first().len() {
            assert(entries.drop_first()[k as int] == entries[k as int + 1]);
        }
    }
}

/// Setting a key keeps the order of keys.
pub proof fn inserted_keeps_order(
    entries: Seq<(Seq<char>, Json)>,
    key: Seq<char>,
    value: Json,
)
    requires
        keys_increase(entries),
    ensures
        keys_increase(inserted(entries, key, value)),
{
    position_finds(entries, key);
    rank_splits(entries, key);
    let after = inserted(entries, key, value);
    let k = rank(entries, key) as int;
    assert forall|i: int, j: int| 0 <= i < j < after.len() implies text::precedes(
        (#[trigger] after[i]).0,
        (#[trigger] after[j]).0,
    ) by {
        if position(entries, key) is Some {
            assert(after[i].0 == entries[i].0);
            assert(after[j].0 == entries[j].0);
        } else {
            if k < entries.len() {
                assert(entries[k].0 != key);
                text::precedes_total(entries[k].0, key);
            }
            if j < k {
                assert(after[i] == entries[i] && after[j] == entries[j]);
            } else if j == k {
                assert(after[i] == entries[i]);
            } else if i < k {
                assert(after[i] == entries[i] && after[j] == entries[j - 1]);
            } else if i == k {
                assert(after[j] == entries[j - 1]);
                if j - 1 > k {
                    assert(text::precedes(entries[k].0, entries[j - 1].0));
                    text::precedes_transitive(key, entries[k].0, entries[j - 1].0);
                }
            } else {
                assert(after[i] == entries[i - 1] && after[j] == entries[j - 1]);
            }
        }
    }
}

/// A key that all others precede is added at the end.
pub proof fn inserted_last(entries: Seq<(Seq<char>, Json)>, key: Seq<char>, value: Json)
    requires
        forall|i: int| 0 <= i < entries.len() ==> text::precedes((#[trigger] entries[i]).0, key),
    ensures
        inserted(entries, key, value) == entries.push((key, value)),
{
    position_finds(entries, key);
    rank_splits(entries, key);
    text::precedes_irreflexive(key);
    let k = rank(entries, key);
    if k < entries.len() {
        assert(text::precedes(entries[k as int].0, key));
    }
    assert(inserted(entries, key, value) =~= entries.push((key, value)));
}

/// A key that was set has the value that it was set to, and other keys keep theirs.
pub proof fn inserted_is_found(
    entries: Seq<(Seq<char>, Json)>,
    key: Seq<char>,
    value: Json,
    other: Seq<char>,
)
    requires
        keys_increase(entries),
    ensures
        lookup(inserted(entries, key, value), key) == Some(value),
        other != key ==> lookup(inserted(entries, key, value), other) == lookup(entries, other),
{
    inserted_keeps_order(entries, key, value);
    let after = inserted(entries, key, value);
    position_finds(entries, key);
    position_finds(after, key);
    rank_splits(entries, key);
    let k = rank(entries, key) as int;
    match position(entries, key) {
        Some(i) => {
            assert(after[i].0 == key);
            position_unique(after, key, i);
        },
        None => {
            assert(after[k].0 == key);
            position_unique(after, key, k);
        },
    }
    if other != key {
        position_finds(entries, other);
        position_finds(after, other);
        match position(entries, other) {
            Some(j) => {
                let moved = if position(entries, key) is None && j >= k {
                    j + 1
                } else {
                    j
                };
                assert(after[moved] == entries[j]);
                position_unique(after, other, moved);
            },
            None => {
                if let Some(m) = position(after, other) {
                    let origin = if position(entries, key) is None && m > k {
                        m - 1
                    } else {
                        m
                    };
                    assert(after[m] == entries[origin]);
                }
            },
        }
    }
}

impl JsonObject {
    #[verifier::type_invariant]
    spec fn ordered(self) -> bool {
        keys_increase(entries_model(self))
    }

    /// An object without entries.
    pub fn new() -> (r: Self)
        ensures
            r@ == Seq::<(Seq<char>, Json)>::empty(),
    {
        let entries: Vec<(String, JsonValue)> = Vec::new();
        JsonObject { entries }
    }

    /// The number of entries. Their keys are ordered.
    pub fn len(&self) -> (r: usize)
        ensures
            r == self@.len(),
            keys_increase(self@),
    {
        proof {
            use_type_invariant(self);
        }
        self.entries.len()
    }

    /// The key of the entry at the given index.
    pub fn key(&self, i: usize) -> (r: &String)
        requires
            i < self@.len(),
        ensures
            r@ == self@[i as int].0,
    {
        &self.entries[i].0
    }

    /// The value of the entry at the given index.
    pub fn value(&self, i: usize) -> (r: &JsonValue)
        requires
            i < self@.len(),
        ensures
            r@ == self@[i as int].1,
            decreases_to!(self => r),
    {
        &self.entries[i].1
    }

    /// Find the entry with the given key.
    pub fn find(&self, key: &str) -> (r: Option<usize>)
        ensures
            match r {
                Some(i) => position(self@, key@) == Some(i as int),
                None => position(self@, key@) is None,
            },
    {
        let mut i: usize = 0;
        while i < self.entries.len()
            invariant
                i <= self.entries@.len(),
                position(self@.take(i as int), key@) is None,
            decreases self.entries@.len() - i,
        {
            proof {
                assert(self@.take(i + 1).drop_last() =~= self@.take(i as int));
            }
            if text::same_text(self.entries[i].0.as_str(), key) {
                proof {
                    use_type_invariant(self);
                    position_unique(self@, key@, i as int);
                }
                return Some(i);
            }
            i = i + 1;
        }
        proof {
            assert(self@.take(self@.len() as int) =~= self@);
        }
        None
    }

    /// Get the value with the given key.
    pub fn get(&self, key: &str) -> (r: Option<&JsonValue>)
        ensures
            match r {
                Some(value) => lookup(self@, key@) == Some(value@),
                None => lookup(self@, key@) is None,
            },
    {
        match self.find(key) {
            Some(i) => {
                proof {
                    position_finds(self@, key@);
                }
                Some(self.value(i))
            },
            None => None,
        }
    }

    /// Replace the value of the entry at the given index.
    pub fn replace(&mut self, i: usize, value: JsonValue)
        requires
            i < old(self)@.len(),
        ensures
            final(self)@ == old(self)@.update(i as int, (old(self)@[i as int].0, value@)),
    {
        proof {
            use_type_invariant(&*self);
        }
        let mut entries: Vec<(String, JsonValue)> = Vec::new();
        std::mem::swap(&mut entries, &mut self.entries);
        let ghost before = entries@;
        let key = entries[i].0.clone();
        entries.set(i, (key, value));
        proof {
            let after = JsonObject { entries };
            assert(entries_model(after) =~= old(self)@.update(
                i as int,
                (old(self)@[i as int].0, value@),
            ));
        }
        self.entries = entries;
    }

    /// Set the value of a key.
    pub fn insert(&mut self, key: String, value: JsonValue)
        ensures
            final(self)@ == inserted(old(self)@, key@, value@),
    {
        proof {
            use_type_invariant(&*self);
            inserted_keeps_order(self@, key@, value@);
            position_finds(self@, key@);
        }
        match self.find(key.as_str()) {
            Some(i) => {
                self.replace(i, value);
            },
            None => {
                let k = self.place(key.as_str());
                let mut entries: Vec<(String, JsonValue)> = Vec::new();
                std::mem::swap(&mut entries, &mut self.entries);
                let ghost before = entries@;
                entries.insert(k, (key, value));
                proof {
                    let after = JsonObject { entries };
                    assert(entries_model(after) =~= inserted(old(self)@, key@, value@));
                }
                self.entries = entries;
            },
        }
    }

    /// The number of leading entries with a key that precedes the given one.
    fn place(&self, key: &str) -> (r: usize)
        ensures
            r == rank(self@, key@),
            r <= self@.len(),
    {
        let mut k: usize = 0;
        proof {
            assert(self@.skip(0) =~= self@);
        }
        while k < self.entries.len() && text::text_precedes(self.entries[k].0.as_str(), key)
            invariant
                k <= self.entries@.len(),
                self@.len() == self.entries@.len(),
                rank(self@, key@) == k + rank(self@.skip(k as int), key@),
            decreases self.entries@.len() - k,
        {
            proof {
                assert(self@.skip(k as int).drop_first() =~= self@.skip(k + 1));
            }
            k = k + 1;
        }
        k
    }
}

/// Whether two numbers are equal. An integer never equals a number of another kind.
pub open spec fn same_number(a: NumberModel, b: NumberModel) -> bool {
    match (a, b) {
        (NumberModel::PosInt(x), NumberModel::PosInt(y)) => x == y,
        (NumberModel::NegInt(x), NumberModel::NegInt(y)) => x == y,
        (NumberModel::Float { scaled: x, .. }, NumberModel::Float { scaled: y, .. }) => x == y,
        _ => false,
    }
}

/// Whether two values are equal.
pub open spec fn same(a: Json, b: Json) -> bool
    decreases a,
{
    match (a, b) {
        (Json::Null, Json::Null) => true,
        (Json::Bool(x), Json::Bool(y)) => x == y,
        (Json::Number(x), Json::Number(y)) => same_number(x, y),
        (Json::Text(x), Json::Text(y)) => x == y,
        (Json::Array(x), Json::Array(y)) => {
            &&& x.len() == y.len()
            &&& forall|i: int| 0 <= i < x.len() ==> same(#[trigger] x[i], y[i])
        },
        (Json::Object(x), Json::Object(y)) => {
            &&& x.len() == y.len()
            &&& forall|i: int|
                0 <= i < x.len() ==> (#[trigger] x[i]).0 == y[i].0 && same(x[i].1, y[i].1)
        },
        _ => false,
    }
}

/// Every value equals itself.
pub proof fn same_reflexive(a: Json)
    ensures
        same(a, a),
    decreases a,
{
    match a {
        Json::Array(x) => {
            assert forall|i: int| 0 <= i < x.len() implies same(#[trigger] x[i], x[i]) by {
                same_reflexive(x[i]);
            }
        },
        Json::Object(x) => {
            assert forall|i: int| 0 <= i < x.len() implies (#[trigger] x[i]).0 == x[i].0 && same(
                x[i].1,
                x[i].1,
            ) by {
                same_reflexive(x[i].1);
            }
        },
        _ => {},
    }
}

/// Equality of values is symmetric.
pub proof fn same_symmetric(a: Json, b: Json)
    requires
        same(a, b),
    ensures
        same(b, a),
    decreases a,
{
    match (a, b) {
        (Json::Array(x), Json::Array(y)) => {
            assert forall|i: int| 0 <= i < y.len() implies same(#[trigger] y[i], x[i]) by {
                assert(same(x[i], y[i]));
                same_symmetric(x[i], y[i]);
            }
        },
        (Json::Object(x), Json::Object(y)) => {
            assert forall|i: int| 0 <= i < y.len() implies (#[trigger] y[i]).0 == x[i].0 && same(
                y[i].1,
                x[i].1,
            ) by {
                assert(x[i].0 == y[i].0);
                same_symmetric(x[i].1, y[i].1);
            }
        },
        _ => {},
    }
}

/// Equality of values is transitive.
pub proof fn same_transitive(a: Json, b: Json, c: Json)
    requires
        same(a, b),
        same(b, c),
    ensures
        same(a, c),
    decreases a,
{
    match (a, b, c) {
        (Json::Array(x), Json::Array(y), Json::Array(z)) => {
            assert forall|i: int| 0 <= i < x.len() implies same(#[trigger] x[i], z[i]) by {
                assert(same(x[i], y[i]));
                assert(same(y[i], z[i]));
                same_transitive(x[i], y[i], z[i]);
            }
        },
        (Json::Object(x), Json::Object(y), Json::Object(z)) => {
            assert forall|i: int| 0 <= i < x.len() implies (#[trigger] x[i]).0 == z[i].0 && same(
                x[i].1,
                z[i].1,
            ) by {
                assert(x[i].0 == y[i].0);
                assert(y[i].0 == z[i].0);
                same_transitive(x[i].1, y[i].1, z[i].1);
            }
        },
        _ => {},
    }
}

fn equal_numbers(a: &Number, b: &Number) -> (r: bool)
    ensures
        r == same_number(a@, b@),
{
    match (a, b) {
        (Number::PosInt(x), Number::PosInt(y)) => *x == *y,
        (Number::NegInt(x), Number::NegInt(y)) => *x == *y,
        (Number::Float(x), Number::Float(y)) => x.value.equals(y.value),
        _ => false,
    }
}

fn equal_values(a: &JsonValue, b: &JsonValue) -> (r: bool)
    ensures
        r == same(a@, b@),
    decreases a,
{
    match (a, b) {
        (JsonValue::Null, JsonValue::Null) => true,
        (JsonValue::Bool(x), JsonValue::Bool(y)) => *x == *y,
        (JsonValue::Number(x), JsonValue::Number(y)) => equal_numbers(x, y),
        (JsonValue::Text(x), JsonValue::Text(y)) => text::same_text(x.as_str(), y.as_str()),
        (JsonValue::Array(x), JsonValue::Array(y)) => {
            if x.len() != y.len() {
                return false;
            }
            for i in 0..x.len()
                invariant
                    *a == JsonValue::Array(*x),
                    *b == JsonValue::Array(*y),
                    x@.len() == y@.len(),
                    forall|j: int| 0 <= j < i ==> same(#[trigger] a@->Array_0[j], b@->Array_0[j]),
            {
                if !equal_values(&x[i], &y[i]) {
                    proof {
                        assert(!same(a@->Array_0[i as int], b@->Array_0[i as int]));
                    }
                    return false;
                }
            }
            true
        },
        (JsonValue::Object(x), JsonValue::Object(y)) => {
            if x.len() != y.len() {
                return false;
            }
            let count: usize = x.len();
            for i in 0..count
                invariant
                    count == x@.len(),
                    *a == JsonValue::Object(*x),
                    *b == JsonValue::Object(*y),
                    x@.len() == y@.len(),
                    forall|j: int|
                        0 <= j < i ==> (#[trigger] x@[j]).0 == y@[j].0 && same(x@[j].1, y@[j].1),
            {
                if !text::same_text(x.key(i).as_str(), y.key(i).as_str()) {
                    proof {
                        assert(x@[i as int].0 != y@[i as int].0);
                    }
                    return false;
                }
                if !equal_values(x.value(i), y.value(i)) {
                    proof {
                        assert(x@[i as int].0 == y@[i as int].0);
                    }
                    return false;
                }
            }
            true
        },
        _ => false,
    }
}

impl PartialEq for JsonValue {
    fn eq(&self, other: &JsonValue) -> (r: bool) {
        equal_values(self, other)
    }
}

impl vstd::std_specs::cmp::PartialEqSpecImpl for JsonValue {
    open spec fn obeys_eq_spec() -> bool {
        true
    }

    open spec fn eq_spec(&self, other: &JsonValue) -> bool {
        same(self@, other@)
    }
}

impl Clone for Real {
    fn clone(&self) -> (r: Self)
        ensures
            r == *self,
    {
        Real { value: self.value, display: self.display.clone(), json: self.json.clone() }
    }
}

impl Clone for Number {
    fn clone(&self) -> (r: Self)
        ensures
            r == *self,
    {
        match self {
            Number::PosInt(n) => Number::PosInt(*n),
            Number::NegInt(n) => Number::NegInt(*n),
            Number::Float(x) => Number::Float(x.clone()),
        }
    }
}

fn copied(value: &JsonValue) -> (r: JsonValue)
    ensures
        r@ == value@,
    decreases value,
{
    match value {
        JsonValue::Null => JsonValue::Null,
        JsonValue::Bool(b) => JsonValue::Bool(*b),
        JsonValue::Number(n) => JsonValue::Number(n.clone()),
        JsonValue::Text(s) => JsonValue::Text(s.clone()),
        JsonValue::Array(items) => {
            let mut out: Vec<JsonValue> = Vec::new();
            for i in 0..items.len()
                invariant
                    *value == JsonValue::Array(*items),
                    out@.len() == i,
                    forall|j: int| 0 <= j < i ==> (#[trigger] out@[j])@ == items@[j]@,
            {
                let item = &items[i];
                proof {
                    assert(decreases_to!(value => value->Array_0));
                }
                out.push(copied(item));
            }
            let r = JsonValue::Array(out);
            proof {
                assert(r@->Array_0 =~= value@->Array_0);
            }
            r
        },
        JsonValue::Object(object) => JsonValue::Object(copied_object(object)),
    }
}

fn copied_object(object: &JsonObject) -> (r: JsonObject)
    ensures
        r@ == object@,
    decreases object,
{
    let mut entries: Vec<(String, JsonValue)> = Vec::new();
    for i in 0..object.entries.len()
        invariant
            entries@.len() == i,
            forall|j: int|
                0 <= j < i ==> (#[trigger] entries@[j]).0@ == object.entries@[j].0@
                    && entries@[j].1@ == object.entries@[j].1@,
    {
        let key = object.entries[i].0.clone();
        entries.push((key, copied(&object.entries[i].1)));
    }
    proof {
        use_type_invariant(object);
        let ghost after = JsonObject { entries };
        assert(entries_model(after) =~= object@);
    }
    JsonObject { entries }
}

impl Clone for JsonValue {
    fn clone(&self) -> (r: Self)
        ensures
            r@ == self@,
    {
        copied(self)
    }
}

impl Clone for JsonObject {
    fn clone(&self) -> (r: Self)
        ensures
            r@ == self@,
    {
        copied_object(self)
    }
}

/// A string as it reads in a JSON document: in quotes, with the escapes that it needs.
pub uninterp spec fn quoted(s: Seq<char>) -> Seq<char>;

/// `serde_json::Value::to_string` of a string: the string as it reads in a JSON document, which is
/// named [`quoted`].
#[verifier::external_body]
pub(crate) fn quoted_text(s: &str) -> (r: String)
    ensures
        r@ == quoted(s@),
{
    serde_json::Value::from(s).to_string()
}

/// The notation of a number.
pub open spec fn number_text(n: NumberModel) -> Seq<char> {
    match n {
        NumberModel::PosInt(n) => text::decimal(n as nat),
        NumberModel::NegInt(n) => text::signed_decimal(n as int),
        NumberModel::Float { json, .. } => json,
    }
}

/// The texts of the items of a list.
pub open spec fn item_texts(items: Seq<Json>) -> Seq<Seq<char>>
    decreases items,
{
    if items.len() == 0 {
        Seq::empty()
    } else {
        item_texts(items.drop_last()).push(compact(items.last()))
    }
}

/// The texts of the entries of an object.
pub open spec fn entry_texts(entries: Seq<(Seq<char>, Json)>) -> Seq<Seq<char>>
    decreases entries,
{
    if entries.len() == 0 {
        Seq::empty()
    } else {
        entry_texts(entries.drop_last()).push(
            quoted(entries.last().0) + ":"@ + compact(entries.last().1),
        )
    }
}

/// The JSON document for a value, without any whitespace between its parts.
pub open spec fn compact(value: Json) -> Seq<char>
    decreases value,
{
    match value {
        Json::Null => "null"@,
        Json::Bool(b) => if b {
            "true"@
        } else {
            "false"@
        },
        Json::Number(n) => number_text(n),
        Json::Text(s) => quoted(s),
        Json::Array(items) => "["@ + text::joined(item_texts(items), ","@) + "]"@,
        Json::Object(entries) => "{"@ + text::joined(entry_texts(entries), ","@) + "}"@,
    }
}

/// The document for a list, given the documents for its items.
pub fn array_text(items: &Vec<String>) -> (r: String)
    ensures
        r@ == "["@ + text::joined(text::texts(items@), ","@) + "]"@,
{
    "[".to_owned().concat(text::join(items, ",").as_str()).concat("]")
}

/// The text of an entry of an object, given the documents for its key and its value.
pub fn entry_text(key: &str, value: &str) -> (r: String)
    ensures
        r@ == key@ + ":"@ + value@,
{
    key.to_owned().concat(":").concat(value)
}

/// The document for an object, given the texts of its entries.
pub fn object_text(entries: &Vec<String>) -> (r: String)
    ensures
        r@ == "{"@ + text::joined(text::texts(entries@), ","@) + "}"@,
{
    "{".to_owned().concat(text::join(entries, ",").as_str()).concat("}")
}

fn number_to_text(n: &Number) -> (r: String)
    ensures
        r@ == number_text(n@),
{
    match n {
        Number::PosInt(n) => text::decimal_text(*n),
        Number::NegInt(n) => text::signed_decimal_text(*n),
        Number::Float(x) => x.json.clone(),
    }
}

/// The JSON document for a value.
pub fn to_text(value: &JsonValue) -> (r: String)
    ensures
        r@ == compact(value@),
    decreases value,
{
    match value {
        JsonValue::Null => "null".to_owned(),
        JsonValue::Bool(b) => if *b {
            "true".to_owned()
        } else {
            "false".to_owned()
        },
        JsonValue::Number(n) => number_to_text(n),
        JsonValue::Text(s) => quoted_text(s.as_str()),
        JsonValue::Array(items) => {
            let mut parts: Vec<String> = Vec::new();
            let ghost all = value@->Array_0;
            proof {
                assert(all.take(0) =~= Seq::empty());
                assert(text::texts(parts@) =~= Seq::empty());
            }
            for i in 0..items.len()
                invariant
                    *value == JsonValue::Array(*items),
                    all == value@->Array_0,
                    text::texts(parts@) == item_texts(all.take(i as int)),
            {
                let item = &items[i];
                proof {
                    assert(decreases_to!(value => value->Array_0));
                }
                let ghost before = parts@;
                let part = to_text(item);
                let ghost shown = part@;
                parts.push(part);
                proof {
                    assert(all.take(i + 1).drop_last() =~= all.take(i as int));
                    assert(text::texts(parts@) =~= text::texts(before).push(shown));
                }
            }
            proof {
                assert(all.take(all.len() as int) =~= all);
            }
            array_text(&parts)
        },
        JsonValue::Object(object) => {
            let mut parts: Vec<String> = Vec::new();
            let ghost all = object@;
            proof {
                assert(all.take(0) =~= Seq::empty());
                assert(text::texts(parts@) =~= Seq::empty());
            }
            let count: usize = object.len();
            for i in 0..count
                invariant
                    *value == JsonValue::Object(*object),
                    all == object@,
                    count == all.len(),
                    text::texts(parts@) == entry_texts(all.take(i as int)),
            {
                proof {
                    assert(decreases_to!(value => value->Object_0));
                }
                let ghost before = parts@;
                let key = quoted_text(object.key(i).as_str());
                let part = entry_text(key.as_str(), to_text(object.value(i)).as_str());
                let ghost shown = part@;
                parts.push(part);
                proof {
                    assert(all.take(i + 1).drop_last() =~= all.take(i as int));
                    assert(text::texts(parts@) =~= text::texts(before).push(shown));
                }
            }
            proof {
                assert(all.take(all.len() as int) =~= all);
            }
            object_text(&parts)
        },
    }
}

/// The scaled value of the double-precision number for a JSON number.
pub open spec fn number_scaled(n: NumberModel) -> int {
    match n {
        NumberModel::PosInt(n) => double::rounded_signed(n * pow2(1074)),
        NumberModel::NegInt(n) => double::rounded_signed(n * pow2(1074)),
        NumberModel::Float { scaled, .. } => scaled,
    }
}

impl Number {
    /// The double-precision number for this number.
    pub fn to_double(&self) -> (r: Double)
        ensures
            r.scaled() == number_scaled(self@),
    {
        match self {
            Number::PosInt(n) => Double::from_u64(*n),
            Number::NegInt(n) => Double::from_i64(*n),
            Number::Float(x) => x.value,
        }
    }
}

/// Two values are equal if and only if they are of one kind and equal there: scalars by what they
/// hold, where fractions are equal if their values are, lists item by item, and objects property by
/// property.
pub proof fn equality_goes_into_depth(a: Json, b: Json)
    ensures
        same(a, b) <==> {
            ||| a is Null && b is Null
            ||| a is Bool && b is Bool && a->Bool_0 == b->Bool_0
            ||| a is Text && b is Text && a->Text_0 == b->Text_0
            ||| a is Number && b is Number && a->Number_0 is PosInt && b->Number_0 is PosInt
                && a->Number_0->PosInt_0 == b->Number_0->PosInt_0
            ||| a is Number && b is Number && a->Number_0 is NegInt && b->Number_0 is NegInt
                && a->Number_0->NegInt_0 == b->Number_0->NegInt_0
            ||| a is Number && b is Number && a->Number_0 is Float && b->Number_0 is Float
                && a->Number_0->scaled == b->Number_0->scaled
            ||| a is Array && b is Array && a->Array_0.len() == b->Array_0.len() && forall|i: int|
                0 <= i < a->Array_0.len() ==> same(#[trigger] a->Array_0[i], b->Array_0[i])
            ||| a is Object && b is Object && a->Object_0.len() == b->Object_0.len() && forall|
                i: int,
            |
                0 <= i < a->Object_0.len() ==> (#[trigger] a->Object_0[i]).0 == b->Object_0[i].0
                    && same(a->Object_0[i].1, b->Object_0[i].1)
        },
{
}

/// Equal objects have the same keys, with equal values.
pub proof fn equal_objects_agree_on_every_key(
    a: Seq<(Seq<char>, Json)>,
    b: Seq<(Seq<char>, Json)>,
    key: Seq<char>,
)
    requires
        keys_increase(a),
        keys_increase(b),
        same(Json::Object(a), Json::Object(b)),
    ensures
        lookup(a, key) is Some <==> lookup(b, key) is Some,
        lookup(a, key) is Some ==> same(lookup(a, key)->0, lookup(b, key)->0),
{
    position_finds(a, key);
    position_finds(b, key);
    if let Some(i) = position(a, key) {
        assert(a[i].0 == b[i].0);
        position_unique(b, key, i);
    }
    if let Some(i) = position(b, key) {
        assert(a[i].0 == b[i].0);
        position_unique(a, key, i);
    }
}

/// A value differs from another one if one of its properties or items does, however deep.
pub proof fn nested_differences_matter(a: Json, b: Json, i: int)
    ensures
        a is Array && b is Array && 0 <= i < a->Array_0.len() && i < b->Array_0.len() && !same(
            a->Array_0[i],
            b->Array_0[i],
        ) ==> !same(a, b),
        a is Object && b is Object && 0 <= i < a->Object_0.len() && i < b->Object_0.len() && !same(
            a->Object_0[i].1,
            b->Object_0[i].1,
        ) ==> !same(a, b),
{
    if a is Object && b is Object && 0 <= i < a->Object_0.len() && same(a, b) {
        assert(a->Object_0[i].0 == b->Object_0[i].0);
    }
}

/// A whole number that isn't too large has an exact double-precision value, and a fraction has its
/// own.
pub proof fn numbers_have_their_value(n: u64, m: i64, fraction: NumberModel)
    requires
        n < 0x20_0000_0000_0000,
        -0x20_0000_0000_0000 < m < 0,
        fraction is Float,
    ensures
        number_scaled(NumberModel::PosInt(n)) == n * pow2(1074),
        number_scaled(NumberModel::NegInt(m)) == m * pow2(1074),
        number_scaled(fraction) == fraction->scaled,
{
    let p = pow2(1074) as int;
    double::lemma_rounded_exact(n as nat, 1074);
    double::lemma_rounded_exact((-m) as nat, 1074);
    double::rounding_is_symmetric((n * p) as nat);
    let k = (-m) as nat;
    assert(n * p >= 0 && k * p >= 0 && m * p == -(k * p)) by (nonlinear_arith)
        requires
            p >= 0,
            n >= 0,
            k >= 0,
            k == -m,
    ;
    double::rounding_is_symmetric((k * p) as nat);
}

/// The document for a list grows with each item: it ends with the document for the last one, which a
/// comma separates from those before it.
pub proof fn documents_of_lists_grow(items: Seq<Json>, item: Json)
    ensures
        compact(Json::Array(Seq::empty())) == "["@ + "]"@,
        compact(Json::Array(items.push(item))) == "["@ + compact(
            Json::Array(items),
        ).subrange(1, compact(Json::Array(items)).len() - 1) + (if items.len() == 0 {
            ""@
        } else {
            ","@
        }) + compact(item) + "]"@,
{
    reveal_strlit("[");
    reveal_strlit("]");
    reveal_strlit("");
    let inner = text::joined(item_texts(items), ","@);
    let whole = compact(Json::Array(items));
    assert(whole.subrange(1, whole.len() - 1) =~= inner);
    lemma_item_texts_len(items);
    let all = item_texts(items.push(item));
    assert(items.push(item).drop_last() =~= items);
    assert(all.drop_last() =~= item_texts(items));
    assert(all.last() == compact(item));
    let empty = Seq::<Json>::empty();
    assert(text::joined(item_texts(empty), ","@) =~= Seq::<char>::empty());
    assert(compact(Json::Array(empty)) =~= "["@ + "]"@);
    if items.len() == 0 {
        assert(all.len() == 1 && all[0] == compact(item));
        assert(inner =~= Seq::<char>::empty());
        assert("["@ + inner + ""@ + compact(item) + "]"@ =~= "["@ + compact(item) + "]"@);
    } else {
        assert("["@ + inner + ","@ + compact(item) + "]"@ =~= "["@ + (inner + ","@ + compact(item))
            + "]"@);
    }
}

proof fn lemma_item_texts_len(items: Seq<Json>)
    ensures
        item_texts(items).len() == items.len(),
    decreases items.len(),
{
    if items.len() > 0 {
        lemma_item_texts_len(items.drop_last());
    }
}

proof fn lemma_entry_texts_len(entries: Seq<(Seq<char>, Json)>)
    ensures
        entry_texts(entries).len() == entries.len(),
    decreases entries.len(),
{
    if entries.len() > 0 {
        lemma_entry_texts_len(entries.drop_last());
    }
}

/// The document for an object grows with each property: it ends with the last one, its key in quotes
/// and its value after a colon, which a comma separates from those before it.
pub proof fn documents_of_objects_grow(
    entries: Seq<(Seq<char>, Json)>,
    key: Seq<char>,
    value: Json,
)
    ensures
        compact(Json::Object(Seq::empty())) == "{"@ + "}"@,
        compact(Json::Object(entries.push((key, value)))) == "{"@ + compact(
            Json::Object(entries),
        ).subrange(1, compact(Json::Object(entries)).len() - 1) + (if entries.len() == 0 {
            ""@
        } else {
            ","@
        }) + (quoted(key) + ":"@ + compact(value)) + "}"@,
{
    reveal_strlit("{");
    reveal_strlit("}");
    reveal_strlit("");
    let part = quoted(key) + ":"@ + compact(value);
    let inner = text::joined(entry_texts(entries), ","@);
    let whole = compact(Json::Object(entries));
    assert(whole.subrange(1, whole.len() - 1) =~= inner);
    lemma_entry_texts_len(entries);
    let all = entry_texts(entries.push((key, value)));
    assert(entries.push((key, value)).drop_last() =~= entries);
    assert(all.drop_last() =~= entry_texts(entries));
    assert(all.last() == part);
    let empty = Seq::<(Seq<char>, Json)>::empty();
    assert(text::joined(entry_texts(empty), ","@) =~= Seq::<char>::empty());
    assert(compact(Json::Object(empty)) =~= "{"@ + "}"@);
    if entries.len() == 0 {
        assert(all.len() == 1 && all[0] == part);
        assert(inner =~= Seq::<char>::empty());
        assert("{"@ + inner + ""@ + part + "}"@ =~= "{"@ + part + "}"@);
    } else {
        assert("{"@ + inner + ","@ + part + "}"@ =~= "{"@ + (inner + ","@ + part) + "}"@);
    }
}

/// The documents for scalars.
pub proof fn documents_of_scalars(n: u64, m: i64, s: Seq<char>)
    ensures
        compact(Json::Null) == "null"@,
        compact(Json::Bool(true)) == "true"@,
        compact(Json::Bool(false)) == "false"@,
        compact(Json::Text(s)) == quoted(s),
        compact(Json::Number(NumberModel::PosInt(n))) == text::decimal(n as nat),
        m < 0 ==> compact(Json::Number(NumberModel::NegInt(m))) == seq!['-'] + text::decimal(
            (-m) as nat,
        ),
{
}

/// A model shows what a value holds.
pub proof fn models_show_what_is_held(value: JsonValue, i: int)
    ensures
        match value {
            JsonValue::Null => value@ is Null,
            JsonValue::Bool(b) => value@ is Bool && value@->Bool_0 == b,
            JsonValue::Number(n) => value@ is Number && match n {
                Number::PosInt(x) => value@->Number_0 is PosInt && value@->Number_0->PosInt_0 == x,
                Number::NegInt(x) => value@->Number_0 is NegInt && value@->Number_0->NegInt_0 == x,
                Number::Float(x) => value@->Number_0 is Float && value@->Number_0->scaled
                    == x.value.scaled() && value@->Number_0->json == x.json@,
            },
            JsonValue::Text(s) => value@ is Text && value@->Text_0 == s@,
            JsonValue::Array(items) => value@ is Array && value@->Array_0.len() == items@.len() && (
            0 <= i < items@.len() ==> value@->Array_0[i] == items@[i]@),
            JsonValue::Object(object) => value@ is Object && value@->Object_0 == object@,
        },
{
}

} // verus!
