//! JSON documents, and the merge of a partial document into a whole one.

use vstd::prelude::*;
use crate::text::{decimal, decimal_text, same_text};

verus! {

/// A JSON document. Numbers are kept as they are written.
#[derive(Debug)]
pub enum Json {
    Null,
    Bool(bool),
    Num(String),
    Str(String),
    Arr(Vec<Json>),
    Obj(Vec<(String, Json)>),
}

/// What a JSON document says.
pub enum JsonValue {
    Null,
    Bool(bool),
    Num(Seq<char>),
    Str(Seq<char>),
    Arr(Seq<JsonValue>),
    Obj(Seq<(Seq<char>, JsonValue)>),
}

/// The fields of an object.
pub type Fields = Seq<(Seq<char>, JsonValue)>;

/// What a document says.
pub open spec fn json_value(j: Json) -> JsonValue
    decreases j,
{
    match j {
        Json::Null => JsonValue::Null,
        Json::Bool(b) => JsonValue::Bool(b),
        Json::Num(t) => JsonValue::Num(t@),
        Json::Str(t) => JsonValue::Str(t@),
        Json::Arr(v) => JsonValue::Arr(arr_values(v@)),
        Json::Obj(v) => JsonValue::Obj(obj_values(v@)),
    }
}

/// What the items of an array say.
pub open spec fn arr_values(s: Seq<Json>) -> Seq<JsonValue>
    decreases s,
{
    if s.len() == 0 {
        seq![]
    } else {
        arr_values(s.drop_last()).push(json_value(s.last()))
    }
}

/// What the fields of an object say.
pub open spec fn obj_values(s: Seq<(String, Json)>) -> Fields
    decreases s,
{
    if s.len() == 0 {
        seq![]
    } else {
        obj_values(s.drop_last()).push((s.last().0@, json_value(s.last().1)))
    }
}

impl View for Json {
    type V = JsonValue;

    open spec fn view(&self) -> JsonValue {
        json_value(*self)
    }
}

proof fn lemma_obj_values(s: Seq<(String, Json)>)
    ensures
        obj_values(s).len() == s.len(),
        forall|i: int|
            0 <= i < s.len() ==> #[trigger] obj_values(s)[i] == (s[i].0@, json_value(s[i].1)),
    decreases s.len(),
{
    if s.len() > 0 {
        lemma_obj_values(s.drop_last());
        assert forall|i: int| 0 <= i < s.len() implies #[trigger] obj_values(s)[i] == (
            s[i].0@,
            json_value(s[i].1),
        ) by {
            if i < s.len() - 1 {
                assert(obj_values(s.drop_last())[i] == (
                    s.drop_last()[i].0@,
                    json_value(s.drop_last()[i].1),
                ));
            }
        }
    }
}

proof fn lemma_obj_values_eq(s: Seq<(String, Json)>, f: Fields)
    requires
        f.len() == s.len(),
        forall|i: int| 0 <= i < s.len() ==> #[trigger] f[i] == (s[i].0@, json_value(s[i].1)),
    ensures
        obj_values(s) == f,
{
    lemma_obj_values(s);
    assert forall|i: int| 0 <= i < f.len() implies obj_values(s)[i] == f[i] by {
        assert(f[i] == (s[i].0@, json_value(s[i].1)));
    }
    assert(obj_values(s) =~= f);
}

// ---------------------------------------------------------------------------
// Building documents
// ---------------------------------------------------------------------------

/// A text.
pub fn string(s: &str) -> (j: Json)
    ensures
        j@ == JsonValue::Str(s@),
{
    Json::Str(s.to_owned())
}

/// A whole number.
pub fn number(n: u64) -> (j: Json)
    ensures
        j@ == JsonValue::Num(decimal(n as nat)),
{
    Json::Num(decimal_text(n))
}

/// An object without fields.
pub fn object() -> (j: Json)
    ensures
        j@ == JsonValue::Obj(seq![]),
{
    let v: Vec<(String, Json)> = Vec::new();
    proof {
        assert(obj_values(v@) =~= seq![]);
    }
    Json::Obj(v)
}

/// An array without items.
pub fn array() -> (j: Json)
    ensures
        j@ == JsonValue::Arr(seq![]),
{
    let v: Vec<Json> = Vec::new();
    proof {
        assert(arr_values(v@) =~= seq![]);
    }
    Json::Arr(v)
}

/// An object with one field more; anything else unchanged.
pub open spec fn with_field(j: JsonValue, name: Seq<char>, value: JsonValue) -> JsonValue {
    match j {
        JsonValue::Obj(f) => JsonValue::Obj(f.push((name, value))),
        other => other,
    }
}

/// An array with one item more; anything else unchanged.
pub open spec fn with_item(j: JsonValue, value: JsonValue) -> JsonValue {
    match j {
        JsonValue::Arr(v) => JsonValue::Arr(v.push(value)),
        other => other,
    }
}

impl Json {
    /// Adds a field to an object.
    pub fn field(self, name: &str, value: Json) -> (j: Json)
        ensures
            j@ == with_field(self@, name@, value@),
    {
        match self {
            Json::Obj(mut v) => {
                let ghost before = v@;
                v.push((name.to_owned(), value));
                proof {
                    assert(v@.drop_last() =~= before);
                }
                Json::Obj(v)
            },
            other => other,
        }
    }

    /// Adds an item to an array.
    pub fn item(self, value: Json) -> (j: Json)
        ensures
            j@ == with_item(self@, value@),
    {
        match self {
            Json::Arr(mut v) => {
                let ghost before = v@;
                v.push(value);
                proof {
                    assert(v@.drop_last() =~= before);
                }
                Json::Arr(v)
            },
            other => other,
        }
    }
}

// ---------------------------------------------------------------------------
// Merging
// ---------------------------------------------------------------------------

/// The position of a field at or after `i`, or the number of fields.
pub open spec fn field_from(f: Fields, name: Seq<char>, i: int) -> int
    decreases f.len() - i,
{
    if i < 0 || i >= f.len() {
        f.len() as int
    } else if f[i].0 == name {
        i
    } else {
        field_from(f, name, i + 1)
    }
}

/// The value of a field.
pub open spec fn field_of(f: Fields, name: Seq<char>) -> Option<JsonValue> {
    let i = field_from(f, name, 0);
    if i < f.len() {
        Some(f[i].1)
    } else {
        None
    }
}

/// A document with a partial one merged into it: objects merge field by
/// field, anything else is replaced.
pub open spec fn merged(base: JsonValue, patch: JsonValue) -> JsonValue
    decreases patch,
{
    match (base, patch) {
        (JsonValue::Obj(b), JsonValue::Obj(p)) => JsonValue::Obj(merged_fields(b, p)),
        _ => patch,
    }
}

/// Fields with others merged into them, one after another.
pub open spec fn merged_fields(base: Fields, patch: Fields) -> Fields
    decreases patch,
{
    if patch.len() == 0 {
        base
    } else {
        let m = merged_fields(base, patch.drop_last());
        let (name, value) = patch.last();
        let i = field_from(m, name, 0);
        if i < m.len() {
            m.update(i, (name, merged(m[i].1, value)))
        } else {
            m.push((name, merged(JsonValue::Null, value)))
        }
    }
}

proof fn lemma_field_from(f: Fields, name: Seq<char>, i: int)
    requires
        0 <= i <= f.len(),
    ensures
        i <= field_from(f, name, i) <= f.len(),
        field_from(f, name, i) < f.len() ==> f[field_from(f, name, i)].0 == name,
        forall|k: int| i <= k < field_from(f, name, i) ==> (#[trigger] f[k]).0 != name,
    decreases f.len() - i,
{
    if i < f.len() && f[i].0 != name {
        lemma_field_from(f, name, i + 1);
    }
}

proof fn lemma_field_from_at(f: Fields, name: Seq<char>, i: int, n: int)
    requires
        0 <= i <= n <= f.len(),
        n < f.len() ==> f[n].0 == name,
        forall|k: int| i <= k < n ==> (#[trigger] f[k]).0 != name,
    ensures
        field_from(f, name, i) == n,
    decreases n - i,
{
    if i < n {
        lemma_field_from_at(f, name, i + 1, n);
    }
}

fn find_field(v: &Vec<(String, Json)>, name: &str) -> (i: usize)
    ensures
        i == field_from(obj_values(v@), name@, 0),
        i <= v@.len(),
{
    let ghost f = obj_values(v@);
    let mut i: usize = 0;
    proof {
        lemma_obj_values(v@);
    }
    while i < v.len()
        invariant
            i <= v@.len(),
            f == obj_values(v@),
            f.len() == v@.len(),
            forall|k: int|
                0 <= k < v@.len() ==> #[trigger] f[k] == (v@[k].0@, json_value(v@[k].1)),
            field_from(f, name@, 0) == field_from(f, name@, i as int),
        decreases v@.len() - i,
    {
        proof {
            assert(f[i as int] == (v@[i as int].0@, json_value(v@[i as int].1)));
        }
        if same_text(v[i].0.as_str(), name) {
            return i;
        }
        i = i + 1;
    }
    i
}

/// Merges a partial document into a whole one.
pub fn merge_json(base: Json, patch: Json) -> (j: Json)
    ensures
        j@ == merged(base@, patch@),
    decreases patch,
{
    match (base, patch) {
        (Json::Obj(b), Json::Obj(p)) => {
            let ghost all = p@;
            let ghost start = obj_values(b@);
            let mut b = b;
            let mut p = p;
            let ghost mut n: int = 0;
            proof {
                assert(all.take(0) =~= seq![]);
                assert(p@ =~= all.skip(0));
            }
            while p.len() > 0
                invariant
                    0 <= n <= all.len(),
                    p@ == all.skip(n),
                    patch is Obj,
                    all == (patch->Obj_0)@,
                    obj_values(b@) == merged_fields(start, obj_values(all.take(n))),
                decreases p.len(),
            {
                let ghost before = b@;
                let ghost m = obj_values(before);
                let (name, value) = p.remove(0);
                let ghost v0 = value;
                proof {
                    assert(all.skip(n).remove(0) =~= all.skip(n + 1));
                    assert(all[n] == (name, value));
                    assert(decreases_to!(patch => patch->Obj_0));
                    assert(decreases_to!(all => all[n]));
                    assert(decreases_to!(all[n] => all[n].1));
                    assert(all.take(n + 1).drop_last() =~= all.take(n));
                    assert(all.take(n + 1).last() == all[n]);
                    lemma_obj_values(before);
                    let q = obj_values(all.take(n + 1));
                    assert(q.drop_last() =~= obj_values(all.take(n)));
                    assert(q.last() == (name@, json_value(value)));
                }
                let i: usize = find_field(&b, name.as_str());
                if i < b.len() {
                    let (_, slot) = b.remove(i);
                    let ghost s0 = slot;
                    let new = merge_json(slot, value);
                    b.insert(i, (name, new));
                    proof {
                        let after = b@;
                        let f = m.update(i as int, (name@, merged(m[i as int].1, v0@)));
                        assert(before[i as int].1 == s0);
                        assert(m[i as int] == (before[i as int].0@, json_value(s0)));
                        assert forall|k: int| 0 <= k < after.len() implies #[trigger] f[k] == (
                            after[k].0@,
                            json_value(after[k].1),
                        ) by {
                            if k != i {
                                assert(after[k] == before[k]);
                                assert(m[k] == (before[k].0@, json_value(before[k].1)));
                            }
                        }
                        lemma_obj_values_eq(after, f);
                    }
                } else {
                    let new = merge_json(Json::Null, value);
                    b.push((name, new));
                    proof {
                        assert(b@.drop_last() =~= before);
                    }
                }
                proof {
                    n = n + 1;
                }
            }
            proof {
                assert(all.take(n) =~= all);
            }
            Json::Obj(b)
        },
        (_, patch) => patch,
    }
}

/// Whether no field occurs twice.
pub open spec fn distinct_fields(f: Fields) -> bool {
    forall|i: int, j: int| 0 <= i < j < f.len() ==> (#[trigger] f[i]).0 != (#[trigger] f[j]).0
}

/// What a partial document does not name stays as it is.
pub proof fn fields_not_named_stay(base: Fields, patch: Fields, name: Seq<char>)
    requires
        field_of(patch, name) is None,
    ensures
        field_of(merged_fields(base, patch), name) == field_of(base, name),
    decreases patch.len(),
{
    if patch.len() > 0 {
        let rest = patch.drop_last();
        let (last, value) = patch.last();
        lemma_field_from(patch, name, 0);
        assert(patch[patch.len() - 1].0 != name);
        assert forall|k: int| 0 <= k < rest.len() implies (#[trigger] rest[k]).0 != name by {
            assert(rest[k] == patch[k]);
        }
        lemma_field_from_at(rest, name, 0, rest.len() as int);
        fields_not_named_stay(base, rest, name);
        let m = merged_fields(base, rest);
        let r = merged_fields(base, patch);
        let i = field_from(m, last, 0);
        lemma_field_from(m, last, 0);
        let n = field_from(m, name, 0);
        lemma_field_from(m, name, 0);
        assert forall|k: int| 0 <= k < n implies (#[trigger] r[k]).0 != name by {
            assert(m[k].0 != name);
        }
        if n < m.len() {
            assert(r[n] == m[n]);
            lemma_field_from_at(r, name, 0, n);
        } else {
            assert forall|k: int| 0 <= k < r.len() implies (#[trigger] r[k]).0 != name by {
                if k < m.len() {
                    assert(m[k].0 != name);
                }
            }
            lemma_field_from_at(r, name, 0, r.len() as int);
        }
    }
}

/// What a partial document names is merged into what was there: it replaces a
/// value that is no object, and merges into one that is.
pub proof fn named_fields_are_merged(base: Fields, patch: Fields, name: Seq<char>)
    requires
        distinct_fields(patch),
        field_of(patch, name) is Some,
    ensures
        field_of(merged_fields(base, patch), name) == Some(
            merged(
                match field_of(base, name) {
                    Some(v) => v,
                    None => JsonValue::Null,
                },
                field_of(patch, name)->0,
            ),
        ),
    decreases patch.len(),
{
    let rest = patch.drop_last();
    let (last, value) = patch.last();
    let at = field_from(patch, name, 0);
    lemma_field_from(patch, name, 0);
    let m = merged_fields(base, rest);
    let r = merged_fields(base, patch);
    assert(distinct_fields(rest)) by {
        assert forall|i: int, j: int| 0 <= i < j < rest.len() implies (#[trigger] rest[i]).0 != (
        #[trigger] rest[j]).0 by {
            assert(patch[i].0 != patch[j].0);
        }
    }
    if at == patch.len() - 1 {
        assert forall|k: int| 0 <= k < rest.len() implies (#[trigger] rest[k]).0 != name by {
            assert(rest[k] == patch[k]);
        }
        lemma_field_from_at(rest, name, 0, rest.len() as int);
        fields_not_named_stay(base, rest, name);
        let i = field_from(m, name, 0);
        lemma_field_from(m, name, 0);
        if i < m.len() {
            assert forall|k: int| 0 <= k < i implies (#[trigger] r[k]).0 != name by {
                assert(m[k].0 != name);
            }
            lemma_field_from_at(r, name, 0, i);
        } else {
            assert forall|k: int| 0 <= k < m.len() implies (#[trigger] r[k]).0 != name by {
                assert(m[k].0 != name);
            }
            lemma_field_from_at(r, name, 0, m.len() as int);
        }
    } else {
        assert(patch[at].0 != patch[patch.len() - 1].0);
        assert forall|k: int| 0 <= k < at implies (#[trigger] rest[k]).0 != name by {
            assert(rest[k] == patch[k]);
        }
        assert(rest[at] == patch[at]);
        lemma_field_from_at(rest, name, 0, at);
        named_fields_are_merged(base, rest, name);
        let i = field_from(m, last, 0);
        lemma_field_from(m, last, 0);
        let n = field_from(m, name, 0);
        lemma_field_from(m, name, 0);
        assert(n != i || n == m.len());
        assert forall|k: int| 0 <= k < n implies (#[trigger] r[k]).0 != name by {
            assert(m[k].0 != name);
        }
        assert(r[n] == m[n]);
        lemma_field_from_at(r, name, 0, n);
    }
}

/// Whether no object of a document has a field twice, as far as objects stand
/// in objects.
pub open spec fn is_plain(v: JsonValue) -> bool
    decreases v,
{
    match v {
        JsonValue::Obj(f) => distinct_fields(f) && forall|i: int|
            0 <= i < f.len() ==> is_plain((#[trigger] f[i]).1),
        _ => true,
    }
}

proof fn lemma_merging_own_fields(f: Fields, n: int)
    requires
        0 <= n <= f.len(),
        distinct_fields(f),
        forall|i: int| 0 <= i < f.len() ==> is_plain((#[trigger] f[i]).1),
    ensures
        merged_fields(f, f.take(n)) == f,
    decreases f, n,
{
    if n > 0 {
        let patch = f.take(n);
        assert(patch.drop_last() =~= f.take(n - 1));
        lemma_merging_own_fields(f, n - 1);
        assert(patch.last() == f[n - 1]);
        assert forall|k: int| 0 <= k < n - 1 implies (#[trigger] f[k]).0 != f[n - 1].0 by {
        }
        lemma_field_from_at(f, f[n - 1].0, 0, n - 1);
        assert(decreases_to!(f => f[n - 1]));
        own_document_changes_nothing(f[n - 1].1);
        assert(f.update(n - 1, (f[n - 1].0, f[n - 1].1)) =~= f);
    }
}

/// A document merged into itself stays as it is: a client that sends back what
/// it was given changes nothing.
pub proof fn own_document_changes_nothing(v: JsonValue)
    requires
        is_plain(v),
    ensures
        merged(v, v) == v,
    decreases v, 0int,
{
    if let JsonValue::Obj(f) = v {
        assert(f.take(f.len() as int) =~= f);
        lemma_merging_own_fields(f, f.len() as int);
    }
}

// ---------------------------------------------------------------------------
// Passwords
// ---------------------------------------------------------------------------

/// What is shown of the value of a field: of a password, whether there is one.
pub open spec fn shown(name: Seq<char>, value: JsonValue) -> JsonValue
    decreases value, 1int,
{
    match value {
        JsonValue::Str(t) => if name == "password"@ && t.len() > 0 {
            JsonValue::Str("****"@)
        } else {
            value
        },
        _ => masked(value),
    }
}

/// A document with every password masked.
pub open spec fn masked(v: JsonValue) -> JsonValue
    decreases v, 0int,
{
    match v {
        JsonValue::Obj(f) => JsonValue::Obj(masked_fields(f)),
        _ => v,
    }
}

/// The fields of an object with every password masked.
pub open spec fn masked_fields(f: Fields) -> Fields
    decreases f, 0int,
{
    if f.len() == 0 {
        seq![]
    } else {
        masked_fields(f.drop_last()).push((f.last().0, shown(f.last().0, f.last().1)))
    }
}

/// Masks every password of a document: a text that is set shows as `****`, one
/// that is not as it is.
pub fn mask_passwords(v: Json) -> (j: Json)
    ensures
        j@ == masked(v@),
    decreases v,
{
    match v {
        Json::Obj(f) => {
            let ghost all = f@;
            let mut f = f;
            let mut out: Vec<(String, Json)> = Vec::new();
            let ghost mut n: int = 0;
            proof {
                assert(all.take(0) =~= seq![]);
                assert(f@ =~= all.skip(0));
                assert(out@ =~= seq![]);
            }
            while f.len() > 0
                invariant
                    0 <= n <= all.len(),
                    f@ == all.skip(n),
                    v is Obj,
                    all == (v->Obj_0)@,
                    obj_values(out@) == masked_fields(obj_values(all.take(n))),
                decreases f.len(),
            {
                let ghost before = out@;
                let (name, value) = f.remove(0);
                let ghost v0 = value;
                proof {
                    assert(all.skip(n).remove(0) =~= all.skip(n + 1));
                    assert(all[n] == (name, value));
                    assert(decreases_to!(v => v->Obj_0));
                    assert(decreases_to!(all => all[n]));
                    assert(decreases_to!(all[n] => all[n].1));
                    assert(all.take(n + 1).drop_last() =~= all.take(n));
                    assert(all.take(n + 1).last() == all[n]);
                    let q = obj_values(all.take(n + 1));
                    assert(q.drop_last() =~= obj_values(all.take(n)));
                    assert(q.last() == (name@, json_value(value)));
                }
                let new = match value {
                    Json::Str(t) => if same_text(name.as_str(), "password")
                        && !t.as_str().is_empty() {
                        string("****")
                    } else {
                        Json::Str(t)
                    },
                    other => mask_passwords(other),
                };
                proof {
                    assert(new@ == shown(name@, v0@));
                }
                out.push((name, new));
                proof {
                    assert(out@.last() == (name, new));
                    assert(out@.drop_last() =~= before);
                    n = n + 1;
                }
            }
            proof {
                assert(all.take(n) =~= all);
            }
            Json::Obj(out)
        },
        other => other,
    }
}

/// The value of a field of a document.
pub open spec fn stored_value(v: JsonValue, name: Seq<char>) -> JsonValue {
    match v {
        JsonValue::Obj(f) => match field_of(f, name) {
            Some(value) => value,
            None => JsonValue::Null,
        },
        _ => JsonValue::Null,
    }
}

/// A value of a partial document, given the stored one: a masked password
/// stands for the stored text.
pub open spec fn restored(name: Seq<char>, value: JsonValue, stored: JsonValue) -> JsonValue
    decreases value, 1int,
{
    match value {
        JsonValue::Str(t) => if name == "password"@ && t == "****"@ && stored is Str {
            stored
        } else {
            value
        },
        _ => unmasked(value, stored),
    }
}

/// A partial document with every masked password restored from the stored one.
pub open spec fn unmasked(patch: JsonValue, stored: JsonValue) -> JsonValue
    decreases patch, 0int,
{
    match patch {
        JsonValue::Obj(p) => JsonValue::Obj(unmasked_fields(p, stored)),
        _ => patch,
    }
}

/// The fields of a partial document with every masked password restored.
pub open spec fn unmasked_fields(p: Fields, stored: JsonValue) -> Fields
    decreases p, 0int,
{
    if p.len() == 0 {
        seq![]
    } else {
        let (name, value) = p.last();
        unmasked_fields(p.drop_last(), stored).push(
            (name, restored(name, value, stored_value(stored, name))),
        )
    }
}

fn field_in<'a>(v: &'a Json, name: &str) -> (value: Option<&'a Json>)
    ensures
        match value {
            Some(j) => j@ == stored_value(v@, name@),
            None => stored_value(v@, name@) is Null,
        },
{
    match v {
        Json::Obj(f) => {
            let i: usize = find_field(f, name);
            proof {
                lemma_obj_values(f@);
            }
            if i < f.len() {
                proof {
                    assert(obj_values(f@)[i as int] == (f@[i as int].0@, json_value(f@[i as int].1)));
                }
                Some(&f[i].1)
            } else {
                None
            }
        },
        _ => None,
    }
}

/// Restores every masked password of a partial document from the stored one.
pub fn unmask_passwords(patch: Json, stored: &Json) -> (j: Json)
    ensures
        j@ == unmasked(patch@, stored@),
    decreases patch,
{
    match patch {
        Json::Obj(p) => {
            let ghost all = p@;
            let mut p = p;
            let mut out: Vec<(String, Json)> = Vec::new();
            let ghost mut n: int = 0;
            proof {
                assert(all.take(0) =~= seq![]);
                assert(p@ =~= all.skip(0));
                assert(out@ =~= seq![]);
            }
            while p.len() > 0
                invariant
                    0 <= n <= all.len(),
                    p@ == all.skip(n),
                    patch is Obj,
                    all == (patch->Obj_0)@,
                    obj_values(out@) == unmasked_fields(obj_values(all.take(n)), stored@),
                decreases p.len(),
            {
                let ghost before = out@;
                let (name, value) = p.remove(0);
                let ghost v0 = value;
                proof {
                    assert(all.skip(n).remove(0) =~= all.skip(n + 1));
                    assert(all[n] == (name, value));
                    assert(decreases_to!(patch => patch->Obj_0));
                    assert(decreases_to!(all => all[n]));
                    assert(decreases_to!(all[n] => all[n].1));
                    assert(all.take(n + 1).drop_last() =~= all.take(n));
                    assert(all.take(n + 1).last() == all[n]);
                    let q = obj_values(all.take(n + 1));
                    assert(q.drop_last() =~= obj_values(all.take(n)));
                    assert(q.last() == (name@, json_value(value)));
                }
                let held = field_in(stored, name.as_str());
                let new = match value {
                    Json::Str(t) => {
                        let is_mask = same_text(name.as_str(), "password") && same_text(
                            t.as_str(),
                            "****",
                        );
                        match held {
                            Some(Json::Str(s)) => if is_mask {
                                string(s.as_str())
                            } else {
                                Json::Str(t)
                            },
                            _ => Json::Str(t),
                        }
                    },
                    other => match held {
                        Some(h) => unmask_passwords(other, h),
                        None => unmask_passwords(other, &Json::Null),
                    },
                };
                proof {
                    assert(new@ == restored(name@, v0@, stored_value(stored@, name@)));
                }
                out.push((name, new));
                proof {
                    assert(out@.last() == (name, new));
                    assert(out@.drop_last() =~= before);
                    n = n + 1;
                }
            }
            proof {
                assert(all.take(n) =~= all);
            }
            Json::Obj(out)
        },
        other => other,
    }
}

/// The document that a partial one asks for: its masked passwords are
/// restored, and it is merged into the stored one.
pub open spec fn asked_document(stored: JsonValue, patch: JsonValue) -> JsonValue {
    merged(stored, unmasked(patch, stored))
}

/// Makes the document that a partial one asks for.
pub fn ask_document(stored: Json, patch: Json) -> (j: Json)
    ensures
        j@ == asked_document(stored@, patch@),
{
    let patch = unmask_passwords(patch, &stored);
    merge_json(stored, patch)
}

proof fn lemma_unmasking_fields(f: Fields, n: int)
    requires
        0 <= n <= f.len(),
        distinct_fields(f),
        forall|i: int| 0 <= i < f.len() ==> is_plain((#[trigger] f[i]).1),
    ensures
        unmasked_fields(masked_fields(f.take(n)), JsonValue::Obj(f)) == f.take(n),
    decreases f, n,
{
    if n == 0 {
        assert(f.take(0) =~= seq![]);
    } else {
        let part = f.take(n);
        let (name, value) = f[n - 1];
        assert(part.drop_last() =~= f.take(n - 1));
        assert(part.last() == f[n - 1]);
        lemma_unmasking_fields(f, n - 1);
        let m = masked_fields(part);
        assert(m.drop_last() =~= masked_fields(f.take(n - 1)));
        assert(m.last() == (name, shown(name, value)));
        lemma_field_from_at(f, name, 0, n - 1);
        assert(stored_value(JsonValue::Obj(f), name) == value);
        assert(decreases_to!(f => f[n - 1]));
        if value !is Str {
            masking_is_undone(value);
        } else {
            reveal_strlit("****");
        }
        assert(restored(name, shown(name, value), value) == value);
        assert(f.take(n - 1).push(f[n - 1]) =~= part);
    }
}

/// Restoring the passwords of a masked document from the document itself gives
/// the document back.
pub proof fn masking_is_undone(v: JsonValue)
    requires
        is_plain(v),
    ensures
        unmasked(masked(v), v) == v,
    decreases v, 0int,
{
    if let JsonValue::Obj(f) = v {
        assert(f.take(f.len() as int) =~= f);
        lemma_unmasking_fields(f, f.len() as int);
    }
}

/// A client that sends back the masked document that it was given asks for the
/// stored one, passwords and all.
pub proof fn masked_documents_change_nothing(v: JsonValue)
    requires
        is_plain(v),
    ensures
        asked_document(v, masked(v)) == v,
{
    masking_is_undone(v);
    own_document_changes_nothing(v);
}

proof fn lemma_unmasked_names(p: Fields, stored: JsonValue)
    ensures
        unmasked_fields(p, stored).len() == p.len(),
        forall|i: int|
            0 <= i < p.len() ==> (#[trigger] unmasked_fields(p, stored)[i]).0 == p[i].0,
    decreases p.len(),
{
    if p.len() > 0 {
        let rest = p.drop_last();
        lemma_unmasked_names(rest, stored);
        assert forall|i: int| 0 <= i < p.len() implies (#[trigger] unmasked_fields(
            p,
            stored,
        )[i]).0 == p[i].0 by {
            if i < p.len() - 1 {
                assert(unmasked_fields(p, stored)[i] == unmasked_fields(rest, stored)[i]);
                assert(rest[i] == p[i]);
            }
        }
    }
}

/// What a partial document does not name is asked for as it is stored.
pub proof fn absent_sections_survive(stored: Fields, patch: Fields, name: Seq<char>)
    requires
        field_of(patch, name) is None,
    ensures
        stored_value(asked_document(JsonValue::Obj(stored), JsonValue::Obj(patch)), name)
            == stored_value(JsonValue::Obj(stored), name),
{
    let p = unmasked_fields(patch, JsonValue::Obj(stored));
    lemma_unmasked_names(patch, JsonValue::Obj(stored));
    lemma_field_from(patch, name, 0);
    assert forall|k: int| 0 <= k < p.len() implies (#[trigger] p[k]).0 != name by {
        assert(patch[k].0 != name);
    }
    lemma_field_from_at(p, name, 0, p.len() as int);
    fields_not_named_stay(stored, p, name);
}

/// An empty partial document changes nothing.
pub proof fn empty_patch_changes_nothing(base: Fields)
    ensures
        merged(JsonValue::Obj(base), JsonValue::Obj(seq![])) == JsonValue::Obj(base),
{
    assert(merged_fields(base, seq![]) == base);
}

/// Whether a document gives no password away: every text under that name, as
/// far as objects stand in objects, is empty or four stars.
pub open spec fn keeps_passwords(v: JsonValue) -> bool
    decreases v,
{
    match v {
        JsonValue::Obj(f) => forall|i: int|
            0 <= i < f.len() ==> {
                let value = (#[trigger] f[i]).1;
                &&& f[i].0 == "password"@ && value is Str ==> value->Str_0.len() == 0
                    || value->Str_0 == seq!['*', '*', '*', '*']
                &&& keeps_passwords(value)
            },
        _ => true,
    }
}

proof fn lemma_fields_keep_passwords(f: Fields, n: int)
    requires
        0 <= n <= f.len(),
    ensures
        masked_fields(f.take(n)).len() == n,
        forall|i: int|
            0 <= i < n ==> {
                let field = #[trigger] masked_fields(f.take(n))[i];
                &&& field.0 == f[i].0
                &&& field.1 == shown(f[i].0, f[i].1)
                &&& field.0 == "password"@ && field.1 is Str ==> field.1->Str_0.len() == 0
                    || field.1->Str_0 == seq!['*', '*', '*', '*']
                &&& keeps_passwords(field.1)
            },
    decreases f, n,
{
    reveal_strlit("****");
    assert("****"@ =~= seq!['*', '*', '*', '*']);
    if n > 0 {
        let part = f.take(n);
        assert(part.drop_last() =~= f.take(n - 1));
        assert(part.last() == f[n - 1]);
        lemma_fields_keep_passwords(f, n - 1);
        assert(decreases_to!(f => f[n - 1]));
        if f[n - 1].1 is Obj {
            masked_documents_keep_passwords(f[n - 1].1);
        }
    }
}

/// No document gives a password away once it is masked.
pub proof fn masked_documents_keep_passwords(v: JsonValue)
    ensures
        keeps_passwords(masked(v)),
    decreases v, 0int,
{
    if let JsonValue::Obj(f) = v {
        assert(f.take(f.len() as int) =~= f);
        lemma_fields_keep_passwords(f, f.len() as int);
    }
}

/// Masking changes passwords that are set and nothing else: every field keeps
/// its place and its name, and its value where that is no object and no such
/// password.
pub proof fn only_passwords_are_masked(f: Fields, i: int)
    requires
        0 <= i < f.len(),
    ensures
        masked(JsonValue::Obj(f)) is Obj,
        masked(JsonValue::Obj(f))->Obj_0.len() == f.len(),
        masked(JsonValue::Obj(f))->Obj_0[i].0 == f[i].0,
        f[i].1 is Obj ==> masked(JsonValue::Obj(f))->Obj_0[i].1 == masked(f[i].1),
        f[i].1 !is Obj && (f[i].1 !is Str || f[i].0 != "password"@ || f[i].1->Str_0.len() == 0)
            ==> masked(JsonValue::Obj(f))->Obj_0[i].1 == f[i].1,
{
    assert(f.take(f.len() as int) =~= f);
    lemma_fields_keep_passwords(f, f.len() as int);
}

/// A new password is taken as it is; four stars stand for the one that is
/// stored; and every other text is taken as it is.
pub proof fn new_texts_are_taken(name: Seq<char>, text: Seq<char>, old_text: Seq<char>, v: JsonValue)
    ensures
        text != seq!['*', '*', '*', '*'] ==> restored(name, JsonValue::Str(text), v)
            == JsonValue::Str(text),
        name != "password"@ ==> restored(name, JsonValue::Str(text), v) == JsonValue::Str(text),
        restored("password"@, JsonValue::Str(seq!['*', '*', '*', '*']), JsonValue::Str(old_text))
            == JsonValue::Str(old_text),
{
    reveal_strlit("****");
    assert("****"@ =~= seq!['*', '*', '*', '*']);
}

/// What is merged into a document replaces what stood there, unless both are
/// objects.
pub proof fn patches_replace(base: JsonValue, patch: JsonValue)
    ensures
        patch !is Obj ==> merged(base, patch) == patch,
        base !is Obj ==> merged(base, patch) == patch,
{
}

} // verus!
