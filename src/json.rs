use vstd::prelude::*;

verus! {

/// A context value: the JSON data a template is rendered against.
///
/// A number is held as its shortest round-trip decimal text, which is also
/// the text it renders as; the library does not check that form, and
/// compares and emits the text as it is given. An object lists its entries;
/// a lookup takes the first entry with the wanted key, and two objects are
/// equal when they map the same keys to equal values (see `json_equal`).
#[derive(Debug)]
pub enum Json {
    Null,
    Bool(bool),
    Number(Vec<char>),
    Str(Vec<char>),
    Array(Vec<Json>),
    Object(Vec<Member>),
}

/// One entry of an object.
#[derive(Debug)]
pub struct Member {
    pub key: Vec<char>,
    pub value: Json,
}

/// The mathematical model of a context value.
pub enum JsonV {
    Null,
    Bool(bool),
    Number(Seq<char>),
    Str(Seq<char>),
    Array(Seq<JsonV>),
    /// The keys of the entries, and their values, in order.
    Object(Seq<Seq<char>>, Seq<JsonV>),
}

impl View for Json {
    type V = JsonV;

    open spec fn view(&self) -> JsonV
        decreases self,
    {
        match self {
            Json::Null => JsonV::Null,
            Json::Bool(b) => JsonV::Bool(*b),
            Json::Number(n) => JsonV::Number(n@),
            Json::Str(s) => JsonV::Str(s@),
            Json::Array(items) => JsonV::Array(
                Seq::new(
                    items.len() as nat,
                    |i: int|
                        if 0 <= i < items.len() {
                            items[i].view()
                        } else {
                            JsonV::Null
                        },
                ),
            ),
            Json::Object(entries) => JsonV::Object(
                Seq::new(
                    entries.len() as nat,
                    |i: int|
                        if 0 <= i < entries.len() {
                            entries[i].key@
                        } else {
                            Seq::empty()
                        },
                ),
                Seq::new(
                    entries.len() as nat,
                    |i: int|
                        if 0 <= i < entries.len() {
                            entries[i].value.view()
                        } else {
                            JsonV::Null
                        },
                ),
            ),
        }
    }
}

/// The value of the first entry whose key is `key`, among entries from `i` on.
pub open spec fn field_from(keys: Seq<Seq<char>>, values: Seq<JsonV>, key: Seq<char>, i: int) -> Option<JsonV>
    decreases keys.len() - i,
{
    if i < 0 || i >= keys.len() {
        None
    } else if keys[i] == key {
        Some(values[i])
    } else {
        field_from(keys, values, key, i + 1)
    }
}

/// The value of the first entry of an object whose key is `key`.
pub open spec fn field_of(keys: Seq<Seq<char>>, values: Seq<JsonV>, key: Seq<char>) -> Option<JsonV> {
    field_from(keys, values, key, 0)
}

/// Whether entry `i` is the first one with its key.
pub open spec fn first_with_key(keys: Seq<Seq<char>>, i: int) -> bool {
    forall|k: int| 0 <= k < i ==> keys[k] != keys[i]
}

/// Deep structural equality: values of different kinds differ, arrays are
/// equal item by item, and objects are equal as mappings from key to value,
/// where the first entry with a key is the one that counts.
pub open spec fn json_equal(a: JsonV, b: JsonV) -> bool
    decreases a, 0int,
{
    match (a, b) {
        (JsonV::Null, JsonV::Null) => true,
        (JsonV::Bool(x), JsonV::Bool(y)) => x == y,
        (JsonV::Number(x), JsonV::Number(y)) => x == y,
        (JsonV::Str(x), JsonV::Str(y)) => x == y,
        (JsonV::Array(xs), JsonV::Array(ys)) => xs.len() == ys.len() && forall|i: int|
            0 <= i < xs.len() ==> json_equal(#[trigger] xs[i], ys[i]),
        (JsonV::Object(ka, va), JsonV::Object(kb, vb)) => {
            &&& ka.len() == va.len()
            &&& entries_match_from(ka, va, kb, vb, 0)
            &&& forall|k: int| 0 <= k < kb.len() ==> (#[trigger] field_of(ka, va, kb[k])) is Some
        },
        _ => false,
    }
}

/// Whether each entry of the first object from `i` on that is the first with
/// its key has an equal value under that key in the second object.
pub open spec fn entries_match_from(
    ka: Seq<Seq<char>>,
    va: Seq<JsonV>,
    kb: Seq<Seq<char>>,
    vb: Seq<JsonV>,
    i: int,
) -> bool
    decreases va, va.len() - i,
{
    if i < 0 || i >= va.len() {
        true
    } else {
        &&& (first_with_key(ka, i) ==> {
            &&& field_of(kb, vb, ka[i]) is Some
            &&& json_equal(va[i], field_of(kb, vb, ka[i])->0)
        })
        &&& entries_match_from(ka, va, kb, vb, i + 1)
    }
}

/// The value of the first member of `members` whose key is `key`.
pub fn find_member<'a>(members: &'a Vec<Member>, key: &Vec<char>) -> (r: Option<&'a Json>)
    ensures
        ({
            let j = Json::Object(*members);
            match r {
                Some(v) => field_of(j@->Object_0, j@->Object_1, key@) == Some(v@),
                None => field_of(j@->Object_0, j@->Object_1, key@) is None,
            }
        }),
{
    let ghost j = Json::Object(*members);
    let ghost keys = j@->Object_0;
    let ghost values = j@->Object_1;
    let mut i: usize = 0;
    while i < members.len()
        invariant
            i <= members.len(),
            keys == j@->Object_0,
            values == j@->Object_1,
            j == Json::Object(*members),
            field_of(keys, values, key@) == field_from(keys, values, key@, i as int),
        decreases members.len() - i,
    {
        assert(keys[i as int] == members[i as int].key@);
        assert(values[i as int] == members[i as int].value@);
        if chars_eq(&members[i].key, key) {
            return Some(&members[i].value);
        }
        i = i + 1;
    }
    None
}

pub fn chars_eq(a: &Vec<char>, b: &Vec<char>) -> (r: bool)
    ensures
        r == (a@ == b@),
{
    if a.len() != b.len() {
        return false;
    }
    let mut i: usize = 0;
    while i < a.len()
        invariant
            a.len() == b.len(),
            i <= a.len(),
            a@.subrange(0, i as int) == b@.subrange(0, i as int),
        decreases a.len() - i,
    {
        if a[i] != b[i] {
            assert(a@[i as int] != b@[i as int]);
            return false;
        }
        assert(a@.subrange(0, i + 1) =~= a@.subrange(0, i as int).push(a@[i as int]));
        assert(b@.subrange(0, i + 1) =~= b@.subrange(0, i as int).push(b@[i as int]));
        i = i + 1;
    }
    assert(a@ =~= a@.subrange(0, i as int));
    assert(b@ =~= b@.subrange(0, i as int));
    true
}

/// Whether an entry before `i` has the key of entry `i`.
fn key_seen_before(members: &Vec<Member>, i: usize) -> (r: bool)
    requires
        i < members.len(),
    ensures
        r == !first_with_key(Json::Object(*members)@->Object_0, i as int),
{
    let ghost keys = Json::Object(*members)@->Object_0;
    let mut k: usize = 0;
    while k < i
        invariant
            i < members.len(),
            k <= i,
            keys == Json::Object(*members)@->Object_0,
            forall|m: int| 0 <= m < k ==> keys[m] != keys[i as int],
        decreases i - k,
    {
        assert(keys[k as int] == members[k as int].key@);
        assert(keys[i as int] == members[i as int].key@);
        if chars_eq(&members[k].key, &members[i].key) {
            assert(keys[k as int] == keys[i as int]);
            return true;
        }
        k = k + 1;
    }
    false
}

/// Deep structural equality of two context values (see `json_equal`).
pub fn json_eq(a: &Json, b: &Json) -> (r: bool)
    ensures
        r == json_equal(a@, b@),
    decreases a,
{
    match (a, b) {
        (Json::Null, Json::Null) => true,
        (Json::Bool(x), Json::Bool(y)) => *x == *y,
        (Json::Number(x), Json::Number(y)) => chars_eq(x, y),
        (Json::Str(x), Json::Str(y)) => chars_eq(x, y),
        (Json::Array(xs), Json::Array(ys)) => {
            if xs.len() != ys.len() {
                assert(a@->Array_0.len() != b@->Array_0.len());
                return false;
            }
            let ghost va = a@->Array_0;
            let ghost vb = b@->Array_0;
            let mut i: usize = 0;
            while i < xs.len()
                invariant
                    xs.len() == ys.len(),
                    i <= xs.len(),
                    va == a@->Array_0,
                    vb == b@->Array_0,
                    a@ is Array,
                    b@ is Array,
                    *a == Json::Array(*xs),
                    *b == Json::Array(*ys),
                    forall|k: int| 0 <= k < i ==> json_equal(#[trigger] va[k], vb[k]),
                decreases xs.len() - i,
            {
                assert(va[i as int] == xs[i as int]@);
                assert(vb[i as int] == ys[i as int]@);
                if !json_eq(&xs[i], &ys[i]) {
                    assert(!json_equal(va[i as int], vb[i as int]));
                    return false;
                }
                i = i + 1;
            }
            true
        },
        (Json::Object(xs), Json::Object(ys)) => {
            let ghost ka = a@->Object_0;
            let ghost va = a@->Object_1;
            let ghost kb = b@->Object_0;
            let ghost vb = b@->Object_1;
            assert(a@ == JsonV::Object(ka, va));
            assert(b@ == JsonV::Object(kb, vb));
            assert(ka.len() == va.len());
            let mut i: usize = 0;
            while i < xs.len()
                invariant
                    i <= xs.len(),
                    ka == a@->Object_0,
                    va == a@->Object_1,
                    kb == b@->Object_0,
                    vb == b@->Object_1,
                    va.len() == xs.len(),
                    *a == Json::Object(*xs),
                    *b == Json::Object(*ys),
                    entries_match_from(ka, va, kb, vb, 0) == entries_match_from(ka, va, kb, vb, i as int),
                decreases xs.len() - i,
            {
                assert(ka[i as int] == xs[i as int].key@);
                assert(va[i as int] == xs[i as int].value@);
                let seen = key_seen_before(xs, i);
                if !seen {
                    match find_member(ys, &xs[i].key) {
                        None => {
                            assert(!(field_of(kb, vb, ka[i as int]) is Some));
                            return false;
                        },
                        Some(v) => {
                            if !json_eq(&xs[i].value, v) {
                                assert(!json_equal(va[i as int], field_of(kb, vb, ka[i as int])->0));
                                return false;
                            }
                        },
                    }
                }
                i = i + 1;
            }
            let mut k: usize = 0;
            while k < ys.len()
                invariant
                    k <= ys.len(),
                    ka == a@->Object_0,
                    va == a@->Object_1,
                    kb == b@->Object_0,
                    vb == b@->Object_1,
                    kb.len() == ys.len(),
                    ka.len() == va.len(),
                    a@ == JsonV::Object(ka, va),
                    b@ == JsonV::Object(kb, vb),
                    entries_match_from(ka, va, kb, vb, 0),
                    *a == Json::Object(*xs),
                    *b == Json::Object(*ys),
                    forall|m: int| 0 <= m < k ==> (#[trigger] field_of(ka, va, kb[m])) is Some,
                decreases ys.len() - k,
            {
                assert(kb[k as int] == ys[k as int].key@);
                if find_member(xs, &ys[k].key).is_none() {
                    assert(!(field_of(ka, va, kb[k as int]) is Some));
                    return false;
                }
                k = k + 1;
            }
            true
        },
        _ => false,
    }
}

} // verus!
