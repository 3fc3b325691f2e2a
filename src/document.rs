use vstd::prelude::*;

verus! {

/// A number of a document, as its decoder found it.
#[derive(Debug, PartialEq, Eq)]
pub enum JsonNumber {
    /// A non-negative integer.
    Unsigned(u64),
    /// A negative integer.
    Negative(i64),
    /// Any other number, held as its decimal text.
    Decimal(String),
}

/// The mathematical value of a number.
pub enum JsonNumberV {
    Unsigned(u64),
    Negative(i64),
    Decimal(Seq<char>),
}

impl View for JsonNumber {
    type V = JsonNumberV;

    open spec fn view(&self) -> JsonNumberV {
        match self {
            JsonNumber::Unsigned(u) => JsonNumberV::Unsigned(*u),
            JsonNumber::Negative(i) => JsonNumberV::Negative(*i),
            JsonNumber::Decimal(s) => JsonNumberV::Decimal(s@),
        }
    }
}

/// A structured document: null, booleans, numbers, strings, arrays and
/// objects whose members keep their order. Lookups by key find the first
/// member of that name, and an edit appends a member only where its key is
/// missing.
#[derive(Debug, PartialEq)]
pub enum Json {
    Null,
    Bool(bool),
    Number(JsonNumber),
    Str(String),
    Array(Vec<Json>),
    Object(Vec<(String, Json)>),
}

/// The mathematical value of a document.
pub enum JsonV {
    Null,
    Bool(bool),
    Number(JsonNumberV),
    Str(Seq<char>),
    Array(Seq<JsonV>),
    Object(Seq<(Seq<char>, JsonV)>),
}

impl View for Json {
    type V = JsonV;

    open spec fn view(&self) -> JsonV
        decreases self,
    {
        match self {
            Json::Null => JsonV::Null,
            Json::Bool(b) => JsonV::Bool(*b),
            Json::Number(n) => JsonV::Number(n@),
            Json::Str(s) => JsonV::Str(s@),
            Json::Array(items) => JsonV::Array(
                Seq::new(
                    items.len() as nat,
                    |i: int|
                        if 0 <= i < items.len() {
                            items[i].view()
                        } else {
                            JsonV::Null
                        },
                ),
            ),
            Json::Object(members) => JsonV::Object(
                Seq::new(
                    members.len() as nat,
                    |i: int|
                        if 0 <= i < members.len() {
                            (members[i].0@, members[i].1.view())
                        } else {
                            (Seq::empty(), JsonV::Null)
                        },
                ),
            ),
        }
    }
}

/// The values of a run of exec members.
pub open spec fn members_v(members: Seq<(String, Json)>) -> Seq<(Seq<char>, JsonV)> {
    Seq::new(members.len(), |i: int| (members[i].0@, members[i].1@))
}

/// The values of a run of exec items.
pub open spec fn items_v(items: Seq<Json>) -> Seq<JsonV> {
    Seq::new(items.len(), |i: int| items[i]@)
}

pub broadcast proof fn lemma_object_view(members: Vec<(String, Json)>)
    ensures
        #[trigger] Json::Object(members)@ == JsonV::Object(members_v(members@)),
{
    reveal_with_fuel(<Json as View>::view, 2);
    assert(Json::Object(members)@->Object_0 =~= members_v(members@));
}

pub broadcast proof fn lemma_array_view(items: Vec<Json>)
    ensures
        #[trigger] Json::Array(items)@ == JsonV::Array(items_v(items@)),
{
    reveal_with_fuel(<Json as View>::view, 2);
    assert(Json::Array(items)@->Array_0 =~= items_v(items@));
}

pub broadcast proof fn lemma_members_v_update(s: Seq<(String, Json)>, k: int, x: (String, Json))
    requires
        0 <= k < s.len(),
    ensures
        #[trigger] members_v(s.update(k, x)) == members_v(s).update(k, (x.0@, x.1@)),
{
    assert(members_v(s.update(k, x)) =~= members_v(s).update(k, (x.0@, x.1@)));
}

pub broadcast proof fn lemma_members_v_push(s: Seq<(String, Json)>, x: (String, Json))
    ensures
        #[trigger] members_v(s.push(x)) == members_v(s).push((x.0@, x.1@)),
{
    assert(members_v(s.push(x)) =~= members_v(s).push((x.0@, x.1@)));
}

pub broadcast proof fn lemma_members_v_remove(s: Seq<(String, Json)>, k: int)
    requires
        0 <= k < s.len(),
    ensures
        #[trigger] members_v(s.remove(k)) == members_v(s).remove(k),
{
    assert(members_v(s.remove(k)) =~= members_v(s).remove(k));
}

pub broadcast proof fn lemma_items_v_update(s: Seq<Json>, k: int, x: Json)
    requires
        0 <= k < s.len(),
    ensures
        #[trigger] items_v(s.update(k, x)) == items_v(s).update(k, x@),
{
    assert(items_v(s.update(k, x)) =~= items_v(s).update(k, x@));
}

pub broadcast proof fn lemma_items_v_push(s: Seq<Json>, x: Json)
    ensures
        #[trigger] items_v(s.push(x)) == items_v(s).push(x@),
{
    assert(items_v(s.push(x)) =~= items_v(s).push(x@));
}

pub broadcast proof fn lemma_items_v_remove(s: Seq<Json>, k: int)
    requires
        0 <= k < s.len(),
    ensures
        #[trigger] items_v(s.remove(k)) == items_v(s).remove(k),
{
    assert(items_v(s.remove(k)) =~= items_v(s).remove(k));
}

pub broadcast group group_document_lemmas {
    lemma_object_view,
    lemma_array_view,
    lemma_members_v_update,
    lemma_members_v_push,
    lemma_members_v_remove,
    lemma_items_v_update,
    lemma_items_v_push,
    lemma_items_v_remove,
    lemma_well_formed_object,
    lemma_well_formed_array,
}

/// The value of an optional document.
pub open spec fn opt_view(o: Option<Json>) -> Option<JsonV> {
    match o {
        Some(j) => Some(j@),
        None => None,
    }
}

/// The position of the first member named `key` at or after `i`, or -1.
pub open spec fn find_from(members: Seq<(Seq<char>, JsonV)>, key: Seq<char>, i: int) -> int
    decreases members.len() - i,
{
    if i < 0 || i >= members.len() {
        -1
    } else if members[i].0 == key {
        i
    } else {
        find_from(members, key, i + 1)
    }
}

/// The position of the first member named `key`, or -1 where there is none.
pub open spec fn key_index(members: Seq<(Seq<char>, JsonV)>, key: Seq<char>) -> int {
    find_from(members, key, 0)
}

/// The value of the first member named `key` of an object.
pub open spec fn member(doc: JsonV, key: Seq<char>) -> Option<JsonV> {
    match doc {
        JsonV::Object(m) => if key_index(m, key) >= 0 {
            Some(m[key_index(m, key)].1)
        } else {
            None
        },
        _ => None,
    }
}

/// `members` with the member named `key` given `value`: in place where the key
/// is present, appended where it is not.
pub open spec fn put_member(members: Seq<(Seq<char>, JsonV)>, key: Seq<char>, value: JsonV) -> Seq<
    (Seq<char>, JsonV),
> {
    let k = key_index(members, key);
    if k >= 0 {
        members.update(k, (key, value))
    } else {
        members.push((key, value))
    }
}

pub proof fn lemma_find_from_range(members: Seq<(Seq<char>, JsonV)>, key: Seq<char>, i: int)
    requires
        0 <= i,
    ensures
        find_from(members, key, i) == -1 || (i <= find_from(members, key, i) < members.len()
            && members[find_from(members, key, i)].0 == key),
    decreases members.len() - i,
{
    if i < members.len() && members[i].0 != key {
        lemma_find_from_range(members, key, i + 1);
    }
}

/// No two members share a key.
pub open spec fn distinct_keys(members: Seq<(Seq<char>, JsonV)>) -> bool {
    forall|i: int, j: int| 0 <= i < j < members.len() ==> members[i].0 != members[j].0
}

/// Every object in the document, at any depth, has distinct keys: the
/// document is a tree of ordered maps and arrays.
pub open spec fn well_formed(doc: JsonV) -> bool
    decreases doc, 0int,
{
    match doc {
        JsonV::Array(items) => items_well_formed(items, items.len() as int),
        JsonV::Object(m) => distinct_keys(m) && members_well_formed(m, m.len() as int),
        _ => true,
    }
}

/// The first `n` items are well formed.
pub open spec fn items_well_formed(items: Seq<JsonV>, n: int) -> bool
    decreases items, n,
{
    if n <= 0 || n > items.len() {
        true
    } else {
        items_well_formed(items, n - 1) && well_formed(items[n - 1])
    }
}

/// The values of the first `n` members are well formed.
pub open spec fn members_well_formed(members: Seq<(Seq<char>, JsonV)>, n: int) -> bool
    decreases members, n,
{
    if n <= 0 || n > members.len() {
        true
    } else {
        members_well_formed(members, n - 1) && well_formed(members[n - 1].1)
    }
}

proof fn lemma_items_well_formed(items: Seq<JsonV>, n: int)
    requires
        0 <= n <= items.len(),
    ensures
        items_well_formed(items, n) <==> forall|i: int| 0 <= i < n ==> #[trigger] well_formed(items[i]),
    decreases n,
{
    if n > 0 {
        lemma_items_well_formed(items, n - 1);
        assert(items_well_formed(items, n) == (items_well_formed(items, n - 1) && well_formed(
            items[n - 1],
        )));
        if items_well_formed(items, n) {
            assert forall|i: int| 0 <= i < n implies #[trigger] well_formed(items[i]) by {
                if i < n - 1 {
                    assert(well_formed(items[i]));
                }
            }
        }
        if forall|i: int| 0 <= i < n ==> #[trigger] well_formed(items[i]) {
            assert(well_formed(items[n - 1]));
            assert forall|i: int| 0 <= i < n - 1 implies #[trigger] well_formed(items[i]) by {
                assert(well_formed(items[i]));
            }
        }
    }
}

proof fn lemma_members_well_formed(members: Seq<(Seq<char>, JsonV)>, n: int)
    requires
        0 <= n <= members.len(),
    ensures
        members_well_formed(members, n) <==> forall|i: int|
            0 <= i < n ==> #[trigger] well_formed(members[i].1),
    decreases n,
{
    if n > 0 {
        lemma_members_well_formed(members, n - 1);
        assert(members_well_formed(members, n) == (members_well_formed(members, n - 1)
            && well_formed(members[n - 1].1)));
        if members_well_formed(members, n) {
            assert forall|i: int| 0 <= i < n implies #[trigger] well_formed(members[i].1) by {
                if i < n - 1 {
                    assert(well_formed(members[i].1));
                }
            }
        }
        if forall|i: int| 0 <= i < n ==> #[trigger] well_formed(members[i].1) {
            assert(well_formed(members[n - 1].1));
            assert forall|i: int| 0 <= i < n - 1 implies #[trigger] well_formed(members[i].1) by {
                assert(well_formed(members[i].1));
            }
        }
    }
}

pub broadcast proof fn lemma_well_formed_object(members: Seq<(Seq<char>, JsonV)>)
    ensures
        #[trigger] well_formed(JsonV::Object(members)) <==> distinct_keys(members) && forall|i: int|
            0 <= i < members.len() ==> #[trigger] well_formed(members[i].1),
{
    lemma_members_well_formed(members, members.len() as int);
}

pub broadcast proof fn lemma_well_formed_array(items: Seq<JsonV>)
    ensures
        #[trigger] well_formed(JsonV::Array(items)) <==> forall|i: int|
            0 <= i < items.len() ==> #[trigger] well_formed(items[i]),
{
    lemma_items_well_formed(items, items.len() as int);
}

pub proof fn lemma_key_missing(members: Seq<(Seq<char>, JsonV)>, key: Seq<char>, i: int)
    requires
        0 <= i,
        find_from(members, key, i) == -1,
    ensures
        forall|j: int| i <= j < members.len() ==> members[j].0 != key,
    decreases members.len() - i,
{
    if i < members.len() {
        lemma_key_missing(members, key, i + 1);
    }
}

/// The empty object `{}`.
pub open spec fn empty_object_v() -> JsonV {
    JsonV::Object(Seq::empty())
}

/// Text equality of two strings.
pub fn same_text(a: &str, b: &str) -> (r: bool)
    ensures
        r == (a@ == b@),
{
    let n = a.unicode_len();
    if n != b.unicode_len() {
        return false;
    }
    let mut i: usize = 0;
    while i < n
        invariant
            n == a@.len(),
            n == b@.len(),
            i <= n,
            a@.subrange(0, i as int) == b@.subrange(0, i as int),
        decreases n - i,
    {
        if a.get_char(i) != b.get_char(i) {
            return false;
        }
        assert(a@.subrange(0, i + 1) == a@.subrange(0, i as int).push(a@[i as int]));
        assert(b@.subrange(0, i + 1) == b@.subrange(0, i as int).push(b@[i as int]));
        i = i + 1;
    }
    assert(a@ == a@.subrange(0, n as int));
    assert(b@ == b@.subrange(0, n as int));
    true
}

impl JsonNumber {
    /// A copy of the number.
    pub fn copy(&self) -> (r: JsonNumber)
        ensures
            r@ == self@,
    {
        match self {
            JsonNumber::Unsigned(u) => JsonNumber::Unsigned(*u),
            JsonNumber::Negative(i) => JsonNumber::Negative(*i),
            JsonNumber::Decimal(s) => JsonNumber::Decimal(s.clone()),
        }
    }
}

impl Json {
    /// The empty object `{}`.
    pub fn empty_object() -> (r: Json)
        ensures
            r@ == empty_object_v(),
    {
        let r = Json::Object(Vec::new());
        assert(r@ =~= empty_object_v()) by {
            if let JsonV::Object(s) = r@ {
                assert(s =~= Seq::empty());
            }
        }
        r
    }

    /// A string value.
    pub fn string(s: &str) -> (r: Json)
        ensures
            r@ == JsonV::Str(s@),
    {
        Json::Str(String::from_str(s))
    }

    /// A deep copy of the document.
    pub fn copy(&self) -> (r: Json)
        ensures
            r@ == self@,
        decreases self@,
    {
        match self {
            Json::Null => Json::Null,
            Json::Bool(b) => Json::Bool(*b),
            Json::Number(n) => Json::Number(n.copy()),
            Json::Str(s) => Json::Str(s.clone()),
            Json::Array(items) => {
                let mut out: Vec<Json> = Vec::new();
                let mut i: usize = 0;
                proof {
                    lemma_array_view(*items);
                }
                while i < items.len()
                    invariant
                        self@ == JsonV::Array(items_v(items@)),
                        i <= items.len(),
                        out.len() == i,
                        forall|j: int| 0 <= j < i ==> (#[trigger] out[j])@ == items[j]@,
                    decreases items.len() - i,
                {
                    proof {
                        assert(decreases_to!(self@ => self@->Array_0));
                        assert(decreases_to!(self@->Array_0 => self@->Array_0[i as int]));
                    }
                    let c = items[i].copy();
                    out.push(c);
                    i = i + 1;
                }
                proof {
                    lemma_array_view(out);
                    lemma_array_view(*items);
                    assert(items_v(out@) =~= items_v(items@));
                }
                Json::Array(out)
            },
            Json::Object(members) => {
                let mut out: Vec<(String, Json)> = Vec::new();
                let mut i: usize = 0;
                proof {
                    lemma_object_view(*members);
                }
                while i < members.len()
                    invariant
                        self@ == JsonV::Object(members_v(members@)),
                        i <= members.len(),
                        out.len() == i,
                        forall|j: int|
                            0 <= j < i ==> (#[trigger] out[j]).0@ == members[j].0@ && out[j].1@
                                == members[j].1@,
                    decreases members.len() - i,
                {
                    let k = members[i].0.clone();
                    proof {
                        let m = self@->Object_0;
                        assert(decreases_to!(self@ => m));
                        assert(decreases_to!(m => m[i as int]));
                        assert(decreases_to!(m[i as int] => m[i as int].1));
                    }
                    let v = members[i].1.copy();
                    out.push((k, v));
                    i = i + 1;
                }
                proof {
                    lemma_object_view(out);
                    lemma_object_view(*members);
                    assert(members_v(out@) =~= members_v(members@));
                }
                Json::Object(out)
            },
        }
    }
}

/// The position of the first member named `key`.
pub fn find_member(members: &Vec<(String, Json)>, key: &str) -> (r: Option<usize>)
    ensures
        match r {
            Some(i) => i as int == key_index(members_v(members@), key@) && i < members.len(),
            None => key_index(members_v(members@), key@) == -1,
        },
{
    let ghost m = members_v(members@);
    let mut i: usize = 0;
    while i < members.len()
        invariant
            i <= members.len(),
            m == members_v(members@),
            key_index(m, key@) == find_from(m, key@, i as int),
        decreases members.len() - i,
    {
        if same_text(members[i].0.as_str(), key) {
            return Some(i);
        }
        i = i + 1;
    }
    None
}

/// The value of the first member named `key` where `doc` is an object.
pub fn get_member<'a>(doc: &'a Json, key: &str) -> (r: Option<&'a Json>)
    ensures
        match r {
            Some(v) => member(doc@, key@) == Some(v@),
            None => member(doc@, key@) is None,
        },
{
    match doc {
        Json::Object(members) => match find_member(members, key) {
            Some(i) => {
                proof {
                    lemma_object_view(*members);
                }
                Some(&members[i].1)
            },
            None => {
                proof {
                    lemma_object_view(*members);
                }
                None
            },
        },
        _ => None,
    }
}

} // verus!
