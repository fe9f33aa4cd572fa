use vstd::prelude::*;

verus! {

/// A JSON-like value as it crosses the core: the closed set of shapes a
/// request body or a store reply can take.  Numbers are carried as their
/// canonical decimal text, which is the only thing the core ever reads of
/// them; objects are ordered lists of key/value pairs.
#[derive(Debug, PartialEq)]
pub enum Json {
    Null,
    Bool(bool),
    Num(String),
    Str(String),
    Arr(Vec<Json>),
    Obj(Vec<(String, Json)>),
}

/// The mathematical shape of a [`Json`] value: every string becomes a
/// `Seq<char>`, every vector a `Seq`.
pub enum JsonV {
    Null,
    Bool(bool),
    Num(Seq<char>),
    Str(Seq<char>),
    Arr(Seq<JsonV>),
    Obj(Seq<(Seq<char>, JsonV)>),
}

impl Json {
    /// The abstraction of this value as a [`JsonV`].
    pub open spec fn jv(self) -> JsonV
        decreases self,
        via Self::jv_decreases
    {
        match self {
            Json::Null => JsonV::Null,
            Json::Bool(b) => JsonV::Bool(b),
            Json::Num(s) => JsonV::Num(s@),
            Json::Str(s) => JsonV::Str(s@),
            Json::Arr(a) => JsonV::Arr(seq_jv(a@)),
            Json::Obj(m) => JsonV::Obj(pairs_jv(m@)),
        }
    }

    #[via_fn]
    proof fn jv_decreases(self) {
        match self {
            Json::Arr(a) => {
                assert(decreases_to!(self => a));
                assert(decreases_to!(a => a@));
                assert(decreases_to!(self => a@));
            },
            Json::Obj(m) => {
                assert(decreases_to!(self => m));
                assert(decreases_to!(m => m@));
                assert(decreases_to!(self => m@));
            },
            _ => {},
        }
    }
}

/// The abstraction of a sequence of values, element by element.
pub open spec fn seq_jv(a: Seq<Json>) -> Seq<JsonV>
    decreases a,
{
    if a.len() == 0 {
        Seq::empty()
    } else {
        seq![a[0].jv()] + seq_jv(a.drop_first())
    }
}

/// The abstraction of a sequence of object entries, entry by entry.
pub open spec fn pairs_jv(m: Seq<(String, Json)>) -> Seq<(Seq<char>, JsonV)>
    decreases m,
{
    if m.len() == 0 {
        Seq::empty()
    } else {
        seq![(m[0].0@, m[0].1.jv())] + pairs_jv(m.drop_first())
    }
}

/// `seq_jv` maps the sequence element by element.
pub proof fn lemma_seq_jv(a: Seq<Json>)
    ensures
        seq_jv(a).len() == a.len(),
        forall|i: int| 0 <= i < a.len() ==> seq_jv(a)[i] == a[i].jv(),
    decreases a.len(),
{
    if a.len() > 0 {
        lemma_seq_jv(a.drop_first());
    }
}

/// `pairs_jv` maps the sequence entry by entry.
pub proof fn lemma_pairs_jv(m: Seq<(String, Json)>)
    ensures
        pairs_jv(m).len() == m.len(),
        forall|i: int| 0 <= i < m.len() ==> pairs_jv(m)[i] == (m[i].0@, m[i].1.jv()),
    decreases m.len(),
{
    if m.len() > 0 {
        lemma_pairs_jv(m.drop_first());
    }
}

/// The position of the first entry of `m` whose key is `k`, or `m.len()`
/// when no entry has that key.
pub open spec fn key_index(m: Seq<(Seq<char>, JsonV)>, k: Seq<char>) -> int
    decreases m.len(),
{
    if m.len() == 0 {
        0
    } else if m[0].0 == k {
        0
    } else {
        1 + key_index(m.drop_first(), k)
    }
}

/// The value of the first entry of `m` keyed by `k`, if any.
pub open spec fn obj_get(m: Seq<(Seq<char>, JsonV)>, k: Seq<char>) -> Option<JsonV> {
    if key_index(m, k) < m.len() {
        Some(m[key_index(m, k)].1)
    } else {
        None
    }
}

/// `m` with the value of the first entry keyed by `k` replaced by `v`;
/// unchanged when no entry has that key.
pub open spec fn obj_set(m: Seq<(Seq<char>, JsonV)>, k: Seq<char>, v: JsonV) -> Seq<
    (Seq<char>, JsonV),
> {
    if key_index(m, k) < m.len() {
        m.update(key_index(m, k), (m[key_index(m, k)].0, v))
    } else {
        m
    }
}

/// The key position is in range, is preceded only by other keys, and lands on
/// `k` when an entry with that key exists.
pub proof fn lemma_key_index(m: Seq<(Seq<char>, JsonV)>, k: Seq<char>)
    ensures
        0 <= key_index(m, k) <= m.len(),
        forall|j: int| 0 <= j < key_index(m, k) ==> m[j].0 != k,
        key_index(m, k) < m.len() ==> m[key_index(m, k)].0 == k,
    decreases m.len(),
{
    if m.len() > 0 && m[0].0 != k {
        lemma_key_index(m.drop_first(), k);
        assert forall|j: int| 0 <= j < key_index(m, k) implies m[j].0 != k by {
            if j > 0 {
                assert(m.drop_first()[j - 1].0 != k);
            }
        }
    }
}

/// Any position preceded only by other keys, which is the end of the object
/// or holds the key `k`, is the key position.
pub proof fn lemma_key_index_unique(m: Seq<(Seq<char>, JsonV)>, k: Seq<char>, i: int)
    requires
        0 <= i <= m.len(),
        forall|j: int| 0 <= j < i ==> m[j].0 != k,
        i < m.len() ==> m[i].0 == k,
    ensures
        i == key_index(m, k),
{
    lemma_key_index(m, k);
    if i < key_index(m, k) {
        assert(m[i].0 != k);
    }
    if i > key_index(m, k) {
        assert(m[key_index(m, k)].0 != k);
    }
}

/// True exactly of JSON objects.
pub open spec fn spec_is_object(v: JsonV) -> bool {
    v is Obj
}

/// Whether `v` is a non-empty array all of whose elements are objects: the
/// shape a pipeline reply takes, which the transport body then carries
/// directly instead of wrapping it.
pub open spec fn spec_is_result_array(v: JsonV) -> bool {
    v is Arr && v->Arr_0.len() > 0 && forall|i: int|
        0 <= i < v->Arr_0.len() ==> spec_is_object(#[trigger] v->Arr_0[i])
}

/// Returns whether `v` is a JSON object.
pub fn is_object(v: &Json) -> (r: bool)
    ensures
        r == spec_is_object(v.jv()),
{
    match v {
        Json::Obj(_) => true,
        _ => false,
    }
}

/// Returns whether `v` is a non-empty array made entirely of objects.
pub fn is_result_array(v: &Json) -> (r: bool)
    ensures
        r == spec_is_result_array(v.jv()),
{
    match v {
        Json::Arr(a) => {
            proof {
                lemma_seq_jv(a@);
            }
            if a.len() == 0 {
                return false;
            }
            let n = a.len();
            let mut i: usize = 0;
            while i < n
                invariant
                    v.jv() == JsonV::Arr(seq_jv(a@)),
                    n == a@.len(),
                    i <= n,
                    forall|j: int| 0 <= j < i ==> spec_is_object(#[trigger] a@[j].jv()),
                decreases n - i,
            {
                if !is_object(&a[i]) {
                    proof {
                        lemma_seq_jv(a@);
                        assert(seq_jv(a@)[i as int] == a@[i as int].jv());
                    }
                    return false;
                }
                i += 1;
            }
            proof {
                lemma_seq_jv(a@);
            }
            true
        },
        _ => false,
    }
}

/// Returns a value with the same abstraction as `v`.
pub fn clone_json(v: &Json) -> (r: Json)
    ensures
        r.jv() == v.jv(),
    decreases *v,
{
    match v {
        Json::Null => Json::Null,
        Json::Bool(b) => Json::Bool(*b),
        Json::Num(s) => Json::Num(s.clone()),
        Json::Str(s) => Json::Str(s.clone()),
        Json::Arr(a) => {
            let n = a.len();
            let mut out: Vec<Json> = Vec::new();
            let mut i: usize = 0;
            while i < n
                invariant
                    *v == Json::Arr(*a),
                    n == a@.len(),
                    i <= n,
                    out@.len() == i,
                    forall|j: int| 0 <= j < i ==> #[trigger] out@[j].jv() == a@[j].jv(),
                decreases n - i,
            {
                proof {
                    assert((*v)->Arr_0 == *a);
                    assert(decreases_to!(*v => (*v)->Arr_0));
                    assert(decreases_to!(*a => a@[i as int]));
                    assert(decreases_to!(*v => a@[i as int]));
                }
                out.push(clone_json(&a[i]));
                i += 1;
            }
            proof {
                lemma_seq_jv(a@);
                lemma_seq_jv(out@);
                assert(seq_jv(out@) =~= seq_jv(a@));
            }
            Json::Arr(out)
        },
        Json::Obj(m) => {
            let n = m.len();
            let mut out: Vec<(String, Json)> = Vec::new();
            let mut i: usize = 0;
            while i < n
                invariant
                    *v == Json::Obj(*m),
                    n == m@.len(),
                    i <= n,
                    out@.len() == i,
                    forall|j: int|
                        0 <= j < i ==> #[trigger] out@[j].0@ == m@[j].0@ && out@[j].1.jv()
                            == m@[j].1.jv(),
                decreases n - i,
            {
                proof {
                    assert((*v)->Obj_0 == *m);
                    assert(decreases_to!(*v => (*v)->Obj_0));
                    assert(decreases_to!(*m => m@[i as int]));
                    assert(decreases_to!(m@[i as int] => m@[i as int].1));
                    assert(decreases_to!(*v => m@[i as int].1));
                }
                let key = m[i].0.clone();
                let val = clone_json(&m[i].1);
                out.push((key, val));
                i += 1;
            }
            proof {
                lemma_pairs_jv(m@);
                lemma_pairs_jv(out@);
                assert(pairs_jv(out@) =~= pairs_jv(m@));
            }
            Json::Obj(out)
        },
    }
}

} // verus!
