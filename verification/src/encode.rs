use crate::envelope::{EnvResp, EnvRespV, Status};
use crate::json::{
    clone_json, is_object, is_result_array, key_index, lemma_key_index, lemma_key_index_unique,
    lemma_pairs_jv, lemma_seq_jv, obj_get, obj_set, pairs_jv, seq_jv, spec_is_result_array, Json,
    JsonV,
};
use crate::text::str_eq;
use base64::Engine;
use vstd::prelude::*;

verus! {

/// The text that the `base64` crate's standard, padded engine produces for
/// the bytes of a string holding these characters.
pub uninterp spec fn base64_of(s: Seq<char>) -> Seq<char>;

/// Relies on `base64::engine::general_purpose::STANDARD` (the RFC 4648
/// standard alphabet, with padding): its output is a pure function of the
/// input bytes.  Its only panic, on an overflow while sizing the output,
/// needs an input longer than any real allocation can be.
#[verifier::external_body]
fn base64_encode(s: &str) -> (r: String)
    ensures
        r@ == base64_of(s@),
{
    base64::engine::general_purpose::STANDARD.encode(s.as_bytes())
}

/// A result value under base64 transcoding: strings become their base64
/// text, arrays are transcoded entry by entry, everything else is kept.
pub open spec fn encode_value_spec(v: JsonV) -> JsonV
    decreases v, 0nat,
{
    match v {
        JsonV::Str(s) => JsonV::Str(base64_of(s)),
        JsonV::Arr(a) => JsonV::Arr(encode_entries_spec(a)),
        _ => v,
    }
}

/// A result entry under base64 transcoding: an object has only its `result`
/// field transcoded; a null is kept; anything else is transcoded as a value.
pub open spec fn encode_entry_spec(v: JsonV) -> JsonV
    decreases v, 2nat,
    via encode_entry_spec_decreases
{
    match v {
        JsonV::Obj(m) => {
            match obj_get(m, "result"@) {
                Some(r) => JsonV::Obj(obj_set(m, "result"@, encode_value_spec(r))),
                None => v,
            }
        },
        JsonV::Null => v,
        _ => encode_value_spec(v),
    }
}

/// Entry-by-entry transcoding of an array of result entries.
pub open spec fn encode_entries_spec(a: Seq<JsonV>) -> Seq<JsonV>
    decreases a, 1nat,
    via encode_entries_spec_decreases
{
    if a.len() == 0 {
        Seq::empty()
    } else {
        seq![encode_entry_spec(a[0])] + encode_entries_spec(a.drop_first())
    }
}

#[via_fn]
proof fn encode_entry_spec_decreases(v: JsonV) {
    match v {
        JsonV::Obj(m) => {
            lemma_key_index(m, "result"@);
            if key_index(m, "result"@) < m.len() {
                let ki = key_index(m, "result"@);
                assert(decreases_to!(v => v->Obj_0));
                assert(decreases_to!(m => m[ki]));
                assert(decreases_to!(m[ki] => m[ki].1));
                assert(decreases_to!(v => m[ki].1));
            }
        },
        _ => {},
    }
}

#[via_fn]
proof fn encode_entries_spec_decreases(a: Seq<JsonV>) {
    if a.len() > 0 {
        assert(decreases_to!(a => a[0]));
    }
}

/// `encode_entries_spec` maps the sequence entry by entry.
pub proof fn lemma_encode_entries(a: Seq<JsonV>)
    ensures
        encode_entries_spec(a).len() == a.len(),
        forall|i: int| 0 <= i < a.len() ==> encode_entries_spec(a)[i] == encode_entry_spec(a[i]),
    decreases a.len(),
{
    if a.len() > 0 {
        lemma_encode_entries(a.drop_first());
    }
}

/// Applies [`encode_value_spec`] to `v`.
pub fn encode_result_value(v: &Json) -> (r: Json)
    ensures
        r.jv() == encode_value_spec(v.jv()),
    decreases *v, 0nat,
{
    match v {
        Json::Str(s) => Json::Str(base64_encode(s.as_str())),
        Json::Arr(a) => {
            let n = a.len();
            let mut out: Vec<Json> = Vec::new();
            let mut i: usize = 0;
            while i < n
                invariant
                    *v == Json::Arr(*a),
                    n == a@.len(),
                    i <= n,
                    out@.len() == i,
                    forall|j: int|
                        0 <= j < i ==> #[trigger] out@[j].jv() == encode_entry_spec(a@[j].jv()),
                decreases n - i,
            {
                proof {
                    assert((*v)->Arr_0 == *a);
                    assert(decreases_to!(*v => (*v)->Arr_0));
                    assert(decreases_to!(*a => a@[i as int]));
                    assert(decreases_to!(*v => a@[i as int]));
                }
                out.push(encode_result(&a[i]));
                i += 1;
            }
            proof {
                lemma_seq_jv(a@);
                lemma_seq_jv(out@);
                lemma_encode_entries(seq_jv(a@));
                assert(seq_jv(out@) =~= encode_entries_spec(seq_jv(a@)));
            }
            Json::Arr(out)
        },
        _ => clone_json(v),
    }
}

/// Applies [`encode_entry_spec`] to `v`.
pub fn encode_result(v: &Json) -> (r: Json)
    ensures
        r.jv() == encode_entry_spec(v.jv()),
    decreases *v, 2nat,
{
    match v {
        Json::Obj(m) => {
            let n = m.len();
            let mut idx: usize = 0;
            while idx < n && !str_eq(m[idx].0.as_str(), "result")
                invariant
                    *v == Json::Obj(*m),
                    n == m@.len(),
                    idx <= n,
                    forall|j: int| 0 <= j < idx ==> #[trigger] m@[j].0@ != "result"@,
                decreases n - idx,
            {
                idx += 1;
            }
            proof {
                lemma_pairs_jv(m@);
                lemma_key_index_unique(pairs_jv(m@), "result"@, idx as int);
            }
            if idx == n {
                // no `result` entry: the object passes through unchanged
                clone_json(v)
            } else {
                let ghost gm = pairs_jv(m@);
                let mut out: Vec<(String, Json)> = Vec::new();
                let mut j: usize = 0;
                while j < n
                    invariant
                        *v == Json::Obj(*m),
                        n == m@.len(),
                        j <= n,
                        idx < n,
                        out@.len() == j,
                        forall|t: int|
                            0 <= t < j ==> #[trigger] out@[t].0@ == m@[t].0@,
                        forall|t: int|
                            0 <= t < j && t != idx ==> #[trigger] out@[t].1.jv() == m@[t].1.jv(),
                        idx < j ==> out@[idx as int].1.jv() == encode_value_spec(
                            m@[idx as int].1.jv(),
                        ),
                    decreases n - j,
                {
                    let key = m[j].0.clone();
                    if j == idx {
                        proof {
                            assert((*v)->Obj_0 == *m);
                            assert(decreases_to!(*v => (*v)->Obj_0));
                            assert(decreases_to!(*m => m@[j as int]));
                            assert(decreases_to!(m@[j as int] => m@[j as int].1));
                            assert(decreases_to!(*v => m@[j as int].1));
                        }
                        let val = encode_result_value(&m[j].1);
                        out.push((key, val));
                    } else {
                        proof {
                            assert((*v)->Obj_0 == *m);
                            assert(decreases_to!(*v => (*v)->Obj_0));
                            assert(decreases_to!(*m => m@[j as int]));
                            assert(decreases_to!(m@[j as int] => m@[j as int].1));
                            assert(decreases_to!(*v => m@[j as int].1));
                        }
                        let val = clone_json(&m[j].1);
                        out.push((key, val));
                    }
                    j += 1;
                }
                proof {
                    lemma_pairs_jv(m@);
                    lemma_pairs_jv(out@);
                    lemma_key_index(gm, "result"@);
                    assert(pairs_jv(out@) =~= obj_set(
                        gm,
                        "result"@,
                        encode_value_spec(gm[idx as int].1),
                    ));
                }
                Json::Obj(out)
            }
        },
        Json::Null => Json::Null,
        _ => encode_result_value(v),
    }
}

/// A result-list entry under base64 transcoding: objects are transcoded as
/// result entries, any other shape passes through unchanged.
pub open spec fn encode_list_entry_spec(v: JsonV) -> JsonV {
    if v is Obj {
        encode_entry_spec(v)
    } else {
        v
    }
}

/// Entry-by-entry transcoding of a result list.
pub open spec fn encode_list_spec(l: Seq<JsonV>) -> Seq<JsonV> {
    Seq::new(l.len(), |i: int| encode_list_entry_spec(l[i]))
}

/// Applies [`encode_list_spec`] to a result list.
pub fn encode_response_list(l: &Vec<Json>) -> (r: Vec<Json>)
    ensures
        seq_jv(r@) == encode_list_spec(seq_jv(l@)),
{
    let n = l.len();
    let mut out: Vec<Json> = Vec::new();
    let mut i: usize = 0;
    while i < n
        invariant
            n == l@.len(),
            i <= n,
            out@.len() == i,
            forall|j: int|
                0 <= j < i ==> #[trigger] out@[j].jv() == encode_list_entry_spec(l@[j].jv()),
        decreases n - i,
    {
        if is_object(&l[i]) {
            out.push(encode_result(&l[i]));
        } else {
            out.push(clone_json(&l[i]));
        }
        i += 1;
    }
    proof {
        lemma_seq_jv(l@);
        lemma_seq_jv(out@);
        assert(seq_jv(out@) =~= encode_list_spec(seq_jv(l@)));
    }
    out
}

/// A whole envelope under base64 transcoding: only a success changes, and
/// only in its populated result slot.
pub open spec fn encode_envelope_spec(e: EnvRespV) -> EnvRespV {
    if e.status != Status::Okay {
        e
    } else if e.result_list is Some {
        EnvRespV {
            status: Status::Okay,
            result: None,
            result_list: Some(encode_list_spec(e.result_list->0)),
            error: None,
            message: None,
        }
    } else if e.result is Some {
        EnvRespV {
            status: Status::Okay,
            result: Some(encode_value_spec(e.result->0)),
            result_list: None,
            error: None,
            message: None,
        }
    } else {
        e
    }
}

/// Applies [`encode_envelope_spec`] to an envelope.
pub fn encode_response(resp: EnvResp) -> (r: EnvResp)
    ensures
        r@ == encode_envelope_spec(resp@),
{
    if !matches!(resp.status, Status::Okay) {
        return resp;
    }
    let EnvResp { status, result, result_list, error, message } = resp;
    match result_list {
        Some(list) => {
            let encoded = encode_response_list(&list);
            EnvResp {
                status: Status::Okay,
                result: None,
                result_list: Some(encoded),
                error: None,
                message: None,
            }
        },
        None => {
            match result {
                Some(rv) => {
                    let encoded = encode_result_value(&rv);
                    EnvResp {
                        status: Status::Okay,
                        result: Some(encoded),
                        result_list: None,
                        error: None,
                        message: None,
                    }
                },
                None => {
                    EnvResp { status, result: None, result_list: None, error, message }
                },
            }
        },
    }
}

/// The transport status code of each envelope status kind.
pub open spec fn spec_status_code(s: Status) -> u16 {
    match s {
        Status::Okay => 200,
        Status::NotFound => 404,
        Status::MalformedData => 400,
        Status::RedisError => 400,
        Status::Error => 400,
        Status::NotAuthorized => 401,
        Status::ConnectionError => 500,
    }
}

/// Executable twin of [`spec_status_code`].
pub fn status_code(s: Status) -> (r: u16)
    ensures
        r == spec_status_code(s),
{
    match s {
        Status::Okay => 200,
        Status::NotFound => 404,
        Status::MalformedData => 400,
        Status::RedisError => 400,
        Status::Error => 400,
        Status::NotAuthorized => 401,
        Status::ConnectionError => 500,
    }
}

/// The error text a failure body carries: the envelope's own, or a fixed
/// fallback when none was supplied.
pub open spec fn error_body_text(e: Option<Seq<char>>) -> Seq<char> {
    match e {
        Some(m) => m,
        None => "SRH: An error occurred internally"@,
    }
}

/// The transport body of an envelope: a success is the bare result list, or
/// the bare result when it already is an array of objects, or a one-field
/// `result` object; a failure is a one-field `error` object.
pub open spec fn body_spec(e: EnvRespV, encoding: bool) -> JsonV {
    let enc = if e.status == Status::Okay && encoding {
        encode_envelope_spec(e)
    } else {
        e
    };
    if enc.status == Status::Okay {
        if enc.result_list is Some {
            JsonV::Arr(enc.result_list->0)
        } else if enc.result is Some {
            if spec_is_result_array(enc.result->0) {
                enc.result->0
            } else {
                JsonV::Obj(seq![("result"@, enc.result->0)])
            }
        } else {
            JsonV::Obj(seq![("result"@, JsonV::Null)])
        }
    } else {
        JsonV::Obj(seq![("error"@, JsonV::Str(error_body_text(enc.error)))])
    }
}

/// Builds a one-entry object.
fn obj1(k: &str, v: Json) -> (r: Json)
    ensures
        r.jv() == JsonV::Obj(seq![(k@, v.jv())]),
{
    let ghost gv = v.jv();
    let mut m: Vec<(String, Json)> = Vec::new();
    m.push((k.to_owned(), v));
    proof {
        lemma_pairs_jv(m@);
        assert(pairs_jv(m@) =~= seq![(k@, gv)]);
    }
    Json::Obj(m)
}

/// Renders an envelope for transport: the status code it maps to, and the
/// response body, transcoded first when `encoding` asks for it.
pub fn write_resp(resp: EnvResp, encoding: bool) -> (r: (u16, Json))
    ensures
        r.0 == spec_status_code(resp@.status),
        r.1.jv() == body_spec(resp@, encoding),
{
    let code = status_code(resp.status);
    let resp2 = if encoding {
        encode_response(resp)
    } else {
        resp
    };
    let EnvResp { status, result, result_list, error, message: _ } = resp2;
    let body = if matches!(status, Status::Okay) {
        match result_list {
            Some(list) => Json::Arr(list),
            None => {
                match result {
                    Some(res) => {
                        if is_result_array(&res) {
                            res
                        } else {
                            obj1("result", res)
                        }
                    },
                    None => obj1("result", Json::Null),
                }
            },
        }
    } else {
        let msg = match error {
            Some(e) => e,
            None => String::from_str("SRH: An error occurred internally"),
        };
        obj1("error", Json::Str(msg))
    };
    (code, body)
}

} // verus!
