use crate::auth::{authorized_spec, query_grants};
use crate::command::{
    all_scalars, batch_norm_spec, command_of, msg_expected_arrays, msg_invalid_command, norm_arg,
    outcome_entries_v, outcome_entry_v, plan_pipeline_spec, plan_root_spec, scalar_text,
    script_slot, CmdOutcomeV,
};
use crate::encode::{body_spec, encode_value_spec, spec_status_code};
use crate::envelope::{failure_v, EnvRespV, Status};
use crate::json::JsonV;
use crate::text::trim_spec;
use vstd::prelude::*;

verus! {

/// Normalizing a flat array of scalars yields one string per element, each
/// the element's canonical text; only the script slot is trimmed first.
pub proof fn lemma_normalize_scalars(a: Seq<JsonV>)
    requires
        all_scalars(a),
    ensures
        command_of(a).len() == a.len(),
        forall|i: int|
            0 <= i < a.len() && i != script_slot() ==> command_of(a)[i] == scalar_text(a[i]),
        script_slot() < a.len() ==> command_of(a)[script_slot()] == trim_spec(
            scalar_text(a[script_slot()]),
        ),
{
    assert forall|i: int|
        0 <= i < a.len() && i != script_slot() implies command_of(a)[i] == scalar_text(a[i]) by {
        assert(command_of(a)[i] == norm_arg(a, i));
    }
}

/// A request whose top level is not an array is turned away as
/// `malformed_data` by every route, before any command is built, and that
/// status maps to the transport code 400.
pub proof fn lemma_non_array_rejected(b: JsonV)
    requires
        !(b is Arr),
    ensures
        plan_root_spec(b) == Err::<crate::command::PlanV, _>(
            failure_v(Status::MalformedData, msg_invalid_command()),
        ),
        plan_pipeline_spec(b) == Err::<Seq<Seq<Seq<char>>>, _>(
            failure_v(Status::MalformedData, msg_expected_arrays()),
        ),
        spec_status_code(Status::MalformedData) == 400,
{
}

/// A batch made entirely of flat scalar arrays normalizes to exactly one
/// command per element, in the batch's order.
pub proof fn lemma_batch_order_preserved(items: Seq<JsonV>)
    requires
        forall|i: int|
            0 <= i < items.len() ==> (#[trigger] items[i]) is Arr && all_scalars(
                items[i]->Arr_0,
            ),
    ensures
        batch_norm_spec(items) is Ok,
        batch_norm_spec(items)->Ok_0.len() == items.len(),
        forall|i: int|
            0 <= i < items.len() ==> batch_norm_spec(items)->Ok_0[i] == command_of(
                #[trigger] items[i]->Arr_0,
            ),
    decreases items.len(),
{
    if items.len() > 0 {
        assert(items[0] is Arr);
        lemma_batch_order_preserved(items.drop_first());
        assert forall|i: int|
            0 <= i < items.len() implies batch_norm_spec(items)->Ok_0[i] == command_of(
            #[trigger] items[i]->Arr_0,
        ) by {
            if i > 0 {
                assert(items.drop_first()[i - 1] == items[i]);
            }
        }
    }
}

/// A batch's rendered result list holds one entry per reported outcome, in
/// the same order.
pub proof fn lemma_result_list_order(l: Seq<CmdOutcomeV>)
    ensures
        outcome_entries_v(l).len() == l.len(),
        forall|i: int| 0 <= i < l.len() ==> outcome_entries_v(l)[i] == outcome_entry_v(l[i]),
{
}

/// Without the base64 mode, a single result reaches the transport body
/// unchanged: bare when it is an array of objects, wrapped in a one-field
/// `result` object otherwise.
pub proof fn lemma_no_encoding_keeps_result(e: EnvRespV)
    requires
        e.status == Status::Okay,
        e.result_list is None,
        e.result is Some,
    ensures
        body_spec(e, false) == (if crate::json::spec_is_result_array(e.result->0) {
            e.result->0
        } else {
            JsonV::Obj(seq![("result"@, e.result->0)])
        }),
{
}

/// With the base64 mode, a single string result reaches the transport body
/// as its base64 text, wrapped in a one-field `result` object.
pub proof fn lemma_encoding_string_result(e: EnvRespV, s: Seq<char>)
    requires
        e.status == Status::Okay,
        e.result_list is None,
        e.result == Some(JsonV::Str(s)),
    ensures
        body_spec(e, true) == JsonV::Obj(
            seq![("result"@, JsonV::Str(crate::encode::base64_of(s)))],
        ),
{
}

/// Transcoding is the identity on every result that is neither a string nor
/// an array, so for such a result the body does not depend on the base64
/// flag at all.
pub proof fn lemma_encode_scalar_noop(e: EnvRespV, v: JsonV)
    requires
        !(v is Str),
        !(v is Arr),
        e.status == Status::Okay,
        e.result_list is None,
        e.result == Some(v),
    ensures
        encode_value_spec(v) == v,
        body_spec(e, true) == body_spec(e, false),
{
}

/// A batch in which some commands failed and some succeeded still reports an
/// overall success: the failures sit inside the result list's entries, and
/// the transport code stays 200.
pub proof fn lemma_partial_failure_still_ok(l: Seq<CmdOutcomeV>)
    ensures
        crate::envelope::ok_result_v(JsonV::Arr(outcome_entries_v(l))).status == Status::Okay,
        spec_status_code(
            crate::envelope::ok_result_v(JsonV::Arr(outcome_entries_v(l))).status,
        ) == 200,
        forall|i: int|
            0 <= i < l.len() && l[i] is Failure ==> outcome_entries_v(l)[i] == outcome_entry_v(
                l[i],
            ) && outcome_entry_v(l[i]) is Obj,
{
}

/// The credential check is a plain disjunction: a valid bearer header
/// grants access whatever the query holds, and a valid query credential
/// grants access even without a header.
pub proof fn lemma_auth_fallback(
    header: Option<Seq<char>>,
    q: Seq<u8>,
    secret: Seq<char>,
    secret_bytes: Seq<u8>,
)
    ensures
        header is None ==> authorized_spec(header, q, secret, secret_bytes) == query_grants(
            q,
            secret_bytes,
        ),
        crate::auth::header_grants(header->0, secret) && header is Some ==> authorized_spec(
            header,
            q,
            secret,
            secret_bytes,
        ),
{
}

} // verus!
