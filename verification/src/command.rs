use crate::envelope::{failure_v, ok_result_v, EnvResp, EnvRespV, Status};
use crate::json::{lemma_pairs_jv, lemma_seq_jv, pairs_jv, seq_jv, Json, JsonV};
use crate::text::{trim_spec, trim_str};
use vstd::prelude::*;

verus! {

/// True of the value shapes a command argument may take: everything but
/// arrays and objects.
pub open spec fn is_scalar(v: JsonV) -> bool {
    !(v is Arr) && !(v is Obj)
}

/// The canonical text of a scalar argument: a string is itself, a number its
/// decimal text, a boolean `true`/`false`, a null the empty string.
pub open spec fn scalar_text(v: JsonV) -> Seq<char> {
    match v {
        JsonV::Str(s) => s,
        JsonV::Num(s) => s,
        JsonV::Bool(b) => if b {
            "true"@
        } else {
            "false"@
        },
        _ => Seq::empty(),
    }
}

/// Every element of `a` is a scalar.
pub open spec fn all_scalars(a: Seq<JsonV>) -> bool {
    forall|i: int| 0 <= i < a.len() ==> is_scalar(#[trigger] a[i])
}

/// The index of the argument slot that carries script text and is trimmed.
pub open spec fn script_slot() -> int {
    3
}

/// The normalized text of argument `i` of `a`: its canonical text, trimmed
/// when it sits in the script slot.
pub open spec fn norm_arg(a: Seq<JsonV>, i: int) -> Seq<char> {
    if i == script_slot() {
        trim_spec(scalar_text(a[i]))
    } else {
        scalar_text(a[i])
    }
}

/// The ordered argument list a flat array of scalars normalizes to.
pub open spec fn command_of(a: Seq<JsonV>) -> Seq<Seq<char>> {
    Seq::new(a.len(), |i: int| norm_arg(a, i))
}

/// The rejection text for a top-level value that is not an array.
pub open spec fn msg_invalid_command() -> Seq<char> {
    "Invalid command array."@
}

/// The rejection text for a command element that is not a scalar.
pub open spec fn msg_bad_types() -> Seq<char> {
    "Invalid command array. Expected strings, numbers, or booleans."@
}

/// The rejection text for a batch element that is not an array.
pub open spec fn msg_expected_arrays() -> Seq<char> {
    "Expected an array of string arrays."@
}

/// Turns one scalar into its canonical text; refuses arrays and objects.
fn coerce_scalar(v: &Json) -> (r: Option<String>)
    ensures
        r is Some <==> is_scalar(v.jv()),
        r is Some ==> r->0@ == scalar_text(v.jv()),
{
    match v {
        Json::Str(s) => Some(s.clone()),
        Json::Num(s) => Some(s.clone()),
        Json::Bool(b) => Some(
            if *b {
                String::from_str("true")
            } else {
                String::from_str("false")
            },
        ),
        Json::Null => Some(String::new()),
        _ => None,
    }
}

/// Normalizes one flat argument array under the strict policy: every element
/// must be a scalar, and the script slot is trimmed.  A non-scalar element
/// rejects the whole command with `malformed_data`, and nothing of it runs.
pub fn normalize_command(args: &Vec<Json>) -> (r: Result<Vec<String>, EnvResp>)
    ensures
        r is Ok <==> all_scalars(seq_jv(args@)),
        r is Ok ==> r->Ok_0.deep_view() == command_of(seq_jv(args@)),
        r is Err ==> r->Err_0@ == failure_v(Status::MalformedData, msg_bad_types()),
{
    let n = args.len();
    let mut out: Vec<String> = Vec::new();
    let mut i: usize = 0;
    while i < n
        invariant
            n == args@.len(),
            i <= n,
            out@.len() == i,
            forall|j: int| 0 <= j < i ==> is_scalar(#[trigger] args@[j].jv()),
            forall|j: int|
                0 <= j < i ==> #[trigger] out@[j]@ == (if j == script_slot() {
                    trim_spec(scalar_text(args@[j].jv()))
                } else {
                    scalar_text(args@[j].jv())
                }),
        decreases n - i,
    {
        match coerce_scalar(&args[i]) {
            Some(s) => {
                if i == 3 {
                    out.push(trim_str(s.as_str()));
                } else {
                    out.push(s);
                }
            },
            None => {
                proof {
                    lemma_seq_jv(args@);
                    assert(!is_scalar(seq_jv(args@)[i as int]));
                }
                return Err(
                    EnvResp::failure(
                        Status::MalformedData,
                        "Invalid command array. Expected strings, numbers, or booleans.",
                    ),
                );
            },
        }
        i += 1;
    }
    proof {
        lemma_seq_jv(args@);
        assert(out.deep_view() =~= command_of(seq_jv(args@)));
    }
    Ok(out)
}

/// What a batch of command arrays normalizes to: each element must itself be
/// an array of scalars; the first offending element decides the rejection.
pub open spec fn batch_norm_spec(items: Seq<JsonV>) -> Result<Seq<Seq<Seq<char>>>, EnvRespV>
    decreases items.len(),
{
    if items.len() == 0 {
        Ok(Seq::empty())
    } else if !(items[0] is Arr) {
        Err(failure_v(Status::MalformedData, msg_expected_arrays()))
    } else if !all_scalars(items[0]->Arr_0) {
        Err(failure_v(Status::MalformedData, msg_bad_types()))
    } else {
        match batch_norm_spec(items.drop_first()) {
            Ok(rest) => Ok(seq![command_of(items[0]->Arr_0)] + rest),
            Err(e) => Err(e),
        }
    }
}

/// Normalizes the batch elements `items[from..]`, mirroring
/// [`batch_norm_spec`] on that suffix.
fn batch_norm_rec(items: &Vec<Json>, from: usize) -> (r: Result<Vec<Vec<String>>, EnvResp>)
    requires
        from <= items@.len(),
    ensures
        r is Ok <==> batch_norm_spec(seq_jv(items@).skip(from as int)) is Ok,
        r is Ok ==> Ok::<_, EnvRespV>(r->Ok_0.deep_view()) == batch_norm_spec(
            seq_jv(items@).skip(from as int),
        ),
        r is Err ==> Err::<Seq<Seq<Seq<char>>>, _>(r->Err_0@) == batch_norm_spec(
            seq_jv(items@).skip(from as int),
        ),
    decreases items@.len() - from,
{
    let ghost s = seq_jv(items@);
    proof {
        lemma_seq_jv(items@);
    }
    let n = items.len();
    if from == n {
        let empty: Vec<Vec<String>> = Vec::new();
        proof {
            assert(empty.deep_view() =~= Seq::<Seq<Seq<char>>>::empty());
        }
        return Ok(empty);
    }
    proof {
        assert(s.skip(from as int)[0] == s[from as int]);
    }
    match &items[from] {
        Json::Arr(args) => {
            match normalize_command(args) {
                Ok(cmd) => {
                    match batch_norm_rec(items, from + 1) {
                        Ok(mut rest) => {
                            let ghost grest = rest.deep_view();
                            let ghost gcmd = cmd.deep_view();
                            rest.insert(0, cmd);
                            proof {
                                assert(s.skip(from as int).drop_first() =~= s.skip(
                                    from as int + 1,
                                ));
                                assert(rest.deep_view() =~= seq![gcmd] + grest);
                            }
                            Ok(rest)
                        },
                        Err(e) => {
                            proof {
                                assert(s.skip(from as int).drop_first() =~= s.skip(
                                    from as int + 1,
                                ));
                            }
                            Err(e)
                        },
                    }
                },
                Err(e) => Err(e),
            }
        },
        _ => {
            Err(EnvResp::failure(Status::MalformedData, "Expected an array of string arrays."))
        },
    }
}

/// What the batch-only routes make of a request body: a non-array top level
/// is rejected, everything else is normalized as a batch.
pub open spec fn plan_pipeline_spec(b: JsonV) -> Result<Seq<Seq<Seq<char>>>, EnvRespV> {
    if !(b is Arr) {
        Err(failure_v(Status::MalformedData, msg_expected_arrays()))
    } else {
        batch_norm_spec(b->Arr_0)
    }
}

/// Normalizes a request body for the batch-only routes.
pub fn plan_pipeline(body: &Json) -> (r: Result<Vec<Vec<String>>, EnvResp>)
    ensures
        r is Ok <==> plan_pipeline_spec(body.jv()) is Ok,
        r is Ok ==> Ok::<_, EnvRespV>(r->Ok_0.deep_view()) == plan_pipeline_spec(body.jv()),
        r is Err ==> Err::<Seq<Seq<Seq<char>>>, _>(r->Err_0@) == plan_pipeline_spec(body.jv()),
{
    match body {
        Json::Arr(items) => {
            proof {
                assert(seq_jv(items@).skip(0) =~= seq_jv(items@));
            }
            batch_norm_rec(items, 0)
        },
        _ => {
            Err(EnvResp::failure(Status::MalformedData, "Expected an array of string arrays."))
        },
    }
}

/// A request plan: one command, or a batch of commands.
#[derive(Debug, PartialEq)]
pub enum Plan {
    Single(Vec<String>),
    Batch(Vec<Vec<String>>),
}

/// The mathematical shape of a [`Plan`].
pub enum PlanV {
    Single(Seq<Seq<char>>),
    Batch(Seq<Seq<Seq<char>>>),
}

impl Plan {
    /// The abstraction of this plan.
    pub open spec fn pv(self) -> PlanV {
        match self {
            Plan::Single(c) => PlanV::Single(c.deep_view()),
            Plan::Batch(b) => PlanV::Batch(b.deep_view()),
        }
    }
}

/// What the auto-detecting root route makes of a request body: a non-array
/// top level is rejected; an array whose first element is an array is a
/// batch; anything else is a single command.
pub open spec fn plan_root_spec(b: JsonV) -> Result<PlanV, EnvRespV> {
    if !(b is Arr) {
        Err(failure_v(Status::MalformedData, msg_invalid_command()))
    } else {
        let a = b->Arr_0;
        if a.len() > 0 && a[0] is Arr {
            match batch_norm_spec(a) {
                Ok(cs) => Ok(PlanV::Batch(cs)),
                Err(e) => Err(e),
            }
        } else {
            if all_scalars(a) {
                Ok(PlanV::Single(command_of(a)))
            } else {
                Err(failure_v(Status::MalformedData, msg_bad_types()))
            }
        }
    }
}

/// Normalizes a request body for the auto-detecting root route.
pub fn plan_root(body: &Json) -> (r: Result<Plan, EnvResp>)
    ensures
        r is Ok <==> plan_root_spec(body.jv()) is Ok,
        r is Ok ==> Ok::<_, EnvRespV>(r->Ok_0.pv()) == plan_root_spec(body.jv()),
        r is Err ==> Err::<PlanV, _>(r->Err_0@) == plan_root_spec(body.jv()),
{
    match body {
        Json::Arr(items) => {
            proof {
                lemma_seq_jv(items@);
            }
            let batch = items.len() > 0 && matches!(&items[0], Json::Arr(_));
            if batch {
                proof {
                    assert(seq_jv(items@).skip(0) =~= seq_jv(items@));
                }
                match batch_norm_rec(items, 0) {
                    Ok(cs) => Ok(Plan::Batch(cs)),
                    Err(e) => Err(e),
                }
            } else {
                match normalize_command(items) {
                    Ok(c) => Ok(Plan::Single(c)),
                    Err(e) => Err(e),
                }
            }
        },
        _ => Err(EnvResp::failure(Status::MalformedData, "Invalid command array.")),
    }
}

/// The outcome the execution collaborator reports for one command of a
/// batch: a reply value, or a per-command failure message.
#[derive(Debug, PartialEq)]
pub enum CmdOutcome {
    Value(Json),
    Failure(String),
}

/// The mathematical shape of a [`CmdOutcome`].
pub enum CmdOutcomeV {
    Value(JsonV),
    Failure(Seq<char>),
}

impl CmdOutcome {
    /// The abstraction of this outcome.
    pub open spec fn ov(self) -> CmdOutcomeV {
        match self {
            CmdOutcome::Value(v) => CmdOutcomeV::Value(v.jv()),
            CmdOutcome::Failure(m) => CmdOutcomeV::Failure(m@),
        }
    }
}

/// The abstraction of a sequence of outcomes, element by element.
pub open spec fn seq_ov(l: Seq<CmdOutcome>) -> Seq<CmdOutcomeV> {
    Seq::new(l.len(), |i: int| l[i].ov())
}

/// The result-list entry one outcome renders to: a success is a two-field
/// `status`/`result` object, a failure a two-field `status`/`error` object.
pub open spec fn outcome_entry_v(o: CmdOutcomeV) -> JsonV {
    match o {
        CmdOutcomeV::Value(v) => JsonV::Obj(
            seq![("status"@, JsonV::Str("ok"@)), ("result"@, v)],
        ),
        CmdOutcomeV::Failure(m) => JsonV::Obj(
            seq![("status"@, JsonV::Str("error"@)), ("error"@, JsonV::Str(m))],
        ),
    }
}

/// The result list a batch of outcomes renders to, in the batch's order.
pub open spec fn outcome_entries_v(l: Seq<CmdOutcomeV>) -> Seq<JsonV> {
    Seq::new(l.len(), |i: int| outcome_entry_v(l[i]))
}

/// Builds the two-field object one outcome renders to.
fn outcome_entry(o: &CmdOutcome) -> (r: Json)
    ensures
        r.jv() == outcome_entry_v(o.ov()),
{
    let mut m: Vec<(String, Json)> = Vec::new();
    match o {
        CmdOutcome::Value(v) => {
            let ghost gv = v.jv();
            m.push((String::from_str("status"), Json::Str(String::from_str("ok"))));
            m.push((String::from_str("result"), crate::json::clone_json(v)));
            proof {
                lemma_pairs_jv(m@);
                assert(pairs_jv(m@) =~= seq![("status"@, JsonV::Str("ok"@)), ("result"@, gv)]);
            }
        },
        CmdOutcome::Failure(msg) => {
            let ghost gm = msg@;
            m.push((String::from_str("status"), Json::Str(String::from_str("error"))));
            m.push((String::from_str("error"), Json::Str(msg.clone())));
            proof {
                lemma_pairs_jv(m@);
                assert(pairs_jv(m@) =~= seq![
                    ("status"@, JsonV::Str("error"@)),
                    ("error"@, JsonV::Str(gm)),
                ]);
            }
        },
    }
    Json::Obj(m)
}

/// Wraps what the collaborator answered for a single command: its value on
/// success, or its message under the `error` status on failure.
pub fn single_envelope(outcome: Result<Json, String>) -> (r: EnvResp)
    ensures
        outcome is Ok ==> r@ == ok_result_v(outcome->Ok_0.jv()),
        outcome is Err ==> r@ == failure_v(Status::Error, outcome->Err_0@),
        r@.wf(),
{
    match outcome {
        Ok(v) => EnvResp::ok_result(v),
        Err(m) => EnvResp::failure(Status::Error, m.as_str()),
    }
}

/// Wraps what the collaborator answered for a batch: one entry per command,
/// in order, under an overall success; or, when the whole call failed, its
/// message under the `error` status.
pub fn pipeline_envelope(outcome: Result<Vec<CmdOutcome>, String>) -> (r: EnvResp)
    ensures
        outcome is Ok ==> r@ == ok_result_v(
            JsonV::Arr(outcome_entries_v(seq_ov(outcome->Ok_0@))),
        ),
        outcome is Err ==> r@ == failure_v(Status::Error, outcome->Err_0@),
        r@.wf(),
{
    match outcome {
        Ok(list) => {
            let n = list.len();
            let mut out: Vec<Json> = Vec::new();
            let mut i: usize = 0;
            while i < n
                invariant
                    n == list@.len(),
                    i <= n,
                    out@.len() == i,
                    forall|j: int|
                        0 <= j < i ==> #[trigger] out@[j].jv() == outcome_entry_v(list@[j].ov()),
                decreases n - i,
            {
                out.push(outcome_entry(&list[i]));
                i += 1;
            }
            proof {
                lemma_seq_jv(out@);
                assert(seq_jv(out@) =~= outcome_entries_v(seq_ov(list@)));
            }
            EnvResp::ok_result(Json::Arr(out))
        },
        Err(m) => EnvResp::failure(Status::Error, m.as_str()),
    }
}

} // verus!
