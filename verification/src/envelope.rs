use crate::json::{seq_jv, Json, JsonV};
use vstd::prelude::*;

verus! {

/// The closed set of status kinds an envelope can carry.  `RedisError` is the
/// store-reported failure kind; it shares its transport code with `Error`.
#[derive(Clone, Copy, PartialEq, Eq, Structural, Debug)]
pub enum Status {
    Okay,
    Error,
    RedisError,
    MalformedData,
    NotFound,
    NotAuthorized,
    ConnectionError,
}

/// The canonical internal response record built for every request before
/// transport encoding.
#[derive(Debug, PartialEq)]
pub struct EnvResp {
    pub status: Status,
    pub result: Option<Json>,
    pub result_list: Option<Vec<Json>>,
    pub error: Option<String>,
    pub message: Option<String>,
}

/// The mathematical shape of an [`EnvResp`].
pub struct EnvRespV {
    pub status: Status,
    pub result: Option<JsonV>,
    pub result_list: Option<Seq<JsonV>>,
    pub error: Option<Seq<char>>,
    pub message: Option<Seq<char>>,
}

impl View for EnvResp {
    type V = EnvRespV;

    open spec fn view(&self) -> EnvRespV {
        EnvRespV {
            status: self.status,
            result: match self.result {
                Some(v) => Some(v.jv()),
                None => None,
            },
            result_list: match self.result_list {
                Some(l) => Some(seq_jv(l@)),
                None => None,
            },
            error: match self.error {
                Some(e) => Some(e@),
                None => None,
            },
            message: match self.message {
                Some(m) => Some(m@),
                None => None,
            },
        }
    }
}

impl EnvRespV {
    /// A success carries no error text and at most one of the two result
    /// slots; a failure carries no result at all.
    pub open spec fn wf(self) -> bool {
        &&& self.status == Status::Okay ==> self.error is None && !(self.result is Some
            && self.result_list is Some)
        &&& self.status != Status::Okay ==> self.result is None && self.result_list is None
    }
}

/// The failure envelope with status `status` and error text `msg`.
pub open spec fn failure_v(status: Status, msg: Seq<char>) -> EnvRespV {
    EnvRespV { status, result: None, result_list: None, error: Some(msg), message: None }
}

/// The success envelope holding one result value.
pub open spec fn ok_result_v(v: JsonV) -> EnvRespV {
    EnvRespV { status: Status::Okay, result: Some(v), result_list: None, error: None, message: None }
}

/// The success envelope holding a result list.
pub open spec fn ok_list_v(l: Seq<JsonV>) -> EnvRespV {
    EnvRespV { status: Status::Okay, result: None, result_list: Some(l), error: None, message: None }
}

impl EnvResp {
    /// Builds the success envelope around a single result value.
    pub fn ok_result(v: Json) -> (r: EnvResp)
        ensures
            r@ == ok_result_v(v.jv()),
            r@.wf(),
    {
        EnvResp { status: Status::Okay, result: Some(v), result_list: None, error: None, message: None }
    }

    /// Builds the success envelope around a result list.
    pub fn ok_list(l: Vec<Json>) -> (r: EnvResp)
        ensures
            r@ == ok_list_v(seq_jv(l@)),
            r@.wf(),
    {
        EnvResp { status: Status::Okay, result: None, result_list: Some(l), error: None, message: None }
    }

    /// Builds a failure envelope carrying `msg`.
    pub fn failure(status: Status, msg: &str) -> (r: EnvResp)
        requires
            status != Status::Okay,
        ensures
            r@ == failure_v(status, msg@),
            r@.wf(),
    {
        EnvResp {
            status,
            result: None,
            result_list: None,
            error: Some(msg.to_owned()),
            message: None,
        }
    }

    /// The fixed greeting served on the root route.
    pub fn welcome() -> (r: EnvResp)
        ensures
            r@ == ok_result_v(JsonV::Str("Welcome to HTTP Redis!"@)),
            r@.wf(),
    {
        EnvResp::ok_result(Json::Str(String::from_str("Welcome to HTTP Redis!")))
    }

    /// The envelope every route answers with when the credential check fails.
    pub fn unauthorized() -> (r: EnvResp)
        ensures
            r@ == failure_v(Status::NotAuthorized, "Unauthorized"@),
            r@.wf(),
    {
        EnvResp::failure(Status::NotAuthorized, "Unauthorized")
    }
}

} // verus!
