use base64::Engine;
use serverless_redis::command::{normalize_command, plan_pipeline, plan_root, Plan};
use serverless_redis::encode::{
    encode_response, encode_response_list, encode_result, encode_result_value, status_code,
    write_resp,
};
use serverless_redis::envelope::{EnvResp, Status};
use serverless_redis::json::{is_object, is_result_array, Json};
use serverless_redis::text::trim_str;

fn jstr(x: &str) -> Json {
    Json::Str(x.to_string())
}

fn jobj(pairs: Vec<(&str, Json)>) -> Json {
    Json::Obj(pairs.into_iter().map(|(k, v)| (k.to_string(), v)).collect())
}

fn b64(x: &str) -> String {
    base64::engine::general_purpose::STANDARD.encode(x.as_bytes())
}

#[test]
fn normalizer_scalar_texts() {
    let args = vec![jstr("a"), Json::Num("42".to_string()), Json::Bool(true), Json::Null];
    let out = normalize_command(&args).unwrap();
    assert_eq!(
        out,
        vec!["a".to_string(), "42".to_string(), "true".to_string(), String::new()]
    );
    let args = vec![Json::Bool(false), Json::Num("-7.5".to_string())];
    let out = normalize_command(&args).unwrap();
    assert_eq!(out, vec!["false".to_string(), "-7.5".to_string()]);
}

#[test]
fn normalizer_trims_script_slot() {
    let args = vec![jstr("EVAL"), jstr("a"), jstr("b"), jstr("  return 1\n ")];
    let out = normalize_command(&args).unwrap();
    assert_eq!(out[3], "return 1");
    // only the script slot is trimmed
    let args = vec![jstr(" x "), jstr(" y "), jstr(" z "), jstr(" w "), jstr(" u ")];
    let out = normalize_command(&args).unwrap();
    assert_eq!(
        out,
        vec![
            " x ".to_string(),
            " y ".to_string(),
            " z ".to_string(),
            "w".to_string(),
            " u ".to_string()
        ]
    );
}

#[test]
fn normalizer_rejects_nested_values() {
    let args = vec![jstr("SET"), Json::Arr(vec![jstr("x")])];
    let env = normalize_command(&args).unwrap_err();
    assert_eq!(env.status, Status::MalformedData);
    assert_eq!(
        env.error,
        Some("Invalid command array. Expected strings, numbers, or booleans.".to_string())
    );
    let args = vec![jobj(vec![("k", jstr("v"))])];
    assert!(normalize_command(&args).is_err());
}

#[test]
fn pipeline_rejects_non_array_element() {
    let body = Json::Arr(vec![Json::Arr(vec![jstr("SET"), jstr("k"), jstr("v")]), jstr("GET")]);
    let env = plan_pipeline(&body).unwrap_err();
    assert_eq!(env.status, Status::MalformedData);
    assert_eq!(env.error, Some("Expected an array of string arrays.".to_string()));
}

#[test]
fn pipeline_rejects_non_array_body() {
    let env = plan_pipeline(&jstr("nope")).unwrap_err();
    assert_eq!(env.status, Status::MalformedData);
    assert_eq!(env.error, Some("Expected an array of string arrays.".to_string()));
}

#[test]
fn empty_batch_is_allowed() {
    let cmds = plan_pipeline(&Json::Arr(vec![])).unwrap();
    assert_eq!(cmds.len(), 0);
    let plan = plan_root(&Json::Arr(vec![])).unwrap();
    assert_eq!(plan, Plan::Single(vec![]));
}

#[test]
fn encoding_scalars_is_a_no_op() {
    assert_eq!(encode_result_value(&Json::Num("42".to_string())), Json::Num("42".to_string()));
    assert_eq!(encode_result_value(&Json::Bool(true)), Json::Bool(true));
    assert_eq!(encode_result_value(&Json::Null), Json::Null);
}

#[test]
fn encoding_transcodes_strings_and_arrays() {
    assert_eq!(encode_result_value(&jstr("v")), jstr(&b64("v")));
    let v = Json::Arr(vec![jstr("x"), Json::Num("1".to_string())]);
    assert_eq!(
        encode_result_value(&v),
        Json::Arr(vec![jstr(&b64("x")), Json::Num("1".to_string())])
    );
}

#[test]
fn encoding_touches_only_the_result_field() {
    let entry = jobj(vec![("status", jstr("ok")), ("result", jstr("v"))]);
    assert_eq!(
        encode_result(&entry),
        jobj(vec![("status", jstr("ok")), ("result", jstr(&b64("v")))])
    );
    let plain = jobj(vec![("status", jstr("error")), ("error", jstr("boom"))]);
    assert_eq!(encode_result(&plain), plain);
}

#[test]
fn encoding_list_passes_non_objects_through() {
    let list = vec![
        jobj(vec![("result", jstr("v"))]),
        jstr("bare"),
        jobj(vec![("error", jstr("boom"))]),
    ];
    let out = encode_response_list(&list);
    assert_eq!(out[0], jobj(vec![("result", jstr(&b64("v")))]));
    assert_eq!(out[1], jstr("bare"));
    assert_eq!(out[2], jobj(vec![("error", jstr("boom"))]));
}

#[test]
fn encode_response_only_touches_successes() {
    let env = EnvResp::failure(Status::Error, "boom");
    let out = encode_response(EnvResp::failure(Status::Error, "boom"));
    assert_eq!(out, env);
    let out = encode_response(EnvResp::ok_result(jstr("v")));
    assert_eq!(out.result, Some(jstr(&b64("v"))));
}

#[test]
fn write_resp_null_result() {
    let env = EnvResp {
        status: Status::Okay,
        result: None,
        result_list: None,
        error: None,
        message: None,
    };
    let (code, out) = write_resp(env, false);
    assert_eq!(code, 200);
    assert_eq!(out, jobj(vec![("result", Json::Null)]));
}

#[test]
fn write_resp_passes_result_arrays_bare() {
    let arr = Json::Arr(vec![jobj(vec![("result", jstr("a"))]), jobj(vec![("result", jstr("b"))])]);
    let (code, out) = write_resp(EnvResp::ok_result(arr), false);
    assert_eq!(code, 200);
    assert_eq!(
        out,
        Json::Arr(vec![jobj(vec![("result", jstr("a"))]), jobj(vec![("result", jstr("b"))])])
    );
    // an array holding a non-object is wrapped instead
    let arr = Json::Arr(vec![jstr("a")]);
    let (_, out) = write_resp(EnvResp::ok_result(arr), false);
    assert_eq!(out, jobj(vec![("result", Json::Arr(vec![jstr("a")]))]));
}

#[test]
fn write_resp_result_list_is_the_body() {
    let env = EnvResp::ok_list(vec![jobj(vec![("result", jstr("a"))]), jstr("x")]);
    let (code, out) = write_resp(env, false);
    assert_eq!(code, 200);
    assert_eq!(out, Json::Arr(vec![jobj(vec![("result", jstr("a"))]), jstr("x")]));
}

#[test]
fn write_resp_error_fallback_message() {
    let env = EnvResp {
        status: Status::Error,
        result: None,
        result_list: None,
        error: None,
        message: None,
    };
    let (code, out) = write_resp(env, false);
    assert_eq!(code, 400);
    assert_eq!(
        out,
        jobj(vec![("error", jstr("SRH: An error occurred internally"))])
    );
}

#[test]
fn status_code_mapping() {
    assert_eq!(status_code(Status::Okay), 200);
    assert_eq!(status_code(Status::NotFound), 404);
    assert_eq!(status_code(Status::MalformedData), 400);
    assert_eq!(status_code(Status::Error), 400);
    assert_eq!(status_code(Status::RedisError), 400);
    assert_eq!(status_code(Status::NotAuthorized), 401);
    assert_eq!(status_code(Status::ConnectionError), 500);
}

#[test]
fn trim_only_strips_edges() {
    assert_eq!(trim_str("  \t x\n "), "x");
    assert_eq!(trim_str("a b"), "a b");
    assert_eq!(trim_str(" \r\n\t "), "");
    assert_eq!(trim_str(""), "");
    assert_eq!(trim_str("x"), "x");
}

#[test]
fn result_array_shape_checks() {
    assert!(is_object(&jobj(vec![])));
    assert!(!is_object(&jstr("x")));
    assert!(is_result_array(&Json::Arr(vec![jobj(vec![])])));
    assert!(!is_result_array(&Json::Arr(vec![])));
    assert!(!is_result_array(&Json::Arr(vec![jobj(vec![]), jstr("x")])));
    assert!(!is_result_array(&jstr("x")));
}

#[test]
fn welcome_envelope_body() {
    let (code, out) = write_resp(EnvResp::welcome(), false);
    assert_eq!(code, 200);
    assert_eq!(out, jobj(vec![("result", jstr("Welcome to HTTP Redis!"))]));
}
