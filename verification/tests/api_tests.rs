use base64::Engine;
use serverless_redis::auth::authorize;
use serverless_redis::command::{
    pipeline_envelope, plan_pipeline, plan_root, single_envelope, CmdOutcome, Plan,
};
use serverless_redis::encode::write_resp;
use serverless_redis::envelope::{EnvResp, Status};
use serverless_redis::json::Json;

fn jstr(x: &str) -> Json {
    Json::Str(x.to_string())
}

fn jobj(pairs: Vec<(&str, Json)>) -> Json {
    Json::Obj(pairs.into_iter().map(|(k, v)| (k.to_string(), v)).collect())
}

fn expect_obj(v: Json) -> Vec<(String, Json)> {
    match v {
        Json::Obj(m) => m,
        other => panic!("expected an object, got {:?}", other),
    }
}

fn expect_arr(v: Json) -> Vec<Json> {
    match v {
        Json::Arr(a) => a,
        other => panic!("expected an array, got {:?}", other),
    }
}

#[test]
fn test_auth_failure() {
    assert!(!authorize(None, "", "secret_token"));
    let (code, body) = write_resp(EnvResp::unauthorized(), false);
    assert_eq!(code, 401);
    let m = expect_obj(body);
    assert_eq!(m.len(), 1);
    assert_eq!(m[0].0, "error");
}

#[test]
fn test_set_get_command() {
    // SET test_key "hello world"
    let body = Json::Arr(vec![jstr("SET"), jstr("test_key"), jstr("hello world")]);
    let plan = plan_root(&body).unwrap();
    assert_eq!(
        plan,
        Plan::Single(vec![
            "SET".to_string(),
            "test_key".to_string(),
            "hello world".to_string()
        ])
    );
    let (code, _) = write_resp(single_envelope(Ok(jstr("OK"))), false);
    assert_eq!(code, 200);

    // GET test_key answers the stored value
    let body = Json::Arr(vec![jstr("GET"), jstr("test_key")]);
    let plan = plan_root(&body).unwrap();
    assert_eq!(plan, Plan::Single(vec!["GET".to_string(), "test_key".to_string()]));
    let (code, out) = write_resp(single_envelope(Ok(jstr("hello world"))), false);
    assert_eq!(code, 200);
    assert_eq!(out, jobj(vec![("result", jstr("hello world"))]));
}

#[test]
fn test_pipeline() {
    let body = Json::Arr(vec![
        Json::Arr(vec![jstr("SET"), jstr("pipe_key"), jstr("pipe_val")]),
        Json::Arr(vec![jstr("GET"), jstr("pipe_key")]),
    ]);
    let cmds = plan_pipeline(&body).unwrap();
    assert_eq!(cmds.len(), 2);
    assert_eq!(cmds[0], vec!["SET".to_string(), "pipe_key".to_string(), "pipe_val".to_string()]);
    assert_eq!(cmds[1], vec!["GET".to_string(), "pipe_key".to_string()]);

    let outcomes = vec![CmdOutcome::Value(jstr("OK")), CmdOutcome::Value(jstr("pipe_val"))];
    let (code, out) = write_resp(pipeline_envelope(Ok(outcomes)), false);
    assert_eq!(code, 200);
    let results = expect_arr(out);
    assert_eq!(results.len(), 2);
    assert_eq!(
        results[1],
        jobj(vec![("status", jstr("ok")), ("result", jstr("pipe_val"))])
    );
}

#[test]
fn scenario_root_set_ok() {
    // POST / with ["SET","k","v"] and a valid credential answers {"result":"OK"}
    assert!(authorize(Some("Bearer test_token"), "", "test_token"));
    let body = Json::Arr(vec![jstr("SET"), jstr("k"), jstr("v")]);
    let plan = plan_root(&body).unwrap();
    assert_eq!(
        plan,
        Plan::Single(vec!["SET".to_string(), "k".to_string(), "v".to_string()])
    );
    let (code, out) = write_resp(single_envelope(Ok(jstr("OK"))), false);
    assert_eq!(code, 200);
    assert_eq!(out, jobj(vec![("result", jstr("OK"))]));
}

#[test]
fn scenario_root_nested_arrays_become_batch() {
    let body = Json::Arr(vec![
        Json::Arr(vec![jstr("SET"), jstr("k"), jstr("v")]),
        Json::Arr(vec![jstr("GET"), jstr("k")]),
    ]);
    match plan_root(&body).unwrap() {
        Plan::Batch(cmds) => {
            assert_eq!(cmds.len(), 2);
            assert_eq!(cmds[1], vec!["GET".to_string(), "k".to_string()]);
        }
        other => panic!("expected a batch plan, got {:?}", other),
    }
    let outcomes = vec![CmdOutcome::Value(jstr("OK")), CmdOutcome::Value(jstr("v"))];
    let (code, out) = write_resp(pipeline_envelope(Ok(outcomes)), false);
    assert_eq!(code, 200);
    let results = expect_arr(out);
    assert_eq!(results.len(), 2);
    assert_eq!(
        results[1],
        jobj(vec![("status", jstr("ok")), ("result", jstr("v"))])
    );
}

#[test]
fn scenario_non_array_body_is_malformed() {
    let body = jobj(vec![("not", jstr("an array"))]);
    let env = plan_root(&body).unwrap_err();
    let (code, out) = write_resp(env, false);
    assert_eq!(code, 400);
    assert_eq!(out, jobj(vec![("error", jstr("Invalid command array."))]));
}

#[test]
fn scenario_pipeline_partial_failure() {
    let body = Json::Arr(vec![
        Json::Arr(vec![jstr("SET"), jstr("a"), jstr("1")]),
        Json::Arr(vec![jstr("BADCMD")]),
    ]);
    let cmds = plan_pipeline(&body).unwrap();
    assert_eq!(cmds.len(), 2);
    let outcomes = vec![
        CmdOutcome::Value(jstr("OK")),
        CmdOutcome::Failure("ERR unknown command".to_string()),
    ];
    let (code, out) = write_resp(pipeline_envelope(Ok(outcomes)), false);
    assert_eq!(code, 200);
    let results = expect_arr(out);
    assert_eq!(results.len(), 2);
    assert_eq!(
        results[0],
        jobj(vec![("status", jstr("ok")), ("result", jstr("OK"))])
    );
    assert_eq!(
        results[1],
        jobj(vec![("status", jstr("error")), ("error", jstr("ERR unknown command"))])
    );
}

#[test]
fn scenario_base64_encoding_round_trip() {
    // the base64 mode replaces a string result with text that decodes back
    let (code, out) = write_resp(single_envelope(Ok(jstr("OK"))), true);
    assert_eq!(code, 200);
    let m = expect_obj(out);
    assert_eq!(m.len(), 1);
    assert_eq!(m[0].0, "result");
    let encoded = match &m[0].1 {
        Json::Str(s) => s.clone(),
        other => panic!("expected a string result, got {:?}", other),
    };
    assert_ne!(encoded, "OK");
    let decoded = base64::engine::general_purpose::STANDARD
        .decode(encoded.as_bytes())
        .unwrap();
    assert_eq!(decoded, b"OK".to_vec());
}

#[test]
fn bearer_header_authorizes() {
    assert!(authorize(Some("Bearer test_token"), "", "test_token"));
    assert!(!authorize(Some("Bearer wrong"), "", "test_token"));
    assert!(!authorize(Some("test_token"), "", "test_token"));
    assert!(!authorize(Some("bearer test_token"), "", "test_token"));
    assert!(!authorize(Some("Bearer test_token "), "", "test_token"));
}

#[test]
fn query_token_authorizes() {
    assert!(authorize(None, "_token=test_token", "test_token"));
    assert!(authorize(None, "qstash_token=test_token", "test_token"));
    assert!(authorize(None, "a=1&_token=test_token&b=2", "test_token"));
    assert!(!authorize(None, "_token=wrong", "test_token"));
    assert!(!authorize(None, "token=test_token", "test_token"));
    assert!(!authorize(None, "_token", "test_token"));
}

#[test]
fn query_token_is_percent_decoded() {
    assert!(authorize(None, "_token=my%20secret", "my secret"));
    assert!(authorize(None, "_token=a%2Fb", "a/b"));
    // a malformed escape passes through unchanged
    assert!(authorize(None, "_token=a%2", "a%2"));
    assert!(!authorize(None, "_token=my%20secret", "my%20secret"));
}

#[test]
fn header_wins_even_with_bad_query() {
    assert!(authorize(Some("Bearer tok"), "_token=wrong", "tok"));
    assert!(authorize(None, "_token=tok", "tok"));
}
