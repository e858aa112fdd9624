use serde_json::Value;
use web3_transports::error::{Error, TransportError};
use web3_transports::rpc::{Failure, Id, Output, Success, Version};
use web3_transports::transports::http::{
    batch_results, check_body, check_status, client_failure,
    handle_batch_response, handle_possible_error_object_for_batched_request, id_of_output, refusal,
    settle, single_result, Http,
};

fn value(text: &str) -> Value {
    serde_json::from_str(text).unwrap()
}

fn success(id: Id, result: &str) -> Output {
    Output::Success(Success { jsonrpc: Some(Version::V2), result: value(result), id })
}

fn failure(id: Id, code: i64) -> Output {
    Output::Failure(Failure { jsonrpc: Some(Version::V2), error: rpc_error(code), id })
}

fn rpc_error(code: i64) -> jsonrpc_core::Error {
    jsonrpc_core::Error {
        code: jsonrpc_core::ErrorCode::from(code),
        message: "m".to_string(),
        data: None,
    }
}

fn message(text: &str) -> Error {
    Error::Transport(TransportError::Message(text.to_string()))
}

fn invalid(text: &str) -> Error {
    Error::InvalidResponse(text.to_string())
}

#[test]
fn should_make_a_request() {
    let expected = r#"{"jsonrpc":"2.0","method":"eth_getAccounts","params":[],"id":0}"#;
    let response = r#"{"jsonrpc":"2.0","id":0,"result":"x"}"#;

    let mut client = Http::new(&format!("http://127.0.0.1:{}", 8545)).unwrap();
    let (id, call) = client.prepare("eth_getAccounts", vec![]);
    assert_eq!(id, 0);
    let post = client.send(call);
    assert_eq!(post.url, "http://127.0.0.1:8545/");
    assert_eq!(post.body, expected);

    assert_eq!(check_status(Ok(200)), Ok(()));
    let body = check_body(Ok(response.as_bytes().to_vec())).unwrap();
    let response = single_result(&body);
    assert!(response.is_ok());
    assert_eq!(response.unwrap(), Value::String("x".into()));
}

#[test]
fn a_url_has_to_be_one() {
    assert_eq!(
        Http::new("nowhere").map(|_| ()),
        Err(message("failed to parse url: relative URL without a base"))
    );
}

#[test]
fn a_batch_is_one_post_and_takes_an_id() {
    let mut client = Http::with_url("http://node/".to_string());
    let first = client.prepare("a", vec![]);
    let second = client.prepare("b", vec![value("1")]);
    let (ids, post) = client.send_batch(vec![first, second]);
    assert_eq!(ids, vec![0, 1]);
    assert_eq!(post.url, "http://node/");
    assert_eq!(
        post.body,
        format!(
            "[{},{}]",
            r#"{"jsonrpc":"2.0","method":"a","params":[],"id":0}"#,
            r#"{"jsonrpc":"2.0","method":"b","params":[1],"id":1}"#
        )
    );
    assert_eq!(client.next_id(), 3);
}

#[test]
fn every_failure_on_the_way_is_told() {
    assert_eq!(client_failure("x"), message("failed to build client: x"));
    assert_eq!(
        check_status(Err("no route".to_string())),
        Err(message("failed to send request: no route"))
    );
    assert_eq!(check_status(Ok(299)), Ok(()));
    assert_eq!(check_status(Ok(199)), Err(Error::Transport(TransportError::Code(199))));
    assert_eq!(check_status(Ok(300)), Err(Error::Transport(TransportError::Code(300))));
    assert_eq!(check_status(Ok(404)), Err(Error::Transport(TransportError::Code(404))));
    assert_eq!(
        check_body(Err("cut".to_string())),
        Err(message("failed to read response: cut"))
    );
}

#[test]
fn a_body_that_does_not_parse_is_quoted() {
    assert_eq!(
        batch_results(&[0], b"no\xff"),
        Err(message(
            "failed to deserialize response: expected ident at line 1 column 2: no\u{fffd}"
        ))
    );
    match single_result(b"[]") {
        Err(Error::Transport(TransportError::Message(text))) => {
            assert!(text.starts_with("failed to deserialize response: "));
            assert!(text.ends_with(": []"));
        }
        _ => panic!("an error was expected"),
    }
}

#[test]
fn an_error_object_fails_a_single_call() {
    assert_eq!(
        settle(failure(Id::Num(0), -32601)),
        Err(message(
            "failed to convert output to result: RPC error: Error { code: MethodNotFound, message: \"m\", data: None }"
        ))
    );
    assert_eq!(
        single_result(br#"{"jsonrpc":"2.0","id":0,"error":{"code":1,"message":"m"}}"#),
        Err(message(
            "failed to convert output to result: RPC error: Error { code: ServerError(1), message: \"m\", data: None }"
        ))
    );
}

#[test]
fn a_batch_answered_by_one_object_fails() {
    assert_eq!(
        batch_results(&[0], br#"{"jsonrpc":"2.0","id":null,"error":{"code":1,"message":"m"}}"#),
        Err(Error::Rpc(rpc_error(1)))
    );
    assert_eq!(
        handle_possible_error_object_for_batched_request(value(
            r#"{"jsonrpc":"2.0","id":3,"result":true}"#
        )),
        Err(invalid(
            "Invalid response for batched request: Success { jsonrpc: Some(V2), result: Bool(true), id: Num(3) }"
        ))
    );
    assert_eq!(
        refusal(Err("why".to_string())),
        message("failed to deserialize error object: why")
    );
    match handle_possible_error_object_for_batched_request(value("{}")) {
        Err(Error::Transport(TransportError::Message(text))) => {
            assert!(text.starts_with("failed to deserialize error object: "))
        }
        _ => panic!("an error was expected"),
    }
    match handle_possible_error_object_for_batched_request(value("3")) {
        Err(Error::Transport(TransportError::Message(text))) => assert_eq!(
            text,
            "failed to deserialize batch response: invalid type: integer `3`, expected a sequence"
        ),
        _ => panic!("an error was expected"),
    }
}

#[test]
fn a_batch_keeps_the_order_of_its_requests() {
    assert_eq!(
        handle_batch_response(
            &[4, 5, 6],
            vec![
                success(Id::Num(6), "\"c\""),
                success(Id::Num(4), "\"a\""),
                failure(Id::Num(5), 7)
            ]
        ),
        Ok(vec![Ok(value("\"a\"")), Err(Error::Rpc(rpc_error(7))), Ok(value("\"c\""))])
    );
    assert_eq!(
        batch_results(
            &[1, 2],
            br#"[{"jsonrpc":"2.0","id":2,"result":2},{"jsonrpc":"2.0","id":1,"result":1}]"#
        ),
        Ok(vec![Ok(value("1")), Ok(value("2"))])
    );
    assert_eq!(handle_batch_response(&[], vec![]), Ok(vec![]));
}

#[test]
fn a_batch_needs_a_response_to_every_request() {
    assert_eq!(
        handle_batch_response(&[1], vec![]),
        Err(invalid("unexpected number of responses"))
    );
    assert_eq!(
        handle_batch_response(
            &[1, 2],
            vec![success(Id::Num(1), "1"), success(Id::Str("2".to_string()), "2")]
        ),
        Err(invalid("response id is not u64"))
    );
    assert_eq!(
        handle_batch_response(&[1, 2], vec![success(Id::Num(1), "1"), success(Id::Num(1), "2")]),
        Err(invalid("batch response is missing id 2"))
    );
    assert_eq!(
        handle_batch_response(&[1, 1], vec![success(Id::Num(1), "1"), success(Id::Num(2), "2")]),
        Err(invalid("batch response is missing id 1"))
    );
}

#[test]
fn the_last_of_two_responses_counts() {
    assert_eq!(
        handle_batch_response(
            &[1, 2, 3],
            vec![
                success(Id::Num(1), "1"),
                success(Id::Num(2), "2"),
                success(Id::Num(1), "3")
            ]
        ),
        Err(invalid("batch response is missing id 3"))
    );
}

#[test]
fn the_id_of_a_response_is_a_number() {
    assert_eq!(id_of_output(&success(Id::Num(9), "1")), Ok(9));
    assert_eq!(
        id_of_output(&failure(Id::Null, 1)),
        Err(invalid("response id is not u64"))
    );
}
