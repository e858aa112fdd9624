use serde_json::Value;
use web3_transports::error::{Error, TransportError};
use web3_transports::helpers::{
    build_request, method_call, to_notification_from_slice, to_response_from_slice,
    to_result_from_output, to_results_from_outputs, to_string,
};
use web3_transports::rpc::{Id, Output, Params, Request, Response, Version};

fn value(text: &str) -> Value {
    serde_json::from_str(text).unwrap()
}

fn rpc_error(code: i64, message: &str) -> jsonrpc_core::Error {
    jsonrpc_core::Error {
        code: jsonrpc_core::ErrorCode::from(code),
        message: message.to_string(),
        data: None,
    }
}

#[test]
fn a_call_serialises() {
    let call = build_request(1, "eth_accounts", vec![Value::String("1".to_string())]);
    assert_eq!(
        to_string(&Request::Single(call)),
        r#"{"jsonrpc":"2.0","method":"eth_accounts","params":["1"],"id":1}"#
    );
}

#[test]
fn a_batch_serialises_in_order() {
    let first = build_request(1, "a", vec![]);
    let second = build_request(2, "b", vec![value("{\"x\":-1}")]);
    assert_eq!(
        to_string(&Request::Batch(vec![first, second])),
        concat_texts(
            r#"[{"jsonrpc":"2.0","method":"a","params":[],"id":1},"#,
            r#"{"jsonrpc":"2.0","method":"b","params":[{"x":-1}],"id":2}]"#
        )
    );
    assert_eq!(to_string(&Request::Batch(vec![])), "[]");
}

fn concat_texts(first: &str, second: &str) -> String {
    format!("{}{}", first, second)
}

#[test]
fn a_call_holds_what_it_was_built_from() {
    let call = method_call(7, "eth_call", vec![value("1"), value("\"latest\"")]);
    assert_eq!(call.jsonrpc, Some(Version::V2));
    assert_eq!(call.method, "eth_call");
    assert_eq!(call.id, Id::Num(7));
    assert_eq!(call.params, Params::Array(vec![value("1"), value("\"latest\"")]));
}

#[test]
fn a_single_response_is_read() {
    let response =
        to_response_from_slice(br#"{"jsonrpc":"2.0","id":1,"result":"x"}"#).unwrap();
    let output = match response {
        Response::Single(output) => output,
        Response::Batch(_) => panic!("a single response was expected"),
    };
    assert_eq!(output.id(), &Id::Num(1));
    assert_eq!(to_result_from_output(output), Ok(value("\"x\"")));
}

#[test]
fn a_failed_call_gives_its_error_object() {
    let response = to_response_from_slice(
        br#"{"jsonrpc":"2.0","id":"a","error":{"code":-32000,"message":"no"}}"#,
    )
    .unwrap();
    let outputs = response.into_outputs();
    assert_eq!(outputs.len(), 1);
    assert_eq!(outputs[0].id(), &Id::Str("a".to_string()));
    let results = to_results_from_outputs(outputs).unwrap();
    assert_eq!(results, vec![Err(Error::Rpc(rpc_error(-32000, "no")))]);
}

#[test]
fn the_results_keep_the_order_of_the_responses() {
    let response = to_response_from_slice(
        br#"[{"jsonrpc":"2.0","id":2,"result":"b"},{"jsonrpc":"2.0","id":null,"result":"a"}]"#,
    )
    .unwrap();
    let outputs = response.into_outputs();
    assert_eq!(outputs[0].id(), &Id::Num(2));
    assert_eq!(outputs[1].id(), &Id::Null);
    assert_eq!(
        to_results_from_outputs(outputs),
        Ok(vec![Ok(value("\"b\"")), Ok(value("\"a\""))])
    );
    assert_eq!(to_results_from_outputs(Vec::<Output>::new()), Ok(vec![]));
}

#[test]
fn what_is_no_response_is_an_invalid_response() {
    assert_eq!(
        to_response_from_slice(b"{"),
        Err(Error::InvalidResponse(
            r#"Error("EOF while parsing an object", line: 1, column: 1)"#.to_string()
        ))
    );
}

#[test]
fn a_notification_is_read() {
    let n = to_notification_from_slice(
        br#"{"jsonrpc":"2.0","method":"eth_subscription","params":{"subscription":"0x1","result":5}}"#,
    )
    .unwrap();
    assert_eq!(n.jsonrpc, Some(Version::V2));
    assert_eq!(n.method, "eth_subscription");
    match n.params {
        Params::Object(members) => {
            assert_eq!(members.get("result"), Some(&value("5")));
            assert_eq!(members.len(), 2);
        }
        _ => panic!("named parameters were expected"),
    }
}

#[test]
fn a_response_is_no_notification() {
    match to_notification_from_slice(br#"{"jsonrpc":"2.0","id":1,"result":"x"}"#) {
        Err(Error::InvalidResponse(text)) => assert!(text.starts_with("Error(")),
        _ => panic!("an error was expected"),
    }
}

#[test]
fn errors_read_as_they_should() {
    assert_eq!(TransportError::Code(404).to_string(), "code 404");
    assert_eq!(
        Error::message("gone".to_string()).to_string(),
        "Transport error: message gone"
    );
    assert_eq!(
        Error::Transport(TransportError::Code(65535)).to_string(),
        "Transport error: code 65535"
    );
    assert_eq!(
        Error::InvalidResponse("?".to_string()).to_string(),
        "Got invalid response: ?"
    );
    assert_eq!(
        Error::from(rpc_error(-32601, "Method not found")).to_string(),
        r#"RPC error: Error { code: MethodNotFound, message: "Method not found", data: None }"#
    );
}

#[test]
fn a_cloned_error_is_the_same() {
    for error in vec![
        Error::InvalidResponse("a".to_string()),
        Error::message("b".to_string()),
        Error::Transport(TransportError::Code(1)),
        Error::Rpc(rpc_error(1, "c")),
    ] {
        assert_eq!(error.clone(), error);
    }
}
