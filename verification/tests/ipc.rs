use futures::channel::oneshot;
use futures::executor::block_on;
use serde_json::Value;
use web3_transports::api::SubscriptionId;
use web3_transports::error::{Error, TransportError};
use web3_transports::rpc::Output;
use web3_transports::transports::ipc::{
    batch_message, settle_batch, settle_single, Delivery, Ipc, Server, Step, TransportMessage,
    Unclaimed, Write,
};
use web3_transports::transports::ipc::stream::read_values;

type Sender = oneshot::Sender<Output>;
type Connection = Server<Sender, u32>;

fn value(text: &str) -> Value {
    serde_json::from_str(text).unwrap()
}

fn message(text: &str) -> Error {
    Error::Transport(TransportError::Message(text.to_string()))
}

fn call(ipc: &mut Ipc, server: &mut Connection, params: &str) -> (Write, oneshot::Receiver<Output>) {
    let (id, call) = ipc.prepare("eth_test", vec![value(params)]);
    let (tx, rx) = oneshot::channel();
    let write = server.on_message(Some(TransportMessage::Single((id, call, tx)))).unwrap();
    assert_eq!(write.ids, vec![id]);
    (write, rx)
}

fn hand_out(deliveries: Vec<Delivery<Sender>>) -> usize {
    let mut answers: usize = 0;
    for delivery in deliveries {
        if let Delivery::Answer { to, output } = delivery {
            to.send(output).unwrap();
            answers += 1;
        }
    }
    answers
}

#[test]
fn works_for_single_requests() {
    let (mut ipc, stream) = Ipc::new(Ok(7)).unwrap();
    assert_eq!(stream, 7);
    let mut server: Connection = Server::new();

    let (write, rx) = call(&mut ipc, &mut server, r#"{"test":-1}"#);
    assert_eq!(
        value(&write.text),
        value(r#"{"jsonrpc":"2.0","method":"eth_test","id":1,"params":[{"test":-1}]}"#)
    );
    server.on_written(&write.ids, true);
    hand_out(server.on_bytes(br#"{"jsonrpc": "2.0", "id": 1, "result": {"test": 1}}"#));
    assert_eq!(settle_single(Ok(block_on(rx))), Ok(value(r#"{"test":1}"#)));

    let (write, rx) = call(&mut ipc, &mut server, r#"{"test":3}"#);
    assert_eq!(
        value(&write.text),
        value(r#"{"jsonrpc":"2.0","method":"eth_test","id":2,"params":[{"test":3}]}"#)
    );
    server.on_written(&write.ids, true);
    let response_bytes = r#"{"jsonrpc": "2.0", "id": 2, "result": {"test": "string1"}}"#;
    let mut answers: usize = 0;
    for chunk in response_bytes.as_bytes().chunks(3) {
        answers += hand_out(server.on_bytes(chunk));
    }
    assert_eq!(answers, 1);
    assert_eq!(settle_single(Ok(block_on(rx))), Ok(value(r#"{"test":"string1"}"#)));
}

#[test]
fn works_for_batch_request() {
    let mut ipc = Ipc::with_stream();
    let mut server: Connection = Server::new();

    let mut requests = vec![];
    let mut txs = vec![];
    let mut rxs = vec![];
    for params in vec![r#"{"test":-1}"#, r#"{"test":3}"#] {
        requests.push(ipc.prepare("eth_test", vec![value(params)]));
        let (tx, rx) = oneshot::channel();
        txs.push(tx);
        rxs.push(rx);
    }
    let write = server.on_message(Some(batch_message(requests, txs))).unwrap();
    assert_eq!(write.ids, vec![1, 2]);
    assert_eq!(
        value(&write.text),
        value(
            r#"[{"jsonrpc":"2.0","method":"eth_test","id":1,"params":[{"test":-1}]},
                {"jsonrpc":"2.0","method":"eth_test","id":2,"params":[{"test":3}]}]"#
        )
    );
    server.on_written(&write.ids, true);
    let response = value(
        r#"[{"jsonrpc": "2.0", "id": 1, "result": {"test": 1}},
            {"jsonrpc": "2.0", "id": 2, "result": {"test": "string1"}}]"#,
    );
    hand_out(server.on_bytes(serde_json::to_string(&response).unwrap().as_bytes()));
    let answers = rxs.into_iter().map(block_on).collect();
    assert_eq!(
        settle_batch(Ok(answers)),
        Ok(vec![Ok(value(r#"{"test":1}"#)), Ok(value(r#"{"test":"string1"}"#))])
    );
}

#[test]
fn works_for_partial_batches() {
    let mut ipc = Ipc::with_stream();
    let mut server: Connection = Server::new();
    let (_, first) = call(&mut ipc, &mut server, r#"{"test":0}"#);
    let (_, second) = call(&mut ipc, &mut server, r#"{"test":1}"#);
    let (_, third) = call(&mut ipc, &mut server, r#"{"test":2}"#);

    let response = value(
        r#"[{"jsonrpc": "2.0", "id": 1, "result": {"test": 0}},
            {"jsonrpc": "2.0", "id": "2", "result": {"test": 2}},
            {"jsonrpc": "2.0", "id": 3, "result": {"test": 2}}]"#,
    );
    let bytes = serde_json::to_string(&response).unwrap().into_bytes();
    match server.on_read(Some(Ok(bytes))) {
        Step::Deliver(deliveries) => assert_eq!(hand_out(deliveries), 2),
        _ => panic!("deliveries were expected"),
    }
    match server.on_read(None) {
        Step::Stop => {}
        _ => panic!("the end was expected"),
    }
    drop(server);

    assert_eq!(settle_single(Ok(block_on(first))), Ok(value(r#"{"test":0}"#)));
    assert_eq!(settle_single(Ok(block_on(third))), Ok(value(r#"{"test":2}"#)));
    let responses1 = settle_single(Ok(block_on(second)));
    assert!(responses1.is_err());
    assert_eq!(responses1, Err(message("oneshot canceled")));
}

#[test]
fn a_batch_that_is_cut_off_keeps_what_came() {
    let (tx, rx) = oneshot::channel::<Output>();
    drop(tx);
    assert_eq!(
        settle_batch(Ok(vec![block_on(rx)])),
        Ok(vec![Err(message("Canceled: Canceled"))])
    );
    assert_eq!(settle_batch(Err(message("x"))), Err(message("x")));
    assert_eq!(settle_single(Err(message("x"))), Err(message("x")));
}

#[test]
fn what_cannot_be_handed_over_is_an_error() {
    let (tx, rx) = tokio::sync::mpsc::unbounded_channel::<TransportMessage<u32, u32>>();
    drop(rx);
    let failed = tx.send(TransportMessage::Unsubscribe(SubscriptionId::new("a"))).unwrap_err();
    assert_eq!(Error::from(failed), message("Send Error: SendError { .. }"));
}

#[test]
fn a_socket_that_is_not_there_is_an_error() {
    assert_eq!(
        Ipc::new::<u32>(Err("no such file".to_string())).map(|_| ()),
        Err(message("no such file"))
    );
}

#[test]
fn a_read_error_stops() {
    let mut server: Connection = Server::new();
    match server.on_read(Some(Err("broken".to_string()))) {
        Step::Fail(e) => assert_eq!(e, message("broken")),
        _ => panic!("an error was expected"),
    }
}

fn request(id: usize, to: u32) -> TransportMessage<u32, u32> {
    let call = web3_transports::helpers::build_request(id, "m", vec![]);
    TransportMessage::Single((id, call, to))
}

fn answers(deliveries: &Vec<Delivery<u32>>) -> Vec<u32> {
    let mut r = vec![];
    for delivery in deliveries {
        if let Delivery::Answer { to, .. } = delivery {
            r.push(*to);
        }
    }
    r
}

#[test]
fn a_response_is_delivered_once() {
    let mut server: Server<u32, u32> = Server::new();
    server.on_message(Some(request(1, 10)));
    server.on_message(Some(request(2, 20)));
    let bytes = br#"{"jsonrpc":"2.0","id":2,"result":1} {"jsonrpc":"2.0","id":2,"result":2}"#;
    let deliveries = server.on_bytes(bytes);
    assert_eq!(answers(&deliveries), vec![20]);
    match &deliveries[0] {
        Delivery::Answer { output: Output::Success(success), .. } => {
            assert_eq!(success.result, value("1"))
        }
        _ => panic!("a response was expected"),
    }
    assert_eq!(
        answers(&server.on_bytes(br#"{"jsonrpc":"2.0","id":1,"error":{"code":1,"message":""}}"#)),
        vec![10]
    );
}

#[test]
fn a_failed_write_is_forgotten() {
    let mut server: Server<u32, u32> = Server::new();
    server.on_message(Some(request(1, 10)));
    let write = server.on_message(Some(request(2, 20))).unwrap();
    server.on_written(&write.ids, false);
    let bytes = br#"[{"jsonrpc":"2.0","id":2,"result":1},{"jsonrpc":"2.0","id":1,"result":2}]"#;
    let deliveries = server.on_bytes(bytes);
    assert_eq!(answers(&deliveries), vec![10]);
}

#[test]
fn closing_waits_for_the_responses() {
    let mut server: Server<u32, u32> = Server::new();
    assert!(server.is_running());
    server.on_message(Some(request(1, 10)));
    assert_eq!(server.on_message(None), None);
    assert!(server.is_running());
    server.on_bytes(br#"{"jsonrpc":"2.0","id":1,"result":1}"#);
    assert!(!server.is_running());
}

#[test]
fn notifications_reach_their_subscription() {
    let mut server: Server<u32, u32> = Server::new();
    let heads = SubscriptionId::from("newHeads");
    let bytes = br#"{"jsonrpc":"2.0","method":"eth_subscription","params":{"subscription":"newHeads","result":{"n":1}}}"#;
    match &server.on_bytes(bytes)[..] {
        [Delivery::Unclaimed(Unclaimed::Notice { id, value: news })] => {
            assert!(id.same(&heads));
            assert_eq!(*news, value(r#"{"n":1}"#));
        }
        _ => panic!("a notification for nobody was expected"),
    }
    assert_eq!(server.on_message(Some(TransportMessage::Subscribe(heads.clone(), 7))), None);
    assert_eq!(server.receiver(&heads), Some(&7));
    let deliveries = server.on_bytes(bytes);
    assert_eq!(deliveries.len(), 1);
    match &deliveries[0] {
        Delivery::Notice { id, value: news } => {
            assert!(id.same(&heads));
            assert_eq!(*news, value(r#"{"n":1}"#));
        }
        _ => panic!("a notification was expected"),
    }
    let numbered = br#"{"jsonrpc":"2.0","method":"m","params":{"subscription":1,"result":2}}"#;
    assert!(matches!(
        &server.on_bytes(numbered)[..],
        [Delivery::Unclaimed(Unclaimed::Notification)]
    ));
    let bare = br#"{"jsonrpc":"2.0","method":"m","params":["newHeads"]}"#;
    assert!(matches!(
        &server.on_bytes(bare)[..],
        [Delivery::Unclaimed(Unclaimed::Notification)]
    ));
    assert_eq!(server.on_message(Some(TransportMessage::Unsubscribe(heads.clone()))), None);
    assert!(matches!(
        &server.on_bytes(bytes)[..],
        [Delivery::Unclaimed(Unclaimed::Notice { .. })]
    ));
    assert_eq!(server.receiver(&heads), None);
}

#[test]
fn where_the_bytes_are_cut_does_not_matter() {
    let text = concat(
        r#" {"jsonrpc":"2.0","id":1,"result":"é}"}"#,
        r#"[{"jsonrpc":"2.0","id":2,"result":[1]}] {"jsonrpc":"2.0","id":3,"result":-1}"#,
    );
    for cut in 0..text.len() + 1 {
        let mut server: Server<u32, u32> = Server::new();
        for i in 1..4 {
            server.on_message(Some(request(i, i as u32)));
        }
        let pieces = vec![text[..cut].to_vec(), vec![], text[cut..].to_vec()];
        assert_eq!(answers(&server.on_pieces(&pieces)), vec![1, 2, 3]);
    }
}

fn concat(first: &str, second: &str) -> Vec<u8> {
    format!("{}{}", first, second).into_bytes()
}

#[test]
fn a_response_may_be_for_nobody() {
    let mut server: Server<u32, u32> = Server::new();
    server.on_message(Some(request(1, 10)));
    assert!(server.awaits(1));
    let bytes = br#"[{"jsonrpc":"2.0","id":2,"result":1},{"jsonrpc":"2.0","id":"1","result":2},
        {"jsonrpc":"2.0","id":1,"result":3}]"#;
    let deliveries = server.on_bytes(bytes);
    assert_eq!(deliveries.len(), 3);
    for i in 0..2 {
        match &deliveries[i] {
            Delivery::Unclaimed(Unclaimed::Response(Output::Success(success))) => {
                assert_eq!(success.result, value(&format!("{}", i + 1)))
            }
            _ => panic!("a response for nobody was expected"),
        }
    }
    assert_eq!(answers(&deliveries), vec![10]);
    assert!(!server.awaits(1));
}

#[test]
fn one_byte_at_a_time_is_enough() {
    let text = br#"{"jsonrpc":"2.0","id":1,"result":{"a":[1,"}"]}} [{"jsonrpc":"2.0","id":2,"result":0}]"#;
    let mut server: Server<u32, u32> = Server::new();
    server.on_message(Some(request(1, 10)));
    server.on_message(Some(request(2, 20)));
    let pieces: Vec<Vec<u8>> = text.iter().map(|b| vec![*b]).collect();
    assert_eq!(answers(&server.on_pieces(&pieces)), vec![10, 20]);
}

#[test]
fn values_are_read_as_far_as_they_go() {
    assert_eq!(read_values(b""), (vec![], 0));
    assert_eq!(read_values(b"  "), (vec![], 2));
    assert_eq!(read_values(b"{} [1] {\"a"), (vec![value("{}"), value("[1]")], 7));
    assert_eq!(read_values(b"1 2"), (vec![value("1"), value("2")], 3));
    assert_eq!(read_values(b"truefalse"), (vec![], 4));
    assert_eq!(read_values(b"{} x"), (vec![value("{}")], 3));
}

#[test]
fn what_is_neither_response_nor_notification_is_skipped() {
    let mut server: Server<u32, u32> = Server::new();
    server.on_message(Some(request(1, 10)));
    let bytes = br#"3 "text" {"a":1} {"jsonrpc":"2.0","id":1,"result":1}"#;
    let deliveries = server.on_bytes(bytes);
    assert_eq!(deliveries.len(), 4);
    for delivery in &deliveries[..3] {
        assert!(matches!(delivery, Delivery::Unclaimed(Unclaimed::Other)));
    }
    assert_eq!(answers(&deliveries), vec![10]);
}
