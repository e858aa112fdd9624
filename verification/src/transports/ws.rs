//! JSON-RPC over a WebSocket: one connection carries the requests, the responses to them, each a
//! message of its own, and the notifications of subscriptions.
use std::collections::BTreeMap;

use futures::channel::oneshot::Canceled;
use serde_json::Value;
use vstd::prelude::*;

use crate::address::{basic_credentials, encode_basic, parse_url, url_of_text, UrlParts, UrlView};
use crate::api::SubscriptionId;
use crate::error::{batch_view, result_view, Error, ErrorView, TransportError};
use crate::helpers::{
    build_request, method_call_view, opened, results_of_outputs, to_notification_from_slice,
    to_response_from_slice, to_results_from_outputs, to_string,
};
use crate::ids::{nth_id, RequestIds};
use crate::json::{call_of, notification_of_bytes, request_json, response_of_bytes};
use crate::rpc::{
    outputs_view, request_of_id, Id, Notification, NotificationView, Output, OutputView, Request,
    RequestView,
};
use crate::subscriptions::{notice, notice_of, Subscriptions};
use crate::text::{decimal, decimal_digits, join};
use crate::RequestId;

pub mod laws;

verus! {

broadcast use {
    vstd::std_specs::btree::group_btree_axioms,
    vstd::laws_cmp::group_laws_cmp,
};

/// What comes of one call.
pub type SingleResult = Result<Value, Error>;

/// What comes of a message from the node: what it says of each of its calls.
pub type BatchResult = Result<Vec<SingleResult>, Error>;

/// Where to connect to, and what to say there first.
#[derive(Debug, PartialEq, Eq)]
pub struct Endpoint {
    /// Whether the connection is encrypted.
    pub secure: bool,
    pub host: String,
    /// Host and port.
    pub addr: String,
    /// Path and query.
    pub resource: String,
    /// The value of the `Authorization` header, where there is one.
    pub authorization: Option<Vec<u8>>,
}

/// The contents of an [`Endpoint`].
pub struct EndpointView {
    pub secure: bool,
    pub host: Seq<char>,
    pub addr: Seq<char>,
    pub resource: Seq<char>,
    pub authorization: Option<Seq<u8>>,
}

impl View for Endpoint {
    type V = EndpointView;

    open spec fn view(&self) -> EndpointView {
        EndpointView {
            secure: self.secure,
            host: self.host@,
            addr: self.addr@,
            resource: self.resource@,
            authorization: match self.authorization {
                Some(bytes) => Some(bytes@),
                None => None,
            },
        }
    }
}

/// The port to connect to: where the URL names none, the default one of its scheme.
pub open spec fn port_of(url: UrlView) -> u16 {
    match url.port {
        Some(port) => port,
        None => if url.scheme == "ws"@ {
            80
        } else {
            443
        },
    }
}

/// What is asked for at the host: the path, and the query where there is one.
pub open spec fn resource_of(url: UrlView) -> Seq<char> {
    match url.query {
        Some(query) => url.path + "?"@ + query,
        None => url.path,
    }
}

/// Where a URL leads: its scheme has to be that of a WebSocket, and it has to name a host.
pub open spec fn endpoint_of(url: UrlView) -> Result<EndpointView, ErrorView> {
    if url.scheme != "ws"@ && url.scheme != "wss"@ {
        Err(ErrorView::message("Wrong scheme: "@ + url.scheme))
    } else {
        match url.host {
            Some(host) => Ok(
                EndpointView {
                    secure: url.scheme == "wss"@,
                    host,
                    addr: host + ":"@ + decimal_digits(port_of(url) as nat),
                    resource: resource_of(url),
                    authorization: match url.password {
                        Some(password) => Some(basic_credentials(url.username, password)),
                        None => None,
                    },
                },
            ),
            None => Err(ErrorView::message("Missing host in URL"@)),
        }
    }
}

/// The contents of where a URL leads, or why it leads nowhere.
pub open spec fn endpoint_view(endpoint: Result<Endpoint, Error>) -> Result<
    EndpointView,
    ErrorView,
> {
    match endpoint {
        Ok(e) => Ok(e@),
        Err(e) => Err(e@),
    }
}

/// Where a URL leads.
pub fn endpoint_at(url: UrlParts) -> (r: Result<Endpoint, Error>)
    ensures
        endpoint_view(r) == endpoint_of(url@),
{
    let plain = url.scheme == "ws".to_string();
    let secure = url.scheme == "wss".to_string();
    if !plain && !secure {
        return Err(Error::message(join("Wrong scheme: ", url.scheme.as_str())));
    }
    let host = match url.host {
        Some(host) => host,
        None => {
            return Err(Error::message("Missing host in URL".to_string()));
        },
    };
    let port: u16 = match url.port {
        Some(port) => port,
        None => if plain {
            80
        } else {
            443
        },
    };
    let addr = join(join(host.as_str(), ":").as_str(), decimal(port as u64).as_str());
    let resource = match url.query {
        Some(query) => join(join(url.path.as_str(), "?").as_str(), query.as_str()),
        None => url.path,
    };
    let authorization = match url.password {
        Some(password) => Some(encode_basic(url.username.as_str(), password.as_str())),
        None => None,
    };
    Ok(Endpoint { secure, host, addr, resource, authorization })
}

/// Where a URL leads that is given as text.
pub fn endpoint(url: &str) -> (r: Result<Endpoint, Error>)
    ensures
        endpoint_view(r) == match url_of_text(url@) {
            Ok(parts) => endpoint_of(parts),
            Err(text) => Err(ErrorView::message("Invalid URL: "@ + text)),
        },
{
    match parse_url(url) {
        Ok(parts) => endpoint_at(parts),
        Err(text) => Err(Error::message(join("Invalid URL: ", text.as_str()))),
    }
}

/// What is said to a node first.
#[derive(Debug, PartialEq, Eq)]
pub struct Greeting {
    host: String,
    resource: String,
    authorization: Option<Vec<u8>>,
}

/// The contents of a [`Greeting`].
pub struct GreetingView {
    pub host: Seq<char>,
    pub resource: Seq<char>,
    pub authorization: Option<Seq<u8>>,
}

impl View for Greeting {
    type V = GreetingView;

    closed spec fn view(&self) -> GreetingView {
        GreetingView {
            host: self.host@,
            resource: self.resource@,
            authorization: match self.authorization {
                Some(bytes) => Some(bytes@),
                None => None,
            },
        }
    }
}

impl EndpointView {
    /// What is said there first.
    pub open spec fn greeting(self) -> GreetingView {
        GreetingView {
            host: self.host,
            resource: self.resource,
            authorization: self.authorization,
        }
    }
}

/// A connection that has to be encrypted before anything is said.
#[derive(Debug, PartialEq, Eq)]
pub struct Unencrypted {
    greeting: Greeting,
}

/// A TCP connection that is set up.
#[derive(Debug, PartialEq, Eq)]
pub enum Connected {
    /// It can be used as it is.
    Plain(Greeting),
    /// It has to be encrypted.
    Secure(Unencrypted),
}

/// How the node answered to the handshake.
#[derive(Clone, Copy, Debug, PartialEq, Eq)]
pub enum Handshake {
    Accepted,
    Redirect { status_code: u16 },
    Rejected { status_code: u16 },
}

/// What follows from opening the TCP connection.
pub fn reached<T>(stream: Result<T, String>) -> (r: Result<T, Error>)
    ensures
        match (stream, r) {
            (Ok(stream), Ok(kept)) => kept == stream,
            (Err(text), Err(e)) => e@ == ErrorView::message(text@),
            _ => false,
        },
{
    match stream {
        Ok(stream) => Ok(stream),
        Err(text) => Err(Error::message(text)),
    }
}

impl Endpoint {
    /// Goes on once the TCP connection is open and set up: an encrypted endpoint is not talked to
    /// before the connection is encrypted.
    pub fn set_up(self, nodelay: Result<(), String>) -> (r: Result<Connected, Error>)
        ensures
            match (nodelay, r) {
                (Ok(()), Ok(Connected::Plain(greeting))) => !self@.secure && greeting@
                    == self@.greeting(),
                (Ok(()), Ok(Connected::Secure(connection))) => self@.secure
                    && connection.greeting() == self@.greeting(),
                (Err(text), Err(e)) => e@ == ErrorView::message("Failed to set nodelay: "@ + text@),
                _ => false,
            },
    {
        match nodelay {
            Ok(()) => {
                let greeting = Greeting {
                    host: self.host,
                    resource: self.resource,
                    authorization: self.authorization,
                };
                if self.secure {
                    Ok(Connected::Secure(Unencrypted { greeting }))
                } else {
                    Ok(Connected::Plain(greeting))
                }
            },
            Err(text) => Err(Error::message(join("Failed to set nodelay: ", text.as_str()))),
        }
    }
}

impl Unencrypted {
    /// What is said once the connection is encrypted.
    pub closed spec fn greeting(&self) -> GreetingView {
        self.greeting@
    }

    /// The host for which to encrypt.
    pub fn host(&self) -> (host: &str)
        ensures
            host@ == self.greeting().host,
    {
        self.greeting.host.as_str()
    }

    /// Goes on once the connection is encrypted.
    pub fn encrypted<T>(self, stream: Result<T, String>) -> (r: Result<(Greeting, T), Error>)
        ensures
            match (stream, r) {
                (Ok(stream), Ok((greeting, kept))) => greeting@ == self.greeting() && kept
                    == stream,
                (Err(text), Err(e)) => e@ == ErrorView::message("TLS connection failed: "@ + text@),
                _ => false,
            },
    {
        match stream {
            Ok(stream) => Ok((self.greeting, stream)),
            Err(text) => Err(Error::message(join("TLS connection failed: ", text.as_str()))),
        }
    }
}

impl Greeting {
    /// The host that is asked.
    pub fn host(&self) -> (host: &str)
        ensures
            host@ == self@.host,
    {
        self.host.as_str()
    }

    /// What is asked for.
    pub fn resource(&self) -> (resource: &str)
        ensures
            resource@ == self@.resource,
    {
        self.resource.as_str()
    }

    /// The value of the `Authorization` header, where there is one.
    pub fn authorization(&self) -> (r: Option<&[u8]>)
        ensures
            self@.authorization == match r {
                Some(bytes) => Some(bytes@),
                None => None,
            },
    {
        match &self.authorization {
            Some(bytes) => Some(bytes.as_slice()),
            None => None,
        }
    }
}

/// What follows from the handshake: only a node that accepts it can be talked to.
pub fn check_handshake(answer: Result<Handshake, String>) -> (r: Result<(), Error>)
    ensures
        match (answer, r) {
            (Ok(Handshake::Accepted), Ok(())) => true,
            (Ok(Handshake::Redirect { status_code }), Err(e)) => e@ == ErrorView::code(
                status_code,
            ),
            (Ok(Handshake::Rejected { status_code }), Err(e)) => e@ == ErrorView::code(
                status_code,
            ),
            (Err(text), Err(e)) => e@ == ErrorView::message("Handshake failed: "@ + text@),
            _ => false,
        },
{
    match answer {
        Ok(Handshake::Accepted) => Ok(()),
        Ok(Handshake::Redirect { status_code }) => Err(
            Error::Transport(TransportError::Code(status_code)),
        ),
        Ok(Handshake::Rejected { status_code }) => Err(
            Error::Transport(TransportError::Code(status_code)),
        ),
        Err(text) => Err(Error::message(join("Handshake failed: ", text.as_str()))),
    }
}

/// Something that came from the node, and for whom it is.
#[derive(Debug)]
pub enum Delivery<P> {
    /// What the node answered to a request, for whoever waits for it.
    Answer { to: P, results: BatchResult },
    /// The news of a subscription, for its receiver.
    Notice { id: SubscriptionId, value: Value },
}

/// The contents of a [`Delivery`].
pub enum DeliveryView<P> {
    Answer { to: P, results: Result<Seq<Result<Value, ErrorView>>, ErrorView> },
    Notice { id: Seq<char>, value: Value },
}

impl<P> View for Delivery<P> {
    type V = DeliveryView<P>;

    open spec fn view(&self) -> DeliveryView<P> {
        match self {
            Delivery::Answer { to, results } => DeliveryView::Answer {
                to: *to,
                results: batch_view(*results),
            },
            Delivery::Notice { id, value } => DeliveryView::Notice { id: id@, value: *value },
        }
    }
}

/// The contents of what is delivered, if anything is.
pub open spec fn delivery_view<P>(delivery: Option<Delivery<P>>) -> Option<DeliveryView<P>> {
    match delivery {
        Some(d) => Some(d@),
        None => None,
    }
}

/// The news for a subscription that a notification brings, where there is one of that id.
pub open spec fn noticed<P>(
    subscribed: Set<Seq<char>>,
    notification: NotificationView,
) -> Option<DeliveryView<P>> {
    match notice_of(notification) {
        Some((id, value)) => if subscribed.contains(id) {
            Some(DeliveryView::Notice { id, value })
        } else {
            None
        },
        None => None,
    }
}

/// Finds the subscription that a notification is for.
pub fn handle_notification<P, S>(
    subscriptions: &Subscriptions<S>,
    notification: &Notification,
) -> (r: Option<Delivery<P>>)
    requires
        subscriptions.well_formed(),
    ensures
        delivery_view(r) == noticed::<P>(subscriptions@.dom(), notification@),
{
    match notice(notification) {
        Some((id, value)) => match subscriptions.get(&id) {
            Some(_) => Some(Delivery::Notice { id, value }),
            None => None,
        },
        None => None,
    }
}

/// The request that a list of responses answers: the first response names it. An empty list
/// answers none.
pub open spec fn answered_request(outputs: Seq<OutputView>) -> Option<RequestId> {
    if outputs.len() == 0 {
        None
    } else {
        request_of_id(outputs[0].id)
    }
}

/// Whether a list of responses answers a request that is waited for.
pub open spec fn is_awaited<P>(pending: Map<RequestId, P>, outputs: Seq<OutputView>) -> bool {
    match answered_request(outputs) {
        Some(id) => pending.contains_key(id),
        None => false,
    }
}

/// Who still waits for a response, and what is delivered.
pub struct Dispatch<P> {
    pub pending: Map<RequestId, P>,
    pub delivery: Option<DeliveryView<P>>,
}

/// Responses that came together go to whoever waits for them, all of them and in their order. Who
/// got them waits no longer. Those that nobody waits for go to nobody.
pub open spec fn outputs_dispatched<P>(
    pending: Map<RequestId, P>,
    outputs: Seq<OutputView>,
) -> Dispatch<P> {
    if is_awaited(pending, outputs) {
        let id = answered_request(outputs)->Some_0;
        Dispatch {
            pending: pending.remove(id),
            delivery: Some(
                DeliveryView::Answer { to: pending[id], results: Ok(results_of_outputs(outputs)) },
            ),
        }
    } else {
        Dispatch { pending, delivery: None }
    }
}

/// Hands responses that came together to whoever waits for them.
pub fn handle_outputs<P>(pending: &mut BTreeMap<RequestId, P>, outputs: Vec<Output>) -> (r: Option<
    Delivery<P>,
>)
    ensures
        ({
            let all = outputs_dispatched(old(pending)@, outputs_view(outputs@));
            &&& final(pending)@ == all.pending
            &&& delivery_view(r) == all.delivery
        }),
{
    if outputs.len() == 0 {
        return None;
    }
    let id: RequestId = match outputs[0].id() {
        Id::Num(number) => *number as RequestId,
        _ => {
            return None;
        },
    };
    match pending.remove(&id) {
        Some(to) => Some(Delivery::Answer { to, results: to_results_from_outputs(outputs) }),
        None => {
            assert(old(pending)@.remove(id) =~= old(pending)@);
            None
        },
    }
}

/// A message from the node is a notification, or else it holds responses. One that is neither is
/// for nobody.
pub open spec fn message_dispatched<P>(
    pending: Map<RequestId, P>,
    subscribed: Set<Seq<char>>,
    data: Seq<u8>,
) -> Dispatch<P> {
    match notification_of_bytes(data) {
        Ok(notification) => Dispatch { pending, delivery: noticed(subscribed, notification) },
        Err(_) => match response_of_bytes(data) {
            Ok(response) => outputs_dispatched(pending, opened(response).outputs()),
            Err(_) => Dispatch { pending, delivery: None },
        },
    }
}

/// Deals with a message from the node.
pub fn handle_message<P, S>(
    data: &[u8],
    subscriptions: &Subscriptions<S>,
    pending: &mut BTreeMap<RequestId, P>,
) -> (r: Option<Delivery<P>>)
    requires
        subscriptions.well_formed(),
    ensures
        ({
            let all = message_dispatched(old(pending)@, subscriptions@.dom(), data@);
            &&& final(pending)@ == all.pending
            &&& delivery_view(r) == all.delivery
        }),
{
    match to_notification_from_slice(data) {
        Ok(notification) => handle_notification(subscriptions, &notification),
        Err(_) => match to_response_from_slice(data) {
            Ok(response) => handle_outputs(pending, response.into_outputs()),
            Err(_) => None,
        },
    }
}

/// What a client asks of the connection.
#[derive(Debug)]
#[allow(inconsistent_fields)]
pub enum TransportMessage<P, S> {
    /// Send a request.
    Request { id: RequestId, request: String, sender: P },
    /// Pass the notifications of a subscription on.
    Subscribe { id: SubscriptionId, sink: S },
    /// Pass the notifications of a subscription on no longer.
    Unsubscribe { id: SubscriptionId },
}

/// What to do about a message of the client.
#[derive(Debug, PartialEq, Eq)]
pub enum Action {
    /// Send this text, for this request.
    Send { id: RequestId, text: String },
    /// Nothing.
    Proceed,
    /// Stop.
    Stop,
}

/// What to do about a message of the node.
#[derive(Debug)]
pub enum Step<P> {
    /// Deliver this, and go on.
    Deliver(Delivery<P>),
    /// Go on.
    Proceed,
    /// Stop.
    Stop,
}

/// The client's end of a connection to a node.
#[derive(Debug)]
pub struct WsServerTask<P, S> {
    pending: BTreeMap<RequestId, P>,
    subscriptions: Subscriptions<S>,
}

/// The contents of a [`WsServerTask`].
pub struct WsServerTaskView<P, S> {
    /// Who waits for the response to which request.
    pub pending: Map<RequestId, P>,
    /// Who receives the notifications of which subscription.
    pub subscriptions: Map<Seq<char>, S>,
}

impl<P, S> View for WsServerTask<P, S> {
    type V = WsServerTaskView<P, S>;

    closed spec fn view(&self) -> WsServerTaskView<P, S> {
        WsServerTaskView { pending: self.pending@, subscriptions: self.subscriptions@ }
    }
}

impl<P, S> WsServerTaskView<P, S> {
    /// What a message of the client makes of the connection.
    pub open spec fn told(self, message: Option<TransportMessage<P, S>>) -> WsServerTaskView<P, S> {
        match message {
            Some(TransportMessage::Request { id, sender, .. }) => WsServerTaskView {
                pending: self.pending.insert(id, sender),
                ..self
            },
            Some(TransportMessage::Subscribe { id, sink }) => WsServerTaskView {
                subscriptions: self.subscriptions.insert(id@, sink),
                ..self
            },
            Some(TransportMessage::Unsubscribe { id }) => WsServerTaskView {
                subscriptions: self.subscriptions.remove(id@),
                ..self
            },
            None => self,
        }
    }

    /// What the outcome of sending a request makes of the connection: nobody waits for what was
    /// not sent.
    pub open spec fn sent(self, id: RequestId, done: bool) -> WsServerTaskView<P, S> {
        if done {
            self
        } else {
            WsServerTaskView { pending: self.pending.remove(id), ..self }
        }
    }

    /// What a message from the node brings.
    pub open spec fn dispatch(self, data: Seq<u8>) -> Dispatch<P> {
        message_dispatched(self.pending, self.subscriptions.dom(), data)
    }
}

impl<P, S> WsServerTask<P, S> {
    /// No subscription has two receivers.
    pub closed spec fn well_formed(&self) -> bool {
        self.subscriptions.well_formed()
    }

    /// A fresh connection.
    pub fn new() -> (task: WsServerTask<P, S>)
        ensures
            task.well_formed(),
            task@ == (WsServerTaskView::<P, S> {
                pending: Map::empty(),
                subscriptions: Map::empty(),
            }),
    {
        WsServerTask { pending: BTreeMap::new(), subscriptions: Subscriptions::new() }
    }

    /// The receiver of a subscription.
    pub fn receiver(&self, id: &SubscriptionId) -> (r: Option<&S>)
        requires
            self.well_formed(),
        ensures
            match r {
                Some(sink) => self@.subscriptions.contains_key(id@) && *sink
                    == self@.subscriptions[id@],
                None => !self@.subscriptions.contains_key(id@),
            },
    {
        self.subscriptions.get(id)
    }

    /// Whether somebody waits for the response to a request.
    pub fn awaits(&self, id: RequestId) -> (r: bool)
        ensures
            r == self@.pending.contains_key(id),
    {
        self.pending.contains_key(&id)
    }

    /// Takes a message of the client. The connection ends where no more will come.
    pub fn on_message(&mut self, message: Option<TransportMessage<P, S>>) -> (r: Action)
        requires
            old(self).well_formed(),
        ensures
            final(self).well_formed(),
            final(self)@ == old(self)@.told(message),
            match message {
                Some(TransportMessage::Request { id, request, .. }) => match r {
                    Action::Send { id: sent_id, text } => sent_id == id && text@ == request@,
                    _ => false,
                },
                Some(_) => r is Proceed,
                None => r is Stop,
            },
    {
        match message {
            Some(TransportMessage::Request { id, request, sender }) => {
                let _replaced = self.pending.insert(id, sender);
                Action::Send { id, text: request }
            },
            Some(TransportMessage::Subscribe { id, sink }) => {
                let _replaced = self.subscriptions.insert(id, sink);
                Action::Proceed
            },
            Some(TransportMessage::Unsubscribe { id }) => {
                let _removed = self.subscriptions.remove(&id);
                Action::Proceed
            },
            None => Action::Stop,
        }
    }

    /// Notes whether a request was sent. If it was not, nobody waits for it any longer.
    pub fn on_sent(&mut self, id: RequestId, done: bool)
        requires
            old(self).well_formed(),
        ensures
            final(self).well_formed(),
            final(self)@ == old(self)@.sent(id, done),
    {
        if !done {
            let _removed = self.pending.remove(&id);
        }
    }

    /// Takes what was received from the node: a message, an error, or that there is nothing more.
    pub fn on_received(&mut self, received: Option<Result<Vec<u8>, String>>) -> (r: Step<P>)
        requires
            old(self).well_formed(),
        ensures
            final(self).well_formed(),
            final(self)@.subscriptions == old(self)@.subscriptions,
            match received {
                Some(Ok(data)) => {
                    &&& final(self)@.pending == old(self)@.dispatch(data@).pending
                    &&& old(self)@.dispatch(data@).delivery == match r {
                        Step::Deliver(delivery) => Some(delivery@),
                        _ => None,
                    }
                    &&& !(r is Stop)
                },
                _ => r is Stop && final(self)@.pending == old(self)@.pending,
            },
    {
        match received {
            Some(Ok(data)) => match handle_message(
                data.as_slice(),
                &self.subscriptions,
                &mut self.pending,
            ) {
                Some(delivery) => Step::Deliver(delivery),
                None => Step::Proceed,
            },
            _ => Step::Stop,
        }
    }
}

/// The error of whoever waits for a response that cannot come any more.
pub fn dropped_err<T>(_gone: T) -> (e: Error)
    ensures
        e@ == ErrorView::message("Cannot send request. Internal task finished."@),
{
    Error::message("Cannot send request. Internal task finished.".to_string())
}

/// What a message from the node says of a single call: its first result.
pub open spec fn single_of(response: Result<Seq<Result<Value, ErrorView>>, ErrorView>) -> Result<
    Value,
    ErrorView,
> {
    match response {
        Ok(results) => if results.len() > 0 {
            results[0]
        } else {
            Err(ErrorView::InvalidResponse("Expected single, got batch."@))
        },
        Err(e) => Err(e),
    }
}

/// What a message from the node says of a single call: its first result.
pub fn batch_to_single(response: BatchResult) -> (r: SingleResult)
    ensures
        result_view(r) == single_of(batch_view(response)),
{
    match response {
        Ok(results) => {
            let mut results = results;
            if results.len() > 0 {
                results.swap_remove(0)
            } else {
                Err(Error::InvalidResponse("Expected single, got batch.".to_string()))
            }
        },
        Err(e) => Err(e),
    }
}

/// What a message from the node says of a batch: all of it.
pub fn batch_to_batch(res: BatchResult) -> (r: BatchResult)
    ensures
        r == res,
{
    res
}

/// How far a response has come: whether its request could be sent, or that it is waited for.
#[derive(Debug)]
pub enum ResponseState<F> {
    Receiver(Option<Result<F, Error>>),
    Waiting(F),
}

/// A response on its way, and what to take from it.
#[derive(Debug)]
pub struct Response<F, T> {
    extract: T,
    state: ResponseState<F>,
}

/// What to do next about a response.
#[derive(Debug)]
pub enum Poll {
    /// Look whether it has come.
    Wait,
    /// None will come, and this is why.
    Fail(Error),
}

impl<F, T> Response<F, T> {
    /// What is taken from the response.
    pub closed spec fn extract(&self) -> T {
        self.extract
    }

    /// How far it has come.
    pub closed spec fn state(&self) -> ResponseState<F> {
        self.state
    }

    /// Whether it is not done with yet.
    pub open spec fn is_live(&self) -> bool {
        !(self.state() matches ResponseState::Receiver(None))
    }

    /// A response that is to come through a receiver, or why the request could not be sent.
    pub fn new(response: Result<F, Error>, extract: T) -> (r: Response<F, T>)
        ensures
            r.extract() == extract,
            r.state() == ResponseState::Receiver(Some(response)),
            r.is_live(),
    {
        Response { extract, state: ResponseState::Receiver(Some(response)) }
    }

    /// Whether it is done with.
    pub fn is_spent(&self) -> (r: bool)
        ensures
            r == !self.is_live(),
    {
        match &self.state {
            ResponseState::Receiver(None) => true,
            _ => false,
        }
    }

    /// Goes on to wait for the response, unless the request could not be sent.
    pub fn advance(&mut self) -> (r: Poll)
        requires
            old(self).is_live(),
        ensures
            final(self).extract() == old(self).extract(),
            match old(self).state() {
                ResponseState::Receiver(Some(Err(e))) => match r {
                    Poll::Fail(error) => error@ == e@ && !final(self).is_live(),
                    Poll::Wait => false,
                },
                ResponseState::Receiver(Some(Ok(receiver))) => r is Wait && final(self).state()
                    == ResponseState::Waiting(receiver),
                ResponseState::Receiver(None) => false,
                ResponseState::Waiting(_) => r is Wait && final(self).state() == old(self).state(),
            },
    {
        let mut state = ResponseState::Receiver(None);
        std::mem::swap(&mut state, &mut self.state);
        match state {
            ResponseState::Receiver(Some(Ok(receiver))) => {
                self.state = ResponseState::Waiting(receiver);
                Poll::Wait
            },
            ResponseState::Receiver(Some(Err(e))) => Poll::Fail(e),
            ResponseState::Receiver(None) => Poll::Wait,
            ResponseState::Waiting(receiver) => {
                self.state = ResponseState::Waiting(receiver);
                Poll::Wait
            },
        }
    }

    /// The receiver through which the response is to come, once it is waited for.
    pub fn receiver(&mut self) -> (r: Option<&mut F>)
        ensures
            match r {
                Some(receiver) => {
                    &&& old(self).state() == ResponseState::Waiting(*receiver)
                    &&& final(self).state() == ResponseState::Waiting(*final(receiver))
                    &&& final(self).extract() == old(self).extract()
                },
                None => !(old(self).state() is Waiting) && *final(self) == *old(self),
            },
    {
        match &mut self.state {
            ResponseState::Waiting(receiver) => Some(receiver),
            ResponseState::Receiver(_) => None,
        }
    }

    /// Takes from the response what is to be taken. Where none came, the connection has ended.
    pub fn settle<R>(&self, received: Result<BatchResult, Canceled>) -> (r: Result<R, Error>) where
        T: Fn(BatchResult) -> Result<R, Error>,

        requires
            forall|response: BatchResult| #[trigger] call_requires(self.extract(), (response,)),
        ensures
            match received {
                Ok(response) => call_ensures(self.extract(), (response,), r),
                Err(_) => match r {
                    Ok(_) => false,
                    Err(e) => e@ == ErrorView::message(
                        "Cannot send request. Internal task finished."@,
                    ),
                },
            },
    {
        match received {
            Ok(response) => {
                assert(call_requires(self.extract(), (response,)));
                (self.extract)(response)
            },
            Err(canceled) => Err(dropped_err(canceled)),
        }
    }
}

/// A client of a node behind a WebSocket.
#[derive(Debug)]
pub struct WebSocket {
    ids: RequestIds,
}

/// The request id that stands for a batch: that of its first call, or zero where it has none.
pub open spec fn batch_id(requests: Seq<(RequestId, jsonrpc_core::Call)>) -> RequestId {
    if requests.len() > 0 {
        requests[0].0
    } else {
        0
    }
}

/// The calls of a batch.
pub open spec fn batch_calls(requests: Seq<(RequestId, jsonrpc_core::Call)>) -> Seq<
    jsonrpc_core::Call,
> {
    requests.map_values(|r: (RequestId, jsonrpc_core::Call)| r.1)
}

impl WebSocket {
    /// The id that is handed out next.
    pub closed spec fn upcoming(&self) -> RequestId {
        self.ids.upcoming()
    }

    /// A client that has sent nothing yet.
    pub fn new() -> (ws: WebSocket)
        ensures
            ws.upcoming() == 1,
    {
        WebSocket { ids: RequestIds::starting_at(1) }
    }

    /// Builds the call of `method` under the next request id.
    pub fn prepare(&mut self, method: &str, params: Vec<Value>) -> (r: (
        RequestId,
        jsonrpc_core::Call,
    ))
        ensures
            r.0 == old(self).upcoming(),
            r.1 == call_of(method_call_view(r.0, method@, params@)),
            final(self).upcoming() == nth_id(r.0, 1),
    {
        let id: RequestId = self.ids.next_id();
        (id, build_request(id, method, params))
    }
}

/// The message that has a request sent, with who waits for the response.
pub fn send_request<P, S>(id: RequestId, request: Request, sender: P) -> (r: TransportMessage<P, S>)
    ensures
        match r {
            TransportMessage::Request { id: sent_id, request: text, sender: to } => sent_id == id
                && text@ == request_json(request@) && to == sender,
            _ => false,
        },
{
    TransportMessage::Request { id, request: to_string(&request), sender }
}

/// The message that has one call sent, with who waits for the response.
pub fn send<P, S>(id: RequestId, call: jsonrpc_core::Call, sender: P) -> (r: TransportMessage<P, S>)
    ensures
        match r {
            TransportMessage::Request { id: sent_id, request: text, sender: to } => sent_id == id
                && text@ == request_json(RequestView::Single(call)) && to == sender,
            _ => false,
        },
{
    send_request(id, Request::Single(call), sender)
}

/// The message that has a batch sent, with who waits for the response. The batch goes under the
/// id of its first call, or under zero where it has none.
pub fn send_batch<P, S>(
    requests: Vec<(RequestId, jsonrpc_core::Call)>,
    sender: P,
) -> (r: TransportMessage<P, S>)
    ensures
        match r {
            TransportMessage::Request { id, request: text, sender: to } => {
                &&& id == batch_id(requests@)
                &&& text@ == request_json(RequestView::Batch(batch_calls(requests@)))
                &&& to == sender
            },
            _ => false,
        },
{
    let ghost all = requests@;
    let id: RequestId = if requests.len() > 0 {
        requests[0].0
    } else {
        0
    };
    let mut calls: Vec<jsonrpc_core::Call> = Vec::new();
    for request in iter: requests
        invariant
            iter.seq() == all,
            calls@.len() == iter.index(),
            forall|i: int| 0 <= i < calls@.len() ==> #[trigger] calls@[i] == all[i].1,
    {
        calls.push(request.1);
    }
    assert(calls@ =~= batch_calls(all));
    send_request(id, Request::Batch(calls), sender)
}

} // verus!
