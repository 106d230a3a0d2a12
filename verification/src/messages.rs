//! The message envelope model: the four wire envelope kinds (Request,
//! Notification, Response, Error), their method and payload enumerations, and
//! the constructors callers use to build them.

use vstd::prelude::*;

verus! {

use vstd::string::StringExecFns;

/// One wire message: a request that expects exactly one reply, a one-way
/// notification, a response answering a request, or an error report.
#[derive(Debug)]
pub enum WsMessage {
    Request(WsRequest),
    Notification(WsNotification),
    Response(WsResponse),
    Error(WsError),
}

/// A request envelope: the caller-chosen correlation id and the method.
#[derive(Debug)]
pub struct WsRequest {
    pub id: String,
    pub method: WsRequestMethod,
}

/// A notification envelope: fire-and-forget, no reply is possible.
#[derive(Debug)]
pub struct WsNotification {
    pub method: WsNotificationMethod,
}

/// A response envelope answering the request with the same id.
#[derive(Debug)]
pub struct WsResponse {
    pub id: String,
    pub result: WsResponseResult,
}

/// An error envelope: answers a request (id present) or reports an
/// unsolicited protocol-level failure (id absent).
#[derive(Debug)]
pub struct WsError {
    pub id: Option<String>,
    pub eid: WsErrorId,
    pub message: String,
}

/// The closed set of request methods.
#[derive(Debug)]
pub enum WsRequestMethod {
    Ping,
    Echo(String),
    Shutdown,
}

/// The closed set of notification methods.
#[derive(Debug)]
pub enum WsNotificationMethod {
    AskMe(String),
}

/// The result payload of a response; open for future variants.
#[derive(Debug)]
pub enum WsResponseResult {
    Text(String),
}

/// The closed enumeration of error kinds.
#[derive(Clone, Copy, Debug, PartialEq, Eq, Structural)]
pub enum WsErrorId {
    IncorrectInput,
}

/// A request for a set of topics; reserved for a future subscription
/// exchange.
#[derive(Debug)]
pub struct TopicsRequest {
    pub topics: Vec<String>,
}

/// The mathematical value of an envelope: every text payload as a sequence of
/// characters. Contracts and the codec specification speak of this type.
#[allow(inconsistent_fields)]
pub enum MessageV {
    Request { id: Seq<char>, method: RequestMethodV },
    Notification { method: NotificationMethodV },
    Response { id: Seq<char>, result: ResponseResultV },
    Error { id: Option<Seq<char>>, eid: WsErrorId, message: Seq<char> },
}

pub enum RequestMethodV {
    Ping,
    Echo(Seq<char>),
    Shutdown,
}

pub enum NotificationMethodV {
    AskMe(Seq<char>),
}

pub enum ResponseResultV {
    Text(Seq<char>),
}

impl View for WsRequestMethod {
    type V = RequestMethodV;

    open spec fn view(&self) -> RequestMethodV {
        match self {
            WsRequestMethod::Ping => RequestMethodV::Ping,
            WsRequestMethod::Echo(t) => RequestMethodV::Echo(t@),
            WsRequestMethod::Shutdown => RequestMethodV::Shutdown,
        }
    }
}

impl View for WsNotificationMethod {
    type V = NotificationMethodV;

    open spec fn view(&self) -> NotificationMethodV {
        match self {
            WsNotificationMethod::AskMe(t) => NotificationMethodV::AskMe(t@),
        }
    }
}

impl View for WsResponseResult {
    type V = ResponseResultV;

    open spec fn view(&self) -> ResponseResultV {
        match self {
            WsResponseResult::Text(t) => ResponseResultV::Text(t@),
        }
    }
}

impl View for WsRequest {
    type V = MessageV;

    open spec fn view(&self) -> MessageV {
        MessageV::Request { id: self.id@, method: self.method@ }
    }
}

impl View for WsNotification {
    type V = MessageV;

    open spec fn view(&self) -> MessageV {
        MessageV::Notification { method: self.method@ }
    }
}

impl View for WsResponse {
    type V = MessageV;

    open spec fn view(&self) -> MessageV {
        MessageV::Response { id: self.id@, result: self.result@ }
    }
}

impl View for WsError {
    type V = MessageV;

    open spec fn view(&self) -> MessageV {
        MessageV::Error {
            id: match &self.id {
                Some(s) => Some(s@),
                None => None,
            },
            eid: self.eid,
            message: self.message@,
        }
    }
}

impl View for WsMessage {
    type V = MessageV;

    open spec fn view(&self) -> MessageV {
        match self {
            WsMessage::Request(r) => r@,
            WsMessage::Notification(n) => n@,
            WsMessage::Response(r) => r@,
            WsMessage::Error(e) => e@,
        }
    }
}

impl WsRequest {
    pub fn new(id: String, method: WsRequestMethod) -> (r: WsRequest)
        ensures
            r@ == (MessageV::Request { id: id@, method: method@ }),
    {
        WsRequest { id, method }
    }
}

impl WsNotification {
    pub fn new(method: WsNotificationMethod) -> (r: WsMessage)
        ensures
            r@ == (MessageV::Notification { method: method@ }),
    {
        WsMessage::Notification(WsNotification { method })
    }
}

impl WsResponse {
    /// The reply to a `ping` request: the literal text `pong` under the
    /// request's id.
    pub fn pong_response(id: String) -> (r: WsResponse)
        ensures
            r@ == (MessageV::Response { id: id@, result: ResponseResultV::Text("pong"@) }),
    {
        WsResponse { id, result: WsResponseResult::Text(String::from_str("pong")) }
    }

    /// The reply to a `shutdown` request: the literal text `ok` under the
    /// request's id.
    pub fn ok_response(id: String) -> (r: WsResponse)
        ensures
            r@ == (MessageV::Response { id: id@, result: ResponseResultV::Text("ok"@) }),
    {
        WsResponse { id, result: WsResponseResult::Text(String::from_str("ok")) }
    }

    pub fn text_response(id: String, message: String) -> (r: WsResponse)
        ensures
            r@ == (MessageV::Response { id: id@, result: ResponseResultV::Text(message@) }),
    {
        WsResponse { id, result: WsResponseResult::Text(message) }
    }

    pub fn text_response_string(id: String, message: String) -> (r: WsResponse)
        ensures
            r@ == (MessageV::Response { id: id@, result: ResponseResultV::Text(message@) }),
    {
        WsResponse { id, result: WsResponseResult::Text(message) }
    }

    pub fn response_from(id: String, result: WsResponseResult) -> (r: WsResponse)
        ensures
            r@ == (MessageV::Response { id: id@, result: result@ }),
    {
        WsResponse { id, result }
    }
}

impl WsError {
    pub fn new(id: String, eid: WsErrorId, message: String) -> (r: WsMessage)
        ensures
            r@ == (MessageV::Error { id: Some(id@), eid, message: message@ }),
    {
        WsMessage::Error(WsError { id: Some(id), eid, message })
    }

    pub fn new_no_id(eid: WsErrorId, message: String) -> (r: WsMessage)
        ensures
            r@ == (MessageV::Error { id: None, eid, message: message@ }),
    {
        WsMessage::Error(WsError { id: None, eid, message })
    }

    pub fn new_string(id: String, eid: WsErrorId, message: String) -> (r: WsMessage)
        ensures
            r@ == (MessageV::Error { id: Some(id@), eid, message: message@ }),
    {
        WsMessage::Error(WsError { id: Some(id), eid, message })
    }

    pub fn new_no_id_string(eid: WsErrorId, message: String) -> (r: WsMessage)
        ensures
            r@ == (MessageV::Error { id: None, eid, message: message@ }),
    {
        WsMessage::Error(WsError { id: None, eid, message })
    }
}

} // verus!
