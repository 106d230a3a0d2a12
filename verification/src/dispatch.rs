//! The inbound dispatcher and the outbound gateway.
//!
//! One inbound envelope at a time is turned into a change of the session
//! state plus one action for the runtime to perform: send a reply, fire the
//! shutdown signal, complete a pending waiter, send a locally-originated
//! request, or drop the message. The whole decision is the pure function
//! `dispatch_step`; `handle_message` computes exactly it.

use vstd::prelude::*;

verus! {

use crate::codec::{encode, encode_spec};
use crate::errors::{ClientDisconnectedError, DecodeError};
use crate::messages::{MessageV, NotificationMethodV, RequestMethodV, ResponseResultV, WsError,
    WsErrorId, WsMessage, WsNotificationMethod, WsRequest, WsRequestMethod, WsResponse};
use crate::session::{has_id, remove_id, AppContext, AppContextV, ClientV};

/// What the runtime must do after one inbound envelope was dispatched.
#[derive(Debug)]
pub enum DispatchAction {
    /// Send this reply to the peer.
    Reply { message: WsMessage },
    /// Send this reply, then — when `fire` — fire the one-shot shutdown
    /// signal, and end the dispatch loop either way.
    ReplyThenShutdown { message: WsMessage, fire: bool },
    /// Complete the waiter that was pending under this id with the answer.
    Resolve { id: String, answer: Result<WsResponse, WsError> },
    /// Send this locally-originated request; its id is registered as pending.
    IssueRequest { request: WsRequest },
    /// A local request could not be issued: no peer is attached.
    NoPeer,
    /// Unmatched or unsolicited: log it and drop it.
    Ignore,
}

/// The mathematical value of a dispatch action.
pub enum ActionV {
    Reply(MessageV),
    ReplyThenShutdown(MessageV, bool),
    Resolve(Seq<char>, Result<MessageV, MessageV>),
    IssueRequest(MessageV),
    NoPeer,
    Ignore,
}

impl View for DispatchAction {
    type V = ActionV;

    open spec fn view(&self) -> ActionV {
        match self {
            DispatchAction::Reply { message } => ActionV::Reply(message@),
            DispatchAction::ReplyThenShutdown { message, fire } => ActionV::ReplyThenShutdown(
                message@,
                *fire,
            ),
            DispatchAction::Resolve { id, answer } => ActionV::Resolve(
                id@,
                match answer {
                    Ok(a) => Ok(a@),
                    Err(e) => Err(e@),
                },
            ),
            DispatchAction::IssueRequest { request } => ActionV::IssueRequest(request@),
            DispatchAction::NoPeer => ActionV::NoPeer,
            DispatchAction::Ignore => ActionV::Ignore,
        }
    }
}

/// The dispatcher's whole decision: what one inbound envelope does to the
/// session, and the one action it produces.
///
/// A `ping` request draws a `pong` response under the same id; an `echo`
/// request draws its text back under the same id; a `shutdown` request draws
/// one `ok` response and consumes the shutdown trigger. An `askMe`
/// notification originates one `echo` request under the fresh id, registered
/// before it is sent — and fails with no state change when no peer is
/// attached. A response or error bearing a pending id removes that slot and
/// resolves its waiter; anything unmatched or unsolicited is dropped with no
/// state change.
pub open spec fn dispatch_step(s: AppContextV, mv: MessageV, fresh: Seq<char>) -> (
    AppContextV,
    ActionV,
) {
    match mv {
        MessageV::Request { id, method } => match method {
            RequestMethodV::Ping => (
                s,
                ActionV::Reply(
                    MessageV::Response { id, result: ResponseResultV::Text("pong"@) },
                ),
            ),
            RequestMethodV::Echo(t) => (
                s,
                ActionV::Reply(MessageV::Response { id, result: ResponseResultV::Text(t) }),
            ),
            RequestMethodV::Shutdown => (
                AppContextV { shutdown_armed: false, ..s },
                ActionV::ReplyThenShutdown(
                    MessageV::Response { id, result: ResponseResultV::Text("ok"@) },
                    s.shutdown_armed,
                ),
            ),
        },
        MessageV::Notification { method: NotificationMethodV::AskMe(t) } => match s.client {
            None => (s, ActionV::NoPeer),
            Some(c) => if has_id(c.pending, fresh) {
                (s, ActionV::Ignore)
            } else {
                (
                    AppContextV {
                        client: Some(
                            ClientV { origin: c.origin, pending: c.pending.push(fresh) },
                        ),
                        ..s
                    },
                    ActionV::IssueRequest(
                        MessageV::Request { id: fresh, method: RequestMethodV::Echo(t) },
                    ),
                )
            },
        },
        MessageV::Response { id, result } => match s.client {
            Some(c) => if has_id(c.pending, id) {
                (
                    AppContextV {
                        client: Some(
                            ClientV { origin: c.origin, pending: remove_id(c.pending, id) },
                        ),
                        ..s
                    },
                    ActionV::Resolve(id, Ok(MessageV::Response { id, result })),
                )
            } else {
                (s, ActionV::Ignore)
            },
            None => (s, ActionV::Ignore),
        },
        MessageV::Error { id: Some(i), eid, message } => match s.client {
            Some(c) => if has_id(c.pending, i) {
                (
                    AppContextV {
                        client: Some(
                            ClientV { origin: c.origin, pending: remove_id(c.pending, i) },
                        ),
                        ..s
                    },
                    ActionV::Resolve(i, Err(MessageV::Error { id: Some(i), eid, message })),
                )
            } else {
                (s, ActionV::Ignore)
            },
            None => (s, ActionV::Ignore),
        },
        MessageV::Error { id: None, eid, message } => (s, ActionV::Ignore),
    }
}

/// Dispatches one decoded inbound envelope: performs exactly the state change
/// of `dispatch_step` on the session and returns exactly its action. The
/// fresh id is used only when an `askMe` notification originates a request.
pub fn handle_message(ctx: &mut AppContext, msg: WsMessage, fresh_id: String) -> (a:
    DispatchAction)
    requires
        old(ctx)@.wf(),
    ensures
        final(ctx)@.wf(),
        (final(ctx)@, a@) == dispatch_step(old(ctx)@, msg@, fresh_id@),
{
    match msg {
        WsMessage::Request(req) => match req.method {
            WsRequestMethod::Ping => DispatchAction::Reply {
                message: WsMessage::Response(WsResponse::pong_response(req.id)),
            },
            WsRequestMethod::Echo(t) => DispatchAction::Reply {
                message: WsMessage::Response(WsResponse::text_response(req.id, t)),
            },
            WsRequestMethod::Shutdown => {
                let reply = WsResponse::ok_response(req.id);
                let fire = ctx.shutdown();
                DispatchAction::ReplyThenShutdown { message: WsMessage::Response(reply), fire }
            },
        },
        WsMessage::Notification(n) => match n.method {
            WsNotificationMethod::AskMe(t) => {
                if !ctx.client_exists() {
                    DispatchAction::NoPeer
                } else if ctx.has_pending(&fresh_id) {
                    DispatchAction::Ignore
                } else {
                    let id_for_request = fresh_id.clone();
                    match ctx.register_pending(fresh_id) {
                        Ok(()) => DispatchAction::IssueRequest {
                            request: WsRequest {
                                id: id_for_request,
                                method: WsRequestMethod::Echo(t),
                            },
                        },
                        Err(_) => {
                            proof {
                                assert(false);
                            }
                            DispatchAction::Ignore
                        },
                    }
                }
            },
        },
        WsMessage::Response(resp) => {
            if ctx.remove_pending(&resp.id) {
                let id = resp.id.clone();
                DispatchAction::Resolve { id, answer: Ok(resp) }
            } else {
                DispatchAction::Ignore
            }
        },
        WsMessage::Error(e) => match e.id {
            Some(id) => {
                if ctx.remove_pending(&id) {
                    let id_for_action = id.clone();
                    DispatchAction::Resolve {
                        id: id_for_action,
                        answer: Err(WsError { id: Some(id), eid: e.eid, message: e.message }),
                    }
                } else {
                    DispatchAction::Ignore
                }
            },
            None => DispatchAction::Ignore,
        },
    }
}

/// The error envelope sent back to the peer when an inbound frame failed to
/// decode; the connection stays open.
pub fn decode_failure_reply(e: &DecodeError) -> (r: WsMessage)
    ensures
        r@ == (MessageV::Error {
            id: None,
            eid: WsErrorId::IncorrectInput,
            message: "incorrect input: not a recognized message"@,
        }),
{
    WsError::new_no_id(WsErrorId::IncorrectInput, e.message())
}

/// The outbound gateway's computation: the frame to enqueue on the attached
/// peer's channel, or the distinct no-peer failure when none is attached.
pub fn prepare_send(ctx: &AppContext, msg: &WsMessage) -> (r: Result<
    String,
    ClientDisconnectedError,
>)
    ensures
        ctx@.client is Some ==> r is Ok && (r->Ok_0)@ == encode_spec(msg@),
        ctx@.client is None ==> r is Err,
{
    if ctx.client_exists() {
        Ok(encode(msg))
    } else {
        Err(ClientDisconnectedError {})
    }
}

/// Issues a locally-originated request: registers its id as a pending
/// resolution slot first, then yields the encoded frame to send — so no reply
/// can arrive before its waiter exists. Fails immediately, registering
/// nothing, while no peer is attached. Should sending the frame fail
/// afterwards, the caller takes the slot back out with `remove_pending`, so
/// no orphaned waiter remains.
pub fn issue_request(ctx: &mut AppContext, request: WsRequest) -> (r: Result<
    String,
    ClientDisconnectedError,
>)
    requires
        old(ctx)@.wf(),
    ensures
        final(ctx)@.wf(),
        old(ctx)@.client is None ==> r is Err && final(ctx)@ == old(ctx)@,
        old(ctx)@.client is Some ==> r is Ok && (r->Ok_0)@ == encode_spec(
            MessageV::Request { id: request.id@, method: request.method@ },
        ) && final(ctx)@.shutdown_armed == old(ctx)@.shutdown_armed && final(ctx)@.client is Some
            && final(ctx)@.client->Some_0.origin == old(ctx)@.client->Some_0.origin
            && final(ctx)@.pending() == (if has_id(old(ctx)@.pending(), request.id@) {
            old(ctx)@.pending()
        } else {
            old(ctx)@.pending().push(request.id@)
        }),
{
    let id = request.id.clone();
    let msg = WsMessage::Request(request);
    match ctx.register_pending(id) {
        Err(e) => Err(e),
        Ok(()) => match prepare_send(ctx, &msg) {
            Ok(t) => Ok(t),
            Err(e) => {
                proof {
                    assert(false);
                }
                Err(e)
            },
        },
    }
}

/// Relies on uuid::Uuid::new_v4 and Uuid::hyphenated: a randomly drawn
/// version-4 identifier, rendered in its hyphenated form of 36 characters.
/// Should the operating system's random source itself fail, the call aborts
/// the process — an environmental failure, like running out of memory, that
/// no input can bring about.
#[verifier::external_body]
fn new_request_id() -> (r: String)
    ensures
        r@.len() == 36,
{
    uuid::Uuid::new_v4().hyphenated().to_string()
}

/// Draws a fresh correlation id for a locally-originated request: one that no
/// pending request of the attached peer already carries. With an empty
/// pending table an id is always produced; it yields nothing only in the
/// vanishingly rare case that the drawn 36-character identifier collides with
/// an identifier already pending.
pub fn fresh_request_id(ctx: &AppContext) -> (r: Option<String>)
    ensures
        r matches Some(id) ==> !has_id(ctx@.pending(), id@) && id@.len() == 36,
        ctx@.pending().len() == 0 ==> r is Some,
        r is None ==> exists|i: int|
            0 <= i < ctx@.pending().len() && ctx@.pending()[i].len() == 36,
{
    let id = new_request_id();
    if ctx.has_pending(&id) {
        proof {
            let i = choose|i: int|
                0 <= i < ctx@.pending().len() && ctx@.pending()[i] == id@;
            assert(ctx@.pending()[i].len() == 36);
        }
        None
    } else {
        Some(id)
    }
}

/// A `ping` request always draws exactly one `pong` response bearing the
/// request's own id, and changes no session state.
pub proof fn lemma_ping_reply(s: AppContextV, id: Seq<char>, fresh: Seq<char>)
    ensures
        dispatch_step(s, MessageV::Request { id, method: RequestMethodV::Ping }, fresh) == (
            s,
            ActionV::Reply(MessageV::Response { id, result: ResponseResultV::Text("pong"@) }),
        ),
{
}

/// An `echo` request always draws exactly one response carrying the request's
/// own text and id, and changes no session state.
pub proof fn lemma_echo_reply(s: AppContextV, id: Seq<char>, t: Seq<char>, fresh: Seq<char>)
    ensures
        dispatch_step(s, MessageV::Request { id, method: RequestMethodV::Echo(t) }, fresh) == (
            s,
            ActionV::Reply(MessageV::Response { id, result: ResponseResultV::Text(t) }),
        ),
{
}

/// A `shutdown` request draws exactly one `ok` response, and the shutdown
/// signal fires only after it, and only when still armed: handling a second
/// `shutdown` request fires nothing.
pub proof fn lemma_shutdown_once(s: AppContextV, id1: Seq<char>, id2: Seq<char>, fresh: Seq<char>)
    ensures
        dispatch_step(s, MessageV::Request { id: id1, method: RequestMethodV::Shutdown }, fresh)
            == (
            AppContextV { shutdown_armed: false, ..s },
            ActionV::ReplyThenShutdown(
                MessageV::Response { id: id1, result: ResponseResultV::Text("ok"@) },
                s.shutdown_armed,
            ),
        ),
        dispatch_step(
            dispatch_step(s, MessageV::Request { id: id1, method: RequestMethodV::Shutdown }, fresh).0,
            MessageV::Request { id: id2, method: RequestMethodV::Shutdown },
            fresh,
        ).1 == ActionV::ReplyThenShutdown(
            MessageV::Response { id: id2, result: ResponseResultV::Text("ok"@) },
            false,
        ),
{
}

/// An `askMe` notification with a peer attached originates exactly one
/// outbound `echo` request carrying the notification's text under the fresh
/// id — an id distinct from every pending one — and that id alone joins the
/// pending table.
pub proof fn lemma_ask_me(s: AppContextV, t: Seq<char>, fresh: Seq<char>)
    requires
        s.client is Some,
        !has_id(s.pending(), fresh),
    ensures
        dispatch_step(s, MessageV::Notification { method: NotificationMethodV::AskMe(t) }, fresh)
            == (
            AppContextV {
                client: Some(
                    ClientV {
                        origin: s.client->Some_0.origin,
                        pending: s.pending().push(fresh),
                    },
                ),
                ..s
            },
            ActionV::IssueRequest(MessageV::Request { id: fresh, method: RequestMethodV::Echo(t) }),
        ),
{
}

} // verus!
