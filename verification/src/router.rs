//! The request router: turns inbound frames into typed work, maps each
//! request to its upstream service and hash key, and turns every outbound
//! message into exactly one wire frame.

use vstd::prelude::*;

use crate::codec::{is_wire_req, parse_req, serialize_req, spec_ser_req, ReqMessage};
use crate::message::ServiceMessage;
use crate::registry::store::{ServiceData, Store};
use crate::result::ServiceError;
use crate::model::{
    CreateChannelRsp, CreateMessageRsp, GetUserInfoRsp, JoinChannelRsp, ListChannelDetailsRsp,
    ListMessagesRsp, LoginUserRsp, RegisterUserRsp,
};
use crate::rsp_codec::{serialize_rsp, spec_ser_rsp, RspMessage};
use crate::upstream::Service;

verus! {

/// A WebSocket frame, as the session logic sees it.
#[derive(Debug, Clone, PartialEq, Eq)]
pub enum WsFrame {
    Text(String),
    Binary(Vec<u8>),
    Ping(Vec<u8>),
    Pong(Vec<u8>),
    Close,
}

/// What the session should do with one inbound frame.
#[derive(Debug, Clone, PartialEq, Eq)]
pub enum FrameFlow {
    /// Enqueue this message and keep the session alive.
    Reply(ServiceMessage),
    /// Nothing to do; keep the session alive.
    Ignore,
    /// Perform this request against its upstream.
    Request(ReqMessage),
    /// The peer closed; end the session cleanly.
    CloseClean,
    /// Protocol error; end the session with this reason.
    Fail(String),
}

/// Classifies one inbound frame: Ping is answered with a Pong, Pong is
/// ignored, Close ends the session cleanly, Binary is a protocol error,
/// and Text must parse as a canonical request frame.
pub fn handle_websock_message(frame: WsFrame) -> (r: FrameFlow)
    ensures
        match frame {
            WsFrame::Ping(_) => r matches FrameFlow::Reply(m) && m is Pong,
            WsFrame::Pong(_) => r is Ignore,
            WsFrame::Close => r is CloseClean,
            WsFrame::Binary(_) => r is Fail,
            WsFrame::Text(t) => {
                &&& (r matches FrameFlow::Request(m) ==> t@ == spec_ser_req(m))
                &&& (forall|m: ReqMessage| #[trigger] is_wire_req(t@, m) ==> r is Request)
                &&& (r is Request || r is Fail)
            },
        },
{
    match frame {
        WsFrame::Ping(_) => FrameFlow::Reply(ServiceMessage::Pong),
        WsFrame::Pong(_) => FrameFlow::Ignore,
        WsFrame::Close => FrameFlow::CloseClean,
        WsFrame::Binary(_) => FrameFlow::Fail(String::from_str("Binary messages are not supported")),
        WsFrame::Text(t) => match parse_req(t.as_str()) {
            Some(m) => FrameFlow::Request(m),
            None => FrameFlow::Fail(String::from_str("Failed to parse request message")),
        },
    }
}

/// The upstream service a request is routed to.
pub open spec fn spec_route_service(m: ReqMessage) -> Service {
    match m {
        ReqMessage::RegisterUser(_) => Service::UserService,
        ReqMessage::LoginUser(_) => Service::UserService,
        ReqMessage::GetUserInfo(_) => Service::UserService,
        ReqMessage::CreateChannel(_) => Service::ChannelService,
        ReqMessage::ListChannelDetails(_) => Service::ChannelService,
        ReqMessage::JoinChannel(_) => Service::ChannelService,
        ReqMessage::CreateMessage(_) => Service::MessageService,
        ReqMessage::ListMessages(_) => Service::MessageService,
    }
}

/// The key whose hash selects the serving instance of that service.
pub open spec fn spec_route_key(m: ReqMessage) -> Seq<char> {
    match m {
        ReqMessage::RegisterUser(p) => p.username@,
        ReqMessage::LoginUser(p) => p.username@,
        ReqMessage::GetUserInfo(p) => p.user_id@,
        ReqMessage::CreateChannel(p) => p.creator_id@,
        ReqMessage::ListChannelDetails(p) => p.user_id@,
        ReqMessage::JoinChannel(p) => p.user_id@,
        ReqMessage::CreateMessage(p) => p.user_id@,
        ReqMessage::ListMessages(p) => p.channel_id@,
    }
}

/// The dispatch table: which registry serves a request, and under which
/// hash key an instance is selected.
pub fn route_request(req: &ReqMessage) -> (r: (Service, String))
    ensures
        r.0 == spec_route_service(*req),
        r.1@ == spec_route_key(*req),
{
    match req {
        ReqMessage::RegisterUser(p) => (Service::UserService, p.username.clone()),
        ReqMessage::LoginUser(p) => (Service::UserService, p.username.clone()),
        ReqMessage::GetUserInfo(p) => (Service::UserService, p.user_id.clone()),
        ReqMessage::CreateChannel(p) => (Service::ChannelService, p.creator_id.clone()),
        ReqMessage::ListChannelDetails(p) => (Service::ChannelService, p.user_id.clone()),
        ReqMessage::JoinChannel(p) => (Service::ChannelService, p.user_id.clone()),
        ReqMessage::CreateMessage(p) => (Service::MessageService, p.user_id.clone()),
        ReqMessage::ListMessages(p) => (Service::MessageService, p.channel_id.clone()),
    }
}

/// A typed upstream response, one variant per request kind.
#[derive(Debug, Clone, PartialEq, Eq)]
pub enum UpstreamReply {
    RegisterUser(RegisterUserRsp),
    LoginUser(LoginUserRsp),
    GetUserInfo(GetUserInfoRsp),
    CreateChannel(CreateChannelRsp),
    ListChannelDetails(ListChannelDetailsRsp),
    JoinChannel(JoinChannelRsp),
    CreateMessage(CreateMessageRsp),
    ListMessages(ListMessagesRsp),
}

/// Wraps an upstream response into the outbound message for the session
/// that issued the request.
pub fn service_message_of_reply(reply: UpstreamReply) -> (r: ServiceMessage)
    ensures
        match reply {
            UpstreamReply::RegisterUser(p) => r == ServiceMessage::RegisterUserRsp(p),
            UpstreamReply::LoginUser(p) => r == ServiceMessage::LoginUserRsp(p),
            UpstreamReply::GetUserInfo(p) => r == ServiceMessage::GetUserInfoRsp(p),
            UpstreamReply::CreateChannel(p) => r == ServiceMessage::CreateChannelRsp(p),
            UpstreamReply::ListChannelDetails(p) => r == ServiceMessage::ListChannelDetailsRsp(p),
            UpstreamReply::JoinChannel(p) => r == ServiceMessage::JoinChannelRsp(p),
            UpstreamReply::CreateMessage(p) => r == ServiceMessage::CreateMessageRsp(p),
            UpstreamReply::ListMessages(p) => r == ServiceMessage::ListMessagesRsp(p),
        },
{
    match reply {
        UpstreamReply::RegisterUser(p) => ServiceMessage::RegisterUserRsp(p),
        UpstreamReply::LoginUser(p) => ServiceMessage::LoginUserRsp(p),
        UpstreamReply::GetUserInfo(p) => ServiceMessage::GetUserInfoRsp(p),
        UpstreamReply::CreateChannel(p) => ServiceMessage::CreateChannelRsp(p),
        UpstreamReply::ListChannelDetails(p) => ServiceMessage::ListChannelDetailsRsp(p),
        UpstreamReply::JoinChannel(p) => ServiceMessage::JoinChannelRsp(p),
        UpstreamReply::CreateMessage(p) => ServiceMessage::CreateMessageRsp(p),
        UpstreamReply::ListMessages(p) => ServiceMessage::ListMessagesRsp(p),
    }
}

/// Turns one outbound message into its wire frame: a Pong control frame for
/// `Pong`, else the canonical text frame of the response envelope. Exactly
/// one frame exists per message.
pub fn handle_serv_message(serv_message: ServiceMessage) -> (r: Option<WsFrame>)
    ensures
        r is Some,
        match serv_message {
            ServiceMessage::Pong => r matches Some(f) && f matches WsFrame::Pong(b) && b@
                == Seq::<u8>::empty(),
            ServiceMessage::DispatchMessage(d) => r matches Some(f) && f matches WsFrame::Text(t)
                && t@ == spec_ser_rsp(RspMessage::DispatchMessage(d)),
            ServiceMessage::RegisterUserRsp(p) => r matches Some(f) && f matches WsFrame::Text(t)
                && t@ == spec_ser_rsp(RspMessage::RegisterUser(p)),
            ServiceMessage::LoginUserRsp(p) => r matches Some(f) && f matches WsFrame::Text(t)
                && t@ == spec_ser_rsp(RspMessage::LoginUser(p)),
            ServiceMessage::GetUserInfoRsp(p) => r matches Some(f) && f matches WsFrame::Text(t)
                && t@ == spec_ser_rsp(RspMessage::GetUserInfo(p)),
            ServiceMessage::CreateChannelRsp(p) => r matches Some(f) && f matches WsFrame::Text(t)
                && t@ == spec_ser_rsp(RspMessage::CreateChannel(p)),
            ServiceMessage::ListChannelDetailsRsp(p) => r matches Some(f) && f matches
                WsFrame::Text(t) && t@ == spec_ser_rsp(RspMessage::ListChannelDetails(p)),
            ServiceMessage::JoinChannelRsp(p) => r matches Some(f) && f matches WsFrame::Text(t)
                && t@ == spec_ser_rsp(RspMessage::JoinChannel(p)),
            ServiceMessage::CreateMessageRsp(p) => r matches Some(f) && f matches WsFrame::Text(t)
                && t@ == spec_ser_rsp(RspMessage::CreateMessage(p)),
            ServiceMessage::ListMessagesRsp(p) => r matches Some(f) && f matches WsFrame::Text(t)
                && t@ == spec_ser_rsp(RspMessage::ListMessages(p)),
        },
{
    match serv_message {
        ServiceMessage::Pong => Some(WsFrame::Pong(Vec::new())),
        ServiceMessage::DispatchMessage(d) => Some(
            WsFrame::Text(serialize_rsp(&RspMessage::DispatchMessage(d))),
        ),
        ServiceMessage::RegisterUserRsp(p) => Some(
            WsFrame::Text(serialize_rsp(&RspMessage::RegisterUser(p))),
        ),
        ServiceMessage::LoginUserRsp(p) => Some(
            WsFrame::Text(serialize_rsp(&RspMessage::LoginUser(p))),
        ),
        ServiceMessage::GetUserInfoRsp(p) => Some(
            WsFrame::Text(serialize_rsp(&RspMessage::GetUserInfo(p))),
        ),
        ServiceMessage::CreateChannelRsp(p) => Some(
            WsFrame::Text(serialize_rsp(&RspMessage::CreateChannel(p))),
        ),
        ServiceMessage::ListChannelDetailsRsp(p) => Some(
            WsFrame::Text(serialize_rsp(&RspMessage::ListChannelDetails(p))),
        ),
        ServiceMessage::JoinChannelRsp(p) => Some(
            WsFrame::Text(serialize_rsp(&RspMessage::JoinChannel(p))),
        ),
        ServiceMessage::CreateMessageRsp(p) => Some(
            WsFrame::Text(serialize_rsp(&RspMessage::CreateMessage(p))),
        ),
        ServiceMessage::ListMessagesRsp(p) => Some(
            WsFrame::Text(serialize_rsp(&RspMessage::ListMessages(p))),
        ),
    }
}

/// Selects the instance of a store that serves `key`, or reports the
/// upstream as unreachable exactly when the store holds no instance.
pub fn pick_or_unaccessible<'a, S: Store>(store: &'a S, key: &str) -> (r: Result<
    &'a ServiceData<S::Extra>,
    ServiceError,
>)
    requires
        store.inv(),
    ensures
        (r is Err) <==> store.records().len() == 0,
        r matches Err(e) ==> e == ServiceError::UpstreamUnaccesibleError,
        r matches Ok(d) ==> store.records().contains_key(d.spec_id()) && store.records()[
            d.spec_id()
        ] == *d,
{
    match store.pick(key) {
        Some(d) => Ok(d),
        None => Err(ServiceError::UpstreamUnaccesibleError),
    }
}

} // verus!
