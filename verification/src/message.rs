//! The internal message type flowing through a session's outbound queue.

use vstd::prelude::*;

use crate::model::{
    CreateChannelRsp, CreateMessageRsp, DispatchedMessage, GetUserInfoRsp, JoinChannelRsp,
    ListChannelDetailsRsp, ListMessagesRsp, LoginUserRsp, RegisterUserRsp,
};

verus! {

/// One unit of outbound work for a session: a control reply, a pushed
/// message, or the response to an earlier request. Every variant maps to
/// exactly one outbound wire frame.
#[derive(Debug, Clone, PartialEq, Eq)]
pub enum ServiceMessage {
    Pong,
    DispatchMessage(DispatchedMessage),
    RegisterUserRsp(RegisterUserRsp),
    LoginUserRsp(LoginUserRsp),
    GetUserInfoRsp(GetUserInfoRsp),
    CreateChannelRsp(CreateChannelRsp),
    ListChannelDetailsRsp(ListChannelDetailsRsp),
    JoinChannelRsp(JoinChannelRsp),
    CreateMessageRsp(CreateMessageRsp),
    ListMessagesRsp(ListMessagesRsp),
}

} // verus!
