//! Payloads of the WebSocket wire frames, one struct per request and
//! response listed in the dispatch table, plus the pushed message shape.

use vstd::prelude::*;

verus! {

#[derive(Debug, Clone, PartialEq, Eq)]
pub struct RegisterUserReq {
    pub username: String,
    pub password: String,
}

#[derive(Debug, Clone, PartialEq, Eq)]
pub struct RegisterUserRsp {
    pub user_id: String,
}

#[derive(Debug, Clone, PartialEq, Eq)]
pub struct LoginUserReq {
    pub username: String,
    pub password: String,
}

#[derive(Debug, Clone, PartialEq, Eq)]
pub struct LoginUserRsp {
    pub token: String,
}

#[derive(Debug, Clone, PartialEq, Eq)]
pub struct GetUserInfoReq {
    pub user_id: String,
}

#[derive(Debug, Clone, PartialEq, Eq)]
pub struct GetUserInfoRsp {
    pub user_id: String,
    pub username: String,
    pub created_at: i64,
}

#[derive(Debug, Clone, PartialEq, Eq)]
pub struct CreateChannelReq {
    pub name: String,
    pub creator_id: String,
}

#[derive(Debug, Clone, PartialEq, Eq)]
pub struct CreateChannelRsp {
    pub channel_id: String,
    pub channel_name: String,
}

#[derive(Debug, Clone, PartialEq, Eq)]
pub struct ChannelMember {
    pub user_id: String,
    pub joined_at: i64,
}

#[derive(Debug, Clone, PartialEq, Eq)]
pub struct ChannelDetail {
    pub channel_id: String,
    pub channel_name: String,
    pub members: Vec<ChannelMember>,
}

#[derive(Debug, Clone, PartialEq, Eq)]
pub struct ListChannelDetailsReq {
    pub user_id: String,
}

#[derive(Debug, Clone, PartialEq, Eq)]
pub struct ListChannelDetailsRsp {
    pub channels: Vec<ChannelDetail>,
}

#[derive(Debug, Clone, PartialEq, Eq)]
pub struct JoinChannelReq {
    pub channel_id: String,
    pub user_id: String,
}

#[derive(Debug, Clone, PartialEq, Eq)]
pub struct JoinChannelRsp {
    pub channel_id: String,
    pub user_id: String,
}

#[derive(Debug, Clone, PartialEq, Eq)]
pub struct CreateMessageReq {
    pub channel_id: String,
    pub user_id: String,
    pub content: String,
}

#[derive(Debug, Clone, PartialEq, Eq)]
pub struct CreateMessageRsp {
    pub message_id: String,
}

#[derive(Debug, Clone, PartialEq, Eq)]
pub struct MessageDetail {
    pub message_id: String,
    pub channel_id: String,
    pub sender_id: String,
    pub content: String,
    pub timestamp: i64,
}

#[derive(Debug, Clone, PartialEq, Eq)]
pub struct ListMessagesReq {
    pub channel_id: String,
    pub limit: usize,
    pub latest_time: i64,
}

#[derive(Debug, Clone, PartialEq, Eq)]
pub struct ListMessagesRsp {
    pub messages: Vec<MessageDetail>,
}

/// A backend-originated message pushed to a connected user.
#[derive(Debug, Clone, PartialEq, Eq)]
pub struct DispatchedMessage {
    pub message_id: String,
    pub channel_id: String,
    pub user_id: String,
    pub content: String,
    pub timestamp: i64,
}

} // verus!
