//! Canonical wire form of the outbound response frames, including the
//! pushed-message frame, in the same envelope as the requests.

use vstd::prelude::*;

use crate::codec::{int_enc, obj1, obj2, str_enc, write_i64, write_json_string};
use crate::model::{
    ChannelDetail, ChannelMember, CreateChannelRsp, CreateMessageRsp, DispatchedMessage,
    GetUserInfoRsp, JoinChannelRsp, ListChannelDetailsRsp, ListMessagesRsp, LoginUserRsp,
    MessageDetail, RegisterUserRsp,
};
use crate::text::push_char;

verus! {

/// A typed response frame sent to a user.
#[derive(Debug, Clone, PartialEq, Eq)]
pub enum RspMessage {
    RegisterUser(RegisterUserRsp),
    LoginUser(LoginUserRsp),
    GetUserInfo(GetUserInfoRsp),
    CreateChannel(CreateChannelRsp),
    ListChannelDetails(ListChannelDetailsRsp),
    JoinChannel(JoinChannelRsp),
    CreateMessage(CreateMessageRsp),
    ListMessages(ListMessagesRsp),
    DispatchMessage(DispatchedMessage),
}

pub open spec fn spec_ser_register_user_rsp(p: RegisterUserRsp) -> Seq<char> {
    obj1("{\"user_id\":"@, p.user_id@)
}

pub open spec fn spec_ser_login_user_rsp(p: LoginUserRsp) -> Seq<char> {
    obj1("{\"token\":"@, p.token@)
}

pub open spec fn spec_ser_get_user_info_rsp(p: GetUserInfoRsp) -> Seq<char> {
    "{\"user_id\":"@ + str_enc(p.user_id@) + ",\"username\":"@ + str_enc(p.username@)
        + ",\"created_at\":"@ + int_enc(p.created_at as int) + seq!['}']
}

pub open spec fn spec_ser_create_channel_rsp(p: CreateChannelRsp) -> Seq<char> {
    obj2("{\"channel_id\":"@, ",\"channel_name\":"@, p.channel_id@, p.channel_name@)
}

pub open spec fn spec_ser_member(m: ChannelMember) -> Seq<char> {
    "{\"user_id\":"@ + str_enc(m.user_id@) + ",\"joined_at\":"@ + int_enc(m.joined_at as int)
        + seq!['}']
}

pub open spec fn spec_ser_members(s: Seq<ChannelMember>) -> Seq<char>
    decreases s.len(),
{
    if s.len() == 0 {
        Seq::empty()
    } else if s.len() == 1 {
        spec_ser_member(s[0])
    } else {
        spec_ser_members(s.drop_last()) + seq![','] + spec_ser_member(s.last())
    }
}

pub open spec fn spec_ser_channel_detail(d: ChannelDetail) -> Seq<char> {
    "{\"channel_id\":"@ + str_enc(d.channel_id@) + ",\"channel_name\":"@ + str_enc(
        d.channel_name@,
    ) + ",\"members\":["@ + spec_ser_members(d.members@) + "]}"@
}

pub open spec fn spec_ser_channel_details(s: Seq<ChannelDetail>) -> Seq<char>
    decreases s.len(),
{
    if s.len() == 0 {
        Seq::empty()
    } else if s.len() == 1 {
        spec_ser_channel_detail(s[0])
    } else {
        spec_ser_channel_details(s.drop_last()) + seq![','] + spec_ser_channel_detail(s.last())
    }
}

pub open spec fn spec_ser_list_channel_details_rsp(p: ListChannelDetailsRsp) -> Seq<char> {
    "{\"channels\":["@ + spec_ser_channel_details(p.channels@) + "]}"@
}

pub open spec fn spec_ser_join_channel_rsp(p: JoinChannelRsp) -> Seq<char> {
    obj2("{\"channel_id\":"@, ",\"user_id\":"@, p.channel_id@, p.user_id@)
}

pub open spec fn spec_ser_create_message_rsp(p: CreateMessageRsp) -> Seq<char> {
    obj1("{\"message_id\":"@, p.message_id@)
}

pub open spec fn spec_ser_message_detail(m: MessageDetail) -> Seq<char> {
    "{\"message_id\":"@ + str_enc(m.message_id@) + ",\"channel_id\":"@ + str_enc(m.channel_id@)
        + ",\"sender_id\":"@ + str_enc(m.sender_id@) + ",\"content\":"@ + str_enc(m.content@)
        + ",\"timestamp\":"@ + int_enc(m.timestamp as int) + seq!['}']
}

pub open spec fn spec_ser_message_details(s: Seq<MessageDetail>) -> Seq<char>
    decreases s.len(),
{
    if s.len() == 0 {
        Seq::empty()
    } else if s.len() == 1 {
        spec_ser_message_detail(s[0])
    } else {
        spec_ser_message_details(s.drop_last()) + seq![','] + spec_ser_message_detail(s.last())
    }
}

pub open spec fn spec_ser_list_messages_rsp(p: ListMessagesRsp) -> Seq<char> {
    "{\"messages\":["@ + spec_ser_message_details(p.messages@) + "]}"@
}

pub open spec fn spec_ser_dispatched(m: DispatchedMessage) -> Seq<char> {
    "{\"message_id\":"@ + str_enc(m.message_id@) + ",\"channel_id\":"@ + str_enc(m.channel_id@)
        + ",\"user_id\":"@ + str_enc(m.user_id@) + ",\"content\":"@ + str_enc(m.content@)
        + ",\"timestamp\":"@ + int_enc(m.timestamp as int) + seq!['}']
}

/// The canonical wire form of a response frame.
pub open spec fn spec_ser_rsp(m: RspMessage) -> Seq<char> {
    match m {
        RspMessage::RegisterUser(p) => "{\"type\":\"register_user\",\"data\":"@
            + spec_ser_register_user_rsp(p) + seq!['}'],
        RspMessage::LoginUser(p) => "{\"type\":\"login_user\",\"data\":"@
            + spec_ser_login_user_rsp(p) + seq!['}'],
        RspMessage::GetUserInfo(p) => "{\"type\":\"get_user_info\",\"data\":"@
            + spec_ser_get_user_info_rsp(p) + seq!['}'],
        RspMessage::CreateChannel(p) => "{\"type\":\"create_channel\",\"data\":"@
            + spec_ser_create_channel_rsp(p) + seq!['}'],
        RspMessage::ListChannelDetails(p) => "{\"type\":\"list_channel_details\",\"data\":"@
            + spec_ser_list_channel_details_rsp(p) + seq!['}'],
        RspMessage::JoinChannel(p) => "{\"type\":\"join_channel\",\"data\":"@
            + spec_ser_join_channel_rsp(p) + seq!['}'],
        RspMessage::CreateMessage(p) => "{\"type\":\"create_message\",\"data\":"@
            + spec_ser_create_message_rsp(p) + seq!['}'],
        RspMessage::ListMessages(p) => "{\"type\":\"list_messages\",\"data\":"@
            + spec_ser_list_messages_rsp(p) + seq!['}'],
        RspMessage::DispatchMessage(p) => "{\"type\":\"dispatch_message\",\"data\":"@
            + spec_ser_dispatched(p) + seq!['}'],
    }
}

fn write_member(out: &mut String, m: &ChannelMember)
    ensures
        final(out)@ == old(out)@ + spec_ser_member(*m),
{
    out.append("{\"user_id\":");
    write_json_string(out, m.user_id.as_str());
    out.append(",\"joined_at\":");
    write_i64(out, m.joined_at);
    push_char(out, '}');
    proof {
        assert(out@ =~= old(out)@ + spec_ser_member(*m));
    }
}

fn write_members(out: &mut String, v: &Vec<ChannelMember>)
    ensures
        final(out)@ == old(out)@ + spec_ser_members(v@),
{
    let n = v.len();
    for i in 0..n
        invariant
            n == v@.len(),
            out@ == old(out)@ + spec_ser_members(v@.take(i as int)),
    {
        if i > 0 {
            push_char(out, ',');
        }
        write_member(out, &v[i]);
        proof {
            let t = v@.take(i as int + 1);
            assert(t.drop_last() =~= v@.take(i as int));
            assert(t.last() == v@[i as int]);
            if i == 0 {
                assert(spec_ser_members(t) == spec_ser_member(v@[0]));
                assert(out@ =~= old(out)@ + spec_ser_members(t));
            } else {
                assert(spec_ser_members(t) == spec_ser_members(v@.take(i as int)) + seq![',']
                    + spec_ser_member(v@[i as int]));
                assert(out@ =~= old(out)@ + spec_ser_members(t));
            }
        }
    }
    proof {
        assert(v@.take(n as int) =~= v@);
    }
}

fn write_channel_detail(out: &mut String, d: &ChannelDetail)
    ensures
        final(out)@ == old(out)@ + spec_ser_channel_detail(*d),
{
    out.append("{\"channel_id\":");
    write_json_string(out, d.channel_id.as_str());
    out.append(",\"channel_name\":");
    write_json_string(out, d.channel_name.as_str());
    out.append(",\"members\":[");
    write_members(out, &d.members);
    out.append("]}");
    proof {
        assert(out@ =~= old(out)@ + spec_ser_channel_detail(*d));
    }
}

fn write_channel_details(out: &mut String, v: &Vec<ChannelDetail>)
    ensures
        final(out)@ == old(out)@ + spec_ser_channel_details(v@),
{
    let n = v.len();
    for i in 0..n
        invariant
            n == v@.len(),
            out@ == old(out)@ + spec_ser_channel_details(v@.take(i as int)),
    {
        if i > 0 {
            push_char(out, ',');
        }
        write_channel_detail(out, &v[i]);
        proof {
            let t = v@.take(i as int + 1);
            assert(t.drop_last() =~= v@.take(i as int));
            assert(t.last() == v@[i as int]);
            if i == 0 {
                assert(spec_ser_channel_details(t) == spec_ser_channel_detail(v@[0]));
                assert(out@ =~= old(out)@ + spec_ser_channel_details(t));
            } else {
                assert(spec_ser_channel_details(t) == spec_ser_channel_details(
                    v@.take(i as int),
                ) + seq![','] + spec_ser_channel_detail(v@[i as int]));
                assert(out@ =~= old(out)@ + spec_ser_channel_details(t));
            }
        }
    }
    proof {
        assert(v@.take(n as int) =~= v@);
    }
}

fn write_message_detail(out: &mut String, m: &MessageDetail)
    ensures
        final(out)@ == old(out)@ + spec_ser_message_detail(*m),
{
    out.append("{\"message_id\":");
    write_json_string(out, m.message_id.as_str());
    out.append(",\"channel_id\":");
    write_json_string(out, m.channel_id.as_str());
    out.append(",\"sender_id\":");
    write_json_string(out, m.sender_id.as_str());
    out.append(",\"content\":");
    write_json_string(out, m.content.as_str());
    out.append(",\"timestamp\":");
    write_i64(out, m.timestamp);
    push_char(out, '}');
    proof {
        assert(out@ =~= old(out)@ + spec_ser_message_detail(*m));
    }
}

fn write_message_details(out: &mut String, v: &Vec<MessageDetail>)
    ensures
        final(out)@ == old(out)@ + spec_ser_message_details(v@),
{
    let n = v.len();
    for i in 0..n
        invariant
            n == v@.len(),
            out@ == old(out)@ + spec_ser_message_details(v@.take(i as int)),
    {
        if i > 0 {
            push_char(out, ',');
        }
        write_message_detail(out, &v[i]);
        proof {
            let t = v@.take(i as int + 1);
            assert(t.drop_last() =~= v@.take(i as int));
            assert(t.last() == v@[i as int]);
            if i == 0 {
                assert(spec_ser_message_details(t) == spec_ser_message_detail(v@[0]));
                assert(out@ =~= old(out)@ + spec_ser_message_details(t));
            } else {
                assert(spec_ser_message_details(t) == spec_ser_message_details(
                    v@.take(i as int),
                ) + seq![','] + spec_ser_message_detail(v@[i as int]));
                assert(out@ =~= old(out)@ + spec_ser_message_details(t));
            }
        }
    }
    proof {
        assert(v@.take(n as int) =~= v@);
    }
}

/// Writes the canonical wire form of a response frame.
pub fn serialize_rsp(m: &RspMessage) -> (r: String)
    ensures
        r@ == spec_ser_rsp(*m),
{
    match m {
        RspMessage::RegisterUser(p) => {
            let mut out = String::from_str("{\"type\":\"register_user\",\"data\":");
            out.append("{\"user_id\":");
            write_json_string(&mut out, p.user_id.as_str());
            push_char(&mut out, '}');
            push_char(&mut out, '}');
            proof {
                assert(out@ =~= spec_ser_rsp(*m));
            }
            out
        },
        RspMessage::LoginUser(p) => {
            let mut out = String::from_str("{\"type\":\"login_user\",\"data\":");
            out.append("{\"token\":");
            write_json_string(&mut out, p.token.as_str());
            push_char(&mut out, '}');
            push_char(&mut out, '}');
            proof {
                assert(out@ =~= spec_ser_rsp(*m));
            }
            out
        },
        RspMessage::GetUserInfo(p) => {
            let mut out = String::from_str("{\"type\":\"get_user_info\",\"data\":");
            out.append("{\"user_id\":");
            write_json_string(&mut out, p.user_id.as_str());
            out.append(",\"username\":");
            write_json_string(&mut out, p.username.as_str());
            out.append(",\"created_at\":");
            write_i64(&mut out, p.created_at);
            push_char(&mut out, '}');
            push_char(&mut out, '}');
            proof {
                assert(out@ =~= spec_ser_rsp(*m));
            }
            out
        },
        RspMessage::CreateChannel(p) => {
            let mut out = String::from_str("{\"type\":\"create_channel\",\"data\":");
            out.append("{\"channel_id\":");
            write_json_string(&mut out, p.channel_id.as_str());
            out.append(",\"channel_name\":");
            write_json_string(&mut out, p.channel_name.as_str());
            push_char(&mut out, '}');
            push_char(&mut out, '}');
            proof {
                assert(out@ =~= spec_ser_rsp(*m));
            }
            out
        },
        RspMessage::ListChannelDetails(p) => {
            let mut out = String::from_str("{\"type\":\"list_channel_details\",\"data\":");
            out.append("{\"channels\":[");
            write_channel_details(&mut out, &p.channels);
            out.append("]}");
            push_char(&mut out, '}');
            proof {
                assert(out@ =~= spec_ser_rsp(*m));
            }
            out
        },
        RspMessage::JoinChannel(p) => {
            let mut out = String::from_str("{\"type\":\"join_channel\",\"data\":");
            out.append("{\"channel_id\":");
            write_json_string(&mut out, p.channel_id.as_str());
            out.append(",\"user_id\":");
            write_json_string(&mut out, p.user_id.as_str());
            push_char(&mut out, '}');
            push_char(&mut out, '}');
            proof {
                assert(out@ =~= spec_ser_rsp(*m));
            }
            out
        },
        RspMessage::CreateMessage(p) => {
            let mut out = String::from_str("{\"type\":\"create_message\",\"data\":");
            out.append("{\"message_id\":");
            write_json_string(&mut out, p.message_id.as_str());
            push_char(&mut out, '}');
            push_char(&mut out, '}');
            proof {
                assert(out@ =~= spec_ser_rsp(*m));
            }
            out
        },
        RspMessage::ListMessages(p) => {
            let mut out = String::from_str("{\"type\":\"list_messages\",\"data\":");
            out.append("{\"messages\":[");
            write_message_details(&mut out, &p.messages);
            out.append("]}");
            push_char(&mut out, '}');
            proof {
                assert(out@ =~= spec_ser_rsp(*m));
            }
            out
        },
        RspMessage::DispatchMessage(p) => {
            let mut out = String::from_str("{\"type\":\"dispatch_message\",\"data\":");
            out.append("{\"message_id\":");
            write_json_string(&mut out, p.message_id.as_str());
            out.append(",\"channel_id\":");
            write_json_string(&mut out, p.channel_id.as_str());
            out.append(",\"user_id\":");
            write_json_string(&mut out, p.user_id.as_str());
            out.append(",\"content\":");
            write_json_string(&mut out, p.content.as_str());
            out.append(",\"timestamp\":");
            write_i64(&mut out, p.timestamp);
            push_char(&mut out, '}');
            push_char(&mut out, '}');
            proof {
                assert(out@ =~= spec_ser_rsp(*m));
            }
            out
        },
    }
}

} // verus!
