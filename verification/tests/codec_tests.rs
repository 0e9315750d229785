use connector::codec::{parse_req, reserialize_req, serialize_req, ReqMessage};
use connector::model::{
    ChannelDetail, ChannelMember, CreateChannelReq, CreateChannelRsp, CreateMessageReq,
    CreateMessageRsp, DispatchedMessage, GetUserInfoReq, GetUserInfoRsp, JoinChannelReq,
    JoinChannelRsp, ListChannelDetailsReq, ListChannelDetailsRsp, ListMessagesReq,
    ListMessagesRsp, LoginUserReq, LoginUserRsp, MessageDetail, RegisterUserReq, RegisterUserRsp,
};
use connector::rsp_codec::{serialize_rsp, RspMessage};

fn round_trip(m: ReqMessage) {
    let text = serialize_req(&m);
    let parsed = parse_req(text.as_str()).expect("canonical frame must parse");
    assert_eq!(parsed, m);
    assert_eq!(serialize_req(&parsed), text);
}

#[test]
fn register_user_round_trip() {
    round_trip(ReqMessage::RegisterUser(RegisterUserReq {
        username: "alice".to_string(),
        password: "p".to_string(),
    }));
}

#[test]
fn login_user_round_trip() {
    round_trip(ReqMessage::LoginUser(LoginUserReq {
        username: "bob".to_string(),
        password: "secret".to_string(),
    }));
}

#[test]
fn get_user_info_round_trip() {
    round_trip(ReqMessage::GetUserInfo(GetUserInfoReq { user_id: "u1".to_string() }));
}

#[test]
fn create_channel_round_trip() {
    round_trip(ReqMessage::CreateChannel(CreateChannelReq {
        name: "general".to_string(),
        creator_id: "u1".to_string(),
    }));
}

#[test]
fn list_channel_details_round_trip() {
    round_trip(ReqMessage::ListChannelDetails(ListChannelDetailsReq {
        user_id: "u1".to_string(),
    }));
}

#[test]
fn join_channel_round_trip() {
    round_trip(ReqMessage::JoinChannel(JoinChannelReq {
        channel_id: "c1".to_string(),
        user_id: "u1".to_string(),
    }));
}

#[test]
fn create_message_round_trip() {
    round_trip(ReqMessage::CreateMessage(CreateMessageReq {
        channel_id: "c1".to_string(),
        user_id: "u1".to_string(),
        content: "hello there".to_string(),
    }));
}

#[test]
fn list_messages_round_trip() {
    round_trip(ReqMessage::ListMessages(ListMessagesReq {
        channel_id: "c1".to_string(),
        limit: 50,
        latest_time: -17,
    }));
}

#[test]
fn escaped_strings_round_trip() {
    round_trip(ReqMessage::CreateMessage(CreateMessageReq {
        channel_id: "c\"1".to_string(),
        user_id: "u\\1".to_string(),
        content: "say \"hi\" \\ done".to_string(),
    }));
}

#[test]
fn extreme_numbers_round_trip() {
    round_trip(ReqMessage::ListMessages(ListMessagesReq {
        channel_id: "c".to_string(),
        limit: 0,
        latest_time: i64::MIN,
    }));
    round_trip(ReqMessage::ListMessages(ListMessagesReq {
        channel_id: "c".to_string(),
        limit: usize::MAX,
        latest_time: i64::MAX,
    }));
}

#[test]
fn register_user_exact_wire_form() {
    let m = ReqMessage::RegisterUser(RegisterUserReq {
        username: "alice".to_string(),
        password: "p".to_string(),
    });
    assert_eq!(
        serialize_req(&m),
        "{\"type\":\"register_user\",\"data\":{\"username\":\"alice\",\"password\":\"p\"}}"
    );
}

#[test]
fn list_messages_exact_wire_form() {
    let m = ReqMessage::ListMessages(ListMessagesReq {
        channel_id: "c1".to_string(),
        limit: 50,
        latest_time: 1700000000,
    });
    assert_eq!(
        serialize_req(&m),
        "{\"type\":\"list_messages\",\"data\":{\"channel_id\":\"c1\",\"limit\":50,\"latest_time\":1700000000}}"
    );
}

#[test]
fn parse_canonical_register_user() {
    let parsed = parse_req(
        "{\"type\":\"register_user\",\"data\":{\"username\":\"alice\",\"password\":\"p\"}}",
    )
    .expect("must parse");
    assert_eq!(
        parsed,
        ReqMessage::RegisterUser(RegisterUserReq {
            username: "alice".to_string(),
            password: "p".to_string(),
        })
    );
}

#[test]
fn parse_rejects_noise() {
    assert!(parse_req("").is_none());
    assert!(parse_req("not json at all").is_none());
    assert!(parse_req("{\"type\":\"no_such_tag\",\"data\":{}}").is_none());
    assert!(parse_req(
        "{\"type\":\"register_user\",\"data\":{\"username\":\"a\",\"password\":\"p\"}}trailing"
    )
    .is_none());
    assert!(parse_req("{\"type\":\"register_user\",\"data\":{\"username\":\"a\"}}").is_none());
}

#[test]
fn reserialize_leaves_canonical_input_unchanged() {
    let text = "{\"type\":\"join_channel\",\"data\":{\"channel_id\":\"c1\",\"user_id\":\"u1\"}}";
    assert_eq!(reserialize_req(text).as_deref(), Some(text));
    assert!(reserialize_req("garbage").is_none());
}

#[test]
fn response_exact_wire_forms() {
    assert_eq!(
        serialize_rsp(&RspMessage::RegisterUser(RegisterUserRsp { user_id: "u1".to_string() })),
        "{\"type\":\"register_user\",\"data\":{\"user_id\":\"u1\"}}"
    );
    assert_eq!(
        serialize_rsp(&RspMessage::LoginUser(LoginUserRsp { token: "t0k".to_string() })),
        "{\"type\":\"login_user\",\"data\":{\"token\":\"t0k\"}}"
    );
    assert_eq!(
        serialize_rsp(&RspMessage::GetUserInfo(GetUserInfoRsp {
            user_id: "u1".to_string(),
            username: "alice".to_string(),
            created_at: -5,
        })),
        "{\"type\":\"get_user_info\",\"data\":{\"user_id\":\"u1\",\"username\":\"alice\",\"created_at\":-5}}"
    );
    assert_eq!(
        serialize_rsp(&RspMessage::CreateMessage(CreateMessageRsp {
            message_id: "m9".to_string(),
        })),
        "{\"type\":\"create_message\",\"data\":{\"message_id\":\"m9\"}}"
    );
    assert_eq!(
        serialize_rsp(&RspMessage::CreateChannel(CreateChannelRsp {
            channel_id: "c1".to_string(),
            channel_name: "general".to_string(),
        })),
        "{\"type\":\"create_channel\",\"data\":{\"channel_id\":\"c1\",\"channel_name\":\"general\"}}"
    );
    assert_eq!(
        serialize_rsp(&RspMessage::JoinChannel(JoinChannelRsp {
            channel_id: "c1".to_string(),
            user_id: "u1".to_string(),
        })),
        "{\"type\":\"join_channel\",\"data\":{\"channel_id\":\"c1\",\"user_id\":\"u1\"}}"
    );
}

#[test]
fn canonical_request_reads_back_as_json() {
    let m = ReqMessage::CreateMessage(CreateMessageReq {
        channel_id: "c\"1".to_string(),
        user_id: "u\\1".to_string(),
        content: "say \"hi\"".to_string(),
    });
    let text = serialize_req(&m);
    let v: serde_json::Value = serde_json::from_str(&text).expect("output must be valid JSON");
    assert_eq!(v.get("type").and_then(|t| t.as_str()), Some("create_message"));
    let data = v.get("data").expect("envelope carries data");
    assert_eq!(data.get("channel_id").and_then(|x| x.as_str()), Some("c\"1"));
    assert_eq!(data.get("user_id").and_then(|x| x.as_str()), Some("u\\1"));
    assert_eq!(data.get("content").and_then(|x| x.as_str()), Some("say \"hi\""));
}

#[test]
fn canonical_response_reads_back_as_json() {
    let m = RspMessage::GetUserInfo(GetUserInfoRsp {
        user_id: "u1".to_string(),
        username: "alice".to_string(),
        created_at: -9,
    });
    let text = serialize_rsp(&m);
    let v: serde_json::Value = serde_json::from_str(&text).expect("output must be valid JSON");
    assert_eq!(v.get("type").and_then(|t| t.as_str()), Some("get_user_info"));
    let data = v.get("data").expect("envelope carries data");
    assert_eq!(data.get("username").and_then(|x| x.as_str()), Some("alice"));
    assert_eq!(data.get("created_at").and_then(|x| x.as_i64()), Some(-9));
}

#[test]
fn dispatch_message_wire_form() {
    let m = RspMessage::DispatchMessage(DispatchedMessage {
        message_id: "m1".to_string(),
        channel_id: "c1".to_string(),
        user_id: "u2".to_string(),
        content: "hi".to_string(),
        timestamp: 123,
    });
    assert_eq!(
        serialize_rsp(&m),
        "{\"type\":\"dispatch_message\",\"data\":{\"message_id\":\"m1\",\"channel_id\":\"c1\",\"user_id\":\"u2\",\"content\":\"hi\",\"timestamp\":123}}"
    );
}

#[test]
fn channel_list_wire_form() {
    let m = RspMessage::ListChannelDetails(ListChannelDetailsRsp {
        channels: vec![
            ChannelDetail {
                channel_id: "c1".to_string(),
                channel_name: "one".to_string(),
                members: vec![
                    ChannelMember { user_id: "u1".to_string(), joined_at: 1 },
                    ChannelMember { user_id: "u2".to_string(), joined_at: 2 },
                ],
            },
            ChannelDetail {
                channel_id: "c2".to_string(),
                channel_name: "two".to_string(),
                members: vec![],
            },
        ],
    });
    assert_eq!(
        serialize_rsp(&m),
        "{\"type\":\"list_channel_details\",\"data\":{\"channels\":[{\"channel_id\":\"c1\",\"channel_name\":\"one\",\"members\":[{\"user_id\":\"u1\",\"joined_at\":1},{\"user_id\":\"u2\",\"joined_at\":2}]},{\"channel_id\":\"c2\",\"channel_name\":\"two\",\"members\":[]}]}}"
    );
}

#[test]
fn message_list_wire_form() {
    let empty = RspMessage::ListMessages(ListMessagesRsp { messages: vec![] });
    assert_eq!(
        serialize_rsp(&empty),
        "{\"type\":\"list_messages\",\"data\":{\"messages\":[]}}"
    );
    let one = RspMessage::ListMessages(ListMessagesRsp {
        messages: vec![MessageDetail {
            message_id: "m1".to_string(),
            channel_id: "c1".to_string(),
            sender_id: "u1".to_string(),
            content: "x".to_string(),
            timestamp: -9,
        }],
    });
    assert_eq!(
        serialize_rsp(&one),
        "{\"type\":\"list_messages\",\"data\":{\"messages\":[{\"message_id\":\"m1\",\"channel_id\":\"c1\",\"sender_id\":\"u1\",\"content\":\"x\",\"timestamp\":-9}]}}"
    );
}
