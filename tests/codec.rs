use truepositive_assistant::commands::{
    command_from_callback, command_from_text, event_user, normalize, BotCommand, CallbackParams,
    InboundEvent, NormalizeError, VoteForIssueParams,
};
use truepositive_assistant::handles::HandleStore;
use truepositive_assistant::params::BacklogParams;
use truepositive_assistant::token::{decode_token, encode_token, DecodeError, EncodeError};

fn vote(id: &str, has_vote: bool) -> CallbackParams {
    CallbackParams::VoteForIssue(VoteForIssueParams { id: id.to_string(), has_vote })
}

fn vote_json(id: &str, has_vote: bool) -> String {
    format!("{{\"_t\":\"vi\",\"i\":{},\"v\":{}}}", serde_json::to_string(id).unwrap(), has_vote)
}

#[test]
fn token_texts() {
    assert_eq!(encode_token(&CallbackParams::BacklogStop).unwrap(), r#"{"_t":"bs"}"#);
    assert_eq!(
        encode_token(&CallbackParams::BacklogNext(BacklogParams::new_with_skip(5, 5))).unwrap(),
        r#"{"_t":"bn","t":5,"s":5}"#
    );
    assert_eq!(
        encode_token(&CallbackParams::BacklogPrev(BacklogParams::new_with_skip(5, -3))).unwrap(),
        r#"{"_t":"bp","t":5,"s":-3}"#
    );
    assert_eq!(encode_token(&vote("TP-12", true)).unwrap(), r#"{"_t":"vi","i":"TP-12","v":true}"#);
    assert_eq!(encode_token(&vote("TP-12", false)).unwrap(), r#"{"_t":"vi","i":"TP-12","v":false}"#);
}

#[test]
fn vote_ids_are_escaped_as_json_strings() {
    for id in ["a\"b", "back\\slash", "tab\tnl\ncr\r", "\u{8}\u{c}\u{1}\u{1f}", "/x\u{7f}\u{e9}"] {
        assert_eq!(encode_token(&vote(id, true)).unwrap(), vote_json(id, true), "{:?}", id);
        let back = decode_token(&vote_json(id, false)).unwrap();
        assert_eq!(back, vote(id, false));
    }
}

#[test]
fn token_round_trips() {
    let payloads = vec![
        CallbackParams::BacklogStop,
        CallbackParams::BacklogNext(BacklogParams::new_with_skip(5, 0)),
        CallbackParams::BacklogPrev(BacklogParams::new_with_skip(i32::MAX, i32::MIN)),
        vote("TP-1,\"v\":true}", true),
        vote("", false),
    ];
    for p in payloads {
        let t = encode_token(&p).unwrap();
        assert_eq!(decode_token(&t).unwrap(), p);
    }
}

#[test]
fn token_size_limit() {
    let long_id = "X".repeat(36);
    assert!(encode_token(&vote(&long_id, false)).is_ok());
    assert_eq!(encode_token(&vote(&long_id, false)).unwrap().len(), 64);
    let too_long = "X".repeat(37);
    assert_eq!(encode_token(&vote(&too_long, false)), Err(EncodeError::SizeExceeded));
    // Two-byte characters count twice.
    let wide = "\u{e9}".repeat(19);
    assert_eq!(encode_token(&vote(&wide, false)), Err(EncodeError::SizeExceeded));
    // Escapes count in full.
    let quotes = "\"".repeat(19);
    assert_eq!(encode_token(&vote(&quotes, false)), Err(EncodeError::SizeExceeded));
}

#[test]
fn malformed_and_unrecognized_tokens() {
    for bad in ["", "bs", "bn:5:5", "{}", r#"{"_t":"bs"} "#, r#"{"_t":"bs","x":1}"#, r#"{"_t":"bn","t":5}"#,
        r#"{"_t":"bn","t":05,"s":0}"#, r#"{"_t":"bn","t":5,"s":-0}"#, r#"{"_t":"bn","s":0,"t":5}"#,
        r#"{"_t":"bn","t":99999999999,"s":0}"#, r#"{"_t":"vi","i":"a","v":1}"#,
        r#"{"_t":"vi","i":"a\q","v":true}"#, r#"{"_t":"vi","i":"a"b","v":true}"#,
        r#"{"_t":"vi","i":a,"v":true}"#, r#"{"_t":"BS"}"#, r#"{ "_t":"bs"}"#]
    {
        assert_eq!(decode_token(bad), Err(DecodeError::Malformed), "{}", bad);
    }
    assert_eq!(decode_token(r#"{"_t":"zz"}"#), Err(DecodeError::Unrecognized));
    assert_eq!(decode_token(r#"{"_t":"qq","t":1}"#), Err(DecodeError::Unrecognized));
}

#[test]
fn handles_are_read_once() {
    let mut store = HandleStore::new(2);
    let token = store.encode(42, vote("TP-3", true));
    assert_eq!(token, "42");
    assert_eq!(store.decode(&token), Ok(vote("TP-3", true)));
    assert_eq!(store.decode(&token), Err(DecodeError::NotFound));
    assert_eq!(store.decode("x42"), Err(DecodeError::Malformed));
}

#[test]
fn handles_evict_oldest() {
    let mut store = HandleStore::new(2);
    let a = store.encode(1, CallbackParams::BacklogStop);
    let b = store.encode(2, vote("B", false));
    let c = store.encode(18446744073709551615, vote("C", true));
    assert_eq!(c, "18446744073709551615");
    assert_eq!(store.decode(&a), Err(DecodeError::NotFound));
    assert_eq!(store.decode(&b), Ok(vote("B", false)));
    assert_eq!(store.decode(&c), Ok(vote("C", true)));
    assert_eq!(store.decode("18446744073709551616"), Err(DecodeError::Malformed));
}

#[test]
fn text_keywords() {
    assert_eq!(command_from_text("/backlog".to_string()), BotCommand::Backlog(BacklogParams { top: 5, skip: 0 }));
    assert_eq!(command_from_text("/start".to_string()), BotCommand::Start);
    assert_eq!(command_from_text("/login".to_string()), BotCommand::Login);
    assert_eq!(command_from_text("/stop".to_string()), BotCommand::Stop);
    assert_eq!(command_from_text("/new_issue".to_string()), BotCommand::NewIssue);
    assert_eq!(command_from_text("/save".to_string()), BotCommand::Save);
    assert_eq!(command_from_text("/cancel".to_string()), BotCommand::Cancel);
    assert_eq!(command_from_text("/cancel ".to_string()), BotCommand::Text("/cancel ".to_string()));
    assert_eq!(
        command_from_text("Fix bug".to_string()).get_message_text(),
        Some("Fix bug".to_string())
    );
    assert_eq!(BotCommand::Start.get_message_text(), None);
}

#[test]
fn callbacks_normalize() {
    assert_eq!(command_from_callback(r#"{"_t":"bs"}"#), BotCommand::BacklogStop);
    assert_eq!(
        command_from_callback(r#"{"_t":"bn","t":5,"s":5}"#),
        BotCommand::BacklogNext(BacklogParams { top: 5, skip: 5 })
    );
    assert_eq!(
        command_from_callback(r#"{"_t":"bp","t":5,"s":0}"#),
        BotCommand::BacklogPrev(BacklogParams { top: 5, skip: 0 })
    );
    assert_eq!(
        command_from_callback(r#"{"_t":"vi","i":"TP-9","v":false}"#),
        BotCommand::BacklogVoteForIssue(VoteForIssueParams { id: "TP-9".to_string(), has_vote: false })
    );
    assert_eq!(command_from_callback("garbage"), BotCommand::Invalid);
}

#[test]
fn events_normalize() {
    let m = InboundEvent::Message { from: 7, text: Some("/start".to_string()) };
    assert_eq!(event_user(&m), Some(7));
    assert_eq!(normalize(m), Ok(BotCommand::Start));
    let m = InboundEvent::Message { from: 7, text: None };
    assert_eq!(normalize(m), Err(NormalizeError::UnsupportedUpdate));
    let c = InboundEvent::Callback { from: 8, data: Some(r#"{"_t":"bs"}"#.to_string()) };
    assert_eq!(event_user(&c), Some(8));
    assert_eq!(normalize(c), Ok(BotCommand::BacklogStop));
    let c = InboundEvent::Callback { from: 8, data: Some("{}".to_string()) };
    assert_eq!(normalize(c), Ok(BotCommand::Invalid));
    let c = InboundEvent::Callback { from: 8, data: None };
    assert_eq!(normalize(c), Ok(BotCommand::Invalid));
    assert_eq!(event_user(&InboundEvent::Other), None);
    assert_eq!(normalize(InboundEvent::Other), Err(NormalizeError::UnsupportedUpdate));
}
