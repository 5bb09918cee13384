use jivachat::agents::AgentMessage;
use jivachat::clock::current_time;
use jivachat::connections::ConnectionType;
use jivachat::copilot::CopilotMessage;
use jivachat::init::{find_query_value, generate_params_from_url};
use jivachat::init::chat_record_to_create;
use jivachat::messages::{
    copilot_request_for, handle_user_message, notify_after_human_message, parse_error_reply,
    stream_end_reply, Chat, ChatMessage, CopilotSendMessage, MessageType,
};
use jivachat::state::{ChatManager, CHAT_CHANNEL_CAPACITY};
use jivachat::stream::{
    invalid_chunk_reply, notify_after_copilot_reply, relay_chunk, relay_finish, relay_piece,
    relay_read_failed, split_stream_chunk, CopilotChunk, ReplyRelay,
};
use jivachat::table::Table;

fn entry(m: &ChatMessage) -> (String, String, String) {
    (m.get_chat_id().to_string(), m.get_message().to_string(), m.get_sender().to_string())
}

#[test]
fn chat_id_joins_ids() {
    let chat = Chat::new("agent7".to_string(), "supervisor".to_string());
    assert_eq!(chat.get_chat_id(), "agent7-supervisor");
    assert_eq!(chat.get_agent_id(), "agent7");
    assert_eq!(chat.get_secondary_id(), "supervisor");
    assert_eq!(chat.describe(), "Chat ID: agent7-supervisor");
    assert!(chat.get_chat_history().is_empty());
}

#[test]
fn chat_id_parts_split_at_hyphens() {
    let chat = Chat::new("a-b".to_string(), "c-d".to_string());
    assert_eq!(chat.get_chat_id(), "a-b-c-d");
    assert_eq!(chat.get_agent_id(), "a");
    assert_eq!(chat.get_secondary_id(), "d");
    let chat = Chat::new(String::new(), String::new());
    assert_eq!(chat.get_chat_id(), "-");
    assert_eq!(chat.get_agent_id(), "");
    assert_eq!(chat.get_secondary_id(), "");
    let chat = Chat::new("ágent".to_string(), "cöpilot".to_string());
    assert_eq!(chat.get_agent_id(), "ágent");
    assert_eq!(chat.get_secondary_id(), "cöpilot");
}

#[test]
fn history_entries_in_order() {
    let mut chat = Chat::new("a".to_string(), "copilot".to_string());
    let m = chat.new_agent_message(9, "alice".to_string(), "hello".to_string());
    assert_eq!(m.get_chat_id(), "a-copilot");
    assert_eq!(m.get_message_id(), 9);
    chat.add_message(MessageType::User(m));
    let c = chat.new_copilot_message("act".to_string(), "answer".to_string());
    chat.add_message(MessageType::Copilot(c));
    let history = chat.get_chat_history();
    assert_eq!(history.len(), 2);
    // A person's name lands in the entry's message field, the text in its sender field.
    assert_eq!(entry(&history[0]), ("a-copilot".to_string(), "alice".to_string(), "hello".to_string()));
    assert_eq!(entry(&history[1]), ("a-copilot".to_string(), "Copilot".to_string(), "answer".to_string()));
}

#[test]
fn user_message_joins_history_only_when_stored() {
    let mut chat = Chat::new("a".to_string(), "supervisor".to_string());
    let m = AgentMessage::from_parts(1, "x".to_string(), "s".to_string(), "v".to_string(), 0);
    handle_user_message(&mut chat, m, false);
    assert!(chat.get_chat_history().is_empty());
    let m = AgentMessage::from_parts(1, "x".to_string(), "s".to_string(), "v".to_string(), 0);
    handle_user_message(&mut chat, m, true);
    assert_eq!(chat.get_chat_history().len(), 1);
}

#[test]
fn message_values_and_times() {
    let u = MessageType::User(AgentMessage::from_parts(1, "c".to_string(), "s".to_string(), "said".to_string(), -5));
    assert_eq!(u.get_value(), "said");
    assert_eq!(u.get_timestamp(), -5);
    let c = MessageType::Copilot(CopilotMessage::from_parts(1, "a".to_string(), "out".to_string(), 77));
    assert_eq!(c.get_value(), "out");
    assert_eq!(c.get_timestamp(), 77);
    let e = c.to_chat_message("room".to_string());
    assert_eq!(entry(&e), ("room".to_string(), "Copilot".to_string(), "out".to_string()));
}

#[test]
fn copilot_request_carries_message() {
    let chat = Chat::new("a".to_string(), "copilot".to_string());
    let m = AgentMessage::from_parts(1, "x".to_string(), "alice".to_string(), "help".to_string(), 0);
    let req = CopilotSendMessage::from_agent_message(m, &chat);
    assert_eq!(req.get_chat_id(), "a-copilot");
    assert_eq!(req.get_sender(), "alice");
    assert_eq!(req.get_message(), "help");
}

#[test]
fn connection_kind_from_secondary_id() {
    assert!(matches!(
        ConnectionType::instantiate_connection_type("a1", "copilot"),
        Ok(ConnectionType::Copilot(p, s)) if p == "a1" && s == "copilot"
    ));
    assert!(matches!(
        ConnectionType::instantiate_connection_type("a1", "supervisor"),
        Ok(ConnectionType::People(p, s)) if p == "a1" && s == "supervisor"
    ));
    let err = ConnectionType::instantiate_connection_type("a1", "Copilot");
    assert!(err.is_err());
    assert_eq!(err.err().unwrap().message(), "Error getting stream type");
    assert!(ConnectionType::instantiate_connection_type("a1", "").is_err());
}

#[test]
fn params_from_opening_request() {
    let req = b"GET /?agentID=a1&secondaryID=copilot HTTP/1.1\r\nHost: x\r\n\r\n";
    assert_eq!(generate_params_from_url(req), Some(("a1".to_string(), "copilot".to_string())));
    let req = b"GET /chat?secondaryID=super%20visor&agentID=x+y&agentID=second HTTP/1.1\r\n\r\n";
    assert_eq!(generate_params_from_url(req), Some(("x y".to_string(), "super visor".to_string())));
    let req = b"GET /?call_id=1&owner=bob HTTP/1.1\r\n\r\n";
    assert_eq!(generate_params_from_url(req), Some((String::new(), String::new())));
    let req = b"GET /?agentID=1 HTTP/1.1\r\nHost";
    assert_eq!(generate_params_from_url(req), Some(("1".to_string(), String::new())));
}

#[test]
fn unparsable_requests_give_no_params() {
    assert_eq!(generate_params_from_url(b"\x00\x01 garbage"), None);
    assert_eq!(generate_params_from_url(b""), None);
    assert_eq!(generate_params_from_url(b"GET "), None);
}

#[test]
fn query_value_takes_first_match() {
    let pairs = vec![
        ("k".to_string(), "1".to_string()),
        ("owner".to_string(), "x".to_string()),
        ("owner".to_string(), "y".to_string()),
    ];
    assert_eq!(find_query_value(&pairs, "owner"), "x");
    assert_eq!(find_query_value(&pairs, "none"), "");
}

#[test]
fn stream_chunks_split_after_braces() {
    let pieces = split_stream_chunk(br#"{"action":"a","output":"x"}{"action":"b","output":"y"}"#);
    assert_eq!(pieces, Some(vec![r#"{"action":"a","output":"x"}"#.to_string(), r#"{"action":"b","output":"y"}"#.to_string()]));
    assert_eq!(split_stream_chunk(b"ab}cd"), Some(vec!["ab}".to_string(), "cd".to_string()]));
    assert_eq!(split_stream_chunk(b"}}"), Some(vec!["}".to_string(), "}".to_string()]));
    assert_eq!(split_stream_chunk(b""), Some(Vec::new()));
    let text = "héllo}wörld";
    let expected: Vec<String> = text.split_inclusive('}').map(|p| p.to_string()).collect();
    assert_eq!(split_stream_chunk(text.as_bytes()), Some(expected));
}

#[test]
fn stream_chunk_that_is_not_utf8_is_refused() {
    assert_eq!(split_stream_chunk(b"{\"a\":\xff}"), None);
    assert_eq!(split_stream_chunk(&[0xed, 0xa0, 0x80]), None);
}

#[test]
fn chunks_assemble_into_one_message() {
    let chunks = vec![
        CopilotChunk::new("think".to_string(), "Hel".to_string()),
        CopilotChunk::new("reply".to_string(), "lo".to_string()),
    ];
    let m = CopilotMessage::from_chunks(&chunks);
    assert_eq!(m.get_action(), "reply");
    assert_eq!(m.get_message(), "Hello");
    assert_eq!(m.get_sender(), "Copilot");
    let empty = CopilotMessage::from_chunks(&Vec::new());
    assert_eq!(empty.get_action(), "");
    assert_eq!(empty.get_message(), "");
}

#[test]
fn chat_keeps_first_channel() {
    let mut chats: ChatManager<u32> = ChatManager::new();
    let first = chats.get_or_create_chat("a-b".to_string()).clone();
    let again = chats.get_or_create_chat("a-b".to_string()).clone();
    let other = chats.get_or_create_chat("a-c".to_string()).clone();
    assert!(first.same_channel(&again));
    assert!(!first.same_channel(&other));
    let mut rx = first.subscribe();
    for i in 0..(2 * CHAT_CHANNEL_CAPACITY as u32 + 1) {
        again.send(i).unwrap();
    }
    // A receiver that falls behind by more than the capacity (which tokio
    // rounds up to a power of two) learns that it lagged.
    assert!(matches!(rx.try_recv(), Err(tokio::sync::broadcast::error::TryRecvError::Lagged(_))));
    assert_eq!(CHAT_CHANNEL_CAPACITY, 100);
}

#[test]
fn table_insert_get_remove() {
    let mut t: Table<u8> = Table::new();
    t.insert("x".to_string(), 1);
    t.insert("y".to_string(), 2);
    t.insert("x".to_string(), 3);
    assert_eq!(t.len(), 2);
    assert_eq!(t.get("x"), Some(&3));
    assert!(t.contains_key("y"));
    assert_eq!(t.remove("y"), Some(2));
    assert_eq!(t.remove("y"), None);
    assert_eq!(t.get("y"), None);
    assert_eq!(t.keys(), vec!["x".to_string()]);
    t.ensure_entry("x".to_string(), 9);
    t.ensure_entry("z".to_string(), 9);
    assert_eq!(t.get("x"), Some(&3));
    assert_eq!(t.get("z"), Some(&9));
}

#[test]
fn clock_reads_after_epoch() {
    let now = current_time();
    assert!(now > 1_600_000_000_000_000_000);
}

#[test]
fn notification_follows_storing() {
    assert!(notify_after_human_message(true, true));
    assert!(notify_after_human_message(true, false));
    assert!(!notify_after_human_message(false, true));
    assert!(!notify_after_human_message(false, false));
}

#[test]
fn replies_are_json() {
    let mut error = serde_json::Map::new();
    error.insert("error".to_string(), serde_json::Value::String("Failed to parse message".to_string()));
    assert_eq!(parse_error_reply(), serde_json::Value::Object(error).to_string());
    let mut end = serde_json::Map::new();
    end.insert("action".to_string(), serde_json::Value::String("end".to_string()));
    end.insert("output".to_string(), serde_json::Value::String(String::new()));
    assert_eq!(stream_end_reply(), serde_json::Value::Object(end).to_string());
}

#[test]
fn only_a_persons_message_goes_to_copilot() {
    let chat = Chat::new("a".to_string(), "copilot".to_string());
    let u = MessageType::User(AgentMessage::from_parts(1, "x".to_string(), "alice".to_string(), "help".to_string(), 0));
    let req = copilot_request_for(&u, &chat).unwrap();
    assert_eq!(req.get_chat_id(), "a-copilot");
    assert_eq!(req.get_sender(), "alice");
    assert_eq!(req.get_message(), "help");
    let c = MessageType::Copilot(CopilotMessage::from_parts(1, "a".to_string(), "o".to_string(), 0));
    assert!(copilot_request_for(&c, &chat).is_none());
}

#[test]
fn chat_record_created_only_when_absent() {
    assert!(chat_record_to_create("c", true).is_none());
    let item = chat_record_to_create("c", false).unwrap();
    assert_eq!(item.keys().len(), 2);
    assert!(item.contains_key("CallID"));
    assert!(item.contains_key("Chatter"));
}

#[test]
fn relay_collects_pieces_until_a_bad_one() {
    let mut relay = ReplyRelay::new();
    let pieces = relay_chunk(&mut relay, br#"{"action":"a","output":"He"}{"action":"b","output":"llo"}"#).unwrap();
    assert_eq!(pieces.len(), 2);
    assert!(relay_piece(&mut relay, Some(CopilotChunk::new("a".to_string(), "He".to_string()))));
    assert!(relay_piece(&mut relay, Some(CopilotChunk::new("b".to_string(), "llo".to_string()))));
    assert!(relay_read_failed(&relay));
    assert!(!relay_piece(&mut relay, None));
    assert!(relay.is_stopped());
    assert!(!relay_piece(&mut relay, Some(CopilotChunk::new("c".to_string(), "!".to_string()))));
    assert!(relay_chunk(&mut relay, b"{}").is_none());
    assert!(!relay_read_failed(&relay));
    let m = relay_finish(relay);
    assert_eq!(m.get_action(), "b");
    assert_eq!(m.get_message(), "Hello");
    assert_eq!(m.get_sender(), "Copilot");
}

#[test]
fn relay_stops_at_chunk_that_is_not_utf8() {
    let mut relay = ReplyRelay::new();
    assert!(relay_chunk(&mut relay, &[b'{', 0xff, b'}']).is_none());
    assert!(relay.is_stopped());
    let m = relay_finish(relay);
    assert_eq!(m.get_message(), "");
    assert_eq!(m.get_action(), "");
    assert_eq!(invalid_chunk_reply(), r#"{"error":"Copilot chunk is not UTF-8"}"#);
}

#[test]
fn copilot_reply_notifies_after_broadcast() {
    assert!(notify_after_copilot_reply(true));
    assert!(!notify_after_copilot_reply(false));
}
