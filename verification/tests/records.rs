use jivachat::agents::AgentMessage;
use jivachat::copilot::{default_sender, CopilotMessage};
use jivachat::db_item::{AttrValue, DbItem};
use jivachat::decimal::{decimal_string, parse_u64};
use jivachat::ids::parse_message_id;
use jivachat::init::{chat_record_item, messages_from_items};
use jivachat::messages::{MessageError, MessageType};

const ID: u128 = 0x550e8400_e29b_41d4_a716_446655440000;
const ID_TEXT: &str = "550e8400-e29b-41d4-a716-446655440000";

fn s(v: &str) -> AttrValue {
    AttrValue::S(v.to_string())
}

fn n(v: &str) -> AttrValue {
    AttrValue::N(v.to_string())
}

fn text_of(item: &DbItem, key: &str) -> Option<String> {
    match item.get(key) {
        Some(AttrValue::S(v)) => Some(format!("S:{}", v)),
        Some(AttrValue::N(v)) => Some(format!("N:{}", v)),
        Some(AttrValue::Other) => Some("other".to_string()),
        None => None,
    }
}

fn agent_item() -> DbItem {
    let mut item = DbItem::new();
    item.insert("MessageID".to_string(), s(ID_TEXT));
    item.insert("ChatID".to_string(), s("agent7-supervisor"));
    item.insert("Sender".to_string(), s("alice"));
    item.insert("Message".to_string(), s("hello"));
    item.insert("Timestamp".to_string(), n("1700000000123"));
    item
}

fn copilot_item() -> DbItem {
    let mut item = DbItem::new();
    item.insert("MessageID".to_string(), s(ID_TEXT));
    item.insert("Action".to_string(), s("suggest"));
    item.insert("Output".to_string(), s("try again"));
    item.insert("Sender".to_string(), s("someone"));
    item.insert("Timestamp".to_string(), n("42"));
    item
}

fn invalid_attribute(r: Result<MessageType, MessageError>) -> String {
    match r {
        Err(MessageError::InvalidAttribute(a)) => a,
        Err(e) => panic!("unexpected error {:?}", e),
        Ok(_) => panic!("read succeeded"),
    }
}

#[test]
fn decimal_parse_follows_std() {
    assert_eq!(parse_u64("123"), Some(123));
    assert_eq!(parse_u64("+7"), Some(7));
    assert_eq!(parse_u64("0042"), Some(42));
    assert_eq!(parse_u64(""), None);
    assert_eq!(parse_u64("+"), None);
    assert_eq!(parse_u64("-1"), None);
    assert_eq!(parse_u64("12a"), None);
    assert_eq!(parse_u64(" 1"), None);
    assert_eq!(parse_u64("18446744073709551615"), Some(u64::MAX));
    assert_eq!(parse_u64("18446744073709551616"), None);
    for text in ["0", "99", "+3", "x", "", "1844674407370955161600"] {
        assert_eq!(parse_u64(text), text.parse::<u64>().ok());
    }
}

#[test]
fn decimal_string_follows_std() {
    assert_eq!(decimal_string(0), "0");
    assert_eq!(decimal_string(1700000000123), "1700000000123");
    assert_eq!(decimal_string(u128::MAX), u128::MAX.to_string());
}

#[test]
fn message_ids_read_from_text() {
    assert_eq!(parse_message_id(ID_TEXT), Some(ID));
    assert_eq!(parse_message_id("550E8400-E29B-41D4-A716-446655440000"), Some(ID));
    assert_eq!(parse_message_id("550e8400e29b41d4a716446655440000"), Some(ID));
    assert_eq!(parse_message_id("not-a-uuid"), None);
    assert_eq!(parse_message_id(""), None);
}

#[test]
fn agent_record_has_stored_attributes() {
    let m = AgentMessage::from_parts(ID, "c-1".to_string(), "alice".to_string(), "hi".to_string(), 1_700_000_000_123_999_999);
    let item = m.to_db_item().ok().unwrap();
    assert_eq!(text_of(&item, "MessageID"), Some(format!("S:{}", ID_TEXT)));
    assert_eq!(text_of(&item, "CallID"), Some("S:c-1".to_string()));
    assert_eq!(text_of(&item, "Message"), Some("S:hi".to_string()));
    assert_eq!(text_of(&item, "Sender"), Some("S:alice".to_string()));
    assert_eq!(text_of(&item, "Timestamp"), Some("N:1700000000123".to_string()));
    assert_eq!(text_of(&item, "ChatID"), None);
    assert_eq!(item.keys().len(), 5);
}

#[test]
fn copilot_record_has_stored_attributes() {
    let m = CopilotMessage::from_parts(1, "act".to_string(), "out".to_string(), 5_000_000);
    let item = m.to_db_item().ok().unwrap();
    assert_eq!(text_of(&item, "MessageID"), Some("S:00000000-0000-0000-0000-000000000001".to_string()));
    assert_eq!(text_of(&item, "Action"), Some("S:act".to_string()));
    assert_eq!(text_of(&item, "Output"), Some("S:out".to_string()));
    assert_eq!(text_of(&item, "Sender"), Some("S:Copilot".to_string()));
    assert_eq!(text_of(&item, "Timestamp"), Some("N:5".to_string()));
}

#[test]
fn message_record_adds_chat_id() {
    let m = AgentMessage::from_parts(ID, "old".to_string(), "bob".to_string(), "text".to_string(), 0);
    let item = MessageType::User(m).to_db_item("chat-9").ok().unwrap();
    assert_eq!(text_of(&item, "ChatID"), Some("S:chat-9".to_string()));
    assert_eq!(text_of(&item, "CallID"), Some("S:old".to_string()));
    assert_eq!(text_of(&item, "Timestamp"), Some("N:0".to_string()));
}

#[test]
fn user_record_round_trip() {
    let m = AgentMessage::from_parts(ID, "ignored".to_string(), "bob".to_string(), "text".to_string(), 1_234_567_891);
    let item = MessageType::User(m).to_db_item("agent-supervisor").ok().unwrap();
    match MessageType::from_db_item(item) {
        Ok(MessageType::User(back)) => {
            assert_eq!(back.get_message_id(), ID);
            assert_eq!(back.get_chat_id(), "agent-supervisor");
            assert_eq!(back.get_sender(), "bob");
            assert_eq!(back.get_value(), "text");
            assert_eq!(back.get_timestamp(), 1_234_000_000);
        }
        _ => panic!("expected a person's message"),
    }
}

#[test]
fn copilot_record_round_trip() {
    let m = CopilotMessage::from_parts(ID, "act".to_string(), "out".to_string(), 7_000_000_001);
    let item = MessageType::Copilot(m).to_db_item("c").ok().unwrap();
    match MessageType::from_db_item(item) {
        Ok(MessageType::Copilot(back)) => {
            assert_eq!(back.get_message_id(), ID);
            assert_eq!(back.get_action(), "act");
            assert_eq!(back.get_message(), "out");
            assert_eq!(back.get_sender(), "Copilot");
            assert_eq!(back.get_timestamp(), 7_000_000_000);
        }
        _ => panic!("expected a copilot message"),
    }
}

#[test]
fn agent_item_reads() {
    let m = AgentMessage::from_db_item(agent_item()).ok().unwrap();
    assert_eq!(m.get_message_id(), ID);
    assert_eq!(m.get_chat_id(), "agent7-supervisor");
    assert_eq!(m.get_sender(), "alice");
    assert_eq!(m.get_value(), "hello");
    assert_eq!(m.get_timestamp(), 1_700_000_000_123_000_000);
}

#[test]
fn copilot_item_reads_with_fixed_sender() {
    let m = CopilotMessage::from_db_item(copilot_item()).ok().unwrap();
    assert_eq!(m.get_action(), "suggest");
    assert_eq!(m.get_message(), "try again");
    assert_eq!(m.get_sender(), "Copilot");
    assert_eq!(m.get_timestamp(), 42_000_000);
}

#[test]
fn item_with_action_is_copilot() {
    assert!(matches!(MessageType::from_db_item(copilot_item()), Ok(MessageType::Copilot(_))));
    assert!(matches!(MessageType::from_db_item(agent_item()), Ok(MessageType::User(_))));
}

#[test]
fn agent_item_errors_in_order() {
    let mut item = agent_item();
    item.insert("ChatID".to_string(), AttrValue::Other);
    assert_eq!(invalid_attribute(MessageType::from_db_item(item)), "CallID");

    let mut item = agent_item();
    item.insert("MessageID".to_string(), n("1"));
    item.insert("Sender".to_string(), n("1"));
    assert_eq!(invalid_attribute(MessageType::from_db_item(item)), "MessageID");

    let mut item = agent_item();
    item.insert("Sender".to_string(), n("1"));
    assert_eq!(invalid_attribute(MessageType::from_db_item(item)), "Sender");

    let mut item = agent_item();
    item.insert("Message".to_string(), AttrValue::Other);
    assert_eq!(invalid_attribute(MessageType::from_db_item(item)), "Message");

    let mut item = agent_item();
    item.insert("Timestamp".to_string(), s("12"));
    assert_eq!(invalid_attribute(MessageType::from_db_item(item)), "Timestamp");

    let mut item = agent_item();
    item.insert("Timestamp".to_string(), n("-12"));
    assert_eq!(invalid_attribute(MessageType::from_db_item(item)), "Timestamp");

    let mut item = agent_item();
    item.insert("Timestamp".to_string(), n("18446744073709551616"));
    assert_eq!(invalid_attribute(MessageType::from_db_item(item)), "Timestamp");
}

#[test]
fn copilot_item_errors_in_order() {
    let mut item = copilot_item();
    item.insert("Output".to_string(), AttrValue::Other);
    assert_eq!(invalid_attribute(MessageType::from_db_item(item)), "Output");

    let mut item = copilot_item();
    item.insert("Action".to_string(), n("3"));
    assert_eq!(invalid_attribute(MessageType::from_db_item(item)), "Action");

    let mut item = copilot_item();
    item.insert("Timestamp".to_string(), n("soon"));
    assert_eq!(invalid_attribute(MessageType::from_db_item(item)), "Timestamp");
}

#[test]
fn unreadable_identifier_is_reported() {
    let mut item = agent_item();
    item.insert("MessageID".to_string(), s("not-a-uuid"));
    assert_eq!(invalid_attribute(MessageType::from_db_item(item)), "MessageID");

    let mut item = DbItem::new();
    item.insert("MessageID".to_string(), s("not-a-uuid"));
    item.insert("ChatID".to_string(), s("c"));
    item.insert("Sender".to_string(), s("a"));
    item.insert("Message".to_string(), s("m"));
    item.insert("Timestamp".to_string(), n("0"));
    assert!(matches!(AgentMessage::from_db_item(item), Err(MessageError::InvalidAttribute(a)) if a == "MessageID"));

    let mut item = DbItem::new();
    item.insert("MessageID".to_string(), s("xyz"));
    item.insert("Action".to_string(), s("a"));
    item.insert("Output".to_string(), s("o"));
    item.insert("Timestamp".to_string(), n("0"));
    assert!(matches!(CopilotMessage::from_db_item(item), Err(MessageError::InvalidAttribute(a)) if a == "MessageID"));

    let mut item = agent_item();
    item.insert("MessageID".to_string(), s("not-a-uuid"));
    item.insert("Sender".to_string(), AttrValue::Other);
    assert_eq!(invalid_attribute(MessageType::from_db_item(item)), "Sender");
}

#[test]
fn stored_messages_are_read_in_order() {
    let mut bad = agent_item();
    bad.insert("Message".to_string(), AttrValue::Other);
    let (msgs, errs) = messages_from_items(vec![agent_item(), bad, copilot_item()]);
    assert_eq!(msgs.len(), 2);
    assert!(matches!(msgs[0], MessageType::User(_)));
    assert!(matches!(msgs[1], MessageType::Copilot(_)));
    assert_eq!(errs.len(), 1);
    assert!(matches!(&errs[0], MessageError::InvalidAttribute(a) if a == "Message"));

    let mut broken = agent_item();
    broken.insert("MessageID".to_string(), s("zzz"));
    let (msgs, errs) = messages_from_items(vec![agent_item(), broken]);
    assert_eq!(msgs.len(), 1);
    assert!(matches!(&errs[0], MessageError::InvalidAttribute(a) if a == "MessageID"));
    let (msgs, errs) = messages_from_items(vec![]);
    assert!(msgs.is_empty() && errs.is_empty());
}

#[test]
fn chat_record_names_call_and_chatter() {
    let item = chat_record_item("c-7");
    assert_eq!(text_of(&item, "CallID"), Some("S:c-7".to_string()));
    assert_eq!(text_of(&item, "Chatter"), Some("S:agent".to_string()));
    assert_eq!(item.keys().len(), 2);
}

#[test]
fn errors_describe_themselves() {
    assert_eq!(MessageError::InvalidAttribute("Sender".to_string()).describe(), "missing or invalid attribute: Sender");
    assert_eq!(MessageError::ConversionError.describe(), "data conversion error");
}

#[test]
fn copilot_messages_are_sent_by_copilot() {
    assert_eq!(default_sender(), "Copilot");
    let m = CopilotMessage::new("a".to_string(), "b".to_string());
    assert_eq!(m.get_sender(), "Copilot");
    assert_eq!(m.get_action(), "a");
    assert_eq!(m.get_message(), "b");
    let other = CopilotMessage::new("a".to_string(), "b".to_string());
    assert_ne!(m.get_message_id(), other.get_message_id());
    for id in [m.get_message_id(), other.get_message_id()] {
        assert_eq!((id >> 76) & 0xf, 4);
        assert_eq!((id >> 62) & 0x3, 2);
    }
}

#[test]
fn decimal_text_reads_back() {
    for v in [0u64, 9, 10, 1234567, u64::MAX] {
        assert_eq!(parse_u64(&decimal_string(v as u128)), Some(v));
    }
    assert_eq!(parse_u64(&decimal_string(u64::MAX as u128 + 1)), None);
}

#[test]
fn time_before_epoch_is_not_stored() {
    let m = AgentMessage::from_parts(ID, "c".to_string(), "s".to_string(), "v".to_string(), -1);
    assert!(matches!(m.to_db_item(), Err(MessageError::ConversionError)));
    let c = CopilotMessage::from_parts(ID, "a".to_string(), "o".to_string(), -5_000_000);
    assert!(matches!(c.to_db_item(), Err(MessageError::ConversionError)));
    assert!(matches!(MessageType::Copilot(c).to_db_item("x"), Err(MessageError::ConversionError)));
    let chat = jivachat::messages::Chat::new("a".to_string(), "b".to_string());
    assert!(matches!(chat.message_record(&MessageType::User(m)), Err(MessageError::ConversionError)));
}
