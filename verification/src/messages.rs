//! Message kinds, chats and their history, and the errors of reading stored
//! messages.
use vstd::prelude::*;
use crate::agents::{AgentMessage, AgentMessageView, agent_from_item, agent_item_error, agent_record, item_millis, millis_text, nanos_per_milli};
use crate::decimal::lemma_parse_decimal_text;
use crate::ids::lemma_read_uuid_text;
use crate::copilot::{CopilotMessage, CopilotMessageView, copilot_from_item, copilot_item_error, copilot_name, copilot_record, default_sender};
use crate::db_item::{AttrValue, AttrView, DbItem};
use crate::text::{first_piece, last_piece, lacks, lemma_first_piece_of_joined, lemma_last_piece_of_joined, push_char, split_first_piece, split_last_piece};

verus! {

broadcast use vstd::string::group_string_axioms;

/// The error type of the DynamoDB client, carried through unopened.
#[verifier::external_type_specification]
#[verifier::external_body]
pub struct ExDynamoError(aws_sdk_dynamodb::Error);

/// Why a message could not be read from its record or stored.
#[derive(Debug)]
pub enum MessageError {
    /// The named attribute is missing or of the wrong kind.
    InvalidAttribute(String),
    /// The database refused or failed the request.
    DatabaseError(aws_sdk_dynamodb::Error),
    /// The message could not be turned into a record.
    ConversionError,
}

/// The text that `aws_sdk_dynamodb::Error`'s `Display` writes; nothing is
/// stated of it.
#[verifier::external_body]
fn database_error_text(e: &aws_sdk_dynamodb::Error) -> String {
    e.to_string()
}

impl MessageError {
    /// The text that reports the error.
    pub fn describe(&self) -> (r: String)
        ensures
            match self {
                MessageError::InvalidAttribute(a) => r@ == "missing or invalid attribute: "@ + a@,
                MessageError::DatabaseError(_) => exists|t: Seq<char>| r@ == "database error: "@ + t,
                MessageError::ConversionError => r@ == "data conversion error"@,
            },
    {
        match self {
            MessageError::InvalidAttribute(a) => {
                let mut r = "missing or invalid attribute: ".to_owned();
                r.append(a.as_str());
                r
            },
            MessageError::DatabaseError(e) => {
                let mut r = "database error: ".to_owned();
                let t = database_error_text(e);
                r.append(t.as_str());
                r
            },
            MessageError::ConversionError => "data conversion error".to_owned(),
        }
    }
}

/// The two kinds of message in a chat.
#[derive(Debug, Clone)]
pub enum MessageType {
    User(AgentMessage),
    Copilot(CopilotMessage),
}

/// What a message holds.
pub enum MessageTypeView {
    User(AgentMessageView),
    Copilot(CopilotMessageView),
}

impl View for MessageType {
    type V = MessageTypeView;

    open spec fn view(&self) -> MessageTypeView {
        match self {
            MessageType::User(m) => MessageTypeView::User(m@),
            MessageType::Copilot(m) => MessageTypeView::Copilot(m@),
        }
    }
}

/// The time of a message, in nanoseconds relative to the epoch.
pub open spec fn message_time(v: MessageTypeView) -> int {
    match v {
        MessageTypeView::User(m) => m.timestamp,
        MessageTypeView::Copilot(m) => m.timestamp,
    }
}

/// The text of a message: what a person wrote, or the copilot's output.
pub open spec fn message_value(v: MessageTypeView) -> Seq<char> {
    match v {
        MessageTypeView::User(m) => m.message,
        MessageTypeView::Copilot(m) => m.output,
    }
}

/// The record that stores a message of the chat `chat_id`.
pub open spec fn message_record(v: MessageTypeView, chat_id: Seq<char>) -> Map<Seq<char>, AttrView> {
    match v {
        MessageTypeView::User(m) => agent_record(m),
        MessageTypeView::Copilot(m) => copilot_record(m),
    }.insert("ChatID"@, AttrView::S(chat_id))
}

/// The record of a message in the chat `chat_id` names that chat under
/// `ChatID`, whatever the kind of message, and holds the message's own
/// record besides.
pub proof fn lemma_record_names_chat(v: MessageTypeView, chat_id: Seq<char>)
    ensures
        message_record(v, chat_id).contains_key("ChatID"@),
        message_record(v, chat_id)["ChatID"@] == AttrView::S(chat_id),
        forall|k: Seq<char>| k != "ChatID"@ ==> #[trigger] message_record(v, chat_id).contains_key(k) == match v {
            MessageTypeView::User(m) => agent_record(m).contains_key(k),
            MessageTypeView::Copilot(m) => copilot_record(m).contains_key(k),
        },
{
}

/// Reading a record: one with an `Action` attribute is a copilot message,
/// any other a person's; `Err` names the attribute reported as missing or
/// invalid.
pub open spec fn read_message(item: Map<Seq<char>, AttrView>) -> Result<MessageTypeView, Seq<char>> {
    if item.contains_key("Action"@) {
        match copilot_item_error(item) {
            Some(a) => Err(a),
            None => Ok(MessageTypeView::Copilot(copilot_from_item(item))),
        }
    } else {
        match agent_item_error(item) {
            Some(a) => Err(a),
            None => Ok(MessageTypeView::User(agent_from_item(item))),
        }
    }
}

/// The entry that the history of chat `chat_id` gets for a message. A
/// person's name goes into the entry's `message` field and the text into its
/// `sender` field, in the order in which the entry is built.
pub open spec fn chat_entry(v: MessageTypeView, chat_id: Seq<char>) -> ChatMessageView {
    match v {
        MessageTypeView::User(m) => ChatMessageView { chat_id, message: m.sender, sender: m.message },
        MessageTypeView::Copilot(m) => ChatMessageView { chat_id, message: copilot_name(), sender: m.output },
    }
}

/// The attribute names of stored messages differ from one another.
proof fn lemma_attribute_names_distinct()
    ensures
        "MessageID"@ != "ChatID"@,
        "MessageID"@ != "CallID"@,
        "MessageID"@ != "Sender"@,
        "MessageID"@ != "Message"@,
        "MessageID"@ != "Timestamp"@,
        "MessageID"@ != "Action"@,
        "MessageID"@ != "Output"@,
        "ChatID"@ != "CallID"@,
        "ChatID"@ != "Sender"@,
        "ChatID"@ != "Message"@,
        "ChatID"@ != "Timestamp"@,
        "ChatID"@ != "Action"@,
        "ChatID"@ != "Output"@,
        "CallID"@ != "Sender"@,
        "CallID"@ != "Message"@,
        "CallID"@ != "Timestamp"@,
        "CallID"@ != "Action"@,
        "CallID"@ != "Output"@,
        "Sender"@ != "Message"@,
        "Sender"@ != "Timestamp"@,
        "Sender"@ != "Action"@,
        "Sender"@ != "Output"@,
        "Message"@ != "Timestamp"@,
        "Message"@ != "Action"@,
        "Message"@ != "Output"@,
        "Timestamp"@ != "Action"@,
        "Timestamp"@ != "Output"@,
        "Action"@ != "Output"@,
{
    reveal_strlit("MessageID");
    reveal_strlit("ChatID");
    reveal_strlit("CallID");
    reveal_strlit("Sender");
    reveal_strlit("Message");
    reveal_strlit("Timestamp");
    reveal_strlit("Action");
    reveal_strlit("Output");
    assert("MessageID"@.len() == 9 && "MessageID"@[0] == 'M' && "MessageID"@[2] == 's');
    assert("ChatID"@.len() == 6 && "ChatID"@[0] == 'C' && "ChatID"@[2] == 'a');
    assert("CallID"@.len() == 6 && "CallID"@[0] == 'C' && "CallID"@[2] == 'l');
    assert("Sender"@.len() == 6 && "Sender"@[0] == 'S' && "Sender"@[2] == 'n');
    assert("Message"@.len() == 7 && "Message"@[0] == 'M' && "Message"@[2] == 's');
    assert("Timestamp"@.len() == 9 && "Timestamp"@[0] == 'T' && "Timestamp"@[2] == 'm');
    assert("Action"@.len() == 6 && "Action"@[0] == 'A' && "Action"@[2] == 't');
    assert("Output"@.len() == 6 && "Output"@[0] == 'O' && "Output"@[2] == 't');
}

/// A time cut to whole milliseconds.
pub open spec fn whole_millis(t: int) -> int {
    (t / nanos_per_milli()) * nanos_per_milli()
}

/// What reading back a message stored in the chat `chat_id` gives: the same
/// message, with its time cut to whole milliseconds; a person's message
/// carries `chat_id` as its chat, a copilot message `Copilot` as its sender.
pub open spec fn stored_form(v: MessageTypeView, chat_id: Seq<char>) -> MessageTypeView {
    match v {
        MessageTypeView::User(m) => MessageTypeView::User(
            AgentMessageView {
                message_id: m.message_id,
                chat_id,
                sender: m.sender,
                message: m.message,
                timestamp: whole_millis(m.timestamp),
            },
        ),
        MessageTypeView::Copilot(m) => MessageTypeView::Copilot(
            CopilotMessageView {
                message_id: m.message_id,
                action: m.action,
                output: m.output,
                sender: copilot_name(),
                timestamp: whole_millis(m.timestamp),
            },
        ),
    }
}

/// Reading back the record of a message gives the message back, in its
/// stored form: for every message whose time is not before the epoch and
/// whose milliseconds fit in a `u64`, the record can be read, reads as the
/// same kind of message, and holds the same identifier and texts.
pub proof fn lemma_record_round_trip(v: MessageTypeView, chat_id: Seq<char>)
    requires
        message_time(v) >= 0,
        message_time(v) / nanos_per_milli() <= u64::MAX,
    ensures
        read_message(message_record(v, chat_id)) == Ok::<MessageTypeView, Seq<char>>(stored_form(v, chat_id)),
{
    lemma_attribute_names_distinct();
    let item = message_record(v, chat_id);
    let millis = (message_time(v) / nanos_per_milli()) as u64;
    lemma_parse_decimal_text(millis);
    assert(millis_text(message_time(v)) == crate::decimal::decimal_text(millis as nat));
    match v {
        MessageTypeView::User(m) => {
            lemma_read_uuid_text(m.message_id);
            assert(!item.contains_key("Action"@));
            assert(item_millis(item) == Some(millis));
            assert(agent_item_error(item) is None);
        },
        MessageTypeView::Copilot(m) => {
            lemma_read_uuid_text(m.message_id);
            assert(item.contains_key("Action"@));
            assert(item_millis(item) == Some(millis));
            assert(copilot_item_error(item) is None);
        },
    }
}

impl MessageType {
    /// The text of the message.
    pub fn get_value(&self) -> (r: String)
        ensures
            r@ == message_value(self@),
    {
        match self {
            MessageType::User(m) => m.get_value().to_owned(),
            MessageType::Copilot(m) => m.get_message().to_owned(),
        }
    }

    /// The record that stores the message in the chat `chat_id`: the
    /// message's own record with `ChatID` added; a time before the epoch is
    /// refused as a `ConversionError`.
    pub fn to_db_item(&self, chat_id: &str) -> (r: Result<DbItem, MessageError>)
        ensures
            match r {
                Ok(item) => message_time(self@) >= 0 && item@ == message_record(self@, chat_id@),
                Err(e) => message_time(self@) < 0 && e is ConversionError,
            },
            r matches Ok(item) ==> item@.contains_key("ChatID"@) && item@["ChatID"@] == AttrView::S(chat_id@),
    {
        let inner = match self {
            MessageType::User(m) => m.to_db_item(),
            MessageType::Copilot(m) => m.to_db_item(),
        };
        let mut item = match inner {
            Ok(item) => item,
            Err(e) => {
                return Err(e);
            },
        };
        item.insert("ChatID".to_owned(), AttrValue::S(chat_id.to_owned()));
        Ok(item)
    }

    /// Reads a stored message: a record with an `Action` attribute is a
    /// copilot message, any other a person's.
    pub fn from_db_item(item: DbItem) -> (r: Result<MessageType, MessageError>)
        ensures
            match read_message(item@) {
                Ok(v) => r matches Ok(m) && m@ == v,
                Err(a) => r matches Err(MessageError::InvalidAttribute(e)) && e@ == a,
            },
    {
        if item.contains_key("Action") {
            match CopilotMessage::from_db_item(item) {
                Ok(m) => Ok(MessageType::Copilot(m)),
                Err(e) => Err(e),
            }
        } else {
            match AgentMessage::from_db_item(item) {
                Ok(m) => Ok(MessageType::User(m)),
                Err(e) => Err(e),
            }
        }
    }

    /// The history entry of the message in the chat `chat_id`.
    pub fn to_chat_message(&self, chat_id: String) -> (r: ChatMessage)
        ensures
            r@ == chat_entry(self@, chat_id@),
    {
        match self {
            MessageType::User(m) => ChatMessage::new(chat_id, m.get_sender().to_owned(), m.get_value().to_owned()),
            MessageType::Copilot(m) => ChatMessage::new(chat_id, default_sender(), m.get_message().to_owned()),
        }
    }

    /// The time of the message, in nanoseconds relative to the epoch.
    pub fn get_timestamp(&self) -> (r: i128)
        ensures
            r == message_time(self@),
    {
        match self {
            MessageType::User(m) => m.get_timestamp(),
            MessageType::Copilot(m) => m.get_timestamp(),
        }
    }
}

/// One entry of a chat's history.
#[derive(Debug, Clone)]
pub struct ChatMessage {
    chat_id: String,
    message: String,
    sender: String,
}

/// What a history entry holds.
pub struct ChatMessageView {
    pub chat_id: Seq<char>,
    pub message: Seq<char>,
    pub sender: Seq<char>,
}

impl View for ChatMessage {
    type V = ChatMessageView;

    closed spec fn view(&self) -> ChatMessageView {
        ChatMessageView { chat_id: self.chat_id@, message: self.message@, sender: self.sender@ }
    }
}

impl ChatMessage {
    pub fn new(chat_id: String, message: String, sender: String) -> (r: Self)
        ensures
            r@ == (ChatMessageView { chat_id: chat_id@, message: message@, sender: sender@ }),
    {
        ChatMessage { chat_id, message, sender }
    }

    /// A copy of the entry.
    pub fn duplicate(&self) -> (r: Self)
        ensures
            r@ == self@,
    {
        ChatMessage { chat_id: self.chat_id.clone(), message: self.message.clone(), sender: self.sender.clone() }
    }

    pub fn get_chat_id(&self) -> (r: &str)
        ensures
            r@ == self@.chat_id,
    {
        self.chat_id.as_str()
    }

    pub fn get_message(&self) -> (r: &str)
        ensures
            r@ == self@.message,
    {
        self.message.as_str()
    }

    pub fn get_sender(&self) -> (r: &str)
        ensures
            r@ == self@.sender,
    {
        self.sender.as_str()
    }
}

/// A conversation between an agent and a second party, with its history.
#[derive(Debug, Clone)]
pub struct Chat {
    chat_id: String,
    messages: Vec<ChatMessage>,
}

/// What a chat holds.
pub struct ChatView {
    pub chat_id: Seq<char>,
    pub messages: Seq<ChatMessageView>,
}

impl View for Chat {
    type V = ChatView;

    closed spec fn view(&self) -> ChatView {
        ChatView { chat_id: self.chat_id@, messages: self.messages@.map_values(|m: ChatMessage| m@) }
    }
}

/// The identifier of the chat between `agent_id` and `secondary_id`.
pub open spec fn chat_id_of(agent_id: Seq<char>, secondary_id: Seq<char>) -> Seq<char> {
    agent_id + seq!['-'] + secondary_id
}

/// The agent part of a chat identifier is the agent id it was made from,
/// where that id has no `-`; the second party's part is the secondary id,
/// where that id has no `-`.
pub proof fn lemma_chat_id_parts(agent_id: Seq<char>, secondary_id: Seq<char>)
    ensures
        lacks(agent_id, '-') ==> first_piece(chat_id_of(agent_id, secondary_id), '-') == agent_id,
        lacks(secondary_id, '-') ==> last_piece(chat_id_of(agent_id, secondary_id), '-') == secondary_id,
{
    if lacks(agent_id, '-') {
        lemma_first_piece_of_joined(agent_id, '-', secondary_id);
    }
    if lacks(secondary_id, '-') {
        lemma_last_piece_of_joined(agent_id, '-', secondary_id);
    }
}

impl Chat {
    /// A chat with no history, identified as `{agent_id}-{secondary_id}`.
    pub fn new(agent_id: String, secondary_id: String) -> (r: Self)
        ensures
            r@.chat_id == chat_id_of(agent_id@, secondary_id@),
            r@.messages == Seq::<ChatMessageView>::empty(),
    {
        let mut chat_id = agent_id;
        push_char(&mut chat_id, '-');
        chat_id.append(secondary_id.as_str());
        let r = Chat { chat_id, messages: Vec::new() };
        assert(r@.messages =~= Seq::<ChatMessageView>::empty());
        r
    }

    /// A copy of the history, oldest entry first.
    pub fn get_chat_history(&self) -> (r: Vec<ChatMessage>)
        ensures
            r@.map_values(|m: ChatMessage| m@) == self@.messages,
    {
        let n = self.messages.len();
        let mut out: Vec<ChatMessage> = Vec::new();
        let mut i: usize = 0;
        while i < n
            invariant
                n == self.messages@.len(),
                i <= n,
                out@.len() == i,
                forall|j: int| 0 <= j < i ==> #[trigger] out@[j]@ == self.messages@[j]@,
            decreases n - i,
        {
            out.push(self.messages[i].duplicate());
            i = i + 1;
        }
        assert(out@.map_values(|m: ChatMessage| m@) =~= self@.messages);
        out
    }

    pub fn get_chat_id(&self) -> (r: String)
        ensures
            r@ == self@.chat_id,
    {
        self.chat_id.clone()
    }

    /// The agent's part of the identifier: the text before its first `-`.
    pub fn get_agent_id(&self) -> (r: String)
        ensures
            r@ == first_piece(self@.chat_id, '-'),
    {
        split_first_piece(self.chat_id.as_str(), '-')
    }

    /// The second party's part of the identifier: the text after its last
    /// `-`.
    pub fn get_secondary_id(&self) -> (r: String)
        ensures
            r@ == last_piece(self@.chat_id, '-'),
    {
        split_last_piece(self.chat_id.as_str(), '-')
    }

    /// Appends the message's entry to the history.
    pub fn add_message(&mut self, message: MessageType)
        ensures
            final(self)@.chat_id == old(self)@.chat_id,
            final(self)@.messages == old(self)@.messages.push(chat_entry(message@, old(self)@.chat_id)),
    {
        let entry = message.to_chat_message(self.get_chat_id());
        self.messages.push(entry);
        assert(final(self)@.messages =~= old(self)@.messages.push(chat_entry(message@, old(self)@.chat_id)));
    }

    /// A person's message in this chat, stamped with the current time.
    pub fn new_agent_message(&self, message_id: u128, owner: String, message: String) -> (r: AgentMessage)
        ensures
            r@.message_id == message_id,
            r@.chat_id == self@.chat_id,
            r@.sender == owner@,
            r@.message == message@,
            -crate::clock::max_duration_nanos() <= r@.timestamp <= crate::clock::max_duration_nanos(),
    {
        AgentMessage::new(message_id, self.get_chat_id(), owner, message)
    }

    /// A new copilot message.
    pub fn new_copilot_message(&self, action: String, output: String) -> (r: CopilotMessage)
        ensures
            r@.action == action@,
            r@.output == output@,
            r@.sender == copilot_name(),
            crate::ids::is_random_uuid(r@.message_id),
            -crate::clock::max_duration_nanos() <= r@.timestamp <= crate::clock::max_duration_nanos(),
    {
        CopilotMessage::new(action, output)
    }

    /// The text that names the chat.
    pub fn describe(&self) -> (r: String)
        ensures
            r@ == "Chat ID: "@ + self@.chat_id,
    {
        let mut r = "Chat ID: ".to_owned();
        r.append(self.chat_id.as_str());
        r
    }

    /// The record under which a message of this chat is stored; a message
    /// whose time is before the epoch cannot be stored (`ConversionError`).
    pub fn message_record(&self, message: &MessageType) -> (r: Result<DbItem, MessageError>)
        ensures
            match r {
                Ok(item) => message_time(message@) >= 0 && item@ == message_record(message@, self@.chat_id),
                Err(e) => message_time(message@) < 0 && e is ConversionError,
            },
    {
        match message.to_db_item(self.chat_id.as_str()) {
            Ok(item) => Ok(item),
            Err(_) => Err(MessageError::ConversionError),
        }
    }
}

/// The history after an attempt to store a person's message: the message
/// joins the history only where it was stored.
pub fn handle_user_message(chat: &mut Chat, user_msg: AgentMessage, stored: bool)
    ensures
        final(chat)@.chat_id == old(chat)@.chat_id,
        stored ==> final(chat)@.messages == old(chat)@.messages.push(
            chat_entry(MessageTypeView::User(user_msg@), old(chat)@.chat_id),
        ),
        !stored ==> final(chat)@.messages == old(chat)@.messages,
{
    if stored {
        chat.add_message(MessageType::User(user_msg));
    }
}

/// The request that hands a person's message to the copilot service: the
/// chat it belongs to, its sender and its text.
#[derive(Debug)]
pub struct CopilotSendMessage {
    chat_id: String,
    sender: String,
    message: String,
}

/// What a request to the copilot service holds.
pub struct CopilotSendView {
    pub chat_id: Seq<char>,
    pub sender: Seq<char>,
    pub message: Seq<char>,
}

impl View for CopilotSendMessage {
    type V = CopilotSendView;

    closed spec fn view(&self) -> CopilotSendView {
        CopilotSendView { chat_id: self.chat_id@, sender: self.sender@, message: self.message@ }
    }
}

impl CopilotSendMessage {
    /// The request for a person's message in `chat`.
    pub fn from_agent_message(user_msg: AgentMessage, chat: &Chat) -> (r: Self)
        ensures
            r@ == (CopilotSendView { chat_id: chat@.chat_id, sender: user_msg@.sender, message: user_msg@.message }),
    {
        CopilotSendMessage {
            chat_id: chat.get_chat_id(),
            sender: user_msg.get_sender().to_owned(),
            message: user_msg.get_value().to_owned(),
        }
    }

    pub fn get_chat_id(&self) -> (r: &str)
        ensures
            r@ == self@.chat_id,
    {
        self.chat_id.as_str()
    }

    pub fn get_sender(&self) -> (r: &str)
        ensures
            r@ == self@.sender,
    {
        self.sender.as_str()
    }

    pub fn get_message(&self) -> (r: &str)
        ensures
            r@ == self@.message,
    {
        self.message.as_str()
    }
}

/// Whether a person's message is followed by a notification: it is, once
/// the message is stored, whether or not its broadcast went through.
pub fn notify_after_human_message(stored: bool, broadcast_ok: bool) -> (r: bool)
    ensures
        r == stored,
{
    stored
}

/// The reply broadcast when an incoming websocket message is no message.
pub fn parse_error_reply() -> (r: String)
    ensures
        r@ == "{\"error\":\"Failed to parse message\"}"@,
{
    "{\"error\":\"Failed to parse message\"}".to_owned()
}

/// The reply broadcast once the copilot's answer has been relayed.
pub fn stream_end_reply() -> (r: String)
    ensures
        r@ == "{\"action\":\"end\",\"output\":\"\"}"@,
{
    "{\"action\":\"end\",\"output\":\"\"}".to_owned()
}

/// The request for the copilot service that a message arriving on a
/// copilot connection leads to: a person's message is handed on, with the
/// chat it belongs to; a copilot message is not.
pub fn copilot_request_for(m: &MessageType, chat: &Chat) -> (r: Option<CopilotSendMessage>)
    ensures
        match m@ {
            MessageTypeView::User(u) => r matches Some(q) && q@ == (CopilotSendView {
                chat_id: chat@.chat_id,
                sender: u.sender,
                message: u.message,
            }),
            MessageTypeView::Copilot(_) => r is None,
        },
{
    match m {
        MessageType::User(u) => Some(
            CopilotSendMessage {
                chat_id: chat.get_chat_id(),
                sender: u.get_sender().to_owned(),
                message: u.get_value().to_owned(),
            },
        ),
        MessageType::Copilot(_) => None,
    }
}

} // verus!
