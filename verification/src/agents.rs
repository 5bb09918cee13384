//! Messages written by people (agents and supervisors).
use vstd::prelude::*;
use crate::clock::{current_time, max_duration_nanos};
use crate::db_item::{AttrValue, AttrView, DbItem, n_attr, s_attr};
use crate::decimal::{decimal_string, decimal_text, parse_u64, parse_u64_spec};
use crate::ids::{parse_message_id, read_uuid, uuid_text, uuid_to_text};
use crate::messages::MessageError;

verus! {

broadcast use vstd::string::group_string_axioms;

/// A message written by a person, with its identifier and its time in
/// nanoseconds relative to the Unix epoch.
#[derive(Debug, Clone)]
pub struct AgentMessage {
    message_id: u128,
    chat_id: String,
    sender: String,
    message: String,
    timestamp: i128,
}

/// What an agent message holds.
pub struct AgentMessageView {
    pub message_id: u128,
    pub chat_id: Seq<char>,
    pub sender: Seq<char>,
    pub message: Seq<char>,
    pub timestamp: int,
}

impl View for AgentMessage {
    type V = AgentMessageView;

    closed spec fn view(&self) -> AgentMessageView {
        AgentMessageView {
            message_id: self.message_id,
            chat_id: self.chat_id@,
            sender: self.sender@,
            message: self.message@,
            timestamp: self.timestamp as int,
        }
    }
}

/// Nanoseconds in a millisecond.
pub open spec fn nanos_per_milli() -> int {
    1_000_000
}

/// The stored form of a time: whole milliseconds since the epoch, in decimal.
pub open spec fn millis_text(timestamp: int) -> Seq<char> {
    decimal_text((timestamp / nanos_per_milli()) as nat)
}

/// The time a record holds under `Timestamp`, in milliseconds.
pub open spec fn item_millis(item: Map<Seq<char>, AttrView>) -> Option<u64> {
    match n_attr(item, "Timestamp"@) {
        Some(t) => parse_u64_spec(t),
        None => None,
    }
}

/// The record that stores an agent message.
pub open spec fn agent_record(m: AgentMessageView) -> Map<Seq<char>, AttrView> {
    Map::empty()
        .insert("MessageID"@, AttrView::S(uuid_text(m.message_id)))
        .insert("CallID"@, AttrView::S(m.chat_id))
        .insert("Message"@, AttrView::S(m.message))
        .insert("Sender"@, AttrView::S(m.sender))
        .insert("Timestamp"@, AttrView::N(millis_text(m.timestamp)))
}

/// The attribute that reading an agent message from `item` reports as
/// missing or invalid, checked in order; `None` when all are present.
/// A missing `ChatID` is reported under the name `CallID`; an identifier
/// text that denotes no identifier is reported, last, as `MessageID`.
pub open spec fn agent_item_error(item: Map<Seq<char>, AttrView>) -> Option<Seq<char>> {
    if s_attr(item, "MessageID"@) is None {
        Some("MessageID"@)
    } else if s_attr(item, "ChatID"@) is None {
        Some("CallID"@)
    } else if s_attr(item, "Sender"@) is None {
        Some("Sender"@)
    } else if s_attr(item, "Message"@) is None {
        Some("Message"@)
    } else if item_millis(item) is None {
        Some("Timestamp"@)
    } else if !item_id_readable(item) {
        Some("MessageID"@)
    } else {
        None
    }
}

/// Whether the identifier text of `item` denotes an identifier.
pub open spec fn item_id_readable(item: Map<Seq<char>, AttrView>) -> bool {
    match s_attr(item, "MessageID"@) {
        Some(t) => read_uuid(t) is Some,
        None => false,
    }
}

/// The agent message read from a record that has all its attributes.
pub open spec fn agent_from_item(item: Map<Seq<char>, AttrView>) -> AgentMessageView {
    AgentMessageView {
        message_id: read_uuid(s_attr(item, "MessageID"@)->0)->0,
        chat_id: s_attr(item, "ChatID"@)->0,
        sender: s_attr(item, "Sender"@)->0,
        message: s_attr(item, "Message"@)->0,
        timestamp: item_millis(item)->0 * nanos_per_milli(),
    }
}

/// Reads the time of a record: the number under `Timestamp`, as milliseconds.
pub(crate) fn read_item_millis(item: &DbItem) -> (r: Option<u64>)
    ensures
        r == item_millis(item@),
{
    match item.get_n("Timestamp") {
        Some(t) => parse_u64(t.as_str()),
        None => None,
    }
}

/// The number attribute that stores a time: its whole milliseconds.
pub(crate) fn millis_attr(timestamp: i128) -> (r: AttrValue)
    requires
        timestamp >= 0,
    ensures
        r@ == AttrView::N(millis_text(timestamp as int)),
{
    let millis: i128 = timestamp / 1_000_000;
    AttrValue::N(decimal_string(millis as u128))
}

/// Nanoseconds for a count of milliseconds.
pub(crate) fn millis_to_nanos(millis: u64) -> (r: i128)
    ensures
        r == millis * nanos_per_milli(),
{
    (millis as i128) * 1_000_000
}

impl AgentMessage {
    /// A message with the given identifier and contents, stamped with the
    /// current time.
    pub fn new(message_id: u128, chat_id: String, sender: String, message: String) -> (r: Self)
        ensures
            r@.message_id == message_id,
            r@.chat_id == chat_id@,
            r@.sender == sender@,
            r@.message == message@,
            -max_duration_nanos() <= r@.timestamp <= max_duration_nanos(),
    {
        AgentMessage { message_id, chat_id, sender, message, timestamp: current_time() }
    }

    /// A message with all its parts given, its time among them.
    pub fn from_parts(
        message_id: u128,
        chat_id: String,
        sender: String,
        message: String,
        timestamp: i128,
    ) -> (r: Self)
        ensures
            r@ == (AgentMessageView {
                message_id,
                chat_id: chat_id@,
                sender: sender@,
                message: message@,
                timestamp: timestamp as int,
            }),
    {
        AgentMessage { message_id, chat_id, sender, message, timestamp }
    }

    /// The attribute that reading `item` reports, checked in the order
    /// `MessageID`, `ChatID` (reported as `CallID`), `Sender`, `Message`,
    /// `Timestamp`, then the identifier text (as `MessageID`); `None` when
    /// all are present and of the right kind.
    pub(crate) fn item_error(item: &DbItem) -> (r: Option<String>)
        ensures
            match agent_item_error(item@) {
                Some(a) => r matches Some(e) && e@ == a,
                None => r is None,
            },
    {
        if item.get_s("MessageID").is_none() {
            Some("MessageID".to_owned())
        } else if item.get_s("ChatID").is_none() {
            Some("CallID".to_owned())
        } else if item.get_s("Sender").is_none() {
            Some("Sender".to_owned())
        } else if item.get_s("Message").is_none() {
            Some("Message".to_owned())
        } else if read_item_millis(item).is_none() {
            Some("Timestamp".to_owned())
        } else if !Self::id_readable(item) {
            Some("MessageID".to_owned())
        } else {
            None
        }
    }

    /// Whether the identifier text of `item` denotes an identifier.
    pub(crate) fn id_readable(item: &DbItem) -> (r: bool)
        ensures
            r == item_id_readable(item@),
    {
        match item.get_s("MessageID") {
            Some(t) => parse_message_id(t.as_str()).is_some(),
            None => false,
        }
    }

    /// Reads a message from its stored record. The first attribute that is
    /// missing or of the wrong kind is reported, in the order `MessageID`,
    /// `ChatID` (reported as `CallID`), `Sender`, `Message`, `Timestamp`;
    /// where all are there but the identifier text denotes no identifier,
    /// `MessageID` is reported.
    pub fn from_db_item(item: DbItem) -> (r: Result<Self, MessageError>)
        ensures
            match agent_item_error(item@) {
                Some(a) => r matches Err(MessageError::InvalidAttribute(e)) && e@ == a,
                None => r matches Ok(m) && m@ == agent_from_item(item@),
            },
    {
        if let Some(a) = Self::item_error(&item) {
            return Err(MessageError::InvalidAttribute(a));
        }
        let id = parse_message_id(item.get_s("MessageID").unwrap().as_str()).unwrap();
        let chat_id = item.get_s("ChatID").unwrap().clone();
        let sender = item.get_s("Sender").unwrap().clone();
        let message = item.get_s("Message").unwrap().clone();
        let millis = read_item_millis(&item).unwrap();
        Ok(AgentMessage { message_id: id, chat_id, sender, message, timestamp: millis_to_nanos(millis) })
    }

    pub fn get_message_id(&self) -> (r: u128)
        ensures
            r == self@.message_id,
    {
        self.message_id
    }

    pub fn get_chat_id(&self) -> (r: &str)
        ensures
            r@ == self@.chat_id,
    {
        self.chat_id.as_str()
    }

    /// The text of the message.
    pub fn get_value(&self) -> (r: &str)
        ensures
            r@ == self@.message,
    {
        self.message.as_str()
    }

    pub fn get_sender(&self) -> (r: &str)
        ensures
            r@ == self@.sender,
    {
        self.sender.as_str()
    }

    /// The record that stores the message. Its time is kept in whole
    /// milliseconds since the epoch; a time before the epoch is refused as a
    /// `ConversionError`.
    pub fn to_db_item(&self) -> (r: Result<DbItem, MessageError>)
        ensures
            match r {
                Ok(item) => self@.timestamp >= 0 && item@ == agent_record(self@),
                Err(e) => self@.timestamp < 0 && e is ConversionError,
            },
    {
        if self.timestamp < 0 {
            return Err(MessageError::ConversionError);
        }
        let mut item = DbItem::new();
        item.insert("MessageID".to_owned(), AttrValue::S(uuid_to_text(self.message_id)));
        item.insert("CallID".to_owned(), AttrValue::S(self.chat_id.clone()));
        item.insert("Message".to_owned(), AttrValue::S(self.message.clone()));
        item.insert("Sender".to_owned(), AttrValue::S(self.sender.clone()));
        item.insert("Timestamp".to_owned(), millis_attr(self.timestamp));
        Ok(item)
    }

    /// The time of the message, in nanoseconds relative to the Unix epoch.
    pub fn get_timestamp(&self) -> (r: i128)
        ensures
            r == self@.timestamp,
    {
        self.timestamp
    }
}

} // verus!
