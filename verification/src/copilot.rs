//! Messages produced by the copilot service.
use vstd::prelude::*;
use crate::agents::{AgentMessage, item_id_readable, item_millis, millis_attr, millis_text, millis_to_nanos, nanos_per_milli, read_item_millis};
use crate::clock::{current_time, max_duration_nanos};
use crate::db_item::{AttrValue, AttrView, DbItem, s_attr};
use crate::ids::{is_random_uuid, new_random_id, parse_message_id, read_uuid, uuid_text, uuid_to_text};
use crate::messages::MessageError;

verus! {

broadcast use vstd::string::group_string_axioms;

/// The sender name of every copilot message.
pub open spec fn copilot_name() -> Seq<char> {
    "Copilot"@
}

/// The sender name of every copilot message.
pub fn default_sender() -> (r: String)
    ensures
        r@ == copilot_name(),
{
    "Copilot".to_owned()
}

/// A message of the copilot: the action it asks for and its output text.
#[derive(Debug, Clone)]
pub struct CopilotMessage {
    message_id: u128,
    action: String,
    output: String,
    sender: String,
    timestamp: i128,
}

/// What a copilot message holds.
pub struct CopilotMessageView {
    pub message_id: u128,
    pub action: Seq<char>,
    pub output: Seq<char>,
    pub sender: Seq<char>,
    pub timestamp: int,
}

impl View for CopilotMessage {
    type V = CopilotMessageView;

    closed spec fn view(&self) -> CopilotMessageView {
        CopilotMessageView {
            message_id: self.message_id,
            action: self.action@,
            output: self.output@,
            sender: self.sender@,
            timestamp: self.timestamp as int,
        }
    }
}

/// The record that stores a copilot message; its sender is always stored
/// as `Copilot`.
pub open spec fn copilot_record(m: CopilotMessageView) -> Map<Seq<char>, AttrView> {
    Map::empty()
        .insert("MessageID"@, AttrView::S(uuid_text(m.message_id)))
        .insert("Action"@, AttrView::S(m.action))
        .insert("Output"@, AttrView::S(m.output))
        .insert("Sender"@, AttrView::S(copilot_name()))
        .insert("Timestamp"@, AttrView::N(millis_text(m.timestamp)))
}

/// The attribute that reading a copilot message from `item` reports as
/// missing or invalid, checked in order; `None` when all are present. An
/// identifier text that denotes no identifier is reported, last, as
/// `MessageID`.
pub open spec fn copilot_item_error(item: Map<Seq<char>, AttrView>) -> Option<Seq<char>> {
    if s_attr(item, "MessageID"@) is None {
        Some("MessageID"@)
    } else if s_attr(item, "Action"@) is None {
        Some("Action"@)
    } else if s_attr(item, "Output"@) is None {
        Some("Output"@)
    } else if item_millis(item) is None {
        Some("Timestamp"@)
    } else if !item_id_readable(item) {
        Some("MessageID"@)
    } else {
        None
    }
}

/// The copilot message read from a record that has all its attributes; the
/// stored sender is not read.
pub open spec fn copilot_from_item(item: Map<Seq<char>, AttrView>) -> CopilotMessageView {
    CopilotMessageView {
        message_id: read_uuid(s_attr(item, "MessageID"@)->0)->0,
        action: s_attr(item, "Action"@)->0,
        output: s_attr(item, "Output"@)->0,
        sender: copilot_name(),
        timestamp: item_millis(item)->0 * nanos_per_milli(),
    }
}

impl CopilotMessage {
    /// A new copilot message with a fresh random identifier, stamped with
    /// the current time.
    pub fn new(action: String, output: String) -> (r: Self)
        ensures
            r@.action == action@,
            r@.output == output@,
            r@.sender == copilot_name(),
            is_random_uuid(r@.message_id),
            -max_duration_nanos() <= r@.timestamp <= max_duration_nanos(),
    {
        CopilotMessage {
            message_id: new_random_id(),
            action,
            output,
            sender: default_sender(),
            timestamp: current_time(),
        }
    }

    /// A message with all its parts given; its sender is `Copilot`.
    pub fn from_parts(message_id: u128, action: String, output: String, timestamp: i128) -> (r: Self)
        ensures
            r@ == (CopilotMessageView {
                message_id,
                action: action@,
                output: output@,
                sender: copilot_name(),
                timestamp: timestamp as int,
            }),
    {
        CopilotMessage { message_id, action, output, sender: default_sender(), timestamp }
    }

    /// The attribute that reading `item` reports, checked in the order
    /// `MessageID`, `Action`, `Output`, `Timestamp`, then the identifier text
    /// (as `MessageID`); `None` when all are present and of the right kind.
    pub(crate) fn item_error(item: &DbItem) -> (r: Option<String>)
        ensures
            match copilot_item_error(item@) {
                Some(a) => r matches Some(e) && e@ == a,
                None => r is None,
            },
    {
        if item.get_s("MessageID").is_none() {
            Some("MessageID".to_owned())
        } else if item.get_s("Action").is_none() {
            Some("Action".to_owned())
        } else if item.get_s("Output").is_none() {
            Some("Output".to_owned())
        } else if read_item_millis(item).is_none() {
            Some("Timestamp".to_owned())
        } else if !AgentMessage::id_readable(item) {
            Some("MessageID".to_owned())
        } else {
            None
        }
    }

    /// Reads a message from its stored record. The first attribute that is
    /// missing or of the wrong kind is reported, in the order `MessageID`,
    /// `Action`, `Output`, `Timestamp`; where all are there but the
    /// identifier text denotes no identifier, `MessageID` is reported.
    pub fn from_db_item(item: DbItem) -> (r: Result<Self, MessageError>)
        ensures
            match copilot_item_error(item@) {
                Some(a) => r matches Err(MessageError::InvalidAttribute(e)) && e@ == a,
                None => r matches Ok(m) && m@ == copilot_from_item(item@),
            },
    {
        if let Some(a) = Self::item_error(&item) {
            return Err(MessageError::InvalidAttribute(a));
        }
        let id = parse_message_id(item.get_s("MessageID").unwrap().as_str()).unwrap();
        let action = item.get_s("Action").unwrap().clone();
        let output = item.get_s("Output").unwrap().clone();
        let millis = read_item_millis(&item).unwrap();
        Ok(
            CopilotMessage {
                message_id: id,
                action,
                output,
                sender: default_sender(),
                timestamp: millis_to_nanos(millis),
            },
        )
    }

    /// The record that stores the message. Its time is kept in whole
    /// milliseconds since the epoch; a time before the epoch is refused as a
    /// `ConversionError`.
    pub fn to_db_item(&self) -> (r: Result<DbItem, MessageError>)
        ensures
            match r {
                Ok(item) => self@.timestamp >= 0 && item@ == copilot_record(self@),
                Err(e) => self@.timestamp < 0 && e is ConversionError,
            },
    {
        if self.timestamp < 0 {
            return Err(MessageError::ConversionError);
        }
        let mut item = DbItem::new();
        item.insert("MessageID".to_owned(), AttrValue::S(uuid_to_text(self.message_id)));
        item.insert("Action".to_owned(), AttrValue::S(self.action.clone()));
        item.insert("Output".to_owned(), AttrValue::S(self.output.clone()));
        item.insert("Sender".to_owned(), AttrValue::S(default_sender()));
        item.insert("Timestamp".to_owned(), millis_attr(self.timestamp));
        Ok(item)
    }

    pub fn get_message_id(&self) -> (r: u128)
        ensures
            r == self@.message_id,
    {
        self.message_id
    }

    pub fn get_sender(&self) -> (r: &str)
        ensures
            r@ == self@.sender,
    {
        self.sender.as_str()
    }

    pub fn get_action(&self) -> (r: &str)
        ensures
            r@ == self@.action,
    {
        self.action.as_str()
    }

    /// The output text of the message.
    pub fn get_message(&self) -> (r: &str)
        ensures
            r@ == self@.output,
    {
        self.output.as_str()
    }

    /// The time of the message, in nanoseconds relative to the Unix epoch.
    pub fn get_timestamp(&self) -> (r: i128)
        ensures
            r == self@.timestamp,
    {
        self.timestamp
    }
}

} // verus!
