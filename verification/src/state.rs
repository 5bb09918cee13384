//! The chats that have a broadcast channel, each created on first use.
use vstd::prelude::*;
use crate::table::Table;

verus! {

/// The map of chats to channels after asking for the channel of `chat_id`,
/// with `fresh` at hand should the chat have none yet.
pub open spec fn with_chat<T>(chats: Map<Seq<char>, T>, chat_id: Seq<char>, fresh: T) -> Map<Seq<char>, T> {
    if chats.contains_key(chat_id) {
        chats
    } else {
        chats.insert(chat_id, fresh)
    }
}

/// The broadcast sender of tokio, carried through unopened.
#[verifier::external_type_specification]
#[verifier::external_body]
#[verifier::reject_recursive_types(T)]
pub struct ExBroadcastSender<T>(tokio::sync::broadcast::Sender<T>);

/// How many messages a chat's channel holds for a receiver that lags.
pub const CHAT_CHANNEL_CAPACITY: usize = 100;

/// Opens a broadcast channel with `tokio::sync::broadcast::channel` and
/// keeps its sending half. Tokio panics on a capacity of 0 or above
/// `usize::MAX / 2`, which `requires` leaves out; nothing is stated of the
/// sender, a fresh channel of its own.
#[verifier::external_body]
fn open_channel<T: Clone>(capacity: usize) -> tokio::sync::broadcast::Sender<T>
    requires
        0 < capacity <= usize::MAX / 2,
{
    tokio::sync::broadcast::channel(capacity).0
}

/// Keeps one broadcast channel per chat, opened on first use with room for
/// `CHAT_CHANNEL_CAPACITY` messages.
#[derive(Debug)]
#[verifier::reject_recursive_types(T)]
pub struct ChatManager<T> {
    chats: Table<tokio::sync::broadcast::Sender<T>>,
}

impl<T> View for ChatManager<T> {
    type V = Map<Seq<char>, tokio::sync::broadcast::Sender<T>>;

    closed spec fn view(&self) -> Map<Seq<char>, tokio::sync::broadcast::Sender<T>> {
        self.chats@
    }
}

impl<T: Clone> ChatManager<T> {
    /// A manager with no chat.
    pub fn new() -> (r: Self)
        ensures
            r@ == Map::<Seq<char>, tokio::sync::broadcast::Sender<T>>::empty(),
    {
        ChatManager { chats: Table::new() }
    }

    /// The channel of the chat `chat_id`: the one it has, or else a new
    /// channel with room for `CHAT_CHANNEL_CAPACITY` messages, which becomes
    /// its channel. Other chats keep theirs.
    pub fn get_or_create_chat(&mut self, chat_id: String) -> (r: &tokio::sync::broadcast::Sender<T>)
        ensures
            final(self)@ == with_chat(old(self)@, chat_id@, final(self)@[chat_id@]),
            *r == final(self)@[chat_id@],
            final(self)@.contains_key(chat_id@),
            old(self)@.contains_key(chat_id@) ==> *r == old(self)@[chat_id@],
            forall|k: Seq<char>| k != chat_id@ ==> (#[trigger] final(self)@.contains_key(k) == old(self)@.contains_key(k)),
            forall|k: Seq<char>| #[trigger] old(self)@.contains_key(k) ==> final(self)@.contains_key(k) && final(self)@[k] == old(self)@[k],
    {
        if !self.chats.contains_key(chat_id.as_str()) {
            let fresh = open_channel(CHAT_CHANNEL_CAPACITY);
            self.chats.insert(chat_id.clone(), fresh);
        }
        self.chats.get(chat_id.as_str()).unwrap()
    }
}

/// A chat keeps the channel it was first given: asking again for the same
/// chat, whatever is at hand, changes nothing.
pub proof fn lemma_chat_channel_kept<T>(chats: Map<Seq<char>, T>, chat_id: Seq<char>, first: T, second: T)
    ensures
        with_chat(with_chat(chats, chat_id, first), chat_id, second) == with_chat(chats, chat_id, first),
        with_chat(chats, chat_id, first)[chat_id] == (if chats.contains_key(chat_id) {
            chats[chat_id]
        } else {
            first
        }),
{
}

/// Asking for the channel of one chat leaves every other chat as it was:
/// the same chats are open besides the one asked for, each with the channel
/// it had; the chat asked for is open afterwards, and one that was open
/// keeps its channel.
pub proof fn lemma_other_chats_kept<T>(chats: Map<Seq<char>, T>, chat_id: Seq<char>, fresh: T)
    ensures
        with_chat(chats, chat_id, fresh).contains_key(chat_id),
        forall|k: Seq<char>| k != chat_id ==> (#[trigger] with_chat(chats, chat_id, fresh).contains_key(k)
            == chats.contains_key(k)),
        forall|k: Seq<char>| #[trigger] chats.contains_key(k) ==> with_chat(chats, chat_id, fresh).contains_key(k)
            && with_chat(chats, chat_id, fresh)[k] == chats[k],
        !chats.contains_key(chat_id) ==> with_chat(chats, chat_id, fresh)[chat_id] == fresh,
{
}

} // verus!
