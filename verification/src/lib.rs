//! Verified core of a websocket chat relay between agents, supervisors and a
//! copilot service: the messages and the records that store them, chats and
//! their history, the kind of a connection, the parameters of an opening
//! request, the copilot's streamed reply, and the channel of each chat.

pub mod text;
pub mod decimal;
pub mod table;
pub mod db_item;
pub mod ids;
pub mod clock;
pub mod agents;
pub mod copilot;
pub mod messages;
pub mod connections;
pub mod init;
pub mod stream;
pub mod state;
