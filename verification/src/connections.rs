//! The kind of a websocket connection, decided by the second party's id.
use vstd::prelude::*;
use crate::text::same_text;

verus! {

broadcast use vstd::string::group_string_axioms;

/// A connection with the copilot service, or between people (an agent and
/// a supervisor); each holds the agent's id and the second party's id.
#[derive(Debug)]
pub enum ConnectionType {
    Copilot(String, String),
    People(String, String),
}

/// The second party's id names no kind of connection.
#[derive(Debug)]
pub struct ConnectionError;

impl ConnectionError {
    /// The text that reports the error.
    pub fn message(&self) -> (r: String)
        ensures
            r@ == "Error getting stream type"@,
    {
        "Error getting stream type".to_owned()
    }
}

impl ConnectionType {
    /// The kind of connection: `copilot` as the second party makes a copilot
    /// connection, `supervisor` one between people; any other id is refused.
    pub fn instantiate_connection_type(primary_id: &str, secondary_id: &str) -> (r: Result<
        ConnectionType,
        ConnectionError,
    >)
        ensures
            match r {
                Ok(ConnectionType::Copilot(p, s)) => secondary_id@ == "copilot"@ && p@ == primary_id@
                    && s@ == secondary_id@,
                Ok(ConnectionType::People(p, s)) => secondary_id@ != "copilot"@ && secondary_id@
                    == "supervisor"@ && p@ == primary_id@ && s@ == secondary_id@,
                Err(_) => secondary_id@ != "copilot"@ && secondary_id@ != "supervisor"@,
            },
    {
        if same_text(secondary_id, "copilot") {
            Ok(ConnectionType::Copilot(primary_id.to_owned(), secondary_id.to_owned()))
        } else if same_text(secondary_id, "supervisor") {
            Ok(ConnectionType::People(primary_id.to_owned(), secondary_id.to_owned()))
        } else {
            Err(ConnectionError)
        }
    }
}

} // verus!
