//! A small example handler for the event stream: acknowledges every ping
//! and pong it is handed.  A runtime shell drives it from the subscriber
//! loop and prints what it received.

use crate::errors::InternalError;
use crate::model::{MyLocalEvent, PingMessage, PongMessage};
use vstd::prelude::*;

verus! {

/// The actor that handles decoded stream events.
pub struct EventStreamHandler;

impl EventStreamHandler {
    /// Handles one ping; always acknowledges it.
    pub fn handle_ping(&mut self, msg: PingMessage) -> (r: Result<bool, InternalError>)
        ensures
            r == Result::<bool, InternalError>::Ok(true),
    {
        let _ = msg;
        Ok(true)
    }

    /// Handles one pong; always acknowledges it.
    pub fn handle_pong(&mut self, msg: PongMessage) -> (r: Result<bool, InternalError>)
        ensures
            r == Result::<bool, InternalError>::Ok(true),
    {
        let _ = msg;
        Ok(true)
    }

    /// Handles one wrapped event; always acknowledges it.
    pub fn handle_local(&mut self, msg: MyLocalEvent) -> (r: Result<bool, InternalError>)
        ensures
            r == Result::<bool, InternalError>::Ok(true),
    {
        let _ = msg;
        Ok(true)
    }
}

} // verus!
