use vstd::prelude::*;

use crate::frames::echo;
use crate::frames::echo_actions;
use crate::frames::Action;
use crate::frames::Incoming;

verus! {

/// A websocket connection that echoes every frame it receives.
pub struct TestWs {}

impl TestWs {
    /// Answers a frame: a pong for a ping, the same text, binary or close
    /// frame back, and nothing for the rest.
    pub fn handle(&self, msg: Incoming) -> (actions: Vec<Action>)
        ensures
            actions@ == echo_actions(msg),
    {
        echo(msg)
    }
}

} // verus!
