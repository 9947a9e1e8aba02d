//! What a connection does with what it receives.
//!
//! A connection's tasks wait on sockets and channels; they ask the
//! functions of this module what to do with each thing that arrives.

use crate::player::PlayerInput;
use crate::protocol::ClientMsg;
use vstd::prelude::*;

verus! {

/// Most input messages that a player may send per second.
pub const INPUT_RATE_LIMIT: u32 = 30;

/// Most requests to join the queue that a player may send per second.
pub const MATCHMAKING_RATE_LIMIT: u32 = 5;

/// Most inventory requests that a player may send per second.
pub const INVENTORY_RATE_LIMIT: u32 = 10;

/// Messages that a player's own channels hold before a sender waits or a
/// slow receiver skips.
pub const PLAYER_CHANNEL_CAPACITY: usize = 64;

/// Messages that a match's input channel holds.
pub const MATCH_INPUT_CAPACITY: usize = 256;

/// Messages that a match's broadcast keeps for each subscriber.
pub const MATCH_BROADCAST_CAPACITY: usize = 64;

/// Time that a router without a match waits before it looks again, in
/// milliseconds.
pub const ROUTER_IDLE_MILLIS: u64 = 100;

/// What has arrived from a client's socket.
#[derive(Debug, Clone, Copy, PartialEq, Eq, Structural)]
pub enum InboundFrame {
    /// A text frame.
    Text,
    /// A binary frame.
    Binary,
    /// A ping of the transport.
    Ping,
    /// A pong of the transport.
    Pong,
    /// The client closes the connection.
    Close,
    /// The socket has failed.
    Failed,
}

/// What a connection's reader does with a frame.
#[derive(Debug, Clone, Copy, PartialEq, Eq, Structural)]
pub enum FrameAction {
    /// Take the frame as a message of the client.
    Read,
    /// Pass over the frame.
    Ignore,
    /// End the session.
    Stop,
}

/// What a reader does with a frame: text is read, a close or a failure
/// ends the session, and everything else is passed over.
pub open spec fn frame_action(frame: InboundFrame) -> FrameAction {
    match frame {
        InboundFrame::Text => FrameAction::Read,
        InboundFrame::Close => FrameAction::Stop,
        InboundFrame::Failed => FrameAction::Stop,
        _ => FrameAction::Ignore,
    }
}

/// What the match gets of a text frame of the user at time `now`: the
/// message that it holds, if the rate limit lets it pass and it holds one.
pub open spec fn admitted(user_id: u128, allowed: bool, parsed: Option<ClientMsg>, now: u64) -> Option<
    PlayerInput,
> {
    match parsed {
        Some(msg) => if allowed {
            Some(PlayerInput { user_id, msg, received_at: now })
        } else {
            None
        },
        None => None,
    }
}

/// Decides what a reader does with a frame.
pub fn classify_frame(frame: InboundFrame) -> (action: FrameAction)
    ensures
        action == frame_action(frame),
{
    match frame {
        InboundFrame::Text => FrameAction::Read,
        InboundFrame::Close => FrameAction::Stop,
        InboundFrame::Failed => FrameAction::Stop,
        _ => FrameAction::Ignore,
    }
}

/// Turns a text frame of the user into the input that goes to the match.
/// `allowed` is the rate limiter's answer and `parsed` the message that the
/// frame holds, if it holds one.
pub fn admit_text(user_id: u128, allowed: bool, parsed: Option<ClientMsg>, now: u64) -> (input: Option<
    PlayerInput,
>)
    ensures
        input == admitted(user_id, allowed, parsed, now),
{
    match parsed {
        Some(msg) => if allowed {
            Some(PlayerInput { user_id, msg, received_at: now })
        } else {
            None
        },
        None => None,
    }
}

/// The input that takes the user out of the match when the session ends.
pub fn leave_request(user_id: u128, now: u64) -> (input: PlayerInput)
    ensures
        input == (PlayerInput { user_id, msg: ClientMsg::LeaveMatch, received_at: now }),
{
    PlayerInput { user_id, msg: ClientMsg::LeaveMatch, received_at: now }
}

/// What a subscription to a broadcast has given.
#[derive(Debug, Clone, Copy, PartialEq, Eq, Structural)]
pub enum Received {
    /// The next message.
    Message,
    /// The subscriber was too slow and has missed this many messages.
    Lagged(u64),
    /// The broadcast has ended.
    Closed,
}

/// What a task that passes messages on does next.
#[derive(Debug, Clone, Copy, PartialEq, Eq, Structural)]
pub enum RelayAction {
    /// Pass the message on.
    Forward,
    /// Go on with the next message.
    Continue,
    /// End.
    Stop,
}

/// What a connection's writer does with what its subscription has given:
/// a message is written, lag is passed over, and the end of the broadcast
/// ends the writer.
pub open spec fn writer_action(received: Received) -> RelayAction {
    match received {
        Received::Message => RelayAction::Forward,
        Received::Lagged(_) => RelayAction::Continue,
        Received::Closed => RelayAction::Stop,
    }
}

/// Decides what a connection's writer does next.
pub fn writer_step(received: Received) -> (action: RelayAction)
    ensures
        action == writer_action(received),
{
    match received {
        Received::Message => RelayAction::Forward,
        Received::Lagged(_) => RelayAction::Continue,
        Received::Closed => RelayAction::Stop,
    }
}

/// The task that brings the messages of a player's current match to the
/// player's own channel.
#[derive(Debug, Clone, Copy, PartialEq, Eq, Structural)]
pub struct SnapshotRouter {
    /// The match that the router follows.
    pub current_match: Option<u128>,
    /// The router holds a subscription to that match's broadcast.
    pub subscribed: bool,
}

/// What a snapshot router waits for.
#[derive(Debug, Clone, Copy, PartialEq, Eq, Structural)]
pub enum RouterWait {
    /// The next message of the match.
    Message,
    /// `ROUTER_IDLE_MILLIS` to pass.
    Pause,
}

impl SnapshotRouter {
    /// The router's match differs from the one that the player is assigned
    /// to.
    pub open spec fn is_stale(self, assigned: Option<u128>) -> bool {
        self.current_match != assigned
    }

    /// The router after it has turned to the match that the player is
    /// assigned to; `found` tells whether the directory holds that match.
    /// It is subscribed if it follows a match that was found.
    pub open spec fn retargeted(self, assigned: Option<u128>, found: bool) -> SnapshotRouter {
        if self.is_stale(assigned) {
            SnapshotRouter { current_match: assigned, subscribed: assigned.is_some() && found }
        } else {
            self
        }
    }

    /// The router after its subscription has given something: the end of
    /// the broadcast leaves it without a match.
    pub open spec fn after(self, received: Received) -> SnapshotRouter {
        match received {
            Received::Closed => SnapshotRouter { current_match: None, subscribed: false },
            _ => self,
        }
    }

    /// A router that follows no match.
    pub fn new() -> (router: SnapshotRouter)
        ensures
            router == (SnapshotRouter { current_match: None, subscribed: false }),
    {
        SnapshotRouter { current_match: None, subscribed: false }
    }

    /// Whether the router has to turn to another match.
    pub fn needs_retarget(&self, assigned: Option<u128>) -> (stale: bool)
        ensures
            stale == self.is_stale(assigned),
    {
        match (self.current_match, assigned) {
            (Some(a), Some(b)) => a != b,
            (None, None) => false,
            _ => true,
        }
    }

    /// Turns the router to the match that the player is assigned to and
    /// tells whether it has to subscribe to that match's broadcast.
    pub fn retarget(&mut self, assigned: Option<u128>, found: bool) -> (subscribe: bool)
        ensures
            *final(self) == old(self).retargeted(assigned, found),
            subscribe == (old(self).is_stale(assigned) && final(self).subscribed),
    {
        if self.needs_retarget(assigned) {
            self.current_match = assigned;
            self.subscribed = assigned.is_some() && found;
            self.subscribed
        } else {
            false
        }
    }

    /// What the router waits for.
    pub fn wait(&self) -> (wait: RouterWait)
        ensures
            wait == if self.subscribed {
                RouterWait::Message
            } else {
                RouterWait::Pause
            },
    {
        if self.subscribed {
            RouterWait::Message
        } else {
            RouterWait::Pause
        }
    }

    /// Takes what the subscription has given and tells what to do with it:
    /// a message goes to the player, lag is passed over, and the end of the
    /// broadcast makes the router let go of its match. The router goes on
    /// in every case.
    pub fn received(&mut self, received: Received) -> (action: RelayAction)
        ensures
            *final(self) == old(self).after(received),
            action == match received {
                Received::Message => RelayAction::Forward,
                _ => RelayAction::Continue,
            },
    {
        match received {
            Received::Message => RelayAction::Forward,
            Received::Lagged(_) => RelayAction::Continue,
            Received::Closed => {
                self.current_match = None;
                self.subscribed = false;
                RelayAction::Continue
            },
        }
    }
}

} // verus!
