//! Outbound calls a scene queues for the host, and the single-use reply
//! slots their answers travel through.

use vstd::prelude::*;

verus! {

/// Where a portable experience lives.
#[derive(Debug, Clone, PartialEq)]
pub enum PortableLocation {
    Urn(String),
    Ens(String),
}

/// Answer to a request to spawn a portable experience.
#[derive(Debug)]
pub struct SpawnResponse {
    pub pid: String,
    pub parent_cid: String,
    pub name: String,
    pub ens: Option<String>,
}

/// The slot was already consumed.
#[derive(Clone, Copy, PartialEq, Eq, Debug, Structural)]
pub struct ReplyConsumed;

/// Single-use reply slot: hands its channel out exactly once and explicitly
/// fails — it never aborts — when consumed twice.
#[derive(Debug)]
pub struct RpcResultSender<T> {
    sender: Option<T>,
}

impl<T> RpcResultSender<T> {
    /// The channel still waiting to be consumed, if any.
    pub closed spec fn slot(self) -> Option<T> {
        self.sender
    }

    pub fn new(sender: T) -> (r: RpcResultSender<T>)
        ensures
            r.slot() == Some(sender),
    {
        RpcResultSender { sender: Some(sender) }
    }

    /// Consumes the slot for delivery: the first call yields the channel,
    /// every later one yields nothing and delivery is silently skipped.
    pub fn send(&mut self) -> (r: Option<T>)
        ensures
            final(self).slot() is None,
            r == old(self).slot(),
    {
        self.sender.take()
    }

    /// Consumes the slot, failing explicitly when it was consumed before.
    pub fn take(&mut self) -> (r: Result<T, ReplyConsumed>)
        ensures
            final(self).slot() is None,
            match r {
                Ok(t) => old(self).slot() == Some(t),
                Err(_) => old(self).slot() is None,
            },
    {
        match self.sender.take() {
            Some(t) => Ok(t),
            None => Err(ReplyConsumed),
        }
    }
}

/// One queued outbound call, destined for the host. Spatial targets are in
/// integer millimetres.
#[derive(Debug)]
pub enum RpcCall<T> {
    ChangeRealm { to: String, message: Option<String>, response: RpcResultSender<T> },
    MovePlayerTo {
        position_target: [i32; 3],
        camera_target: Option<[i32; 3]>,
        response: RpcResultSender<T>,
    },
    TeleportTo { world_coordinates: [i32; 2], response: RpcResultSender<T> },
    TriggerEmote { emote_id: String, response: RpcResultSender<T> },
    TriggerSceneEmote { emote_src: String, looping: bool, response: RpcResultSender<T> },
    SpawnPortable { location: PortableLocation, response: RpcResultSender<T> },
    KillPortable { location: PortableLocation, response: RpcResultSender<T> },
    ListPortables { response: RpcResultSender<T> },
}

} // verus!
