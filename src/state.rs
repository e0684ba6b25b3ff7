use vstd::prelude::*;

use crate::errors::Packet;

verus! {

/// Stages of a client link on the login server.
#[derive(Debug, Clone, Copy, PartialEq, Eq, Structural)]
pub enum ClientState {
    Initial,
    GgAuthed,
    AuthedLogin,
    ServerListShown,
    EnteringWorld,
}

/// Stages of a game-server link on the login server.
#[derive(Debug, Clone, Copy, PartialEq, Eq, Structural)]
pub enum GSState {
    Initial,
    Connected,
    BlowfishSwapped,
    Authed,
    Running,
}

pub open spec fn client_rank(s: ClientState) -> int {
    match s {
        ClientState::Initial => 0,
        ClientState::GgAuthed => 1,
        ClientState::AuthedLogin => 2,
        ClientState::ServerListShown => 3,
        ClientState::EnteringWorld => 4,
    }
}

pub open spec fn gs_rank(s: GSState) -> int {
    match s {
        GSState::Initial => 0,
        GSState::Connected => 1,
        GSState::BlowfishSwapped => 2,
        GSState::Authed => 3,
        GSState::Running => 4,
    }
}

/// A client link moves one stage forward at a time, along
/// `Initial → GgAuthed → AuthedLogin → ServerListShown → EnteringWorld`.
pub open spec fn client_step_ok(from: ClientState, to: ClientState) -> bool {
    client_rank(to) == client_rank(from) + 1
}

/// A game-server link moves one stage forward at a time, along
/// `Initial → Connected → BlowfishSwapped → Authed → Running`.
pub open spec fn gs_step_ok(from: GSState, to: GSState) -> bool {
    gs_rank(to) == gs_rank(from) + 1
}

impl ClientState {
    pub fn rank(&self) -> (r: u8)
        ensures
            r as int == client_rank(*self),
    {
        match self {
            ClientState::Initial => 0,
            ClientState::GgAuthed => 1,
            ClientState::AuthedLogin => 2,
            ClientState::ServerListShown => 3,
            ClientState::EnteringWorld => 4,
        }
    }

    /// Moves to `to` when that is a legal step; else the state stays and the link is to
    /// be closed.
    pub fn transition_to(&mut self, to: ClientState) -> (r: Result<(), Packet>)
        ensures
            r is Ok <==> client_step_ok(*old(self), to),
            r is Ok ==> *final(self) == to,
            r is Err ==> *final(self) == *old(self),
    {
        let from = self.rank();
        let next = to.rank();
        if next == from + 1 {
            *self = to;
            Ok(())
        } else {
            Err(Packet::UnexpectedState)
        }
    }
}

impl GSState {
    pub fn rank(&self) -> (r: u8)
        ensures
            r as int == gs_rank(*self),
    {
        match self {
            GSState::Initial => 0,
            GSState::Connected => 1,
            GSState::BlowfishSwapped => 2,
            GSState::Authed => 3,
            GSState::Running => 4,
        }
    }

    /// Moves to `to` when that is a legal step; else the state stays and the link is to
    /// be closed.
    pub fn transition_to(&mut self, to: GSState) -> (r: Result<(), Packet>)
        ensures
            r is Ok <==> gs_step_ok(*old(self), to),
            r is Ok ==> *final(self) == to,
            r is Err ==> *final(self) == *old(self),
    {
        let from = self.rank();
        let next = to.rank();
        if next == from + 1 {
            *self = to;
            Ok(())
        } else {
            Err(Packet::UnexpectedState)
        }
    }
}

} // verus!
