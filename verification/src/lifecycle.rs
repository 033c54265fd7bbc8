//! The session lifecycle state machine.
//!
//! A process is in exactly one of three modes: in the lobby (not in a
//! session), loading (establishing a session, or tearing one down), or in a
//! live session. Transitions replace the whole state value, never mutate a
//! part of it. Misuse — leaving while not in a session, starting while one is
//! live — is a silent no-op.

use vstd::prelude::*;

use crate::session::SessionState;

verus! {

/// The lobby's input fields while no session is live.
pub struct LobbyState {
    pub join_existing: bool,
    pub name_input: String,
    pub existing_peer_input: String,
}

impl LobbyState {
    /// A fresh lobby: create mode, empty inputs.
    pub fn empty() -> (r: LobbyState)
        ensures
            !r.join_existing,
            r.name_input@ == Seq::<char>::empty(),
            r.existing_peer_input@ == Seq::<char>::empty(),
    {
        LobbyState {
            join_existing: false,
            name_input: String::new(),
            existing_peer_input: String::new(),
        }
    }

    /// The session request the lobby's fields describe: the display name to
    /// announce, and the bootstrap peer only when joining an existing session.
    pub fn session_request(&self) -> (r: (String, Option<String>))
        ensures
            r.0@ == self.name_input@,
            match r.1 {
                Option::Some(p) => self.join_existing && p@ == self.existing_peer_input@,
                Option::None => !self.join_existing,
            },
    {
        if self.join_existing {
            (self.name_input.clone(), Option::Some(self.existing_peer_input.clone()))
        } else {
            (self.name_input.clone(), Option::None)
        }
    }
}

/// Process-wide session membership. Exactly one variant is live at a time;
/// `Loading` doubles as the transient marker while a session is being
/// established or torn down.
pub enum State {
    Lobby(LobbyState),
    Loading,
    Session(SessionState),
}

/// Starts establishment: from the lobby the state becomes `Loading`, and the
/// lobby's fields are handed back so a failed setup can restore them exactly
/// as the user left them. From any other state the request is a silent no-op.
pub fn begin_establishing(state: State) -> (r: (State, Option<LobbyState>))
    ensures
        match state {
            State::Lobby(l) => r.0 is Loading && r.1 == Option::Some(l),
            _ => r.0 == state && r.1 is None,
        },
{
    match state {
        State::Lobby(l) => (State::Loading, Option::Some(l)),
        other => (other, Option::None),
    }
}

/// Installs the session produced by a successful setup.
pub fn establishment_succeeded(session: SessionState) -> (r: State)
    ensures
        r == State::Session(session),
{
    State::Session(session)
}

/// Reverts a failed setup to the lobby that was saved before it began,
/// preserving the user's typed inputs.
pub fn establishment_failed(saved: LobbyState) -> (r: State)
    ensures
        r == State::Lobby(saved),
{
    State::Lobby(saved)
}

/// Begins leaving: from a live session the state becomes the transient
/// `Loading` marker and the session is handed back so its resources can be
/// released. From any other state the request is a silent no-op.
pub fn begin_leave(state: State) -> (r: (State, Option<SessionState>))
    ensures
        match state {
            State::Session(s) => r.0 is Loading && r.1 == Option::Some(s),
            _ => r.0 == state && r.1 is None,
        },
{
    match state {
        State::Session(s) => (State::Loading, Option::Some(s)),
        other => (other, Option::None),
    }
}

/// Completes leaving, after the departed session's resources are released: a
/// fresh lobby with empty inputs.
pub fn leave_complete() -> (r: State)
    ensures
        r matches State::Lobby(l) && !l.join_existing && l.name_input@ == Seq::<char>::empty()
            && l.existing_peer_input@ == Seq::<char>::empty(),
{
    State::Lobby(LobbyState::empty())
}

} // verus!
