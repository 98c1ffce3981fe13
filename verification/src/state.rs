//! The connection's negotiation phases and the per-phase bookkeeping that
//! decides when a connection moves from one phase to the next.

use vstd::prelude::*;

use crate::packet::PacketKind;
use crate::{Error, ErrorKind};

verus! {

/// A simple C-style enum that describes all possible states a connection
/// can be in.
#[derive(Debug, Clone, Copy, PartialEq, Eq, Structural)]
pub enum ConnectionState {
    Negotiation,
    Authentication,
    Handshake,
    Lobby,
    Established,
    Disconnecting,
}

/// The wire tag of each connection state.
pub open spec fn spec_state_byte(s: ConnectionState) -> u8 {
    match s {
        ConnectionState::Negotiation => 0,
        ConnectionState::Authentication => 1,
        ConnectionState::Handshake => 2,
        ConnectionState::Lobby => 3,
        ConnectionState::Established => 4,
        ConnectionState::Disconnecting => 5,
    }
}

/// The connection state a wire tag names, if any.
pub open spec fn spec_state_of_byte(b: u8) -> Option<ConnectionState> {
    if b == 0 {
        Some(ConnectionState::Negotiation)
    } else if b == 1 {
        Some(ConnectionState::Authentication)
    } else if b == 2 {
        Some(ConnectionState::Handshake)
    } else if b == 3 {
        Some(ConnectionState::Lobby)
    } else if b == 4 {
        Some(ConnectionState::Established)
    } else if b == 5 {
        Some(ConnectionState::Disconnecting)
    } else {
        None
    }
}

impl ConnectionState {
    /// The wire tag of this state.
    pub fn to_byte(self) -> (b: u8)
        ensures
            b == spec_state_byte(self),
    {
        match self {
            ConnectionState::Negotiation => 0,
            ConnectionState::Authentication => 1,
            ConnectionState::Handshake => 2,
            ConnectionState::Lobby => 3,
            ConnectionState::Established => 4,
            ConnectionState::Disconnecting => 5,
        }
    }

    /// The state a wire tag names; a tag outside the enum's range is a
    /// framing error carrying the offending byte.
    pub fn from_byte(b: u8) -> (r: Result<ConnectionState, Error>)
        ensures
            match r {
                Ok(s) => spec_state_of_byte(b) == Some(s) && spec_state_byte(s) == b,
                Err(e) => {
                    &&& spec_state_of_byte(b) is None
                    &&& b >= 6
                    &&& e.kind == ErrorKind::InvalidState(b)
                },
            },
    {
        if b == 0 {
            Ok(ConnectionState::Negotiation)
        } else if b == 1 {
            Ok(ConnectionState::Authentication)
        } else if b == 2 {
            Ok(ConnectionState::Handshake)
        } else if b == 3 {
            Ok(ConnectionState::Lobby)
        } else if b == 4 {
            Ok(ConnectionState::Established)
        } else if b == 5 {
            Ok(ConnectionState::Disconnecting)
        } else {
            Err(Error::invalid_state(b))
        }
    }
}

/// The connection phase each packet kind belongs to: a packet presented to
/// any other phase is rejected as out of phase.
pub open spec fn spec_state_of_kind(k: PacketKind) -> ConnectionState {
    match k {
        PacketKind::Profile => ConnectionState::Handshake,
        PacketKind::Lobby => ConnectionState::Handshake,
        PacketKind::PlayerJoined => ConnectionState::Lobby,
        PacketKind::PlayerLeft => ConnectionState::Lobby,
        PacketKind::Disconnect => ConnectionState::Lobby,
    }
}

/// The connection phase each packet kind belongs to.
#[verifier::when_used_as_spec(spec_state_of_kind)]
pub fn state_of_kind(k: PacketKind) -> (s: ConnectionState)
    ensures
        s == spec_state_of_kind(k),
{
    match k {
        PacketKind::Profile => ConnectionState::Handshake,
        PacketKind::Lobby => ConnectionState::Handshake,
        PacketKind::PlayerJoined => ConnectionState::Lobby,
        PacketKind::PlayerLeft => ConnectionState::Lobby,
        PacketKind::Disconnect => ConnectionState::Lobby,
    }
}

/// In order to complete the handshake, every handshake packet kind must be
/// handled at least once; this accumulator records which kinds have been.
#[derive(Debug, Clone, Copy, PartialEq, Eq, Structural)]
pub struct HandshakeState {
    handled_profile: bool,
    handled_lobby: bool,
}

impl HandshakeState {
    /// Whether packet kind `k` has been handled during this handshake.
    /// Kinds of other phases are never recorded here.
    pub closed spec fn spec_handled(&self, k: PacketKind) -> bool {
        match k {
            PacketKind::Profile => self.handled_profile,
            PacketKind::Lobby => self.handled_lobby,
            _ => false,
        }
    }

    /// Whether every handshake packet kind has been handled at least once.
    pub open spec fn spec_complete(&self) -> bool {
        self.spec_handled(PacketKind::Profile) && self.spec_handled(PacketKind::Lobby)
    }

    /// The accumulator after recording one handled packet kind. Kinds of
    /// other phases leave it unchanged.
    pub closed spec fn spec_mark(self, k: PacketKind) -> HandshakeState {
        match k {
            PacketKind::Profile => HandshakeState { handled_profile: true, ..self },
            PacketKind::Lobby => HandshakeState { handled_lobby: true, ..self },
            _ => self,
        }
    }

    /// A fresh accumulator with nothing handled yet.
    pub fn new() -> (h: HandshakeState)
        ensures
            forall|k: PacketKind| !h.spec_handled(k),
    {
        HandshakeState { handled_profile: false, handled_lobby: false }
    }

    /// Records that a packet of kind `k` was serialized or deserialized
    /// while this handshake was the current phase.
    pub fn mark(&mut self, k: PacketKind)
        ensures
            *final(self) == old(self).spec_mark(k),
    {
        match k {
            PacketKind::Profile => {
                self.handled_profile = true;
            },
            PacketKind::Lobby => {
                self.handled_lobby = true;
            },
            PacketKind::PlayerJoined => {},
            PacketKind::PlayerLeft => {},
            PacketKind::Disconnect => {},
        }
    }

    /// Whether every handshake packet kind has been handled at least once.
    pub fn complete(&self) -> (b: bool)
        ensures
            b == self.spec_complete(),
    {
        self.handled_profile && self.handled_lobby
    }

    /// The accumulator after recording each kind of a history in turn.
    pub open spec fn spec_mark_all(self, ks: Seq<PacketKind>) -> HandshakeState
        decreases ks.len(),
    {
        if ks.len() == 0 {
            self
        } else {
            self.spec_mark(ks[0]).spec_mark_all(ks.drop_first())
        }
    }
}

impl Default for HandshakeState {
    fn default() -> (h: HandshakeState)
        ensures
            forall|k: PacketKind| !h.spec_handled(k),
    {
        HandshakeState { handled_profile: false, handled_lobby: false }
    }
}

/// What one mark does: afterwards a kind is handled exactly when it was
/// handled before, or it is the marked kind and a handshake kind.
pub broadcast proof fn lemma_mark_handled(h: HandshakeState, k: PacketKind, q: PacketKind)
    ensures
        #[trigger] h.spec_mark(k).spec_handled(q) <==> h.spec_handled(q) || (q == k
            && spec_state_of_kind(k) == ConnectionState::Handshake),
{
}

/// Marking kinds only accumulates: a kind is handled afterwards exactly
/// when it was handled before or occurs among the marks.
proof fn lemma_mark_all_handled(h: HandshakeState, ks: Seq<PacketKind>, k: PacketKind)
    ensures
        h.spec_mark_all(ks).spec_handled(k) <==> h.spec_handled(k) || (ks.contains(k)
            && spec_state_of_kind(k) == ConnectionState::Handshake),
    decreases ks.len(),
{
    broadcast use lemma_mark_handled;

    if ks.len() > 0 {
        lemma_mark_all_handled(h.spec_mark(ks[0]), ks.drop_first(), k);
        assert(ks.contains(k) <==> (ks[0] == k || ks.drop_first().contains(k))) by {
            if ks.contains(k) {
                let i = choose|i: int| 0 <= i < ks.len() && ks[i] == k;
                if i > 0 {
                    assert(ks.drop_first()[i - 1] == k);
                }
            }
            if ks[0] == k {
                assert(ks[0int] == k);
            }
            if ks.drop_first().contains(k) {
                let j = choose|j: int| 0 <= j < ks.drop_first().len() && ks.drop_first()[j] == k;
                assert(ks[j + 1] == k);
            }
        }
    }
}

/// The handshake completes on the set of distinct packet kinds observed,
/// never on their count or order: starting from a fresh accumulator, any
/// history of marks completes the handshake exactly when both the
/// `Profile` kind and the `Lobby` kind occur in it at least once.
pub proof fn lemma_handshake_completion(h: HandshakeState, ks: Seq<PacketKind>)
    requires
        forall|k: PacketKind| !h.spec_handled(k),
    ensures
        h.spec_mark_all(ks).spec_complete() <==> ks.contains(PacketKind::Profile) && ks.contains(
            PacketKind::Lobby,
        ),
{
    lemma_mark_all_handled(h, ks, PacketKind::Profile);
    lemma_mark_all_handled(h, ks, PacketKind::Lobby);
}

/// The lobby phase keeps no bookkeeping of its own and never leaves.
#[derive(Debug, Clone, Copy, PartialEq, Eq, Structural)]
pub struct LobbyState;

/// The internal state of the phase a connection is currently in: the
/// phase's tag together with its phase-local bookkeeping. The phase value
/// is swapped wholesale on a transition.
#[derive(Debug)]
pub enum ConnectionStatePhase {
    Handshake(HandshakeState),
    Lobby(LobbyState),
}

impl ConnectionStatePhase {
    /// The state enum value this phase stands for.
    pub open spec fn spec_state(&self) -> ConnectionState {
        match self {
            ConnectionStatePhase::Handshake(_) => ConnectionState::Handshake,
            ConnectionStatePhase::Lobby(_) => ConnectionState::Lobby,
        }
    }

    /// The phase after its bookkeeping records a packet of kind `k`.
    pub open spec fn spec_mark(self, k: PacketKind) -> ConnectionStatePhase {
        match self {
            ConnectionStatePhase::Handshake(h) => ConnectionStatePhase::Handshake(h.spec_mark(k)),
            ConnectionStatePhase::Lobby(l) => ConnectionStatePhase::Lobby(l),
        }
    }

    /// The state this phase is ready to transition to, if any.
    pub open spec fn spec_next(&self) -> Option<ConnectionState> {
        match self {
            ConnectionStatePhase::Handshake(h) => if h.spec_complete() {
                Some(ConnectionState::Lobby)
            } else {
                None
            },
            ConnectionStatePhase::Lobby(_) => None,
        }
    }

    /// The phase a connection starts in.
    pub fn initial() -> (p: ConnectionStatePhase)
        ensures
            p.spec_state() == ConnectionState::Handshake,
            p matches ConnectionStatePhase::Handshake(h) && forall|k: PacketKind|
                !h.spec_handled(k),
    {
        ConnectionStatePhase::Handshake(HandshakeState::new())
    }

    /// The state enum value this phase stands for.
    pub fn state(&self) -> (s: ConnectionState)
        ensures
            s == self.spec_state(),
    {
        match self {
            ConnectionStatePhase::Handshake(_) => ConnectionState::Handshake,
            ConnectionStatePhase::Lobby(_) => ConnectionState::Lobby,
        }
    }

    /// Handle a packet of kind `k` being serialized while this is the
    /// current phase: a packet of another phase is rejected untouched, one
    /// of this phase is recorded.
    pub fn handle_packet_serialize(&mut self, k: PacketKind) -> (r: Result<(), Error>)
        ensures
            match r {
                Ok(()) => {
                    &&& spec_state_of_kind(k) == old(self).spec_state()
                    &&& *final(self) == old(self).spec_mark(k)
                },
                Err(e) => {
                    &&& spec_state_of_kind(k) != old(self).spec_state()
                    &&& *final(self) == *old(self)
                    &&& e.kind == ErrorKind::WrongState
                },
            },
    {
        self.handle_packet(k)
    }

    /// Handle a packet of kind `k` being received and deserialized while
    /// this is the current phase; the same rule as for serializing.
    pub fn handle_packet_deserialize(&mut self, k: PacketKind) -> (r: Result<(), Error>)
        ensures
            match r {
                Ok(()) => {
                    &&& spec_state_of_kind(k) == old(self).spec_state()
                    &&& *final(self) == old(self).spec_mark(k)
                },
                Err(e) => {
                    &&& spec_state_of_kind(k) != old(self).spec_state()
                    &&& *final(self) == *old(self)
                    &&& e.kind == ErrorKind::WrongState
                },
            },
    {
        self.handle_packet(k)
    }

    /// Serializing and deserializing share one rule: the packet must belong
    /// to the current phase, and then its kind is recorded.
    fn handle_packet(&mut self, k: PacketKind) -> (r: Result<(), Error>)
        ensures
            match r {
                Ok(()) => {
                    &&& spec_state_of_kind(k) == old(self).spec_state()
                    &&& *final(self) == old(self).spec_mark(k)
                },
                Err(e) => {
                    &&& spec_state_of_kind(k) != old(self).spec_state()
                    &&& *final(self) == *old(self)
                    &&& e.kind == ErrorKind::WrongState
                },
            },
    {
        match self {
            ConnectionStatePhase::Handshake(h) => {
                if matches!(state_of_kind(k), ConnectionState::Handshake) {
                    h.mark(k);
                    Ok(())
                } else {
                    Err(Error::wrong_state())
                }
            },
            ConnectionStatePhase::Lobby(_) => {
                if matches!(state_of_kind(k), ConnectionState::Lobby) {
                    Ok(())
                } else {
                    Err(Error::wrong_state())
                }
            },
        }
    }

    /// Check if the connection should transition into a new state.
    pub fn poll_state_change(&self) -> (r: Option<ConnectionState>)
        ensures
            r == self.spec_next(),
    {
        match self {
            ConnectionStatePhase::Handshake(h) => {
                if h.complete() {
                    Some(ConnectionState::Lobby)
                } else {
                    None
                }
            },
            ConnectionStatePhase::Lobby(_) => None,
        }
    }
}

} // verus!
