//! The tagged-union message protocol between the server and its players, and
//! the envelope type with which every coordinator states its decisions.
//!
//! A coordinator never touches a socket: it returns a list of envelopes, each
//! naming a recipient and the message to deliver, and the transport layer
//! encodes and sends them.  Every message type has a mathematical view so that
//! contracts can pin the produced envelopes down exactly.

use vstd::prelude::*;

use crate::typing_test::Seed;

verus! {

/// One planned delivery: which player is to receive which message.
#[derive(Debug)]
pub struct Envelope<M> {
    pub to: u32,
    pub msg: M,
}

/// The view of an envelope: recipient id plus the view of the message.
pub struct EnvelopeV<MV> {
    pub to: u32,
    pub msg: MV,
}

impl<M: View> View for Envelope<M> {
    type V = EnvelopeV<M::V>;

    open spec fn view(&self) -> EnvelopeV<M::V> {
        EnvelopeV { to: self.to, msg: self.msg@ }
    }
}

/// The element-wise view of a sequence of viewable values.
pub open spec fn seq_view<T: View>(s: Seq<T>) -> Seq<T::V> {
    Seq::new(s.len(), |i: int| s[i]@)
}

/// Readiness of one room member.  A member progresses
/// `NotReady -> Ready -> Racing -> Finished` and may leave at any point.
#[derive(Debug, Clone, Copy, PartialEq, Eq, Structural)]
pub enum PlayerState {
    NotReady,
    Ready,
    Racing,
    Finished,
}

/// Why a race member was dropped from a session.
#[derive(Debug, Clone, Copy, PartialEq, Eq, Structural)]
pub enum DisconnectReason {
    Unknown,
    Timeout,
}

/// A span of time, second and nanosecond parts; mirrors what the transport
/// serializes for a duration value.
#[derive(Debug, Clone, Copy, PartialEq, Eq, Structural)]
pub struct TimeSpan {
    pub secs: u64,
    pub nanos: u32,
}

/// Messages sent to players while they wait in the matchmaking lobby.
#[derive(Debug)]
pub enum LobbyMsg {
    /// Another player was admitted to the lobby.
    Joined { username: String },
    /// The lobby was drained into a race; all members receive the same seed.
    Start { seed: Seed },
}

/// The view of a [`LobbyMsg`].
pub enum LobbyMsgV {
    Joined { username: Seq<char> },
    Start { seed: Seq<i32> },
}

impl View for LobbyMsg {
    type V = LobbyMsgV;

    open spec fn view(&self) -> LobbyMsgV {
        match self {
            LobbyMsg::Joined { username } => LobbyMsgV::Joined { username: username@ },
            LobbyMsg::Start { seed } => LobbyMsgV::Start { seed: seed@ },
        }
    }
}

/// Events relayed within a quick-match race session.  `Update` and `Finish`
/// originate from players; `Timeout` is synthesized by a listener whose
/// player went silent; `Disconnect` is synthesized when a member is dropped.
#[derive(Debug)]
pub enum RaceMsg {
    Update {
        username: String,
        progress: usize,
    },
    Finish {
        username: String,
        /// Bit pattern of the client-reported result value, carried opaquely.
        result: u32,
    },
    Disconnect {
        username: String,
        reason: DisconnectReason,
    },
    Timeout {
        username: String,
    },
}

/// The view of a [`RaceMsg`].
pub enum RaceMsgV {
    Update { username: Seq<char>, progress: usize },
    Finish { username: Seq<char>, result: u32 },
    Disconnect { username: Seq<char>, reason: DisconnectReason },
    Timeout { username: Seq<char> },
}

impl View for RaceMsg {
    type V = RaceMsgV;

    open spec fn view(&self) -> RaceMsgV {
        match self {
            RaceMsg::Update { username, progress } => RaceMsgV::Update {
                username: username@,
                progress: *progress,
            },
            RaceMsg::Finish { username, result } => RaceMsgV::Finish {
                username: username@,
                result: *result,
            },
            RaceMsg::Disconnect { username, reason } => RaceMsgV::Disconnect {
                username: username@,
                reason: *reason,
            },
            RaceMsg::Timeout { username } => RaceMsgV::Timeout { username: username@ },
        }
    }
}

/// A room member as described to a newly joining player.
#[derive(Debug)]
pub struct OtherPlayer {
    pub username: String,
    pub state: PlayerState,
}

/// The view of an [`OtherPlayer`].
pub struct OtherPlayerV {
    pub username: Seq<char>,
    pub state: PlayerState,
}

impl View for OtherPlayer {
    type V = OtherPlayerV;

    open spec fn view(&self) -> OtherPlayerV {
        OtherPlayerV { username: self.username@, state: self.state }
    }
}

/// Messages a room sends to its members.
#[derive(Debug)]
pub enum ToPlayerMsg {
    /// Sent to a player when they join the room: a snapshot of every other
    /// member and the current host's name.
    Init { other_players: Vec<OtherPlayer>, host: String },
    /// Sent to the previous members when another player joins the room.
    Join { joining_player: String, is_host: bool },
    /// Sent to the remaining members when a player leaves the room.
    Leave { leaving_player: String, new_host: Option<String> },
    /// Sent to the other members when a player becomes ready.
    Ready { ready_player: String },
    /// Sent to the other members when a player withdraws readiness.
    NotReady { not_ready_player: String },
    /// Sent to everyone when the host starts the race.
    Prepare { time_until_race_start: TimeSpan, seed: Seed },
    /// Sent to the other members when a player progresses in the race.
    Update { player: String, progress: u32 },
    /// Sent to the other members when a player completes the race.
    Finish { player: String, duration: TimeSpan },
    /// Sent to a single player when their request was rejected.
    Error { title: &'static str, body: &'static str },
}

/// The view of a [`ToPlayerMsg`].
pub enum ToPlayerMsgV {
    Init { other_players: Seq<OtherPlayerV>, host: Seq<char> },
    Join { joining_player: Seq<char>, is_host: bool },
    Leave { leaving_player: Seq<char>, new_host: Option<Seq<char>> },
    Ready { ready_player: Seq<char> },
    NotReady { not_ready_player: Seq<char> },
    Prepare { time_until_race_start: TimeSpan, seed: Seq<i32> },
    Update { player: Seq<char>, progress: u32 },
    Finish { player: Seq<char>, duration: TimeSpan },
    Error { title: Seq<char>, body: Seq<char> },
}

impl View for ToPlayerMsg {
    type V = ToPlayerMsgV;

    open spec fn view(&self) -> ToPlayerMsgV {
        match self {
            ToPlayerMsg::Init { other_players, host } => ToPlayerMsgV::Init {
                other_players: seq_view(other_players@),
                host: host@,
            },
            ToPlayerMsg::Join { joining_player, is_host } => ToPlayerMsgV::Join {
                joining_player: joining_player@,
                is_host: *is_host,
            },
            ToPlayerMsg::Leave { leaving_player, new_host } => ToPlayerMsgV::Leave {
                leaving_player: leaving_player@,
                new_host: match new_host {
                    Some(h) => Some(h@),
                    None => None,
                },
            },
            ToPlayerMsg::Ready { ready_player } => ToPlayerMsgV::Ready {
                ready_player: ready_player@,
            },
            ToPlayerMsg::NotReady { not_ready_player } => ToPlayerMsgV::NotReady {
                not_ready_player: not_ready_player@,
            },
            ToPlayerMsg::Prepare { time_until_race_start, seed } => ToPlayerMsgV::Prepare {
                time_until_race_start: *time_until_race_start,
                seed: seed@,
            },
            ToPlayerMsg::Update { player, progress } => ToPlayerMsgV::Update {
                player: player@,
                progress: *progress,
            },
            ToPlayerMsg::Finish { player, duration } => ToPlayerMsgV::Finish {
                player: player@,
                duration: *duration,
            },
            ToPlayerMsg::Error { title, body } => ToPlayerMsgV::Error {
                title: title@,
                body: body@,
            },
        }
    }
}

/// Messages a player sends into a room.
#[derive(Debug)]
pub enum FromPlayerMsg {
    Ready,
    NotReady,
    Start,
    Update { progress: u32 },
    Finish { duration: TimeSpan },
}

} // verus!
