//! The connection handle: the identity attached to an accepted connection and
//! the liveness handshake that every connection must pass before it is handed
//! to a coordinator.
//!
//! The transport performs the actual send and receive; this module decides
//! what the probe frame is and whether a received reply passes the handshake.

use vstd::prelude::*;

verus! {

/// A frame of the underlying transport, as far as the handshake cares.
#[derive(Debug)]
pub enum Frame {
    Text(String),
    Binary(Vec<u8>),
    Ping(Vec<u8>),
    Pong(Vec<u8>),
    Close,
}

/// The outcome of reading one frame from a connection.
#[derive(Debug)]
pub enum ReadResult {
    /// The stream ended without a frame.
    Closed,
    /// The transport reported an error.
    Failed,
    /// A frame arrived.
    Frame(Frame),
}

/// The payload carried by the liveness probe and expected back in the
/// acknowledgement.
pub open spec fn ping_payload() -> Seq<u8> {
    seq![0u8, 1u8, 2u8, 3u8]
}

/// The liveness probe frame sent to a freshly accepted connection.
pub fn ping_frame() -> (f: Frame)
    ensures
        f matches Frame::Ping(p) && p@ == ping_payload(),
{
    let mut payload: Vec<u8> = Vec::new();
    payload.push(0);
    payload.push(1);
    payload.push(2);
    payload.push(3);
    proof {
        assert(payload@ =~= ping_payload());
    }
    Frame::Ping(payload)
}

/// Whether a reply completes the liveness handshake: only the single expected
/// acknowledgement frame passes; any other frame, a closed stream, or a
/// transport error fails it.
pub fn handshake_ok(reply: &ReadResult) -> (ok: bool)
    ensures
        ok <==> (reply matches ReadResult::Frame(Frame::Pong(p)) && p@ == ping_payload()),
{
    match reply {
        ReadResult::Frame(Frame::Pong(p)) => {
            if p.len() != 4 {
                return false;
            }
            let ok = *p.get(0).unwrap() == 0 && *p.get(1).unwrap() == 1 && *p.get(2).unwrap() == 2
                && *p.get(3).unwrap() == 3;
            proof {
                if ok {
                    assert(p@ =~= ping_payload());
                }
            }
            ok
        },
        _ => false,
    }
}

/// The identity attached to a connection once the auth collaborator has
/// verified it.  The send and receive halves of the connection itself stay
/// with the transport layer, keyed by this id.
#[derive(Debug)]
pub struct Player {
    pub id: u32,
    pub username: String,
}

/// The view of a [`Player`].
pub struct PlayerV {
    pub id: u32,
    pub username: Seq<char>,
}

impl View for Player {
    type V = PlayerV;

    open spec fn view(&self) -> PlayerV {
        PlayerV { id: self.id, username: self.username@ }
    }
}

impl Player {
    /// A fresh handle for a verified identity.
    pub fn new(id: u32, username: String) -> (p: Player)
        ensures
            p@.id == id,
            p@.username == username@,
    {
        Player { id, username }
    }
}

} // verus!
