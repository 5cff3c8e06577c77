//! Playback status and the choice of playback backend.
use vstd::prelude::*;
use vstd::string::StringExecFns;

verus! {

/// Playback status of the playlist.
#[derive(Clone, Copy, Debug, PartialEq, Eq, Structural)]
pub enum Status {
    Running,
    Stopped,
    Paused,
}

impl Default for Status {
    fn default() -> (r: Status)
        ensures
            r == Status::Stopped,
    {
        Status::Stopped
    }
}

pub open spec fn status_name(s: Status) -> Seq<char> {
    match s {
        Status::Running => "Running"@,
        Status::Stopped => "Stopped"@,
        Status::Paused => "Paused"@,
    }
}

impl Status {
    /// The status's name, as it is shown to the user.
    pub fn to_string(&self) -> (r: String)
        ensures
            r@ == status_name(*self),
    {
        match self {
            Status::Running => String::from_str("Running"),
            Status::Stopped => String::from_str("Stopped"),
            Status::Paused => String::from_str("Paused"),
        }
    }
}

/// Kind of audio file that the player is set up for.
#[allow(non_camel_case_types)]
#[derive(Clone, Copy, Debug, PartialEq, Eq, Structural)]
pub enum PlayerType {
    mp3,
    m4a,
}

/// A playback backend.
#[derive(Clone, Copy, Debug, PartialEq, Eq, Structural)]
pub enum Backend {
    Mpv,
    Vlc,
}

/// Routes playback requests to the backend that suits the player type. The
/// backends themselves live with the application; they are asked for their
/// answers and hand them in here.
#[derive(Clone, Copy, Debug, PartialEq, Eq, Structural)]
pub struct Player {
    pub player_type: PlayerType,
}

impl Default for Player {
    fn default() -> (r: Player)
        ensures
            r.player_type == PlayerType::mp3,
    {
        Player { player_type: PlayerType::mp3 }
    }
}

impl Player {
    /// The backend that plays a queued song: mpv for mp3, vlc for m4a.
    pub fn backend(&self) -> (r: Backend)
        ensures
            r == (if self.player_type is mp3 { Backend::Mpv } else { Backend::Vlc }),
    {
        match self.player_type {
            PlayerType::mp3 => Backend::Mpv,
            PlayerType::m4a => Backend::Vlc,
        }
    }

    /// The volume to report: the mpv backend's for mp3, 0 otherwise.
    pub fn volume(&self, mpv_volume: i64) -> (r: i64)
        ensures
            r == (if self.player_type is mp3 { mpv_volume } else { 0 }),
    {
        match self.player_type {
            PlayerType::mp3 => mpv_volume,
            _ => 0,
        }
    }

    /// Whether playback is paused: the mpv backend's answer for mp3, always
    /// paused otherwise.
    pub fn is_paused(&self, mpv_paused: bool) -> (r: bool)
        ensures
            r == (if self.player_type is mp3 { mpv_paused } else { true }),
    {
        match self.player_type {
            PlayerType::mp3 => mpv_paused,
            _ => true,
        }
    }
}

} // verus!
