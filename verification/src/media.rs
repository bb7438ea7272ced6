//! Media-control commands.

use vstd::prelude::*;

verus! {

/// A media-control command.
#[derive(Debug, PartialEq, Eq, Copy, Clone, Structural)]
pub enum Command {
    VolumeDown,
    NextTrack,
    PrevTrack,
    PlayPause,
    VolumeUp,
    Eject,
}

impl Command {
    /// The two bytes that stand for the command on the wire: one bit of the
    /// first byte, and a zero.
    pub open spec fn wire(self) -> Seq<u8> {
        match self {
            Command::VolumeDown => seq![64u8, 0u8],
            Command::NextTrack => seq![1u8, 0u8],
            Command::PrevTrack => seq![2u8, 0u8],
            Command::PlayPause => seq![8u8, 0u8],
            Command::VolumeUp => seq![32u8, 0u8],
            Command::Eject => seq![16u8, 0u8],
        }
    }

    /// The wire code of the command.
    pub fn to_command(&self) -> (bytes: [u8; 2])
        ensures
            bytes@ == self.wire(),
    {
        match self {
            Command::VolumeDown => [64, 0],
            Command::NextTrack => [1, 0],
            Command::PrevTrack => [2, 0],
            Command::PlayPause => [8, 0],
            Command::VolumeUp => [32, 0],
            Command::Eject => [16, 0],
        }
    }
}

} // verus!
