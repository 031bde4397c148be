//! The status light, which tells whether a player is connected.
use crate::pulse::Level;
use vstd::prelude::*;

verus! {

/// What came of the work on the connection.
#[derive(Clone, Copy, Debug, PartialEq, Eq, Structural)]
pub enum Outcome {
    /// A player has connected.
    Connected,
    /// The device could not advertise, or nobody could connect.
    AdvertisingFailed,
    /// The player has gone.
    GameEnded,
}

/// What the device works on.
#[derive(Clone, Copy, Debug, PartialEq, Eq, Structural)]
pub enum Phase {
    /// It waits for a player.
    Advertising,
    /// It plays.
    Playing,
}

/// The device as seen from the connection.
#[derive(Clone, Copy, Debug, PartialEq, Eq, Structural)]
pub struct Peripheral {
    pub phase: Phase,
    /// The level of the pin that the status light is on.
    pub status_led: Level,
}

impl Peripheral {
    /// The status light is on exactly while the device plays.
    pub open spec fn wf(self) -> bool {
        self.status_led == Level::High <==> self.phase == Phase::Playing
    }

    /// The device after `outcome`: a failure to advertise leaves it as it is.
    pub open spec fn advanced(self, outcome: Outcome) -> Peripheral {
        match outcome {
            Outcome::Connected => Peripheral { phase: Phase::Playing, status_led: Level::High },
            Outcome::AdvertisingFailed => self,
            Outcome::GameEnded => Peripheral { phase: Phase::Advertising, status_led: Level::Low },
        }
    }

    /// A device that waits for its first player.
    pub fn new() -> (peripheral: Peripheral)
        ensures
            peripheral == (Peripheral { phase: Phase::Advertising, status_led: Level::Low }),
            peripheral.wf(),
    {
        Peripheral { phase: Phase::Advertising, status_led: Level::Low }
    }

    /// Takes note of what came of the work on the connection; returns the level to set
    /// the pin of the status light to.
    pub fn advance(&mut self, outcome: Outcome) -> (status_led: Level)
        ensures
            *final(self) == old(self).advanced(outcome),
            status_led == final(self).status_led,
            old(self).wf() ==> final(self).wf(),
    {
        match outcome {
            Outcome::Connected => {
                self.phase = Phase::Playing;
                self.status_led = Level::High;
            },
            Outcome::AdvertisingFailed => {},
            Outcome::GameEnded => {
                self.phase = Phase::Advertising;
                self.status_led = Level::Low;
            },
        }
        self.status_led
    }
}

/// The status light goes on with a player, off without, and stays as it is where the
/// device could not advertise.
pub proof fn law_light_follows_the_player(device: Peripheral)
    ensures
        device.advanced(Outcome::Connected).status_led == Level::High,
        device.advanced(Outcome::Connected).phase == Phase::Playing,
        device.advanced(Outcome::GameEnded).status_led == Level::Low,
        device.advanced(Outcome::GameEnded).phase == Phase::Advertising,
        device.advanced(Outcome::AdvertisingFailed) == device,
        device.wf() <==> (device.phase == Phase::Playing && device.status_led == Level::High) || (
        device.phase == Phase::Advertising && device.status_led == Level::Low),
{
}

} // verus!
