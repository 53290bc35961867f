//! What the controller knows of a bulb on the network: its identity, its power and its colour.
use vstd::prelude::*;

verus! {

/// A bulb's hardware identifier.
pub type LifxId = u64;

#[derive(Clone, Copy, Debug, PartialEq, Eq, Structural)]
pub enum Power {
    On,
    Off,
}

/// Hue, saturation and brightness over the full 16-bit range, and a colour temperature.
#[derive(Clone, Copy, Debug, PartialEq, Eq, Structural)]
pub struct Color {
    pub hue: u16,
    pub saturation: u16,
    pub brightness: u16,
    pub kelvin: u16,
}

impl Color {
    pub fn new(hue: u16, saturation: u16, brightness: u16, kelvin: u16) -> (r: Color)
        ensures
            r == (Color { hue, saturation, brightness, kelvin }),
    {
        Color { hue, saturation, brightness, kelvin }
    }

    /// An unsaturated colour of the given temperature.
    pub fn white(kelvin: u16, brightness: u16) -> (r: Color)
        ensures
            r == (Color { hue: 0, saturation: 0, brightness, kelvin }),
    {
        Color { hue: 0, saturation: 0, brightness, kelvin }
    }
}

/// A physical observation of a bulb.
#[derive(Clone, Copy, Debug, PartialEq, Eq, Structural)]
pub struct LightState {
    pub hue: u16,
    pub saturation: u16,
    pub brightness: u16,
    pub kelvin: u16,
    pub power: Power,
}

/// A reachable bulb: its identifier and the network address it answers at.
#[derive(Debug)]
pub struct LifxDevice {
    pub id: LifxId,
    pub addr: String,
}

impl Clone for LifxDevice {
    fn clone(&self) -> (r: LifxDevice)
        ensures
            r == *self,
    {
        LifxDevice { id: self.id, addr: self.addr.clone() }
    }
}

} // verus!
