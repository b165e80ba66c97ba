//! Identifier and error types that the device adapter layer supplies to the
//! registry: the closed port/pin enumerations, the timer identifier, and the
//! hardware error types carried by the capability traits.
use vstd::prelude::*;

verus! {

/// A GPIO port of the target device, a small closed enumeration.
#[derive(PartialEq, Eq, Structural, Clone, Copy, Debug, Hash, PartialOrd, Ord)]
pub enum Port {
    A,
    B,
    C,
    D,
    E,
}

/// A pin number within a port, a small closed enumeration.
#[derive(PartialEq, Eq, Structural, Clone, Copy, Debug, Hash, PartialOrd, Ord)]
pub enum Pin {
    P00,
    P01,
    P02,
    P03,
    P04,
    P05,
    P06,
    P07,
    P08,
    P09,
    P10,
    P11,
    P12,
    P13,
    P14,
    P15,
}

/// The stable logical identifier of a hardware timer. The adapter layer
/// assigns one number to each timer peripheral it wires up.
#[derive(PartialEq, Eq, Structural, Clone, Copy, Debug, Hash, PartialOrd, Ord)]
pub struct TimerID(pub u16);

/// Hardware error reported by a digital input; the code is chosen by the
/// adapter layer and is opaque to the registry.
#[derive(PartialEq, Eq, Structural, Clone, Copy, Debug, Hash)]
pub struct GpioInError(pub u32);

/// Hardware error reported by a digital output; the code is chosen by the
/// adapter layer and is opaque to the registry.
#[derive(PartialEq, Eq, Structural, Clone, Copy, Debug, Hash)]
pub struct GpioOutError(pub u32);

/// Hardware error reported by a timer; the code is chosen by the adapter
/// layer and is opaque to the registry.
#[derive(PartialEq, Eq, Structural, Clone, Copy, Debug, Hash)]
pub struct TimerError(pub u32);

/// The position of a timer identifier in the total order of timer
/// identifiers.
pub open spec fn timer_value(id: TimerID) -> int {
    id.0 as int
}

/// The position of a port in the total order of ports.
pub open spec fn port_value(port: Port) -> int {
    match port {
        Port::A => 0,
        Port::B => 1,
        Port::C => 2,
        Port::D => 3,
        Port::E => 4,
    }
}

/// The position of a pin in the total order of pins.
pub open spec fn pin_value(pin: Pin) -> int {
    match pin {
        Pin::P00 => 0,
        Pin::P01 => 1,
        Pin::P02 => 2,
        Pin::P03 => 3,
        Pin::P04 => 4,
        Pin::P05 => 5,
        Pin::P06 => 6,
        Pin::P07 => 7,
        Pin::P08 => 8,
        Pin::P09 => 9,
        Pin::P10 => 10,
        Pin::P11 => 11,
        Pin::P12 => 12,
        Pin::P13 => 13,
        Pin::P14 => 14,
        Pin::P15 => 15,
    }
}

impl Port {
    /// The position of this port in the total order of ports.
    pub fn index(&self) -> (r: u8)
        ensures
            r as int == port_value(*self),
    {
        match self {
            Port::A => 0,
            Port::B => 1,
            Port::C => 2,
            Port::D => 3,
            Port::E => 4,
        }
    }
}

impl Pin {
    /// The position of this pin in the total order of pins.
    pub fn index(&self) -> (r: u8)
        ensures
            r as int == pin_value(*self),
    {
        match self {
            Pin::P00 => 0,
            Pin::P01 => 1,
            Pin::P02 => 2,
            Pin::P03 => 3,
            Pin::P04 => 4,
            Pin::P05 => 5,
            Pin::P06 => 6,
            Pin::P07 => 7,
            Pin::P08 => 8,
            Pin::P09 => 9,
            Pin::P10 => 10,
            Pin::P11 => 11,
            Pin::P12 => 12,
            Pin::P13 => 13,
            Pin::P14 => 14,
            Pin::P15 => 15,
        }
    }
}

} // verus!
