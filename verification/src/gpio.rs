//! The GPIO identifier, its total order, the capability traits a digital
//! input or output handle must support, and the wrappers that pair a handle
//! with the identity it was registered under.
use vstd::prelude::*;

use crate::device::GpioInError;
use crate::device::GpioOutError;
use crate::device::Pin;
use crate::device::Port;
use crate::device::pin_value;
use crate::device::port_value;

verus! {

/// The stable logical identifier of a GPIO: a port and a pin, ordered
/// lexicographically by `(port, pin)`.
#[derive(PartialEq, Eq, Structural, Clone, Copy, Debug, Hash, PartialOrd, Ord)]
pub struct Gpio {
    pub port: Port,
    pub pin: Pin,
}

/// A GPIO failure, wrapping the hardware error of the failing direction.
#[derive(PartialEq, Eq, Structural, Clone, Copy, Debug, Hash)]
pub enum GpioError {
    In(GpioInError),
    Out(GpioOutError),
}

/// The position of a GPIO identifier in the lexicographic `(port, pin)`
/// order: one number per identifier, `0` up to but not including
/// [`GPIO_VALUE_COUNT`].
pub open spec fn gpio_value(gpio: Gpio) -> int {
    port_value(gpio.port) * 16 + pin_value(gpio.pin)
}

/// The number of distinct GPIO identifier values; every [`gpio_value`] is
/// smaller than this bound.
pub const GPIO_VALUE_COUNT: u32 = 80;

impl Gpio {
    /// The position of this identifier in the `(port, pin)` order, as a
    /// machine integer usable as a binary-search key.
    pub fn value(&self) -> (r: u32)
        ensures
            r as int == gpio_value(*self),
            r < GPIO_VALUE_COUNT,
    {
        self.port.index() as u32 * 16 + self.pin.index() as u32
    }
}

/// Identity capability of a GPIO handle: every concrete pin type the adapter
/// layer wires up reports the `(port, pin)` identifier it stands for. The
/// registry never invents an identity; it only compares identities given to
/// it through this trait.
pub trait ToGpio {
    /// The identifier this handle reports; `to_gpio` returns it.
    spec fn gpio_spec(&self) -> Gpio;

    /// Report the identifier of this handle.
    fn to_gpio(&self) -> (gpio: Gpio)
        ensures
            gpio == self.gpio_spec(),
    ;
}

/// Capability of a digital input: its level can be read, fallibly.
pub trait InputPin: ToGpio {
    /// Whether the input reads a high level.
    fn is_high(&self) -> Result<bool, GpioInError>;

    /// Whether the input reads a low level.
    fn is_low(&self) -> Result<bool, GpioInError>;
}

/// Capability of a digital output: its level can be driven, fallibly.
pub trait OutputPin: ToGpio {
    /// Drive the output high.
    fn set_high(&mut self) -> Result<(), GpioOutError>;

    /// Drive the output low.
    fn set_low(&mut self) -> Result<(), GpioOutError>;
}

/// A registered digital input: the handle together with the identifier it
/// reported when it was added.
pub struct InputGpio<I> {
    pub gpio: Gpio,
    pub pin: I,
}

/// A registered digital output: the handle together with the identifier it
/// reported when it was added.
pub struct OutputGpio<O> {
    pub gpio: Gpio,
    pub pin: O,
}

impl<I> PartialEq for InputGpio<I> {
    /// Equality is defined purely by identity, not by handle state.
    fn eq(&self, other: &Self) -> (r: bool) {
        self.gpio == other.gpio
    }
}

impl<I> vstd::std_specs::cmp::PartialEqSpecImpl for InputGpio<I> {
    open spec fn obeys_eq_spec() -> bool {
        true
    }

    open spec fn eq_spec(&self, other: &Self) -> bool {
        self.gpio == other.gpio
    }
}

impl<O> PartialEq for OutputGpio<O> {
    /// Equality is defined purely by identity, not by handle state.
    fn eq(&self, other: &Self) -> (r: bool) {
        self.gpio == other.gpio
    }
}

impl<O> vstd::std_specs::cmp::PartialEqSpecImpl for OutputGpio<O> {
    open spec fn obeys_eq_spec() -> bool {
        true
    }

    open spec fn eq_spec(&self, other: &Self) -> bool {
        self.gpio == other.gpio
    }
}

} // verus!
