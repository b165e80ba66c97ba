//! Timer frequencies, the capability trait a hardware timer must support,
//! and the wrapper that pairs a timer handle with its registered identity.
use vstd::prelude::*;

use crate::device::TimerError;
use crate::device::TimerID;

verus! {

/// A frequency in hertz.
#[derive(PartialEq, Eq, Structural, Clone, Copy, Debug, Hash, PartialOrd, Ord)]
pub struct Hertz(pub u32);

/// Conversion from a frequency into an adapter-specific representation.
pub trait FromHertz: Sized {
    /// Build the adapter value that stands for `frequency`.
    fn from_hertz(frequency: Hertz) -> Self;
}

/// Identity capability of a timer handle: every concrete timer type the
/// adapter layer wires up reports the identifier it stands for.
pub trait ToTimerID {
    /// The identifier this handle reports; `to_timer_id` returns it.
    spec fn timer_id_spec(&self) -> TimerID;

    /// Report the identifier of this handle.
    fn to_timer_id(&self) -> (id: TimerID)
        ensures
            id == self.timer_id_spec(),
    ;
}

/// Capability of a hardware timer: it can be started at a frequency,
/// cancelled, and waited on. `wait` blocks the caller until the hardware
/// timer fires; it never yields to other logical work.
pub trait Timer: ToTimerID {
    /// Start the timer so that it fires at the given frequency.
    fn start(&mut self, interval: Hertz);

    /// Stop the timer.
    fn cancel(&mut self) -> Result<(), TimerError>;

    /// Block until the timer fires.
    fn wait(&mut self) -> Result<(), ()>;
}

/// A registered timer: the handle together with the identifier it reported
/// when it was added.
pub struct GeneralPurposeTimer<T> {
    pub id: TimerID,
    pub timer: T,
}

impl<T> PartialEq for GeneralPurposeTimer<T> {
    /// Equality is defined purely by identity, not by handle state.
    fn eq(&self, other: &Self) -> (r: bool) {
        self.id == other.id
    }
}

impl<T> vstd::std_specs::cmp::PartialEqSpecImpl for GeneralPurposeTimer<T> {
    open spec fn obeys_eq_spec() -> bool {
        true
    }

    open spec fn eq_spec(&self, other: &Self) -> bool {
        self.id == other.id
    }
}

impl Hertz {
    /// The frequency of `frequency` hertz.
    pub fn hz(frequency: u32) -> (r: Self)
        ensures
            r.0 == frequency,
    {
        Self(frequency)
    }

    /// The frequency of `frequency` kilohertz.
    pub fn khz(frequency: u32) -> (r: Self)
        requires
            1000 * frequency <= u32::MAX,
        ensures
            r.0 == 1000 * frequency,
    {
        Self::hz(1000 * frequency)
    }

    /// The frequency of `frequency` megahertz.
    pub fn mhz(frequency: u32) -> (r: Self)
        requires
            1000000 * frequency <= u32::MAX,
        ensures
            r.0 == 1000000 * frequency,
    {
        Self::khz(1000 * frequency)
    }

    /// The frequency of `frequency` gigahertz.
    pub fn ghz(frequency: u32) -> (r: Self)
        requires
            1000000000 * frequency <= u32::MAX,
        ensures
            r.0 == 1000000000 * frequency,
    {
        Self::mhz(1000 * frequency)
    }

    /// The period of this frequency in milliseconds, rounded toward zero.
    pub fn to_milliseconds(&self) -> (r: u32)
        requires
            self.0 > 0,
        ensures
            r == 1000u32 / self.0,
    {
        1000 / self.0
    }
}

} // verus!
