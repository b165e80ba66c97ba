//! A peripheral-resource registry for bare-metal firmware: a build-once,
//! then frozen arena of heterogeneous hardware handles (digital inputs,
//! digital outputs, timers) with binary-search lookup by logical identifier,
//! and a bounded FIFO queue that carries interrupt events to the main loop.
//!
//! Firmware registers every peripheral handle it owns into a
//! [`ComponentsBuilder`] at startup, then calls [`ComponentsBuilder::finalize`],
//! which sorts the arena and publishes it into a one-shot [`RegistryCell`].
//! From then on the frozen [`Components`] registry answers lookups by
//! identifier and kind, and the [`EventQueue`] carries interrupt occurrences
//! to the main loop. The platform pieces the registry deliberately leaves to
//! the embedding firmware are the interrupt mask around the event producer,
//! the process-wide storage of the published cell, and the adapter
//! implementations of the capability traits.
mod device;
mod events;
mod gpio;
mod timer;

use vstd::prelude::*;

pub use device::GpioInError;
pub use device::GpioOutError;
pub use device::Pin;
pub use device::Port;
pub use device::TimerError;
pub use device::TimerID;
pub use device::pin_value;
pub use device::port_value;
pub use device::timer_value;
pub use events::EVENT_QUEUE_SIZE;
pub use events::Event;
pub use events::EventQueue;
pub use events::dequeue_spec;
pub use events::enqueue_spec;
pub use events::lemma_event_fifo;
pub use gpio::GPIO_VALUE_COUNT;
pub use gpio::Gpio;
pub use gpio::GpioError;
pub use gpio::InputGpio;
pub use gpio::InputPin;
pub use gpio::OutputGpio;
pub use gpio::OutputPin;
pub use gpio::ToGpio;
pub use gpio::gpio_value;
pub use timer::FromHertz;
pub use timer::GeneralPurposeTimer;
pub use timer::Hertz;
pub use timer::Timer;
pub use timer::ToTimerID;

verus! {

/// A failure of the registry or of a component reached through it.
#[derive(PartialEq, Eq, Structural, Clone, Copy, Debug, Hash)]
#[non_exhaustive]
pub enum ComponentError {
    /// `finalize` was called before every slot of the arena was filled.
    LateInitAction,
    /// The registry was reached before a successful `finalize`.
    EarlyAccessAction,
    /// No component with the requested identifier and kind is registered.
    NotFound,
    /// The builder has no remaining capacity for a new component.
    OOM,
    /// The underlying hardware capability call failed.
    GpioError(GpioError),
    /// Storage for the arena could not be obtained.
    NotEnoughMemory,
    /// A component was asked for an identity kind it does not have.
    ConversionError,
    /// A second publication was attempted on a registry cell that already
    /// holds a registry.
    AlreadyInitialized,
}

impl From<GpioError> for ComponentError {
    /// Wrap a hardware GPIO failure.
    fn from(e: GpioError) -> (r: Self) {
        ComponentError::GpioError(e)
    }
}

impl vstd::std_specs::convert::FromSpecImpl<GpioError> for ComponentError {
    open spec fn obeys_from_spec() -> bool {
        true
    }

    open spec fn from_spec(e: GpioError) -> Self {
        ComponentError::GpioError(e)
    }
}

/// One registered peripheral: a tagged union over the three supported kinds,
/// holding the handle together with the identity it was registered under.
pub enum Component<I, O, T> {
    InputGpio(InputGpio<I>),
    OutputGpio(OutputGpio<O>),
    Timer(GeneralPurposeTimer<T>),
}

impl<I, O, T> PartialEq for Component<I, O, T> {
    /// Equality is defined purely by identity and kind, not by handle
    /// state.
    fn eq(&self, other: &Self) -> (r: bool) {
        match (self, other) {
            (Component::InputGpio(a), Component::InputGpio(b)) => a.gpio == b.gpio,
            (Component::OutputGpio(a), Component::OutputGpio(b)) => a.gpio == b.gpio,
            (Component::Timer(a), Component::Timer(b)) => a.id == b.id,
            _ => false,
        }
    }
}

impl<I, O, T> vstd::std_specs::cmp::PartialEqSpecImpl for Component<I, O, T> {
    open spec fn obeys_eq_spec() -> bool {
        true
    }

    open spec fn eq_spec(&self, other: &Self) -> bool {
        match (self, other) {
            (Component::InputGpio(a), Component::InputGpio(b)) => a.gpio == b.gpio,
            (Component::OutputGpio(a), Component::OutputGpio(b)) => a.gpio == b.gpio,
            (Component::Timer(a), Component::Timer(b)) => a.id == b.id,
            _ => false,
        }
    }
}

/// The position of a component in the registry's single total order: GPIO
/// components come first, ordered by their `(port, pin)` identifier and
/// regardless of input/output kind; every timer component comes after every
/// GPIO component, ordered by timer identifier.
pub open spec fn component_rank<I, O, T>(c: Component<I, O, T>) -> int {
    match c {
        Component::InputGpio(input) => gpio_value(input.gpio),
        Component::OutputGpio(output) => gpio_value(output.gpio),
        Component::Timer(t) => GPIO_VALUE_COUNT as int + timer_value(t.id),
    }
}

/// Whether `c` is a registered digital input with identifier `gpio`.
pub open spec fn is_input_with<I, O, T>(c: Component<I, O, T>, gpio: Gpio) -> bool {
    c matches Component::InputGpio(input) && input.gpio == gpio
}

/// Whether `c` is a registered digital output with identifier `gpio`.
pub open spec fn is_output_with<I, O, T>(c: Component<I, O, T>, gpio: Gpio) -> bool {
    c matches Component::OutputGpio(output) && output.gpio == gpio
}

/// Whether `c` is a registered timer with identifier `id`.
pub open spec fn is_timer_with<I, O, T>(c: Component<I, O, T>, id: TimerID) -> bool {
    c matches Component::Timer(t) && t.id == id
}

/// Whether the components of `s` are in registry order.
pub open spec fn sorted_by_rank<I, O, T>(s: Seq<Component<I, O, T>>) -> bool {
    forall|i: int, j: int|
        0 <= i <= j < s.len() ==> component_rank(s[i]) <= component_rank(s[j])
}

/// Whether no two components of `s` share a position in the total order,
/// that is, no identifier is registered twice — counting a `(port, pin)`
/// identifier registered once as an input and once as an output as shared.
pub open spec fn distinct_ids<I, O, T>(s: Seq<Component<I, O, T>>) -> bool {
    forall|i: int, j: int|
        0 <= i < j < s.len() ==> component_rank(s[i]) != component_rank(s[j])
}

impl<I, O, T> Component<I, O, T> {
    /// The position of this component in the registry's total order, as a
    /// machine integer usable as a binary-search key.
    pub fn rank(&self) -> (r: u32)
        ensures
            r as int == component_rank(*self),
    {
        match self {
            Component::InputGpio(input) => input.gpio.value(),
            Component::OutputGpio(output) => output.gpio.value(),
            Component::Timer(t) => GPIO_VALUE_COUNT + t.id.0 as u32,
        }
    }

    /// Compare two components in the registry's single total order: GPIOs
    /// ordered by identifier without respect to input/output kind, timers
    /// after all GPIOs, ordered by timer identifier.
    pub fn comparator(&self, other: &Self) -> (r: core::cmp::Ordering)
        ensures
            r == core::cmp::Ordering::Less <==> component_rank(*self) < component_rank(*other),
            r == core::cmp::Ordering::Equal <==> component_rank(*self) == component_rank(
                *other,
            ),
            r == core::cmp::Ordering::Greater <==> component_rank(*self) > component_rank(
                *other,
            ),
    {
        let a: u32 = self.rank();
        let b: u32 = other.rank();
        if a < b {
            core::cmp::Ordering::Less
        } else if a == b {
            core::cmp::Ordering::Equal
        } else {
            core::cmp::Ordering::Greater
        }
    }

    /// Compare this component against a GPIO identifier in the registry
    /// order: a GPIO component compares by its own identifier, and a timer
    /// component compares greater than every GPIO identifier.
    pub fn compare_with_gpio(&self, other: &Gpio) -> (r: core::cmp::Ordering)
        ensures
            r == core::cmp::Ordering::Less <==> component_rank(*self) < gpio_value(*other),
            r == core::cmp::Ordering::Equal <==> component_rank(*self) == gpio_value(*other),
            r == core::cmp::Ordering::Greater <==> component_rank(*self) > gpio_value(*other),
    {
        let a: u32 = self.rank();
        let b: u32 = other.value();
        if a < b {
            core::cmp::Ordering::Less
        } else if a == b {
            core::cmp::Ordering::Equal
        } else {
            core::cmp::Ordering::Greater
        }
    }

    /// The GPIO identifier of this component, or `ConversionError` for a
    /// component without one.
    pub fn to_gpio(&self) -> (r: Result<Gpio, ComponentError>)
        ensures
            match *self {
                Component::InputGpio(input) => r == Ok::<Gpio, ComponentError>(input.gpio),
                Component::OutputGpio(output) => r == Ok::<Gpio, ComponentError>(output.gpio),
                Component::Timer(_) => r == Err::<Gpio, ComponentError>(
                    ComponentError::ConversionError,
                ),
            },
    {
        match self {
            Component::InputGpio(input) => Ok(input.gpio),
            Component::OutputGpio(output) => Ok(output.gpio),
            Component::Timer(_) => Err(ComponentError::ConversionError),
        }
    }
}

/// What adding a component does to the builder's contents: the component is
/// appended, unless the arena of capacity `capacity` is already full, in
/// which case the contents are unchanged and the add fails with `OOM`.
pub open spec fn add_step<I, O, T>(
    s: Seq<Component<I, O, T>>,
    capacity: nat,
    c: Component<I, O, T>,
) -> (Seq<Component<I, O, T>>, Result<(), ComponentError>) {
    if s.len() < capacity {
        (s.push(c), Ok(()))
    } else {
        (s, Err(ComponentError::OOM))
    }
}

/// A fixed-capacity arena that accepts peripheral handles one at a time and,
/// once all `N` slots are filled, sorts them and publishes them as the
/// frozen registry. Its view is the sequence of components added so far.
pub struct ComponentsBuilder<const N: usize, I, O, T> {
    components: Vec<Component<I, O, T>>,
}

impl<const N: usize, I, O, T> View for ComponentsBuilder<N, I, O, T> {
    type V = Seq<Component<I, O, T>>;

    /// The components added so far, in order of addition.
    closed spec fn view(&self) -> Seq<Component<I, O, T>> {
        self.components@
    }
}

impl<const N: usize, I: InputPin, O: OutputPin, T: Timer> ComponentsBuilder<N, I, O, T> {
    /// Obtain empty storage for the arena.
    pub fn allocate_array() -> (array: Vec<Component<I, O, T>>)
        ensures
            array@ == Seq::<Component<I, O, T>>::empty(),
    {
        Vec::with_capacity(N)
    }

    /// A builder over the given storage, with all `N` slots free.
    pub fn new(array: Vec<Component<I, O, T>>) -> (builder: Self)
        requires
            array@.len() == 0,
        ensures
            builder@ == Seq::<Component<I, O, T>>::empty(),
    {
        proof {
            assert(array@ =~= Seq::<Component<I, O, T>>::empty());
        }
        ComponentsBuilder { components: array }
    }

    /// Store one component, consuming one unit of remaining capacity; on a
    /// full arena, fail with `OOM` and leave the builder unchanged.
    fn add_component(&mut self, component: Component<I, O, T>) -> (r: Result<
        (),
        ComponentError,
    >)
        ensures
            final(self)@ == add_step(old(self)@, N as nat, component).0,
            r == add_step(old(self)@, N as nat, component).1,
    {
        if self.components.len() < N {
            self.components.push(component);
            Ok(())
        } else {
            Err(ComponentError::OOM)
        }
    }

    /// Register a digital input handle under the identifier it reports.
    pub fn add_input_pin(&mut self, gpio: I) -> (r: Result<(), ComponentError>)
        ensures
            ({
                let c = Component::InputGpio(
                    InputGpio { gpio: gpio.gpio_spec(), pin: gpio },
                );
                &&& final(self)@ == add_step(old(self)@, N as nat, c).0
                &&& r == add_step(old(self)@, N as nat, c).1
            }),
    {
        let id = gpio.to_gpio();
        self.add_component(Component::InputGpio(InputGpio { gpio: id, pin: gpio }))
    }

    /// Register a digital output handle under the identifier it reports.
    pub fn add_output_pin(&mut self, gpio: O) -> (r: Result<(), ComponentError>)
        ensures
            ({
                let c = Component::OutputGpio(
                    OutputGpio { gpio: gpio.gpio_spec(), pin: gpio },
                );
                &&& final(self)@ == add_step(old(self)@, N as nat, c).0
                &&& r == add_step(old(self)@, N as nat, c).1
            }),
    {
        let id = gpio.to_gpio();
        self.add_component(Component::OutputGpio(OutputGpio { gpio: id, pin: gpio }))
    }

    /// Register a timer handle under the identifier it reports.
    pub fn add_timer(&mut self, timer: T) -> (r: Result<(), ComponentError>)
        ensures
            ({
                let c = Component::Timer(
                    GeneralPurposeTimer { id: timer.timer_id_spec(), timer },
                );
                &&& final(self)@ == add_step(old(self)@, N as nat, c).0
                &&& r == add_step(old(self)@, N as nat, c).1
            }),
    {
        let id = timer.to_timer_id();
        self.add_component(Component::Timer(GeneralPurposeTimer { id, timer }))
    }
}

/// Sort the arena into registry order by insertion sort, preserving its
/// contents as a multiset.
fn sort_components<I, O, T>(components: &mut Vec<Component<I, O, T>>)
    ensures
        final(components)@.len() == old(components)@.len(),
        sorted_by_rank(final(components)@),
        final(components)@.to_multiset() == old(components)@.to_multiset(),
{
    broadcast use vstd::seq_lib::group_to_multiset_ensures;
    broadcast use vstd::seq_lib::to_multiset_insert;
    broadcast use vstd::multiset::group_multiset_axioms;

    let n: usize = components.len();
    if n < 2 {
        return;
    }
    let mut i: usize = 1;
    while i < n
        invariant
            components@.len() == n,
            1 <= i <= n,
            forall|p: int, q: int|
                0 <= p <= q < i ==> component_rank(components@[p]) <= component_rank(
                    components@[q],
                ),
            components@.to_multiset() == old(components)@.to_multiset(),
        decreases n - i,
    {
        let ghost prev = components@;
        let c = components.remove(i);
        let ghost before = components@;
        let ck: u32 = c.rank();
        let mut j: usize = 0;
        while j < i && components[j].rank() <= ck
            invariant
                components@ == before,
                components@.len() == n - 1,
                i <= n - 1,
                0 <= j <= i,
                ck as int == component_rank(c),
                forall|p: int| 0 <= p < j ==> component_rank(components@[p]) <= ck as int,
            decreases i - j,
        {
            j += 1;
        }
        proof {
            assert(j == i || component_rank(components@[j as int]) > ck as int);
        }
        components.insert(j, c);
        proof {
            assert(prev.contains(c)) by {
                assert(prev[i as int] == c);
            }
            vstd::seq_lib::to_multiset_remove(prev, i as int);
            vstd::seq_lib::to_multiset_insert(before, j as int, c);
            assert(before.to_multiset() == prev.to_multiset().remove(c));
            assert(components@.to_multiset() == before.to_multiset().insert(c));
            assert forall|x: Component<I, O, T>|
                components@.to_multiset().count(x) == prev.to_multiset().count(
                    x,
                ) by {
                prev.to_multiset_ensures();
                assert(prev.to_multiset().count(c) > 0);
                assert(components@.to_multiset().count(x) == prev.to_multiset().remove(
                    c,
                ).insert(c).count(x));
            }
            assert(components@.to_multiset() =~= prev.to_multiset());
            assert forall|p: int, q: int| 0 <= p <= q < i + 1 implies component_rank(
                components@[p],
            ) <= component_rank(components@[q]) by {
                assert(forall|k: int|
                    0 <= k < j ==> components@[k] == before[k]);
                assert(components@[j as int] == c);
                assert(forall|k: int|
                    j < k <= i ==> components@[k] == before[k - 1]);
            }
        }
        i += 1;
    }
}

/// The frozen registry: a sorted arena whose slot structure never changes
/// after publication. Its view is the sorted sequence of registered
/// components; only the state reachable through a handle remains mutable.
pub struct Components<I, O, T> {
    array: Vec<Component<I, O, T>>,
}

impl<I, O, T> View for Components<I, O, T> {
    type V = Seq<Component<I, O, T>>;

    /// The registered components, in registry order.
    closed spec fn view(&self) -> Seq<Component<I, O, T>> {
        self.array@
    }
}

impl<I, O, T> Components<I, O, T> {
    /// The frozen array is in registry order: this is the invariant every
    /// published registry satisfies and every binary search relies on.
    pub open spec fn wf(self) -> bool {
        sorted_by_rank(self@)
    }
}

/// A kind-tagged handle to the position of a registered digital input
/// within the frozen array; it can only be redeemed through the input
/// accessor, so a caller cannot index into the wrong kind.
#[derive(PartialEq, Eq, Structural, Clone, Copy, Debug, Hash)]
pub struct InputGpioIndex(usize);

impl View for InputGpioIndex {
    type V = int;

    closed spec fn view(&self) -> int {
        self.0 as int
    }
}

impl InputGpioIndex {
    /// The position within the frozen array that this handle stands for.
    pub fn position(&self) -> (r: usize)
        ensures
            r as int == self@,
    {
        self.0
    }
}

/// A kind-tagged handle to the position of a registered digital output
/// within the frozen array.
#[derive(PartialEq, Eq, Structural, Clone, Copy, Debug, Hash)]
pub struct OutputGpioIndex(usize);

impl View for OutputGpioIndex {
    type V = int;

    closed spec fn view(&self) -> int {
        self.0 as int
    }
}

impl OutputGpioIndex {
    /// The position within the frozen array that this handle stands for.
    pub fn position(&self) -> (r: usize)
        ensures
            r as int == self@,
    {
        self.0
    }
}

/// A kind-tagged handle to the position of a registered timer within the
/// frozen array.
#[derive(PartialEq, Eq, Structural, Clone, Copy, Debug, Hash)]
pub struct TimerIndex(usize);

impl View for TimerIndex {
    type V = int;

    closed spec fn view(&self) -> int {
        self.0 as int
    }
}

impl TimerIndex {
    /// The position within the frozen array that this handle stands for.
    pub fn position(&self) -> (r: usize)
        ensures
            r as int == self@,
    {
        self.0
    }
}

/// The one-shot cell a registry is published into: it can be filled at most
/// once, and hands out the published registry thereafter. The embedding
/// firmware keeps the cell in its process-wide storage.
pub struct RegistryCell<I, O, T> {
    slot: Option<Components<I, O, T>>,
}

impl<I, O, T> RegistryCell<I, O, T> {
    /// Whether a registry has been published into this cell.
    pub closed spec fn is_initialized(self) -> bool {
        self.slot is Some
    }

    /// The published registry, meaningful once `is_initialized` holds.
    pub closed spec fn registry(self) -> Components<I, O, T> {
        match self.slot {
            Some(c) => c,
            None => vstd::pervasive::arbitrary(),
        }
    }

    /// Whatever this cell holds is a well-formed registry.
    pub open spec fn wf(self) -> bool {
        self.is_initialized() ==> self.registry().wf()
    }

    /// An empty cell, holding no registry yet.
    pub fn new() -> (cell: Self)
        ensures
            !cell.is_initialized(),
            cell.wf(),
    {
        RegistryCell { slot: None }
    }

    /// The published registry, or nothing before the first successful
    /// publication.
    pub fn get(&self) -> (r: Option<&Components<I, O, T>>)
        ensures
            match r {
                Some(c) => self.is_initialized() && *c == self.registry(),
                None => !self.is_initialized(),
            },
    {
        match &self.slot {
            Some(c) => Some(c),
            None => None,
        }
    }

    /// The published registry, mutably, so that registered handles can be
    /// driven through it. Reaching for the registry before the first
    /// successful publication is an initialization-order programmer error,
    /// excluded by contract rather than reported as a runtime condition.
    pub fn get_mut(&mut self) -> (r: &mut Components<I, O, T>)
        requires
            old(self).is_initialized(),
        ensures
            *r == old(self).registry(),
            final(self).is_initialized(),
            final(self).registry() == *final(r),
    {
        match &mut self.slot {
            Some(c) => c,
            None => vstd::pervasive::unreached(),
        }
    }
}

impl<const N: usize, I: InputPin, O: OutputPin, T: Timer> ComponentsBuilder<N, I, O, T> {
    /// Freeze the arena: require every slot filled, sort into registry
    /// order, and publish into the one-shot cell. The builder is consumed,
    /// so a builder can never be finalized twice; a second publication
    /// attempt from another builder fails and leaves the cell unchanged.
    pub fn finalize(self, cell: &mut RegistryCell<I, O, T>) -> (r: Result<(), ComponentError>)
        requires
            old(cell).wf(),
        ensures
            final(cell).wf(),
            self@.len() != N ==> r == Err::<(), ComponentError>(ComponentError::LateInitAction)
                && *final(cell) == *old(cell),
            self@.len() == N && old(cell).is_initialized() ==> r == Err::<(), ComponentError>(
                ComponentError::AlreadyInitialized,
            ) && *final(cell) == *old(cell),
            self@.len() == N && !old(cell).is_initialized() ==> {
                &&& r == Ok::<(), ComponentError>(())
                &&& final(cell).is_initialized()
                &&& final(cell).registry()@.len() == N
                &&& sorted_by_rank(final(cell).registry()@)
                &&& final(cell).registry()@.to_multiset() == self@.to_multiset()
            },
    {
        if self.components.len() != N {
            return Err(ComponentError::LateInitAction);
        }
        if cell.slot.is_some() {
            return Err(ComponentError::AlreadyInitialized);
        }
        let mut array = self.components;
        sort_components(&mut array);
        cell.slot = Some(Components { array });
        Ok(())
    }
}

impl<I, O, T> Components<I, O, T> {
    /// How many components are registered.
    pub fn len(&self) -> (r: usize)
        ensures
            r == self@.len(),
    {
        self.array.len()
    }

    /// Binary-search the frozen array for the component at position `key`
    /// of the registry's total order.
    fn search_array(&self, key: u32) -> (r: Result<usize, ComponentError>)
        requires
            self.wf(),
        ensures
            match r {
                Ok(i) => i < self@.len() && component_rank(self@[i as int]) == key as int,
                Err(e) => {
                    &&& e == ComponentError::NotFound
                    &&& forall|i: int|
                        0 <= i < self@.len() ==> component_rank(self@[i]) != key as int
                },
            },
    {
        let mut lo: usize = 0;
        let mut hi: usize = self.array.len();
        while lo < hi
            invariant
                self.wf(),
                lo <= hi <= self@.len(),
                forall|i: int|
                    0 <= i < self@.len() && component_rank(self@[i]) == key as int ==> lo <= i
                        < hi,
            decreases hi - lo,
        {
            let mid: usize = lo + (hi - lo) / 2;
            let rank: u32 = self.array[mid].rank();
            if rank < key {
                lo = mid + 1;
            } else if rank > key {
                hi = mid;
            } else {
                return Ok(mid);
            }
        }
        Err(ComponentError::NotFound)
    }

    /// Locate the digital input registered under `Gpio { port, pin }`. The
    /// lookup first finds the position of the identifier, then checks that
    /// the component at that position really is an input: an identifier
    /// registered as an output only is reported as `NotFound`, never handed
    /// out as an input.
    pub fn get_input_pin(&self, pin: Pin, port: Port) -> (r: Result<
        InputGpioIndex,
        ComponentError,
    >)
        requires
            self.wf(),
        ensures
            ({
                let gpio = Gpio { port, pin };
                &&& match r {
                    Ok(index) => 0 <= index@ < self@.len() && is_input_with(
                        self@[index@],
                        gpio,
                    ),
                    Err(e) => e == ComponentError::NotFound,
                }
                &&& (forall|i: int|
                    0 <= i < self@.len() ==> component_rank(self@[i]) != gpio_value(gpio))
                    ==> r is Err
                &&& distinct_ids(self@) ==> ((exists|i: int|
                    0 <= i < self@.len() && is_input_with(self@[i], gpio)) <==> r is Ok)
            }),
    {
        let gpio = Gpio { port, pin };
        let ghost g = gpio;
        match self.search_array(gpio.value()) {
            Ok(found) => match &self.array[found] {
                Component::InputGpio(_) => Ok(InputGpioIndex(found)),
                _ => {
                    proof {
                        if distinct_ids(self@) {
                            assert forall|i: int|
                                0 <= i < self@.len() implies !is_input_with(self@[i], g) by {
                                if is_input_with(self@[i], g) && i != found {
                                    assert(component_rank(self@[i]) == gpio_value(g));
                                }
                            }
                        }
                    }
                    Err(ComponentError::NotFound)
                },
            },
            Err(e) => Err(e),
        }
    }

    /// Locate the digital output registered under `Gpio { port, pin }`,
    /// with the same locate-then-check-kind protocol as the input lookup.
    pub fn get_output_pin(&self, pin: Pin, port: Port) -> (r: Result<
        OutputGpioIndex,
        ComponentError,
    >)
        requires
            self.wf(),
        ensures
            ({
                let gpio = Gpio { port, pin };
                &&& match r {
                    Ok(index) => 0 <= index@ < self@.len() && is_output_with(
                        self@[index@],
                        gpio,
                    ),
                    Err(e) => e == ComponentError::NotFound,
                }
                &&& (forall|i: int|
                    0 <= i < self@.len() ==> component_rank(self@[i]) != gpio_value(gpio))
                    ==> r is Err
                &&& distinct_ids(self@) ==> ((exists|i: int|
                    0 <= i < self@.len() && is_output_with(self@[i], gpio)) <==> r is Ok)
            }),
    {
        let gpio = Gpio { port, pin };
        let ghost g = gpio;
        match self.search_array(gpio.value()) {
            Ok(found) => match &self.array[found] {
                Component::OutputGpio(_) => Ok(OutputGpioIndex(found)),
                _ => {
                    proof {
                        if distinct_ids(self@) {
                            assert forall|i: int|
                                0 <= i < self@.len() implies !is_output_with(self@[i], g) by {
                                if is_output_with(self@[i], g) && i != found {
                                    assert(component_rank(self@[i]) == gpio_value(g));
                                }
                            }
                        }
                    }
                    Err(ComponentError::NotFound)
                },
            },
            Err(e) => Err(e),
        }
    }

    /// Locate the timer registered under `id`. Timer positions are disjoint
    /// from GPIO positions in the registry order, so a position match is
    /// always a timer; the kind is still checked, mirroring the GPIO
    /// lookups.
    pub fn get_timer(&self, id: TimerID) -> (r: Result<TimerIndex, ComponentError>)
        requires
            self.wf(),
        ensures
            match r {
                Ok(index) => 0 <= index@ < self@.len() && is_timer_with(self@[index@], id),
                Err(e) => e == ComponentError::NotFound,
            },
            (exists|i: int| 0 <= i < self@.len() && is_timer_with(self@[i], id)) <==> r is Ok,
    {
        let key: u32 = GPIO_VALUE_COUNT + id.0 as u32;
        match self.search_array(key) {
            Ok(found) => match &self.array[found] {
                Component::Timer(_) => Ok(TimerIndex(found)),
                _ => {
                    proof {
                        assert(false);
                    }
                    Err(ComponentError::NotFound)
                },
            },
            Err(e) => Err(e),
        }
    }

    /// The registered input handle that `index` stands for.
    pub fn input_pin(&self, index: &InputGpioIndex) -> (pin: &I)
        requires
            0 <= index@ < self@.len(),
            self@[index@] is InputGpio,
        ensures
            *pin == self@[index@]->InputGpio_0.pin,
    {
        match &self.array[index.0] {
            Component::InputGpio(input) => &input.pin,
            _ => vstd::pervasive::unreached(),
        }
    }

    /// The registered output handle that `index` stands for, mutably: the
    /// handle's own state may change through it, while the identity at that
    /// slot and the shape of the frozen array stay as they are.
    pub fn output_pin(&mut self, index: &OutputGpioIndex) -> (pin: &mut O)
        requires
            0 <= index@ < old(self)@.len(),
            old(self)@[index@] is OutputGpio,
        ensures
            *pin == old(self)@[index@]->OutputGpio_0.pin,
            final(self)@ == old(self)@.update(
                index@,
                Component::OutputGpio(
                    OutputGpio {
                        gpio: old(self)@[index@]->OutputGpio_0.gpio,
                        pin: *final(pin),
                    },
                ),
            ),
            old(self).wf() ==> final(self).wf(),
    {
        match &mut self.array[index.0] {
            Component::OutputGpio(output) => &mut output.pin,
            _ => vstd::pervasive::unreached(),
        }
    }

    /// The registered timer handle that `index` stands for, mutably: the
    /// handle's own state may change through it, while the identity at that
    /// slot and the shape of the frozen array stay as they are.
    pub fn timer(&mut self, index: &TimerIndex) -> (timer: &mut T)
        requires
            0 <= index@ < old(self)@.len(),
            old(self)@[index@] is Timer,
        ensures
            *timer == old(self)@[index@]->Timer_0.timer,
            final(self)@ == old(self)@.update(
                index@,
                Component::Timer(
                    GeneralPurposeTimer {
                        id: old(self)@[index@]->Timer_0.id,
                        timer: *final(timer),
                    },
                ),
            ),
            old(self).wf() ==> final(self).wf(),
    {
        match &mut self.array[index.0] {
            Component::Timer(t) => &mut t.timer,
            _ => vstd::pervasive::unreached(),
        }
    }
}

/// The builder contents after the first `k` of the candidate components
/// `cs` have been offered, one `add` at a time, to a builder of capacity
/// `capacity` that started out empty.
pub open spec fn run_adds<I, O, T>(
    capacity: nat,
    cs: Seq<Component<I, O, T>>,
    k: nat,
) -> Seq<Component<I, O, T>>
    decreases k,
{
    if k == 0 {
        Seq::empty()
    } else {
        add_step(run_adds(capacity, cs, (k - 1) as nat), capacity, cs[k - 1]).0
    }
}

proof fn lemma_run_adds_is_prefix<I, O, T>(capacity: nat, cs: Seq<Component<I, O, T>>, k: nat)
    requires
        k <= capacity,
        k <= cs.len(),
    ensures
        run_adds(capacity, cs, k) == cs.take(k as int),
    decreases k,
{
    if k == 0 {
        assert(run_adds(capacity, cs, 0) =~= cs.take(0));
    } else {
        lemma_run_adds_is_prefix(capacity, cs, (k - 1) as nat);
        assert(cs.take(k as int) =~= cs.take(k - 1).push(cs[k - 1]));
    }
}

/// Capacity bound: offered `capacity + 1` components one at a time, a
/// builder of capacity `capacity` accepts exactly the first `capacity` of
/// them — after `k` accepted adds the arena holds exactly the first `k`
/// candidates — and the final add fails with `OOM`, leaving the stored
/// components unaffected.
pub proof fn lemma_capacity_bound<I, O, T>(capacity: nat, cs: Seq<Component<I, O, T>>)
    requires
        cs.len() == capacity + 1,
    ensures
        forall|k: nat|
            k <= capacity ==> #[trigger] run_adds(capacity, cs, k) == cs.take(k as int),
        forall|k: nat|
            k < capacity ==> #[trigger] add_step(run_adds(capacity, cs, k), capacity, cs[k as int]).1
                == Ok::<(), ComponentError>(()),
        add_step(run_adds(capacity, cs, capacity), capacity, cs[capacity as int]).1 == Err::<
            (),
            ComponentError,
        >(ComponentError::OOM),
        add_step(run_adds(capacity, cs, capacity), capacity, cs[capacity as int]).0 == run_adds(
            capacity,
            cs,
            capacity,
        ),
{
    assert forall|k: nat| k <= capacity implies #[trigger] run_adds(capacity, cs, k) == cs.take(
        k as int,
    ) by {
        lemma_run_adds_is_prefix(capacity, cs, k);
    }
}

/// What publishing a value into a one-shot slot does: the publication
/// succeeds exactly when the slot is still empty; a publication into an
/// occupied slot fails and leaves the slot unchanged.
pub open spec fn publish_step<X>(slot: Option<X>, value: X) -> (Option<X>, bool) {
    match slot {
        None => (Some(value), true),
        Some(_) => (slot, false),
    }
}

/// At-most-once initialization: once one publication into a one-shot slot
/// has succeeded, every later publication fails and leaves the slot as the
/// first publication left it. `finalize` performs this step on the registry
/// cell — its contract succeeds only on a cell that is not yet initialized,
/// reports `AlreadyInitialized` otherwise, and leaves the cell unchanged on
/// every failure.
pub proof fn lemma_at_most_once<X>(slot: Option<X>, first: X, second: X)
    ensures
        ({
            let (occupied, ok1) = publish_step(slot, first);
            let (after, ok2) = publish_step(occupied, second);
            ok1 ==> (!ok2 && after == occupied)
        }),
{
}

proof fn lemma_contains_transfer<A>(s: Seq<A>, t: Seq<A>, p: spec_fn(A) -> bool)
    requires
        t.to_multiset() == s.to_multiset(),
    ensures
        (exists|i: int| 0 <= i < s.len() && p(s[i])) ==> (exists|j: int|
            0 <= j < t.len() && p(t[j])),
{
    if exists|i: int| 0 <= i < s.len() && p(s[i]) {
        let i = choose|i: int| 0 <= i < s.len() && p(s[i]);
        let c = s[i];
        s.to_multiset_ensures();
        t.to_multiset_ensures();
        assert(s.contains(c));
        assert(t.to_multiset().count(c) > 0);
        assert(t.contains(c));
        let j = choose|j: int| 0 <= j < t.len() && t[j] == c;
        assert(p(t[j]));
    }
}

/// Round-trip lookup, arena side: freezing only permutes the registered
/// components, so an identifier registered during the build — as an input,
/// an output, or a timer — is present in the frozen array under the same
/// kind, and an identifier never registered (no component occupies its
/// position in the registry order) is absent from the frozen array as well.
/// Together with the lookup contracts: every registered identifier is found
/// under its own kind, and a never-registered identifier yields `NotFound`.
pub proof fn lemma_round_trip<I, O, T>(
    registered: Seq<Component<I, O, T>>,
    frozen: Seq<Component<I, O, T>>,
    gpio: Gpio,
    id: TimerID,
)
    requires
        frozen.to_multiset() == registered.to_multiset(),
    ensures
        (exists|i: int| 0 <= i < registered.len() && is_input_with(registered[i], gpio)) <==> (
        exists|i: int| 0 <= i < frozen.len() && is_input_with(frozen[i], gpio)),
        (exists|i: int| 0 <= i < registered.len() && is_output_with(registered[i], gpio)) <==> (
        exists|i: int| 0 <= i < frozen.len() && is_output_with(frozen[i], gpio)),
        (exists|i: int| 0 <= i < registered.len() && is_timer_with(registered[i], id)) <==> (
        exists|i: int| 0 <= i < frozen.len() && is_timer_with(frozen[i], id)),
        (exists|i: int|
            0 <= i < registered.len() && component_rank(registered[i]) == gpio_value(gpio))
            <==> (exists|i: int|
            0 <= i < frozen.len() && component_rank(frozen[i]) == gpio_value(gpio)),
{
    lemma_contains_transfer(registered, frozen, |c| is_input_with(c, gpio));
    lemma_contains_transfer(frozen, registered, |c| is_input_with(c, gpio));
    lemma_contains_transfer(registered, frozen, |c| is_output_with(c, gpio));
    lemma_contains_transfer(frozen, registered, |c| is_output_with(c, gpio));
    lemma_contains_transfer(registered, frozen, |c| is_timer_with(c, id));
    lemma_contains_transfer(frozen, registered, |c| is_timer_with(c, id));
    lemma_contains_transfer(
        registered,
        frozen,
        |c| component_rank(c) == gpio_value(gpio),
    );
    lemma_contains_transfer(
        frozen,
        registered,
        |c| component_rank(c) == gpio_value(gpio),
    );
}

proof fn lemma_count_at_least_two<A>(t: Seq<A>, i: int, j: int)
    requires
        0 <= i < j < t.len(),
        t[i] == t[j],
    ensures
        t.to_multiset().count(t[i]) >= 2,
{
    broadcast use vstd::multiset::group_multiset_axioms;

    let c = t[i];
    t.to_multiset_ensures();
    vstd::seq_lib::to_multiset_remove(t, i);
    let t2 = t.remove(i);
    assert(t2[j - 1] == c);
    t2.to_multiset_ensures();
    assert(t2.contains(c));
    assert(t2.to_multiset().count(c) > 0);
    assert(t.contains(c));
    assert(t2.to_multiset() == t.to_multiset().remove(c));
}

proof fn lemma_two_indices_from_count<A>(s: Seq<A>, c: A)
    requires
        s.to_multiset().count(c) >= 2,
    ensures
        exists|p: int, q: int| 0 <= p < q < s.len() && s[p] == c && s[q] == c,
{
    broadcast use vstd::multiset::group_multiset_axioms;

    s.to_multiset_ensures();
    assert(s.contains(c));
    let p = choose|p: int| 0 <= p < s.len() && s[p] == c;
    vstd::seq_lib::to_multiset_remove(s, p);
    let s2 = s.remove(p);
    s2.to_multiset_ensures();
    assert(s2.to_multiset().count(c) > 0);
    assert(s2.contains(c));
    let q2 = choose|q: int| 0 <= q < s2.len() && s2[q] == c;
    if q2 < p {
        assert(s[q2] == c);
        assert(0 <= q2 < p < s.len() && s[q2] == c && s[p] == c);
    } else {
        assert(s[q2 + 1] == c);
        assert(0 <= p < q2 + 1 < s.len() && s[p] == c && s[q2 + 1] == c);
    }
}

/// Freezing only permutes the registered components, so distinctness of
/// identifiers carries over from the order of registration to the frozen
/// array — which is what entitles a caller to the exact
/// found-if-and-only-if-registered clauses of the lookup contracts.
pub proof fn lemma_distinct_ids_preserved<I, O, T>(
    s: Seq<Component<I, O, T>>,
    t: Seq<Component<I, O, T>>,
)
    requires
        t.to_multiset() == s.to_multiset(),
        distinct_ids(s),
    ensures
        distinct_ids(t),
{
    assert forall|i: int, j: int|
        0 <= i < j < t.len() implies component_rank(t[i]) != component_rank(t[j]) by {
        if component_rank(t[i]) == component_rank(t[j]) {
            t.to_multiset_ensures();
            s.to_multiset_ensures();
            if t[i] == t[j] {
                lemma_count_at_least_two(t, i, j);
                lemma_two_indices_from_count(s, t[i]);
                let (p, q) = choose|p: int, q: int|
                    0 <= p < q < s.len() && s[p] == t[i] && s[q] == t[i];
                assert(component_rank(s[p]) == component_rank(s[q]));
                assert(false);
            } else {
                assert(t.contains(t[i]));
                assert(t.contains(t[j]));
                assert(s.to_multiset().count(t[i]) > 0);
                assert(s.to_multiset().count(t[j]) > 0);
                assert(s.contains(t[i]));
                assert(s.contains(t[j]));
                let p = choose|p: int| 0 <= p < s.len() && s[p] == t[i];
                let q = choose|q: int| 0 <= q < s.len() && s[q] == t[j];
                assert(p != q);
                if p < q {
                    assert(component_rank(s[p]) != component_rank(s[q]));
                } else {
                    assert(component_rank(s[q]) != component_rank(s[p]));
                }
                assert(false);
            }
        }
    }
}

/// Kind safety: with distinct identifiers, a `(port, pin)` identifier
/// registered as an output is nowhere present as an input, so by the input
/// lookup's contract the input accessor reports `NotFound` for it instead
/// of handing out an output pretending to be an input.
pub proof fn lemma_kind_safety<I, O, T>(s: Seq<Component<I, O, T>>, gpio: Gpio)
    requires
        distinct_ids(s),
        exists|i: int| 0 <= i < s.len() && is_output_with(s[i], gpio),
    ensures
        forall|i: int| 0 <= i < s.len() ==> !is_input_with(s[i], gpio),
{
    let j = choose|j: int| 0 <= j < s.len() && is_output_with(s[j], gpio);
    assert forall|i: int| 0 <= i < s.len() implies !is_input_with(s[i], gpio) by {
        if is_input_with(s[i], gpio) {
            assert(component_rank(s[i]) == gpio_value(gpio));
            assert(component_rank(s[j]) == gpio_value(gpio));
            assert(i != j);
        }
    }
}

/// Ordering consistency, partition half: in an arena in registry order the
/// components are partitioned — once a timer occurs, everything after it is
/// a timer, and every GPIO component (input or output) stands before every
/// timer.
pub proof fn lemma_sorted_partition<I, O, T>(s: Seq<Component<I, O, T>>)
    requires
        sorted_by_rank(s),
    ensures
        forall|i: int, j: int| 0 <= i <= j < s.len() && s[i] is Timer ==> s[j] is Timer,
        forall|i: int, j: int|
            0 <= i <= j < s.len() && (s[j] is InputGpio || s[j] is OutputGpio)
                ==> !(s[i] is Timer),
{
    assert forall|i: int, j: int|
        0 <= i <= j < s.len() && s[i] is Timer implies s[j] is Timer by {
        assert(component_rank(s[i]) <= component_rank(s[j]));
        assert(component_rank(s[i]) >= GPIO_VALUE_COUNT as int);
    }
}

/// Ordering consistency, GPIO half: the registry's binary-search key agrees
/// with plain lexicographic `(port, pin)` comparison, and is distinct for
/// distinct identifiers — so an independent binary search by `(port, pin)`
/// over the GPIO block agrees with the library's own search.
pub proof fn lemma_gpio_order(a: Gpio, b: Gpio)
    ensures
        gpio_value(a) < gpio_value(b) <==> (port_value(a.port) < port_value(b.port) || (
        port_value(a.port) == port_value(b.port) && pin_value(a.pin) < pin_value(b.pin))),
        gpio_value(a) == gpio_value(b) <==> a == b,
{
}

} // verus!
