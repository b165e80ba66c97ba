use peripheral_registry::Component;
use peripheral_registry::ComponentError;
use peripheral_registry::ComponentsBuilder;
use peripheral_registry::GeneralPurposeTimer;
use peripheral_registry::Gpio;
use peripheral_registry::GpioError;
use peripheral_registry::GpioInError;
use peripheral_registry::GpioOutError;
use peripheral_registry::Hertz;
use peripheral_registry::InputGpio;
use peripheral_registry::InputPin;
use peripheral_registry::OutputPin;
use peripheral_registry::Pin;
use peripheral_registry::Port;
use peripheral_registry::RegistryCell;
use peripheral_registry::Timer;
use peripheral_registry::TimerError;
use peripheral_registry::TimerID;
use peripheral_registry::ToGpio;
use peripheral_registry::ToTimerID;

struct FakeInput {
    id: Gpio,
    high: bool,
}

impl ToGpio for FakeInput {
    fn gpio_spec(&self) -> Gpio {
        self.id
    }

    fn to_gpio(&self) -> Gpio {
        self.id
    }
}

impl InputPin for FakeInput {
    fn is_high(&self) -> Result<bool, GpioInError> {
        Ok(self.high)
    }

    fn is_low(&self) -> Result<bool, GpioInError> {
        Ok(!self.high)
    }
}

struct FakeOutput {
    id: Gpio,
    level: bool,
}

impl ToGpio for FakeOutput {
    fn gpio_spec(&self) -> Gpio {
        self.id
    }

    fn to_gpio(&self) -> Gpio {
        self.id
    }
}

impl OutputPin for FakeOutput {
    fn set_high(&mut self) -> Result<(), GpioOutError> {
        self.level = true;
        Ok(())
    }

    fn set_low(&mut self) -> Result<(), GpioOutError> {
        self.level = false;
        Ok(())
    }
}

struct FakeTimer {
    id: TimerID,
    running: bool,
}

impl ToTimerID for FakeTimer {
    fn timer_id_spec(&self) -> TimerID {
        self.id
    }

    fn to_timer_id(&self) -> TimerID {
        self.id
    }
}

impl Timer for FakeTimer {
    fn start(&mut self, _interval: Hertz) {
        self.running = true;
    }

    fn cancel(&mut self) -> Result<(), TimerError> {
        self.running = false;
        Ok(())
    }

    fn wait(&mut self) -> Result<(), ()> {
        Ok(())
    }
}

type Builder<const N: usize> = ComponentsBuilder<N, FakeInput, FakeOutput, FakeTimer>;
type Cell = RegistryCell<FakeInput, FakeOutput, FakeTimer>;

fn gpio(port: Port, pin: Pin) -> Gpio {
    Gpio { port, pin }
}

fn input(port: Port, pin: Pin) -> FakeInput {
    FakeInput { id: gpio(port, pin), high: false }
}

fn output(port: Port, pin: Pin) -> FakeOutput {
    FakeOutput { id: gpio(port, pin), level: false }
}

fn timer(id: u16) -> FakeTimer {
    FakeTimer { id: TimerID(id), running: false }
}

#[test]
fn capacity_bound() {
    let mut builder = Builder::<3>::new(Builder::<3>::allocate_array());
    assert_eq!(builder.add_input_pin(input(Port::A, Pin::P00)), Ok(()));
    assert_eq!(builder.add_output_pin(output(Port::B, Pin::P01)), Ok(()));
    assert_eq!(builder.add_timer(timer(7)), Ok(()));
    assert_eq!(
        builder.add_input_pin(input(Port::C, Pin::P02)),
        Err(ComponentError::OOM)
    );
    assert_eq!(
        builder.add_timer(timer(9)),
        Err(ComponentError::OOM)
    );
    // The failed adds left the first three entries unaffected: the build
    // still freezes, and exactly the three registered identifiers are found.
    let mut cell = Cell::new();
    assert_eq!(builder.finalize(&mut cell), Ok(()));
    let components = cell.get().expect("registry was published");
    assert!(components.get_input_pin(Pin::P00, Port::A).is_ok());
    assert!(components.get_output_pin(Pin::P01, Port::B).is_ok());
    assert!(components.get_timer(TimerID(7)).is_ok());
    assert_eq!(
        components.get_input_pin(Pin::P02, Port::C),
        Err(ComponentError::NotFound)
    );
    assert_eq!(components.get_timer(TimerID(9)), Err(ComponentError::NotFound));
    assert_eq!(components.len(), 3);
}

#[test]
fn incomplete_finalize_publishes_nothing() {
    let mut builder = Builder::<2>::new(Builder::<2>::allocate_array());
    assert_eq!(builder.add_input_pin(input(Port::A, Pin::P03)), Ok(()));
    let mut cell = Cell::new();
    assert_eq!(
        builder.finalize(&mut cell),
        Err(ComponentError::LateInitAction)
    );
    assert!(cell.get().is_none());

    // No partial state leaked: a correctly filled builder still succeeds on
    // the same cell.
    let mut full = Builder::<2>::new(Builder::<2>::allocate_array());
    assert_eq!(full.add_input_pin(input(Port::A, Pin::P04)), Ok(()));
    assert_eq!(full.add_output_pin(output(Port::B, Pin::P05)), Ok(()));
    assert_eq!(full.finalize(&mut cell), Ok(()));
    assert!(cell.get().is_some());
}

#[test]
fn at_most_once_initialization() {
    let mut first = Builder::<1>::new(Builder::<1>::allocate_array());
    assert_eq!(first.add_input_pin(input(Port::A, Pin::P01)), Ok(()));
    let mut cell = Cell::new();
    assert_eq!(first.finalize(&mut cell), Ok(()));

    let mut second = Builder::<1>::new(Builder::<1>::allocate_array());
    assert_eq!(second.add_input_pin(input(Port::E, Pin::P09)), Ok(()));
    assert_eq!(
        second.finalize(&mut cell),
        Err(ComponentError::AlreadyInitialized)
    );

    // The cell still holds the first registry, untouched by the refused
    // second publication.
    let components = cell.get().expect("first registry stays published");
    assert!(components.get_input_pin(Pin::P01, Port::A).is_ok());
    assert_eq!(
        components.get_input_pin(Pin::P09, Port::E),
        Err(ComponentError::NotFound)
    );
}

#[test]
fn round_trip_lookup() {
    let mut builder = Builder::<5>::new(Builder::<5>::allocate_array());
    assert_eq!(builder.add_input_pin(input(Port::A, Pin::P05)), Ok(()));
    assert_eq!(builder.add_input_pin(input(Port::C, Pin::P03)), Ok(()));
    assert_eq!(builder.add_output_pin(output(Port::D, Pin::P07)), Ok(()));
    assert_eq!(builder.add_timer(timer(1)), Ok(()));
    assert_eq!(builder.add_timer(timer(5)), Ok(()));
    let mut cell = Cell::new();
    assert_eq!(builder.finalize(&mut cell), Ok(()));
    let components = cell.get().expect("registry was published");

    // Every registered identifier comes back under its own kind, and the
    // handle the index redeems to reports the registered identity.
    let a5 = components
        .get_input_pin(Pin::P05, Port::A)
        .expect("registered input is found");
    assert_eq!(components.input_pin(&a5).to_gpio(), gpio(Port::A, Pin::P05));
    let c3 = components
        .get_input_pin(Pin::P03, Port::C)
        .expect("registered input is found");
    assert_eq!(components.input_pin(&c3).to_gpio(), gpio(Port::C, Pin::P03));
    assert!(components.get_output_pin(Pin::P07, Port::D).is_ok());
    assert!(components.get_timer(TimerID(1)).is_ok());
    assert!(components.get_timer(TimerID(5)).is_ok());

    // Identifiers never registered are not found, under any kind.
    assert_eq!(
        components.get_input_pin(Pin::P15, Port::E),
        Err(ComponentError::NotFound)
    );
    assert_eq!(
        components.get_output_pin(Pin::P05, Port::E),
        Err(ComponentError::NotFound)
    );
    assert_eq!(components.get_timer(TimerID(9)), Err(ComponentError::NotFound));
}

#[test]
fn kind_safety() {
    let mut builder = Builder::<2>::new(Builder::<2>::allocate_array());
    assert_eq!(builder.add_output_pin(output(Port::B, Pin::P03)), Ok(()));
    assert_eq!(builder.add_input_pin(input(Port::B, Pin::P04)), Ok(()));
    let mut cell = Cell::new();
    assert_eq!(builder.finalize(&mut cell), Ok(()));
    let components = cell.get().expect("registry was published");

    // B3 is registered as an output: asking for it as an input yields
    // NotFound, never an output handle pretending to be an input.
    assert_eq!(
        components.get_input_pin(Pin::P03, Port::B),
        Err(ComponentError::NotFound)
    );
    assert!(components.get_output_pin(Pin::P03, Port::B).is_ok());
    // And the other way around for the registered input B4.
    assert_eq!(
        components.get_output_pin(Pin::P04, Port::B),
        Err(ComponentError::NotFound)
    );
    assert!(components.get_input_pin(Pin::P04, Port::B).is_ok());
}

#[test]
fn ordering_consistency() {
    // Register GPIOs and timers in scrambled order.
    let mut builder = Builder::<6>::new(Builder::<6>::allocate_array());
    assert_eq!(builder.add_input_pin(input(Port::C, Pin::P01)), Ok(()));
    assert_eq!(builder.add_timer(timer(9)), Ok(()));
    assert_eq!(builder.add_output_pin(output(Port::B, Pin::P15)), Ok(()));
    assert_eq!(builder.add_input_pin(input(Port::A, Pin::P09)), Ok(()));
    assert_eq!(builder.add_timer(timer(2)), Ok(()));
    assert_eq!(builder.add_output_pin(output(Port::A, Pin::P02)), Ok(()));
    let mut cell = Cell::new();
    assert_eq!(builder.finalize(&mut cell), Ok(()));
    let components = cell.get().expect("registry was published");

    // Independent check: sort the registered GPIO identifiers by the derived
    // lexicographic (port, pin) order, outside the library.
    let mut sorted = vec![
        gpio(Port::C, Pin::P01),
        gpio(Port::B, Pin::P15),
        gpio(Port::A, Pin::P09),
        gpio(Port::A, Pin::P02),
    ];
    sorted.sort();

    // A plain binary search over that sorted list agrees with the library's
    // own search on every candidate, registered or not.
    let registered_inputs = [gpio(Port::C, Pin::P01), gpio(Port::A, Pin::P09)];
    let candidates = [
        gpio(Port::A, Pin::P02),
        gpio(Port::A, Pin::P09),
        gpio(Port::B, Pin::P15),
        gpio(Port::C, Pin::P01),
        gpio(Port::A, Pin::P00),
        gpio(Port::D, Pin::P08),
        gpio(Port::E, Pin::P15),
    ];
    for candidate in candidates {
        let plain = sorted.binary_search(&candidate).is_ok();
        let as_input = components.get_input_pin(candidate.pin, candidate.port).is_ok();
        let as_output = components.get_output_pin(candidate.pin, candidate.port).is_ok();
        assert_eq!(plain, as_input || as_output);
        if as_input {
            assert!(registered_inputs.contains(&candidate));
        }
    }

    // The frozen array holds the GPIO block first, in identifier order: the
    // position of the k-th smallest identifier is k.
    for (expected, id) in sorted.iter().enumerate() {
        let as_input = components.get_input_pin(id.pin, id.port);
        let as_output = components.get_output_pin(id.pin, id.port);
        let position = match (as_input, as_output) {
            (Ok(index), Err(_)) => index.position(),
            (Err(_), Ok(index)) => index.position(),
            other => panic!("expected exactly one kind for {:?}: {:?}", id, other),
        };
        assert_eq!(position, expected);
    }

    // Every timer entry sorts after every GPIO entry, in timer order.
    let t2 = components.get_timer(TimerID(2)).expect("timer 2 is found");
    let t9 = components.get_timer(TimerID(9)).expect("timer 9 is found");
    assert_eq!(t2.position(), 4);
    assert_eq!(t9.position(), 5);
}

#[test]
fn scenario_capacity_three() {
    let mut builder = Builder::<3>::new(Builder::<3>::allocate_array());
    assert_eq!(
        builder.add_input_pin(FakeInput { id: gpio(Port::A, Pin::P05), high: true }),
        Ok(())
    );
    assert_eq!(builder.add_output_pin(output(Port::B, Pin::P03)), Ok(()));
    assert_eq!(builder.add_timer(timer(0)), Ok(()));
    let mut cell = Cell::new();
    assert_eq!(builder.finalize(&mut cell), Ok(()));
    let components = cell.get_mut();

    // The input accessor finds A5 and forwards to the underlying handle.
    let a5 = components
        .get_input_pin(Pin::P05, Port::A)
        .expect("input A5 is found");
    assert_eq!(components.input_pin(&a5).is_high(), Ok(true));
    assert_eq!(components.input_pin(&a5).is_low(), Ok(false));

    // The output accessor finds B3 and its handle drives the level.
    let b3 = components
        .get_output_pin(Pin::P03, Port::B)
        .expect("output B3 is found");
    assert_eq!(components.output_pin(&b3).set_high(), Ok(()));
    assert!(components.output_pin(&b3).level);

    // C1 was never registered.
    assert_eq!(
        components.get_output_pin(Pin::P01, Port::C),
        Err(ComponentError::NotFound)
    );

    // T0 is found and usable; T1 was never registered.
    let t0 = components.get_timer(TimerID(0)).expect("timer 0 is found");
    components.timer(&t0).start(Hertz::hz(50));
    assert!(components.timer(&t0).running);
    assert_eq!(components.timer(&t0).cancel(), Ok(()));
    assert_eq!(components.timer(&t0).wait(), Ok(()));
    assert_eq!(components.get_timer(TimerID(1)), Err(ComponentError::NotFound));
}

#[test]
fn component_identity_and_order() {
    let a5 = Component::<FakeInput, FakeOutput, FakeTimer>::InputGpio(InputGpio {
        gpio: gpio(Port::A, Pin::P05),
        pin: input(Port::A, Pin::P05),
    });
    let b3 = Component::<FakeInput, FakeOutput, FakeTimer>::OutputGpio(
        peripheral_registry::OutputGpio {
            gpio: gpio(Port::B, Pin::P03),
            pin: output(Port::B, Pin::P03),
        },
    );
    let t4 = Component::<FakeInput, FakeOutput, FakeTimer>::Timer(GeneralPurposeTimer {
        id: TimerID(4),
        timer: timer(4),
    });

    // GPIO components compare by identifier regardless of kind; every timer
    // compares greater than every GPIO component.
    assert_eq!(a5.comparator(&b3), std::cmp::Ordering::Less);
    assert_eq!(b3.comparator(&a5), std::cmp::Ordering::Greater);
    assert_eq!(a5.comparator(&a5), std::cmp::Ordering::Equal);
    assert_eq!(a5.comparator(&t4), std::cmp::Ordering::Less);
    assert_eq!(t4.comparator(&b3), std::cmp::Ordering::Greater);
    assert_eq!(
        t4.compare_with_gpio(&gpio(Port::E, Pin::P15)),
        std::cmp::Ordering::Greater
    );
    assert_eq!(
        a5.compare_with_gpio(&gpio(Port::A, Pin::P05)),
        std::cmp::Ordering::Equal
    );

    // Identity extraction: GPIO components have a GPIO identity, a timer
    // component does not.
    assert_eq!(a5.to_gpio(), Ok(gpio(Port::A, Pin::P05)));
    assert_eq!(b3.to_gpio(), Ok(gpio(Port::B, Pin::P03)));
    assert_eq!(t4.to_gpio(), Err(ComponentError::ConversionError));
    assert_eq!(a5.rank(), 5);
    assert_eq!(b3.rank(), 19);
    assert_eq!(t4.rank(), 84);

    // Equality of components is defined purely by identity and kind: the
    // same identifier with different handle state compares equal, and
    // different identifiers or kinds compare unequal.
    let a5_high = Component::<FakeInput, FakeOutput, FakeTimer>::InputGpio(InputGpio {
        gpio: gpio(Port::A, Pin::P05),
        pin: FakeInput { id: gpio(Port::A, Pin::P05), high: true },
    });
    assert!(a5 == a5_high);
    assert!(a5 != b3);
    assert!(b3 != t4);
}

#[test]
fn gpio_error_wraps_into_component_error() {
    let e = ComponentError::from(GpioError::In(GpioInError(3)));
    assert_eq!(e, ComponentError::GpioError(GpioError::In(GpioInError(3))));
    let e = ComponentError::from(GpioError::Out(GpioOutError(7)));
    assert_eq!(e, ComponentError::GpioError(GpioError::Out(GpioOutError(7))));
}
