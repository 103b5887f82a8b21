//! Trusted boundary to the GPIO peripheral, the dwell timer and the frame
//! tick channel. Everything the driver asks of the outside world goes
//! through the declarations and wrappers of this module; the rest of the
//! crate is verified against their contracts.

use vstd::prelude::*;

verus! {

#[verifier::external_type_specification]
#[verifier::external_body]
/// The GPIO peripheral handle of rppal, handed in by the caller at startup.
pub struct ExGpio(rppal::gpio::Gpio);

#[verifier::external_type_specification]
#[verifier::external_body]
/// An unconfigured GPIO pin handle of rppal.
pub struct ExPin(rppal::gpio::Pin);

#[verifier::external_type_specification]
#[verifier::external_body]
/// A GPIO pin handle of rppal configured as an output.
pub struct ExOutputPin(rppal::gpio::OutputPin);

#[verifier::external_type_specification]
#[verifier::external_body]
/// The error rppal reports when a pin cannot be claimed or configured.
pub struct ExGpioError(rppal::gpio::Error);

#[verifier::external_type_specification]
#[verifier::external_body]
#[verifier::reject_recursive_types(T)]
/// The receiving end of a standard mpsc channel; carries frame ticks.
pub struct ExReceiver<T>(std::sync::mpsc::Receiver<T>);

#[verifier::external_type_specification]
#[verifier::external_body]
/// The error of a non-blocking receive on an empty or closed channel.
pub struct ExTryRecvError(std::sync::mpsc::TryRecvError);

/// One exclusively owned physical output line together with the logic
/// level it was last driven to and the history of every level ever
/// driven onto it. Both are ghost state: the hardware holds the real
/// level, and every write goes through [`write_level`], which keeps the
/// model in step. The fields are private to this module, so no verified
/// code can detach the model from the hardware.
pub struct Line {
    pub pin: rppal::gpio::OutputPin,
    level: Ghost<bool>,
    writes: Ghost<Seq<bool>>,
}

impl Line {
    /// The pin handle this line drives: the wiring of the grid.
    pub closed spec fn pin_handle(self) -> rppal::gpio::OutputPin {
        self.pin
    }

    /// The logic level this line currently rests at (true = high).
    pub closed spec fn level(self) -> bool {
        self.level@
    }

    /// Every level driven onto this line since it was configured as an
    /// output, oldest first; the configuring write is the first entry.
    pub closed spec fn writes(self) -> Seq<bool> {
        self.writes@
    }
}

/// The dwell timer of the driver: counts, as ghost state, how many dwell
/// periods have been held on it. Every hold goes through
/// [`dwell_micros`], which keeps the count in step.
pub struct DwellTimer {
    held: Ghost<nat>,
}

impl DwellTimer {
    /// How many dwell periods have been held on this timer.
    pub closed spec fn held(self) -> nat {
        self.held@
    }

    /// A fresh timer with no periods held.
    pub fn new() -> (t: DwellTimer)
        ensures
            t.held() == 0,
    {
        DwellTimer { held: Ghost(0nat) }
    }
}

/// Relies on rppal::gpio::Gpio::get: returns an owned handle for the BCM
/// pin number, or an error when the number is invalid or the pin is
/// already claimed. Which of the two happens depends on the hardware and
/// on what else is running, so nothing is promised of the outcome.
#[verifier::external_body]
pub(crate) fn gpio_get(gpio: &rppal::gpio::Gpio, pin: u8) -> (r: Result<
    rppal::gpio::Pin,
    rppal::gpio::Error,
>) {
    gpio.get(pin)
}

/// Relies on rppal::gpio::Pin::into_output_low: drives the pin low (the
/// one initializing write), then switches it to output mode, so the
/// returned line rests low.
#[verifier::external_body]
pub(crate) fn into_output_low(pin: rppal::gpio::Pin) -> (l: Line)
    ensures
        l.level() == false,
        l.writes() == seq![false],
{
    Line { pin: pin.into_output_low(), level: Ghost(false), writes: Ghost(seq![false]) }
}

/// Relies on rppal::gpio::Pin::into_output_high: drives the pin high (the
/// one initializing write), then switches it to output mode, so the
/// returned line rests high.
#[verifier::external_body]
pub(crate) fn into_output_high(pin: rppal::gpio::Pin) -> (l: Line)
    ensures
        l.level() == true,
        l.writes() == seq![true],
{
    Line { pin: pin.into_output_high(), level: Ghost(true), writes: Ghost(seq![true]) }
}

/// Relies on rppal::gpio::OutputPin::write: sets the pin's output state to
/// the given level, where true is high, and so appends that one level to
/// the line's write history. The handle itself is untouched: the write
/// goes to the hardware register, not to the pin value.
#[verifier::external_body]
pub(crate) fn write_level(line: &mut Line, high: bool)
    ensures
        final(line).level() == high,
        final(line).pin_handle() == old(line).pin_handle(),
        final(line).writes() == old(line).writes().push(high),
{
    line.pin.write(if high {
        rppal::gpio::Level::High
    } else {
        rppal::gpio::Level::Low
    });
}

/// Relies on rppal::hal::Delay (embedded_hal::delay::DelayNs::delay_us):
/// blocks the calling thread for at least the given number of
/// microseconds, holding one dwell period on the timer. Only time
/// passes; no other state is touched.
#[verifier::external_body]
pub(crate) fn dwell_micros(timer: &mut DwellTimer, us: u32)
    ensures
        final(timer).held() == old(timer).held() + 1,
{
    embedded_hal::delay::DelayNs::delay_us(&mut rppal::hal::Delay, us);
}

/// Relies on std::sync::mpsc::Receiver::try_recv: returns a pending value
/// without ever blocking, or an error when the channel is empty or every
/// sender is gone. How many ticks are pending depends on the sending
/// thread, so nothing is promised of the outcome.
#[verifier::external_body]
pub(crate) fn try_recv_tick(rx: &std::sync::mpsc::Receiver<()>) -> (r: Result<
    (),
    std::sync::mpsc::TryRecvError,
>) {
    rx.try_recv()
}

} // verus!
