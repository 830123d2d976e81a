//! Software VBUS detection.
//!
//! The BLE controller owns the nRF POWER/CLOCK peripherals, so the USB driver
//! cannot watch VBUS through interrupts. Instead the firmware reads
//! `POWER.USBREGSTATUS` every [`POLL_INTERVAL_MS`] milliseconds and pushes changes
//! into embassy's `SoftwareVbusDetect`. When the cable is pulled the USB stack often
//! sits in `Suspended`, which the keyboard still treats as a live USB path, so the
//! poller also forces the USB state to `Disabled` whenever VBUS is absent: BLE then
//! becomes the active transport.
//!
//! [`VbusPoller::step`] decides, for one register reading, what to tell the
//! driver; the caller performs the actions in the order of the fields of
//! [`VbusActions`].
use vstd::prelude::*;

use crate::time::{millis_to_ticks, ticks_from_millis};

verus! {

/// Milliseconds between two readings of `USBREGSTATUS`.
pub const POLL_INTERVAL_MS: u64 = 50;

/// One reading of the nRF `POWER.USBREGSTATUS` register.
#[derive(Clone, Copy, Debug, PartialEq, Eq, Structural)]
pub struct UsbRegStatus {
    /// `VBUSDETECT`: the USB supply is present.
    pub vbus_detected: bool,
    /// `OUTPUTRDY`: the USB regulator output is ready.
    pub output_ready: bool,
}

/// The arguments of `SoftwareVbusDetect::new` when the USB driver is built.
#[derive(Clone, Copy, Debug, PartialEq, Eq, Structural)]
pub struct VbusDetectInit {
    /// Whether the driver starts with VBUS present.
    pub usb_detected: bool,
    /// Whether the driver starts with the USB regulator ready.
    pub power_ready: bool,
}

/// What the poller tells the USB stack after one reading, in this order.
#[derive(Clone, Copy, Debug, PartialEq, Eq, Structural)]
pub struct VbusActions {
    /// `Some(d)`: call `SoftwareVbusDetect::detected(d)` (VBUS came or went).
    pub detected: Option<bool>,
    /// Call `SoftwareVbusDetect::ready()` (the regulator became ready).
    pub ready: bool,
    /// Set the keyboard's USB state to `Disabled` (no VBUS: use BLE).
    pub disable_usb: bool,
}

/// What the poller remembers between two readings.
#[derive(Clone, Copy, Debug, PartialEq, Eq, Structural)]
pub struct VbusPoller {
    /// VBUS presence as last reported to the driver.
    pub last_detected: bool,
    /// Whether the driver has been told that the regulator is ready since VBUS last
    /// changed.
    pub last_ready: bool,
}

/// The poller's state after the first reading of the register.
pub open spec fn initial_poller(status: UsbRegStatus) -> VbusPoller {
    VbusPoller { last_detected: status.vbus_detected, last_ready: status.output_ready }
}

/// Whether `status` reports a change of VBUS presence against `s`.
pub open spec fn vbus_changed(s: VbusPoller, status: UsbRegStatus) -> bool {
    status.vbus_detected != s.last_detected
}

/// Whether the driver counts as told of readiness once the change (if any) has been
/// reported: `SoftwareVbusDetect::detected` clears the driver's ready flag.
pub open spec fn ready_known(s: VbusPoller, status: UsbRegStatus) -> bool {
    !vbus_changed(s, status) && s.last_ready
}

/// The actions for one reading `status` taken in state `s`.
pub open spec fn poll_actions(s: VbusPoller, status: UsbRegStatus) -> VbusActions {
    VbusActions {
        detected: if vbus_changed(s, status) { Some(status.vbus_detected) } else { None },
        ready: status.vbus_detected && status.output_ready && !ready_known(s, status),
        disable_usb: !status.vbus_detected,
    }
}

/// The state after one reading `status` taken in state `s`.
pub open spec fn poll_next(s: VbusPoller, status: UsbRegStatus) -> VbusPoller {
    VbusPoller {
        last_detected: status.vbus_detected,
        last_ready: ready_known(s, status) || poll_actions(s, status).ready,
    }
}

/// The state after a run of readings, one after the other.
pub open spec fn poll_run(s: VbusPoller, readings: Seq<UsbRegStatus>) -> VbusPoller
    decreases readings.len(),
{
    if readings.len() == 0 {
        s
    } else {
        poll_next(poll_run(s, readings.drop_last()), readings.last())
    }
}

/// How many `ready()` calls a run of readings makes.
pub open spec fn ready_count(s: VbusPoller, readings: Seq<UsbRegStatus>) -> nat
    decreases readings.len(),
{
    if readings.len() == 0 {
        0
    } else {
        let before = poll_run(s, readings.drop_last());
        ready_count(s, readings.drop_last()) + if poll_actions(before, readings.last()).ready {
            1nat
        } else {
            0nat
        }
    }
}

/// The USB part of the keyboard's start-up: the `SoftwareVbusDetect` handed to the
/// USB driver starts from the current register reading.
pub fn usb(status: UsbRegStatus) -> (init: VbusDetectInit)
    ensures
        init.usb_detected == status.vbus_detected,
        init.power_ready == status.output_ready,
{
    VbusDetectInit { usb_detected: status.vbus_detected, power_ready: status.output_ready }
}

/// Ticks of the 32 768 Hz timebase between two readings of the register
/// (`Duration::from_millis(POLL_INTERVAL_MS)`).
pub fn poll_interval_ticks() -> (ticks: u64)
    ensures
        ticks == millis_to_ticks(POLL_INTERVAL_MS as int),
{
    ticks_from_millis(POLL_INTERVAL_MS)
}

impl VbusPoller {
    /// The poller starts from the reading taken when its task starts.
    pub fn new(status: UsbRegStatus) -> (p: VbusPoller)
        ensures
            p == initial_poller(status),
            p.last_detected == status.vbus_detected,
            p.last_ready == status.output_ready,
    {
        VbusPoller { last_detected: status.vbus_detected, last_ready: status.output_ready }
    }

    /// Takes one reading of `USBREGSTATUS` and says what to tell the USB stack.
    pub fn step(&mut self, status: UsbRegStatus) -> (actions: VbusActions)
        ensures
            actions == poll_actions(*old(self), status),
            *final(self) == poll_next(*old(self), status),
            // A change of VBUS presence is reported, with the new value, and only then.
            actions.detected == (if status.vbus_detected != old(self).last_detected {
                Some(status.vbus_detected)
            } else {
                None
            }),
            // Without VBUS the USB link is forced down at every reading.
            actions.disable_usb <==> !status.vbus_detected,
            // Readiness is reported only while VBUS is present and the regulator is ready.
            actions.ready ==> status.vbus_detected && status.output_ready,
            final(self).last_detected == status.vbus_detected,
    {
        let detected = status.vbus_detected;
        let ready = status.output_ready;
        let mut actions = VbusActions { detected: None, ready: false, disable_usb: false };
        if detected != self.last_detected {
            actions.detected = Some(detected);
            self.last_detected = detected;
            self.last_ready = false;
        }
        if detected && ready && !self.last_ready {
            actions.ready = true;
            self.last_ready = true;
        }
        if !detected {
            actions.disable_usb = true;
        }
        actions
    }
}

/// A reading that repeats the previous one changes nothing and makes no call to the
/// driver but, without VBUS, the forced `Disabled` USB state.
pub proof fn lemma_repeated_reading_is_quiet(s: VbusPoller, status: UsbRegStatus)
    ensures
        poll_next(poll_next(s, status), status) == poll_next(s, status),
        poll_actions(poll_next(s, status), status).detected is None,
        !poll_actions(poll_next(s, status), status).ready,
        poll_actions(poll_next(s, status), status).disable_usb == !status.vbus_detected,
{
}

/// The poller starts from the first reading: it holds that reading's VBUS presence and
/// regulator state, so a second reading equal to the first reports no VBUS change and
/// no readiness, and a second reading that differs in VBUS presence reports the change.
pub proof fn lemma_start_from_first_reading(first: UsbRegStatus, second: UsbRegStatus)
    ensures
        initial_poller(first).last_detected == first.vbus_detected,
        initial_poller(first).last_ready == first.output_ready,
        poll_actions(initial_poller(first), first).detected is None,
        !poll_actions(initial_poller(first), first).ready,
        poll_actions(initial_poller(first), second).detected == if second.vbus_detected
            == first.vbus_detected {
            None
        } else {
            Some(second.vbus_detected)
        },
{
}

/// After a run of readings, the poller holds the VBUS presence of the last one.
pub proof fn lemma_run_tracks_last_reading(s: VbusPoller, readings: Seq<UsbRegStatus>)
    requires
        readings.len() > 0,
    ensures
        poll_run(s, readings).last_detected == readings.last().vbus_detected,
{
}

/// Within one VBUS session (every reading has the same VBUS presence), the driver is
/// told at most once that the regulator is ready, and never while VBUS is absent.
pub proof fn lemma_ready_once_per_session(s: VbusPoller, readings: Seq<UsbRegStatus>, present: bool)
    requires
        forall|i: int| 0 <= i < readings.len() ==> #[trigger] readings[i].vbus_detected == present,
    ensures
        ready_count(s, readings) <= 1,
        !present ==> ready_count(s, readings) == 0,
        readings.len() > 0 && ready_count(s, readings) == 1 ==> poll_run(s, readings).last_ready,
    decreases readings.len(),
{
    if readings.len() > 0 {
        let prefix = readings.drop_last();
        assert forall|i: int| 0 <= i < prefix.len() implies #[trigger] prefix[i].vbus_detected
            == present by {
            assert(prefix[i] == readings[i]);
        }
        lemma_ready_once_per_session(s, prefix, present);
        let before = poll_run(s, prefix);
        if prefix.len() > 0 {
            lemma_run_tracks_last_reading(s, prefix);
            assert(prefix.last() == readings[readings.len() - 2]);
        }
        assert(readings.last() == readings[readings.len() - 1]);
        if ready_count(s, prefix) == 1 {
            assert(before.last_ready);
            assert(before.last_detected == present);
        }
    }
}

/// A VBUS connection is reported as such, and readiness is reported with it as soon
/// as the regulator output is ready, whatever the driver was told before.
pub proof fn lemma_connection_resets_ready(s: VbusPoller, status: UsbRegStatus)
    requires
        !s.last_detected,
        status.vbus_detected,
    ensures
        poll_actions(s, status).detected == Some(true),
        poll_actions(s, status).ready == status.output_ready,
        poll_next(s, status).last_ready == status.output_ready,
{
}

} // verus!
