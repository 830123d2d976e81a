//! Verified logic of a split Corne keyboard firmware for the nice!nano (nRF52840):
//! the software VBUS poller that hands the USB link over to BLE when the cable is
//! pulled, the nice!view (Sharp memory LCD) frame buffer, the status-screen text and
//! battery-gauge geometry, and the reboot-to-bootloader magic.
pub mod dfu;
pub mod display;
pub mod status;
pub mod time;
pub mod vbus;

pub use display::nice_view;
pub use vbus::usb;
