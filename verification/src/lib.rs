//! Verified core of OpenLogi's gaming-mouse support and asset mirror selection.
//!
//! The device side decodes HID++ feature `0x8110` (`MouseButtonSpy`) and
//! `0x8100` (`OnboardProfiles`), turns button masks into button edges, lays out
//! the diagram targets of a mouse and drives the diagnostic command. The asset
//! side arbitrates between mirrors and routes a catalog to npm packages.

pub mod assets;
pub mod button;
pub mod diag;
pub mod diag_laws;
pub mod diag_text_laws;
pub mod feature;
pub mod hotspots;
pub mod mouse_button_spy;
pub mod onboard_profiles;
pub mod spy_capture;
pub mod text;
