//! What the bundled input methods need besides the protocol.

pub mod xr_controllers;
