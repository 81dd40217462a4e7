//! Binary event protocol and content fingerprints of an endpoint sensor.
pub mod codec;
pub mod digest;
pub mod event;
pub mod dispatch;
