//! Validation and dispatch of analytics events for a RudderStack data plane.
//!
//! A caller builds a [`message::Message`] and hands it to
//! [`client::RudderAnalytics::send`]. The message is validated
//! ([`validation`]), put into the shape in which it travels ([`wire`]), and
//! handed as one request to the transport, whose answer decides how sending
//! ends. The library makes no connection itself: the transport is the
//! caller's.

pub mod client;
pub mod errors;
pub mod message;
pub mod text;
pub mod validation;
pub mod value;
pub mod wire;
